//! Character-level helpers: string comparison and the numeric grammars that
//! vendor cells are parsed with.
//!
//! Money and weight cells arrive as text with currency symbols, thousands
//! separators and percent signs embedded.  Values with a fractional part are
//! held as fixed-point integers: a scale of `k` means the integer carries
//! `10^k` units per whole unit.

use vstd::prelude::*;
use vstd::string::StrSliceExecFns;

verus! {

pub open spec fn is_digit_char(c: char) -> bool {
    48 <= c as u32 <= 57
}

pub open spec fn digit_val(c: char) -> int {
    c as u32 - 48
}

pub open spec fn all_digits(s: Seq<char>) -> bool {
    forall|i: int| 0 <= i < s.len() ==> is_digit_char(#[trigger] s[i])
}

/// The number a run of decimal digits denotes, most significant first.
pub open spec fn digits_val(s: Seq<char>) -> int
    decreases s.len(),
{
    if s.len() == 0 {
        0
    } else {
        digits_val(s.drop_last()) * 10 + digit_val(s.last())
    }
}

pub open spec fn pow10(k: nat) -> int
    decreases k,
{
    if k == 0 {
        1
    } else {
        10 * pow10((k - 1) as nat)
    }
}

pub proof fn lemma_pow10_positive(k: nat)
    ensures
        pow10(k) >= 1,
    decreases k,
{
    if k > 0 {
        lemma_pow10_positive((k - 1) as nat);
    }
}

pub proof fn lemma_digits_val_bounds(s: Seq<char>)
    requires
        all_digits(s),
    ensures
        0 <= digits_val(s) < pow10(s.len()),
    decreases s.len(),
{
    if s.len() == 0 {
    } else {
        assert(all_digits(s.drop_last()));
        lemma_digits_val_bounds(s.drop_last());
        assert(is_digit_char(s.last()));
        lemma_pow10_positive((s.len() - 1) as nat);
    }
}

/// Digit runs longer than this are rejected: 14 digits always fit in an `i64`
/// even after scaling by `10^4`.
pub open spec fn max_digit_run() -> int {
    14
}

/// What a bare digit run parses to: its value when it is 1 to 14 digits of
/// nothing but digits, nothing otherwise.
pub open spec fn digits_spec(s: Seq<char>) -> Option<u64> {
    if 1 <= s.len() <= max_digit_run() && all_digits(s) {
        Some(digits_val(s) as u64)
    } else {
        None
    }
}

pub fn parse_digits(v: &Vec<char>) -> (r: Option<u64>)
    ensures
        r == digits_spec(v@),
{
    let n = v.len();
    if n < 1 || n > 14 {
        return None;
    }
    let mut i: usize = 0;
    let mut acc: u64 = 0;
    while i < n
        invariant
            i <= n,
            n == v@.len(),
            1 <= n <= 14,
            forall|j: int| 0 <= j < i ==> is_digit_char(#[trigger] v@[j]),
            acc == digits_val(v@.subrange(0, i as int)),
            acc < pow10(i as nat),
        decreases n - i,
    {
        let c = v[i];
        let u = c as u32;
        if u < 48 || u > 57 {
            assert(!is_digit_char(v@[i as int]));
            return None;
        }
        proof {
            lemma_digits_val_bounds(v@.subrange(0, i as int));
            assert(pow10((i + 1) as nat) == 10 * pow10(i as nat));
            lemma_pow10_le(i as nat, 13);
            lemma_pow10_13();
        }
        acc = acc * 10 + ((u - 48) as u64);
        proof {
            let pre = v@.subrange(0, i as int);
            let post = v@.subrange(0, i + 1);
            assert(post.drop_last() =~= pre);
            assert(post.last() == v@[i as int]);
        }
        i = i + 1;
    }
    proof {
        assert(v@.subrange(0, n as int) =~= v@);
    }
    Some(acc)
}

pub proof fn lemma_pow10_le(a: nat, b: nat)
    requires
        a <= b,
    ensures
        pow10(a) <= pow10(b),
    decreases b,
{
    if a < b {
        lemma_pow10_le(a, (b - 1) as nat);
        lemma_pow10_positive((b - 1) as nat);
    }
}

pub proof fn lemma_pow10_13()
    ensures
        pow10(13) == 10000000000000,
{
    reveal_with_fuel(pow10, 15);
}

pub proof fn lemma_pow10_18()
    ensures
        pow10(14) == 100000000000000,
        pow10(18) == 1000000000000000000,
{
    reveal_with_fuel(pow10, 20);
}

/// Collects the characters of a string into a vector for index-wise work.
pub fn str_to_chars(s: &str) -> (r: Vec<char>)
    ensures
        r@ == s@,
{
    let n = s.unicode_len();
    let mut v: Vec<char> = Vec::new();
    let mut i: usize = 0;
    while i < n
        invariant
            i <= n,
            n == s@.len(),
            v@ == s@.subrange(0, i as int),
        decreases n - i,
    {
        let c = s.get_char(i);
        v.push(c);
        proof {
            assert(v@ =~= s@.subrange(0, i + 1));
        }
        i = i + 1;
    }
    proof {
        assert(s@.subrange(0, n as int) =~= s@);
    }
    v
}

/// Character-wise string equality; `&str` carries no specified `==` of its own.
pub fn str_eq(a: &str, b: &str) -> (r: bool)
    ensures
        r == (a@ == b@),
{
    let n = a.unicode_len();
    let m = b.unicode_len();
    if n != m {
        return false;
    }
    let mut i: usize = 0;
    while i < n
        invariant
            i <= n,
            n == a@.len(),
            n == b@.len(),
            forall|j: int| 0 <= j < i ==> a@[j] == b@[j],
        decreases n - i,
    {
        if a.get_char(i) != b.get_char(i) {
            return false;
        }
        i = i + 1;
    }
    proof {
        assert(a@ =~= b@);
    }
    true
}

pub open spec fn ends_with_spec(s: Seq<char>, suffix: Seq<char>) -> bool {
    s.len() >= suffix.len() && s.skip(s.len() - suffix.len()) == suffix
}

pub fn ends_with(s: &str, suffix: &str) -> (r: bool)
    ensures
        r == ends_with_spec(s@, suffix@),
{
    let n = s.unicode_len();
    let m = suffix.unicode_len();
    if n < m {
        return false;
    }
    let mut i: usize = 0;
    while i < m
        invariant
            i <= m,
            m <= n,
            n == s@.len(),
            m == suffix@.len(),
            forall|j: int| 0 <= j < i ==> s@[n - m + j] == suffix@[j],
        decreases m - i,
    {
        if s.get_char(n - m + i) != suffix.get_char(i) {
            assert(s@.skip(n as int - m as int)[i as int] == s@[n - m + i]);
            return false;
        }
        i = i + 1;
    }
    proof {
        assert(s@.skip(n as int - m as int) =~= suffix@);
    }
    true
}

/// First position of `c` in `s`, if any.
pub open spec fn first_index_of(s: Seq<char>, c: char) -> Option<int>
    decreases s.len(),
{
    if s.len() == 0 {
        None
    } else if s[0] == c {
        Some(0)
    } else {
        match first_index_of(s.skip(1), c) {
            Some(i) => Some(i + 1),
            None => None,
        }
    }
}

pub proof fn lemma_first_index_of(s: Seq<char>, c: char)
    ensures
        match first_index_of(s, c) {
            Some(i) => 0 <= i < s.len() && s[i] == c && forall|j: int| 0 <= j < i ==> s[j] != c,
            None => forall|j: int| 0 <= j < s.len() ==> s[j] != c,
        },
    decreases s.len(),
{
    if s.len() == 0 {
    } else if s[0] == c {
    } else {
        lemma_first_index_of(s.skip(1), c);
        let t = s.skip(1);
        assert(forall|j: int| 0 <= j < t.len() ==> #[trigger] t[j] == s[j + 1]);
        match first_index_of(t, c) {
            Some(i) => {
                assert(t[i] == s[i + 1]);
                assert forall|j: int| 0 <= j < i + 1 implies s[j] != c by {
                    if j > 0 {
                        assert(t[j - 1] != c);
                    }
                }
            },
            None => {
                assert forall|j: int| 0 <= j < s.len() implies s[j] != c by {
                    if j > 0 {
                        assert(t[j - 1] != c);
                    }
                }
            },
        }
    }
}

/// `s` with the first occurrence of `c` removed, if there is one.
pub open spec fn remove_first(s: Seq<char>, c: char) -> Seq<char> {
    match first_index_of(s, c) {
        None => s,
        Some(i) => s.remove(i),
    }
}

/// `s` with every occurrence of `c` removed.
pub open spec fn remove_all(s: Seq<char>, c: char) -> Seq<char> {
    s.filter(|x: char| x != c)
}

pub fn copy_chars(v: &Vec<char>) -> (r: Vec<char>)
    ensures
        r@ == v@,
{
    let n = v.len();
    let mut out: Vec<char> = Vec::new();
    let mut i: usize = 0;
    while i < n
        invariant
            i <= n,
            n == v@.len(),
            out@ == v@.subrange(0, i as int),
        decreases n - i,
    {
        out.push(v[i]);
        proof {
            assert(out@ =~= v@.subrange(0, i + 1));
        }
        i = i + 1;
    }
    proof {
        assert(v@.subrange(0, n as int) =~= v@);
    }
    out
}

pub fn find_char(v: &Vec<char>, c: char) -> (r: Option<usize>)
    ensures
        match r {
            Some(i) => first_index_of(v@, c) == Some(i as int),
            None => first_index_of(v@, c) is None,
        },
{
    let n = v.len();
    let mut i: usize = 0;
    while i < n
        invariant
            i <= n,
            n == v@.len(),
            forall|j: int| 0 <= j < i ==> v@[j] != c,
        decreases n - i,
    {
        if v[i] == c {
            proof {
                lemma_first_index_of(v@, c);
                match first_index_of(v@, c) {
                    Some(k) => {
                        if k < i as int {
                            assert(v@[k] != c);
                        }
                        if (i as int) < k {
                            assert(v@[i as int] != c);
                        }
                        assert(k == i as int);
                    },
                    None => {
                        assert(v@[i as int] != c);
                    },
                }
            }
            return Some(i);
        }
        i = i + 1;
    }
    proof {
        lemma_first_index_of(v@, c);
        if first_index_of(v@, c) is Some {
            let k = first_index_of(v@, c)->Some_0;
            assert(v@[k] != c);
        }
    }
    None
}

pub fn remove_first_char(v: &Vec<char>, c: char) -> (r: Vec<char>)
    ensures
        r@ == remove_first(v@, c),
{
    match find_char(v, c) {
        None => copy_chars(v),
        Some(i) => {
            proof {
                lemma_first_index_of(v@, c);
            }
            let mut out = copy_chars(v);
            out.remove(i);
            out
        },
    }
}

pub fn remove_all_char(v: &Vec<char>, c: char) -> (r: Vec<char>)
    ensures
        r@ == remove_all(v@, c),
{
    let n = v.len();
    let mut i: usize = 0;
    let mut out: Vec<char> = Vec::new();
    while i < n
        invariant
            i <= n,
            n == v@.len(),
            out@ == remove_all(v@.subrange(0, i as int), c),
        decreases n - i,
    {
        let x = v[i];
        proof {
            let pre = v@.subrange(0, i as int);
            let post = v@.subrange(0, i + 1);
            assert(post.drop_last() =~= pre);
            assert(post.last() == v@[i as int]);
            reveal_with_fuel(Seq::filter, 2);
            if v@[i as int] != c {
                assert(remove_all(post, c) =~= remove_all(pre, c).push(v@[i as int]));
            } else {
                assert(remove_all(post, c) =~= remove_all(pre, c));
            }
        }
        if x != c {
            out.push(x);
        }
        i = i + 1;
    }
    proof {
        assert(v@.subrange(0, n as int) =~= v@);
    }
    out
}

pub fn subvec(v: &Vec<char>, a: usize, b: usize) -> (r: Vec<char>)
    requires
        a <= b <= v@.len(),
    ensures
        r@ == v@.subrange(a as int, b as int),
{
    let mut out: Vec<char> = Vec::new();
    let mut i: usize = a;
    while i < b
        invariant
            a <= i <= b <= v@.len(),
            out@ == v@.subrange(a as int, i as int),
        decreases b - i,
    {
        out.push(v[i]);
        proof {
            assert(out@ =~= v@.subrange(a as int, i + 1));
        }
        i = i + 1;
    }
    out
}

pub fn all_digits_exec(v: &Vec<char>) -> (r: bool)
    ensures
        r == all_digits(v@),
{
    let n = v.len();
    let mut i: usize = 0;
    while i < n
        invariant
            i <= n,
            n == v@.len(),
            forall|j: int| 0 <= j < i ==> is_digit_char(#[trigger] v@[j]),
        decreases n - i,
    {
        let u = v[i] as u32;
        if u < 48 || u > 57 {
            assert(!is_digit_char(v@[i as int]));
            return false;
        }
        i = i + 1;
    }
    true
}

pub proof fn lemma_pow10_add(a: nat, b: nat)
    ensures
        pow10(a) * pow10(b) == pow10(a + b),
    decreases a,
{
    if a == 0 {
    } else {
        lemma_pow10_add((a - 1) as nat, b);
        assert(pow10(a) * pow10(b) == 10 * pow10((a - 1) as nat) * pow10(b));
        assert(10 * pow10((a - 1) as nat) * pow10(b) == 10 * (pow10((a - 1) as nat) * pow10(b)))
            by (nonlinear_arith);
    }
}

pub fn pow10_u64(k: u32) -> (r: u64)
    requires
        k <= 18,
    ensures
        r as int == pow10(k as nat),
{
    proof {
        reveal_with_fuel(pow10, 20);
    }
    let mut r: u64 = 1;
    let mut i: u32 = 0;
    while i < k
        invariant
            i <= k <= 18,
            r as int == pow10(i as nat),
            r <= 1000000000000000000,
        decreases k - i,
    {
        proof {
            lemma_pow10_le(i as nat + 1, 18);
            reveal_with_fuel(pow10, 20);
        }
        r = r * 10;
        i = i + 1;
    }
    r
}

/// The characters before and after the first `.`; no `.` means an empty
/// fractional part.
pub open spec fn split_at_dot(s: Seq<char>) -> (Seq<char>, Seq<char>) {
    match first_index_of(s, '.') {
        None => (s, Seq::empty()),
        Some(i) => (s.take(i), s.skip(i + 1)),
    }
}

pub open spec fn decimal_mag_wf(ip: Seq<char>, fp: Seq<char>) -> bool {
    1 <= ip.len() <= max_digit_run() && all_digits(ip) && all_digits(fp)
}

/// The scaled magnitude of `ip.fp`: fractional digits beyond the scale are
/// dropped (truncation toward zero).
pub open spec fn scaled_mag(ip: Seq<char>, fp: Seq<char>, scale: nat) -> int {
    let taken = if fp.len() <= scale { fp } else { fp.take(scale as int) };
    digits_val(ip) * pow10(scale) + digits_val(taken) * pow10((scale - taken.len()) as nat)
}

/// What a decimal text denotes at a fixed scale: an optional `-`, one to
/// fourteen integer digits, then optionally `.` and fractional digits.
/// Anything else is no number.
pub open spec fn parse_scaled_spec(s: Seq<char>, scale: nat) -> Option<i64> {
    let neg = s.len() > 0 && s[0] == '-';
    let body = if neg {
        s.skip(1)
    } else {
        s
    };
    let (ip, fp) = split_at_dot(body);
    if decimal_mag_wf(ip, fp) && scale <= 4 {
        let m = scaled_mag(ip, fp, scale);
        if neg {
            Some((-m) as i64)
        } else {
            Some(m as i64)
        }
    } else {
        None
    }
}

pub proof fn lemma_scaled_mag_bounds(ip: Seq<char>, fp: Seq<char>, scale: nat)
    requires
        decimal_mag_wf(ip, fp),
        scale <= 4,
    ensures
        0 <= scaled_mag(ip, fp, scale) < pow10(18),
{
    let taken = if fp.len() <= scale {
        fp
    } else {
        fp.take(scale as int)
    };
    assert(all_digits(taken));
    assert(taken.len() <= scale);
    lemma_digits_val_bounds(ip);
    lemma_digits_val_bounds(taken);
    lemma_pow10_positive(scale);
    lemma_pow10_positive((scale - taken.len()) as nat);
    lemma_pow10_le(ip.len() as nat, 14);
    lemma_pow10_le(scale, 4);
    assert(digits_val(ip) * pow10(scale) <= (pow10(14) - 1) * pow10(4)) by (nonlinear_arith)
        requires
            0 <= digits_val(ip) <= pow10(14) - 1,
            1 <= pow10(scale) <= pow10(4),
    ;
    assert(digits_val(ip) * pow10(scale) >= 0) by (nonlinear_arith)
        requires
            0 <= digits_val(ip),
            1 <= pow10(scale),
    ;
    assert(digits_val(taken) * pow10((scale - taken.len()) as nat) < pow10(scale)) by {
        lemma_pow10_add(taken.len(), (scale - taken.len()) as nat);
        assert(digits_val(taken) * pow10((scale - taken.len()) as nat) <= (pow10(taken.len()) - 1)
            * pow10((scale - taken.len()) as nat)) by (nonlinear_arith)
            requires
                0 <= digits_val(taken) <= pow10(taken.len()) - 1,
                1 <= pow10((scale - taken.len()) as nat),
        ;
        assert((pow10(taken.len()) - 1) * pow10((scale - taken.len()) as nat) == pow10(taken.len())
            * pow10((scale - taken.len()) as nat) - pow10((scale - taken.len()) as nat))
            by (nonlinear_arith);
    }
    assert(digits_val(taken) * pow10((scale - taken.len()) as nat) >= 0) by (nonlinear_arith)
        requires
            0 <= digits_val(taken),
            1 <= pow10((scale - taken.len()) as nat),
    ;
    lemma_pow10_18();
    assert((pow10(14) - 1) * pow10(4) == pow10(14) * pow10(4) - pow10(4)) by (nonlinear_arith);
    lemma_pow10_add(14, 4);
}

pub fn parse_scaled(v: &Vec<char>, scale: u32) -> (r: Option<i64>)
    requires
        scale <= 4,
    ensures
        r == parse_scaled_spec(v@, scale as nat),
{
    let neg: bool = v.len() > 0 && v[0] == '-';
    let body: Vec<char> = if neg {
        subvec(v, 1, v.len())
    } else {
        copy_chars(v)
    };
    proof {
        if neg {
            assert(body@ =~= v@.skip(1));
        }
    }
    let (ipv, fpv): (Vec<char>, Vec<char>) = match find_char(&body, '.') {
        None => {
            let ip = copy_chars(&body);
            (ip, Vec::new())
        },
        Some(i) => {
            proof {
                lemma_first_index_of(body@, '.');
            }
            let ip = subvec(&body, 0, i);
            let fp = subvec(&body, i + 1, body.len());
            (ip, fp)
        },
    };
    proof {
        assert((ipv@, fpv@) == split_at_dot(body@));
    }
    let ip_val: u64 = match parse_digits(&ipv) {
        Some(x) => x,
        None => {
            return None;
        },
    };
    if !all_digits_exec(&fpv) {
        return None;
    }
    let taken_len: usize = if fpv.len() <= scale as usize {
        fpv.len()
    } else {
        scale as usize
    };
    let takenv = subvec(&fpv, 0, taken_len);
    proof {
        if fpv@.len() <= scale as nat {
            assert(takenv@ =~= fpv@);
        } else {
            assert(takenv@ =~= fpv@.take(scale as int));
        }
    }
    let frac_val: u64 = if taken_len == 0 {
        assert(takenv@ =~= Seq::<char>::empty());
        0
    } else {
        match parse_digits(&takenv) {
            Some(x) => x,
            None => {
                proof {
                    assert(all_digits(takenv@));
                    assert(false);
                }
                0
            },
        }
    };
    proof {
        lemma_scaled_mag_bounds(ipv@, fpv@, scale as nat);
        lemma_digits_val_bounds(ipv@);
        lemma_digits_val_bounds(takenv@);
        lemma_pow10_le(ipv@.len() as nat, 14);
        lemma_pow10_le(scale as nat, 4);
        lemma_pow10_le((scale as nat - takenv@.len()) as nat, 4);
        lemma_pow10_18();
        reveal_with_fuel(pow10, 20);
    }
    let p_scale = pow10_u64(scale);
    let p_rest = pow10_u64(scale - taken_len as u32);
    let hi = ip_val * p_scale;
    let m: u64 = hi + frac_val * p_rest;
    proof {
        assert(hi as int == digits_val(ipv@) * pow10(scale as nat));
        assert(m as int == scaled_mag(ipv@, fpv@, scale as nat));
    }
    if neg {
        Some(-(m as i64))
    } else {
        Some(m as i64)
    }
}

/// Money text: the first `$` and every thousands separator are stripped, the
/// remainder must be a decimal number; its whole currency units are kept.
pub open spec fn money_spec(s: Seq<char>) -> Option<i64> {
    parse_scaled_spec(remove_all(remove_first(s, '$'), ','), 0)
}

pub fn parse_money(s: &str) -> (r: Option<i64>)
    ensures
        r == money_spec(s@),
{
    let v = str_to_chars(s);
    let v1 = remove_first_char(&v, '$');
    let v2 = remove_all_char(&v1, ',');
    parse_scaled(&v2, 0)
}

/// The scale weights are held at: `10^4` units per percentage point.
pub open spec fn weight_scale() -> nat {
    4
}

/// Weight text: percent signs are stripped, the rest is read at the weight
/// scale.
pub open spec fn weight_spec(s: Seq<char>) -> Option<i64> {
    parse_scaled_spec(remove_all(s, '%'), weight_scale())
}

pub fn parse_weight(s: &str) -> (r: Option<i64>)
    ensures
        r == weight_spec(s@),
{
    let v = str_to_chars(s);
    let v1 = remove_all_char(&v, '%');
    parse_scaled(&v1, 4)
}

/// The scale prices are held at: `10^2` units (hundredths) per currency unit.
pub open spec fn price_scale() -> nat {
    2
}

/// Price text: thousands separators are stripped, the rest is read at the
/// price scale.
pub open spec fn price_spec(s: Seq<char>) -> Option<i64> {
    parse_scaled_spec(remove_all(s, ','), price_scale())
}

pub fn parse_price(s: &str) -> (r: Option<i64>)
    ensures
        r == price_spec(s@),
{
    let v = str_to_chars(s);
    let v1 = remove_all_char(&v, ',');
    parse_scaled(&v1, 2)
}

/// Share-count text: thousands separators are stripped; only a plain integer
/// (no fractional part) is accepted.
pub open spec fn shares_spec(s: Seq<char>) -> Option<i64> {
    let t = remove_all(s, ',');
    let neg = t.len() > 0 && t[0] == '-';
    let body = if neg {
        t.skip(1)
    } else {
        t
    };
    match digits_spec(body) {
        Some(x) => if neg {
            Some((-(x as int)) as i64)
        } else {
            Some(x as i64)
        },
        None => None,
    }
}

pub fn parse_shares(s: &str) -> (r: Option<i64>)
    ensures
        r == shares_spec(s@),
{
    let v = str_to_chars(s);
    let t = remove_all_char(&v, ',');
    let neg: bool = t.len() > 0 && t[0] == '-';
    let body: Vec<char> = if neg {
        subvec(&t, 1, t.len())
    } else {
        copy_chars(&t)
    };
    proof {
        if neg {
            assert(body@ =~= t@.skip(1));
        }
    }
    match parse_digits(&body) {
        Some(x) => {
            proof {
                lemma_digits_val_bounds(body@);
                lemma_pow10_le(body@.len() as nat, 14);
                lemma_pow10_18();
            }
            if neg {
                Some(-(x as i64))
            } else {
                Some(x as i64)
            }
        },
        None => None,
    }
}

/// Characters trimmed from the end of an identity cell: whitespace always,
/// stray separators and periods when `punct` is set.
pub open spec fn is_trim_char(c: char, punct: bool) -> bool {
    c == ' ' || (punct && (c == ',' || c == '.'))
}

pub open spec fn rtrim_spec(s: Seq<char>, punct: bool) -> Seq<char>
    decreases s.len(),
{
    if s.len() > 0 && is_trim_char(s.last(), punct) {
        rtrim_spec(s.drop_last(), punct)
    } else {
        s
    }
}

pub proof fn lemma_rtrim_len(s: Seq<char>, punct: bool)
    ensures
        rtrim_spec(s, punct).len() <= s.len(),
    decreases s.len(),
{
    if s.len() > 0 && is_trim_char(s.last(), punct) {
        lemma_rtrim_len(s.drop_last(), punct);
    }
}

pub fn rtrim(s: &str, punct: bool) -> (r: String)
    ensures
        r@ == rtrim_spec(s@, punct),
{
    let n = s.unicode_len();
    let mut e: usize = n;
    let mut done: bool = false;
    proof {
        assert(s@.subrange(0, n as int) =~= s@);
    }
    while !done
        invariant
            e <= n,
            n == s@.len(),
            rtrim_spec(s@, punct) == rtrim_spec(s@.subrange(0, e as int), punct),
            done ==> e == 0 || !is_trim_char(s@[e - 1], punct),
        decreases e, (if done { 0int } else { 1int }),
    {
        if e == 0 {
            done = true;
        } else {
            let c = s.get_char(e - 1);
            if c == ' ' || (punct && (c == ',' || c == '.')) {
                proof {
                    let pre = s@.subrange(0, e as int);
                    assert(pre.drop_last() =~= s@.subrange(0, e - 1));
                    assert(pre.last() == s@[e - 1]);
                }
                e = e - 1;
            } else {
                done = true;
            }
        }
    }
    let sub = s.substring_char(0, e);
    sub.to_owned()
}

/// First entry of `sufs` that `s` ends with, if any.
pub open spec fn first_suffix(s: Seq<char>, sufs: Seq<Seq<char>>) -> Option<int>
    decreases sufs.len(),
{
    if sufs.len() == 0 {
        None
    } else if ends_with_spec(s, sufs[0]) {
        Some(0)
    } else {
        match first_suffix(s, sufs.skip(1)) {
            Some(i) => Some(i + 1),
            None => None,
        }
    }
}

pub proof fn lemma_first_suffix(s: Seq<char>, sufs: Seq<Seq<char>>)
    ensures
        match first_suffix(s, sufs) {
            Some(i) => 0 <= i < sufs.len() && ends_with_spec(s, sufs[i]) && forall|j: int|
                0 <= j < i ==> !ends_with_spec(s, sufs[j]),
            None => forall|j: int| 0 <= j < sufs.len() ==> !ends_with_spec(s, sufs[j]),
        },
    decreases sufs.len(),
{
    if sufs.len() == 0 {
    } else if ends_with_spec(s, sufs[0]) {
    } else {
        lemma_first_suffix(s, sufs.skip(1));
        let t = sufs.skip(1);
        assert(forall|j: int| 0 <= j < t.len() ==> #[trigger] t[j] == sufs[j + 1]);
        match first_suffix(s, t) {
            Some(i) => {
                assert forall|j: int| 0 <= j < i + 1 implies !ends_with_spec(s, sufs[j]) by {
                    if j > 0 {
                        assert(!ends_with_spec(s, t[j - 1]));
                    }
                }
            },
            None => {
                assert forall|j: int| 0 <= j < sufs.len() implies !ends_with_spec(s, sufs[j]) by {
                    if j > 0 {
                        assert(!ends_with_spec(s, t[j - 1]));
                    }
                }
            },
        }
    }
}

pub fn find_suffix(s: &str, sufs: &Vec<String>) -> (r: Option<usize>)
    ensures
        match r {
            Some(i) => first_suffix(s@, sufs.deep_view()) == Some(i as int),
            None => first_suffix(s@, sufs.deep_view()) is None,
        },
{
    let n = sufs.len();
    let mut i: usize = 0;
    while i < n
        invariant
            i <= n,
            n == sufs@.len(),
            forall|j: int| 0 <= j < i ==> !ends_with_spec(s@, sufs.deep_view()[j]),
        decreases n - i,
    {
        if ends_with(s, sufs[i].as_str()) {
            proof {
                assert(sufs.deep_view()[i as int] == sufs@[i as int]@);
                lemma_first_suffix(s@, sufs.deep_view());
                match first_suffix(s@, sufs.deep_view()) {
                    Some(k) => {
                        if k < i as int {
                            assert(!ends_with_spec(s@, sufs.deep_view()[k]));
                        }
                        if (i as int) < k {
                            assert(!ends_with_spec(s@, sufs.deep_view()[i as int]));
                        }
                    },
                    None => {
                        assert(!ends_with_spec(s@, sufs.deep_view()[i as int]));
                    },
                }
            }
            return Some(i);
        }
        proof {
            assert(sufs.deep_view()[i as int] == sufs@[i as int]@);
        }
        i = i + 1;
    }
    proof {
        lemma_first_suffix(s@, sufs.deep_view());
        if first_suffix(s@, sufs.deep_view()) is Some {
            let k = first_suffix(s@, sufs.deep_view())->Some_0;
            assert(!ends_with_spec(s@, sufs.deep_view()[k]));
        }
    }
    None
}

pub open spec fn all_suffixes_nonempty(sufs: Seq<Seq<char>>) -> bool {
    forall|j: int| 0 <= j < sufs.len() ==> #[trigger] sufs[j].len() > 0
}

/// Trailing junk removal for identity cells: trim the end, then repeatedly
/// strip the first listed suffix the text still ends with, trimming again
/// after each strip.
pub open spec fn strip_suffixes_spec(s: Seq<char>, sufs: Seq<Seq<char>>, punct: bool) -> Seq<char>
    decreases s.len(),
    when all_suffixes_nonempty(sufs)
    via strip_suffixes_dec
{
    let t = rtrim_spec(s, punct);
    match first_suffix(t, sufs) {
        Some(i) => strip_suffixes_spec(t.take(t.len() - sufs[i].len()), sufs, punct),
        None => t,
    }
}

#[via_fn]
proof fn strip_suffixes_dec(s: Seq<char>, sufs: Seq<Seq<char>>, punct: bool) {
    lemma_rtrim_len(s, punct);
    let t = rtrim_spec(s, punct);
    lemma_first_suffix(t, sufs);
}

pub fn strip_suffixes(s: &str, sufs: &Vec<String>, punct: bool) -> (r: String)
    requires
        all_suffixes_nonempty(sufs.deep_view()),
    ensures
        r@ == strip_suffixes_spec(s@, sufs.deep_view(), punct),
    decreases s@.len(),
{
    let t = rtrim(s, punct);
    proof {
        lemma_rtrim_len(s@, punct);
    }
    match find_suffix(t.as_str(), sufs) {
        None => t,
        Some(j) => {
            proof {
                lemma_first_suffix(t@, sufs.deep_view());
                assert(sufs.deep_view()[j as int] == sufs@[j as int]@);
            }
            let m = sufs[j].as_str().unicode_len();
            let keep = t.as_str().unicode_len() - m;
            let next = t.as_str().substring_char(0, keep).to_owned();
            proof {
                assert(next@ =~= t@.take(t@.len() - sufs.deep_view()[j as int].len()));
            }
            strip_suffixes(next.as_str(), sufs, punct)
        },
    }
}

/// Rounded fixed-point quotient of nonnegative `a` by positive `b`: halves
/// round away from zero.
pub open spec fn round_half_div(a: int, b: int) -> int {
    (2 * a + b) / (2 * b)
}

/// A derived share price in price-scale units: `market_value / shares`
/// rounded to the scale, the sign following the quotient; division by zero
/// or a quotient beyond `i64` yields nothing.
pub open spec fn derived_price_spec(mv: int, sh: int) -> Option<i64> {
    if sh == 0 {
        None
    } else {
        let m = if mv < 0 {
            -mv
        } else {
            mv
        };
        let s = if sh < 0 {
            -sh
        } else {
            sh
        };
        let q = round_half_div(m * 100, s);
        if (mv < 0) != (sh < 0) {
            if q <= 0x8000000000000000 {
                Some((-q) as i64)
            } else {
                None
            }
        } else {
            if q <= 0x7fffffffffffffff {
                Some(q as i64)
            } else {
                None
            }
        }
    }
}

pub fn derive_price(mv: i64, sh: i64) -> (r: Option<i64>)
    ensures
        r == derived_price_spec(mv as int, sh as int),
{
    if sh == 0 {
        return None;
    }
    let m: u128 = if mv < 0 {
        (-(mv as i128)) as u128
    } else {
        mv as u128
    };
    let s: u128 = if sh < 0 {
        (-(sh as i128)) as u128
    } else {
        sh as u128
    };
    let num: u128 = 2 * (m * 100) + s;
    let den: u128 = 2 * s;
    let q: u128 = num / den;
    let neg = (mv < 0) != (sh < 0);
    if neg {
        if q > 0x8000000000000000u128 {
            None
        } else {
            Some((-(q as i128)) as i64)
        }
    } else {
        if q > 0x7fffffffffffffffu128 {
            None
        } else {
            Some(q as i64)
        }
    }
}

} // verus!
