//! Calendar dates as plain year/month/day values.
//!
//! A disclosure date never carries a time component, so a date is three
//! integers with the usual Gregorian validity rules.  Ordering is
//! lexicographic on (year, month, day).

use vstd::prelude::*;
use vstd::string::StringExecFns;

verus! {

/// One calendar date of a disclosure row.
#[derive(Clone, Copy, PartialEq, Eq, Structural, Debug)]
pub struct Date {
    pub year: u32,
    pub month: u32,
    pub day: u32,
}

pub open spec fn is_leap_year(y: int) -> bool {
    y % 4 == 0 && (y % 100 != 0 || y % 400 == 0)
}

pub open spec fn days_in_month(y: int, m: int) -> int {
    if m == 2 {
        if is_leap_year(y) {
            29
        } else {
            28
        }
    } else if m == 4 || m == 6 || m == 9 || m == 11 {
        30
    } else {
        31
    }
}

impl Date {
    /// A date is valid when its fields name a real Gregorian day.
    pub open spec fn wf(self) -> bool {
        &&& 1 <= self.year <= 9999
        &&& 1 <= self.month <= 12
        &&& 1 <= self.day <= days_in_month(self.year as int, self.month as int)
    }

    pub open spec fn le_spec(self, other: Date) -> bool {
        ||| self.year < other.year
        ||| (self.year == other.year && self.month < other.month)
        ||| (self.year == other.year && self.month == other.month && self.day <= other.day)
    }

    pub open spec fn lt_spec(self, other: Date) -> bool {
        self.le_spec(other) && self != other
    }

    /// Builds a date, rejecting field values that name no real day.
    pub fn new(year: u32, month: u32, day: u32) -> (r: Option<Date>)
        ensures
            r is Some <==> (Date { year, month, day }).wf(),
            r is Some ==> r->Some_0 == (Date { year, month, day }),
    {
        if 1 <= year && year <= 9999 && 1 <= month && month <= 12 && 1 <= day
            && day <= days_in_month_exec(year, month) {
            Some(Date { year, month, day })
        } else {
            None
        }
    }

    pub fn le(self, other: Date) -> (r: bool)
        ensures
            r == self.le_spec(other),
    {
        if self.year != other.year {
            self.year < other.year
        } else if self.month != other.month {
            self.month < other.month
        } else {
            self.day <= other.day
        }
    }

    pub fn lt(self, other: Date) -> (r: bool)
        ensures
            r == self.lt_spec(other),
    {
        if self.year != other.year {
            self.year < other.year
        } else if self.month != other.month {
            self.month < other.month
        } else {
            self.day < other.day
        }
    }
}

pub fn days_in_month_exec(y: u32, m: u32) -> (r: u32)
    ensures
        r == days_in_month(y as int, m as int),
{
    if m == 2 {
        if y % 4 == 0 && (y % 100 != 0 || y % 400 == 0) {
            29
        } else {
            28
        }
    } else if m == 4 || m == 6 || m == 9 || m == 11 {
        30
    } else {
        31
    }
}

pub open spec fn digit_char(d: int) -> char {
    if d == 0 {
        '0'
    } else if d == 1 {
        '1'
    } else if d == 2 {
        '2'
    } else if d == 3 {
        '3'
    } else if d == 4 {
        '4'
    } else if d == 5 {
        '5'
    } else if d == 6 {
        '6'
    } else if d == 7 {
        '7'
    } else if d == 8 {
        '8'
    } else {
        '9'
    }
}

fn digit_str(d: u32) -> (r: &'static str)
    requires
        d <= 9,
    ensures
        r@ == seq![digit_char(d as int)],
{
    let r = match d {
        0u32 => "0",
        1u32 => "1",
        2u32 => "2",
        3u32 => "3",
        4u32 => "4",
        5u32 => "5",
        6u32 => "6",
        7u32 => "7",
        8u32 => "8",
        _ => "9",
    };
    proof {
        reveal_strlit("0");
        reveal_strlit("1");
        reveal_strlit("2");
        reveal_strlit("3");
        reveal_strlit("4");
        reveal_strlit("5");
        reveal_strlit("6");
        reveal_strlit("7");
        reveal_strlit("8");
        reveal_strlit("9");
        assert(r@ =~= seq![digit_char(d as int)]);
    }
    r
}

impl Date {
    /// The date written out as `YYYY-MM-DD`.
    pub open spec fn iso_spec(self) -> Seq<char> {
        seq![
            digit_char(self.year as int / 1000),
            digit_char((self.year as int / 100) % 10),
            digit_char((self.year as int / 10) % 10),
            digit_char(self.year as int % 10),
            '-',
            digit_char(self.month as int / 10),
            digit_char(self.month as int % 10),
            '-',
            digit_char(self.day as int / 10),
            digit_char(self.day as int % 10),
        ]
    }

    pub fn to_iso_string(&self) -> (r: String)
        requires
            self.wf(),
        ensures
            r@ == self.iso_spec(),
    {
        let mut s = String::new();
        s.append(digit_str(self.year / 1000));
        s.append(digit_str((self.year / 100) % 10));
        s.append(digit_str((self.year / 10) % 10));
        s.append(digit_str(self.year % 10));
        s.append("-");
        s.append(digit_str(self.month / 10));
        s.append(digit_str(self.month % 10));
        s.append("-");
        s.append(digit_str(self.day / 10));
        s.append(digit_str(self.day % 10));
        proof {
            reveal_strlit("-");
            assert(s@ =~= self.iso_spec());
        }
        s
    }
}

/// The date formats vendors have been seen to use, tried in this order;
/// `Any` stands for a format-free parse that accepts whichever of the three
/// matches first.
#[derive(Clone, Copy, PartialEq, Eq, Structural, Debug)]
pub enum DateFormat {
    Iso,
    MonthDayYear,
    YearMonthDay,
    Any,
}

/// Splits at the first two occurrences of the separator.
pub open spec fn split3_spec(s: Seq<char>, sep: char) -> Option<(Seq<char>, Seq<char>, Seq<char>)> {
    match crate::text::first_index_of(s, sep) {
        None => None,
        Some(i) => {
            let rest = s.skip(i + 1);
            match crate::text::first_index_of(rest, sep) {
                None => None,
                Some(j) => Some((s.take(i), rest.take(j), rest.skip(j + 1))),
            }
        },
    }
}

/// A date from three digit runs: a four-digit year and one- or two-digit
/// month and day naming a real calendar day.
pub open spec fn ymd_from_parts(y: Seq<char>, m: Seq<char>, d: Seq<char>) -> Option<Date> {
    if y.len() == 4 && crate::text::all_digits(y) && 1 <= m.len() <= 2 && crate::text::all_digits(m)
        && 1 <= d.len() <= 2 && crate::text::all_digits(d) {
        let dt = Date {
            year: crate::text::digits_val(y) as u32,
            month: crate::text::digits_val(m) as u32,
            day: crate::text::digits_val(d) as u32,
        };
        if dt.wf() {
            Some(dt)
        } else {
            None
        }
    } else {
        None
    }
}

pub open spec fn parse_iso_spec(s: Seq<char>) -> Option<Date> {
    match split3_spec(s, '-') {
        None => None,
        Some(p) => ymd_from_parts(p.0, p.1, p.2),
    }
}

pub open spec fn parse_mdy_spec(s: Seq<char>) -> Option<Date> {
    match split3_spec(s, '/') {
        None => None,
        Some(p) => ymd_from_parts(p.2, p.0, p.1),
    }
}

pub open spec fn parse_ymd_spec(s: Seq<char>) -> Option<Date> {
    match split3_spec(s, '/') {
        None => None,
        Some(p) => ymd_from_parts(p.0, p.1, p.2),
    }
}

/// What date a text cell denotes under a given format.
pub open spec fn parse_date_spec(s: Seq<char>, f: DateFormat) -> Option<Date> {
    match f {
        DateFormat::Iso => parse_iso_spec(s),
        DateFormat::MonthDayYear => parse_mdy_spec(s),
        DateFormat::YearMonthDay => parse_ymd_spec(s),
        DateFormat::Any => if parse_iso_spec(s) is Some {
            parse_iso_spec(s)
        } else if parse_mdy_spec(s) is Some {
            parse_mdy_spec(s)
        } else {
            parse_ymd_spec(s)
        },
    }
}

fn split3(v: &Vec<char>, sep: char) -> (r: Option<(Vec<char>, Vec<char>, Vec<char>)>)
    ensures
        match r {
            None => split3_spec(v@, sep) is None,
            Some(p) => split3_spec(v@, sep) == Some((p.0@, p.1@, p.2@)),
        },
{
    let n = v.len();
    let fc = crate::text::find_char(v, sep);
    match fc {
        None => None,
        Some(i) => {
            proof {
                crate::text::lemma_first_index_of(v@, sep);
                assert(i < v@.len());
            }
            let rest = crate::text::subvec(v, i + 1, v.len());
            proof {
                assert(rest@ =~= v@.skip(i + 1));
            }
            let nr = rest.len();
            let fc2 = crate::text::find_char(&rest, sep);
            match fc2 {
                None => None,
                Some(j) => {
                    proof {
                        crate::text::lemma_first_index_of(rest@, sep);
                        assert(j < rest@.len());
                    }
                    let a = crate::text::subvec(v, 0, i);
                    let b = crate::text::subvec(&rest, 0, j);
                    let c = crate::text::subvec(&rest, j + 1, rest.len());
                    proof {
                        assert(a@ =~= v@.take(i as int));
                        assert(b@ =~= rest@.take(j as int));
                        assert(c@ =~= rest@.skip(j + 1));
                    }
                    Some((a, b, c))
                },
            }
        },
    }
}

fn ymd_parts(y: &Vec<char>, m: &Vec<char>, d: &Vec<char>) -> (r: Option<Date>)
    ensures
        r == ymd_from_parts(y@, m@, d@),
{
    if y.len() != 4 || m.len() < 1 || m.len() > 2 || d.len() < 1 || d.len() > 2 {
        return None;
    }
    let yv = match crate::text::parse_digits(y) {
        Some(x) => x,
        None => {
            return None;
        },
    };
    let mv = match crate::text::parse_digits(m) {
        Some(x) => x,
        None => {
            return None;
        },
    };
    let dv = match crate::text::parse_digits(d) {
        Some(x) => x,
        None => {
            return None;
        },
    };
    proof {
        crate::text::lemma_digits_val_bounds(y@);
        crate::text::lemma_digits_val_bounds(m@);
        crate::text::lemma_digits_val_bounds(d@);
        crate::text::lemma_pow10_le(y@.len() as nat, 4);
        crate::text::lemma_pow10_le(m@.len() as nat, 4);
        crate::text::lemma_pow10_le(d@.len() as nat, 4);
        reveal_with_fuel(crate::text::pow10, 6);
    }
    Date::new(yv as u32, mv as u32, dv as u32)
}

/// Parses one date cell under the given format.
pub fn parse_date(s: &str, f: DateFormat) -> (r: Option<Date>)
    ensures
        r == parse_date_spec(s@, f),
{
    let v = crate::text::str_to_chars(s);
    match f {
        DateFormat::Iso => parse_one(&v, DateFormat::Iso),
        DateFormat::MonthDayYear => parse_one(&v, DateFormat::MonthDayYear),
        DateFormat::YearMonthDay => parse_one(&v, DateFormat::YearMonthDay),
        DateFormat::Any => {
            let a = parse_one(&v, DateFormat::Iso);
            if a.is_some() {
                return a;
            }
            let b = parse_one(&v, DateFormat::MonthDayYear);
            if b.is_some() {
                return b;
            }
            parse_one(&v, DateFormat::YearMonthDay)
        },
    }
}

fn parse_one(v: &Vec<char>, f: DateFormat) -> (r: Option<Date>)
    requires
        f != DateFormat::Any,
    ensures
        r == parse_date_spec(v@, f),
{
    let sep = match f {
        DateFormat::MonthDayYear | DateFormat::YearMonthDay => '/',
        _ => '-',
    };
    match split3(v, sep) {
        None => None,
        Some((a, b, c)) => {
            match f {
                DateFormat::MonthDayYear => ymd_parts(&c, &a, &b),
                _ => ymd_parts(&a, &b, &c),
            }
        },
    }
}

proof fn lemma_digit_char_props(x: int)
    requires
        0 <= x <= 9,
    ensures
        crate::text::is_digit_char(digit_char(x)),
        crate::text::digit_val(digit_char(x)) == x,
        digit_char(x) != '-',
{
}

/// A valid date's canonical text parses back to the same date, under the
/// canonical format and under the format-free parse alike: a synthesized
/// disclosure date survives normalization.
pub proof fn lemma_iso_round_trip(d: Date)
    requires
        d.wf(),
    ensures
        parse_iso_spec(d.iso_spec()) == Some(d),
        parse_date_spec(d.iso_spec(), DateFormat::Iso) == Some(d),
        parse_date_spec(d.iso_spec(), DateFormat::Any) == Some(d),
{
    let s = d.iso_spec();
    let y = d.year as int;
    let m = d.month as int;
    let day = d.day as int;
    lemma_digit_char_props(y / 1000);
    lemma_digit_char_props((y / 100) % 10);
    lemma_digit_char_props((y / 10) % 10);
    lemma_digit_char_props(y % 10);
    lemma_digit_char_props(m / 10);
    lemma_digit_char_props(m % 10);
    lemma_digit_char_props(day / 10);
    lemma_digit_char_props(day % 10);
    crate::text::lemma_first_index_of(s, '-');
    assert(s[4] == '-');
    match crate::text::first_index_of(s, '-') {
        None => {
            assert(s[4] != '-');
        },
        Some(k) => {
            if k < 4 {
                assert(s[k] == '-');
                assert(false);
            }
            if k > 4 {
                assert(s[4] != '-');
            }
            assert(k == 4);
            let rest = s.skip(5);
            assert(rest =~= seq![
                digit_char(m / 10),
                digit_char(m % 10),
                '-',
                digit_char(day / 10),
                digit_char(day % 10),
            ]);
            crate::text::lemma_first_index_of(rest, '-');
            assert(rest[2] == '-');
            match crate::text::first_index_of(rest, '-') {
                None => {
                    assert(rest[2] != '-');
                },
                Some(j) => {
                    if j < 2 {
                        assert(rest[j] == '-');
                        assert(false);
                    }
                    if j > 2 {
                        assert(rest[2] != '-');
                    }
                    assert(j == 2);
                    let ys = s.take(4);
                    let ms = rest.take(2);
                    let ds = rest.skip(3);
                    assert(ys =~= seq![
                        digit_char(y / 1000),
                        digit_char((y / 100) % 10),
                        digit_char((y / 10) % 10),
                        digit_char(y % 10),
                    ]);
                    assert(ms =~= seq![digit_char(m / 10), digit_char(m % 10)]);
                    assert(ds =~= seq![digit_char(day / 10), digit_char(day % 10)]);
                    lemma_two_digit_val(ms, m);
                    lemma_two_digit_val(ds, day);
                    lemma_four_digit_val(ys, y);
                    assert(ymd_from_parts(ys, ms, ds) == Some(d));
                },
            }
        },
    }
}

/// A two-character digit run denotes the number it was printed from.
proof fn lemma_two_digit_val(s: Seq<char>, v: int)
    requires
        0 <= v <= 99,
        s =~= seq![digit_char(v / 10), digit_char(v % 10)],
    ensures
        crate::text::all_digits(s),
        crate::text::digits_val(s) == v,
{
    lemma_digit_char_props(v / 10);
    lemma_digit_char_props(v % 10);
    assert forall|i: int| 0 <= i < s.len() implies crate::text::is_digit_char(#[trigger] s[i]) by {
        if i == 0 {
        } else {
            assert(i == 1);
        }
    }
    assert(s.drop_last() =~= seq![digit_char(v / 10)]);
    assert(s.drop_last().drop_last() =~= Seq::<char>::empty());
    reveal_with_fuel(crate::text::digits_val, 4);
}

/// A four-character digit run denotes the number it was printed from.
proof fn lemma_four_digit_val(s: Seq<char>, v: int)
    requires
        0 <= v <= 9999,
        s =~= seq![
            digit_char(v / 1000),
            digit_char((v / 100) % 10),
            digit_char((v / 10) % 10),
            digit_char(v % 10),
        ],
    ensures
        crate::text::all_digits(s),
        crate::text::digits_val(s) == v,
{
    lemma_digit_char_props(v / 1000);
    lemma_digit_char_props((v / 100) % 10);
    lemma_digit_char_props((v / 10) % 10);
    lemma_digit_char_props(v % 10);
    assert forall|i: int| 0 <= i < s.len() implies crate::text::is_digit_char(#[trigger] s[i]) by {
        assert(i == 0 || i == 1 || i == 2 || i == 3);
    }
    let s3 = s.drop_last();
    let s2 = s3.drop_last();
    let s1 = s2.drop_last();
    assert(s3 =~= seq![digit_char(v / 1000), digit_char((v / 100) % 10), digit_char((v / 10) % 10)]);
    assert(s2 =~= seq![digit_char(v / 1000), digit_char((v / 100) % 10)]);
    assert(s1 =~= seq![digit_char(v / 1000)]);
    assert(s1.drop_last() =~= Seq::<char>::empty());
    reveal_with_fuel(crate::text::digits_val, 6);
    assert(crate::text::digits_val(s1) == v / 1000);
    assert(crate::text::digits_val(s2) == (v / 1000) * 10 + (v / 100) % 10);
    assert((v / 1000) * 10 + (v / 100) % 10 == v / 100) by (nonlinear_arith)
        requires
            0 <= v <= 9999,
    ;
    assert(crate::text::digits_val(s3) == (v / 100) * 10 + (v / 10) % 10);
    assert((v / 100) * 10 + (v / 10) % 10 == v / 10) by (nonlinear_arith)
        requires
            0 <= v <= 9999,
    ;
    assert(crate::text::digits_val(s) == (v / 10) * 10 + v % 10);
}

/// Lexicographic (year, month, day) order is total: two dates always compare.
pub proof fn lemma_date_order_total(a: Date, b: Date)
    ensures
        a.le_spec(b) || b.le_spec(a),
        a.le_spec(b) && b.le_spec(a) ==> a == b,
{
}

} // verus!
