//! Merge/reconciliation: combining a prior fund history with a freshly
//! normalized batch.
//!
//! Concatenation always deduplicates whole rows under a keep-first rule, then
//! sorts by date ascending and weight descending; that order is the canonical
//! on-disk order of a history.

use vstd::prelude::*;
use crate::date::Date;
use crate::record::{Record, RecordView, rows_wf, record_eq, copy_rows};

verus! {

/// The rank a weight sorts by; an absent weight ranks below every value.
pub open spec fn weight_rank(w: Option<i64>) -> int {
    match w {
        Some(x) => x as int,
        None => (i64::MIN as int) - 1,
    }
}

/// Strict order of the canonical sort: date ascending, then weight
/// descending.
pub open spec fn row_lt(a: RecordView, b: RecordView) -> bool {
    a.date.lt_spec(b.date) || (a.date == b.date && weight_rank(a.weight) > weight_rank(b.weight))
}

pub open spec fn row_le(a: RecordView, b: RecordView) -> bool {
    !row_lt(b, a)
}

pub open spec fn sorted_rows(s: Seq<RecordView>) -> bool {
    forall|i: int, j: int| 0 <= i < j < s.len() ==> row_le(#[trigger] s[i], #[trigger] s[j])
}

/// Keep-first deduplication: the first instance of a row value stays, later
/// identical instances are dropped.
pub open spec fn dedup_rows(s: Seq<RecordView>) -> Seq<RecordView>
    decreases s.len(),
{
    if s.len() == 0 {
        Seq::empty()
    } else {
        let d = dedup_rows(s.drop_last());
        if d.contains(s.last()) {
            d
        } else {
            d.push(s.last())
        }
    }
}

/// Stable insertion: `x` goes after every row it does not strictly precede.
pub open spec fn insert_sorted(s: Seq<RecordView>, x: RecordView) -> Seq<RecordView>
    decreases s.len(),
{
    if s.len() > 0 && !row_lt(x, s[0]) {
        seq![s[0]] + insert_sorted(s.skip(1), x)
    } else {
        seq![x] + s
    }
}

/// Stable insertion sort by the canonical order.
pub open spec fn sort_rows(s: Seq<RecordView>) -> Seq<RecordView>
    decreases s.len(),
{
    if s.len() == 0 {
        Seq::empty()
    } else {
        insert_sorted(sort_rows(s.drop_last()), s.last())
    }
}

/// What merging means: append the incoming batch after the existing history,
/// drop later duplicates, sort canonically.
pub open spec fn merge_rows(existing: Seq<RecordView>, incoming: Seq<RecordView>) -> Seq<
    RecordView,
> {
    sort_rows(dedup_rows(existing + incoming))
}

pub fn row_lt_exec(a: &Record, b: &Record) -> (r: bool)
    ensures
        r == row_lt(a@, b@),
{
    if a.date.lt(b.date) {
        true
    } else if b.date.lt(a.date) {
        false
    } else {
        proof {
            crate::date::lemma_date_order_total(a.date, b.date);
        }
        match (a.weight, b.weight) {
            (Option::Some(x), Option::Some(y)) => x > y,
            (Option::Some(_), Option::None) => true,
            (Option::None, Option::Some(_)) => false,
            (Option::None, Option::None) => false,
        }
    }
}

pub fn contains_row(v: &Vec<Record>, x: &Record) -> (r: bool)
    ensures
        r == v.deep_view().contains(x@),
{
    let n = v.len();
    let mut i: usize = 0;
    while i < n
        invariant
            i <= n,
            n == v@.len(),
            forall|j: int| 0 <= j < i ==> v.deep_view()[j] != x@,
        decreases n - i,
    {
        if record_eq(&v[i], x) {
            proof {
                assert(v.deep_view()[i as int] == x@);
            }
            return true;
        }
        proof {
            assert(v.deep_view()[i as int] == v@[i as int]@);
        }
        i = i + 1;
    }
    proof {
        if v.deep_view().contains(x@) {
            let j = choose|j: int| 0 <= j < v.deep_view().len() && v.deep_view()[j] == x@;
            assert(v.deep_view()[j] != x@);
        }
    }
    false
}

/// Keep-first whole-row deduplication of a history.
pub fn dedupe(df: Vec<Record>) -> (r: Vec<Record>)
    ensures
        r.deep_view() == dedup_rows(df.deep_view()),
{
    let n = df.len();
    let mut out: Vec<Record> = Vec::new();
    let mut i: usize = 0;
    while i < n
        invariant
            i <= n,
            n == df@.len(),
            out.deep_view() == dedup_rows(df.deep_view().subrange(0, i as int)),
        decreases n - i,
    {
        let ghost pre = df.deep_view().subrange(0, i as int);
        let ghost post = df.deep_view().subrange(0, i + 1);
        proof {
            assert(post.drop_last() =~= pre);
            assert(post.last() == df.deep_view()[i as int]);
            assert(df.deep_view()[i as int] == df@[i as int]@);
        }
        if !contains_row(&out, &df[i]) {
            out.push(df[i].duplicate());
            proof {
                assert(out.deep_view() =~= dedup_rows(pre).push(df.deep_view()[i as int]));
            }
        }
        i = i + 1;
    }
    proof {
        assert(df.deep_view().subrange(0, n as int) =~= df.deep_view());
    }
    out
}

proof fn lemma_insert_sorted_at(s: Seq<RecordView>, x: RecordView, p: int)
    requires
        0 <= p <= s.len(),
        forall|j: int| 0 <= j < p ==> !row_lt(x, #[trigger] s[j]),
        p < s.len() ==> row_lt(x, s[p]),
    ensures
        insert_sorted(s, x) == s.subrange(0, p) + seq![x] + s.subrange(p, s.len() as int),
    decreases s.len(),
{
    if p == 0 {
        assert(insert_sorted(s, x) =~= s.subrange(0, 0) + seq![x] + s.subrange(0, s.len() as int));
    } else {
        let t = s.skip(1);
        assert(forall|j: int| 0 <= j < t.len() ==> #[trigger] t[j] == s[j + 1]);
        lemma_insert_sorted_at(t, x, p - 1);
        assert(insert_sorted(s, x) =~= s.subrange(0, p) + seq![x] + s.subrange(p, s.len() as int))
            by {
            assert(insert_sorted(s, x) == seq![s[0]] + insert_sorted(t, x));
            assert(insert_sorted(t, x) == t.subrange(0, p - 1) + seq![x] + t.subrange(
                p - 1,
                t.len() as int,
            ));
        }
    }
}

/// Sorts a history into the canonical order: date ascending, weight
/// descending, ties keeping their first-seen order.
pub fn df_sort(df: Vec<Record>) -> (r: Vec<Record>)
    ensures
        r.deep_view() == sort_rows(df.deep_view()),
        sorted_rows(r.deep_view()),
{
    proof {
        lemma_sort_rows_sorted(df.deep_view());
    }
    let n = df.len();
    let mut out: Vec<Record> = Vec::new();
    let mut i: usize = 0;
    while i < n
        invariant
            i <= n,
            n == df@.len(),
            out.deep_view() == sort_rows(df.deep_view().subrange(0, i as int)),
        decreases n - i,
    {
        let ghost pre = df.deep_view().subrange(0, i as int);
        let ghost post = df.deep_view().subrange(0, i + 1);
        proof {
            assert(post.drop_last() =~= pre);
            assert(post.last() == df.deep_view()[i as int]);
            assert(df.deep_view()[i as int] == df@[i as int]@);
        }
        let row = df[i].duplicate();
        let m = out.len();
        let mut j: usize = 0;
        let mut found: bool = false;
        while j < m && !found
            invariant
                j <= m,
                m == out@.len(),
                forall|k: int| 0 <= k < j ==> !row_lt(row@, #[trigger] out.deep_view()[k]),
                found ==> j < m && row_lt(row@, out.deep_view()[j as int]),
            decreases m - j + (if found { 0int } else { 1int }),
        {
            if row_lt_exec(&row, &out[j]) {
                proof {
                    assert(out.deep_view()[j as int] == out@[j as int]@);
                }
                found = true;
            } else {
                proof {
                    assert(out.deep_view()[j as int] == out@[j as int]@);
                }
                j = j + 1;
            }
        }
        proof {
            lemma_insert_sorted_at(out.deep_view(), row@, j as int);
        }
        out.insert(j, row);
        proof {
            assert(out.deep_view() =~= sort_rows(pre).subrange(0, j as int) + seq![
                df.deep_view()[i as int],
            ] + sort_rows(pre).subrange(j as int, sort_rows(pre).len() as int));
        }
        i = i + 1;
    }
    proof {
        assert(df.deep_view().subrange(0, n as int) =~= df.deep_view());
    }
    out
}

/// Concatenates the incoming batch after the existing history, deduplicates
/// keep-first, and sorts canonically.
pub fn merge(existing: &Vec<Record>, incoming: &Vec<Record>) -> (r: Vec<Record>)
    ensures
        r.deep_view() == merge_rows(existing.deep_view(), incoming.deep_view()),
        sorted_rows(r.deep_view()),
{
    proof {
        lemma_merge_rows_sorted(existing.deep_view(), incoming.deep_view());
    }
    let mut combined = copy_rows(existing);
    let ghost elen = existing.deep_view().len();
    let n = incoming.len();
    let mut i: usize = 0;
    while i < n
        invariant
            i <= n,
            n == incoming@.len(),
            combined@.len() == elen + i,
            elen == existing.deep_view().len(),
            forall|k: int| 0 <= k < elen ==> combined.deep_view()[k] == existing.deep_view()[k],
            forall|k: int| 0 <= k < i ==> combined.deep_view()[elen + k]
                == incoming.deep_view()[k],
        decreases n - i,
    {
        let ghost oldv = combined@;
        combined.push(incoming[i].duplicate());
        proof {
            assert(combined@ == oldv.push(combined@.last()));
            assert(combined@.last()@ == incoming@[i as int]@);
            assert(incoming.deep_view()[i as int] == incoming@[i as int]@);
            assert(forall|k: int| 0 <= k < oldv.len() ==> combined@[k] == oldv[k]);
        }
        i = i + 1;
    }
    proof {
        assert(combined.deep_view() =~= existing.deep_view() + incoming.deep_view());
    }
    df_sort(dedupe(combined))
}

/// The watermark of a history: its greatest date, if it has any rows.
pub fn watermark(h: &Vec<Record>) -> (r: Option<Date>)
    ensures
        match r {
            None => h@.len() == 0,
            Some(d) => (exists|i: int|
                0 <= i < h.deep_view().len() && (#[trigger] h.deep_view()[i]).date == d) && forall|
                i: int,
            |
                0 <= i < h.deep_view().len() ==> (#[trigger] h.deep_view()[i]).date.le_spec(d),
        },
{
    let n = h.len();
    if n == 0 {
        return None;
    }
    let mut best: Date = h[0].date;
    proof {
        assert(h.deep_view()[0].date == best);
    }
    let mut i: usize = 1;
    while i < n
        invariant
            1 <= i <= n,
            n == h@.len(),
            exists|k: int| 0 <= k < i && (#[trigger] h.deep_view()[k]).date == best,
            forall|k: int| 0 <= k < i ==> (#[trigger] h.deep_view()[k]).date.le_spec(best),
        decreases n - i,
    {
        let cur = h[i].date;
        proof {
            assert(h.deep_view()[i as int].date == cur);
            crate::date::lemma_date_order_total(cur, best);
        }
        if best.lt(cur) {
            best = cur;
            proof {
                assert forall|k: int| 0 <= k < i + 1 implies (#[trigger] h.deep_view()[k]).date
                    .le_spec(best) by {
                    if k < i {
                        crate::date::lemma_date_order_total(h.deep_view()[k].date, best);
                    }
                }
            }
        }
        i = i + 1;
    }
    Some(best)
}

proof fn lemma_contains_push(s: Seq<RecordView>, y: RecordView, x: RecordView)
    ensures
        s.push(y).contains(x) <==> (s.contains(x) || x == y),
{
    if s.contains(x) {
        let i = choose|i: int| 0 <= i < s.len() && s[i] == x;
        assert(s.push(y)[i] == x);
        assert(s.push(y).contains(x));
    }
    if x == y {
        assert(s.push(y)[s.len() as int] == x);
        assert(s.push(y).contains(x));
    }
    if s.push(y).contains(x) {
        let i = choose|i: int| 0 <= i < s.push(y).len() && s.push(y)[i] == x;
        if i < s.len() {
            assert(s[i] == x);
            assert(s.contains(x));
        }
    }
}

proof fn lemma_contains_add(a: Seq<RecordView>, b: Seq<RecordView>, x: RecordView)
    ensures
        (a + b).contains(x) <==> (a.contains(x) || b.contains(x)),
{
    if a.contains(x) {
        let i = choose|i: int| 0 <= i < a.len() && a[i] == x;
        assert((a + b)[i] == x);
        assert((a + b).contains(x));
    }
    if b.contains(x) {
        let i = choose|i: int| 0 <= i < b.len() && b[i] == x;
        assert((a + b)[a.len() + i] == x);
        assert((a + b).contains(x));
    }
    if (a + b).contains(x) {
        let i = choose|i: int| 0 <= i < (a + b).len() && (a + b)[i] == x;
        if i < a.len() {
            assert(a[i] == x);
            assert(a.contains(x));
        } else {
            assert(b[i - a.len()] == x);
            assert(b.contains(x));
        }
    }
}

proof fn lemma_contains_drop_last(s: Seq<RecordView>, x: RecordView)
    requires
        s.len() > 0,
    ensures
        s.contains(x) <==> (s.drop_last().contains(x) || x == s.last()),
{
    if s.drop_last().contains(x) {
        let i = choose|i: int| 0 <= i < s.drop_last().len() && s.drop_last()[i] == x;
        assert(s[i] == x);
        assert(s.contains(x));
    }
    if x == s.last() {
        assert(s[s.len() - 1] == x);
        assert(s.contains(x));
    }
    if s.contains(x) {
        let i = choose|i: int| 0 <= i < s.len() && s[i] == x;
        if i < s.len() - 1 {
            assert(s.drop_last()[i] == x);
            assert(s.drop_last().contains(x));
        }
    }
}

/// Deduplication keeps exactly the set of rows.
proof fn lemma_dedup_rows_contains(s: Seq<RecordView>, x: RecordView)
    ensures
        dedup_rows(s).contains(x) <==> s.contains(x),
    decreases s.len(),
{
    if s.len() == 0 {
    } else {
        lemma_dedup_rows_contains(s.drop_last(), x);
        lemma_contains_drop_last(s, x);
        let d = dedup_rows(s.drop_last());
        if !d.contains(s.last()) {
            lemma_contains_push(d, s.last(), x);
        } else {
            if x == s.last() {
                assert(d.contains(x));
            }
        }
    }
}

proof fn lemma_insert_sorted_contains(s: Seq<RecordView>, y: RecordView, x: RecordView)
    ensures
        insert_sorted(s, y).contains(x) <==> (s.contains(x) || x == y),
    decreases s.len(),
{
    if s.len() > 0 && !row_lt(y, s[0]) {
        lemma_insert_sorted_contains(s.skip(1), y, x);
        lemma_contains_add(seq![s[0]], insert_sorted(s.skip(1), y), x);
        lemma_contains_add(seq![s[0]], s.skip(1), x);
        assert(seq![s[0]] + s.skip(1) =~= s);
        if seq![s[0]].contains(x) {
            assert(seq![s[0]][0] == x);
        }
        if x == s[0] {
            assert(seq![s[0]][0] == x);
            assert(seq![s[0]].contains(x));
        }
    } else {
        lemma_contains_add(seq![y], s, x);
        if seq![y].contains(x) {
            assert(seq![y][0] == x);
        }
        if x == y {
            assert(seq![y][0] == x);
            assert(seq![y].contains(x));
        }
    }
}

proof fn lemma_sort_rows_contains(s: Seq<RecordView>, x: RecordView)
    ensures
        sort_rows(s).contains(x) <==> s.contains(x),
    decreases s.len(),
{
    if s.len() == 0 {
    } else {
        lemma_sort_rows_contains(s.drop_last(), x);
        lemma_contains_drop_last(s, x);
        lemma_insert_sorted_contains(sort_rows(s.drop_last()), s.last(), x);
    }
}

/// A merge holds a row value exactly when one of its inputs does.
pub proof fn lemma_merge_rows_contains(e: Seq<RecordView>, b: Seq<RecordView>, x: RecordView)
    ensures
        merge_rows(e, b).contains(x) <==> (e.contains(x) || b.contains(x)),
{
    lemma_sort_rows_contains(dedup_rows(e + b), x);
    lemma_dedup_rows_contains(e + b, x);
    lemma_contains_add(e, b, x);
}

/// Merging two non-overlapping batches into a history in either order yields
/// the same set of rows; only tie-breaking on exact duplicates cares about
/// the order, and disjoint batches cannot collide with each other.
pub proof fn lemma_merge_batch_order_irrelevant(
    h: Seq<RecordView>,
    a: Seq<RecordView>,
    b: Seq<RecordView>,
)
    requires
        a.to_set().disjoint(b.to_set()),
    ensures
        merge_rows(merge_rows(h, a), b).to_set() == merge_rows(merge_rows(h, b), a).to_set(),
{
    let lhs = merge_rows(merge_rows(h, a), b);
    let rhs = merge_rows(merge_rows(h, b), a);
    assert forall|x: RecordView| lhs.contains(x) == rhs.contains(x) by {
        lemma_merge_rows_contains(merge_rows(h, a), b, x);
        lemma_merge_rows_contains(h, a, x);
        lemma_merge_rows_contains(merge_rows(h, b), a, x);
        lemma_merge_rows_contains(h, b, x);
    }
    assert(lhs.to_set() =~= rhs.to_set());
}

/// No null dates survive a merge: every row of the output carries a valid
/// date whenever every row of both inputs does.
pub proof fn lemma_merge_rows_wf(e: Seq<RecordView>, b: Seq<RecordView>)
    requires
        rows_wf(e),
        rows_wf(b),
    ensures
        rows_wf(merge_rows(e, b)),
{
    let m = merge_rows(e, b);
    assert forall|i: int| 0 <= i < m.len() implies #[trigger] m[i].wf() by {
        assert(m.contains(m[i]));
        lemma_merge_rows_contains(e, b, m[i]);
        if e.contains(m[i]) {
            let j = choose|j: int| 0 <= j < e.len() && e[j] == m[i];
            assert(e[j].wf());
        } else {
            let j = choose|j: int| 0 <= j < b.len() && b[j] == m[i];
            assert(b[j].wf());
        }
    }
}

proof fn lemma_insert_sorted_sorted(s: Seq<RecordView>, x: RecordView)
    requires
        sorted_rows(s),
    ensures
        sorted_rows(insert_sorted(s, x)),
    decreases s.len(),
{
    let out = insert_sorted(s, x);
    if s.len() > 0 && !row_lt(x, s[0]) {
        let t = s.skip(1);
        assert(forall|j: int| 0 <= j < t.len() ==> #[trigger] t[j] == s[j + 1]);
        assert(sorted_rows(t));
        lemma_insert_sorted_sorted(t, x);
        let ins = insert_sorted(t, x);
        assert(out == seq![s[0]] + ins);
        assert forall|i: int, j: int| 0 <= i < j < out.len() implies row_le(
            #[trigger] out[i],
            #[trigger] out[j],
        ) by {
            if i == 0 {
                assert(out[j] == ins[j - 1]);
                lemma_insert_sorted_contains(t, x, ins[j - 1]);
                if ins[j - 1] == x {
                    assert(row_le(s[0], x));
                } else {
                    let k = choose|k: int| 0 <= k < t.len() && t[k] == ins[j - 1];
                    assert(row_le(s[0], s[k + 1]));
                }
            } else {
                assert(out[i] == ins[i - 1] && out[j] == ins[j - 1]);
            }
        }
    } else {
        assert(out == seq![x] + s);
        assert forall|i: int, j: int| 0 <= i < j < out.len() implies row_le(
            #[trigger] out[i],
            #[trigger] out[j],
        ) by {
            if i == 0 {
                if s.len() > 0 {
                    assert(row_lt(x, s[0]));
                    assert(out[j] == s[j - 1]);
                    if j - 1 > 0 {
                        assert(row_le(s[0], s[j - 1]));
                    }
                }
            } else {
                assert(out[i] == s[i - 1] && out[j] == s[j - 1]);
            }
        }
    }
}

proof fn lemma_sort_rows_sorted(s: Seq<RecordView>)
    ensures
        sorted_rows(sort_rows(s)),
    decreases s.len(),
{
    if s.len() == 0 {
    } else {
        lemma_sort_rows_sorted(s.drop_last());
        lemma_insert_sorted_sorted(sort_rows(s.drop_last()), s.last());
    }
}

/// A merged history is in the canonical order: date ascending, then weight
/// descending.
pub proof fn lemma_merge_rows_sorted(e: Seq<RecordView>, b: Seq<RecordView>)
    ensures
        sorted_rows(merge_rows(e, b)),
{
    lemma_sort_rows_sorted(dedup_rows(e + b));
}

/// The reconciliation state machine's combining step.  No existing history:
/// the batch becomes the initial history as it stands.  No batch (read-only):
/// the history is returned unchanged.  Both present: the batch is merged in.
pub fn reconcile(history: Option<Vec<Record>>, batch: Option<Vec<Record>>) -> (r: Vec<Record>)
    ensures
        match (history, batch) {
            (Option::None, Option::None) => r.deep_view() == Seq::<RecordView>::empty(),
            (Option::None, Option::Some(b)) => r.deep_view() == b.deep_view(),
            (Option::Some(h), Option::None) => r.deep_view() == h.deep_view(),
            (Option::Some(h), Option::Some(b)) => r.deep_view() == merge_rows(
                h.deep_view(),
                b.deep_view(),
            ),
        },
{
    match (history, batch) {
        (Option::None, Option::None) => {
            let empty: Vec<Record> = Vec::new();
            proof {
                assert(empty.deep_view() =~= Seq::<RecordView>::empty());
            }
            empty
        },
        (Option::None, Option::Some(b)) => b,
        (Option::Some(h), Option::None) => h,
        (Option::Some(h), Option::Some(b)) => merge(&h, &b),
    }
}

} // verus!
