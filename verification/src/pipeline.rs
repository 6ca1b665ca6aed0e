//! The reconciliation pipeline's composed steps: normalize a batch and
//! canonicalize its identities, and fold a pile of delimited exports into
//! the stored history.

use vstd::prelude::*;
use crate::date::Date;
use crate::identity::{RuleSet, canon_rows, canonicalize};
use crate::merge::{merge, merge_rows};
use crate::normalize::{
    df_format, df_format_spec, BatchView, NormError, NormErrorView, NormalizedBatch,
};
use crate::record::{Record, RecordView};
use crate::registry::DataSource;
use crate::table::{RawTable, RawTableView};

verus! {

/// One batch made canonical: schema normalization, then the identity rule
/// set over every row.
pub fn format(df: RawTable, ds: Option<DataSource>, today: Date, rules: &RuleSet) -> (r: Result<
    NormalizedBatch,
    NormError,
>)
    requires
        df@.wf(),
        today.wf(),
    ensures
        match r {
            Ok(b) => df_format_spec(df@, ds, today) matches Ok(bv) && b.schema == bv.schema
                && b.rows.deep_view() == canon_rows(rules@, bv.rows),
            Err(e) => df_format_spec(df@, ds, today) == Err::<BatchView, NormErrorView>(e@),
        },
{
    match df_format(df, ds, today) {
        Err(e) => Err(e),
        Ok(b) => Ok(NormalizedBatch { schema: b.schema, rows: canonicalize(rules, b.rows) }),
    }
}

/// The rows a pile of raw exports contributes: each table normalized and
/// canonicalized, their rows concatenated in order; the first refused table
/// wins.
pub open spec fn batches_rows_spec(
    ts: Seq<RawTableView>,
    today: Date,
    rules: Seq<crate::identity::RuleView>,
    n: int,
) -> Result<Seq<RecordView>, NormErrorView>
    decreases n,
{
    if n <= 0 {
        Ok(Seq::empty())
    } else {
        match batches_rows_spec(ts, today, rules, n - 1) {
            Err(e) => Err(e),
            Ok(acc) => match df_format_spec(ts[n - 1], None, today) {
                Err(e) => Err(e),
                Ok(b) => Ok(acc + canon_rows(rules, b.rows)),
            },
        }
    }
}

/// What merging old exports into the stored history yields.
pub open spec fn csv_merge_spec(
    ts: Seq<RawTableView>,
    existing: Option<Seq<RecordView>>,
    today: Date,
    rules: Seq<crate::identity::RuleView>,
) -> Result<Seq<RecordView>, NormErrorView> {
    match batches_rows_spec(ts, today, rules, ts.len() as int) {
        Err(e) => Err(e),
        Ok(rows) => Ok(
            match existing {
                Some(h) => merge_rows(h, rows),
                None => rows,
            },
        ),
    }
}

proof fn lemma_batches_prefix_err(
    ts: Seq<RawTableView>,
    today: Date,
    rules: Seq<crate::identity::RuleView>,
    i: int,
    n: int,
)
    requires
        0 <= i <= n,
        batches_rows_spec(ts, today, rules, i) is Err,
    ensures
        batches_rows_spec(ts, today, rules, n) == batches_rows_spec(ts, today, rules, i),
    decreases n - i,
{
    if i < n {
        lemma_batches_prefix_err(ts, today, rules, i, n - 1);
    }
}

proof fn lemma_batches_rows_wf(
    ts: Seq<RawTableView>,
    today: Date,
    rules: Seq<crate::identity::RuleView>,
    n: int,
)
    ensures
        match batches_rows_spec(ts, today, rules, n) {
            Ok(rows) => crate::record::rows_wf(rows),
            Err(_) => true,
        },
    decreases n,
{
    if n <= 0 {
    } else {
        lemma_batches_rows_wf(ts, today, rules, n - 1);
        match batches_rows_spec(ts, today, rules, n - 1) {
            Err(_) => {},
            Ok(acc) => {
                crate::normalize::lemma_df_format_rows_wf(ts[n - 1], None, today);
                match crate::normalize::df_format_spec(ts[n - 1], None, today) {
                    Err(_) => {},
                    Ok(b) => {
                        crate::identity::lemma_canon_rows_wf(rules, b.rows);
                        let cb = canon_rows(rules, b.rows);
                        let out = acc + cb;
                        assert forall|i: int| 0 <= i < out.len() implies (#[trigger] out[i]).wf()
                            by {
                            if i < acc.len() {
                                assert(acc[i].wf());
                            } else {
                                assert(cb[i - acc.len()].wf());
                            }
                        }
                    },
                }
            },
        }
    }
}

/// No null (or impossible) date survives the whole pipeline: every row a
/// successful fold of exports into a dated history yields carries a valid
/// calendar date.
pub proof fn lemma_csv_merge_rows_wf(
    ts: Seq<RawTableView>,
    existing: Option<Seq<RecordView>>,
    today: Date,
    rules: Seq<crate::identity::RuleView>,
)
    requires
        match existing {
            Some(h) => crate::record::rows_wf(h),
            None => true,
        },
    ensures
        match csv_merge_spec(ts, existing, today, rules) {
            Ok(rows) => crate::record::rows_wf(rows),
            Err(_) => true,
        },
{
    lemma_batches_rows_wf(ts, today, rules, ts.len() as int);
    match batches_rows_spec(ts, today, rules, ts.len() as int) {
        Err(_) => {},
        Ok(rows) => match existing {
            Some(h) => {
                crate::merge::lemma_merge_rows_wf(h, rows);
            },
            None => {},
        },
    }
}

/// Folds freshly read delimited exports into the stored history: every
/// table is normalized and canonicalized, the rows are concatenated in
/// order, and, when a history exists, merged into it with the keep-first
/// rule and the canonical sort.
#[verifier::rlimit(100)]
pub fn csv_merge(
    tables: Vec<RawTable>,
    existing: Option<Vec<Record>>,
    today: Date,
    rules: &RuleSet,
) -> (r: Result<Vec<Record>, NormError>)
    requires
        forall|i: int| 0 <= i < tables@.len() ==> (#[trigger] tables@[i])@.wf(),
        today.wf(),
    ensures
        ({
            let spec_r = csv_merge_spec(
                tables.deep_view(),
                match existing {
                    Some(h) => Some(h.deep_view()),
                    None => None,
                },
                today,
                rules@,
            );
            match r {
                Ok(rows) => spec_r == Ok::<Seq<RecordView>, NormErrorView>(rows.deep_view()),
                Err(e) => spec_r == Err::<Seq<RecordView>, NormErrorView>(e@),
            }
        }),
{
    let ghost ts = tables.deep_view();
    let n = tables.len();
    let mut tbls = tables;
    let mut acc: Vec<Record> = Vec::new();
    proof {
        assert(acc.deep_view() =~= Seq::<RecordView>::empty());
        assert(tbls.deep_view() =~= ts.subrange(0, n as int));
    }
    let mut i: usize = 0;
    while i < n
        invariant
            i <= n,
            n == ts.len(),
            ts == tables.deep_view(),
            tbls.deep_view() == ts.subrange(i as int, n as int),
            forall|j: int| 0 <= j < ts.len() ==> (#[trigger] ts[j]).wf(),
            today.wf(),
            batches_rows_spec(ts, today, rules@, i as int) == Ok::<Seq<RecordView>, NormErrorView>(
                acc.deep_view(),
            ),
        decreases n - i,
    {
        let ghost oldtb = tbls.deep_view();
        proof {
            assert(tbls@.len() == tbls.deep_view().len());
            assert(tbls.deep_view().len() == n - i);
        }
        let t = tbls.remove(0);
        proof {
            assert(t@ == oldtb[0]);
            assert(oldtb[0] == ts.subrange(i as int, n as int)[0]);
            assert(t@ == ts[i as int]);
            assert(tbls.deep_view() =~= ts.subrange(i + 1, n as int)) by {
                assert forall|j: int| 0 <= j < tbls@.len() implies tbls.deep_view()[j] == oldtb[j
                    + 1] by {}
            }
        }
        match df_format(t, None, today) {
            Err(e) => {
                proof {
                    assert(batches_rows_spec(ts, today, rules@, i + 1) == Err::<
                        Seq<RecordView>,
                        NormErrorView,
                    >(e@));
                    lemma_batches_prefix_err(ts, today, rules@, i + 1, n as int);
                }
                return Err(e);
            },
            Ok(b) => {
                let mut cb = canonicalize(rules, b.rows);
                let ghost olda = acc.deep_view();
                let ghost oldc = cb.deep_view();
                let ghost oldav = acc@;
                let ghost oldcv = cb@;
                acc.append(&mut cb);
                proof {
                    assert(acc@ == oldav + oldcv);
                    assert forall|j: int| 0 <= j < acc@.len() implies acc.deep_view()[j] == (olda
                        + oldc)[j] by {
                        if j < oldav.len() {
                            assert(acc@[j] == oldav[j]);
                        } else {
                            assert(acc@[j] == oldcv[j - oldav.len()]);
                        }
                    }
                    assert(acc.deep_view() =~= olda + oldc);
                }
            },
        }
        i = i + 1;
    }
    match existing {
        Option::None => Ok(acc),
        Option::Some(h) => Ok(merge(&h, &acc)),
    }
}

} // verus!
