//! The canonical holding record: one row per (fund, disclosure date,
//! security).
//!
//! `market_value` is whole currency units; `share_price` is held in
//! price-scale units (hundredths) and `weight` in weight-scale units
//! (ten-thousandths of a percentage point), so no field needs a float.

use vstd::prelude::*;
use crate::date::Date;

verus! {

pub struct Record {
    pub date: Date,
    pub ticker: Option<String>,
    pub cusip: Option<String>,
    pub company: Option<String>,
    pub market_value: Option<i64>,
    pub shares: Option<i64>,
    pub share_price: Option<i64>,
    pub weight: Option<i64>,
}

/// The mathematical value of a record: text fields become character
/// sequences.
#[verifier::ext_equal]
pub ghost struct RecordView {
    pub date: Date,
    pub ticker: Option<Seq<char>>,
    pub cusip: Option<Seq<char>>,
    pub company: Option<Seq<char>>,
    pub market_value: Option<i64>,
    pub shares: Option<i64>,
    pub share_price: Option<i64>,
    pub weight: Option<i64>,
}

impl View for Record {
    type V = RecordView;

    open spec fn view(&self) -> RecordView {
        RecordView {
            date: self.date,
            ticker: self.ticker.deep_view(),
            cusip: self.cusip.deep_view(),
            company: self.company.deep_view(),
            market_value: self.market_value,
            shares: self.shares,
            share_price: self.share_price,
            weight: self.weight,
        }
    }
}

impl DeepView for Record {
    type V = RecordView;

    open spec fn deep_view(&self) -> RecordView {
        self.view()
    }
}

impl RecordView {
    /// A finalized record carries a real calendar date.
    pub open spec fn wf(self) -> bool {
        self.date.wf()
    }
}

/// Every row of a history carries a real calendar date.
pub open spec fn rows_wf(s: Seq<RecordView>) -> bool {
    forall|i: int| 0 <= i < s.len() ==> #[trigger] s[i].wf()
}

pub fn opt_str_clone(o: &Option<String>) -> (r: Option<String>)
    ensures
        r.deep_view() == o.deep_view(),
{
    match o {
        Option::None => Option::None,
        Option::Some(s) => Option::Some(s.clone()),
    }
}

pub fn opt_str_eq(a: &Option<String>, b: &Option<String>) -> (r: bool)
    ensures
        r == (a.deep_view() == b.deep_view()),
{
    match (a, b) {
        (Option::None, Option::None) => true,
        (Option::Some(x), Option::Some(y)) => *x == *y,
        _ => false,
    }
}

pub fn opt_i64_eq(a: &Option<i64>, b: &Option<i64>) -> (r: bool)
    ensures
        r == (a == b),
{
    match (a, b) {
        (Option::None, Option::None) => true,
        (Option::Some(x), Option::Some(y)) => *x == *y,
        _ => false,
    }
}

impl Record {
    /// A field-for-field copy whose value equals this record's.
    pub fn duplicate(&self) -> (r: Record)
        ensures
            r@ == self@,
    {
        Record {
            date: self.date,
            ticker: opt_str_clone(&self.ticker),
            cusip: opt_str_clone(&self.cusip),
            company: opt_str_clone(&self.company),
            market_value: self.market_value,
            shares: self.shares,
            share_price: self.share_price,
            weight: self.weight,
        }
    }
}

/// Whole-row equality: the key rows are deduplicated on.
pub fn record_eq(a: &Record, b: &Record) -> (r: bool)
    ensures
        r == (a@ == b@),
{
    let same = a.date == b.date && opt_str_eq(&a.ticker, &b.ticker) && opt_str_eq(
        &a.cusip,
        &b.cusip,
    ) && opt_str_eq(&a.company, &b.company) && opt_i64_eq(&a.market_value, &b.market_value)
        && opt_i64_eq(&a.shares, &b.shares) && opt_i64_eq(&a.share_price, &b.share_price)
        && opt_i64_eq(&a.weight, &b.weight);
    proof {
        if same {
            assert(a@ =~= b@);
        }
    }
    same
}

/// Copies a whole history, row values preserved.
pub fn copy_rows(v: &Vec<Record>) -> (r: Vec<Record>)
    ensures
        r.deep_view() == v.deep_view(),
{
    let n = v.len();
    let mut out: Vec<Record> = Vec::new();
    let mut i: usize = 0;
    while i < n
        invariant
            i <= n,
            n == v@.len(),
            out@.len() == i,
            forall|j: int| 0 <= j < i ==> out@[j]@ == v@[j]@,
        decreases n - i,
    {
        out.push(v[i].duplicate());
        i = i + 1;
    }
    proof {
        assert(out.deep_view() =~= v.deep_view());
    }
    out
}

} // verus!
