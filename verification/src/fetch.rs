//! Fetch planning: deciding what to request from a vendor before a
//! reconciliation cycle, and building the request URL.
//!
//! The decision depends only on the requested mode and the stored history;
//! performing the request is the caller's business.

use vstd::prelude::*;
use vstd::string::StringExecFns;
use crate::date::Date;
use crate::record::Record;
use crate::registry::{DataSource, Ticker};
use crate::merge::watermark;

verus! {

/// Where an update cycle takes its data from.
#[derive(Clone, Copy, PartialEq, Eq, Structural, Debug)]
pub enum Source {
    /// Reads the stored history only; no fetch.
    Read,
    /// The vendor's own full-holdings file.
    Ark,
    /// The aggregation API, bounded below by the history's watermark.
    ApiIncremental,
    /// The aggregation API over the whole available range.
    ApiFull,
    /// The alternative aggregation API, incremental.
    ArkFundsIoIncremental,
    /// The alternative aggregation API, full range.
    ArkFundsIoFull,
}

/// The payload shape a fetch is expected to return.
#[derive(Clone, Copy, PartialEq, Eq, Structural, Debug)]
pub enum Reader {
    Csv,
    Json,
}

/// What a reconciliation cycle should request.
pub enum FetchPlan {
    /// Nothing: the stored history is the output.
    NoFetch,
    /// The vendor's delimited full-holdings file.
    FetchCsv,
    /// The aggregation API, from `start` onward when bounded.
    FetchApi { start: Option<Date> },
}

pub open spec fn is_incremental(source: Source) -> bool {
    source == Source::ApiIncremental || source == Source::ArkFundsIoIncremental
}

/// The greatest date of a history.
pub open spec fn is_max_date(s: Seq<crate::record::RecordView>, d: Date) -> bool {
    (exists|i: int| 0 <= i < s.len() && (#[trigger] s[i]).date == d) && forall|i: int|
        0 <= i < s.len() ==> (#[trigger] s[i]).date.le_spec(d)
}

/// Decides the fetch for one cycle.  Read-only mode demands a stored
/// history; an incremental mode against a stored history demands at least
/// one row to take the watermark from.
pub fn plan_fetch(source: Source, history: &Option<Vec<Record>>) -> (r: FetchPlan)
    requires
        source == Source::Read ==> history is Some,
        is_incremental(source) && history is Some ==> history->0@.len() > 0,
    ensures
        match source {
            Source::Read => r == FetchPlan::NoFetch,
            Source::Ark => r == FetchPlan::FetchCsv,
            Source::ApiIncremental | Source::ArkFundsIoIncremental => match history {
                Some(h) => r matches FetchPlan::FetchApi { start: Some(d) } && is_max_date(
                    h.deep_view(),
                    d,
                ),
                None => r == (FetchPlan::FetchApi { start: None }),
            },
            Source::ApiFull | Source::ArkFundsIoFull => r == (FetchPlan::FetchApi { start: None }),
        },
{
    match source {
        Source::Read => FetchPlan::NoFetch,
        Source::Ark => FetchPlan::FetchCsv,
        Source::ApiIncremental | Source::ArkFundsIoIncremental => match history {
            Option::Some(h) => {
                let w = watermark(h);
                proof {
                    assert(w is Some);
                }
                FetchPlan::FetchApi { start: w }
            },
            Option::None => FetchPlan::FetchApi { start: None },
        },
        Source::ApiFull | Source::ArkFundsIoFull => FetchPlan::FetchApi { start: None },
    }
}

/// The payload kind each plan is served in.
pub fn plan_reader(plan: &FetchPlan) -> (r: Option<Reader>)
    ensures
        match plan {
            FetchPlan::NoFetch => r is None,
            FetchPlan::FetchCsv => r == Some(Reader::Csv),
            FetchPlan::FetchApi { .. } => r == Some(Reader::Json),
        },
{
    match plan {
        FetchPlan::NoFetch => None,
        FetchPlan::FetchCsv => Some(Reader::Csv),
        FetchPlan::FetchApi { .. } => Some(Reader::Json),
    }
}

/// The start date written into an API URL when the fetch is unbounded.
pub open spec fn default_start_spec() -> Seq<char> {
    "2000-01-01"@
}

pub open spec fn nexveridian_url_spec(t: Ticker, start: Seq<char>) -> Seq<char> {
    "https://api.nexveridian.com/ark_holdings?ticker="@ + t.symbol_spec() + "&start="@ + start
}

pub open spec fn arkfundsio_url_spec(t: Ticker, start: Seq<char>) -> Seq<char> {
    "https://arkfunds.io/api/v2/etf/holdings?symbol="@ + t.symbol_spec() + "&date_from="@ + start
}

/// The URL an API fetch uses: the aggregation API keyed by fund symbol and
/// start date; funds of the European family always use the primary API, and
/// the alternative API's full mode ignores the watermark.
pub open spec fn api_url_spec(t: Ticker, last_day: Option<Date>, source: Option<Source>) -> Seq<
    char,
> {
    let bounded_start = match last_day {
        Some(d) => d.iso_spec(),
        None => default_start_spec(),
    };
    if t.data_source_spec() == DataSource::ArkEurope {
        nexveridian_url_spec(t, bounded_start)
    } else {
        match source {
            Some(Source::ArkFundsIoIncremental) => arkfundsio_url_spec(t, bounded_start),
            Some(Source::ArkFundsIoFull) => arkfundsio_url_spec(t, default_start_spec()),
            _ => nexveridian_url_spec(t, bounded_start),
        }
    }
}

pub fn api_url(t: Ticker, last_day: Option<Date>, source: Option<Source>) -> (r: String)
    requires
        last_day is Some ==> last_day->0.wf(),
    ensures
        r@ == api_url_spec(t, last_day, source),
{
    let start: String = match &last_day {
        Option::Some(d) => d.to_iso_string(),
        Option::None => {
            let s = String::from_str("2000-01-01");
            s
        },
    };
    let ds = t.data_source();
    let arkfundsio: bool = if ds == DataSource::ArkEurope {
        false
    } else {
        match source {
            Option::Some(Source::ArkFundsIoIncremental) => true,
            Option::Some(Source::ArkFundsIoFull) => true,
            _ => false,
        }
    };
    if arkfundsio {
        let mut s = String::from_str("https://arkfunds.io/api/v2/etf/holdings?symbol=");
        s.append(t.symbol());
        s.append("&date_from=");
        match source {
            Option::Some(Source::ArkFundsIoFull) => {
                s.append("2000-01-01");
            },
            _ => {
                s.append(start.as_str());
            },
        }
        proof {
            assert(s@ =~= api_url_spec(t, last_day, source));
        }
        s
    } else {
        let mut s = String::from_str("https://api.nexveridian.com/ark_holdings?ticker=");
        s.append(t.symbol());
        s.append("&start=");
        s.append(start.as_str());
        proof {
            assert(s@ =~= api_url_spec(t, last_day, source));
        }
        s
    }
}

} // verus!
