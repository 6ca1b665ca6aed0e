//! The schema normalizer: mapping an arbitrarily-shaped vendor table onto
//! the canonical record shape.
//!
//! Each vendor family gets a declarative branch of header renames, drops and
//! synthesized columns; a generic pass then fixes known header variants,
//! establishes the date column by trying formats in order, coerces numeric
//! text, strips identity suffixes, and derives the share price where the
//! vendor did not supply one.

use vstd::prelude::*;
use crate::table::{
    RawTable, RawTableView, RawValue, RawValueView, has_col, find_col_spec, lemma_find_col_spec,
    rename_col_spec, drop_col_spec, add_null_col_spec, add_text_col_spec, drop_first_rows_spec,
    drop_empty_named_cols_spec, set_col_name_spec,
};
use crate::date::{Date, DateFormat, parse_date_spec, parse_date};
use crate::record::{Record, RecordView};
use crate::registry::DataSource;
use crate::text::str_eq;

verus! {

/// Why normalization refused a table.
#[derive(Debug)]
pub enum NormError {
    /// A canonical column could not be established from any known header.
    MissingColumn(String),
    /// The table matches no registered vendor shape.
    UnrecognizedShape,
}

#[verifier::ext_equal]
pub ghost enum NormErrorView {
    MissingColumn(Seq<char>),
    UnrecognizedShape,
}

impl View for NormError {
    type V = NormErrorView;

    open spec fn view(&self) -> NormErrorView {
        match self {
            NormError::MissingColumn(s) => NormErrorView::MissingColumn(s@),
            NormError::UnrecognizedShape => NormErrorView::UnrecognizedShape,
        }
    }
}

/// The vendor of the bitcoin fund family: one known header set, renamed to
/// the canonical names; administrative columns dropped.
pub open spec fn df_format_21shares_spec(t: RawTableView) -> RawTableView {
    if has_col(t, "Weightings"@) {
        let t1 = rename_col_spec(t, "Date"@, "date"@);
        let t2 = rename_col_spec(t1, "StockTicker"@, "ticker"@);
        let t3 = rename_col_spec(t2, "CUSIP"@, "cusip"@);
        let t4 = rename_col_spec(t3, "SecurityName"@, "company"@);
        let t5 = rename_col_spec(t4, "Shares"@, "shares"@);
        let t6 = rename_col_spec(t5, "Price"@, "share_price"@);
        let t7 = rename_col_spec(t6, "MarketValue"@, "market_value"@);
        let t8 = rename_col_spec(t7, "Weightings"@, "weight"@);
        let t9 = drop_col_spec(t8, "Account"@);
        let t10 = drop_col_spec(t9, "NetAssets"@);
        let t11 = drop_col_spec(t10, "SharesOutstanding"@);
        let t12 = drop_col_spec(t11, "CreationUnits"@);
        drop_col_spec(t12, "MoneyMarketFlag"@)
    } else {
        t
    }
}

pub fn df_format_21shares(df: RawTable) -> (r: RawTable)
    ensures
        r@ == df_format_21shares_spec(df@),
        df@.wf() ==> r@.wf(),
{
    let mut t = df;
    if t.has_col_exec("Weightings") {
        t.rename_col("Date", "date");
        t.rename_col("StockTicker", "ticker");
        t.rename_col("CUSIP", "cusip");
        t.rename_col("SecurityName", "company");
        t.rename_col("Shares", "shares");
        t.rename_col("Price", "share_price");
        t.rename_col("MarketValue", "market_value");
        t.rename_col("Weightings", "weight");
        t.drop_col("Account");
        t.drop_col("NetAssets");
        t.drop_col("SharesOutstanding");
        t.drop_col("CreationUnits");
        t.drop_col("MoneyMarketFlag");
    }
    t
}

/// The venture fund's export: weight-only headers renamed to the canonical
/// names; the batch keeps the reduced schema, valuation stays absent.
pub open spec fn df_format_arkvx_spec(t: RawTableView) -> RawTableView {
    let t1 = rename_col_spec(t, "CUSIP"@, "cusip"@);
    rename_col_spec(t1, "weight (%)"@, "weight"@)
}

pub fn df_format_arkvx(df: RawTable) -> (r: RawTable)
    ensures
        r@ == df_format_arkvx_spec(df@),
        df@.wf() ==> r@.wf(),
{
    let mut t = df;
    t.rename_col("CUSIP", "cusip");
    t.rename_col("weight (%)", "weight");
    t
}

/// The European fund family's download: identity columns renamed, the
/// disclosure date synthesized as the day the export is taken, the ticker
/// absent; the batch keeps the reduced weight-only schema.
pub open spec fn df_format_europe_spec(t: RawTableView, today: Date) -> RawTableView {
    if has_col(t, "Currency"@) {
        let t1 = drop_col_spec(t, "Currency"@);
        let t2 = rename_col_spec(t1, "name"@, "company"@);
        let t3 = rename_col_spec(t2, "ISIN"@, "cusip"@);
        let t4 = rename_col_spec(t3, "Weight"@, "weight"@);
        let t5 = add_text_col_spec(t4, "date"@, today.iso_spec());
        add_null_col_spec(t5, "ticker"@)
    } else {
        t
    }
}

pub fn df_format_europe(df: RawTable, today: Date) -> (r: RawTable)
    requires
        today.wf(),
    ensures
        r@ == df_format_europe_spec(df@, today),
        df@.wf() ==> r@.wf(),
{
    let mut t = df;
    if t.has_col_exec("Currency") {
        t.drop_col("Currency");
        t.rename_col("name", "company");
        t.rename_col("ISIN", "cusip");
        t.rename_col("Weight", "weight");
        let iso = today.to_iso_string();
        t.add_text_col("date", iso.as_str());
        t.add_null_col("ticker");
    }
    t
}

/// The European aggregation API's exact column set, padded to the canonical
/// schema.
pub open spec fn europe_api_shape(t: RawTableView) -> bool {
    t.cols.len() == 6 && t.cols[0].name == "company"@ && t.cols[1].name == "cusip"@
        && t.cols[2].name == "date"@ && t.cols[3].name == "fund"@ && t.cols[4].name == "weight"@
        && t.cols[5].name == "weight_rank"@
}

pub open spec fn df_format_europe_arkfundsio_spec(t: RawTableView) -> RawTableView {
    if europe_api_shape(t) {
        let t1 = drop_col_spec(t, "fund"@);
        let t2 = drop_col_spec(t1, "weight_rank"@);
        add_null_col_spec(t2, "ticker"@)
    } else {
        t
    }
}

pub fn df_format_europe_arkfundsio(df: RawTable) -> (r: RawTable)
    ensures
        r@ == df_format_europe_arkfundsio_spec(df@),
        df@.wf() ==> r@.wf(),
{
    let mut t = df;
    let shape = t.col_count() == 6 && str_eq(t.col_name(0).as_str(), "company") && str_eq(
        t.col_name(1).as_str(),
        "cusip",
    ) && str_eq(t.col_name(2).as_str(), "date") && str_eq(t.col_name(3).as_str(), "fund") && str_eq(
        t.col_name(4).as_str(),
        "weight",
    ) && str_eq(t.col_name(5).as_str(), "weight_rank");
    if shape {
        t.drop_col("fund");
        t.drop_col("weight_rank");
        t.add_null_col("ticker");
    }
    t
}

/// The European website's delimited export: two header junk rows, three
/// positional columns, the date and ticker synthesized.  A marked table
/// that does not have exactly three columns after slicing is an
/// unrecognized shape.
pub open spec fn df_format_europe_csv_spec(t: RawTableView, today: Date) -> Option<RawTableView> {
    if has_col(t, "_duplicated_0"@) {
        let t1 = drop_first_rows_spec(t, 2);
        if t1.cols.len() == 3 {
            let t2 = set_col_name_spec(t1, 0, "company"@);
            let t3 = set_col_name_spec(t2, 1, "cusip"@);
            let t4 = set_col_name_spec(t3, 2, "weight"@);
            let t5 = add_text_col_spec(t4, "date"@, today.iso_spec());
            Some(add_null_col_spec(t5, "ticker"@))
        } else {
            None
        }
    } else {
        Some(t)
    }
}

pub fn df_format_europe_csv(df: RawTable, today: Date) -> (r: Result<RawTable, NormError>)
    requires
        today.wf(),
    ensures
        match r {
            Ok(out) => df_format_europe_csv_spec(df@, today) == Some(out@) && (df@.wf()
                ==> out@.wf()),
            Err(e) => df_format_europe_csv_spec(df@, today) is None && e@
                == NormErrorView::UnrecognizedShape,
        },
{
    let mut t = df;
    if t.has_col_exec("_duplicated_0") {
        t.drop_first_rows(2);
        if t.col_count() == 3 {
            t.set_col_name(0, "company");
            t.set_col_name(1, "cusip");
            t.set_col_name(2, "weight");
            let iso = today.to_iso_string();
            t.add_text_col("date", iso.as_str());
            t.add_null_col("ticker");
            Ok(t)
        } else {
            Err(NormError::UnrecognizedShape)
        }
    } else {
        Ok(t)
    }
}

/// The per-vendor branch for one declared vendor family.
pub open spec fn data_source_spec(ds: DataSource, t: RawTableView, today: Date) -> Option<
    RawTableView,
> {
    match ds {
        DataSource::ArkVenture => Some(df_format_arkvx_spec(t)),
        DataSource::Ark => Some(t),
        DataSource::Shares21 => Some(df_format_21shares_spec(t)),
        DataSource::ArkEurope | DataSource::Rize => match df_format_europe_csv_spec(t, today) {
            None => None,
            Some(t1) => Some(
                df_format_europe_spec(df_format_europe_arkfundsio_spec(t1), today),
            ),
        },
    }
}

pub fn data_source(ds: DataSource, df: RawTable, today: Date) -> (r: Result<RawTable, NormError>)
    requires
        today.wf(),
    ensures
        match r {
            Ok(out) => data_source_spec(ds, df@, today) == Some(out@) && (df@.wf() ==> out@.wf()),
            Err(e) => data_source_spec(ds, df@, today) is None && e@
                == NormErrorView::UnrecognizedShape,
        },
{
    match ds {
        DataSource::ArkVenture => Ok(df_format_arkvx(df)),
        DataSource::Ark => Ok(df),
        DataSource::Shares21 => Ok(df_format_21shares(df)),
        DataSource::ArkEurope | DataSource::Rize => {
            match df_format_europe_csv(df, today) {
                Err(e) => Err(e),
                Ok(t1) => {
                    let t2 = df_format_europe_arkfundsio(t1);
                    Ok(df_format_europe(t2, today))
                },
            }
        },
    }
}

/// Known header variants for the valuation and weight columns, and
/// administrative columns that are not part of the canonical shape.
pub open spec fn header_fixups_spec(t: RawTableView) -> RawTableView {
    let t1 = rename_col_spec(t, "market_value_($)"@, "market_value"@);
    let t2 = rename_col_spec(t1, "weight_(%)"@, "weight"@);
    let t3 = rename_col_spec(t2, "market value ($)"@, "market_value"@);
    let t4 = rename_col_spec(t3, "weight (%)"@, "weight"@);
    let t5 = drop_col_spec(t4, "fund"@);
    let t6 = drop_col_spec(t5, "weight_rank"@);
    drop_empty_named_cols_spec(t6)
}

fn header_fixups(df: RawTable) -> (r: RawTable)
    ensures
        r@ == header_fixups_spec(df@),
        df@.wf() ==> r@.wf(),
{
    let mut t = df;
    t.rename_col("market_value_($)", "market_value");
    t.rename_col("weight_(%)", "weight");
    t.rename_col("market value ($)", "market_value");
    t.rename_col("weight (%)", "weight");
    t.drop_col("fund");
    t.drop_col("weight_rank");
    t.drop_empty_named_cols();
    t
}

/// The whole structural phase: the vendor branch (declared, or detected by
/// marker columns), then the header fixups.
pub open spec fn structural_spec(t: RawTableView, ds: Option<DataSource>, today: Date) -> Option<
    RawTableView,
> {
    let pre = match ds {
        Some(d) => data_source_spec(d, t, today),
        None => match df_format_europe_csv_spec(t, today) {
            None => None,
            Some(t1) => Some(
                df_format_europe_spec(
                    df_format_arkvx_spec(
                        df_format_21shares_spec(df_format_europe_arkfundsio_spec(t1)),
                    ),
                    today,
                ),
            ),
        },
    };
    match pre {
        None => None,
        Some(t2) => Some(header_fixups_spec(t2)),
    }
}

/// Exchange suffixes stripped from the end of a ticker cell.
#[verifier::opaque]
pub open spec fn ticker_suffixes_spec() -> Seq<Seq<char>> {
    seq![" FP"@, " UQ"@, " UF"@, " UN"@, " UW"@, "/U"@, " CN"@]
}

/// Corporate-form and share-class suffixes stripped from the end of a
/// company cell.
#[verifier::opaque]
pub open spec fn company_suffixes_spec() -> Seq<Seq<char>> {
    seq![
        " - A"@,
        "-A"@,
        " CL A"@,
        " CLASS A"@,
        " CL C"@,
        " - C"@,
        " Inc"@,
        " INC"@,
        " incorporated"@,
        " LTD"@,
        " CORP"@,
        " CORPORATION"@,
        " Corporation"@,
        " HLDGS"@,
        " HOLDINGS"@,
        " Holdings"@,
        " HOLDIN"@,
        "ORATION"@,
        " PLC"@,
        " AG"@,
        " ADR"@,
        " SA"@,
        " NV"@,
        " SE"@,
    ]
}

pub fn ticker_suffixes() -> (r: Vec<String>)
    ensures
        r.deep_view() == ticker_suffixes_spec(),
        crate::text::all_suffixes_nonempty(r.deep_view()),
{
    let mut v: Vec<String> = Vec::new();
    v.push(String::from_str(" FP"));
    v.push(String::from_str(" UQ"));
    v.push(String::from_str(" UF"));
    v.push(String::from_str(" UN"));
    v.push(String::from_str(" UW"));
    v.push(String::from_str("/U"));
    v.push(String::from_str(" CN"));
    proof {
        reveal(ticker_suffixes_spec);
        assert(v.deep_view() =~= ticker_suffixes_spec());
        reveal_strlit(" FP");
        reveal_strlit(" UQ");
        reveal_strlit(" UF");
        reveal_strlit(" UN");
        reveal_strlit(" UW");
        reveal_strlit("/U");
        reveal_strlit(" CN");
        assert forall|j: int|
            0 <= j < v.deep_view().len() implies #[trigger] v.deep_view()[j].len() > 0 by {
            assert(v.deep_view()[j] == ticker_suffixes_spec()[j]);
        }
    }
    v
}

pub fn company_suffixes() -> (r: Vec<String>)
    ensures
        r.deep_view() == company_suffixes_spec(),
        crate::text::all_suffixes_nonempty(r.deep_view()),
{
    let mut v: Vec<String> = Vec::new();
    v.push(String::from_str(" - A"));
    v.push(String::from_str("-A"));
    v.push(String::from_str(" CL A"));
    v.push(String::from_str(" CLASS A"));
    v.push(String::from_str(" CL C"));
    v.push(String::from_str(" - C"));
    v.push(String::from_str(" Inc"));
    v.push(String::from_str(" INC"));
    v.push(String::from_str(" incorporated"));
    v.push(String::from_str(" LTD"));
    v.push(String::from_str(" CORP"));
    v.push(String::from_str(" CORPORATION"));
    v.push(String::from_str(" Corporation"));
    v.push(String::from_str(" HLDGS"));
    v.push(String::from_str(" HOLDINGS"));
    v.push(String::from_str(" Holdings"));
    v.push(String::from_str(" HOLDIN"));
    v.push(String::from_str("ORATION"));
    v.push(String::from_str(" PLC"));
    v.push(String::from_str(" AG"));
    v.push(String::from_str(" ADR"));
    v.push(String::from_str(" SA"));
    v.push(String::from_str(" NV"));
    v.push(String::from_str(" SE"));
    proof {
        reveal(company_suffixes_spec);
        assert(v.deep_view() =~= company_suffixes_spec());
        reveal_strlit(" - A");
        reveal_strlit("-A");
        reveal_strlit(" CL A");
        reveal_strlit(" CLASS A");
        reveal_strlit(" CL C");
        reveal_strlit(" - C");
        reveal_strlit(" Inc");
        reveal_strlit(" INC");
        reveal_strlit(" incorporated");
        reveal_strlit(" LTD");
        reveal_strlit(" CORP");
        reveal_strlit(" CORPORATION");
        reveal_strlit(" Corporation");
        reveal_strlit(" HLDGS");
        reveal_strlit(" HOLDINGS");
        reveal_strlit(" Holdings");
        reveal_strlit(" HOLDIN");
        reveal_strlit("ORATION");
        reveal_strlit(" PLC");
        reveal_strlit(" AG");
        reveal_strlit(" ADR");
        reveal_strlit(" SA");
        reveal_strlit(" NV");
        reveal_strlit(" SE");
        assert forall|j: int|
            0 <= j < v.deep_view().len() implies #[trigger] v.deep_view()[j].len() > 0 by {
            assert(v.deep_view()[j] == company_suffixes_spec()[j]);
        }
    }
    v
}

// --- what each canonical field reads out of a cell ---

pub open spec fn cell_text(v: RawValueView) -> Option<Seq<char>> {
    match v {
        RawValueView::Text(s) => Some(s),
        _ => None,
    }
}

pub open spec fn cell_date(v: RawValueView, f: DateFormat) -> Option<Date> {
    match v {
        RawValueView::Text(s) => parse_date_spec(s, f),
        _ => None,
    }
}

pub open spec fn ticker_of_cell(v: RawValueView) -> Option<Seq<char>> {
    match v {
        RawValueView::Text(s) => Some(
            crate::text::strip_suffixes_spec(s, ticker_suffixes_spec(), false),
        ),
        _ => None,
    }
}

pub open spec fn company_of_cell(v: RawValueView) -> Option<Seq<char>> {
    match v {
        RawValueView::Text(s) => Some(
            crate::text::strip_suffixes_spec(s, company_suffixes_spec(), true),
        ),
        _ => None,
    }
}

pub open spec fn mv_of_cell(v: RawValueView) -> Option<i64> {
    match v {
        RawValueView::Int(i) => Some(i),
        RawValueView::Text(s) => crate::text::money_spec(s),
        RawValueView::Null => None,
    }
}

pub open spec fn shares_of_cell(v: RawValueView) -> Option<i64> {
    match v {
        RawValueView::Int(i) => Some(i),
        RawValueView::Text(s) => crate::text::shares_spec(s),
        RawValueView::Null => None,
    }
}

pub open spec fn price_of_cell(v: RawValueView) -> Option<i64> {
    match v {
        RawValueView::Int(i) => if -92233720368547758 <= i <= 92233720368547758 {
            Some((100 * i) as i64)
        } else {
            None
        },
        RawValueView::Text(s) => crate::text::price_spec(s),
        RawValueView::Null => None,
    }
}

pub open spec fn weight_of_cell(v: RawValueView) -> Option<i64> {
    match v {
        RawValueView::Int(i) => if -922337203685477 <= i <= 922337203685477 {
            Some((10000 * i) as i64)
        } else {
            None
        },
        RawValueView::Text(s) => crate::text::weight_spec(s),
        RawValueView::Null => None,
    }
}

// --- date-format election ---

pub open spec fn date_null_count(vs: Seq<RawValueView>, f: DateFormat) -> int
    decreases vs.len(),
{
    if vs.len() == 0 {
        0
    } else {
        date_null_count(vs.drop_last(), f) + (if cell_date(vs.last(), f) is None {
            1int
        } else {
            0int
        })
    }
}

/// A format is accepted when fewer than a tenth of the rows fail to parse
/// under it.
pub open spec fn format_good(vs: Seq<RawValueView>, f: DateFormat) -> bool {
    10 * date_null_count(vs, f) < vs.len()
}

/// The first accepted format: the canonical one, then the known alternates,
/// then the format-free parse.
pub open spec fn chosen_format(vs: Seq<RawValueView>) -> Option<DateFormat> {
    if format_good(vs, DateFormat::Iso) {
        Some(DateFormat::Iso)
    } else if format_good(vs, DateFormat::MonthDayYear) {
        Some(DateFormat::MonthDayYear)
    } else if format_good(vs, DateFormat::YearMonthDay) {
        Some(DateFormat::YearMonthDay)
    } else if format_good(vs, DateFormat::Any) {
        Some(DateFormat::Any)
    } else {
        None
    }
}

fn count_date_nulls(t: &RawTable, dc: usize, f: DateFormat) -> (r: usize)
    requires
        t@.wf(),
        dc < t@.cols.len(),
    ensures
        r == date_null_count(t@.cols[dc as int].values, f),
{
    let ghost vs = t@.cols[dc as int].values;
    let h = t.height;
    proof {
        assert(t@.cols[dc as int].values.len() == t@.height);
    }
    let mut count: usize = 0;
    let mut i: usize = 0;
    while i < h
        invariant
            i <= h,
            h == vs.len(),
            vs == t@.cols[dc as int].values,
            t@.wf(),
            dc < t@.cols.len(),
            count <= i,
            count == date_null_count(vs.subrange(0, i as int), f),
        decreases h - i,
    {
        let ghost pre = vs.subrange(0, i as int);
        let ghost post = vs.subrange(0, i + 1);
        proof {
            assert(post.drop_last() =~= pre);
            assert(post.last() == vs[i as int]);
        }
        let cell = t.cell(dc, i);
        let is_null = match cell {
            RawValue::Text(s) => parse_date(s.as_str(), f).is_none(),
            _ => true,
        };
        if is_null {
            count = count + 1;
        }
        i = i + 1;
    }
    proof {
        assert(vs.subrange(0, h as int) =~= vs);
    }
    count
}

fn choose_format(t: &RawTable, dc: usize) -> (r: Option<DateFormat>)
    requires
        t@.wf(),
        dc < t@.cols.len(),
    ensures
        r == chosen_format(t@.cols[dc as int].values),
{
    let h = t.height;
    proof {
        assert(t@.cols[dc as int].values.len() == t@.height);
    }
    let n_iso = count_date_nulls(t, dc, DateFormat::Iso);
    if 10 * (n_iso as u128) < (h as u128) {
        return Some(DateFormat::Iso);
    }
    let n_mdy = count_date_nulls(t, dc, DateFormat::MonthDayYear);
    if 10 * (n_mdy as u128) < (h as u128) {
        return Some(DateFormat::MonthDayYear);
    }
    let n_ymd = count_date_nulls(t, dc, DateFormat::YearMonthDay);
    if 10 * (n_ymd as u128) < (h as u128) {
        return Some(DateFormat::YearMonthDay);
    }
    let n_any = count_date_nulls(t, dc, DateFormat::Any);
    if 10 * (n_any as u128) < (h as u128) {
        return Some(DateFormat::Any);
    }
    None
}

// --- the normalized batch ---

/// Which canonical column set a batch carries.
#[derive(Clone, Copy, PartialEq, Eq, Structural, Debug)]
pub enum Schema {
    /// All eight canonical columns.
    Full,
    /// The reduced five-column set of weight-only vendors.
    Reduced,
}

pub struct NormalizedBatch {
    pub schema: Schema,
    pub rows: Vec<Record>,
}

#[verifier::ext_equal]
pub ghost struct BatchView {
    pub schema: Schema,
    pub rows: Seq<RecordView>,
}

/// The canonical column names of a schema, in their fixed order.
pub open spec fn schema_columns_spec(s: Schema) -> Seq<Seq<char>> {
    match s {
        Schema::Full => seq![
            "date"@,
            "ticker"@,
            "cusip"@,
            "company"@,
            "market_value"@,
            "shares"@,
            "share_price"@,
            "weight"@,
        ],
        Schema::Reduced => seq!["date"@, "ticker"@, "cusip"@, "company"@, "weight"@],
    }
}

pub fn column_names(s: Schema) -> (r: Vec<String>)
    ensures
        r.deep_view() == schema_columns_spec(s),
{
    let mut v: Vec<String> = Vec::new();
    v.push(String::from_str("date"));
    v.push(String::from_str("ticker"));
    v.push(String::from_str("cusip"));
    v.push(String::from_str("company"));
    match s {
        Schema::Full => {
            v.push(String::from_str("market_value"));
            v.push(String::from_str("shares"));
            v.push(String::from_str("share_price"));
            v.push(String::from_str("weight"));
        },
        Schema::Reduced => {
            v.push(String::from_str("weight"));
        },
    }
    proof {
        assert(v.deep_view() =~= schema_columns_spec(s));
    }
    v
}

// --- row building ---

pub open spec fn col_of(t: RawTableView, name: Seq<char>) -> Option<int> {
    find_col_spec(t.cols, name)
}

pub open spec fn cell_at(t: RawTableView, name: Seq<char>, i: int) -> RawValueView {
    t.cols[col_of(t, name)->0].values[i]
}

/// Whether row `i` survives: only rows whose date parsed under the elected
/// format are kept.
pub open spec fn row_kept(t: RawTableView, fo: Option<DateFormat>, i: int) -> bool {
    match fo {
        None => false,
        Some(f) => cell_date(cell_at(t, "date"@, i), f) is Some,
    }
}

/// The canonical record row `i` normalizes to.
pub open spec fn row_record(
    t: RawTableView,
    f: DateFormat,
    i: int,
    full: bool,
    sp_direct: bool,
) -> RecordView {
    let mv = if full {
        mv_of_cell(cell_at(t, "market_value"@, i))
    } else {
        None
    };
    let sh = if full {
        shares_of_cell(cell_at(t, "shares"@, i))
    } else {
        None
    };
    RecordView {
        date: cell_date(cell_at(t, "date"@, i), f)->0,
        ticker: ticker_of_cell(cell_at(t, "ticker"@, i)),
        cusip: cell_text(cell_at(t, "cusip"@, i)),
        company: company_of_cell(cell_at(t, "company"@, i)),
        market_value: mv,
        shares: sh,
        share_price: if !full {
            None
        } else if sp_direct {
            price_of_cell(cell_at(t, "share_price"@, i))
        } else if mv is Some && sh is Some {
            crate::text::derived_price_spec(mv->0 as int, sh->0 as int)
        } else {
            None
        },
        weight: weight_of_cell(cell_at(t, "weight"@, i)),
    }
}

/// The rows of the batch: the records of the first `n` raw rows whose date
/// parsed, in their table order.
pub open spec fn built_rows(
    t: RawTableView,
    fo: Option<DateFormat>,
    full: bool,
    sp_direct: bool,
    n: int,
) -> Seq<RecordView>
    decreases n,
{
    if n <= 0 {
        Seq::empty()
    } else {
        let prev = built_rows(t, fo, full, sp_direct, n - 1);
        if row_kept(t, fo, n - 1) {
            prev.push(row_record(t, fo->0, n - 1, full, sp_direct))
        } else {
            prev
        }
    }
}

/// What normalization yields for a raw table: the structural phase, the
/// required canonical columns, the schema election and the surviving rows —
/// or the exact error.
pub open spec fn df_format_spec(t: RawTableView, ds: Option<DataSource>, today: Date) -> Result<
    BatchView,
    NormErrorView,
> {
    match structural_spec(t, ds, today) {
        None => Err(NormErrorView::UnrecognizedShape),
        Some(t1) => {
            if col_of(t1, "date"@) is None {
                Err(NormErrorView::MissingColumn("date"@))
            } else if col_of(t1, "ticker"@) is None {
                Err(NormErrorView::MissingColumn("ticker"@))
            } else if col_of(t1, "cusip"@) is None {
                Err(NormErrorView::MissingColumn("cusip"@))
            } else if col_of(t1, "company"@) is None {
                Err(NormErrorView::MissingColumn("company"@))
            } else if col_of(t1, "weight"@) is None {
                Err(NormErrorView::MissingColumn("weight"@))
            } else {
                let sp_direct = col_of(t1, "share_price"@) is Some;
                let full = sp_direct || col_of(t1, "market_value"@) is Some;
                if full && col_of(t1, "market_value"@) is None {
                    Err(NormErrorView::MissingColumn("market_value"@))
                } else if full && col_of(t1, "shares"@) is None {
                    Err(NormErrorView::MissingColumn("shares"@))
                } else {
                    let fo = chosen_format(t1.cols[col_of(t1, "date"@)->0].values);
                    Ok(
                        BatchView {
                            schema: if full {
                                Schema::Full
                            } else {
                                Schema::Reduced
                            },
                            rows: built_rows(t1, fo, full, sp_direct, t1.height as int),
                        },
                    )
                }
            }
        },
    }
}

fn ticker_cell(v: &RawValue, sufs: &Vec<String>) -> (r: Option<String>)
    requires
        sufs.deep_view() == ticker_suffixes_spec(),
        crate::text::all_suffixes_nonempty(sufs.deep_view()),
    ensures
        r.deep_view() == ticker_of_cell(v@),
{
    match v {
        RawValue::Text(s) => Some(crate::text::strip_suffixes(s.as_str(), sufs, false)),
        _ => None,
    }
}

fn company_cell(v: &RawValue, sufs: &Vec<String>) -> (r: Option<String>)
    requires
        sufs.deep_view() == company_suffixes_spec(),
        crate::text::all_suffixes_nonempty(sufs.deep_view()),
    ensures
        r.deep_view() == company_of_cell(v@),
{
    match v {
        RawValue::Text(s) => Some(crate::text::strip_suffixes(s.as_str(), sufs, true)),
        _ => None,
    }
}

fn cusip_cell(v: &RawValue) -> (r: Option<String>)
    ensures
        r.deep_view() == cell_text(v@),
{
    match v {
        RawValue::Text(s) => Some(s.clone()),
        _ => None,
    }
}

fn mv_cell(v: &RawValue) -> (r: Option<i64>)
    ensures
        r == mv_of_cell(v@),
{
    match v {
        RawValue::Int(i) => Some(*i),
        RawValue::Text(s) => crate::text::parse_money(s.as_str()),
        RawValue::Null => None,
    }
}

fn shares_cell(v: &RawValue) -> (r: Option<i64>)
    ensures
        r == shares_of_cell(v@),
{
    match v {
        RawValue::Int(i) => Some(*i),
        RawValue::Text(s) => crate::text::parse_shares(s.as_str()),
        RawValue::Null => None,
    }
}

fn price_cell(v: &RawValue) -> (r: Option<i64>)
    ensures
        r == price_of_cell(v@),
{
    match v {
        RawValue::Int(i) => {
            if -92233720368547758 <= *i && *i <= 92233720368547758 {
                Some(100 * *i)
            } else {
                None
            }
        },
        RawValue::Text(s) => crate::text::parse_price(s.as_str()),
        RawValue::Null => None,
    }
}

fn weight_cell(v: &RawValue) -> (r: Option<i64>)
    ensures
        r == weight_of_cell(v@),
{
    match v {
        RawValue::Int(i) => {
            if -922337203685477 <= *i && *i <= 922337203685477 {
                Some(10000 * *i)
            } else {
                None
            }
        },
        RawValue::Text(s) => crate::text::parse_weight(s.as_str()),
        RawValue::Null => None,
    }
}


#[verifier::rlimit(100)]
fn build_rows_exec(
    t1: &RawTable,
    dc: usize,
    tc: usize,
    cc: usize,
    coc: usize,
    wc: usize,
    spc: usize,
    mvc: usize,
    shc: usize,
    sp_direct: bool,
    full: bool,
    fo: Option<DateFormat>,
) -> (rows: Vec<Record>)
    requires
        t1@.wf(),
        col_of(t1@, "date"@) == Some(dc as int),
        col_of(t1@, "ticker"@) == Some(tc as int),
        col_of(t1@, "cusip"@) == Some(cc as int),
        col_of(t1@, "company"@) == Some(coc as int),
        col_of(t1@, "weight"@) == Some(wc as int),
        dc < t1@.cols.len(),
        tc < t1@.cols.len(),
        cc < t1@.cols.len(),
        coc < t1@.cols.len(),
        wc < t1@.cols.len(),
        sp_direct == (col_of(t1@, "share_price"@) is Some),
        full == (sp_direct || col_of(t1@, "market_value"@) is Some),
        sp_direct ==> col_of(t1@, "share_price"@) == Some(spc as int) && spc < t1@.cols.len(),
        full ==> col_of(t1@, "market_value"@) == Some(mvc as int) && mvc < t1@.cols.len(),
        full ==> col_of(t1@, "shares"@) == Some(shc as int) && shc < t1@.cols.len(),
    ensures
        rows.deep_view() == built_rows(t1@, fo, full, sp_direct, t1@.height as int),
{
    let tsufs = ticker_suffixes();
    let csufs = company_suffixes();
    let h = t1.height;
    let mut rows: Vec<Record> = Vec::new();
    let mut i: usize = 0;
    while i < h
        invariant
            i <= h,
            h == t1@.height,
            t1@.wf(),
            col_of(t1@, "date"@) == Some(dc as int),
            col_of(t1@, "ticker"@) == Some(tc as int),
            col_of(t1@, "cusip"@) == Some(cc as int),
            col_of(t1@, "company"@) == Some(coc as int),
            col_of(t1@, "weight"@) == Some(wc as int),
            dc < t1@.cols.len(),
            tc < t1@.cols.len(),
            cc < t1@.cols.len(),
            coc < t1@.cols.len(),
            wc < t1@.cols.len(),
            sp_direct == (col_of(t1@, "share_price"@) is Some),
            full == (sp_direct || col_of(t1@, "market_value"@) is Some),
            sp_direct ==> col_of(t1@, "share_price"@) == Some(spc as int) && spc < t1@.cols.len(),
            full ==> col_of(t1@, "market_value"@) == Some(mvc as int) && mvc < t1@.cols.len(),
            full ==> col_of(t1@, "shares"@) == Some(shc as int) && shc < t1@.cols.len(),
            tsufs.deep_view() == ticker_suffixes_spec(),
            crate::text::all_suffixes_nonempty(tsufs.deep_view()),
            csufs.deep_view() == company_suffixes_spec(),
            crate::text::all_suffixes_nonempty(csufs.deep_view()),
            rows.deep_view() == built_rows(t1@, fo, full, sp_direct, i as int),
        decreases h - i,
    {
        proof {
            assert(t1@.cols[dc as int].values.len() == t1@.height);
            assert(t1@.cols[tc as int].values.len() == t1@.height);
            assert(t1@.cols[cc as int].values.len() == t1@.height);
            assert(t1@.cols[coc as int].values.len() == t1@.height);
            assert(t1@.cols[wc as int].values.len() == t1@.height);
            if sp_direct {
                assert(t1@.cols[spc as int].values.len() == t1@.height);
            }
            if full {
                assert(t1@.cols[mvc as int].values.len() == t1@.height);
                assert(t1@.cols[shc as int].values.len() == t1@.height);
            }
        }
        match fo {
            Option::None => {
                proof {
                    assert(!row_kept(t1@, fo, i as int));
                    assert(rows.deep_view() == built_rows(t1@, fo, full, sp_direct, i + 1));
                }
            },
            Option::Some(f) => {
                let dcell = t1.cell(dc, i);
                let dres: Option<Date> = match dcell {
                    RawValue::Text(s) => parse_date(s.as_str(), f),
                    _ => None,
                };
                proof {
                    assert(dres == cell_date(cell_at(t1@, "date"@, i as int), f));
                }
                match dres {
                    Option::None => {
                        proof {
                            assert(!row_kept(t1@, fo, i as int));
                            assert(rows.deep_view() == built_rows(
                                t1@,
                                fo,
                                full,
                                sp_direct,
                                i + 1,
                            ));
                        }
                    },
                    Option::Some(d) => {
                        let tkr = ticker_cell(t1.cell(tc, i), &tsufs);
                        let cus = cusip_cell(t1.cell(cc, i));
                        let cmp = company_cell(t1.cell(coc, i), &csufs);
                        let wt = weight_cell(t1.cell(wc, i));
                        let (mv, sh): (Option<i64>, Option<i64>) = if full {
                            (mv_cell(t1.cell(mvc, i)), shares_cell(t1.cell(shc, i)))
                        } else {
                            (None, None)
                        };
                        let sp: Option<i64> = if !full {
                            None
                        } else if sp_direct {
                            price_cell(t1.cell(spc, i))
                        } else {
                            match (mv, sh) {
                                (Option::Some(a), Option::Some(b)) => crate::text::derive_price(
                                    a,
                                    b,
                                ),
                                _ => None,
                            }
                        };
                        let rec = Record {
                            date: d,
                            ticker: tkr,
                            cusip: cus,
                            company: cmp,
                            market_value: mv,
                            shares: sh,
                            share_price: sp,
                            weight: wt,
                        };
                        proof {
                            assert(rec@ =~= row_record(t1@, f, i as int, full, sp_direct));
                            assert(row_kept(t1@, fo, i as int));
                        }
                        let ghost oldr = rows@;
                        let ghost olddv = rows.deep_view();
                        rows.push(rec);
                        proof {
                            assert(rows@ == oldr.push(rows@.last()));
                            assert forall|j: int| 0 <= j < olddv.len() implies rows.deep_view()[j]
                                == olddv[j] by {
                                assert(rows@[j] == oldr[j]);
                            }
                            assert(rows.deep_view() =~= olddv.push(rec@));
                            assert(rows.deep_view() == built_rows(
                                t1@,
                                fo,
                                full,
                                sp_direct,
                                i + 1,
                            ));
                        }
                    },
                }
            },
        }
        i = i + 1;
    }
    rows
}

/// Normalizes one raw vendor table onto the canonical record shape, or
/// reports exactly why it cannot be.
#[verifier::rlimit(100)]
pub fn df_format(df: RawTable, data_source_opt: Option<DataSource>, today: Date) -> (r: Result<
    NormalizedBatch,
    NormError,
>)
    requires
        df@.wf(),
        today.wf(),
    ensures
        match r {
            Ok(b) => df_format_spec(df@, data_source_opt, today) == Ok::<BatchView, NormErrorView>(
                BatchView { schema: b.schema, rows: b.rows.deep_view() },
            ),
            Err(e) => df_format_spec(df@, data_source_opt, today) == Err::<BatchView, NormErrorView>(e@),
        },
{
    let ghost t0 = df@;
    let pre: RawTable = match data_source_opt {
        Option::Some(d) => match data_source(d, df, today) {
            Ok(x) => x,
            Err(e) => {
                return Err(e);
            },
        },
        Option::None => {
            let a = match df_format_europe_csv(df, today) {
                Ok(x) => x,
                Err(e) => {
                    return Err(e);
                },
            };
            let b = df_format_europe_arkfundsio(a);
            let c = df_format_21shares(b);
            let d2 = df_format_arkvx(c);
            df_format_europe(d2, today)
        },
    };
    let t1 = header_fixups(pre);
    proof {
        assert(structural_spec(t0, data_source_opt, today) == Some(t1@));
        assert(t1@.wf());
    }
    let dc = match t1.find_col("date") {
        Some(i) => i,
        None => {
            return Err(NormError::MissingColumn(String::from_str("date")));
        },
    };
    let tc = match t1.find_col("ticker") {
        Some(i) => i,
        None => {
            return Err(NormError::MissingColumn(String::from_str("ticker")));
        },
    };
    let cc = match t1.find_col("cusip") {
        Some(i) => i,
        None => {
            return Err(NormError::MissingColumn(String::from_str("cusip")));
        },
    };
    let coc = match t1.find_col("company") {
        Some(i) => i,
        None => {
            return Err(NormError::MissingColumn(String::from_str("company")));
        },
    };
    let wc = match t1.find_col("weight") {
        Some(i) => i,
        None => {
            return Err(NormError::MissingColumn(String::from_str("weight")));
        },
    };
    let spc_opt = t1.find_col("share_price");
    let mvc_opt = t1.find_col("market_value");
    let sp_direct = spc_opt.is_some();
    let full = sp_direct || mvc_opt.is_some();
    let spc: usize = match spc_opt {
        Some(i) => i,
        None => 0,
    };
    let mvc: usize = if full {
        match mvc_opt {
            Some(i) => i,
            None => {
                return Err(NormError::MissingColumn(String::from_str("market_value")));
            },
        }
    } else {
        0
    };
    let shc: usize = if full {
        match t1.find_col("shares") {
            Some(i) => i,
            None => {
                return Err(NormError::MissingColumn(String::from_str("shares")));
            },
        }
    } else {
        0
    };
    proof {
        lemma_find_col_spec(t1@.cols, "date"@);
        lemma_find_col_spec(t1@.cols, "ticker"@);
        lemma_find_col_spec(t1@.cols, "cusip"@);
        lemma_find_col_spec(t1@.cols, "company"@);
        lemma_find_col_spec(t1@.cols, "weight"@);
        lemma_find_col_spec(t1@.cols, "share_price"@);
        lemma_find_col_spec(t1@.cols, "market_value"@);
        lemma_find_col_spec(t1@.cols, "shares"@);
    }
    let fo = choose_format(&t1, dc);
    let rows = build_rows_exec(&t1, dc, tc, cc, coc, wc, spc, mvc, shc, sp_direct, full, fo);
    let schema = if full {
        Schema::Full
    } else {
        Schema::Reduced
    };
    Ok(NormalizedBatch { schema, rows })
}

/// A parsed date is a real calendar date.
pub proof fn lemma_parse_date_wf(s: Seq<char>, f: DateFormat)
    ensures
        parse_date_spec(s, f) is Some ==> parse_date_spec(s, f)->0.wf(),
{
}

/// No null (or impossible) date survives normalization: every built row
/// carries a valid calendar date.
pub proof fn lemma_built_rows_wf(
    t: RawTableView,
    fo: Option<DateFormat>,
    full: bool,
    sp_direct: bool,
    n: int,
)
    ensures
        crate::record::rows_wf(built_rows(t, fo, full, sp_direct, n)),
    decreases n,
{
    if n <= 0 {
    } else {
        lemma_built_rows_wf(t, fo, full, sp_direct, n - 1);
        let prev = built_rows(t, fo, full, sp_direct, n - 1);
        let out = built_rows(t, fo, full, sp_direct, n);
        if row_kept(t, fo, n - 1) {
            lemma_parse_date_wf(
                match cell_at(t, "date"@, n - 1) {
                    RawValueView::Text(s) => s,
                    _ => Seq::empty(),
                },
                fo->0,
            );
            assert forall|i: int| 0 <= i < out.len() implies (#[trigger] out[i]).wf() by {
                if i < prev.len() {
                    assert(prev[i].wf());
                }
            }
        }
    }
}

/// Normalization never yields a row without a date: the date field of every
/// row of every successful batch is a valid calendar day.
pub proof fn lemma_df_format_rows_wf(t: RawTableView, ds: Option<DataSource>, today: Date)
    ensures
        match df_format_spec(t, ds, today) {
            Ok(b) => crate::record::rows_wf(b.rows),
            Err(_) => true,
        },
{
    match df_format_spec(t, ds, today) {
        Ok(b) => {
            let t1 = structural_spec(t, ds, today)->0;
            let sp_direct = col_of(t1, "share_price"@) is Some;
            let full = sp_direct || col_of(t1, "market_value"@) is Some;
            let fo = chosen_format(t1.cols[col_of(t1, "date"@)->0].values);
            lemma_built_rows_wf(t1, fo, full, sp_direct, t1.height as int);
        },
        Err(_) => {},
    }
}

/// Schema completeness: a batch supplying valuation columns normalizes to
/// the full eight-column shape, a weight-only batch to the reduced
/// five-column shape, and nothing else.
pub proof fn lemma_schema_completeness(t: RawTableView, ds: Option<DataSource>, today: Date)
    ensures
        match df_format_spec(t, ds, today) {
            Ok(b) => {
                let t1 = structural_spec(t, ds, today)->0;
                &&& (b.schema == Schema::Full <==> (has_col(t1, "share_price"@) || has_col(
                    t1,
                    "market_value"@,
                )))
                &&& schema_columns_spec(b.schema).len() == (if b.schema == Schema::Full {
                    8int
                } else {
                    5int
                })
            },
            Err(_) => true,
        },
{
}

} // verus!
