use ark_holdings::date::Date;
use ark_holdings::normalize::{NormError, Schema, column_names, df_format};
use ark_holdings::registry::DataSource;
use ark_holdings::table::{RawTable, RawValue};

fn today() -> Date {
    Date { year: 2024, month: 6, day: 1 }
}

fn texts(vals: &[&str]) -> Vec<RawValue> {
    vals.iter().map(|s| RawValue::Text(s.to_string())).collect()
}

fn ints(vals: &[i64]) -> Vec<RawValue> {
    vals.iter().map(|v| RawValue::Int(*v)).collect()
}

fn nulls(n: usize) -> Vec<RawValue> {
    (0..n).map(|_| RawValue::Null).collect()
}

fn table(height: usize, cols: Vec<(&str, Vec<RawValue>)>) -> RawTable {
    let mut t = RawTable::new(height);
    for (name, values) in cols {
        assert!(t.push_col(name.to_string(), values));
    }
    t
}

#[test]
fn full_valued_batch_normalizes_money_and_derives_price() {
    // Raw market_value "$1,234" with 10 shares: 1234 whole units and a
    // derived share price of 123.40.
    let t = table(
        1,
        vec![
            ("date", texts(&["2024-01-01"])),
            ("ticker", texts(&["TSLA"])),
            ("cusip", texts(&["88160R101"])),
            ("company", texts(&["TESLA"])),
            ("market_value", texts(&["$1,234"])),
            ("shares", ints(&[10])),
            ("weight", texts(&["10"])),
        ],
    );
    let b = df_format(t, None, today()).unwrap();
    assert_eq!(b.schema, Schema::Full);
    assert_eq!(b.rows.len(), 1);
    let r = &b.rows[0];
    assert_eq!(r.date, Date { year: 2024, month: 1, day: 1 });
    assert_eq!(r.market_value, Some(1234));
    assert_eq!(r.shares, Some(10));
    assert_eq!(r.share_price, Some(12340));
    assert_eq!(r.weight, Some(100000));
}

#[test]
fn schema_completeness() {
    // A fully-valued vendor batch carries exactly the eight canonical
    // columns in order; a weight-only batch the reduced five.
    let full = table(
        1,
        vec![
            ("date", texts(&["2024-01-01"])),
            ("ticker", texts(&["TSLA"])),
            ("cusip", texts(&["X"])),
            ("company", texts(&["TESLA"])),
            ("market_value", ints(&[100])),
            ("shares", ints(&[10])),
            ("weight", texts(&["1.5"])),
        ],
    );
    let b = df_format(full, None, today()).unwrap();
    assert_eq!(b.schema, Schema::Full);
    assert_eq!(
        column_names(b.schema),
        vec!["date", "ticker", "cusip", "company", "market_value", "shares", "share_price",
            "weight"]
    );

    let reduced = table(
        1,
        vec![
            ("date", texts(&["2024-01-01"])),
            ("ticker", texts(&["TSLA"])),
            ("cusip", texts(&["X"])),
            ("company", texts(&["TESLA"])),
            ("weight", texts(&["1.5"])),
        ],
    );
    let b = df_format(reduced, None, today()).unwrap();
    assert_eq!(b.schema, Schema::Reduced);
    assert_eq!(column_names(b.schema), vec!["date", "ticker", "cusip", "company", "weight"]);
    assert_eq!(b.rows[0].market_value, None);
    assert_eq!(b.rows[0].shares, None);
    assert_eq!(b.rows[0].share_price, None);
}

#[test]
fn percent_weight_normalizes_to_fixed_point() {
    let t = table(
        1,
        vec![
            ("date", texts(&["2024-01-01"])),
            ("ticker", texts(&["A"])),
            ("cusip", texts(&["X"])),
            ("company", texts(&["A CO"])),
            ("weight", texts(&["12.34%"])),
        ],
    );
    let b = df_format(t, None, today()).unwrap();
    assert_eq!(b.rows[0].weight, Some(123400));
}

#[test]
fn bitcoin_family_headers_are_renamed() {
    let t = table(
        1,
        vec![
            ("Date", texts(&["01/15/2024"])),
            ("StockTicker", texts(&["ARKB"])),
            ("CUSIP", texts(&["X"])),
            ("SecurityName", texts(&["BITCOIN"])),
            ("Shares", ints(&[100])),
            ("Price", texts(&["123.45"])),
            ("MarketValue", texts(&["12,345"])),
            ("Weightings", texts(&["99.5"])),
            ("Account", texts(&["acct"])),
            ("NetAssets", texts(&["1"])),
            ("SharesOutstanding", texts(&["1"])),
            ("CreationUnits", texts(&["1"])),
            ("MoneyMarketFlag", texts(&["N"])),
        ],
    );
    let b = df_format(t, Some(DataSource::Shares21), today()).unwrap();
    assert_eq!(b.schema, Schema::Full);
    let r = &b.rows[0];
    assert_eq!(r.date, Date { year: 2024, month: 1, day: 15 });
    assert_eq!(r.ticker.as_deref(), Some("ARKB"));
    assert_eq!(r.share_price, Some(12345));
    assert_eq!(r.market_value, Some(12345));
    assert_eq!(r.shares, Some(100));
    assert_eq!(r.weight, Some(995000));
}

#[test]
fn venture_family_keeps_the_reduced_schema() {
    let t = table(
        1,
        vec![
            ("date", texts(&["2024-01-01"])),
            ("ticker", texts(&["SPACEX"])),
            ("CUSIP", texts(&["X"])),
            ("company", texts(&["SpaceX"])),
            ("weight (%)", texts(&["4.2"])),
        ],
    );
    let b = df_format(t, Some(DataSource::ArkVenture), today()).unwrap();
    assert_eq!(b.schema, Schema::Reduced);
    let r = &b.rows[0];
    assert_eq!(r.market_value, None);
    assert_eq!(r.shares, None);
    assert_eq!(r.share_price, None);
    assert_eq!(r.weight, Some(42000));
}

#[test]
fn europe_family_takes_the_export_day_as_date() {
    let t = table(
        2,
        vec![
            ("name", texts(&["A CO", "B CO"])),
            ("ISIN", texts(&["I1", "I2"])),
            ("Weight", texts(&["1.5", "2.5"])),
            ("Currency", texts(&["EUR", "EUR"])),
        ],
    );
    let b = df_format(t, Some(DataSource::ArkEurope), today()).unwrap();
    assert_eq!(b.rows.len(), 2);
    assert_eq!(b.rows[0].date, today());
    assert_eq!(b.rows[0].company.as_deref(), Some("A CO"));
    assert_eq!(b.rows[0].cusip.as_deref(), Some("I1"));
    assert_eq!(b.rows[0].ticker, None);
    assert_eq!(b.rows[1].weight, Some(25000));
}

#[test]
fn europe_csv_slices_junk_rows_and_names_positionally() {
    let t = table(
        4,
        vec![
            ("_duplicated_0", texts(&["junk", "junk", "A CO", "B CO"])),
            ("col2", texts(&["junk", "junk", "I1", "I2"])),
            ("col3", texts(&["junk", "junk", "1.5", "2.5"])),
        ],
    );
    let b = df_format(t, Some(DataSource::Rize), today()).unwrap();
    assert_eq!(b.rows.len(), 2);
    assert_eq!(b.rows[0].company.as_deref(), Some("A CO"));
    assert_eq!(b.rows[0].cusip.as_deref(), Some("I1"));
    assert_eq!(b.rows[0].weight, Some(15000));
    assert_eq!(b.rows[0].date, today());
}

#[test]
fn europe_csv_refuses_an_unexpected_shape() {
    let t = table(
        3,
        vec![
            ("_duplicated_0", texts(&["junk", "junk", "A"])),
            ("b", texts(&["junk", "junk", "B"])),
            ("c", texts(&["junk", "junk", "C"])),
            ("d", texts(&["junk", "junk", "D"])),
        ],
    );
    match df_format(t, Some(DataSource::Rize), today()) {
        Err(NormError::UnrecognizedShape) => {},
        _ => panic!("expected the shape to be refused"),
    }
}

#[test]
fn missing_canonical_columns_are_reported() {
    let t = table(1, vec![("ticker", texts(&["A"]))]);
    match df_format(t, None, today()) {
        Err(NormError::MissingColumn(c)) => assert_eq!(c, "date"),
        _ => panic!("expected a missing date column"),
    }
    let t = table(
        1,
        vec![
            ("date", texts(&["2024-01-01"])),
            ("ticker", texts(&["A"])),
            ("cusip", texts(&["X"])),
            ("company", texts(&["A CO"])),
        ],
    );
    match df_format(t, None, today()) {
        Err(NormError::MissingColumn(c)) => assert_eq!(c, "weight"),
        _ => panic!("expected a missing weight column"),
    }
    // Market value without a share count cannot settle the full schema.
    let t = table(
        1,
        vec![
            ("date", texts(&["2024-01-01"])),
            ("ticker", texts(&["A"])),
            ("cusip", texts(&["X"])),
            ("company", texts(&["A CO"])),
            ("market_value", ints(&[100])),
            ("weight", texts(&["1"])),
        ],
    );
    match df_format(t, None, today()) {
        Err(NormError::MissingColumn(c)) => assert_eq!(c, "shares"),
        _ => panic!("expected a missing shares column"),
    }
}

#[test]
fn header_variants_are_recognized() {
    let t = table(
        1,
        vec![
            ("date", texts(&["2024-01-01"])),
            ("ticker", texts(&["A"])),
            ("cusip", texts(&["X"])),
            ("company", texts(&["A CO"])),
            ("market value ($)", texts(&["5,000"])),
            ("shares", ints(&[50])),
            ("weight (%)", texts(&["2"])),
        ],
    );
    let b = df_format(t, None, today()).unwrap();
    assert_eq!(b.schema, Schema::Full);
    assert_eq!(b.rows[0].market_value, Some(5000));
    assert_eq!(b.rows[0].share_price, Some(10000));
}

#[test]
fn minority_of_bad_dates_is_dropped_silently() {
    // Eleven rows, one unparseable date: under the tenth threshold, so the
    // format is accepted and the bad row alone is dropped.
    let mut dates = vec!["garbage"];
    for _ in 0..10 {
        dates.push("01/15/2024");
    }
    let n = dates.len();
    let t = table(
        n,
        vec![
            ("date", texts(&dates)),
            ("ticker", texts(&vec!["A"; n])),
            ("cusip", texts(&vec!["X"; n])),
            ("company", texts(&vec!["A CO"; n])),
            ("weight", texts(&vec!["1"; n])),
        ],
    );
    let b = df_format(t, None, today()).unwrap();
    assert_eq!(b.rows.len(), 10);
    assert_eq!(b.rows[0].date, Date { year: 2024, month: 1, day: 15 });
}

#[test]
fn no_format_clearing_the_threshold_drops_the_rows() {
    // Ten rows, one bad: exactly a tenth fails, which no format may exceed,
    // so no date column is established and every row is filtered out.
    let mut dates = vec!["garbage"];
    for _ in 0..9 {
        dates.push("01/15/2024");
    }
    let n = dates.len();
    let t = table(
        n,
        vec![
            ("date", texts(&dates)),
            ("ticker", texts(&vec!["A"; n])),
            ("cusip", texts(&vec!["X"; n])),
            ("company", texts(&vec!["A CO"; n])),
            ("weight", texts(&vec!["1"; n])),
        ],
    );
    let b = df_format(t, None, today()).unwrap();
    assert_eq!(b.rows.len(), 0);
}

#[test]
fn no_null_dates_survive() {
    // Rows whose date cell is null or unparseable never reach the output;
    // every surviving row names a real calendar day.
    let t = table(
        22,
        vec![
            (
                "date",
                {
                    let mut cells = texts(&vec!["2024-01-15"; 20]);
                    cells.push(RawValue::Null);
                    cells.push(RawValue::Text("2024-99-99".to_string()));
                    cells
                },
            ),
            ("ticker", texts(&vec!["A"; 22])),
            ("cusip", texts(&vec!["X"; 22])),
            ("company", texts(&vec!["A CO"; 22])),
            ("weight", texts(&vec!["1"; 22])),
        ],
    );
    let b = df_format(t, None, today()).unwrap();
    assert_eq!(b.rows.len(), 20);
    for r in &b.rows {
        assert!(Date::new(r.date.year, r.date.month, r.date.day).is_some());
    }
}

#[test]
fn identity_suffixes_are_stripped() {
    let t = table(
        5,
        vec![
            (
                "date",
                texts(&["2024-01-01", "2024-01-01", "2024-01-01", "2024-01-01", "2024-01-01"]),
            ),
            ("ticker", texts(&["TSLA UQ", "SHOP CN", "AIR FP", "SIE", "ACME"])),
            ("cusip", texts(&["X", "Y", "Z", "W", "V"])),
            (
                "company",
                texts(&[
                    "Tesla, Inc.",
                    "COINBASE GLOBAL INC CL A",
                    "Air Liquide SA",
                    "SIEMENS HOLDIN",
                    "ACMECORPORATION",
                ]),
            ),
            ("weight", texts(&["1", "2", "3", "4", "5"])),
        ],
    );
    let b = df_format(t, None, today()).unwrap();
    assert_eq!(b.rows[0].ticker.as_deref(), Some("TSLA"));
    assert_eq!(b.rows[1].ticker.as_deref(), Some("SHOP"));
    assert_eq!(b.rows[2].ticker.as_deref(), Some("AIR"));
    assert_eq!(b.rows[0].company.as_deref(), Some("Tesla"));
    assert_eq!(b.rows[1].company.as_deref(), Some("COINBASE GLOBAL"));
    assert_eq!(b.rows[2].company.as_deref(), Some("Air Liquide"));
    // Truncated-name fragments left by vendor exports are repaired too.
    assert_eq!(b.rows[3].company.as_deref(), Some("SIEMENS"));
    assert_eq!(b.rows[4].company.as_deref(), Some("ACMECORP"));
}

#[test]
fn null_cells_stay_null() {
    let t = table(
        1,
        vec![
            ("date", texts(&["2024-01-01"])),
            ("ticker", nulls(1)),
            ("cusip", nulls(1)),
            ("company", texts(&["Cash & Cash Equivalents"])),
            ("weight", texts(&["1"])),
        ],
    );
    let b = df_format(t, None, today()).unwrap();
    assert_eq!(b.rows[0].ticker, None);
    assert_eq!(b.rows[0].cusip, None);
}
