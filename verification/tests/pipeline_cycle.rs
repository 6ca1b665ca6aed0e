use ark_holdings::date::Date;
use ark_holdings::identity::default_rule_set;
use ark_holdings::normalize::Schema;
use ark_holdings::pipeline::csv_merge;
use ark_holdings::record::Record;
use ark_holdings::table::{RawTable, RawValue};

fn today() -> Date {
    Date { year: 2024, month: 6, day: 1 }
}

fn texts(vals: &[&str]) -> Vec<RawValue> {
    vals.iter().map(|s| RawValue::Text(s.to_string())).collect()
}

fn weight_only(dates: &[&str], tickers: &[&str], companies: &[&str], weights: &[&str]) -> RawTable {
    let mut t = RawTable::new(dates.len());
    assert!(t.push_col("date".to_string(), texts(dates)));
    assert!(t.push_col("ticker".to_string(), texts(tickers)));
    assert!(t.push_col("cusip".to_string(), texts(&vec!["X"; dates.len()])));
    assert!(t.push_col("company".to_string(), texts(companies)));
    assert!(t.push_col("weight".to_string(), texts(weights)));
    t
}

#[test]
fn format_normalizes_then_canonicalizes() {
    let rules = default_rule_set().unwrap();
    let t = weight_only(
        &["2024-01-01"],
        &[""],
        &["ARK BITCOIN ETF HOLDCO (ARKW)"],
        &["10"],
    );
    let b = ark_holdings::pipeline::format(t, None, today(), &rules).unwrap();
    assert_eq!(b.schema, Schema::Reduced);
    assert_eq!(b.rows[0].ticker.as_deref(), Some("ARKB"));
    assert_eq!(b.rows[0].company.as_deref(), Some("ARKB"));
}

#[test]
fn csv_merge_folds_batches_into_history() {
    let rules = default_rule_set().unwrap();
    let t1 = weight_only(&["2024-01-01"], &["AAA"], &["A CO"], &["10"]);
    let t2 = weight_only(
        &["2024-01-01", "2024-01-02"],
        &["AAA", "BBB"],
        &["A CO", "B CO"],
        &["10", "20"],
    );
    let existing: Vec<Record> = Vec::new();
    let out = csv_merge(vec![t1, t2], Some(existing), today(), &rules).unwrap();
    // The duplicate 2024-01-01 row collapses; two rows remain, sorted by
    // date ascending.
    assert_eq!(out.len(), 2);
    assert_eq!(out[0].date, Date { year: 2024, month: 1, day: 1 });
    assert_eq!(out[0].ticker.as_deref(), Some("AAA"));
    assert_eq!(out[1].date, Date { year: 2024, month: 1, day: 2 });
    assert_eq!(out[1].ticker.as_deref(), Some("BBB"));
}

#[test]
fn csv_merge_without_history_keeps_batch_order() {
    let rules = default_rule_set().unwrap();
    let t = weight_only(&["2024-01-02"], &["AAA"], &["A CO"], &["10"]);
    let out = csv_merge(vec![t], None, today(), &rules).unwrap();
    assert_eq!(out.len(), 1);
    assert_eq!(out[0].weight, Some(100000));
}
