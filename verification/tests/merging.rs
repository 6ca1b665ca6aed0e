use ark_holdings::date::Date;
use ark_holdings::fetch::{FetchPlan, Reader, Source, plan_fetch, plan_reader};
use ark_holdings::merge::{dedupe, df_sort, merge, reconcile, watermark};
use ark_holdings::record::{Record, record_eq};

fn d(y: u32, m: u32, day: u32) -> Date {
    Date { year: y, month: m, day }
}

fn row(date: Date, ticker: &str, weight: i64) -> Record {
    Record {
        date,
        ticker: Some(ticker.to_string()),
        cusip: None,
        company: Some(ticker.to_string()),
        market_value: None,
        shares: None,
        share_price: None,
        weight: Some(weight),
    }
}

fn keys(rows: &[Record]) -> Vec<(Date, Option<String>, Option<i64>)> {
    rows.iter().map(|r| (r.date, r.ticker.clone(), r.weight)).collect()
}

#[test]
fn watermark_is_the_greatest_date() {
    assert_eq!(watermark(&Vec::new()), None);
    let h = vec![
        row(d(2024, 1, 3), "A", 1),
        row(d(2024, 1, 1), "B", 2),
        row(d(2024, 1, 2), "C", 3),
    ];
    assert_eq!(watermark(&h), Some(d(2024, 1, 3)));
}

#[test]
fn dedupe_keeps_the_first_of_exact_duplicates() {
    let a = row(d(2024, 1, 1), "A", 100000);
    let b = row(d(2024, 1, 1), "B", 50000);
    let out = dedupe(vec![a.duplicate(), b.duplicate(), a.duplicate(), a.duplicate()]);
    assert_eq!(out.len(), 2);
    assert!(record_eq(&out[0], &a));
    assert!(record_eq(&out[1], &b));
}

#[test]
fn dedupe_keeps_near_duplicates_that_differ_in_any_column() {
    // A corrected market value is a different row, not a duplicate.
    let mut a = row(d(2024, 1, 1), "A", 100000);
    a.market_value = Some(1000);
    let mut b = row(d(2024, 1, 1), "A", 100000);
    b.market_value = Some(1200);
    let out = dedupe(vec![a, b]);
    assert_eq!(out.len(), 2);
}

#[test]
fn sort_orders_by_date_ascending_then_weight_descending() {
    let out = df_sort(vec![
        row(d(2024, 1, 2), "C", 50000),
        row(d(2024, 1, 1), "A", 10000),
        row(d(2024, 1, 2), "D", 70000),
        row(d(2024, 1, 1), "B", 90000),
    ]);
    assert_eq!(
        keys(&out),
        keys(&[
            row(d(2024, 1, 1), "B", 90000),
            row(d(2024, 1, 1), "A", 10000),
            row(d(2024, 1, 2), "D", 70000),
            row(d(2024, 1, 2), "C", 50000),
        ])
    );
}

#[test]
fn sort_puts_missing_weights_last_within_a_date() {
    let mut n = row(d(2024, 1, 1), "N", 0);
    n.weight = None;
    let out = df_sort(vec![n, row(d(2024, 1, 1), "A", 10000)]);
    assert_eq!(out[0].ticker.as_deref(), Some("A"));
    assert_eq!(out[1].weight, None);
}

#[test]
fn sort_is_stable_on_equal_keys() {
    let out = df_sort(vec![
        row(d(2024, 1, 1), "first", 10000),
        row(d(2024, 1, 1), "second", 10000),
    ]);
    assert_eq!(out[0].ticker.as_deref(), Some("first"));
    assert_eq!(out[1].ticker.as_deref(), Some("second"));
}

#[test]
fn incremental_merge_keeps_first_and_appends_new() {
    // Existing history: one row dated 2024-01-01; the incremental fetch is
    // bounded by that watermark; the batch repeats the row and adds a new
    // day; exactly two rows come out.
    let existing = vec![row(d(2024, 1, 1), "ARKB", 100000)];
    assert_eq!(watermark(&existing), Some(d(2024, 1, 1)));
    let batch = vec![row(d(2024, 1, 1), "ARKB", 100000), row(d(2024, 1, 2), "ARKB", 99000)];
    let out = merge(&existing, &batch);
    assert_eq!(out.len(), 2);
    assert!(record_eq(&out[0], &existing[0]));
    assert_eq!(out[1].date, d(2024, 1, 2));
}

#[test]
fn merge_order_of_disjoint_batches_gives_one_set() {
    let h = vec![row(d(2024, 1, 1), "H", 10000)];
    let a = vec![row(d(2024, 1, 2), "A", 20000)];
    let b = vec![row(d(2024, 1, 3), "B", 30000)];
    let ab = merge(&merge(&h, &a), &b);
    let ba = merge(&merge(&h, &b), &a);
    assert_eq!(ab.len(), 3);
    assert_eq!(keys(&ab), keys(&ba));
}

#[test]
fn reconcile_states() {
    let h = vec![row(d(2024, 1, 1), "H", 10000)];
    let b = vec![row(d(2024, 1, 2), "B", 20000)];
    // No history: the batch is stored as the initial history, unchanged.
    let out = reconcile(None, Some(b.iter().map(|r| r.duplicate()).collect()));
    assert_eq!(keys(&out), keys(&b));
    // Read-only: the history comes back unchanged.
    let out = reconcile(Some(h.iter().map(|r| r.duplicate()).collect()), None);
    assert_eq!(keys(&out), keys(&h));
    // Both: merged, deduplicated, sorted.
    let out = reconcile(
        Some(h.iter().map(|r| r.duplicate()).collect()),
        Some(b.iter().map(|r| r.duplicate()).collect()),
    );
    assert_eq!(out.len(), 2);
    assert_eq!(out[0].date, d(2024, 1, 1));
    assert_eq!(out[1].date, d(2024, 1, 2));
    // Neither: empty.
    assert_eq!(reconcile(None, None).len(), 0);
}

#[test]
fn plans_follow_the_mode_and_history() {
    let h = vec![row(d(2024, 1, 1), "H", 10000)];
    let plan = plan_fetch(Source::Read, &Some(h.iter().map(|r| r.duplicate()).collect()));
    assert!(matches!(plan, FetchPlan::NoFetch));
    assert_eq!(plan_reader(&plan), None);

    let plan = plan_fetch(Source::Ark, &None);
    assert!(matches!(plan, FetchPlan::FetchCsv));
    assert_eq!(plan_reader(&plan), Some(Reader::Csv));

    let plan = plan_fetch(Source::ApiIncremental, &Some(h.iter().map(|r| r.duplicate()).collect()));
    match plan {
        FetchPlan::FetchApi { start } => assert_eq!(start, Some(d(2024, 1, 1))),
        _ => panic!("expected an api fetch"),
    }

    let plan = plan_fetch(Source::ApiIncremental, &None);
    assert!(matches!(plan, FetchPlan::FetchApi { start: None }));

    let plan = plan_fetch(Source::ApiFull, &Some(h.iter().map(|r| r.duplicate()).collect()));
    assert!(matches!(plan, FetchPlan::FetchApi { start: None }));
}
