use ark_holdings::date::Date;
use ark_holdings::identity::{RuleSet, Ticker, canonicalize, default_rule_set};
use ark_holdings::record::Record;

fn row(ticker: Option<&str>, company: Option<&str>) -> Record {
    Record {
        date: Date { year: 2024, month: 1, day: 1 },
        ticker: ticker.map(|s| s.to_string()),
        cusip: Some("TESLA".to_string()),
        company: company.map(|s| s.to_string()),
        market_value: Some(10),
        shares: Some(10),
        share_price: Some(10000),
        weight: Some(100000),
    }
}

fn identities(rows: &[Record]) -> Vec<(Option<String>, Option<String>)> {
    rows.iter().map(|r| (r.ticker.clone(), r.company.clone())).collect()
}

fn run(group: Ticker, input: Vec<Record>) -> Vec<Record> {
    let rules = RuleSet::new(group.rules()).expect("group rules are stable");
    canonicalize(&rules, input)
}

fn ids(pairs: &[(Option<&str>, Option<&str>)]) -> Vec<(Option<String>, Option<String>)> {
    pairs
        .iter()
        .map(|(t, c)| (t.map(|s| s.to_string()), c.map(|s| s.to_string())))
        .collect()
}

#[test]
fn default_rule_table_is_stable() {
    assert!(default_rule_set().is_some());
    for g in Ticker::all() {
        assert!(RuleSet::new(g.rules()).is_some());
    }
}

#[test]
fn holdco_wrapper_maps_to_underlying_ticker() {
    // A raw row with the holding-company wrapper name and no ticker gains
    // both the canonical symbol and the canonical display name.
    let rules = default_rule_set().unwrap();
    let out = canonicalize(&rules, vec![row(None, Some("ARK BITCOIN ETF HOLDCO (ARKW)"))]);
    assert_eq!(out[0].ticker.as_deref(), Some("ARKB"));
    assert_eq!(out[0].company.as_deref(), Some("ARKB"));
}

#[test]
fn arkw_group() {
    let out = run(
        Ticker::ARKW,
        vec![
            row(None, Some("ARK BITCOIN ETF HOLDCO (ARKW)")),
            row(Some("ARKB"), Some("ARK BITCOIN ETF HOLDCO (ARKW)")),
            row(Some("ARKB"), Some("ARK BITCOIN ETF HOLDCO (ARKF)")),
            row(Some("ARKB"), Some("ARKB")),
        ],
    );
    assert_eq!(
        identities(&out),
        ids(&[
            (Some("ARKB"), Some("ARKB")),
            (Some("ARKB"), Some("ARKB")),
            (Some("ARKB"), Some("ARKB")),
            (Some("ARKB"), Some("ARKB")),
        ])
    );
}

#[test]
fn crlc_group() {
    let out = run(
        Ticker::CRLC,
        vec![
            row(Some("CRLC"), Some("CIRCLE INTERNET GROUP")),
            row(None, Some("CIRCLE INTERNET GROUP")),
        ],
    );
    assert_eq!(
        identities(&out),
        ids(&[
            (Some("CRLC"), Some("CIRCLE INTERNET GROUP")),
            (Some("CRLC"), Some("CIRCLE INTERNET GROUP")),
        ])
    );
}

#[test]
fn crwv_group() {
    let out = run(
        Ticker::CRWV,
        vec![row(Some("CRWV"), Some("COREWEAVE")), row(None, Some("COREWEAVE"))],
    );
    assert_eq!(
        identities(&out),
        ids(&[(Some("CRWV"), Some("COREWEAVE")), (Some("CRWV"), Some("COREWEAVE"))])
    );
}

#[test]
fn dkng_group() {
    let out = run(Ticker::DKNG, vec![row(Some("DKNG"), Some("AFTKINGS"))]);
    assert_eq!(identities(&out), ids(&[(Some("DKNG"), Some("DRAFTKINGS"))]));
    let out = run(Ticker::DKNG, vec![row(Some("DKNN"), Some("whatever"))]);
    assert_eq!(identities(&out), ids(&[(Some("DKNG"), Some("DRAFTKINGS"))]));
}

#[test]
fn etor_group() {
    let out = run(
        Ticker::ETOR,
        vec![row(Some("ETOR"), Some("ETORO GROUP")), row(None, Some("ETORO GROUP"))],
    );
    assert_eq!(
        identities(&out),
        ids(&[(Some("ETOR"), Some("ETORO GROUP")), (Some("ETOR"), Some("ETORO GROUP"))])
    );
}

#[test]
fn mkfg_group() {
    let out = run(
        Ticker::MKFG,
        vec![row(Some("MKFG"), Some("MARKFORGEDG")), row(None, Some("MARKFORGEDG"))],
    );
    assert_eq!(
        identities(&out),
        ids(&[(Some("MKFG"), Some("MARKFORGEDG")), (Some("MKFG"), Some("MARKFORGEDG"))])
    );
}

#[test]
fn lunr_group() {
    let out = run(
        Ticker::LUNR,
        vec![row(Some("LUNR"), Some("INTUITIVE MACHINES")), row(None, Some("INTUITIVE MACHINES"))],
    );
    assert_eq!(
        identities(&out),
        ids(&[
            (Some("LUNR"), Some("INTUITIVE MACHINES")),
            (Some("LUNR"), Some("INTUITIVE MACHINES")),
        ])
    );
}

#[test]
fn xyz_group() {
    let out = run(
        Ticker::XYZ,
        vec![
            row(Some("SQ"), Some("Block")),
            row(Some("SQ"), Some("BLOCK")),
            row(Some("XYZ"), Some("Block")),
            row(Some("XYZ"), Some("BLOCK")),
        ],
    );
    assert_eq!(
        identities(&out),
        ids(&[
            (Some("XYZ"), Some("Block")),
            (Some("XYZ"), Some("BLOCK")),
            (Some("XYZ"), Some("Block")),
            (Some("XYZ"), Some("BLOCK")),
        ])
    );
}

#[test]
fn cash_usd_group() {
    let out = run(
        Ticker::CASH_USD,
        vec![
            row(None, Some("Cash & Cash Equivalents")),
            row(None, Some("CASH & CASH EQUIVALENTS")),
            row(None, Some("GOLDMAN FS TRSY OBLIG INST 468")),
            row(None, Some("Cash & Other")),
        ],
    );
    assert_eq!(
        identities(&out),
        ids(&[
            (Some("CASH_USD"), Some("CASH_USD")),
            (Some("CASH_USD"), Some("CASH_USD")),
            (Some("CASH_USD"), Some("CASH_USD")),
            (Some("CASH_USD"), Some("CASH_USD")),
        ])
    );
}

#[test]
fn tsm_group() {
    let out = run(Ticker::TSM, vec![row(Some("TSM"), Some("TAIWANMICONDUCTORSP"))]);
    assert_eq!(identities(&out), ids(&[(Some("TSM"), Some("TMSC"))]));
}

#[test]
fn rklb_group() {
    let out = run(
        Ticker::RKLB,
        vec![
            row(Some("RKLB"), Some("ROCKET LAB")),
            row(Some("RKLB"), Some("ROCKET LAB USA")),
            row(None, Some("ROCKET LAB")),
            row(None, Some("ROCKET LAB USA")),
        ],
    );
    assert_eq!(
        identities(&out),
        ids(&[
            (Some("RKLB"), Some("ROCKET LAB")),
            (Some("RKLB"), Some("ROCKET LAB")),
            (Some("RKLB"), Some("ROCKET LAB")),
            (Some("RKLB"), Some("ROCKET LAB")),
        ])
    );
}

#[test]
fn canonicalization_is_idempotent_on_samples() {
    let rules = default_rule_set().unwrap();
    let input = vec![
        row(None, Some("ARK BITCOIN ETF HOLDCO (ARKW)")),
        row(Some("SQ"), Some("BLOCK")),
        row(None, Some("ROCKET LAB USA")),
        row(Some("TSLA"), Some("TESLA")),
        row(None, None),
    ];
    let once = canonicalize(&rules, input);
    let once_copy: Vec<_> = once.iter().map(|r| r.duplicate()).collect();
    let twice = canonicalize(&rules, once_copy);
    assert_eq!(identities(&once), identities(&twice));
}

#[test]
fn groups_apply_in_declared_order() {
    assert_eq!(
        Ticker::all(),
        vec![
            Ticker::ARKW,
            Ticker::CRLC,
            Ticker::CRWV,
            Ticker::DKNG,
            Ticker::ETOR,
            Ticker::MKFG,
            Ticker::LUNR,
            Ticker::XYZ,
            Ticker::CASH_USD,
            Ticker::TSM,
            Ticker::RKLB,
        ]
    );
}

#[test]
fn corporate_renames() {
    let rules = default_rule_set().unwrap();
    let out = canonicalize(
        &rules,
        vec![
            row(None, Some("COINBASE GLOBAL")),
            row(None, Some("Coinbase Global")),
            row(None, Some("Blackdaemon")),
            row(None, Some("DISCOVERY")),
            row(None, Some("Space Exploration Technologies Corp")),
        ],
    );
    assert_eq!(
        identities(&out),
        ids(&[
            (Some("COIN"), Some("COINBASE")),
            (Some("COIN"), Some("Coinbase")),
            (Some("BLOCKDAEMON"), Some("Blockdaemon")),
            (Some("DSY"), Some("Dassault Systemes")),
            (Some("SPACEX"), Some("SpaceX")),
        ])
    );
}

#[test]
fn untouched_rows_pass_through() {
    let rules = default_rule_set().unwrap();
    let out = canonicalize(&rules, vec![row(Some("COIN"), Some("COINBASE"))]);
    assert_eq!(identities(&out), ids(&[(Some("COIN"), Some("COINBASE"))]));
}
