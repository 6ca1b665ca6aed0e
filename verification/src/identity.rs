//! Identity canonicalization: an ordered table of exact-match substitution
//! rules that collapses vendor spellings of one security onto one stable
//! identity.
//!
//! When a rule's target column equals its match value exactly, both identity
//! columns are rewritten: the ticker to the rule's canonical symbol and the
//! company to its canonical display name.  Unmatched rows pass through
//! unchanged.  A rule set accepted by [`RuleSet::new`] is stable: applying it
//! twice is the same as applying it once.

use vstd::prelude::*;
use crate::record::{Record, RecordView, opt_str_eq};

verus! {

/// Which column a rule matches on.
#[derive(Clone, Copy, PartialEq, Eq, Structural, Debug)]
pub enum Target {
    Ticker,
    Company,
}

/// One substitution rule.
pub struct Rule {
    pub target: Target,
    pub match_value: String,
    pub symbol: String,
    pub display: String,
}

#[verifier::ext_equal]
pub ghost struct RuleView {
    pub target: Target,
    pub match_value: Seq<char>,
    pub symbol: Seq<char>,
    pub display: Seq<char>,
}

impl View for Rule {
    type V = RuleView;

    open spec fn view(&self) -> RuleView {
        RuleView {
            target: self.target,
            match_value: self.match_value@,
            symbol: self.symbol@,
            display: self.display@,
        }
    }
}

impl DeepView for Rule {
    type V = RuleView;

    open spec fn deep_view(&self) -> RuleView {
        self.view()
    }
}

/// The identity columns of a row, separated from the rest of the record.
#[verifier::ext_equal]
pub ghost struct IdentityCols {
    pub ticker: Option<Seq<char>>,
    pub company: Option<Seq<char>>,
}

pub open spec fn id_of(row: RecordView) -> IdentityCols {
    IdentityCols { ticker: row.ticker, company: row.company }
}

pub open spec fn set_id(row: RecordView, id: IdentityCols) -> RecordView {
    RecordView { ticker: id.ticker, company: id.company, ..row }
}

/// The identity a fired rule leaves behind.
pub open spec fn rule_out(r: RuleView) -> IdentityCols {
    IdentityCols { ticker: Some(r.symbol), company: Some(r.display) }
}

pub open spec fn rule_matches(r: RuleView, id: IdentityCols) -> bool {
    match r.target {
        Target::Ticker => id.ticker == Some(r.match_value),
        Target::Company => id.company == Some(r.match_value),
    }
}

pub open spec fn apply_rule(r: RuleView, id: IdentityCols) -> IdentityCols {
    if rule_matches(r, id) {
        rule_out(r)
    } else {
        id
    }
}

/// Applies rules `k`, `k+1`, ... in order; later rules see earlier output.
pub open spec fn apply_from(rs: Seq<RuleView>, k: int, id: IdentityCols) -> IdentityCols
    decreases rs.len() - k,
{
    if k < 0 || k >= rs.len() {
        id
    } else {
        apply_from(rs, k + 1, apply_rule(rs[k], id))
    }
}

/// The whole ordered rule set applied to one identity.
pub open spec fn apply_rules(rs: Seq<RuleView>, id: IdentityCols) -> IdentityCols {
    apply_from(rs, 0, id)
}

/// A rule set is stable when every identity a rule can leave behind is a
/// fixed point of the whole set.
pub open spec fn wf_rules(rs: Seq<RuleView>) -> bool {
    forall|i: int|
        0 <= i < rs.len() ==> apply_rules(rs, #[trigger] rule_out(rs[i])) == rule_out(rs[i])
}

/// One record with the rule set applied to its identity columns.
pub open spec fn canon_record(rs: Seq<RuleView>, row: RecordView) -> RecordView {
    set_id(row, apply_rules(rs, id_of(row)))
}

/// A whole table with the rule set applied row by row.
pub open spec fn canon_rows(rs: Seq<RuleView>, rows: Seq<RecordView>) -> Seq<RecordView> {
    rows.map_values(|row: RecordView| canon_record(rs, row))
}

/// What one pass leaves behind: either the identity was never touched, or it
/// is the output of some rule that the rest of the pass then fixed.
proof fn lemma_apply_from_shape(rs: Seq<RuleView>, k: int, id: IdentityCols) -> (w: Option<int>)
    requires
        0 <= k <= rs.len(),
    ensures
        match w {
            None => apply_from(rs, k, id) == id,
            Some(i) => k <= i < rs.len() && apply_from(rs, k, id) == rule_out(rs[i]) && apply_from(
                rs,
                i + 1,
                rule_out(rs[i]),
            ) == rule_out(rs[i]),
        },
    decreases rs.len() - k,
{
    if k == rs.len() {
        None
    } else {
        let next = apply_rule(rs[k], id);
        let w = lemma_apply_from_shape(rs, k + 1, next);
        match w {
            None => {
                if rule_matches(rs[k], id) {
                    Some(k)
                } else {
                    None
                }
            },
            Some(i) => Some(i),
        }
    }
}

/// Idempotence: a stable rule set applied twice equals it applied once.
pub proof fn lemma_apply_rules_idempotent(rs: Seq<RuleView>, id: IdentityCols)
    requires
        wf_rules(rs),
    ensures
        apply_rules(rs, apply_rules(rs, id)) == apply_rules(rs, id),
{
    let w = lemma_apply_from_shape(rs, 0, id);
    match w {
        None => {},
        Some(i) => {
            assert(apply_rules(rs, rule_out(rs[i])) == rule_out(rs[i]));
        },
    }
}

/// Idempotence lifted to whole tables: canonicalizing a table twice yields
/// the table canonicalized once, for every table and every stable rule set.
pub proof fn lemma_canon_rows_idempotent(rs: Seq<RuleView>, rows: Seq<RecordView>)
    requires
        wf_rules(rs),
    ensures
        canon_rows(rs, canon_rows(rs, rows)) == canon_rows(rs, rows),
{
    let once = canon_rows(rs, rows);
    let twice = canon_rows(rs, once);
    assert forall|i: int| 0 <= i < rows.len() implies twice[i] == once[i] by {
        lemma_apply_rules_idempotent(rs, id_of(rows[i]));
        assert(id_of(canon_record(rs, rows[i])) == apply_rules(rs, id_of(rows[i])));
    }
    assert(twice =~= once);
}

/// Canonicalization touches only the identity columns: every other field of
/// every row is left as it was, and the row count is kept.
pub proof fn lemma_canon_rows_frame(rs: Seq<RuleView>, rows: Seq<RecordView>)
    ensures
        canon_rows(rs, rows).len() == rows.len(),
        forall|i: int| 0 <= i < rows.len() ==> {
            let r = #[trigger] canon_rows(rs, rows)[i];
            r.date == rows[i].date && r.cusip == rows[i].cusip && r.market_value
                == rows[i].market_value && r.shares == rows[i].shares && r.share_price
                == rows[i].share_price && r.weight == rows[i].weight
        },
{
}

/// Canonicalization keeps every row's date, so a table of dated rows stays
/// dated.
pub proof fn lemma_canon_rows_wf(rs: Seq<RuleView>, rows: Seq<RecordView>)
    requires
        crate::record::rows_wf(rows),
    ensures
        crate::record::rows_wf(canon_rows(rs, rows)),
{
    lemma_canon_rows_frame(rs, rows);
    let out = canon_rows(rs, rows);
    assert forall|i: int| 0 <= i < out.len() implies (#[trigger] out[i]).wf() by {
        assert(rows[i].wf());
        assert(out[i].date == rows[i].date);
    }
}

fn opt_eq_value(o: &Option<String>, s: &String) -> (r: bool)
    ensures
        r == (o.deep_view() == Some(s@)),
{
    match o {
        Option::None => false,
        Option::Some(x) => *x == *s,
    }
}

/// Runs the rule list over one pair of identity columns.
fn apply_rules_exec(rules: &Vec<Rule>, ticker: &Option<String>, company: &Option<String>) -> (r: (
    Option<String>,
    Option<String>,
))
    ensures
        (IdentityCols { ticker: r.0.deep_view(), company: r.1.deep_view() }) == apply_rules(
            rules.deep_view(),
            IdentityCols { ticker: ticker.deep_view(), company: company.deep_view() },
        ),
{
    let ghost id0 = IdentityCols { ticker: ticker.deep_view(), company: company.deep_view() };
    let mut cur_t = crate::record::opt_str_clone(ticker);
    let mut cur_c = crate::record::opt_str_clone(company);
    let n = rules.len();
    let mut k: usize = 0;
    while k < n
        invariant
            k <= n,
            n == rules@.len(),
            apply_from(
                rules.deep_view(),
                k as int,
                IdentityCols { ticker: cur_t.deep_view(), company: cur_c.deep_view() },
            ) == apply_rules(rules.deep_view(), id0),
        decreases n - k,
    {
        let rule = &rules[k];
        proof {
            assert(rules.deep_view()[k as int] == rules@[k as int]@);
        }
        let matched = match rule.target {
            Target::Ticker => opt_eq_value(&cur_t, &rule.match_value),
            Target::Company => opt_eq_value(&cur_c, &rule.match_value),
        };
        if matched {
            cur_t = Some(rule.symbol.clone());
            cur_c = Some(rule.display.clone());
        }
        k = k + 1;
    }
    (cur_t, cur_c)
}

/// A rule table that passed the stability check.
pub struct RuleSet {
    rules: Vec<Rule>,
}

impl View for RuleSet {
    type V = Seq<RuleView>;

    closed spec fn view(&self) -> Seq<RuleView> {
        self.rules.deep_view()
    }
}

impl RuleSet {
    /// Accepts a rule table only if it is stable in the sense of
    /// [`wf_rules`]: the check runs the whole set on each rule's own output.
    pub fn new(rules: Vec<Rule>) -> (r: Option<RuleSet>)
        ensures
            r is Some <==> wf_rules(rules.deep_view()),
            r is Some ==> r->Some_0@ == rules.deep_view(),
    {
        let n = rules.len();
        let mut i: usize = 0;
        while i < n
            invariant
                i <= n,
                n == rules@.len(),
                forall|j: int| 0 <= j < i ==> apply_rules(
                    rules.deep_view(),
                    #[trigger] rule_out(rules.deep_view()[j]),
                ) == rule_out(rules.deep_view()[j]),
            decreases n - i,
        {
            proof {
                assert(rules.deep_view()[i as int] == rules@[i as int]@);
            }
            let out_t: Option<String> = Some(rules[i].symbol.clone());
            let out_c: Option<String> = Some(rules[i].display.clone());
            let (t2, c2) = apply_rules_exec(&rules, &out_t, &out_c);
            if !(opt_str_eq(&t2, &out_t) && opt_str_eq(&c2, &out_c)) {
                proof {
                    let rv = rules.deep_view()[i as int];
                    assert(apply_rules(rules.deep_view(), rule_out(rv)) != rule_out(rv));
                }
                return None;
            }
            i = i + 1;
        }
        Some(RuleSet { rules })
    }

    /// The rules, for inspection.
    pub fn rules(&self) -> (r: &Vec<Rule>)
        ensures
            r.deep_view() == self@,
    {
        &self.rules
    }

    pub open spec fn wf(self) -> bool {
        wf_rules(self@)
    }
}

/// Rewrites the identity columns of every row by the rule set; all other
/// fields and the row order are untouched.
pub fn canonicalize(rules: &RuleSet, rows: Vec<Record>) -> (r: Vec<Record>)
    ensures
        r.deep_view() == canon_rows(rules@, rows.deep_view()),
{
    let n = rows.len();
    let mut out: Vec<Record> = Vec::new();
    let mut i: usize = 0;
    while i < n
        invariant
            i <= n,
            n == rows@.len(),
            out@.len() == i,
            forall|j: int| 0 <= j < i ==> out@[j]@ == canon_record(rules@, #[trigger] rows@[j]@),
        decreases n - i,
    {
        let row = rows[i].duplicate();
        let (t2, c2) = apply_rules_exec(&rules.rules, &row.ticker, &row.company);
        let new_row = Record { ticker: t2, company: c2, ..row };
        proof {
            assert(new_row@ =~= canon_record(rules@, rows@[i as int]@));
        }
        out.push(new_row);
        i = i + 1;
    }
    proof {
        assert(out.deep_view() =~= canon_rows(rules@, rows.deep_view()));
    }
    out
}

/// The securities the default rule table covers; each carries its group of
/// rules, applied in this declaration order.
#[allow(non_camel_case_types)]
#[derive(Clone, Copy, PartialEq, Eq, Structural, Debug)]
pub enum Ticker {
    ARKW,
    CRLC,
    CRWV,
    DKNG,
    ETOR,
    MKFG,
    LUNR,
    XYZ,
    CASH_USD,
    TSM,
    RKLB,
}

fn rule(target: Target, match_value: &str, symbol: &str, display: &str) -> (r: Rule)
    ensures
        r@ == (RuleView {
            target,
            match_value: match_value@,
            symbol: symbol@,
            display: display@,
        }),
{
    Rule {
        target,
        match_value: match_value.to_owned(),
        symbol: symbol.to_owned(),
        display: display.to_owned(),
    }
}

/// The rules of one security's group, in application order.
pub open spec fn group_rules_spec(g: Ticker) -> Seq<RuleView> {
    match g {
        Ticker::ARKW => seq![
            RuleView {
                target: Target::Company,
                match_value: "ARK BITCOIN ETF HOLDCO (ARKW)"@,
                symbol: "ARKB"@,
                display: "ARKB"@,
            },
            RuleView {
                target: Target::Company,
                match_value: "ARK BITCOIN ETF HOLDCO (ARKF)"@,
                symbol: "ARKB"@,
                display: "ARKB"@,
            },
        ],
        Ticker::CRLC => seq![
            RuleView {
                target: Target::Company,
                match_value: "CIRCLE INTERNET GROUP"@,
                symbol: "CRLC"@,
                display: "CIRCLE INTERNET GROUP"@,
            },
        ],
        Ticker::CRWV => seq![
            RuleView {
                target: Target::Company,
                match_value: "COREWEAVE"@,
                symbol: "CRWV"@,
                display: "COREWEAVE"@,
            },
        ],
        Ticker::DKNG => seq![
            RuleView {
                target: Target::Company,
                match_value: "AFTKINGS"@,
                symbol: "DKNG"@,
                display: "DRAFTKINGS"@,
            },
            RuleView {
                target: Target::Ticker,
                match_value: "DKNN"@,
                symbol: "DKNG"@,
                display: "DRAFTKINGS"@,
            },
        ],
        Ticker::ETOR => seq![
            RuleView {
                target: Target::Company,
                match_value: "ETORO GROUP"@,
                symbol: "ETOR"@,
                display: "ETORO GROUP"@,
            },
        ],
        Ticker::MKFG => seq![
            RuleView {
                target: Target::Company,
                match_value: "MARKFORGEDG"@,
                symbol: "MKFG"@,
                display: "MARKFORGEDG"@,
            },
        ],
        Ticker::LUNR => seq![
            RuleView {
                target: Target::Company,
                match_value: "INTUITIVE MACHINES"@,
                symbol: "LUNR"@,
                display: "INTUITIVE MACHINES"@,
            },
        ],
        Ticker::XYZ => seq![
            RuleView {
                target: Target::Company,
                match_value: "BLOCK"@,
                symbol: "XYZ"@,
                display: "BLOCK"@,
            },
            RuleView {
                target: Target::Company,
                match_value: "Block"@,
                symbol: "XYZ"@,
                display: "Block"@,
            },
        ],
        Ticker::CASH_USD => seq![
            RuleView {
                target: Target::Company,
                match_value: "Cash & Cash Equivalents"@,
                symbol: "CASH_USD"@,
                display: "CASH_USD"@,
            },
            RuleView {
                target: Target::Company,
                match_value: "CASH & CASH EQUIVALENTS"@,
                symbol: "CASH_USD"@,
                display: "CASH_USD"@,
            },
            RuleView {
                target: Target::Company,
                match_value: "GOLDMAN FS TRSY OBLIG INST 468"@,
                symbol: "CASH_USD"@,
                display: "CASH_USD"@,
            },
            RuleView {
                target: Target::Company,
                match_value: "Cash & Other"@,
                symbol: "CASH_USD"@,
                display: "CASH_USD"@,
            },
        ],
        Ticker::TSM => seq![
            RuleView {
                target: Target::Company,
                match_value: "TAIWANMICONDUCTORSP"@,
                symbol: "TSM"@,
                display: "TMSC"@,
            },
        ],
        Ticker::RKLB => seq![
            RuleView {
                target: Target::Company,
                match_value: "ROCKET LAB USA"@,
                symbol: "RKLB"@,
                display: "ROCKET LAB"@,
            },
            RuleView {
                target: Target::Company,
                match_value: "ROCKET LAB"@,
                symbol: "RKLB"@,
                display: "ROCKET LAB"@,
            },
        ],
    }
}

/// The fixed order the groups apply in.
pub open spec fn group_order_spec() -> Seq<Ticker> {
    seq![
        Ticker::ARKW,
        Ticker::CRLC,
        Ticker::CRWV,
        Ticker::DKNG,
        Ticker::ETOR,
        Ticker::MKFG,
        Ticker::LUNR,
        Ticker::XYZ,
        Ticker::CASH_USD,
        Ticker::TSM,
        Ticker::RKLB,
    ]
}

/// Known corporate renames appended after the security groups.
pub open spec fn corporate_rules_spec() -> Seq<RuleView> {
    seq![
        RuleView {
            target: Target::Company,
            match_value: "COINBASE GLOBAL"@,
            symbol: "COIN"@,
            display: "COINBASE"@,
        },
        RuleView {
            target: Target::Company,
            match_value: "Coinbase Global"@,
            symbol: "COIN"@,
            display: "Coinbase"@,
        },
        RuleView {
            target: Target::Company,
            match_value: "Space Exploration Technologies Corp"@,
            symbol: "SPACEX"@,
            display: "SpaceX"@,
        },
        RuleView {
            target: Target::Company,
            match_value: "Space Exploration Technologies Co"@,
            symbol: "SPACEX"@,
            display: "SpaceX"@,
        },
        RuleView {
            target: Target::Company,
            match_value: "Space Investment"@,
            symbol: "SPACEX"@,
            display: "SpaceX"@,
        },
        RuleView {
            target: Target::Company,
            match_value: "Blackdaemon"@,
            symbol: "BLOCKDAEMON"@,
            display: "Blockdaemon"@,
        },
        RuleView {
            target: Target::Company,
            match_value: "DISCOVERY"@,
            symbol: "DSY"@,
            display: "Dassault Systemes"@,
        },
    ]
}

/// The groups' rules concatenated up to position `n` of the fixed order.
pub open spec fn groups_rules_upto(n: int) -> Seq<RuleView>
    decreases n,
{
    if n <= 0 {
        Seq::empty()
    } else {
        groups_rules_upto(n - 1) + group_rules_spec(group_order_spec()[n - 1])
    }
}

/// The whole default table: every group in order, then the corporate
/// renames.
pub open spec fn default_rules_spec() -> Seq<RuleView> {
    groups_rules_upto(group_order_spec().len() as int) + corporate_rules_spec()
}

impl Ticker {
    /// The substitution rules of this security's group, in application
    /// order.
    pub fn rules(self) -> (r: Vec<Rule>)
        ensures
            r.deep_view() == group_rules_spec(self),
    {
        match self {
            Ticker::ARKW => {
                let mut v: Vec<Rule> = Vec::new();
                v.push(rule(Target::Company, "ARK BITCOIN ETF HOLDCO (ARKW)", "ARKB", "ARKB"));
                v.push(rule(Target::Company, "ARK BITCOIN ETF HOLDCO (ARKF)", "ARKB", "ARKB"));
                proof {
                    assert(v.deep_view() =~= group_rules_spec(self));
                }
                v
            },
            Ticker::CRLC => {
                let mut v: Vec<Rule> = Vec::new();
                v.push(
                    rule(Target::Company, "CIRCLE INTERNET GROUP", "CRLC", "CIRCLE INTERNET GROUP"),
                );
                proof {
                    assert(v.deep_view() =~= group_rules_spec(self));
                }
                v
            },
            Ticker::CRWV => {
                let mut v: Vec<Rule> = Vec::new();
                v.push(rule(Target::Company, "COREWEAVE", "CRWV", "COREWEAVE"));
                proof {
                    assert(v.deep_view() =~= group_rules_spec(self));
                }
                v
            },
            Ticker::DKNG => {
                let mut v: Vec<Rule> = Vec::new();
                v.push(rule(Target::Company, "AFTKINGS", "DKNG", "DRAFTKINGS"));
                v.push(rule(Target::Ticker, "DKNN", "DKNG", "DRAFTKINGS"));
                proof {
                    assert(v.deep_view() =~= group_rules_spec(self));
                }
                v
            },
            Ticker::ETOR => {
                let mut v: Vec<Rule> = Vec::new();
                v.push(rule(Target::Company, "ETORO GROUP", "ETOR", "ETORO GROUP"));
                proof {
                    assert(v.deep_view() =~= group_rules_spec(self));
                }
                v
            },
            Ticker::MKFG => {
                let mut v: Vec<Rule> = Vec::new();
                v.push(rule(Target::Company, "MARKFORGEDG", "MKFG", "MARKFORGEDG"));
                proof {
                    assert(v.deep_view() =~= group_rules_spec(self));
                }
                v
            },
            Ticker::LUNR => {
                let mut v: Vec<Rule> = Vec::new();
                v.push(rule(Target::Company, "INTUITIVE MACHINES", "LUNR", "INTUITIVE MACHINES"));
                proof {
                    assert(v.deep_view() =~= group_rules_spec(self));
                }
                v
            },
            Ticker::XYZ => {
                let mut v: Vec<Rule> = Vec::new();
                v.push(rule(Target::Company, "BLOCK", "XYZ", "BLOCK"));
                v.push(rule(Target::Company, "Block", "XYZ", "Block"));
                proof {
                    assert(v.deep_view() =~= group_rules_spec(self));
                }
                v
            },
            Ticker::CASH_USD => {
                let mut v: Vec<Rule> = Vec::new();
                v.push(rule(Target::Company, "Cash & Cash Equivalents", "CASH_USD", "CASH_USD"));
                v.push(rule(Target::Company, "CASH & CASH EQUIVALENTS", "CASH_USD", "CASH_USD"));
                v.push(
                    rule(Target::Company, "GOLDMAN FS TRSY OBLIG INST 468", "CASH_USD", "CASH_USD"),
                );
                v.push(rule(Target::Company, "Cash & Other", "CASH_USD", "CASH_USD"));
                proof {
                    assert(v.deep_view() =~= group_rules_spec(self));
                }
                v
            },
            Ticker::TSM => {
                let mut v: Vec<Rule> = Vec::new();
                v.push(rule(Target::Company, "TAIWANMICONDUCTORSP", "TSM", "TMSC"));
                proof {
                    assert(v.deep_view() =~= group_rules_spec(self));
                }
                v
            },
            Ticker::RKLB => {
                let mut v: Vec<Rule> = Vec::new();
                v.push(rule(Target::Company, "ROCKET LAB USA", "RKLB", "ROCKET LAB"));
                v.push(rule(Target::Company, "ROCKET LAB", "RKLB", "ROCKET LAB"));
                proof {
                    assert(v.deep_view() =~= group_rules_spec(self));
                }
                v
            },
        }
    }

    /// Every group, in application order.
    pub fn all() -> (r: Vec<Ticker>)
        ensures
            r@ == group_order_spec(),
    {
        let mut v: Vec<Ticker> = Vec::new();
        v.push(Ticker::ARKW);
        v.push(Ticker::CRLC);
        v.push(Ticker::CRWV);
        v.push(Ticker::DKNG);
        v.push(Ticker::ETOR);
        v.push(Ticker::MKFG);
        v.push(Ticker::LUNR);
        v.push(Ticker::XYZ);
        v.push(Ticker::CASH_USD);
        v.push(Ticker::TSM);
        v.push(Ticker::RKLB);
        proof {
            assert(v@ =~= group_order_spec());
        }
        v
    }
}

/// The default rule table: every security group in order, then known
/// corporate renames.
pub fn default_rules() -> (r: Vec<Rule>)
    ensures
        r.deep_view() == default_rules_spec(),
{
    let mut v: Vec<Rule> = Vec::new();
    let groups = Ticker::all();
    let n = groups.len();
    proof {
        assert(v.deep_view() =~= groups_rules_upto(0));
    }
    let mut i: usize = 0;
    while i < n
        invariant
            i <= n,
            n == group_order_spec().len(),
            groups@ == group_order_spec(),
            v.deep_view() == groups_rules_upto(i as int),
        decreases n - i,
    {
        let mut g = groups[i].rules();
        let ghost oldv = v@;
        let ghost olddv = v.deep_view();
        let ghost gv = g@;
        let ghost gdv = g.deep_view();
        v.append(&mut g);
        proof {
            assert(v@ == oldv + gv);
            assert forall|j: int| 0 <= j < v@.len() implies v.deep_view()[j] == (olddv + gdv)[j]
                by {
                if j < oldv.len() {
                    assert(v@[j] == oldv[j]);
                } else {
                    assert(v@[j] == gv[j - oldv.len()]);
                }
            }
            assert(v.deep_view() =~= olddv + gdv);
            assert(v.deep_view() =~= groups_rules_upto(i + 1));
        }
        i = i + 1;
    }
    let mut cr: Vec<Rule> = Vec::new();
    cr.push(rule(Target::Company, "COINBASE GLOBAL", "COIN", "COINBASE"));
    cr.push(rule(Target::Company, "Coinbase Global", "COIN", "Coinbase"));
    cr.push(rule(Target::Company, "Space Exploration Technologies Corp", "SPACEX", "SpaceX"));
    cr.push(rule(Target::Company, "Space Exploration Technologies Co", "SPACEX", "SpaceX"));
    cr.push(rule(Target::Company, "Space Investment", "SPACEX", "SpaceX"));
    cr.push(rule(Target::Company, "Blackdaemon", "BLOCKDAEMON", "Blockdaemon"));
    cr.push(rule(Target::Company, "DISCOVERY", "DSY", "Dassault Systemes"));
    proof {
        assert(cr.deep_view() =~= corporate_rules_spec());
    }
    let ghost oldv = v@;
    let ghost olddv = v.deep_view();
    let ghost crv = cr@;
    let ghost crdv = cr.deep_view();
    v.append(&mut cr);
    proof {
        assert(v@ == oldv + crv);
        assert forall|j: int| 0 <= j < v@.len() implies v.deep_view()[j] == (olddv + crdv)[j] by {
            if j < oldv.len() {
                assert(v@[j] == oldv[j]);
            } else {
                assert(v@[j] == crv[j - oldv.len()]);
            }
        }
        assert(v.deep_view() =~= olddv + crdv);
        assert(v.deep_view() =~= default_rules_spec());
    }
    v
}

/// A rule that does not match an identity passes it to the next rule.
proof fn lemma_skip_nonmatching(rs: Seq<RuleView>, id: IdentityCols, k: int)
    requires
        0 <= k < rs.len(),
        !rule_matches(rs[k], id),
    ensures
        apply_from(rs, k, id) == apply_from(rs, k + 1, id),
{
}

/// Walks the first half of the table over the already-canonical identity:
/// no rule fires, each match value differing from it in length or, for the
/// one equal-length value, in a character.
#[verifier::rlimit(100)]
proof fn lemma_holdco_scan_front(rs: Seq<RuleView>, hit: IdentityCols)
    requires
        rs == default_rules_spec(),
        hit == (IdentityCols { ticker: Some("ARKB"@), company: Some("ARKB"@) }),
    ensures
        apply_from(rs, 1, hit) == apply_from(rs, 13, hit),
{
    reveal_with_fuel(groups_rules_upto, 13);
    reveal_strlit("AFTKINGS");
    reveal_strlit("ARK BITCOIN ETF HOLDCO (ARKF)");
    reveal_strlit("BLOCK");
    reveal_strlit("Block");
    reveal_strlit("CASH & CASH EQUIVALENTS");
    reveal_strlit("CIRCLE INTERNET GROUP");
    reveal_strlit("COREWEAVE");
    reveal_strlit("Cash & Cash Equivalents");
    reveal_strlit("DKNN");
    reveal_strlit("ETORO GROUP");
    reveal_strlit("INTUITIVE MACHINES");
    reveal_strlit("MARKFORGEDG");
    reveal_strlit("ARKB");
    assert(rs.len() == 25);
    assert("ARKB"@.len() == 4);
    assert(rs[1] == group_rules_spec(Ticker::ARKW)[1]);
    assert(rs[1].match_value.len() == 29);
    assert(!rule_matches(rs[1], hit));
    lemma_skip_nonmatching(rs, hit, 1);
    assert(rs[2] == group_rules_spec(Ticker::CRLC)[0]);
    assert(rs[2].match_value.len() == 21);
    assert(!rule_matches(rs[2], hit));
    lemma_skip_nonmatching(rs, hit, 2);
    assert(rs[3] == group_rules_spec(Ticker::CRWV)[0]);
    assert(rs[3].match_value.len() == 9);
    assert(!rule_matches(rs[3], hit));
    lemma_skip_nonmatching(rs, hit, 3);
    assert(rs[4] == group_rules_spec(Ticker::DKNG)[0]);
    assert(rs[4].match_value.len() == 8);
    assert(!rule_matches(rs[4], hit));
    lemma_skip_nonmatching(rs, hit, 4);
    assert(rs[5] == group_rules_spec(Ticker::DKNG)[1]);
    assert(rs[5].match_value.len() == 4);
    assert("ARKB"@[0] == 'A');
    assert(rs[5].match_value[0] == 'D');
    assert(!rule_matches(rs[5], hit));
    lemma_skip_nonmatching(rs, hit, 5);
    assert(rs[6] == group_rules_spec(Ticker::ETOR)[0]);
    assert(rs[6].match_value.len() == 11);
    assert(!rule_matches(rs[6], hit));
    lemma_skip_nonmatching(rs, hit, 6);
    assert(rs[7] == group_rules_spec(Ticker::MKFG)[0]);
    assert(rs[7].match_value.len() == 11);
    assert(!rule_matches(rs[7], hit));
    lemma_skip_nonmatching(rs, hit, 7);
    assert(rs[8] == group_rules_spec(Ticker::LUNR)[0]);
    assert(rs[8].match_value.len() == 18);
    assert(!rule_matches(rs[8], hit));
    lemma_skip_nonmatching(rs, hit, 8);
    assert(rs[9] == group_rules_spec(Ticker::XYZ)[0]);
    assert(rs[9].match_value.len() == 5);
    assert(!rule_matches(rs[9], hit));
    lemma_skip_nonmatching(rs, hit, 9);
    assert(rs[10] == group_rules_spec(Ticker::XYZ)[1]);
    assert(rs[10].match_value.len() == 5);
    assert(!rule_matches(rs[10], hit));
    lemma_skip_nonmatching(rs, hit, 10);
    assert(rs[11] == group_rules_spec(Ticker::CASH_USD)[0]);
    assert(rs[11].match_value.len() == 23);
    assert(!rule_matches(rs[11], hit));
    lemma_skip_nonmatching(rs, hit, 11);
    assert(rs[12] == group_rules_spec(Ticker::CASH_USD)[1]);
    assert(rs[12].match_value.len() == 23);
    assert(!rule_matches(rs[12], hit));
    lemma_skip_nonmatching(rs, hit, 12);
}

/// Walks the second half of the table over the already-canonical identity
/// the same way.
#[verifier::rlimit(100)]
proof fn lemma_holdco_scan_back(rs: Seq<RuleView>, hit: IdentityCols)
    requires
        rs == default_rules_spec(),
        hit == (IdentityCols { ticker: Some("ARKB"@), company: Some("ARKB"@) }),
    ensures
        apply_from(rs, 13, hit) == apply_from(rs, 25, hit),
{
    reveal_with_fuel(groups_rules_upto, 13);
    reveal_strlit("Blackdaemon");
    reveal_strlit("COINBASE GLOBAL");
    reveal_strlit("Cash & Other");
    reveal_strlit("Coinbase Global");
    reveal_strlit("DISCOVERY");
    reveal_strlit("GOLDMAN FS TRSY OBLIG INST 468");
    reveal_strlit("ROCKET LAB");
    reveal_strlit("ROCKET LAB USA");
    reveal_strlit("Space Exploration Technologies Co");
    reveal_strlit("Space Exploration Technologies Corp");
    reveal_strlit("Space Investment");
    reveal_strlit("TAIWANMICONDUCTORSP");
    reveal_strlit("ARKB");
    assert(rs.len() == 25);
    assert("ARKB"@.len() == 4);
    assert(rs[13] == group_rules_spec(Ticker::CASH_USD)[2]);
    assert(rs[13].match_value.len() == 30);
    assert(!rule_matches(rs[13], hit));
    lemma_skip_nonmatching(rs, hit, 13);
    assert(rs[14] == group_rules_spec(Ticker::CASH_USD)[3]);
    assert(rs[14].match_value.len() == 12);
    assert(!rule_matches(rs[14], hit));
    lemma_skip_nonmatching(rs, hit, 14);
    assert(rs[15] == group_rules_spec(Ticker::TSM)[0]);
    assert(rs[15].match_value.len() == 19);
    assert(!rule_matches(rs[15], hit));
    lemma_skip_nonmatching(rs, hit, 15);
    assert(rs[16] == group_rules_spec(Ticker::RKLB)[0]);
    assert(rs[16].match_value.len() == 14);
    assert(!rule_matches(rs[16], hit));
    lemma_skip_nonmatching(rs, hit, 16);
    assert(rs[17] == group_rules_spec(Ticker::RKLB)[1]);
    assert(rs[17].match_value.len() == 10);
    assert(!rule_matches(rs[17], hit));
    lemma_skip_nonmatching(rs, hit, 17);
    assert(rs[18] == corporate_rules_spec()[0]);
    assert(rs[18].match_value.len() == 15);
    assert(!rule_matches(rs[18], hit));
    lemma_skip_nonmatching(rs, hit, 18);
    assert(rs[19] == corporate_rules_spec()[1]);
    assert(rs[19].match_value.len() == 15);
    assert(!rule_matches(rs[19], hit));
    lemma_skip_nonmatching(rs, hit, 19);
    assert(rs[20] == corporate_rules_spec()[2]);
    assert(rs[20].match_value.len() == 35);
    assert(!rule_matches(rs[20], hit));
    lemma_skip_nonmatching(rs, hit, 20);
    assert(rs[21] == corporate_rules_spec()[3]);
    assert(rs[21].match_value.len() == 33);
    assert(!rule_matches(rs[21], hit));
    lemma_skip_nonmatching(rs, hit, 21);
    assert(rs[22] == corporate_rules_spec()[4]);
    assert(rs[22].match_value.len() == 16);
    assert(!rule_matches(rs[22], hit));
    lemma_skip_nonmatching(rs, hit, 22);
    assert(rs[23] == corporate_rules_spec()[5]);
    assert(rs[23].match_value.len() == 11);
    assert(!rule_matches(rs[23], hit));
    lemma_skip_nonmatching(rs, hit, 23);
    assert(rs[24] == corporate_rules_spec()[6]);
    assert(rs[24].match_value.len() == 9);
    assert(!rule_matches(rs[24], hit));
    lemma_skip_nonmatching(rs, hit, 24);
}

/// The holdco scenario holds of the default table itself: a row naming the
/// bitcoin holdco wrapper with no ticker maps both identity columns to the
/// underlying fund's symbol.
#[verifier::rlimit(100)]
pub proof fn lemma_default_rules_holdco()
    ensures
        apply_rules(
            default_rules_spec(),
            IdentityCols { ticker: None, company: Some("ARK BITCOIN ETF HOLDCO (ARKW)"@) },
        ) == (IdentityCols { ticker: Some("ARKB"@), company: Some("ARKB"@) }),
{
    reveal_with_fuel(groups_rules_upto, 13);
    reveal_strlit("ARK BITCOIN ETF HOLDCO (ARKW)");
    reveal_strlit("ARKB");
    let rs = default_rules_spec();
    let id0 = IdentityCols { ticker: None, company: Some("ARK BITCOIN ETF HOLDCO (ARKW)"@) };
    let hit = IdentityCols { ticker: Some("ARKB"@), company: Some("ARKB"@) };
    assert(rs.len() == 25);
    assert(rs[0] == group_rules_spec(Ticker::ARKW)[0]);
    assert(rule_matches(rs[0], id0));
    assert(apply_from(rs, 0, id0) == apply_from(rs, 1, hit));
    lemma_holdco_scan_front(rs, hit);
    lemma_holdco_scan_back(rs, hit);
    assert(apply_from(rs, 25, hit) == hit);
}

/// The sports-book scenario: the truncated company name is repaired and the
/// truncated ticker fixed, both columns ending canonical.
pub proof fn lemma_dkng_group_rules()
    ensures
        apply_rules(
            group_rules_spec(Ticker::DKNG),
            IdentityCols { ticker: Some("DKNG"@), company: Some("AFTKINGS"@) },
        ) == (IdentityCols { ticker: Some("DKNG"@), company: Some("DRAFTKINGS"@) }),
        apply_rules(
            group_rules_spec(Ticker::DKNG),
            IdentityCols { ticker: Some("DKNN"@), company: Some("DRAFTKINGS"@) },
        ) == (IdentityCols { ticker: Some("DKNG"@), company: Some("DRAFTKINGS"@) }),
{
    reveal_strlit("AFTKINGS");
    reveal_strlit("DKNN");
    reveal_strlit("DKNG");
    reveal_strlit("DRAFTKINGS");
    let rs = group_rules_spec(Ticker::DKNG);
    let out = IdentityCols { ticker: Some("DKNG"@), company: Some("DRAFTKINGS"@) };
    let a = IdentityCols { ticker: Some("DKNG"@), company: Some("AFTKINGS"@) };
    assert(rule_matches(rs[0], a));
    assert("DKNG"@.len() == 4 && "DKNN"@.len() == 4);
    assert("DKNG"@[3] == 'G' && "DKNN"@[3] == 'N');
    assert(!rule_matches(rs[1], out));
    assert(apply_from(rs, 0, a) == apply_from(rs, 1, out));
    lemma_skip_nonmatching(rs, out, 1);
    assert(apply_from(rs, 2, out) == out);
    let b = IdentityCols { ticker: Some("DKNN"@), company: Some("DRAFTKINGS"@) };
    assert("DRAFTKINGS"@.len() == 10 && "AFTKINGS"@.len() == 8);
    assert(!rule_matches(rs[0], b));
    lemma_skip_nonmatching(rs, b, 0);
    assert(rule_matches(rs[1], b));
    assert(apply_from(rs, 1, b) == apply_from(rs, 2, out));
}

/// The block-brand scenario: either casing of the company name forces the
/// canonical symbol while the company spelling is kept.
pub proof fn lemma_xyz_group_rules()
    ensures
        apply_rules(
            group_rules_spec(Ticker::XYZ),
            IdentityCols { ticker: Some("SQ"@), company: Some("BLOCK"@) },
        ) == (IdentityCols { ticker: Some("XYZ"@), company: Some("BLOCK"@) }),
        apply_rules(
            group_rules_spec(Ticker::XYZ),
            IdentityCols { ticker: Some("SQ"@), company: Some("Block"@) },
        ) == (IdentityCols { ticker: Some("XYZ"@), company: Some("Block"@) }),
{
    reveal_strlit("BLOCK");
    reveal_strlit("Block");
    reveal_strlit("XYZ");
    reveal_strlit("SQ");
    let rs = group_rules_spec(Ticker::XYZ);
    assert("BLOCK"@.len() == 5 && "Block"@.len() == 5);
    assert("BLOCK"@[1] == 'L' && "Block"@[1] == 'l');
    let a = IdentityCols { ticker: Some("SQ"@), company: Some("BLOCK"@) };
    let ahit = IdentityCols { ticker: Some("XYZ"@), company: Some("BLOCK"@) };
    assert(rule_matches(rs[0], a));
    assert(apply_from(rs, 0, a) == apply_from(rs, 1, ahit));
    assert(!rule_matches(rs[1], ahit));
    lemma_skip_nonmatching(rs, ahit, 1);
    assert(apply_from(rs, 2, ahit) == ahit);
    let b = IdentityCols { ticker: Some("SQ"@), company: Some("Block"@) };
    let bhit = IdentityCols { ticker: Some("XYZ"@), company: Some("Block"@) };
    assert(!rule_matches(rs[0], b));
    lemma_skip_nonmatching(rs, b, 0);
    assert(rule_matches(rs[1], b));
    assert(apply_from(rs, 1, b) == apply_from(rs, 2, bhit));
    assert(apply_from(rs, 2, bhit) == bhit);
}

/// The cash scenario: every cash alias maps both identity columns to the
/// cash marker.
pub proof fn lemma_cash_usd_group_rules()
    ensures
        apply_rules(
            group_rules_spec(Ticker::CASH_USD),
            IdentityCols { ticker: None, company: Some("Cash & Cash Equivalents"@) },
        ) == (IdentityCols { ticker: Some("CASH_USD"@), company: Some("CASH_USD"@) }),
        apply_rules(
            group_rules_spec(Ticker::CASH_USD),
            IdentityCols { ticker: None, company: Some("Cash & Other"@) },
        ) == (IdentityCols { ticker: Some("CASH_USD"@), company: Some("CASH_USD"@) }),
{
    reveal_strlit("Cash & Cash Equivalents");
    reveal_strlit("CASH & CASH EQUIVALENTS");
    reveal_strlit("GOLDMAN FS TRSY OBLIG INST 468");
    reveal_strlit("Cash & Other");
    reveal_strlit("CASH_USD");
    let rs = group_rules_spec(Ticker::CASH_USD);
    let hit = IdentityCols { ticker: Some("CASH_USD"@), company: Some("CASH_USD"@) };
    assert("CASH_USD"@.len() == 8);
    let a = IdentityCols { ticker: None, company: Some("Cash & Cash Equivalents"@) };
    assert(rule_matches(rs[0], a));
    assert(apply_from(rs, 0, a) == apply_from(rs, 1, hit));
    assert(rs[1].match_value.len() == 23);
    assert(!rule_matches(rs[1], hit));
    lemma_skip_nonmatching(rs, hit, 1);
    assert(rs[2].match_value.len() == 30);
    assert(!rule_matches(rs[2], hit));
    lemma_skip_nonmatching(rs, hit, 2);
    assert(rs[3].match_value.len() == 12);
    assert(!rule_matches(rs[3], hit));
    lemma_skip_nonmatching(rs, hit, 3);
    assert(apply_from(rs, 4, hit) == hit);
    let b = IdentityCols { ticker: None, company: Some("Cash & Other"@) };
    assert("Cash & Other"@.len() == 12);
    assert(!rule_matches(rs[0], b));
    lemma_skip_nonmatching(rs, b, 0);
    assert(!rule_matches(rs[1], b));
    lemma_skip_nonmatching(rs, b, 1);
    assert(!rule_matches(rs[2], b));
    lemma_skip_nonmatching(rs, b, 2);
    assert(rule_matches(rs[3], b));
    assert(apply_from(rs, 3, b) == apply_from(rs, 4, hit));
}

/// The rocketry scenario: the long-form company name first yields the
/// canonical symbol and short display name, and the short name alone also
/// yields the symbol — the second rule acting on the first rule's output.
pub proof fn lemma_rklb_group_rules()
    ensures
        apply_rules(
            group_rules_spec(Ticker::RKLB),
            IdentityCols { ticker: None, company: Some("ROCKET LAB USA"@) },
        ) == (IdentityCols { ticker: Some("RKLB"@), company: Some("ROCKET LAB"@) }),
        apply_rules(
            group_rules_spec(Ticker::RKLB),
            IdentityCols { ticker: None, company: Some("ROCKET LAB"@) },
        ) == (IdentityCols { ticker: Some("RKLB"@), company: Some("ROCKET LAB"@) }),
{
    reveal_strlit("ROCKET LAB USA");
    reveal_strlit("ROCKET LAB");
    reveal_strlit("RKLB");
    let rs = group_rules_spec(Ticker::RKLB);
    let hit = IdentityCols { ticker: Some("RKLB"@), company: Some("ROCKET LAB"@) };
    let a = IdentityCols { ticker: None, company: Some("ROCKET LAB USA"@) };
    assert(rule_matches(rs[0], a));
    assert(apply_from(rs, 0, a) == apply_from(rs, 1, hit));
    assert(rule_matches(rs[1], hit));
    assert(rule_out(rs[1]) == hit);
    assert(apply_from(rs, 1, hit) == apply_from(rs, 2, hit));
    assert(apply_from(rs, 2, hit) == hit);
    let b = IdentityCols { ticker: None, company: Some("ROCKET LAB"@) };
    assert("ROCKET LAB USA"@.len() == 14 && "ROCKET LAB"@.len() == 10);
    assert(!rule_matches(rs[0], b));
    lemma_skip_nonmatching(rs, b, 0);
    assert(rule_matches(rs[1], b));
    assert(apply_from(rs, 1, b) == apply_from(rs, 2, hit));
}

/// The default rule table wrapped in its stability check: accepted exactly
/// when the table above is stable, and then handed out unchanged.
pub fn default_rule_set() -> (r: Option<RuleSet>)
    ensures
        r is Some <==> wf_rules(default_rules_spec()),
        r is Some ==> r->0@ == default_rules_spec() && r->0.wf(),
{
    RuleSet::new(default_rules())
}

} // verus!
