//! The fund/source registry: a static mapping from fund code to vendor
//! family, endpoint token and download URL.
//!
//! Every other component leans on this table to pick the normalizer branch
//! and the fetch endpoint for a fund.

use vstd::prelude::*;
use vstd::string::StringExecFns;

verus! {

/// The vendor family a fund's disclosures originate from; it selects the
/// normalizer branch and the URL construction rule.
#[derive(Clone, Copy, PartialEq, Eq, Structural, Debug)]
pub enum DataSource {
    ArkVenture,
    Ark,
    Shares21,
    ArkEurope,
    Rize,
}

/// The fund codes the registry covers.
#[allow(non_camel_case_types)]
#[derive(Clone, Copy, PartialEq, Eq, Structural, Debug)]
pub enum Ticker {
    ARKVX,
    ARKF,
    ARKG,
    ARKK,
    ARKQ,
    ARKW,
    ARKX,
    ARKA,
    ARKZ,
    ARKC,
    ARKD,
    ARKY,
    ARKB,
    PRNT,
    IZRL,
    EUROPE_ARKI,
    EUROPE_ARKG,
    EUROPE_ARKK,
    CYBR,
    CYCL,
    FOOD,
    LIFE,
    LUSA,
    NFRA,
    PMNT,
}

impl Ticker {
    /// The raw filename or endpoint token the vendor publishes this fund
    /// under.
    pub open spec fn value_spec(self) -> Seq<char> {
        match self {
            Ticker::ARKVX => "ARK_VENTURE_FUND_ARKVX_HOLDINGS.csv"@,
            Ticker::ARKF => "FINTECH_INNOVATION"@,
            Ticker::ARKG => "GENOMIC_REVOLUTION"@,
            Ticker::ARKK => "INNOVATION"@,
            Ticker::ARKQ => "AUTONOMOUS_TECH._&_ROBOTICS"@,
            Ticker::ARKW => "NEXT_GENERATION_INTERNET"@,
            Ticker::ARKX => "SPACE_EXPLORATION_&_INNOVATION"@,
            Ticker::ARKA => "ARKA"@,
            Ticker::ARKZ => "ARKZ"@,
            Ticker::ARKC => "ARKC"@,
            Ticker::ARKD => "ARKD"@,
            Ticker::ARKY => "ARKY"@,
            Ticker::ARKB => "21SHARES_BITCOIN"@,
            Ticker::PRNT => "THE_3D_PRINTING"@,
            Ticker::IZRL => "ISRAEL_INNOVATIVE_TECHNOLOGY"@,
            Ticker::EUROPE_ARKI => "artificial-intelligence-robotics"@,
            Ticker::EUROPE_ARKG => "genomic-revolution"@,
            Ticker::EUROPE_ARKK => "innovation"@,
            Ticker::CYBR => "cybersecurity-and-data-privacy"@,
            Ticker::CYCL => "circular-economy-enablers"@,
            Ticker::FOOD => "sustainable-future-of-food"@,
            Ticker::LIFE => "environmental-impact-100"@,
            Ticker::LUSA => "usa-environmental-impact"@,
            Ticker::NFRA => "global-sustainable-infrastructure"@,
            Ticker::PMNT => "digital-payments-economy"@,
        }
    }

    pub fn value(&self) -> (r: &'static str)
        ensures
            r@ == self.value_spec(),
    {
        match self {
            Ticker::ARKVX => "ARK_VENTURE_FUND_ARKVX_HOLDINGS.csv",
            Ticker::ARKF => "FINTECH_INNOVATION",
            Ticker::ARKG => "GENOMIC_REVOLUTION",
            Ticker::ARKK => "INNOVATION",
            Ticker::ARKQ => "AUTONOMOUS_TECH._&_ROBOTICS",
            Ticker::ARKW => "NEXT_GENERATION_INTERNET",
            Ticker::ARKX => "SPACE_EXPLORATION_&_INNOVATION",
            Ticker::ARKA => "ARKA",
            Ticker::ARKZ => "ARKZ",
            Ticker::ARKC => "ARKC",
            Ticker::ARKD => "ARKD",
            Ticker::ARKY => "ARKY",
            Ticker::ARKB => "21SHARES_BITCOIN",
            Ticker::PRNT => "THE_3D_PRINTING",
            Ticker::IZRL => "ISRAEL_INNOVATIVE_TECHNOLOGY",
            Ticker::EUROPE_ARKI => "artificial-intelligence-robotics",
            Ticker::EUROPE_ARKG => "genomic-revolution",
            Ticker::EUROPE_ARKK => "innovation",
            Ticker::CYBR => "cybersecurity-and-data-privacy",
            Ticker::CYCL => "circular-economy-enablers",
            Ticker::FOOD => "sustainable-future-of-food",
            Ticker::LIFE => "environmental-impact-100",
            Ticker::LUSA => "usa-environmental-impact",
            Ticker::NFRA => "global-sustainable-infrastructure",
            Ticker::PMNT => "digital-payments-economy",
        }
    }

    /// The fund code as text, used inside URLs and storage paths.
    pub open spec fn symbol_spec(self) -> Seq<char> {
        match self {
            Ticker::ARKVX => "ARKVX"@,
            Ticker::ARKF => "ARKF"@,
            Ticker::ARKG => "ARKG"@,
            Ticker::ARKK => "ARKK"@,
            Ticker::ARKQ => "ARKQ"@,
            Ticker::ARKW => "ARKW"@,
            Ticker::ARKX => "ARKX"@,
            Ticker::ARKA => "ARKA"@,
            Ticker::ARKZ => "ARKZ"@,
            Ticker::ARKC => "ARKC"@,
            Ticker::ARKD => "ARKD"@,
            Ticker::ARKY => "ARKY"@,
            Ticker::ARKB => "ARKB"@,
            Ticker::PRNT => "PRNT"@,
            Ticker::IZRL => "IZRL"@,
            Ticker::EUROPE_ARKI => "EUROPE_ARKI"@,
            Ticker::EUROPE_ARKG => "EUROPE_ARKG"@,
            Ticker::EUROPE_ARKK => "EUROPE_ARKK"@,
            Ticker::CYBR => "CYBR"@,
            Ticker::CYCL => "CYCL"@,
            Ticker::FOOD => "FOOD"@,
            Ticker::LIFE => "LIFE"@,
            Ticker::LUSA => "LUSA"@,
            Ticker::NFRA => "NFRA"@,
            Ticker::PMNT => "PMNT"@,
        }
    }

    pub fn symbol(&self) -> (r: &'static str)
        ensures
            r@ == self.symbol_spec(),
    {
        match self {
            Ticker::ARKVX => "ARKVX",
            Ticker::ARKF => "ARKF",
            Ticker::ARKG => "ARKG",
            Ticker::ARKK => "ARKK",
            Ticker::ARKQ => "ARKQ",
            Ticker::ARKW => "ARKW",
            Ticker::ARKX => "ARKX",
            Ticker::ARKA => "ARKA",
            Ticker::ARKZ => "ARKZ",
            Ticker::ARKC => "ARKC",
            Ticker::ARKD => "ARKD",
            Ticker::ARKY => "ARKY",
            Ticker::ARKB => "ARKB",
            Ticker::PRNT => "PRNT",
            Ticker::IZRL => "IZRL",
            Ticker::EUROPE_ARKI => "EUROPE_ARKI",
            Ticker::EUROPE_ARKG => "EUROPE_ARKG",
            Ticker::EUROPE_ARKK => "EUROPE_ARKK",
            Ticker::CYBR => "CYBR",
            Ticker::CYCL => "CYCL",
            Ticker::FOOD => "FOOD",
            Ticker::LIFE => "LIFE",
            Ticker::LUSA => "LUSA",
            Ticker::NFRA => "NFRA",
            Ticker::PMNT => "PMNT",
        }
    }

    pub open spec fn data_source_spec(self) -> DataSource {
        match self {
            Ticker::ARKVX => DataSource::ArkVenture,
            Ticker::ARKF | Ticker::ARKG | Ticker::ARKK | Ticker::ARKQ | Ticker::ARKW
            | Ticker::ARKX => DataSource::Ark,
            Ticker::ARKA | Ticker::ARKZ | Ticker::ARKC | Ticker::ARKD | Ticker::ARKY
            | Ticker::ARKB => DataSource::Shares21,
            Ticker::PRNT | Ticker::IZRL => DataSource::Ark,
            Ticker::EUROPE_ARKI | Ticker::EUROPE_ARKG | Ticker::EUROPE_ARKK => DataSource::ArkEurope,
            Ticker::CYBR | Ticker::CYCL | Ticker::FOOD | Ticker::LIFE | Ticker::LUSA
            | Ticker::NFRA | Ticker::PMNT => DataSource::Rize,
        }
    }

    pub fn data_source(&self) -> (r: DataSource)
        ensures
            r == self.data_source_spec(),
    {
        match self {
            Ticker::ARKVX => DataSource::ArkVenture,
            Ticker::ARKF | Ticker::ARKG | Ticker::ARKK | Ticker::ARKQ | Ticker::ARKW
            | Ticker::ARKX => DataSource::Ark,
            Ticker::ARKA | Ticker::ARKZ | Ticker::ARKC | Ticker::ARKD | Ticker::ARKY
            | Ticker::ARKB => DataSource::Shares21,
            Ticker::PRNT | Ticker::IZRL => DataSource::Ark,
            Ticker::EUROPE_ARKI | Ticker::EUROPE_ARKG | Ticker::EUROPE_ARKK => DataSource::ArkEurope,
            Ticker::CYBR | Ticker::CYCL | Ticker::FOOD | Ticker::LIFE | Ticker::LUSA
            | Ticker::NFRA | Ticker::PMNT => DataSource::Rize,
        }
    }

    /// The full-holdings download URL for this fund.
    pub open spec fn url_spec(self) -> Seq<char> {
        match self.data_source_spec() {
            DataSource::ArkVenture => "https://assets.ark-funds.com/fund-documents/funds-etf-csv/"@
                + self.value_spec(),
            DataSource::Ark => "https://assets.ark-funds.com/fund-documents/funds-etf-csv/ARK_"@
                + self.value_spec() + "_ETF_"@ + self.symbol_spec() + "_HOLDINGS.csv"@,
            DataSource::Shares21 =>
            "https://cdn.21shares-funds.com/uploads/fund-documents/us-bank/holdings/product/current/"@
                + self.value_spec() + "-Export.csv"@,
            DataSource::ArkEurope | DataSource::Rize => "https://europe.ark-funds.com/funds/"@
                + self.value_spec() + "/full-fund-holdings-download/"@,
        }
    }

    pub fn get_url(&self) -> (r: String)
        ensures
            r@ == self.url_spec(),
    {
        match self.data_source() {
            DataSource::ArkVenture => {
                let mut s = String::from_str(
                    "https://assets.ark-funds.com/fund-documents/funds-etf-csv/",
                );
                s.append(self.value());
                proof {
                    assert(s@ =~= self.url_spec());
                }
                s
            },
            DataSource::Ark => {
                let mut s = String::from_str(
                    "https://assets.ark-funds.com/fund-documents/funds-etf-csv/ARK_",
                );
                s.append(self.value());
                s.append("_ETF_");
                s.append(self.symbol());
                s.append("_HOLDINGS.csv");
                proof {
                    assert(s@ =~= self.url_spec());
                }
                s
            },
            DataSource::Shares21 => {
                let mut s = String::from_str(
                    "https://cdn.21shares-funds.com/uploads/fund-documents/us-bank/holdings/product/current/",
                );
                s.append(self.value());
                s.append("-Export.csv");
                proof {
                    assert(s@ =~= self.url_spec());
                }
                s
            },
            DataSource::ArkEurope | DataSource::Rize => {
                let mut s = String::from_str("https://europe.ark-funds.com/funds/");
                s.append(self.value());
                s.append("/full-fund-holdings-download/");
                proof {
                    assert(s@ =~= self.url_spec());
                }
                s
            },
        }
    }

    /// Every fund code the registry knows, in its declaration order.
    pub fn all() -> (r: Vec<Ticker>)
        ensures
            r@ == seq![
                Ticker::ARKVX,
                Ticker::ARKF,
                Ticker::ARKG,
                Ticker::ARKK,
                Ticker::ARKQ,
                Ticker::ARKW,
                Ticker::ARKX,
                Ticker::ARKA,
                Ticker::ARKZ,
                Ticker::ARKC,
                Ticker::ARKD,
                Ticker::ARKY,
                Ticker::ARKB,
                Ticker::PRNT,
                Ticker::IZRL,
                Ticker::EUROPE_ARKI,
                Ticker::EUROPE_ARKG,
                Ticker::EUROPE_ARKK,
                Ticker::CYBR,
                Ticker::CYCL,
                Ticker::FOOD,
                Ticker::LIFE,
                Ticker::LUSA,
                Ticker::NFRA,
                Ticker::PMNT,
            ],
    {
        let mut v: Vec<Ticker> = Vec::new();
        v.push(Ticker::ARKVX);
        v.push(Ticker::ARKF);
        v.push(Ticker::ARKG);
        v.push(Ticker::ARKK);
        v.push(Ticker::ARKQ);
        v.push(Ticker::ARKW);
        v.push(Ticker::ARKX);
        v.push(Ticker::ARKA);
        v.push(Ticker::ARKZ);
        v.push(Ticker::ARKC);
        v.push(Ticker::ARKD);
        v.push(Ticker::ARKY);
        v.push(Ticker::ARKB);
        v.push(Ticker::PRNT);
        v.push(Ticker::IZRL);
        v.push(Ticker::EUROPE_ARKI);
        v.push(Ticker::EUROPE_ARKG);
        v.push(Ticker::EUROPE_ARKK);
        v.push(Ticker::CYBR);
        v.push(Ticker::CYCL);
        v.push(Ticker::FOOD);
        v.push(Ticker::LIFE);
        v.push(Ticker::LUSA);
        v.push(Ticker::NFRA);
        v.push(Ticker::PMNT);
        proof {
            assert(v@ =~= seq![
                Ticker::ARKVX,
                Ticker::ARKF,
                Ticker::ARKG,
                Ticker::ARKK,
                Ticker::ARKQ,
                Ticker::ARKW,
                Ticker::ARKX,
                Ticker::ARKA,
                Ticker::ARKZ,
                Ticker::ARKC,
                Ticker::ARKD,
                Ticker::ARKY,
                Ticker::ARKB,
                Ticker::PRNT,
                Ticker::IZRL,
                Ticker::EUROPE_ARKI,
                Ticker::EUROPE_ARKG,
                Ticker::EUROPE_ARKK,
                Ticker::CYBR,
                Ticker::CYCL,
                Ticker::FOOD,
                Ticker::LIFE,
                Ticker::LUSA,
                Ticker::NFRA,
                Ticker::PMNT,
            ]);
        }
        v
    }
}

} // verus!
