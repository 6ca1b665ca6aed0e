use ark_holdings::date::Date;
use ark_holdings::fetch::{Source, api_url};
use ark_holdings::registry::{DataSource, Ticker};

#[test]
fn get_url_per_vendor_family() {
    assert_eq!(
        Ticker::ARKVX.get_url(),
        "https://assets.ark-funds.com/fund-documents/funds-etf-csv/ARK_VENTURE_FUND_ARKVX_HOLDINGS.csv"
    );
    assert_eq!(
        Ticker::ARKK.get_url(),
        "https://assets.ark-funds.com/fund-documents/funds-etf-csv/ARK_INNOVATION_ETF_ARKK_HOLDINGS.csv"
    );
    assert_eq!(
        Ticker::ARKA.get_url(),
        "https://cdn.21shares-funds.com/uploads/fund-documents/us-bank/holdings/product/current/ARKA-Export.csv"
    );
    assert_eq!(
        Ticker::EUROPE_ARKI.get_url(),
        "https://europe.ark-funds.com/funds/artificial-intelligence-robotics/full-fund-holdings-download/"
    );
    assert_eq!(
        Ticker::CYBR.get_url(),
        "https://europe.ark-funds.com/funds/cybersecurity-and-data-privacy/full-fund-holdings-download/"
    );
}

#[test]
fn vendor_families() {
    assert_eq!(Ticker::ARKVX.data_source(), DataSource::ArkVenture);
    assert_eq!(Ticker::ARKK.data_source(), DataSource::Ark);
    assert_eq!(Ticker::PRNT.data_source(), DataSource::Ark);
    assert_eq!(Ticker::ARKB.data_source(), DataSource::Shares21);
    assert_eq!(Ticker::EUROPE_ARKG.data_source(), DataSource::ArkEurope);
    assert_eq!(Ticker::FOOD.data_source(), DataSource::Rize);
    assert_eq!(Ticker::all().len(), 25);
}

#[test]
fn api_urls_follow_mode_and_watermark() {
    let day = Date { year: 2024, month: 1, day: 1 };
    assert_eq!(
        api_url(Ticker::ARKK, Some(day), Some(Source::ApiIncremental)),
        "https://api.nexveridian.com/ark_holdings?ticker=ARKK&start=2024-01-01"
    );
    assert_eq!(
        api_url(Ticker::ARKK, None, Some(Source::ApiFull)),
        "https://api.nexveridian.com/ark_holdings?ticker=ARKK&start=2000-01-01"
    );
    assert_eq!(
        api_url(Ticker::ARKK, Some(day), Some(Source::ArkFundsIoIncremental)),
        "https://arkfunds.io/api/v2/etf/holdings?symbol=ARKK&date_from=2024-01-01"
    );
    // The alternative API's full mode always starts from the default day.
    assert_eq!(
        api_url(Ticker::ARKK, Some(day), Some(Source::ArkFundsIoFull)),
        "https://arkfunds.io/api/v2/etf/holdings?symbol=ARKK&date_from=2000-01-01"
    );
    // European funds always go through the primary API.
    assert_eq!(
        api_url(Ticker::EUROPE_ARKK, Some(day), Some(Source::ArkFundsIoIncremental)),
        "https://api.nexveridian.com/ark_holdings?ticker=EUROPE_ARKK&start=2024-01-01"
    );
}
