use sextant::{Asset, AssetError, AssetId, AssetRecord, AssetType, Currency, Ticker};

fn apple() -> Asset {
    Asset::new(
        Ticker::new("AAPL"),
        "Apple Inc.".to_string(),
        "NASDAQ".to_string(),
        Currency::Usd,
        AssetType::Stock,
    )
}

#[test]
fn id_is_derived_from_ticker_and_exchange() {
    assert_eq!(apple().id(), AssetId::for_ticker("AAPL", "NASDAQ"));
}

#[test]
fn new_leaves_classification_unset() {
    let asset = apple();
    assert_eq!(asset.sector(), None);
    assert_eq!(asset.industry(), None);
    assert_eq!(asset.country(), None);
}

#[test]
fn with_classification_populates_optional_metadata() {
    let asset = apple().with_classification(
        Some("Technology".to_string()),
        Some("Consumer Electronics".to_string()),
        Some("US".to_string()),
    );

    assert_eq!(asset.sector(), Some("Technology"));
    assert_eq!(asset.industry(), Some("Consumer Electronics"));
    assert_eq!(asset.country(), Some("US"));
}

#[test]
fn currency_parses_case_insensitively() {
    assert_eq!("usd".parse::<Currency>(), Ok(Currency::Usd));
    assert_eq!("EUR".parse::<Currency>(), Ok(Currency::Eur));
}

#[test]
fn currency_rejects_unknown_codes() {
    assert_eq!(
        "XYZ".parse::<Currency>(),
        Err(AssetError::UnknownCurrency("XYZ".to_string()))
    );
}

#[test]
fn asset_type_parses_known_labels() {
    assert_eq!("stock".parse::<AssetType>(), Ok(AssetType::Stock));
    assert_eq!("ETF".parse::<AssetType>(), Ok(AssetType::Etf));
    assert!("bond".parse::<AssetType>().is_err());
}

#[test]
fn currency_round_trips_through_its_code() {
    for currency in [
        Currency::Usd,
        Currency::Eur,
        Currency::Gbp,
        Currency::Chf,
        Currency::Jpy,
    ] {
        assert_eq!(currency.code().parse::<Currency>(), Ok(currency));
    }
}

#[test]
fn currency_codes_are_iso_4217() {
    assert_eq!(Currency::Usd.code(), "USD");
    assert_eq!(Currency::Eur.code(), "EUR");
    assert_eq!(Currency::Gbp.code(), "GBP");
    assert_eq!(Currency::Chf.code(), "CHF");
    assert_eq!(Currency::Jpy.code(), "JPY");
}

#[test]
fn currency_parsing_ignores_mixed_case_and_rejects_lookalikes() {
    assert_eq!("gBp".parse::<Currency>(), Ok(Currency::Gbp));
    assert_eq!(
        "US".parse::<Currency>(),
        Err(AssetError::UnknownCurrency("US".to_string()))
    );
    assert_eq!(
        "USDX".parse::<Currency>(),
        Err(AssetError::UnknownCurrency("USDX".to_string()))
    );
}

#[test]
fn asset_type_accepts_equity_as_stock_and_keeps_rejected_text() {
    assert_eq!("Equity".parse::<AssetType>(), Ok(AssetType::Stock));
    assert_eq!(
        "bond".parse::<AssetType>(),
        Err(AssetError::UnknownAssetType("bond".to_string()))
    );
}

#[test]
fn asset_type_labels_round_trip() {
    assert_eq!(AssetType::Stock.label(), "Stock");
    assert_eq!(AssetType::Etf.label(), "ETF");
    for t in [AssetType::Stock, AssetType::Etf] {
        assert_eq!(t.label().parse::<AssetType>(), Ok(t));
    }
}

#[test]
fn ticker_keeps_its_text() {
    let t = Ticker::new("VWCE");
    assert_eq!(t.as_str(), "VWCE");
    assert_eq!(apple().ticker().as_str(), "AAPL");
    assert_eq!(apple().name(), "Apple Inc.");
    assert_eq!(apple().exchange(), "NASDAQ");
    assert_eq!(apple().currency(), Currency::Usd);
    assert_eq!(apple().asset_type(), AssetType::Stock);
}

#[test]
fn asset_error_messages_quote_the_text() {
    assert_eq!(
        AssetError::UnknownCurrency("XYZ".to_string()).message(),
        "unknown currency code: XYZ"
    );
    assert_eq!(
        AssetError::UnknownAssetType("bond".to_string()).message(),
        "unknown asset type: bond"
    );
}

#[test]
fn an_asset_survives_a_round_trip_through_its_record() {
    let asset = apple().with_classification(Some("Technology".to_string()), None, Some("US".to_string()));
    let record = AssetRecord::from_asset(&asset);
    assert_eq!(record.currency, "USD");
    assert_eq!(record.asset_type, "Stock");
    assert_eq!(record.id, asset.id().to_string());
    assert_eq!(record.to_asset(), Ok(asset));
}

#[test]
fn an_asset_record_with_an_unknown_currency_is_rejected() {
    let mut record = AssetRecord::from_asset(&apple());
    record.currency = "XYZ".to_string();
    assert_eq!(record.to_asset(), Err("unknown currency code: XYZ".to_string()));

    let mut record = AssetRecord::from_asset(&apple());
    record.asset_type = "bond".to_string();
    assert_eq!(record.to_asset(), Err("unknown asset type: bond".to_string()));
}

#[test]
fn an_asset_prints_as_ticker_exchange_and_name() {
    assert_eq!(apple().to_string(), "AAPL (NASDAQ) — Apple Inc.");
}
