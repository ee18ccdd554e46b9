use sextant::{AssetId, AssetMap, Decimal, MarketData, MarketDataError, MarketDataProvider, MockProvider, Timestamp};

#[test]
fn returns_configured_price_for_known_asset() {
    let asset = AssetId::new();
    let provider = MockProvider::new().with_price(asset, Decimal::new(200, 1));

    assert_eq!(provider.price(&asset), Ok(Decimal::new(20, 0)));
}

#[test]
fn returns_not_found_for_unknown_asset() {
    let missing_asset = AssetId::new();
    let provider = MockProvider::new();

    assert_eq!(
        provider.price(&missing_asset),
        Err(MarketDataError::NotFound(missing_asset))
    );
}

#[test]
fn a_later_price_replaces_an_earlier_one() {
    let asset = AssetId::new();
    let provider = MockProvider::new()
        .with_price(asset, Decimal::new(1, 0))
        .with_price(asset, Decimal::new(2, 0));
    assert_eq!(provider.quote(&asset), Ok(Decimal::new(2, 0)));
}

#[test]
fn asset_map_insert_returns_the_replaced_value() {
    let a = AssetId::from_u128(1);
    let b = AssetId::from_u128(2);
    let at = Timestamp::from_unix(1_700_000_000, 0);
    let mut map = AssetMap::new();
    assert_eq!(map.insert(a, MarketData::new(a, Decimal::new(1, 0), at)), None);
    assert_eq!(map.insert(b, MarketData::new(b, Decimal::new(2, 0), at)), None);
    assert_eq!(
        map.insert(a, MarketData::new(a, Decimal::new(3, 0), at)),
        Some(MarketData::new(a, Decimal::new(1, 0), at))
    );
    assert_eq!(map.get(&a).map(|m| m.price), Some(Decimal::new(3, 0)));
    assert!(map.contains_key(&b));
    assert!(!map.contains_key(&AssetId::from_u128(3)));
}

#[test]
fn market_data_error_messages() {
    let asset = AssetId::from_u128(255);
    assert_eq!(
        MarketDataError::NotFound(asset).message(),
        "no market data available for asset 00000000-0000-0000-0000-0000000000ff"
    );
    assert_eq!(
        MarketDataError::FetchFailed { asset_id: asset, reason: "timeout".to_string() }.message(),
        "failed to fetch market data for asset 00000000-0000-0000-0000-0000000000ff: timeout"
    );
    assert_eq!(
        MarketDataError::ProviderUnavailable("offline".to_string()).message(),
        "market data provider unavailable: offline"
    );
}
