use sextant::{
    AssetId, Decimal, DynamicPortfolioEngine, MarketDataError, MarketDataProvider, MockProvider,
    StaticPortfolioEngine,
};

#[test]
fn static_and_dynamic_engines_agree_on_price() {
    let asset = AssetId::for_ticker("AAPL", "NASDAQ");

    let static_engine =
        StaticPortfolioEngine::new(MockProvider::new().with_price(asset, Decimal::new(42, 0)));
    let dynamic_engine = DynamicPortfolioEngine::new(Box::new(
        MockProvider::new().with_price(asset, Decimal::new(42, 0)),
    ));

    assert_eq!(static_engine.latest_price(&asset), Ok(Decimal::new(42, 0)));
    assert_eq!(dynamic_engine.latest_price(&asset), Ok(Decimal::new(42, 0)));
}

#[test]
fn only_dynamic_dispatch_lets_one_collection_hold_mixed_provider_types() {
    struct AlwaysZeroProvider;
    impl MarketDataProvider for AlwaysZeroProvider {
        fn price(&self, _asset_id: &AssetId) -> Result<Decimal, MarketDataError> {
            Ok(Decimal::zero())
        }
    }

    let asset = AssetId::for_ticker("AAPL", "NASDAQ");
    let providers: Vec<Box<dyn MarketDataProvider>> = vec![
        Box::new(MockProvider::new().with_price(asset, Decimal::new(10, 0))),
        Box::new(AlwaysZeroProvider),
    ];

    let prices: Vec<Decimal> = providers.iter().map(|p| p.price(&asset).unwrap()).collect();

    assert_eq!(prices, vec![Decimal::new(10, 0), Decimal::zero()]);
}

#[test]
fn a_missing_price_propagates_through_both_dispatch_styles() {
    let missing = AssetId::for_ticker("MISSING", "TEST");

    let static_engine = StaticPortfolioEngine::new(MockProvider::new());
    let dynamic_engine = DynamicPortfolioEngine::new(Box::new(MockProvider::new()));

    assert_eq!(
        static_engine.latest_price(&missing),
        Err(MarketDataError::NotFound(missing))
    );
    assert_eq!(
        dynamic_engine.latest_price(&missing),
        Err(MarketDataError::NotFound(missing))
    );
}
