//! Integration tests: the public API only.

use std::collections::HashSet;

use sextant::{
    generate_snapshot, AssetId, AssetMap, Date, Decimal, EngineError, InMemoryTransactionRepository,
    MarketData, MarketDataError, MarketDataProvider, MockProvider, Portfolio, PortfolioId,
    Repository, Timestamp, Transaction, TransactionError, TransactionType,
};

fn dec(mantissa: i64, scale: u32) -> Decimal {
    Decimal::new(mantissa, scale)
}

fn day(d: u32) -> Date {
    Date::from_ymd_opt(2024, 1, d).unwrap()
}

fn buy(asset: AssetId, d: u32, quantity: Decimal, price: Decimal) -> Transaction {
    Transaction::new(asset, day(d), TransactionType::buy(quantity, price).unwrap(), None).unwrap()
}

fn sell(asset: AssetId, d: u32, quantity: Decimal, price: Decimal) -> Transaction {
    Transaction::new(asset, day(d), TransactionType::sell(quantity, price).unwrap(), None).unwrap()
}

fn prices(entries: &[(AssetId, Decimal)]) -> AssetMap<MarketData> {
    let mut map = AssetMap::new();
    for (id, price) in entries {
        map.insert(*id, MarketData::new(*id, *price, Timestamp::now()));
    }
    map
}

#[test]
fn a_full_portfolio_lifecycle_produces_the_expected_snapshot() {
    let apple = AssetId::new();
    let etf = AssetId::new();

    let mut portfolio = Portfolio::new(PortfolioId::new(), "Retirement");
    portfolio.apply_transaction(buy(apple, 1, dec(10, 0), dec(150, 0)));
    portfolio.apply_transaction(buy(etf, 2, dec(20, 0), dec(100, 0)));
    portfolio.apply_transaction(sell(apple, 3, dec(4, 0), dec(180, 0)));

    let market = prices(&[(apple, dec(210, 0)), (etf, dec(110, 0))]);
    let snapshot = generate_snapshot(portfolio.transactions(), &market).unwrap();

    assert_eq!(snapshot.positions().len(), 2);
    assert_eq!(snapshot.total_cost_basis(), dec(2900, 0));
    assert_eq!(snapshot.total_market_value(), dec(3460, 0));
    assert_eq!(snapshot.total_realized_pnl(), dec(120, 0));
    assert_eq!(snapshot.total_unrealized_pnl(), dec(560, 0));
    assert_eq!(snapshot.total_pnl(), dec(680, 0));
}

#[test]
fn closing_a_position_keeps_its_realized_pnl_but_drops_its_holding() {
    let apple = AssetId::new();
    let etf = AssetId::new();

    let mut portfolio = Portfolio::new(PortfolioId::new(), "Retirement");
    portfolio.apply_transaction(buy(apple, 1, dec(10, 0), dec(100, 0)));
    portfolio.apply_transaction(sell(apple, 2, dec(10, 0), dec(150, 0)));
    portfolio.apply_transaction(buy(etf, 3, dec(5, 0), dec(200, 0)));

    let market = prices(&[(etf, dec(220, 0))]);
    let snapshot = generate_snapshot(portfolio.transactions(), &market).unwrap();

    assert_eq!(snapshot.positions().len(), 1);
    assert_eq!(snapshot.positions()[0].position().asset_id(), etf);
    assert_eq!(snapshot.total_realized_pnl(), dec(500, 0));
}

#[test]
fn a_missing_price_for_a_held_asset_is_reported_loudly() {
    let apple = AssetId::new();
    let mut portfolio = Portfolio::new(PortfolioId::new(), "Retirement");
    portfolio.apply_transaction(buy(apple, 1, dec(10, 0), dec(150, 0)));

    let result = generate_snapshot(portfolio.transactions(), &AssetMap::new());

    assert_eq!(result, Err(EngineError::MissingMarketData(apple)));
}

#[test]
fn overselling_an_asset_is_rejected() {
    let apple = AssetId::new();
    let mut portfolio = Portfolio::new(PortfolioId::new(), "Retirement");
    portfolio.apply_transaction(buy(apple, 1, dec(5, 0), dec(150, 0)));
    portfolio.apply_transaction(sell(apple, 2, dec(6, 0), dec(180, 0)));

    let market = prices(&[(apple, dec(210, 0))]);
    let result = generate_snapshot(portfolio.transactions(), &market);

    assert!(matches!(result, Err(EngineError::OversoldAsset { .. })));
}

#[test]
fn invalid_transactions_are_rejected_at_construction() {
    let apple = AssetId::new();

    assert_eq!(
        Transaction::new(
            apple,
            day(1),
            TransactionType::Buy {
                quantity: Decimal::zero(),
                price: dec(100, 0),
            },
            None,
        ),
        Err(TransactionError::NonPositiveQuantity)
    );
}

#[test]
fn an_empty_portfolio_snapshots_cleanly() {
    let portfolio = Portfolio::new(PortfolioId::new(), "Empty");
    let snapshot = generate_snapshot(portfolio.transactions(), &AssetMap::new()).unwrap();

    assert!(snapshot.is_empty());
    assert_eq!(snapshot.total_pnl(), Decimal::zero());
}

#[test]
fn out_of_order_entry_is_normalized_before_replay() {
    let apple = AssetId::new();

    let mut in_order = Portfolio::new(PortfolioId::new(), "A");
    in_order.apply_transaction(buy(apple, 1, dec(10, 0), dec(100, 0)));
    in_order.apply_transaction(buy(apple, 2, dec(10, 0), dec(200, 0)));
    in_order.apply_transaction(sell(apple, 3, dec(5, 0), dec(300, 0)));

    let mut backfilled = Portfolio::new(PortfolioId::new(), "B");
    backfilled.apply_transaction(buy(apple, 2, dec(10, 0), dec(200, 0)));
    backfilled.apply_transaction(sell(apple, 3, dec(5, 0), dec(300, 0)));
    backfilled.apply_transaction(buy(apple, 1, dec(10, 0), dec(100, 0)));
    backfilled.sort_transactions();

    let market = prices(&[(apple, dec(250, 0))]);
    let a = generate_snapshot(in_order.transactions(), &market).unwrap();
    let b = generate_snapshot(backfilled.transactions(), &market).unwrap();

    assert_eq!(a.total_cost_basis(), b.total_cost_basis());
    assert_eq!(a.total_realized_pnl(), b.total_realized_pnl());
    assert_eq!(a.total_unrealized_pnl(), b.total_unrealized_pnl());
}

#[test]
fn transactions_survive_a_round_trip_through_the_repository() {
    let apple = AssetId::new();
    let mut repo = InMemoryTransactionRepository::new();

    repo.save(sell(apple, 5, dec(4, 0), dec(180, 0))).unwrap();
    repo.save(buy(apple, 1, dec(10, 0), dec(150, 0))).unwrap();

    let history = repo.find_all().unwrap();
    let market = prices(&[(apple, dec(210, 0))]);
    let snapshot = generate_snapshot(&history, &market).unwrap();

    assert_eq!(snapshot.positions().len(), 1);
    assert_eq!(snapshot.total_realized_pnl(), dec(120, 0));
}

#[test]
fn a_provider_can_supply_the_prices_the_engine_needs() {
    let apple = AssetId::new();
    let provider = MockProvider::new().with_price(apple, dec(210, 0));

    let mut portfolio = Portfolio::new(PortfolioId::new(), "Retirement");
    portfolio.apply_transaction(buy(apple, 1, dec(10, 0), dec(150, 0)));

    let ids: HashSet<AssetId> = portfolio.transactions().iter().map(|tx| tx.asset_id()).collect();
    let mut market = AssetMap::new();
    for id in ids {
        let price: Result<Decimal, MarketDataError> = provider.price(&id);
        market.insert(id, MarketData::new(id, price.unwrap(), Timestamp::now()));
    }

    let snapshot = generate_snapshot(portfolio.transactions(), &market).unwrap();

    assert_eq!(snapshot.total_market_value(), dec(2100, 0));
}
