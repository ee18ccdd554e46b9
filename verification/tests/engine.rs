use sextant::{
    build_holdings, generate_snapshot, try_generate_snapshot, AssetId, AssetMap, Date, Decimal,
    EngineError, MarketData, PortfolioSnapshot, Timestamp, Transaction, TransactionType,
};

fn dec(mantissa: i64, scale: u32) -> Decimal {
    Decimal::new(mantissa, scale)
}

fn day(d: u32) -> Date {
    Date::from_ymd_opt(2024, 1, d).unwrap()
}

fn buy(asset: AssetId, d: u32, quantity: Decimal, price: Decimal) -> Transaction {
    Transaction::new(asset, day(d), TransactionType::buy(quantity, price).unwrap(), None).unwrap()
}

fn sell(asset: AssetId, d: u32, quantity: Decimal, price: Decimal) -> Transaction {
    Transaction::new(asset, day(d), TransactionType::sell(quantity, price).unwrap(), None).unwrap()
}

fn prices(entries: &[(AssetId, Decimal)]) -> AssetMap<MarketData> {
    let mut map = AssetMap::new();
    for (id, price) in entries {
        map.insert(*id, MarketData::new(*id, *price, Timestamp::now()));
    }
    map
}

// ---- cost basis ----

#[test]
fn single_buy_sets_average_cost_to_the_purchase_price() {
    let asset = AssetId::new();
    let holdings = build_holdings(&[buy(asset, 1, dec(10, 0), dec(150, 0))]).unwrap();
    let position = holdings.get(&asset).unwrap();

    assert_eq!(position.quantity(), dec(10, 0));
    assert_eq!(position.average_cost(), dec(150, 0));
    assert_eq!(position.cost_basis(), dec(1500, 0));
}

#[test]
fn repeated_buys_produce_a_weighted_average_cost() {
    let asset = AssetId::new();
    let holdings = build_holdings(&[
        buy(asset, 1, dec(10, 0), dec(100, 0)),
        buy(asset, 2, dec(30, 0), dec(200, 0)),
    ])
    .unwrap();
    let position = holdings.get(&asset).unwrap();

    assert_eq!(position.quantity(), dec(40, 0));
    assert_eq!(position.average_cost(), dec(175, 0));
    assert_eq!(position.cost_basis(), dec(7000, 0));
}

#[test]
fn a_sell_does_not_change_average_cost_of_the_remainder() {
    let asset = AssetId::new();
    let holdings = build_holdings(&[
        buy(asset, 1, dec(10, 0), dec(100, 0)),
        sell(asset, 2, dec(4, 0), dec(180, 0)),
    ])
    .unwrap();
    let position = holdings.get(&asset).unwrap();

    assert_eq!(position.quantity(), dec(6, 0));
    assert_eq!(position.average_cost(), dec(100, 0));
    assert_eq!(position.cost_basis(), dec(600, 0));
}

#[test]
fn a_full_exit_resets_average_cost_and_starts_a_fresh_cycle() {
    let asset = AssetId::new();
    let holdings = build_holdings(&[
        buy(asset, 1, dec(10, 0), dec(100, 0)),
        sell(asset, 2, dec(10, 0), dec(180, 0)),
        buy(asset, 3, dec(5, 0), dec(50, 0)),
    ])
    .unwrap();
    let position = holdings.get(&asset).unwrap();

    assert_eq!(position.average_cost(), dec(50, 0));
    assert_eq!(position.quantity(), dec(5, 0));
    assert_eq!(position.cost_basis(), dec(250, 0));
}

// ---- realized P&L ----

#[test]
fn realized_pnl_is_gain_over_average_cost_times_quantity_sold() {
    let asset = AssetId::new();
    let holdings = build_holdings(&[
        buy(asset, 1, dec(10, 0), dec(100, 0)),
        sell(asset, 2, dec(4, 0), dec(180, 0)),
    ])
    .unwrap();

    assert_eq!(holdings.get(&asset).unwrap().realized_pnl(), dec(320, 0));
}

#[test]
fn realized_pnl_can_be_negative() {
    let asset = AssetId::new();
    let holdings = build_holdings(&[
        buy(asset, 1, dec(10, 0), dec(100, 0)),
        sell(asset, 2, dec(10, 0), dec(60, 0)),
    ])
    .unwrap();

    assert_eq!(holdings.get(&asset).unwrap().realized_pnl(), dec(-400, 0));
}

#[test]
fn realized_pnl_accumulates_across_close_and_reopen_cycles() {
    let asset = AssetId::new();
    let holdings = build_holdings(&[
        buy(asset, 1, dec(10, 0), dec(100, 0)),
        sell(asset, 2, dec(10, 0), dec(150, 0)),
        buy(asset, 3, dec(10, 0), dec(200, 0)),
        sell(asset, 4, dec(10, 0), dec(250, 0)),
    ])
    .unwrap();

    assert_eq!(holdings.get(&asset).unwrap().realized_pnl(), dec(1000, 0));
    assert!(!holdings.get(&asset).unwrap().is_open());
}

// ---- oversell guard ----

#[test]
fn selling_more_than_held_is_rejected() {
    let asset = AssetId::new();
    let result = build_holdings(&[
        buy(asset, 1, dec(5, 0), dec(100, 0)),
        sell(asset, 2, dec(10, 0), dec(150, 0)),
    ]);

    assert_eq!(
        result,
        Err(EngineError::OversoldAsset {
            asset_id: asset,
            held: dec(5, 0),
            attempted: dec(10, 0),
        })
    );
}

#[test]
fn selling_with_nothing_held_is_rejected() {
    let asset = AssetId::new();
    let result = build_holdings(&[sell(asset, 1, dec(1, 0), dec(100, 0))]);

    assert!(matches!(result, Err(EngineError::OversoldAsset { .. })));
}

// ---- holdings aggregation ----

#[test]
fn holdings_are_grouped_per_asset() {
    let apple = AssetId::new();
    let msft = AssetId::new();
    let holdings = build_holdings(&[
        buy(apple, 1, dec(10, 0), dec(100, 0)),
        buy(msft, 1, dec(5, 0), dec(200, 0)),
        sell(apple, 2, dec(4, 0), dec(120, 0)),
    ])
    .unwrap();

    assert_eq!(holdings.len(), 2);
    assert_eq!(holdings.get(&apple).unwrap().quantity(), dec(6, 0));
    assert_eq!(holdings.get(&msft).unwrap().quantity(), dec(5, 0));
}

#[test]
fn build_holdings_retains_fully_closed_assets() {
    let asset = AssetId::new();
    let holdings = build_holdings(&[
        buy(asset, 1, dec(10, 0), dec(100, 0)),
        sell(asset, 2, dec(10, 0), dec(150, 0)),
    ])
    .unwrap();

    assert_eq!(holdings.len(), 1);
    assert!(!holdings.get(&asset).unwrap().is_open());
    assert_eq!(holdings.get(&asset).unwrap().realized_pnl(), dec(500, 0));
}

#[test]
fn an_empty_history_produces_no_holdings() {
    assert!(build_holdings(&[]).unwrap().is_empty());
}

// ---- snapshot ----

#[test]
fn snapshot_sums_totals_across_open_positions() {
    let apple = AssetId::new();
    let msft = AssetId::new();
    let transactions = [buy(apple, 1, dec(10, 0), dec(100, 0)), buy(msft, 1, dec(5, 0), dec(200, 0))];
    let market = prices(&[(apple, dec(150, 0)), (msft, dec(180, 0))]);

    let snapshot = generate_snapshot(&transactions, &market).unwrap();

    assert_eq!(snapshot.positions().len(), 2);
    assert_eq!(snapshot.total_market_value(), dec(2400, 0));
    assert_eq!(snapshot.total_cost_basis(), dec(2000, 0));
    assert_eq!(snapshot.total_unrealized_pnl(), dec(400, 0));
    assert_eq!(snapshot.total_realized_pnl(), Decimal::zero());
}

#[test]
fn a_fully_exited_asset_is_dropped_from_positions() {
    let apple = AssetId::new();
    let msft = AssetId::new();
    let transactions = [
        buy(apple, 1, dec(10, 0), dec(100, 0)),
        sell(apple, 2, dec(10, 0), dec(150, 0)),
        buy(msft, 1, dec(5, 0), dec(200, 0)),
    ];
    let market = prices(&[(msft, dec(220, 0))]);

    let snapshot = generate_snapshot(&transactions, &market).unwrap();

    assert_eq!(snapshot.positions().len(), 1);
    assert_eq!(snapshot.positions()[0].position().asset_id(), msft);
}

#[test]
fn realized_pnl_of_a_closed_asset_survives_in_the_totals() {
    let apple = AssetId::new();
    let msft = AssetId::new();
    let transactions = [
        buy(apple, 1, dec(10, 0), dec(100, 0)),
        sell(apple, 2, dec(10, 0), dec(150, 0)),
        buy(msft, 1, dec(5, 0), dec(200, 0)),
    ];
    let market = prices(&[(msft, dec(220, 0))]);

    let snapshot = generate_snapshot(&transactions, &market).unwrap();

    assert!(snapshot.positions().iter().all(|p| p.position().asset_id() != apple));
    assert_eq!(snapshot.total_realized_pnl(), dec(500, 0));
    assert_eq!(snapshot.total_unrealized_pnl(), dec(100, 0));
    assert_eq!(snapshot.total_pnl(), dec(600, 0));
}

#[test]
fn a_closed_asset_does_not_require_market_data() {
    let asset = AssetId::new();
    let transactions = [
        buy(asset, 1, dec(10, 0), dec(100, 0)),
        sell(asset, 2, dec(10, 0), dec(150, 0)),
    ];
    let market = AssetMap::new();

    let snapshot = generate_snapshot(&transactions, &market).unwrap();

    assert!(snapshot.is_empty());
    assert_eq!(snapshot.total_realized_pnl(), dec(500, 0));
}

#[test]
fn a_held_asset_without_market_data_fails_loud() {
    let asset = AssetId::new();
    let transactions = [buy(asset, 1, dec(1, 0), dec(1, 0))];

    let result = generate_snapshot(&transactions, &AssetMap::new());

    assert_eq!(result, Err(EngineError::MissingMarketData(asset)));
}

#[test]
fn an_empty_history_produces_an_empty_snapshot() {
    let snapshot = generate_snapshot(&[], &AssetMap::new()).unwrap();

    assert!(snapshot.is_empty());
    assert_eq!(snapshot.total_market_value(), Decimal::zero());
    assert_eq!(snapshot.total_cost_basis(), Decimal::zero());
    assert_eq!(snapshot.total_realized_pnl(), Decimal::zero());
    assert_eq!(snapshot.total_unrealized_pnl(), Decimal::zero());
}

#[test]
fn positions_come_out_in_a_stable_order() {
    let a = AssetId::new();
    let b = AssetId::new();
    let transactions = [buy(a, 1, dec(1, 0), dec(10, 0)), buy(b, 1, dec(1, 0), dec(10, 0))];
    let market = prices(&[(a, dec(10, 0)), (b, dec(10, 0))]);

    let first = generate_snapshot(&transactions, &market).unwrap();
    let second = generate_snapshot(&transactions, &market).unwrap();

    let ids = |s: &PortfolioSnapshot| -> Vec<AssetId> {
        s.positions().iter().map(|p| p.position().asset_id()).collect()
    };
    assert_eq!(ids(&first), ids(&second));
    assert_eq!(ids(&first), {
        let mut v = vec![a, b];
        v.sort();
        v
    });
}

#[test]
fn the_engine_is_deterministic_for_the_same_inputs() {
    let asset = AssetId::new();
    let transactions = [
        buy(asset, 1, dec(10, 0), dec(100, 0)),
        sell(asset, 2, dec(3, 0), dec(140, 0)),
    ];
    let market = prices(&[(asset, dec(160, 0))]);

    let a = generate_snapshot(&transactions, &market).unwrap();
    let b = generate_snapshot(&transactions, &market).unwrap();

    assert_eq!(a.total_market_value(), b.total_market_value());
    assert_eq!(a.total_cost_basis(), b.total_cost_basis());
    assert_eq!(a.total_realized_pnl(), b.total_realized_pnl());
    assert_eq!(a.total_unrealized_pnl(), b.total_unrealized_pnl());
}

// ---- further cases ----

#[test]
fn a_weighted_average_with_a_repeating_fraction_is_rounded_by_the_decimal_type() {
    let asset = AssetId::new();
    let holdings = build_holdings(&[
        buy(asset, 1, dec(1, 0), dec(1, 0)),
        buy(asset, 2, dec(2, 0), dec(2, 0)),
    ])
    .unwrap();
    let position = holdings.get(&asset).unwrap();
    // (1*1 + 2*2) / 3 = 5/3, to 28 digits.
    assert_eq!(position.average_cost().to_string(), "1.6666666666666666666666666667");
    assert_eq!(position.quantity(), dec(3, 0));
}

#[test]
fn the_oversold_asset_is_reported_with_what_was_held() {
    let apple = AssetId::for_ticker("AAPL", "NASDAQ");
    let result = build_holdings(&[
        buy(apple, 1, dec(3, 0), dec(10, 0)),
        sell(apple, 2, dec(2, 0), dec(10, 0)),
        sell(apple, 3, dec(2, 0), dec(10, 0)),
    ]);
    assert_eq!(
        result.err(),
        Some(EngineError::OversoldAsset { asset_id: apple, held: dec(1, 0), attempted: dec(2, 0) })
    );
}

#[test]
fn an_oversold_asset_is_reported_before_a_missing_price() {
    let apple = AssetId::new();
    let msft = AssetId::new();
    let result = generate_snapshot(
        &[buy(msft, 1, dec(1, 0), dec(1, 0)), sell(apple, 1, dec(1, 0), dec(1, 0))],
        &AssetMap::new(),
    );
    assert!(matches!(result, Err(EngineError::OversoldAsset { .. })));
}

#[test]
fn overflowing_figures_are_reported_as_none() {
    let asset = AssetId::new();
    let huge = Decimal::from_i128_with_scale(79228162514264337593543950335, 0);
    let transactions = [buy(asset, 1, huge, dec(2, 0))];
    let market = prices(&[(asset, dec(1, 0))]);
    assert!(try_generate_snapshot(&transactions, &market).is_none());

    let transactions = [buy(asset, 1, dec(2, 0), dec(3, 0))];
    let market = prices(&[(asset, dec(5, 0))]);
    let snapshot = try_generate_snapshot(&transactions, &market).unwrap().unwrap();
    assert_eq!(snapshot.total_market_value(), dec(10, 0));
    assert_eq!(snapshot.checked_total_pnl(), Some(dec(4, 0)));
}

#[test]
fn engine_error_messages_name_the_asset() {
    let asset = AssetId::from_u128(1);
    assert_eq!(
        EngineError::MissingMarketData(asset).message(),
        "no market data available for asset 00000000-0000-0000-0000-000000000001"
    );
    assert_eq!(
        EngineError::OversoldAsset { asset_id: asset, held: dec(5, 0), attempted: dec(105, 1) }
            .message(),
        "asset 00000000-0000-0000-0000-000000000001 oversold: tried to sell 10.5 with only 5 held"
    );
}
