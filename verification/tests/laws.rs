use sextant::{
    report_label, Asset, Ticker, build_holdings, generate_snapshot, AssetId, AssetMap, AssetType, Currency, Date, Decimal,
    EngineError, InMemoryTransactionRepository, MarketData, Portfolio, PortfolioId, Repository,
    Timestamp, Transaction, TransactionRecord, TransactionType,
};

fn dec(mantissa: i64, scale: u32) -> Decimal {
    Decimal::new(mantissa, scale)
}

fn day(d: u32) -> Date {
    Date::from_ymd_opt(2024, 1, d).unwrap()
}

fn buy(asset: AssetId, d: u32, quantity: Decimal, price: Decimal) -> Transaction {
    Transaction::new(asset, day(d), TransactionType::buy(quantity, price).unwrap(), None).unwrap()
}

fn sell(asset: AssetId, d: u32, quantity: Decimal, price: Decimal) -> Transaction {
    Transaction::new(asset, day(d), TransactionType::sell(quantity, price).unwrap(), None).unwrap()
}

fn prices(entries: &[(AssetId, Decimal)]) -> AssetMap<MarketData> {
    let mut map = AssetMap::new();
    for (id, price) in entries {
        map.insert(*id, MarketData::new(*id, *price, Timestamp::now()));
    }
    map
}

#[test]
fn the_oversold_asset_with_the_smallest_id_is_reported() {
    let low = AssetId::from_u128(1);
    let high = AssetId::from_u128(2);
    let history = [
        sell(high, 1, dec(5, 0), dec(10, 0)),
        buy(low, 1, dec(1, 0), dec(10, 0)),
        sell(low, 2, dec(3, 0), dec(10, 0)),
    ];
    let expected =
        EngineError::OversoldAsset { asset_id: low, held: dec(1, 0), attempted: dec(3, 0) };
    assert_eq!(build_holdings(&history).err(), Some(expected.clone()));
    assert_eq!(build_holdings(&history).err(), Some(expected));
}

#[test]
fn the_first_unpriced_asset_in_id_order_is_reported() {
    let low = AssetId::from_u128(7);
    let high = AssetId::from_u128(9);
    let history = [buy(high, 1, dec(1, 0), dec(10, 0)), buy(low, 2, dec(1, 0), dec(10, 0))];
    let result = generate_snapshot(&history, &AssetMap::new());
    assert_eq!(result.err(), Some(EngineError::MissingMarketData(low)));
}

#[test]
fn building_holdings_twice_gives_the_same_holdings() {
    let a = AssetId::from_u128(3);
    let b = AssetId::from_u128(4);
    let history = [
        buy(b, 1, dec(2, 0), dec(50, 0)),
        buy(a, 1, dec(10, 0), dec(100, 0)),
        sell(a, 2, dec(10, 0), dec(120, 0)),
    ];
    assert_eq!(build_holdings(&history).unwrap(), build_holdings(&history).unwrap());
}

#[test]
fn a_snapshot_lists_only_open_positions_in_ascending_id_order() {
    let first = AssetId::from_u128(1);
    let closed = AssetId::from_u128(2);
    let last = AssetId::from_u128(3);
    let history = [
        buy(last, 1, dec(4, 0), dec(25, 0)),
        buy(closed, 1, dec(1, 0), dec(10, 0)),
        sell(closed, 2, dec(1, 0), dec(15, 0)),
        buy(first, 3, dec(2, 0), dec(5, 0)),
    ];
    let snapshot =
        generate_snapshot(&history, &prices(&[(first, dec(6, 0)), (last, dec(30, 0))])).unwrap();
    let ids: Vec<AssetId> =
        snapshot.positions().iter().map(|v| v.position().asset_id()).collect();
    assert_eq!(ids, vec![first, last]);
    assert!(snapshot.positions().iter().all(|v| v.position().is_open()));
    assert_eq!(snapshot.positions()[1].current_price(), dec(30, 0));
    assert_eq!(snapshot.total_realized_pnl(), dec(5, 0));

    let holdings = build_holdings(&history).unwrap();
    let held: Vec<AssetId> = holdings.positions().iter().map(|p| p.asset_id()).collect();
    assert_eq!(held, vec![first, closed, last]);
}

#[test]
fn ledgers_sorted_from_different_entry_orders_agree() {
    let asset = AssetId::for_ticker("AAPL", "NASDAQ");
    let early = buy(asset, 1, dec(1, 0), dec(10, 0));
    let same_day_a = buy(asset, 5, dec(2, 0), dec(11, 0));
    let same_day_b = sell(asset, 5, dec(1, 0), dec(12, 0));
    let late = buy(asset, 9, dec(3, 0), dec(13, 0));

    let mut one = Portfolio::new(PortfolioId::new(), "one");
    for t in [late.clone(), same_day_b.clone(), early.clone(), same_day_a.clone()] {
        one.apply_transaction(t);
    }
    let mut two = Portfolio::new(PortfolioId::new(), "two");
    for t in [same_day_a, early, late, same_day_b] {
        two.apply_transaction(t);
    }
    one.sort_transactions();
    two.sort_transactions();
    assert_eq!(one.transactions(), two.transactions());
}

#[test]
fn parsing_ignores_ascii_case() {
    assert_eq!(Currency::parse("chf"), Currency::parse("CHF"));
    assert_eq!(Currency::parse("cHf"), Ok(Currency::Chf));
    assert_eq!(AssetType::parse("ETF"), AssetType::parse("etf"));
    assert_eq!(AssetType::parse("EQUITY"), Ok(AssetType::Stock));
}

#[test]
fn repositories_filled_in_different_orders_list_the_same_history() {
    let asset = AssetId::for_ticker("VWCE", "XETRA");
    let entries = [
        buy(asset, 4, dec(1, 0), dec(100, 0)),
        buy(asset, 2, dec(2, 0), dec(90, 0)),
        sell(asset, 4, dec(1, 0), dec(110, 0)),
        buy(asset, 8, dec(5, 0), dec(95, 0)),
    ];
    let mut forward = InMemoryTransactionRepository::new();
    for t in entries.iter() {
        forward.save(t.clone()).unwrap();
    }
    let mut backward = InMemoryTransactionRepository::new();
    for t in entries.iter().rev() {
        backward.save(t.clone()).unwrap();
    }
    let listed = forward.find_all().unwrap();
    assert_eq!(listed, backward.find_all().unwrap());
    assert_eq!(listed[0], entries[1]);
    assert_eq!(listed[3], entries[3]);
}

#[test]
fn a_closed_position_holds_nothing_at_no_cost() {
    let asset = AssetId::from_u128(5);
    let holdings = build_holdings(&[
        buy(asset, 1, dec(3, 0), dec(20, 0)),
        sell(asset, 2, dec(15, 1), dec(30, 0)),
        sell(asset, 3, dec(15, 1), dec(25, 0)),
    ])
    .unwrap();
    let position = holdings.get(&asset).unwrap();
    assert!(!position.is_open());
    assert_eq!(position.quantity(), Decimal::zero());
    assert_eq!(position.average_cost(), Decimal::zero());
    assert_eq!(position.realized_pnl(), dec(225, 1));
}

#[test]
fn records_read_back_what_they_wrote_at_the_edges_of_the_types() {
    let widest = Decimal::from_i128_with_scale(79228162514264337593543950335, 28);
    let smallest = Decimal::from_i128_with_scale(1, 28);
    for date in [
        Date::from_ymd_opt(-44, 3, 15).unwrap(),
        Date::from_ymd_opt(12345, 6, 7).unwrap(),
        Date::from_ymd_opt(0, 2, 29).unwrap(),
        Date::from_ymd_opt(2024, 12, 31).unwrap(),
    ] {
        for (quantity, price) in [(widest, smallest), (dec(250, 2), dec(1000, 0))] {
            let tx = Transaction::new(
                AssetId::from_u128(u128::MAX),
                date,
                TransactionType::sell(quantity, price).unwrap(),
                Some("edge".to_string()),
            )
            .unwrap();
            let back = TransactionRecord::from_transaction(&tx).to_transaction().unwrap();
            assert_eq!(back, tx);
            assert_eq!(back.date(), date);
            let (q, p) = match back.transaction_type() {
                TransactionType::Sell { quantity, price } => (*quantity, *price),
                TransactionType::Buy { .. } => panic!("kind changed"),
            };
            assert_eq!((q.mantissa(), q.scale()), (quantity.mantissa(), quantity.scale()));
            assert_eq!((p.mantissa(), p.scale()), (price.mantissa(), price.scale()));
        }
    }
}

#[test]
fn sorting_keeps_same_key_entries_in_their_order_and_a_second_sort_changes_nothing() {
    let asset = AssetId::for_ticker("AAPL", "NASDAQ");
    let base = buy(asset, 3, dec(1, 0), dec(10, 0));
    let mut twin_record = TransactionRecord::from_transaction(&base);
    twin_record.quantity = "7".to_string();
    let twin = twin_record.to_transaction().unwrap();
    let earlier = buy(asset, 1, dec(2, 0), dec(9, 0));

    let mut portfolio = Portfolio::new(PortfolioId::new(), "stable");
    for t in [base.clone(), earlier.clone(), twin.clone()] {
        portfolio.apply_transaction(t);
    }
    portfolio.sort_transactions();
    assert_eq!(portfolio.transactions(), &[earlier.clone(), base.clone(), twin.clone()]);
    portfolio.sort_transactions();
    assert_eq!(portfolio.transactions(), &[earlier, base, twin]);
}

#[test]
fn report_lines_are_labelled_by_ticker_or_else_by_id() {
    let apple = Asset::new(
        Ticker::new("AAPL"),
        "Apple Inc.".to_string(),
        "NASDAQ".to_string(),
        Currency::Usd,
        AssetType::Stock,
    );
    let assets = [apple.clone()];
    assert_eq!(report_label(&assets, &apple.id()), "AAPL");
    let other = AssetId::from_u128(1);
    assert_eq!(report_label(&assets, &other), "00000000-0000-0000-0000-000000000001");
}

#[test]
fn snapshots_carry_the_time_they_were_taken() {
    let asset = AssetId::from_u128(11);
    let snapshot =
        generate_snapshot(&[buy(asset, 1, dec(1, 0), dec(2, 0))], &prices(&[(asset, dec(3, 0))]))
            .unwrap();
    assert!(snapshot.generated_at().unix_seconds() > 1_600_000_000);
    assert!(snapshot.generated_at().subsec_nanos() < 1_000_000_000);
}

#[test]
fn a_new_transaction_gets_a_fresh_v7_id() {
    let id = buy(AssetId::from_u128(2), 1, dec(1, 0), dec(1, 0)).id().as_u128();
    assert_eq!((id >> 76) & 0xf, 7);
    assert_eq!((id >> 62) & 0x3, 2);
}

#[test]
fn a_loss_too_small_to_hold_keeps_its_sign() {
    let asset = AssetId::from_u128(21);
    let lot = Decimal::from_i128_with_scale(4294967296, 28);
    let just_below_one = Decimal::from_i128_with_scale(9999999999999999999999999999, 28);
    let holdings = build_holdings(&[
        buy(asset, 1, lot, dec(1, 0)),
        sell(asset, 2, lot, just_below_one),
    ])
    .unwrap();
    let realized = holdings.get(&asset).unwrap().realized_pnl();
    assert_eq!(realized, Decimal::zero());
    assert_eq!(realized.to_string(), "-0.0000000000000000000000000000");
}

#[test]
fn the_quantity_held_is_what_was_bought_minus_what_was_sold() {
    let asset = AssetId::from_u128(31);
    let holdings = build_holdings(&[
        buy(asset, 1, dec(15, 1), dec(10, 0)),
        buy(asset, 2, dec(225, 2), dec(12, 0)),
        sell(asset, 3, dec(75, 2), dec(13, 0)),
    ])
    .unwrap();
    let quantity = holdings.get(&asset).unwrap().quantity();
    assert_eq!((quantity.mantissa(), quantity.scale()), (300, 2));
    assert_eq!(quantity.to_string(), "3.00");
}
