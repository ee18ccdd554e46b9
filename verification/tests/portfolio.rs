use sextant::{AssetId, Date, Decimal, Portfolio, PortfolioId, Transaction, TransactionType};

fn day(day: u32) -> Date {
    Date::from_ymd_opt(2024, 1, day).unwrap()
}

fn buy_on(asset: AssetId, d: Date) -> Transaction {
    Transaction::new(
        asset,
        d,
        TransactionType::buy(Decimal::new(10, 0), Decimal::new(100, 0)).unwrap(),
        None,
    )
    .unwrap()
}

#[test]
fn a_new_portfolio_has_no_transactions() {
    let portfolio = Portfolio::new(PortfolioId::new(), "Retirement");
    assert!(portfolio.is_empty());
    assert_eq!(portfolio.transaction_count(), 0);
    assert_eq!(portfolio.name(), "Retirement");
}

#[test]
fn apply_transaction_appends_to_the_ledger() {
    let mut portfolio = Portfolio::new(PortfolioId::new(), "Retirement");
    let tx = buy_on(AssetId::new(), day(1));

    portfolio.apply_transaction(tx.clone());

    assert_eq!(portfolio.transactions(), &[tx]);
}

#[test]
fn apply_transaction_preserves_insertion_order() {
    let mut portfolio = Portfolio::new(PortfolioId::new(), "Retirement");
    let asset = AssetId::new();
    let first = buy_on(asset, day(1));
    let second = buy_on(asset, day(2));

    portfolio.apply_transaction(first.clone());
    portfolio.apply_transaction(second.clone());

    assert_eq!(portfolio.transactions(), &[first, second]);
}

#[test]
fn sort_transactions_puts_a_backfilled_trade_back_in_date_order() {
    let mut portfolio = Portfolio::new(PortfolioId::new(), "Retirement");
    let asset = AssetId::new();
    let later = buy_on(asset, day(20));
    let backfilled = buy_on(asset, day(2));

    portfolio.apply_transaction(later.clone());
    portfolio.apply_transaction(backfilled.clone());
    portfolio.sort_transactions();

    assert_eq!(portfolio.transactions(), &[backfilled, later]);
}

#[test]
fn sorting_orders_same_day_trades_by_id() {
    let mut portfolio = Portfolio::new(PortfolioId::new(), "Retirement");
    let asset = AssetId::new();
    let first = buy_on(asset, day(3));
    let second = buy_on(asset, day(3));
    let earliest = buy_on(asset, day(1));

    portfolio.apply_transaction(second.clone());
    portfolio.apply_transaction(first.clone());
    portfolio.apply_transaction(earliest.clone());
    portfolio.sort_transactions();

    assert_eq!(portfolio.transactions(), &[earliest, first, second]);
    assert_eq!(portfolio.transaction_count(), 3);
}
