use sextant::{AssetId, Date, Decimal, Transaction, TransactionError, TransactionRecord, TransactionType};

fn dec(mantissa: i64, scale: u32) -> Decimal {
    Decimal::new(mantissa, scale)
}

fn date() -> Date {
    Date::from_ymd_opt(2024, 1, 15).unwrap()
}

#[test]
fn buy_rejects_non_positive_quantity() {
    assert_eq!(
        TransactionType::buy(Decimal::zero(), dec(100, 0)),
        Err(TransactionError::NonPositiveQuantity)
    );
    assert_eq!(
        TransactionType::buy(dec(-5, 0), dec(100, 0)),
        Err(TransactionError::NonPositiveQuantity)
    );
}

#[test]
fn buy_rejects_non_positive_price() {
    assert_eq!(
        TransactionType::buy(dec(10, 0), Decimal::zero()),
        Err(TransactionError::NonPositivePrice)
    );
}

#[test]
fn sell_applies_the_same_validation_as_buy() {
    assert_eq!(
        TransactionType::sell(dec(-1, 0), dec(100, 0)),
        Err(TransactionError::NonPositiveQuantity)
    );
    assert_eq!(
        TransactionType::sell(dec(1, 0), dec(-100, 0)),
        Err(TransactionError::NonPositivePrice)
    );
}

#[test]
fn new_propagates_validation_failures() {
    let bad = TransactionType::Buy {
        quantity: Decimal::zero(),
        price: dec(100, 0),
    };
    assert_eq!(
        Transaction::new(AssetId::new(), date(), bad, None),
        Err(TransactionError::NonPositiveQuantity)
    );
}

#[test]
fn new_builds_a_valid_transaction() {
    let asset = AssetId::new();
    let tx = Transaction::new(
        asset,
        date(),
        TransactionType::buy(dec(10, 0), dec(150, 0)).unwrap(),
        Some("initial position".to_string()),
    )
    .unwrap();

    assert_eq!(tx.asset_id(), asset);
    assert_eq!(tx.date(), date());
    assert_eq!(tx.notes(), Some("initial position"));
}

#[test]
fn same_day_transactions_order_by_creation_time() {
    let asset = AssetId::new();
    let transactions: Vec<Transaction> = (0..100)
        .map(|_| {
            Transaction::new(
                asset,
                date(),
                TransactionType::buy(dec(1, 0), dec(1, 0)).unwrap(),
                None,
            )
            .unwrap()
        })
        .collect();

    for pair in transactions.windows(2) {
        assert!(pair[0].ordering_key() < pair[1].ordering_key());
    }
}

#[test]
fn sorting_by_ordering_key_recovers_creation_order() {
    let asset = AssetId::new();
    let in_order: Vec<Transaction> = (0..50)
        .map(|_| {
            Transaction::new(
                asset,
                date(),
                TransactionType::buy(dec(1, 0), dec(1, 0)).unwrap(),
                None,
            )
            .unwrap()
        })
        .collect();

    let mut shuffled = in_order.clone();
    shuffled.reverse();
    shuffled.sort_by_key(|tx| tx.ordering_key());

    assert_eq!(shuffled, in_order);
}

#[test]
fn validation_checks_quantity_before_price() {
    assert_eq!(
        TransactionType::sell(Decimal::zero(), Decimal::zero()),
        Err(TransactionError::NonPositiveQuantity)
    );
    assert_eq!(
        TransactionType::buy(dec(25, 1), dec(9999, 2)),
        Ok(TransactionType::Buy { quantity: dec(25, 1), price: dec(9999, 2) })
    );
}

#[test]
fn transaction_error_messages() {
    assert_eq!(TransactionError::NonPositiveQuantity.message(), "quantity must be positive");
    assert_eq!(TransactionError::NonPositivePrice.message(), "price must be positive");
}

#[test]
fn invalid_calendar_days_are_rejected() {
    assert!(Date::from_ymd_opt(2024, 2, 29).is_some());
    assert!(Date::from_ymd_opt(2023, 2, 29).is_none());
    assert!(Date::from_ymd_opt(2024, 13, 1).is_none());
    assert!(Date::from_ymd_opt(2024, 4, 31).is_none());
    assert_eq!(Date::from_ymd_opt(2024, 1, 5).unwrap().to_string(), "2024-01-05");
    assert!(Date::from_ymd_opt(2024, 1, 5).unwrap().is_before(&date()));
}

#[test]
fn sell_transaction_and_notes_round_trip() {
    let tx = Transaction::new(
        AssetId::for_ticker("AAPL", "NASDAQ"),
        Date::from_ymd_opt(2024, 3, 1).unwrap(),
        TransactionType::sell(dec(25, 1), dec(9999, 2)).unwrap(),
        Some("trimmed position".to_string()),
    )
    .unwrap();

    let record = TransactionRecord::from_transaction(&tx);
    assert_eq!(record.kind, "sell");
    assert_eq!(record.quantity, "2.5");
    assert_eq!(record.price, "99.99");
    assert_eq!(record.date, "2024-03-01");

    assert_eq!(record.to_transaction(), Ok(tx));
}

#[test]
fn a_record_with_an_unknown_kind_is_rejected() {
    let tx = Transaction::new(
        AssetId::for_ticker("AAPL", "NASDAQ"),
        date(),
        TransactionType::buy(dec(1, 0), dec(10, 0)).unwrap(),
        None,
    )
    .unwrap();
    let mut record = TransactionRecord::from_transaction(&tx);
    assert_eq!(record.kind, "buy");
    record.kind = "gift".to_string();
    assert_eq!(record.to_transaction(), Err("unknown kind: gift".to_string()));
}

#[test]
fn a_record_with_a_non_positive_quantity_is_rejected() {
    let tx = Transaction::new(
        AssetId::for_ticker("AAPL", "NASDAQ"),
        date(),
        TransactionType::buy(dec(1, 0), dec(10, 0)).unwrap(),
        None,
    )
    .unwrap();
    let mut record = TransactionRecord::from_transaction(&tx);
    record.quantity = "0".to_string();
    assert_eq!(record.to_transaction(), Err("quantity must be positive".to_string()));

    let mut record = TransactionRecord::from_transaction(&tx);
    record.price = "not a number".to_string();
    assert!(record.to_transaction().is_err());
}
