use sextant::{
    AssetId, Date, Decimal, InMemoryTransactionRepository, Repository, Transaction, TransactionId,
    TransactionType,
};

fn tx_on(asset: AssetId, day: u32) -> Transaction {
    Transaction::new(
        asset,
        Date::from_ymd_opt(2024, 1, day).unwrap(),
        TransactionType::buy(Decimal::new(1, 0), Decimal::new(10, 0)).unwrap(),
        None,
    )
    .unwrap()
}

#[test]
fn repository_save_then_find_by_id_round_trips() {
    let mut repo = InMemoryTransactionRepository::new();
    let tx = tx_on(AssetId::for_ticker("AAPL", "NASDAQ"), 1);

    let id = repo.save(tx.clone()).unwrap();

    assert_eq!(repo.find_by_id(&id).unwrap(), Some(tx));
}

#[test]
fn repository_find_by_id_returns_none_for_an_unknown_id() {
    let repo = InMemoryTransactionRepository::new();
    assert_eq!(repo.find_by_id(&TransactionId::new()).unwrap(), None);
}

#[test]
fn repository_delete_removes_the_transaction() {
    let mut repo = InMemoryTransactionRepository::new();
    let id = repo
        .save(tx_on(AssetId::for_ticker("AAPL", "NASDAQ"), 1))
        .unwrap();

    repo.delete(&id).unwrap();

    assert_eq!(repo.find_by_id(&id).unwrap(), None);
    assert!(repo.is_empty());
}

#[test]
fn deleting_an_absent_id_is_not_an_error() {
    let mut repo = InMemoryTransactionRepository::new();
    assert!(repo.delete(&TransactionId::new()).is_ok());
}

#[test]
fn repository_saving_the_same_id_twice_updates_rather_than_duplicates() {
    let mut repo = InMemoryTransactionRepository::new();
    let tx = tx_on(AssetId::for_ticker("AAPL", "NASDAQ"), 1);
    repo.save(tx.clone()).unwrap();
    repo.save(tx).unwrap();

    assert_eq!(repo.len(), 1);
}

#[test]
fn repository_find_all_returns_transactions_in_replay_order() {
    let mut repo = InMemoryTransactionRepository::new();
    let asset = AssetId::for_ticker("AAPL", "NASDAQ");
    let later = tx_on(asset, 20);
    let earlier = tx_on(asset, 2);

    repo.save(later.clone()).unwrap();
    repo.save(earlier.clone()).unwrap();

    assert_eq!(repo.find_all().unwrap(), vec![earlier, later]);
}

#[test]
fn deleting_one_transaction_keeps_the_others() {
    let mut repo = InMemoryTransactionRepository::default();
    let asset = AssetId::for_ticker("AAPL", "NASDAQ");
    let a = tx_on(asset, 1);
    let b = tx_on(asset, 2);
    let c = tx_on(asset, 3);
    repo.save(a.clone()).unwrap();
    repo.save(b.clone()).unwrap();
    repo.save(c.clone()).unwrap();

    repo.delete(&b.id()).unwrap();

    assert_eq!(repo.len(), 2);
    assert_eq!(repo.find_all().unwrap(), vec![a, c]);
}
