use sextant::{AssetId, PortfolioId, TransactionId};

#[test]
fn transaction_ids_are_time_ordered() {
    let ids: Vec<TransactionId> = (0..1_000).map(|_| TransactionId::new()).collect();

    for pair in ids.windows(2) {
        assert!(
            pair[0] < pair[1],
            "ids must be strictly increasing in creation order, got {} then {}",
            pair[0].to_string(),
            pair[1].to_string()
        );
    }
}

#[test]
fn asset_id_round_trips_through_its_string_form() {
    let id = AssetId::new();
    assert_eq!(id.to_string().parse::<AssetId>().unwrap(), id);
}

#[test]
fn for_ticker_is_deterministic() {
    assert_eq!(
        AssetId::for_ticker("AAPL", "NASDAQ"),
        AssetId::for_ticker("AAPL", "NASDAQ")
    );
}

#[test]
fn for_ticker_distinguishes_the_same_ticker_across_exchanges() {
    assert_ne!(
        AssetId::for_ticker("BP", "LSE"),
        AssetId::for_ticker("BP", "NYSE")
    );
}

#[test]
fn ids_of_different_kinds_are_distinct_types() {
    let asset = AssetId::new();
    let transaction = TransactionId::new();
    assert_ne!(asset.to_string(), transaction.to_string());
}

#[test]
fn ids_print_in_hyphenated_lowercase() {
    let id = AssetId::from_u128(0x73d9f46c_e2d4_459f_b1f1_2642f68be42b);
    assert_eq!(id.to_string(), "73d9f46c-e2d4-459f-b1f1-2642f68be42b");
    assert_eq!(id.as_u128(), 0x73d9f46c_e2d4_459f_b1f1_2642f68be42b);
    assert_eq!(PortfolioId::from_u128(1).to_string(), "00000000-0000-0000-0000-000000000001");
}

#[test]
fn for_ticker_derives_the_v5_uuid_of_ticker_colon_exchange() {
    // The v5 UUID of "AAPL:NASDAQ" in the asset namespace, as the uuid crate computes it.
    let expected = uuid::Uuid::new_v5(
        &uuid::Uuid::from_u128(0x73d9f46c_e2d4_459f_b1f1_2642f68be42b),
        b"AAPL:NASDAQ",
    );
    assert_eq!(AssetId::for_ticker("AAPL", "NASDAQ").as_u128(), expected.as_u128());
}

#[test]
fn garbage_is_not_an_id() {
    assert!("not-a-uuid".parse::<AssetId>().is_err());
    assert!(TransactionId::parse("").is_err());
}

#[test]
fn fresh_ids_carry_the_v7_version_and_variant() {
    for value in [
        AssetId::new().as_u128(),
        PortfolioId::new().as_u128(),
        TransactionId::new().as_u128(),
    ] {
        assert_eq!((value >> 76) & 0xf, 7);
        assert_eq!((value >> 62) & 0x3, 2);
    }
}
