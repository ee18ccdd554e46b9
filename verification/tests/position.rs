use sextant::{AssetId, Decimal, Position, PositionValuation};

fn dec(mantissa: i64, scale: u32) -> Decimal {
    Decimal::new(mantissa, scale)
}

#[test]
fn cost_basis_is_derived_from_quantity_and_average_cost() {
    let position = Position::new(
        AssetId::for_ticker("AAPL", "NASDAQ"),
        dec(10, 0),
        dec(150, 0),
        Decimal::zero(),
    );
    assert_eq!(position.cost_basis(), dec(1500, 0));
}

#[test]
fn valuation_derives_market_value_and_unrealized_pnl() {
    let position = Position::new(
        AssetId::for_ticker("AAPL", "NASDAQ"),
        dec(10, 0),
        dec(150, 0),
        Decimal::zero(),
    );
    let valuation = PositionValuation::new(position, dec(210, 0));

    assert_eq!(valuation.market_value(), dec(2100, 0));
    assert_eq!(valuation.unrealized_pnl(), dec(600, 0));
}

#[test]
fn unrealized_pnl_is_negative_when_price_falls_below_cost() {
    let position = Position::new(
        AssetId::for_ticker("AAPL", "NASDAQ"),
        dec(10, 0),
        dec(150, 0),
        Decimal::zero(),
    );
    let valuation = PositionValuation::new(position, dec(120, 0));

    assert_eq!(valuation.unrealized_pnl(), dec(-300, 0));
}

#[test]
fn a_zero_quantity_position_is_not_open() {
    let closed = Position::new(
        AssetId::for_ticker("AAPL", "NASDAQ"),
        Decimal::zero(),
        Decimal::zero(),
        dec(500, 0),
    );
    assert!(!closed.is_open());
    assert_eq!(closed.realized_pnl(), dec(500, 0));
}

#[test]
fn decimals_compare_by_value() {
    assert_eq!(dec(200, 1), dec(20, 0));
    assert_ne!(dec(201, 1), dec(20, 0));
    assert_eq!(dec(-25, 1).to_string(), "-2.5");
    assert_eq!(Decimal::parse("99.99"), Ok(dec(9999, 2)));
}

#[test]
fn fractional_cost_basis_is_exact() {
    let position = Position::new(
        AssetId::for_ticker("AAPL", "NASDAQ"),
        dec(25, 1),
        dec(9999, 2),
        Decimal::zero(),
    );
    assert_eq!(position.cost_basis(), dec(249975, 3));
    assert_eq!(position.quantity(), dec(25, 1));
    assert_eq!(position.average_cost(), dec(9999, 2));
    assert!(position.is_open());
    let valuation = PositionValuation::new(position, dec(100, 0));
    assert_eq!(valuation.current_price(), dec(100, 0));
    assert_eq!(valuation.position().asset_id(), AssetId::for_ticker("AAPL", "NASDAQ"));
    assert_eq!(valuation.unrealized_pnl(), dec(25, 3));
}

#[test]
fn an_overflowing_cost_basis_is_reported() {
    let max = Decimal::from_i128_with_scale(79228162514264337593543950335, 0);
    assert!(Position::try_new(AssetId::new(), max, dec(2, 0), Decimal::zero()).is_none());
    assert!(Position::try_new(AssetId::new(), max, dec(1, 0), Decimal::zero()).is_some());
}

#[test]
fn fitting_products_are_exact_and_zero_is_plain() {
    let position = Position::try_new(AssetId::from_u128(1), dec(125, 2), dec(8, 1), dec(0, 0)).unwrap();
    assert_eq!((position.cost_basis().mantissa(), position.cost_basis().scale()), (1000, 3));
    let valued = PositionValuation::try_new(position, dec(12, 1)).unwrap();
    assert_eq!((valued.market_value().mantissa(), valued.market_value().scale()), (1500, 3));
    assert_eq!(valued.unrealized_pnl().to_string(), "0.500");
    let closed = Position::try_new(AssetId::from_u128(2), dec(0, 3), dec(5, 2), dec(0, 0)).unwrap();
    assert_eq!(closed.cost_basis().to_string(), "0");
}
