//! Holdings of a single asset, and their valuation at a market price.

use vstd::prelude::*;

use crate::decimal::{
    checked_mul, checked_sub, decimal_checked_mul, decimal_checked_sub, decimal_lt, exact_product,
    fits_at, product_fits, scaled, lemma_compare_with_zero, option_view, value_nonnegative, value_positive, zero_view, Decimal, DecimalView,
};
use crate::ids::AssetId;

verus! {

/// What a [`Position`] holds.
pub struct PositionView {
    pub asset_id: AssetId,
    pub quantity: DecimalView,
    pub average_cost: DecimalView,
    pub cost_basis: DecimalView,
    pub realized_pnl: DecimalView,
}

/// No position is short, and a position with nothing held carries no
/// average cost.
pub open spec fn position_sound(p: PositionView) -> bool {
    value_nonnegative(p.quantity) && (p.quantity.0 == 0 ==> p.average_cost == zero_view())
}

/// The position built from replayed totals: its cost basis is
/// `quantity * average_cost` (`None` when that product overflows).
pub open spec fn position_model(
    asset_id: AssetId,
    quantity: DecimalView,
    average_cost: DecimalView,
    realized_pnl: DecimalView,
) -> Option<PositionView> {
    match decimal_checked_mul(quantity, average_cost) {
        Some(cost_basis) => Some(
            PositionView { asset_id, quantity, average_cost, cost_basis, realized_pnl },
        ),
        None => None,
    }
}

/// Current ownership of one asset: how much is held, at what average cost,
/// and the profit or loss realized by selling it so far.
#[derive(Debug, Clone, Copy, PartialEq, Eq)]
pub struct Position {
    pub(crate) asset_id: AssetId,
    pub(crate) quantity: Decimal,
    pub(crate) average_cost: Decimal,
    pub(crate) cost_basis: Decimal,
    pub(crate) realized_pnl: Decimal,
}

impl Position {
    pub open(crate) spec fn view(&self) -> PositionView {
        PositionView {
            asset_id: self.asset_id,
            quantity: self.quantity@,
            average_cost: self.average_cost@,
            cost_basis: self.cost_basis@,
            realized_pnl: self.realized_pnl@,
        }
    }

    /// A position from replayed totals; the cost basis is computed here, so it
    /// always equals `quantity * average_cost`.
    pub fn new(
        asset_id: AssetId,
        quantity: Decimal,
        average_cost: Decimal,
        realized_pnl: Decimal,
    ) -> (r: Position)
        requires
            decimal_checked_mul(quantity@, average_cost@) is Some,
        ensures
            position_model(asset_id, quantity@, average_cost@, realized_pnl@) == Some(r@),
            r@.cost_basis == decimal_checked_mul(quantity@, average_cost@).unwrap(),
            product_fits(quantity@, average_cost@) ==> r@.cost_basis == exact_product(
                quantity@,
                average_cost@,
            ),
    {
        match checked_mul(&quantity, &average_cost) {
            Some(cost_basis) => Position { asset_id, quantity, average_cost, cost_basis, realized_pnl },
            None => {
                proof {
                    assert(false);
                }
                Position { asset_id, quantity, average_cost, cost_basis: quantity, realized_pnl }
            },
        }
    }

    /// [`Position::new`], or `None` when `quantity * average_cost` overflows.
    pub fn try_new(
        asset_id: AssetId,
        quantity: Decimal,
        average_cost: Decimal,
        realized_pnl: Decimal,
    ) -> (r: Option<Position>)
        ensures
            position_model(asset_id, quantity@, average_cost@, realized_pnl@) == match r {
                Some(p) => Some(p@),
                None => None::<PositionView>,
            },
            r is None ==> !product_fits(quantity@, average_cost@),
            r matches Some(p) ==> (product_fits(quantity@, average_cost@) ==> p@.cost_basis
                == exact_product(quantity@, average_cost@)),
    {
        match checked_mul(&quantity, &average_cost) {
            Some(_) => Some(Position::new(asset_id, quantity, average_cost, realized_pnl)),
            None => None,
        }
    }

    pub fn asset_id(&self) -> (r: AssetId)
        ensures
            r == self@.asset_id,
    {
        self.asset_id
    }

    pub fn quantity(&self) -> (r: Decimal)
        ensures
            r@ == self@.quantity,
    {
        self.quantity
    }

    /// Per-unit average cost; zero again whenever the quantity returns to zero.
    pub fn average_cost(&self) -> (r: Decimal)
        ensures
            r@ == self@.average_cost,
    {
        self.average_cost
    }

    /// `quantity * average_cost`.
    pub fn cost_basis(&self) -> (r: Decimal)
        ensures
            r@ == self@.cost_basis,
    {
        self.cost_basis
    }

    /// Realized profit or loss over the asset's whole history, across every
    /// close and reopen.
    pub fn realized_pnl(&self) -> (r: Decimal)
        ensures
            r@ == self@.realized_pnl,
    {
        self.realized_pnl
    }

    /// Whether any of the asset is currently held.
    pub fn is_open(&self) -> (r: bool)
        ensures
            r == value_positive(self@.quantity),
    {
        let zero = Decimal::zero();
        proof {
            lemma_compare_with_zero(self.quantity@);
        }
        decimal_lt(&zero, &self.quantity)
    }
}

/// What a [`PositionValuation`] holds.
pub struct PositionValuationView {
    pub position: PositionView,
    pub current_price: DecimalView,
    pub market_value: DecimalView,
    pub unrealized_pnl: DecimalView,
}

/// A position valued at `price`: market value `quantity * price`, unrealized
/// profit `market_value - cost_basis` (`None` when either overflows).
pub open spec fn valuation_model(position: PositionView, price: DecimalView) -> Option<
    PositionValuationView,
> {
    match decimal_checked_mul(position.quantity, price) {
        Some(market_value) => match decimal_checked_sub(market_value, position.cost_basis) {
            Some(unrealized_pnl) => Some(
                PositionValuationView { position, current_price: price, market_value, unrealized_pnl },
            ),
            None => None,
        },
        None => None,
    }
}

/// Where the arithmetic needs no rounding, the valuation holds the exact
/// figures: market value `quantity * price`, and unrealized profit
/// `market_value - cost_basis` at every scale `s` that holds both.
pub open spec fn valuation_exact(position: PositionView, price: DecimalView, v: PositionValuationView) -> bool {
    &&& product_fits(position.quantity, price) ==> v.market_value == exact_product(position.quantity, price)
    &&& forall|s: nat|
        #[trigger] fits_at(v.market_value, position.cost_basis, s, scaled(v.market_value, s) - scaled(position.cost_basis, s))
            ==> v.unrealized_pnl.1 <= s && scaled(v.unrealized_pnl, s) == scaled(v.market_value, s)
            - scaled(position.cost_basis, s)
}

/// A position together with the market price used to value it.
#[derive(Debug, Clone, Copy, PartialEq, Eq)]
pub struct PositionValuation {
    pub(crate) position: Position,
    pub(crate) current_price: Decimal,
    pub(crate) market_value: Decimal,
    pub(crate) unrealized_pnl: Decimal,
}

impl PositionValuation {
    pub open(crate) spec fn view(&self) -> PositionValuationView {
        PositionValuationView {
            position: self.position@,
            current_price: self.current_price@,
            market_value: self.market_value@,
            unrealized_pnl: self.unrealized_pnl@,
        }
    }

    /// Values `position` at `current_price`; market value and unrealized
    /// profit are computed here, so they always agree with the inputs.
    pub fn new(position: Position, current_price: Decimal) -> (r: PositionValuation)
        requires
            valuation_model(position@, current_price@) is Some,
        ensures
            valuation_model(position@, current_price@) == Some(r@),
            r@.market_value == decimal_checked_mul(position@.quantity, current_price@).unwrap(),
            r@.unrealized_pnl == decimal_checked_sub(r@.market_value, position@.cost_basis).unwrap(),
            valuation_exact(position@, current_price@, r@),
    {
        let market_value = match checked_mul(&position.quantity, &current_price) {
            Some(x) => x,
            None => {
                proof {
                    assert(false);
                }
                current_price
            },
        };
        let unrealized_pnl = match checked_sub(&market_value, &position.cost_basis) {
            Some(x) => x,
            None => {
                proof {
                    assert(false);
                }
                current_price
            },
        };
        PositionValuation { position, current_price, market_value, unrealized_pnl }
    }

    /// [`PositionValuation::new`], or `None` when the arithmetic overflows.
    pub fn try_new(position: Position, current_price: Decimal) -> (r: Option<PositionValuation>)
        ensures
            valuation_model(position@, current_price@) == match r {
                Some(v) => Some(v@),
                None => None::<PositionValuationView>,
            },
            r matches Some(v) ==> valuation_exact(position@, current_price@, v@),
    {
        match checked_mul(&position.quantity, &current_price) {
            Some(market_value) => match checked_sub(&market_value, &position.cost_basis) {
                Some(_) => Some(PositionValuation::new(position, current_price)),
                None => None,
            },
            None => None,
        }
    }

    pub fn position(&self) -> (r: &Position)
        ensures
            r@ == self@.position,
    {
        &self.position
    }

    pub fn current_price(&self) -> (r: Decimal)
        ensures
            r@ == self@.current_price,
    {
        self.current_price
    }

    /// `quantity * current_price`.
    pub fn market_value(&self) -> (r: Decimal)
        ensures
            r@ == self@.market_value,
    {
        self.market_value
    }

    /// `market_value - cost_basis`.
    pub fn unrealized_pnl(&self) -> (r: Decimal)
        ensures
            r@ == self@.unrealized_pnl,
    {
        self.unrealized_pnl
    }
}

} // verus!
