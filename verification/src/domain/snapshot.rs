//! A point-in-time valuation of the whole portfolio.

use vstd::prelude::*;

use crate::calendar::Timestamp;
use crate::decimal::{
    checked_add, decimal_checked_add, exact_sum_at_fitting_scales, fits_at, option_view, scaled, Decimal,
    DecimalView,
};
use crate::domain::position::PositionValuation;

verus! {

/// What a [`PortfolioSnapshot`] holds.
pub struct PortfolioSnapshotView {
    pub generated_at: Timestamp,
    pub positions: Seq<PositionValuation>,
    pub total_cost_basis: DecimalView,
    pub total_market_value: DecimalView,
    pub total_realized_pnl: DecimalView,
    pub total_unrealized_pnl: DecimalView,
}

/// The valuation of a portfolio at one moment: the currently held positions,
/// valued, and the portfolio totals.
///
/// All totals are in one currency: mixing assets quoted in different
/// currencies would sum incomparable numbers.
#[derive(Debug, Clone, PartialEq)]
pub struct PortfolioSnapshot {
    pub(crate) generated_at: Timestamp,
    pub(crate) positions: Vec<PositionValuation>,
    pub(crate) total_cost_basis: Decimal,
    pub(crate) total_market_value: Decimal,
    pub(crate) total_realized_pnl: Decimal,
    pub(crate) total_unrealized_pnl: Decimal,
}

impl PortfolioSnapshot {
    pub open(crate) spec fn view(&self) -> PortfolioSnapshotView {
        PortfolioSnapshotView {
            generated_at: self.generated_at,
            positions: self.positions@,
            total_cost_basis: self.total_cost_basis@,
            total_market_value: self.total_market_value@,
            total_realized_pnl: self.total_realized_pnl@,
            total_unrealized_pnl: self.total_unrealized_pnl@,
        }
    }

    /// Assembles a snapshot from its parts, as given.
    pub fn new(
        generated_at: Timestamp,
        positions: Vec<PositionValuation>,
        total_cost_basis: Decimal,
        total_market_value: Decimal,
        total_realized_pnl: Decimal,
        total_unrealized_pnl: Decimal,
    ) -> (r: PortfolioSnapshot)
        ensures
            r@ == (PortfolioSnapshotView {
                generated_at,
                positions: positions@,
                total_cost_basis: total_cost_basis@,
                total_market_value: total_market_value@,
                total_realized_pnl: total_realized_pnl@,
                total_unrealized_pnl: total_unrealized_pnl@,
            }),
    {
        PortfolioSnapshot {
            generated_at,
            positions,
            total_cost_basis,
            total_market_value,
            total_realized_pnl,
            total_unrealized_pnl,
        }
    }

    pub fn generated_at(&self) -> (r: Timestamp)
        ensures
            r == self@.generated_at,
    {
        self.generated_at
    }

    /// The currently held assets only, in ascending asset-id order.
    pub fn positions(&self) -> (r: &[PositionValuation])
        ensures
            r@ == self@.positions,
    {
        self.positions.as_slice()
    }

    /// Summed over the currently held positions.
    pub fn total_cost_basis(&self) -> (r: Decimal)
        ensures
            r@ == self@.total_cost_basis,
    {
        self.total_cost_basis
    }

    /// Summed over the currently held positions.
    pub fn total_market_value(&self) -> (r: Decimal)
        ensures
            r@ == self@.total_market_value,
    {
        self.total_market_value
    }

    /// Summed over the whole history, closed positions included.
    pub fn total_realized_pnl(&self) -> (r: Decimal)
        ensures
            r@ == self@.total_realized_pnl,
    {
        self.total_realized_pnl
    }

    /// Summed over the currently held positions.
    pub fn total_unrealized_pnl(&self) -> (r: Decimal)
        ensures
            r@ == self@.total_unrealized_pnl,
    {
        self.total_unrealized_pnl
    }

    /// Realized plus unrealized: what the portfolio has made overall.
    pub fn total_pnl(&self) -> (r: Decimal)
        requires
            decimal_checked_add(self@.total_realized_pnl, self@.total_unrealized_pnl) is Some,
        ensures
            decimal_checked_add(self@.total_realized_pnl, self@.total_unrealized_pnl) == Some(r@),
            exact_sum_at_fitting_scales(self@.total_realized_pnl, self@.total_unrealized_pnl, r@),
    {
        match checked_add(&self.total_realized_pnl, &self.total_unrealized_pnl) {
            Some(t) => t,
            None => {
                proof {
                    assert(false);
                }
                self.total_realized_pnl
            },
        }
    }

    /// [`PortfolioSnapshot::total_pnl`], or `None` when the sum overflows.
    pub fn checked_total_pnl(&self) -> (r: Option<Decimal>)
        ensures
            option_view(r) == decimal_checked_add(
                self@.total_realized_pnl,
                self@.total_unrealized_pnl,
            ),
            r is None ==> forall|s: nat|
                !fits_at(
                    self@.total_realized_pnl,
                    self@.total_unrealized_pnl,
                    s,
                    scaled(self@.total_realized_pnl, s) + scaled(self@.total_unrealized_pnl, s),
                ),
            r matches Some(t) ==> exact_sum_at_fitting_scales(
                self@.total_realized_pnl,
                self@.total_unrealized_pnl,
                t@,
            ),
    {
        match checked_add(&self.total_realized_pnl, &self.total_unrealized_pnl) {
            Some(_) => Some(self.total_pnl()),
            None => None,
        }
    }

    /// Whether no position is currently held.
    pub fn is_empty(&self) -> (r: bool)
        ensures
            r == (self@.positions.len() == 0),
    {
        self.positions.len() == 0
    }
}

} // verus!
