//! The portfolio engine: stateless, deterministic, pure.
//!
//! Only two things flow in, a transaction history and market data, and the
//! same two inputs always produce the same positions and totals.

use vstd::prelude::*;

use crate::calendar::Timestamp;
use crate::decimal::{
    MAX_MANTISSA, checked_add, checked_div, checked_mul, checked_sub, decimal_eq, decimal_lt,
    fits_at, lemma_compare_with_zero, lemma_scaled_zero, scaled, value_nonnegative, value_positive, zero_view, Decimal,
};
use crate::domain::position::{
    position_sound, Position, PositionValuation, PositionValuationView, PositionView,
};
use crate::domain::snapshot::PortfolioSnapshot;
use crate::domain::transaction::{Transaction, TransactionType};
use crate::engine::errors::EngineError;
use crate::engine::model::{
    all_built, all_priced, ascending_ids, asset_history, built_position, holdings_model,
    holds_asset, holds_asset_before, lemma_asset_history_step, lemma_asset_ids_is,
    lemma_open_positions_push, lemma_replay_push, lemma_sum_failed_prefix, lemma_sum_push,
    lists_assets_of, open_positions, oversold_error, position_outcome, priced, realized_total,
    replay, replay_fits, snapshot_fits, sum_of, total_cost_basis, total_market_value,
    total_unrealized_pnl, valuation_of, valuations, buy_step, sell_step, PositionOutcome, Replay,
    realized_values, valuation_views, cost_basis_values, market_values, unrealized_values,
    lemma_open_prefix, lemma_history_prefix, net_quantity, quantities_fit, quantity_matches_history, totals_fit, exact_total, lemma_total_step, total_is_exact, lemma_exact_total_step,
};
use crate::ids::AssetId;
use crate::market_data::{AssetMap, MarketData};

verus! {

/// The position of every asset of a history, closed ones included, in
/// ascending asset-id order.
#[derive(Debug, PartialEq, Eq)]
pub struct Holdings {
    pub(crate) positions: Vec<Position>,
}

impl Holdings {
    /// One position per asset, in ascending asset-id order.
    #[verifier::type_invariant]
    spec fn well_formed(self) -> bool {
        forall|i: int, j: int|
            0 <= i < j < self.positions@.len() ==> (#[trigger] self.positions@[i]).asset_id@
                < (#[trigger] self.positions@[j]).asset_id@
    }

    pub open(crate) spec fn view(&self) -> Seq<PositionView> {
        self.positions@.map_values(|p: Position| p@)
    }

    /// Number of assets.
    pub fn len(&self) -> (r: usize)
        ensures
            r == self@.len(),
    {
        self.positions.len()
    }

    pub fn is_empty(&self) -> (r: bool)
        ensures
            r == (self@.len() == 0),
    {
        self.positions.len() == 0
    }

    /// The positions, in ascending asset-id order.
    pub fn positions(&self) -> (r: &[Position])
        ensures
            r@.map_values(|p: Position| p@) == self@,
    {
        self.positions.as_slice()
    }

    /// The position of `asset_id`, if the history concerns it.
    pub fn get(&self, asset_id: &AssetId) -> (r: Option<&Position>)
        ensures
            match r {
                Some(p) => p@.asset_id == *asset_id && self@.contains(p@),
                None => forall|i: int| 0 <= i < self@.len() ==> (#[trigger] self@[i]).asset_id != *asset_id,
            },
    {
        let mut i: usize = 0;
        while i < self.positions.len()
            invariant
                i <= self.positions@.len(),
                forall|j: int| 0 <= j < i ==> (#[trigger] self.positions@[j]).asset_id != *asset_id,
            decreases self.positions@.len() - i,
        {
            if self.positions[i].asset_id.0 == asset_id.0 {
                proof {
                    assert(self@[i as int] == self.positions@[i as int]@);
                }
                return Some(&self.positions[i]);
            }
            i += 1;
        }
        None
    }
}

/// Whether `result` is what replaying `transactions` yields: the holdings
/// when every asset's replay succeeds, otherwise an oversold asset.
pub open spec fn holdings_result(transactions: Seq<Transaction>, result: Result<Holdings, EngineError>) -> bool {
    &&& result is Ok <==> all_built(transactions)
    &&& result matches Ok(h) ==> h@ == holdings_model(transactions)
    &&& result matches Err(e) ==> oversold_error(transactions, e)
}

/// Whether `result` is the snapshot of `transactions` at `prices`: an oversold
/// asset if the replay fails, else a held asset without a price if there is
/// one, else the open positions valued in ascending asset-id order with
/// their totals.
pub open spec fn snapshot_result(
    transactions: Seq<Transaction>,
    prices: Map<AssetId, MarketData>,
    result: Result<PortfolioSnapshot, EngineError>,
) -> bool {
    if !all_built(transactions) {
        result matches Err(e) && oversold_error(transactions, e)
    } else {
        let held = holdings_model(transactions);
        let open = open_positions(held);
        if !all_priced(prices, open) {
            result matches Err(EngineError::MissingMarketData(a)) && exists|i: int|
                0 <= i < open.len() && (#[trigger] open[i]).asset_id == a && !priced(prices, open[i])
                    && forall|j: int| 0 <= j < i ==> priced(prices, #[trigger] open[j])
        } else {
            let v = valuations(prices, open);
            result matches Ok(s) && valuation_views(s@.positions) == v
                && realized_total(held) == Some(s@.total_realized_pnl) && total_cost_basis(v) == Some(
                s@.total_cost_basis,
            ) && total_market_value(v) == Some(s@.total_market_value) && total_unrealized_pnl(v)
                == Some(s@.total_unrealized_pnl)
        }
    }
}

/// Each total of the snapshot is the exact sum of its figures (realized
/// profit over every position of the history, the others over the valued
/// positions) at every scale at which summing them needs no rounding.
pub open spec fn totals_exact(transactions: Seq<Transaction>, s: PortfolioSnapshot) -> bool {
    let v = valuation_views(s@.positions);
    &&& total_is_exact(realized_values(holdings_model(transactions)), s@.total_realized_pnl)
    &&& total_is_exact(cost_basis_values(v), s@.total_cost_basis)
    &&& total_is_exact(market_values(v), s@.total_market_value)
    &&& total_is_exact(unrealized_values(v), s@.total_unrealized_pnl)
}

/// The replay of one asset, as it runs.
enum Run {
    Running { quantity: Decimal, average_cost: Decimal, realized_pnl: Decimal },
    Oversold { held: Decimal, attempted: Decimal },
    Failed,
}

/// A running replay holds no negative quantity, and no average cost once
/// nothing is held.
spec fn run_sound(r: Run) -> bool {
    match r {
        Run::Running { quantity, average_cost, .. } => value_nonnegative(quantity@) && (quantity@.0
            == 0 ==> average_cost@ == zero_view()),
        _ => true,
    }
}

spec fn run_view(r: Run) -> Replay {
    match r {
        Run::Running { quantity, average_cost, realized_pnl } => Replay::Running {
            quantity: quantity@,
            average_cost: average_cost@,
            realized_pnl: realized_pnl@,
        },
        Run::Oversold { held, attempted } => Replay::Oversold { held: held@, attempted: attempted@ },
        Run::Failed => Replay::Failed,
    }
}

fn apply_buy(
    quantity: Decimal,
    average_cost: Decimal,
    realized_pnl: Decimal,
    bought: &Decimal,
    price: &Decimal,
) -> (r: Run)
    ensures
        run_view(r) == buy_step(quantity@, average_cost@, realized_pnl@, bought@, price@),
        value_nonnegative(quantity@) && value_positive(bought@) ==> run_sound(r),
        forall|s: nat|
            #[trigger] fits_at(quantity@, bought@, s, scaled(quantity@, s) + scaled(bought@, s)) ==> (
            r matches Run::Running { quantity: q, .. } ==> q@.1 <= s && scaled(q@, s) == scaled(
                quantity@,
                s,
            ) + scaled(bought@, s)),
{
    let new_quantity = match checked_add(&quantity, bought) {
        Some(x) => x,
        None => return Run::Failed,
    };
    let held_cost = match checked_mul(&average_cost, &quantity) {
        Some(x) => x,
        None => return Run::Failed,
    };
    let bought_cost = match checked_mul(price, bought) {
        Some(x) => x,
        None => return Run::Failed,
    };
    let total_cost = match checked_add(&held_cost, &bought_cost) {
        Some(x) => x,
        None => return Run::Failed,
    };
    let new_average = match checked_div(&total_cost, &new_quantity) {
        Some(x) => x,
        None => return Run::Failed,
    };
    Run::Running { quantity: new_quantity, average_cost: new_average, realized_pnl }
}

fn apply_sell(
    quantity: Decimal,
    average_cost: Decimal,
    realized_pnl: Decimal,
    sold: &Decimal,
    price: &Decimal,
) -> (r: Run)
    ensures
        run_view(r) == sell_step(quantity@, average_cost@, realized_pnl@, sold@, price@),
        run_sound(r),
        forall|s: nat|
            #[trigger] fits_at(quantity@, sold@, s, scaled(quantity@, s) - scaled(sold@, s)) ==> (
            r matches Run::Running { quantity: q, .. } ==> q@.1 <= s && scaled(q@, s) == scaled(
                quantity@,
                s,
            ) - scaled(sold@, s)),
{
    if decimal_lt(&quantity, sold) {
        return Run::Oversold { held: quantity, attempted: *sold };
    }
    let margin = match checked_sub(price, &average_cost) {
        Some(x) => x,
        None => return Run::Failed,
    };
    let gain = match checked_mul(&margin, sold) {
        Some(x) => x,
        None => return Run::Failed,
    };
    let new_realized = match checked_add(&realized_pnl, &gain) {
        Some(x) => x,
        None => return Run::Failed,
    };
    let new_quantity = match checked_sub(&quantity, sold) {
        Some(x) => x,
        None => return Run::Failed,
    };
    let zero = Decimal::zero();
    proof {
        lemma_compare_with_zero(new_quantity@);
    }
    let new_average = if decimal_eq(&new_quantity, &zero) {
        zero
    } else {
        average_cost
    };
    Run::Running { quantity: new_quantity, average_cost: new_average, realized_pnl: new_realized }
}

/// Average-cost replay of the history of `asset_id`, in the order given.
fn replay_asset(transactions: &[Transaction], asset_id: AssetId) -> (r: Run)
    ensures
        run_view(r) == replay(asset_history(transactions@, asset_id)),
        run_sound(r),
        forall|s: nat|
            #[trigger] quantities_fit(asset_history(transactions@, asset_id), s) ==> (
            r matches Run::Running { quantity, .. } ==> quantity@.1 <= s && scaled(quantity@, s)
                == net_quantity(asset_history(transactions@, asset_id), s)),
{
    let mut state = Run::Running {
        quantity: Decimal::zero(),
        average_cost: Decimal::zero(),
        realized_pnl: Decimal::zero(),
    };
    let mut i: usize = 0;
    proof {
        assert(transactions@.take(0) =~= Seq::<Transaction>::empty());
    }
    while i < transactions.len()
        invariant
            i <= transactions@.len(),
            run_view(state) == replay(asset_history(transactions@.take(i as int), asset_id)),
            run_sound(state),
            forall|s: nat|
                #[trigger] quantities_fit(asset_history(transactions@, asset_id), s) ==> (
                state matches Run::Running { quantity, .. } ==> quantity@.1 <= s && scaled(quantity@, s)
                    == net_quantity(asset_history(transactions@.take(i as int), asset_id), s)),
        decreases transactions@.len() - i,
    {
        let tx = &transactions[i];
        proof {
            lemma_asset_history_step(transactions@, i as int, asset_id);
        }
        if tx.asset_id().0 == asset_id.0 {
            let tt = tx.transaction_type();
            let ghost full = asset_history(transactions@, asset_id);
            let ghost prefix = asset_history(transactions@.take(i as int), asset_id);
            let ghost before = state;
            proof {
                lemma_replay_push(prefix, *tt);
                lemma_history_prefix(transactions@, i + 1, asset_id);
                assert(asset_history(transactions@.take(i + 1), asset_id) == prefix.push(*tt));
                assert(prefix.push(*tt).drop_last() =~= prefix);
                assert(full[prefix.len() as int] == *tt) by {
                    assert(full.take(prefix.len() as int + 1)[prefix.len() as int] == prefix.push(*tt)[prefix.len() as int]);
                }
            }
            state =
            match state {
                Run::Running { quantity, average_cost, realized_pnl } => match tt {
                    TransactionType::Buy { quantity: bought, price } => apply_buy(
                        quantity,
                        average_cost,
                        realized_pnl,
                        bought,
                        price,
                    ),
                    TransactionType::Sell { quantity: sold, price } => apply_sell(
                        quantity,
                        average_cost,
                        realized_pnl,
                        sold,
                        price,
                    ),
                },
                other => other,
            };
            proof {
                assert forall|s: nat| #[trigger] quantities_fit(full, s) implies (
                state matches Run::Running { quantity, .. } ==> quantity@.1 <= s && scaled(quantity@, s)
                    == net_quantity(prefix.push(*tt), s)) by {
                    if let Run::Running { quantity: q, .. } = before {
                        let k = prefix.len() as int;
                        assert(full[k].quantity_view().1 <= s);
                        assert(full.take(k + 1) == prefix.push(*tt));
                        let n1 = net_quantity(full.take(k + 1), s);
                        assert(-MAX_MANTISSA <= n1 <= MAX_MANTISSA);
                        match *tt {
                            TransactionType::Buy { quantity: b, .. } => {
                                assert(fits_at(q@, b@, s, scaled(q@, s) + scaled(b@, s)));
                            },
                            TransactionType::Sell { quantity: b, .. } => {
                                assert(fits_at(q@, b@, s, scaled(q@, s) - scaled(b@, s)));
                            },
                        }
                    }
                }
            }
        }
        i += 1;
    }
    proof {
        assert(transactions@.take(transactions@.len() as int) =~= transactions@);
    }
    state
}

/// What replaying one asset yields, as it runs.
enum Outcome {
    Built(Position),
    Oversold { held: Decimal, attempted: Decimal },
    Failed,
}

spec fn outcome_view(o: Outcome) -> PositionOutcome {
    match o {
        Outcome::Built(p) => PositionOutcome::Built(p@),
        Outcome::Oversold { held, attempted } => PositionOutcome::Oversold {
            held: held@,
            attempted: attempted@,
        },
        Outcome::Failed => PositionOutcome::Failed,
    }
}

/// The position of one asset after its whole history.
fn build_position(transactions: &[Transaction], asset_id: AssetId) -> (r: Outcome)
    ensures
        outcome_view(r) == position_outcome(transactions@, asset_id),
        r matches Outcome::Built(p) ==> position_sound(p@),
        r matches Outcome::Built(p) ==> quantity_matches_history(p@, asset_history(transactions@, asset_id)),
{
    match replay_asset(transactions, asset_id) {
        Run::Running { quantity, average_cost, realized_pnl } => match Position::try_new(
            asset_id,
            quantity,
            average_cost,
            realized_pnl,
        ) {
            Some(p) => Outcome::Built(p),
            None => Outcome::Failed,
        },
        Run::Oversold { held, attempted } => Outcome::Oversold { held, attempted },
        Run::Failed => Outcome::Failed,
    }
}

/// The assets of a history, in ascending id order.
fn collect_asset_ids(transactions: &[Transaction]) -> (ids: Vec<AssetId>)
    ensures
        lists_assets_of(transactions@, ids@),
{
    let mut ids: Vec<AssetId> = Vec::new();
    let mut i: usize = 0;
    while i < transactions.len()
        invariant
            i <= transactions@.len(),
            ascending_ids(ids@),
            forall|a: AssetId| ids@.contains(a) <==> holds_asset_before(transactions@, i as int, a),
        decreases transactions@.len() - i,
    {
        let a = transactions[i].asset_id();
        let mut p: usize = 0;
        while p < ids.len() && ids[p].0 < a.0
            invariant
                p <= ids@.len(),
                forall|q: int| 0 <= q < p ==> (#[trigger] ids@[q])@ < a@,
            decreases ids@.len() - p,
        {
            p += 1;
        }
        let ghost before = ids@;
        if p < ids.len() && ids[p].0 == a.0 {
            proof {
                assert(ids@[p as int] == a);
                assert forall|b: AssetId| ids@.contains(b) <==> holds_asset_before(
                    transactions@,
                    i + 1,
                    b,
                ) by {
                    if holds_asset_before(transactions@, i + 1, b) && !holds_asset_before(
                        transactions@,
                        i as int,
                        b,
                    ) {
                        let k = choose|k: int| 0 <= k < i + 1 && (#[trigger] transactions@[k])@.asset_id == b;
                        assert(k == i);
                    }
                    if holds_asset_before(transactions@, i as int, b) {
                        let k = choose|k: int| 0 <= k < i && (#[trigger] transactions@[k])@.asset_id == b;
                        assert(0 <= k < i + 1);
                    }
                }
            }
        } else {
            ids.insert(p, a);
            proof {
                assert(ids@ == before.insert(p as int, a));
                assert forall|x: int, y: int| 0 <= x < y < ids@.len() implies (#[trigger] ids@[x])@
                    < (#[trigger] ids@[y])@ by {
                    if y < p {
                        assert(ids@[x] == before[x] && ids@[y] == before[y]);
                    } else if y == p {
                        assert(ids@[x] == before[x]);
                    } else if x == p {
                        assert(ids@[y] == before[y - 1]);
                        assert(before[p as int]@ <= before[y - 1]@);
                    } else if x < p {
                        assert(ids@[x] == before[x] && ids@[y] == before[y - 1]);
                    } else {
                        assert(ids@[x] == before[x - 1] && ids@[y] == before[y - 1]);
                    }
                }
                assert forall|b: AssetId| ids@.contains(b) <==> holds_asset_before(
                    transactions@,
                    i + 1,
                    b,
                ) by {
                    if ids@.contains(b) {
                        let k = choose|k: int| 0 <= k < ids@.len() && ids@[k] == b;
                        if k == p {
                            assert(transactions@[i as int]@.asset_id == b);
                        } else if k < p {
                            assert(before[k] == b);
                            assert(before.contains(b));
                            let m = choose|m: int| 0 <= m < i && (#[trigger] transactions@[m])@.asset_id == b;
                            assert(0 <= m < i + 1);
                        } else {
                            assert(before[k - 1] == b);
                            assert(before.contains(b));
                            let m = choose|m: int| 0 <= m < i && (#[trigger] transactions@[m])@.asset_id == b;
                            assert(0 <= m < i + 1);
                        }
                    }
                    if holds_asset_before(transactions@, i + 1, b) {
                        let k = choose|k: int| 0 <= k < i + 1 && (#[trigger] transactions@[k])@.asset_id == b;
                        if k == i {
                            assert(ids@[p as int] == b);
                        } else {
                            assert(holds_asset_before(transactions@, i as int, b));
                            assert(before.contains(b));
                            let m = choose|m: int| 0 <= m < before.len() && before[m] == b;
                            if m < p {
                                assert(ids@[m] == b);
                            } else {
                                assert(ids@[m + 1] == b);
                            }
                        }
                    }
                }
            }
        }
        i += 1;
    }
    ids
}

/// Replays a history into one position per asset, closed positions included
/// (their realized profit is part of the history), or reports an asset that
/// was sold beyond its holding. `None` when some asset's replay overflows.
pub fn try_build_holdings(transactions: &[Transaction]) -> (r: Option<Result<Holdings, EngineError>>)
    ensures
        r is None <==> !replay_fits(transactions@),
        r matches Some(result) ==> holdings_result(transactions@, result),
        r matches Some(Ok(h)) ==> forall|i: int| 0 <= i < h@.len() ==> position_sound(#[trigger] h@[i]),
        r matches Some(Ok(h)) ==> forall|i: int|
            0 <= i < h@.len() ==> quantity_matches_history(
                #[trigger] h@[i],
                asset_history(transactions@, h@[i].asset_id),
            ),
{
    let ids = collect_asset_ids(transactions);
    let ghost t = transactions@;
    let mut positions: Vec<Position> = Vec::new();
    let mut error: Option<EngineError> = None;
    let mut k: usize = 0;
    while k < ids.len()
        invariant
            k <= ids@.len(),
            lists_assets_of(t, ids@),
            t == transactions@,
            forall|j: int| 0 <= j < k ==> !(#[trigger] position_outcome(t, ids@[j]) is Failed),
            error is None ==> positions@.len() == k,
            error is None ==> forall|j: int|
                0 <= j < k ==> #[trigger] position_outcome(t, ids@[j]) == PositionOutcome::Built(
                    positions@[j]@,
                ),
            error matches Some(e) ==> oversold_error(t, e),
            forall|j: int| 0 <= j < positions@.len() ==> position_sound(#[trigger] positions@[j]@),
            forall|j: int|
                0 <= j < positions@.len() ==> quantity_matches_history(
                    #[trigger] positions@[j]@,
                    asset_history(t, positions@[j]@.asset_id),
                ),
            error is Some ==> !all_built(t),
        decreases ids@.len() - k,
    {
        let a = ids[k];
        proof {
            assert(ids@.contains(a));
        }
        match build_position(transactions, a) {
            Outcome::Built(p) => {
                positions.push(p);
            },
            Outcome::Oversold { held, attempted } => {
                if error.is_none() {
                    proof {
                        assert forall|b: AssetId|
                            holds_asset(t, b) && b@ < a@ implies !(#[trigger] position_outcome(
                            t,
                            b,
                        ) is Oversold) by {
                            assert(ids@.contains(b));
                            let j = choose|j: int| 0 <= j < ids@.len() && ids@[j] == b;
                            if j >= k {
                                if j > k {
                                    assert(ids@[k as int]@ < ids@[j]@);
                                }
                            }
                            assert(position_outcome(t, ids@[j]) == PositionOutcome::Built(
                                positions@[j]@,
                            ));
                        }
                    }
                    error = Some(EngineError::OversoldAsset { asset_id: a, held, attempted });
                }
            },
            Outcome::Failed => {
                return None;
            },
        }
        k += 1;
    }
    proof {
        assert forall|a: AssetId| holds_asset(t, a) implies !(#[trigger] position_outcome(
            t,
            a,
        ) is Failed) by {
            assert(ids@.contains(a));
            let j = choose|j: int| 0 <= j < ids@.len() && ids@[j] == a;
            assert(!(position_outcome(t, ids@[j]) is Failed));
        }
    }
    match error {
        Some(e) => Some(Err(e)),
        None => {
            proof {
                assert forall|a: AssetId| holds_asset(t, a) implies #[trigger] position_outcome(
                    t,
                    a,
                ) is Built by {
                    assert(ids@.contains(a));
                    let j = choose|j: int| 0 <= j < ids@.len() && ids@[j] == a;
                    assert(position_outcome(t, ids@[j]) == PositionOutcome::Built(positions@[j]@));
                }
                lemma_asset_ids_is(t, ids@);
                assert forall|j: int| 0 <= j < positions@.len() implies (#[trigger] positions@[j])@
                    == built_position(position_outcome(t, ids@[j])) by {
                    assert(position_outcome(t, ids@[j]) == PositionOutcome::Built(positions@[j]@));
                }
                assert forall|x: int, y: int| 0 <= x < y < positions@.len() implies (
                #[trigger] positions@[x]).asset_id@ < (#[trigger] positions@[y]).asset_id@ by {
                    assert(position_outcome(t, ids@[x]) == PositionOutcome::Built(positions@[x]@));
                    assert(position_outcome(t, ids@[y]) == PositionOutcome::Built(positions@[y]@));
                    assert(ids@[x]@ < ids@[y]@);
                }
            }
            let h = Holdings { positions };
            proof {
                assert(h@ =~= holdings_model(t));
            }
            Some(Ok(h))
        },
    }
}

/// [`try_build_holdings`] for a history whose replay does not overflow.
pub fn build_holdings(transactions: &[Transaction]) -> (r: Result<Holdings, EngineError>)
    requires
        replay_fits(transactions@),
    ensures
        holdings_result(transactions@, r),
        r matches Ok(h) ==> forall|i: int| 0 <= i < h@.len() ==> position_sound(#[trigger] h@[i]),
        r matches Ok(h) ==> forall|i: int|
            0 <= i < h@.len() ==> quantity_matches_history(
                #[trigger] h@[i],
                asset_history(transactions@, h@[i].asset_id),
            ),
{
    match try_build_holdings(transactions) {
        Some(result) => result,
        None => {
            proof {
                assert(false);
            }
            Err(EngineError::MissingMarketData(AssetId(0)))
        },
    }
}

/// Values a transaction history against market prices: replays it, values
/// every open position at its price (in ascending asset-id order), and totals
/// cost basis, market value and unrealized profit over them and realized
/// profit over the whole history. Fails with an oversold asset, or with a
/// held asset that has no price. `None` when some figure overflows.
pub fn try_generate_snapshot(
    transactions: &[Transaction],
    market_data: &AssetMap<MarketData>,
) -> (r: Option<Result<PortfolioSnapshot, EngineError>>)
    ensures
        r is None <==> !snapshot_fits(transactions@, market_data@),
        r matches Some(result) ==> snapshot_result(transactions@, market_data@, result),
        r matches Some(Ok(s)) ==> s@.generated_at@.0 >= 0 && s@.generated_at@.1 < 1_000_000_000,
        r matches Some(Ok(s)) ==> totals_exact(transactions@, s),
{
    let holdings = match try_build_holdings(transactions) {
        None => return None,
        Some(Err(e)) => return Some(Err(e)),
        Some(Ok(h)) => h,
    };
    let ghost t = transactions@;
    let ghost prices = market_data@;
    let ghost held = holdings@;
    let n = holdings.positions.len();
    proof {
        assert(all_built(t));
        assert(held.take(0) =~= Seq::<PositionView>::empty());
        assert(realized_values(held.take(0)) =~= Seq::<crate::decimal::DecimalView>::empty());
    }

    let mut realized = Decimal::zero();
    proof {
        assert(realized_values(held).take(0) =~= Seq::<crate::decimal::DecimalView>::empty());
        assert forall|s: nat| #[trigger] totals_fit(realized_values(held), s) implies realized@.1 <= s
            && scaled(realized@, s) == exact_total(realized_values(held).take(0), s) by {
            lemma_scaled_zero(realized@, s);
        }
    }
    let mut i: usize = 0;
    while i < n
        invariant
            i <= n,
            n == held.len(),
            held == holdings@,
            held == holdings_model(t),
            t == transactions@,
            prices == market_data@,
            all_built(t),
            sum_of(realized_values(held.take(i as int))) == Some(realized@),
            forall|s: nat|
                #[trigger] totals_fit(realized_values(held), s) ==> realized@.1 <= s && scaled(realized@, s)
                    == exact_total(realized_values(held).take(i as int), s),
        decreases n - i,
    {
        let p = holdings.positions[i];
        let ghost before = realized;
        proof {
            assert(p@ == held[i as int]);
            lemma_sum_push(realized_values(held.take(i as int)), held[i as int].realized_pnl);
            assert(realized_values(held.take(i + 1)) =~= realized_values(held.take(i as int)).push(
                held[i as int].realized_pnl,
            ));
        }
        match checked_add(&realized, &p.realized_pnl) {
            Some(x) => {
                realized = x;
                proof {
                    assert forall|s: nat| #[trigger] totals_fit(realized_values(held), s) implies realized@.1
                        <= s && scaled(realized@, s) == exact_total(realized_values(held).take(i + 1), s) by {
                        let vals = realized_values(held);
                        lemma_total_step(vals, i as int, s);
                        assert(vals[i as int] == p@.realized_pnl);
                        assert(vals[i as int].1 <= s);
                        let k = i + 1;
                        assert(-MAX_MANTISSA <= exact_total(vals.take(k), s) <= MAX_MANTISSA);
                        assert(fits_at(before@, p@.realized_pnl, s, scaled(before@, s) + scaled(p@.realized_pnl, s)));
                    }
                }
            },
            None => {
                proof {
                    assert(realized_values(held).take(i + 1) =~= realized_values(held.take(i + 1)));
                    lemma_sum_failed_prefix(realized_values(held), i + 1);
                    assert(realized_total(held) is None);
                    assert(all_built(t));
                }
                return None;
            },
        }
        i += 1;
    }
    proof {
        assert(held.take(n as int) =~= held);
        assert(realized_values(held).take(n as int) =~= realized_values(held));
        assert(total_is_exact(realized_values(held), realized@));
    }

    let mut vals: Vec<PositionValuation> = Vec::new();
    let mut missing: Option<AssetId> = None;
    let ghost mut missing_at: int = 0;
    i = 0;
    while i < n
        invariant
            i <= n,
            n == held.len(),
            held == holdings@,
            prices == market_data@,
            missing is None ==> all_priced(prices, open_positions(held.take(i as int)))
                && valuation_views(vals@) == valuations(prices, open_positions(held.take(i as int))),
            missing matches Some(a) ==> 0 <= missing_at < open_positions(held.take(i as int)).len()
                && open_positions(held.take(i as int))[missing_at].asset_id == a && !priced(
                prices,
                open_positions(held.take(i as int))[missing_at],
            ),
            missing is Some ==> forall|j: int|
                0 <= j < missing_at ==> priced(prices, #[trigger] open_positions(held.take(i as int))[j]),
            all_built(t),
            held == holdings_model(t),
            realized_total(held) is Some,
            total_is_exact(realized_values(held), realized@),
            t == transactions@,
            forall|k: int|
                0 <= k < open_positions(held.take(i as int)).len() && priced(
                    prices,
                    #[trigger] open_positions(held.take(i as int))[k],
                ) ==> valuation_of(prices, open_positions(held.take(i as int))[k]) is Some,
        decreases n - i,
    {
        let p = holdings.positions[i];
        let ghost before = open_positions(held.take(i as int));
        proof {
            assert(p@ == held[i as int]);
            lemma_open_positions_push(held.take(i as int), held[i as int]);
            assert(held.take(i as int).push(held[i as int]) =~= held.take(i + 1));
        }
        if p.is_open() {
            proof {
                assert(open_positions(held.take(i + 1)) == before.push(p@));
            }
            match market_data.get(&p.asset_id) {
                None => {
                    if missing.is_none() {
                        missing = Some(p.asset_id);
                        proof {
                            missing_at = before.len() as int;
                        }
                    }
                    proof {
                        assert(open_positions(held.take(i + 1))[before.len() as int] == p@);
                    }
                },
                Some(md) => {
                    proof {
                        assert(prices[p@.asset_id].price@ == md.price@);
                    }
                    match PositionValuation::try_new(p, md.price) {
                        None => {
                            proof {
                                lemma_open_prefix(held, i + 1);
                                let m = before.len() as int;
                                assert(open_positions(held.take(i + 1))[m] == p@);
                                assert(open_positions(held)[m] == p@);
                                assert(priced(prices, open_positions(held)[m]));
                                assert(valuation_of(prices, open_positions(held)[m]) is None);
                                assert(!snapshot_fits(t, prices));
                            }
                            return None;
                        },
                        Some(v) => {
                            let ghost vals_before = vals@;
                            vals.push(v);
                            proof {
                                assert(valuation_views(vals@) =~= valuation_views(vals_before).push(v@));
                                if missing is None {
                                    assert(valuations(prices, open_positions(held.take(i + 1)))
                                        =~= valuations(prices, before).push(v@));
                                }
                            }
                        },
                    }
                },
            }
        }
        proof {
            let after = open_positions(held.take(i + 1));
            assert(after == before || after == before.push(p@));
            assert forall|k: int| 0 <= k < before.len() implies #[trigger] after[k] == before[k] by {
                if after != before {
                    assert(after == before.push(p@));
                }
            }
            assert forall|k: int| 0 <= k < after.len() && priced(prices, #[trigger] after[k])
                implies valuation_of(prices, after[k]) is Some by {
                if k < before.len() {
                    assert(after[k] == before[k]);
                }
            }
            if missing is Some {
                assert forall|j: int| 0 <= j < missing_at implies priced(prices, #[trigger] after[j]) by {
                    if missing_at < before.len() {
                        assert(after[j] == before[j]);
                    } else {
                        assert(after[j] == before[j]);
                    }
                }
            }
        }
        i += 1;
    }
    proof {
        assert(held.take(n as int) =~= held);
    }
    let ghost open = open_positions(held);
    if let Some(a) = missing {
        proof {
            assert(!priced(prices, open[missing_at]));
            assert(!all_priced(prices, open));
            assert(snapshot_fits(t, prices));
        }
        return Some(Err(EngineError::MissingMarketData(a)));
    }
    let ghost v = valuations(prices, open);
    let m = vals.len();
    let mut cost_basis = Decimal::zero();
    let mut market_value = Decimal::zero();
    let mut unrealized = Decimal::zero();
    let mut j: usize = 0;
    proof {
        assert(v.take(0) =~= Seq::<PositionValuationView>::empty());
        assert(cost_basis_values(v.take(0)) =~= Seq::<crate::decimal::DecimalView>::empty());
        assert(market_values(v.take(0)) =~= Seq::<crate::decimal::DecimalView>::empty());
        assert(unrealized_values(v.take(0)) =~= Seq::<crate::decimal::DecimalView>::empty());
        assert(cost_basis_values(v).take(0) =~= Seq::<crate::decimal::DecimalView>::empty());
        assert(market_values(v).take(0) =~= Seq::<crate::decimal::DecimalView>::empty());
        assert(unrealized_values(v).take(0) =~= Seq::<crate::decimal::DecimalView>::empty());
        lemma_scaled_zero(cost_basis@, 0);
        assert forall|s: nat| scaled(cost_basis@, s) == 0 by {
            lemma_scaled_zero(cost_basis@, s);
        }
    }
    while j < m
        invariant
            j <= m,
            m == vals@.len(),
            valuation_views(vals@) == v,
            v.len() == m,
            sum_of(cost_basis_values(v.take(j as int))) == Some(cost_basis@),
            sum_of(market_values(v.take(j as int))) == Some(market_value@),
            sum_of(unrealized_values(v.take(j as int))) == Some(unrealized@),
            t == transactions@,
            prices == market_data@,
            all_built(t),
            held == holdings_model(t),
            open == open_positions(held),
            all_priced(prices, open),
            v == valuations(prices, open),
            realized_total(held) == Some(realized@),
            total_is_exact(realized_values(held), realized@),
            forall|s: nat|
                #[trigger] totals_fit(cost_basis_values(v), s) ==> cost_basis@.1 <= s && scaled(cost_basis@, s)
                    == exact_total(cost_basis_values(v).take(j as int), s),
            forall|s: nat|
                #[trigger] totals_fit(market_values(v), s) ==> market_value@.1 <= s && scaled(market_value@, s)
                    == exact_total(market_values(v).take(j as int), s),
            forall|s: nat|
                #[trigger] totals_fit(unrealized_values(v), s) ==> unrealized@.1 <= s && scaled(unrealized@, s)
                    == exact_total(unrealized_values(v).take(j as int), s),
        decreases m - j,
    {
        let x = vals[j];
        proof {
            assert(x@ == v[j as int]);
            lemma_sum_push(cost_basis_values(v.take(j as int)), v[j as int].position.cost_basis);
            lemma_sum_push(market_values(v.take(j as int)), v[j as int].market_value);
            lemma_sum_push(unrealized_values(v.take(j as int)), v[j as int].unrealized_pnl);
            assert(cost_basis_values(v.take(j + 1)) =~= cost_basis_values(v.take(j as int)).push(
                v[j as int].position.cost_basis,
            ));
            assert(market_values(v.take(j + 1)) =~= market_values(v.take(j as int)).push(
                v[j as int].market_value,
            ));
            assert(unrealized_values(v.take(j + 1)) =~= unrealized_values(v.take(j as int)).push(
                v[j as int].unrealized_pnl,
            ));
        }
        let ghost cost_basis_before = cost_basis@;
        match checked_add(&cost_basis, &x.position.cost_basis) {
            Some(y) => {
                cost_basis = y;
                proof {
                    assert(cost_basis_values(v)[j as int] == x.position.cost_basis@);
                    lemma_exact_total_step(cost_basis_values(v), j as int, cost_basis_before, cost_basis@);
                }
            },
            None => {
                proof {
                    assert(cost_basis_values(v).take(j + 1) =~= cost_basis_values(v.take(j + 1)));
                    lemma_sum_failed_prefix(cost_basis_values(v), j + 1);
                    assert(all_priced(prices, open));
                    assert(!snapshot_fits(t, prices));
                }
                return None;
            },
        }
        let ghost market_value_before = market_value@;
        match checked_add(&market_value, &x.market_value) {
            Some(y) => {
                market_value = y;
                proof {
                    assert(market_values(v)[j as int] == x.market_value@);
                    lemma_exact_total_step(market_values(v), j as int, market_value_before, market_value@);
                }
            },
            None => {
                proof {
                    assert(market_values(v).take(j + 1) =~= market_values(v.take(j + 1)));
                    lemma_sum_failed_prefix(market_values(v), j + 1);
                    assert(all_priced(prices, open));
                    assert(!snapshot_fits(t, prices));
                }
                return None;
            },
        }
        let ghost unrealized_before = unrealized@;
        match checked_add(&unrealized, &x.unrealized_pnl) {
            Some(y) => {
                unrealized = y;
                proof {
                    assert(unrealized_values(v)[j as int] == x.unrealized_pnl@);
                    lemma_exact_total_step(unrealized_values(v), j as int, unrealized_before, unrealized@);
                }
            },
            None => {
                proof {
                    assert(unrealized_values(v).take(j + 1) =~= unrealized_values(v.take(j + 1)));
                    lemma_sum_failed_prefix(unrealized_values(v), j + 1);
                    assert(all_priced(prices, open));
                    assert(!snapshot_fits(t, prices));
                }
                return None;
            },
        }
        j += 1;
    }
    proof {
        assert(v.take(m as int) =~= v);
        assert(cost_basis_values(v).take(m as int) =~= cost_basis_values(v));
        assert(market_values(v).take(m as int) =~= market_values(v));
        assert(unrealized_values(v).take(m as int) =~= unrealized_values(v));
    }
    let snapshot = PortfolioSnapshot::new(
        Timestamp::now(),
        vals,
        cost_basis,
        market_value,
        realized,
        unrealized,
    );
    Some(Ok(snapshot))
}

/// [`try_generate_snapshot`] for inputs on which no figure overflows.
pub fn generate_snapshot(
    transactions: &[Transaction],
    market_data: &AssetMap<MarketData>,
) -> (r: Result<PortfolioSnapshot, EngineError>)
    requires
        snapshot_fits(transactions@, market_data@),
    ensures
        snapshot_result(transactions@, market_data@, r),
        r matches Ok(s) ==> s@.generated_at@.0 >= 0 && s@.generated_at@.1 < 1_000_000_000,
        r matches Ok(s) ==> totals_exact(transactions@, s),
{
    match try_generate_snapshot(transactions, market_data) {
        Some(result) => result,
        None => {
            proof {
                assert(false);
            }
            Err(EngineError::MissingMarketData(AssetId(0)))
        },
    }
}

} // verus!
