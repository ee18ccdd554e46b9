//! What the engine computes, stated over views: the average-cost replay of
//! one asset's history, the per-asset outcome, the ordered holdings, and the
//! snapshot built from them.
//!
//! Arithmetic is `rust_decimal`'s, through the names in `crate::decimal`; an
//! operation that overflows (or divides by zero) makes the whole computation
//! fail, as a panicking operator would.

use vstd::prelude::*;

use crate::decimal::{
    exact_sum_at_fitting_scales, fits_at, scaled, MAX_MANTISSA, MAX_SCALE, decimal_checked_add, decimal_checked_div, decimal_checked_mul, decimal_checked_sub, value_eq,
    value_lt, value_positive, zero_view, DecimalView,
};
use crate::domain::position::{
    position_model, valuation_model, PositionValuation, PositionValuationView, PositionView,
};
use crate::domain::transaction::{Transaction, TransactionType};
use crate::engine::errors::EngineError;
use crate::ids::AssetId;
use crate::market_data::MarketData;

verus! {

/// Where the replay of one asset's history stands.
pub enum Replay {
    /// Still going: the running quantity, average cost and realized profit.
    Running { quantity: DecimalView, average_cost: DecimalView, realized_pnl: DecimalView },
    /// Stopped at a sale of `attempted` units while only `held` were held.
    Oversold { held: DecimalView, attempted: DecimalView },
    /// Stopped at an operation that overflowed or divided by zero.
    Failed,
}

/// The state before any transaction: nothing held, nothing realized.
pub open spec fn replay_start() -> Replay {
    Replay::Running {
        quantity: zero_view(),
        average_cost: zero_view(),
        realized_pnl: zero_view(),
    }
}

/// A buy of `bought` units at `price`: the quantity grows and the average
/// cost becomes the weighted average of the old holding and the purchase,
/// `(average_cost * quantity + price * bought) / (quantity + bought)`.
pub open spec fn buy_step(
    quantity: DecimalView,
    average_cost: DecimalView,
    realized_pnl: DecimalView,
    bought: DecimalView,
    price: DecimalView,
) -> Replay {
    match decimal_checked_add(quantity, bought) {
        None => Replay::Failed,
        Some(new_quantity) => match decimal_checked_mul(average_cost, quantity) {
            None => Replay::Failed,
            Some(held_cost) => match decimal_checked_mul(price, bought) {
                None => Replay::Failed,
                Some(bought_cost) => match decimal_checked_add(held_cost, bought_cost) {
                    None => Replay::Failed,
                    Some(total_cost) => match decimal_checked_div(total_cost, new_quantity) {
                        None => Replay::Failed,
                        Some(new_average) => Replay::Running {
                            quantity: new_quantity,
                            average_cost: new_average,
                            realized_pnl,
                        },
                    },
                },
            },
        },
    }
}

/// A sale of `sold` units at `price`: rejected when more than the held
/// quantity; otherwise `(price - average_cost) * sold` is realized and the
/// quantity shrinks, and the average cost restarts at zero when nothing is
/// left.
pub open spec fn sell_step(
    quantity: DecimalView,
    average_cost: DecimalView,
    realized_pnl: DecimalView,
    sold: DecimalView,
    price: DecimalView,
) -> Replay {
    if value_lt(quantity, sold) {
        Replay::Oversold { held: quantity, attempted: sold }
    } else {
        match decimal_checked_sub(price, average_cost) {
            None => Replay::Failed,
            Some(margin) => match decimal_checked_mul(margin, sold) {
                None => Replay::Failed,
                Some(gain) => match decimal_checked_add(realized_pnl, gain) {
                    None => Replay::Failed,
                    Some(new_realized) => match decimal_checked_sub(quantity, sold) {
                        None => Replay::Failed,
                        Some(new_quantity) => Replay::Running {
                            quantity: new_quantity,
                            average_cost: if value_eq(new_quantity, zero_view()) {
                                zero_view()
                            } else {
                                average_cost
                            },
                            realized_pnl: new_realized,
                        },
                    },
                },
            },
        }
    }
}

/// One transaction applied to a replay; a stopped replay stays stopped.
pub open spec fn replay_step(state: Replay, transaction_type: TransactionType) -> Replay {
    match state {
        Replay::Running { quantity, average_cost, realized_pnl } => match transaction_type {
            TransactionType::Buy { quantity: bought, price } => buy_step(
                quantity,
                average_cost,
                realized_pnl,
                bought@,
                price@,
            ),
            TransactionType::Sell { quantity: sold, price } => sell_step(
                quantity,
                average_cost,
                realized_pnl,
                sold@,
                price@,
            ),
        },
        _ => state,
    }
}

/// The average-cost replay of a history, in the order given.
pub open spec fn replay(history: Seq<TransactionType>) -> Replay
    decreases history.len(),
{
    if history.len() == 0 {
        replay_start()
    } else {
        replay_step(replay(history.drop_last()), history.last())
    }
}

/// What a sale of `sold` units at `price` realizes against `average_cost`:
/// `(price - average_cost) * sold`.
pub open spec fn sell_gain(average_cost: DecimalView, sold: DecimalView, price: DecimalView) -> Option<
    DecimalView,
> {
    match decimal_checked_sub(price, average_cost) {
        Some(margin) => decimal_checked_mul(margin, sold),
        None => None,
    }
}

/// The gain of every sale in a history, in order, each taken against the
/// average cost that the replay holds just before it.
pub open spec fn realized_gains(history: Seq<TransactionType>) -> Seq<DecimalView>
    decreases history.len(),
{
    if history.len() == 0 {
        Seq::empty()
    } else {
        let earlier = realized_gains(history.drop_last());
        match (replay(history.drop_last()), history.last()) {
            (
                Replay::Running { quantity, average_cost, .. },
                TransactionType::Sell { quantity: sold, price },
            ) => if value_lt(quantity, sold@) {
                earlier
            } else {
                match sell_gain(average_cost, sold@, price@) {
                    Some(gain) => earlier.push(gain),
                    None => earlier,
                }
            },
            _ => earlier,
        }
    }
}

/// Units bought minus units sold over a history, each quantity written at
/// scale `s`.
pub open spec fn net_quantity(history: Seq<TransactionType>, s: nat) -> int
    decreases history.len(),
{
    if history.len() == 0 {
        0
    } else {
        net_quantity(history.drop_last(), s) + match history.last() {
            TransactionType::Buy { quantity, .. } => scaled(quantity@, s),
            TransactionType::Sell { quantity, .. } => -scaled(quantity@, s),
        }
    }
}

/// Every quantity of the history can be written at scale `s`, and so can the
/// running net quantity after each of its transactions: no addition or
/// subtraction of quantities needs rounding.
pub open spec fn quantities_fit(history: Seq<TransactionType>, s: nat) -> bool {
    &&& s <= MAX_SCALE
    &&& forall|k: int| 0 <= k < history.len() ==> (#[trigger] history[k]).quantity_view().1 <= s
    &&& forall|k: int|
        0 <= k <= history.len() ==> -MAX_MANTISSA <= #[trigger] net_quantity(history.take(k), s)
            <= MAX_MANTISSA
}

/// The position holds what its history bought minus what it sold, at every
/// scale at which that arithmetic needs no rounding.
pub open spec fn quantity_matches_history(p: PositionView, history: Seq<TransactionType>) -> bool {
    forall|s: nat|
        #[trigger] quantities_fit(history, s) ==> p.quantity.1 <= s && scaled(p.quantity, s)
            == net_quantity(history, s)
}

/// The buys and sells of `asset_id` among `transactions`, in order.
pub open spec fn asset_history(transactions: Seq<Transaction>, asset_id: AssetId) -> Seq<
    TransactionType,
>
    decreases transactions.len(),
{
    if transactions.len() == 0 {
        Seq::empty()
    } else {
        let earlier = asset_history(transactions.drop_last(), asset_id);
        if transactions.last()@.asset_id == asset_id {
            earlier.push(transactions.last()@.transaction_type)
        } else {
            earlier
        }
    }
}

/// What replaying one asset yields.
pub enum PositionOutcome {
    Built(PositionView),
    Oversold { held: DecimalView, attempted: DecimalView },
    Failed,
}

/// The position of `asset_id` after replaying its whole history, or why
/// there is none.
pub open spec fn position_outcome(transactions: Seq<Transaction>, asset_id: AssetId) -> PositionOutcome {
    match replay(asset_history(transactions, asset_id)) {
        Replay::Running { quantity, average_cost, realized_pnl } => match position_model(
            asset_id,
            quantity,
            average_cost,
            realized_pnl,
        ) {
            Some(p) => PositionOutcome::Built(p),
            None => PositionOutcome::Failed,
        },
        Replay::Oversold { held, attempted } => PositionOutcome::Oversold { held, attempted },
        Replay::Failed => PositionOutcome::Failed,
    }
}

/// The position in a built outcome.
pub open spec fn built_position(outcome: PositionOutcome) -> PositionView {
    match outcome {
        PositionOutcome::Built(p) => p,
        _ => arbitrary(),
    }
}

/// Some transaction among the first `n` concerns `asset_id`.
pub open spec fn holds_asset_before(transactions: Seq<Transaction>, n: int, asset_id: AssetId) -> bool {
    exists|i: int| 0 <= i < n && (#[trigger] transactions[i])@.asset_id == asset_id
}

/// Some transaction concerns `asset_id`.
pub open spec fn holds_asset(transactions: Seq<Transaction>, asset_id: AssetId) -> bool {
    holds_asset_before(transactions, transactions.len() as int, asset_id)
}

/// Ids in strictly ascending order (so none twice).
pub open spec fn ascending_ids(ids: Seq<AssetId>) -> bool {
    forall|i: int, j: int| 0 <= i < j < ids.len() ==> (#[trigger] ids[i])@ < (#[trigger] ids[j])@
}

/// `ids` lists, in ascending order, exactly the assets of `transactions`.
pub open spec fn lists_assets_of(transactions: Seq<Transaction>, ids: Seq<AssetId>) -> bool {
    &&& ascending_ids(ids)
    &&& forall|a: AssetId| ids.contains(a) <==> holds_asset(transactions, a)
}

/// The assets of a history, in ascending id order.
pub open spec fn asset_ids(transactions: Seq<Transaction>) -> Seq<AssetId> {
    choose|ids: Seq<AssetId>| lists_assets_of(transactions, ids)
}

/// No asset's replay overflows.
pub open spec fn replay_fits(transactions: Seq<Transaction>) -> bool {
    forall|a: AssetId| holds_asset(transactions, a) ==> !(#[trigger] position_outcome(transactions, a) is Failed)
}

/// Every asset's replay yields a position.
pub open spec fn all_built(transactions: Seq<Transaction>) -> bool {
    forall|a: AssetId| holds_asset(transactions, a) ==> #[trigger] position_outcome(transactions, a) is Built
}

/// The position of every asset of the history, in ascending asset-id order,
/// closed positions included.
pub open spec fn holdings_model(transactions: Seq<Transaction>) -> Seq<PositionView> {
    asset_ids(transactions).map_values(|a: AssetId| built_position(position_outcome(transactions, a)))
}

/// `e` reports the asset of the history, smallest by id, whose replay sold
/// more than was held.
pub open spec fn oversold_error(transactions: Seq<Transaction>, e: EngineError) -> bool {
    &&& e matches EngineError::OversoldAsset { asset_id, held, attempted } && holds_asset(
        transactions,
        asset_id,
    ) && position_outcome(transactions, asset_id) == (PositionOutcome::Oversold {
        held: held@,
        attempted: attempted@,
    }) && forall|b: AssetId|
        holds_asset(transactions, b) && b@ < asset_id@ ==> !(#[trigger] position_outcome(
            transactions,
            b,
        ) is Oversold)
}

/// The positions whose quantity is above zero, in order.
pub open spec fn open_positions(held: Seq<PositionView>) -> Seq<PositionView>
    decreases held.len(),
{
    if held.len() == 0 {
        Seq::empty()
    } else {
        let earlier = open_positions(held.drop_last());
        if value_positive(held.last().quantity) {
            earlier.push(held.last())
        } else {
            earlier
        }
    }
}

/// The left-to-right sum of `s`, starting from zero (`None` on overflow).
pub open spec fn sum_of(s: Seq<DecimalView>) -> Option<DecimalView>
    decreases s.len(),
{
    if s.len() == 0 {
        Some(zero_view())
    } else {
        match sum_of(s.drop_last()) {
            Some(total) => decimal_checked_add(total, s.last()),
            None => None,
        }
    }
}

/// The exact sum of `values`, each written at scale `s`.
pub open spec fn exact_total(values: Seq<DecimalView>, s: nat) -> int
    decreases values.len(),
{
    if values.len() == 0 {
        0
    } else {
        exact_total(values.drop_last(), s) + scaled(values.last(), s)
    }
}

/// Every value can be written at scale `s`, and so can every running total:
/// summing them needs no rounding.
pub open spec fn totals_fit(values: Seq<DecimalView>, s: nat) -> bool {
    &&& s <= MAX_SCALE
    &&& forall|k: int| 0 <= k < values.len() ==> (#[trigger] values[k]).1 <= s
    &&& forall|k: int|
        0 <= k <= values.len() ==> -MAX_MANTISSA <= #[trigger] exact_total(values.take(k), s)
            <= MAX_MANTISSA
}

/// `total` is the exact sum of `values` at every scale at which summing them
/// needs no rounding.
pub open spec fn total_is_exact(values: Seq<DecimalView>, total: DecimalView) -> bool {
    forall|s: nat|
        #[trigger] totals_fit(values, s) ==> total.1 <= s && scaled(total, s) == exact_total(values, s)
}

/// Adding the next value to a running exact total.
pub proof fn lemma_total_step(values: Seq<DecimalView>, i: int, s: nat)
    requires
        0 <= i < values.len(),
    ensures
        exact_total(values.take(i + 1), s) == exact_total(values.take(i), s) + scaled(values[i], s),
{
    assert(values.take(i + 1).drop_last() =~= values.take(i));
}

/// The realized profit of each position.
pub open spec fn realized_values(held: Seq<PositionView>) -> Seq<DecimalView> {
    held.map_values(|p: PositionView| p.realized_pnl)
}

/// Realized profit over the whole history, closed positions included.
pub open spec fn realized_total(held: Seq<PositionView>) -> Option<DecimalView> {
    sum_of(realized_values(held))
}

/// The market data has a price for the position's asset.
pub open spec fn priced(prices: Map<AssetId, MarketData>, p: PositionView) -> bool {
    prices.contains_key(p.asset_id)
}

/// The position valued at its asset's price.
pub open spec fn valuation_of(prices: Map<AssetId, MarketData>, p: PositionView) -> Option<
    PositionValuationView,
> {
    valuation_model(p, prices[p.asset_id].price@)
}

/// The unwrapped valuation of every open position.
pub open spec fn valuations(prices: Map<AssetId, MarketData>, open: Seq<PositionView>) -> Seq<
    PositionValuationView,
> {
    open.map_values(|p: PositionView| valuation_of(prices, p).unwrap())
}

/// The views of a list of valuations.
pub open spec fn valuation_views(s: Seq<PositionValuation>) -> Seq<PositionValuationView> {
    s.map_values(|x: PositionValuation| x@)
}

pub open spec fn cost_basis_values(v: Seq<PositionValuationView>) -> Seq<DecimalView> {
    v.map_values(|x: PositionValuationView| x.position.cost_basis)
}

pub open spec fn market_values(v: Seq<PositionValuationView>) -> Seq<DecimalView> {
    v.map_values(|x: PositionValuationView| x.market_value)
}

pub open spec fn unrealized_values(v: Seq<PositionValuationView>) -> Seq<DecimalView> {
    v.map_values(|x: PositionValuationView| x.unrealized_pnl)
}

/// Cost basis summed over the valued positions.
pub open spec fn total_cost_basis(v: Seq<PositionValuationView>) -> Option<DecimalView> {
    sum_of(cost_basis_values(v))
}

/// Market value summed over the valued positions.
pub open spec fn total_market_value(v: Seq<PositionValuationView>) -> Option<DecimalView> {
    sum_of(market_values(v))
}

/// Unrealized profit summed over the valued positions.
pub open spec fn total_unrealized_pnl(v: Seq<PositionValuationView>) -> Option<DecimalView> {
    sum_of(unrealized_values(v))
}

/// Every open position has a price.
pub open spec fn all_priced(prices: Map<AssetId, MarketData>, open: Seq<PositionView>) -> bool {
    forall|i: int| 0 <= i < open.len() ==> priced(prices, #[trigger] open[i])
}

/// Every figure of the snapshot is computed without overflow, whichever
/// order the assets are taken in.
pub open spec fn snapshot_fits(transactions: Seq<Transaction>, prices: Map<AssetId, MarketData>) -> bool {
    &&& replay_fits(transactions)
    &&& all_built(transactions) ==> {
        let held = holdings_model(transactions);
        let open = open_positions(held);
        &&& realized_total(held) is Some
        &&& forall|i: int|
            0 <= i < open.len() && priced(prices, #[trigger] open[i]) ==> valuation_of(prices, open[i]) is Some
        &&& all_priced(prices, open) ==> {
            let v = valuations(prices, open);
            &&& total_cost_basis(v) is Some
            &&& total_market_value(v) is Some
            &&& total_unrealized_pnl(v) is Some
        }
    }
}

// ---- lemmas ----

/// Two ascending id lists with the same members are the same list.
pub proof fn lemma_ascending_unique(s1: Seq<AssetId>, s2: Seq<AssetId>)
    requires
        ascending_ids(s1),
        ascending_ids(s2),
        forall|a: AssetId| s1.contains(a) <==> s2.contains(a),
    ensures
        s1 == s2,
    decreases s1.len(),
{
    if s1.len() == 0 {
        if s2.len() > 0 {
            assert(s2.contains(s2[0]));
        }
        assert(s1 =~= s2);
    } else {
        assert(s1.contains(s1[0]));
        assert(s2.len() > 0);
        assert(s2.contains(s2[0]));
        let k = choose|k: int| 0 <= k < s2.len() && s2[k] == s1[0];
        let m = choose|m: int| 0 <= m < s1.len() && s1[m] == s2[0];
        if k > 0 {
            assert(s2[0]@ < s2[k]@);
        }
        if m > 0 {
            assert(s1[0]@ < s1[m]@);
        }
        assert(s1[0] == s2[0]);
        let t1 = s1.drop_first();
        let t2 = s2.drop_first();
        assert forall|a: AssetId| t1.contains(a) implies t2.contains(a) by {
            let i = choose|i: int| 0 <= i < t1.len() && t1[i] == a;
            assert(s1[i + 1] == a);
            assert(s1[0]@ < s1[i + 1]@);
            assert(s2.contains(a));
            let j = choose|j: int| 0 <= j < s2.len() && s2[j] == a;
            assert(j != 0);
            assert(t2[j - 1] == a);
        }
        assert forall|a: AssetId| t2.contains(a) implies t1.contains(a) by {
            let i = choose|i: int| 0 <= i < t2.len() && t2[i] == a;
            assert(s2[i + 1] == a);
            assert(s2[0]@ < s2[i + 1]@);
            assert(s1.contains(a));
            let j = choose|j: int| 0 <= j < s1.len() && s1[j] == a;
            assert(j != 0);
            assert(t1[j - 1] == a);
        }
        lemma_ascending_unique(t1, t2);
        assert(s1.len() == s2.len());
        assert forall|i: int| 0 <= i < s1.len() implies s1[i] == s2[i] by {
            if i > 0 {
                assert(s1[i] == t1[i - 1]);
                assert(s2[i] == t2[i - 1]);
            }
        }
        assert(s1 =~= s2);
    }
}

/// A list that satisfies [`lists_assets_of`] is the one [`asset_ids`] names.
pub proof fn lemma_asset_ids_is(transactions: Seq<Transaction>, ids: Seq<AssetId>)
    requires
        lists_assets_of(transactions, ids),
    ensures
        asset_ids(transactions) == ids,
{
    let chosen = asset_ids(transactions);
    assert(lists_assets_of(transactions, chosen));
    lemma_ascending_unique(chosen, ids);
}

/// Extending a history by one transaction extends each asset's history by
/// that transaction or leaves it unchanged.
pub proof fn lemma_asset_history_step(transactions: Seq<Transaction>, i: int, asset_id: AssetId)
    requires
        0 <= i < transactions.len(),
    ensures
        asset_history(transactions.take(i + 1), asset_id) == if transactions[i]@.asset_id
            == asset_id {
            asset_history(transactions.take(i), asset_id).push(transactions[i]@.transaction_type)
        } else {
            asset_history(transactions.take(i), asset_id)
        },
{
    assert(transactions.take(i + 1).drop_last() =~= transactions.take(i));
}

/// Replaying one more transaction is one more step.
pub proof fn lemma_replay_push(history: Seq<TransactionType>, t: TransactionType)
    ensures
        replay(history.push(t)) == replay_step(replay(history), t),
{
    assert(history.push(t).drop_last() =~= history);
}

/// Summing one more value is one more checked addition.
pub proof fn lemma_sum_push(s: Seq<DecimalView>, x: DecimalView)
    ensures
        sum_of(s.push(x)) == match sum_of(s) {
            Some(total) => decimal_checked_add(total, x),
            None => None,
        },
{
    assert(s.push(x).drop_last() =~= s);
}

/// Once a sum has overflowed, it stays overflowed.
pub proof fn lemma_sum_failed_prefix(s: Seq<DecimalView>, n: int)
    requires
        0 <= n <= s.len(),
        sum_of(s.take(n)) is None,
    ensures
        sum_of(s) is None,
    decreases s.len() - n,
{
    if n < s.len() {
        lemma_sum_push(s.take(n), s[n]);
        assert(s.take(n).push(s[n]) =~= s.take(n + 1));
        lemma_sum_failed_prefix(s, n + 1);
    } else {
        assert(s.take(n) =~= s);
    }
}

/// Keeping the open positions of one more position.
pub proof fn lemma_open_positions_push(held: Seq<PositionView>, p: PositionView)
    ensures
        open_positions(held.push(p)) == if value_positive(p.quantity) {
            open_positions(held).push(p)
        } else {
            open_positions(held)
        },
{
    assert(held.push(p).drop_last() =~= held);
}

/// The open positions of a prefix start the open positions of the whole.
pub proof fn lemma_open_prefix(held: Seq<PositionView>, j: int)
    requires
        0 <= j <= held.len(),
    ensures
        open_positions(held.take(j)).len() <= open_positions(held).len(),
        forall|m: int|
            0 <= m < open_positions(held.take(j)).len() ==> #[trigger] open_positions(held.take(j))[m]
                == open_positions(held)[m],
    decreases held.len() - j,
{
    if j < held.len() {
        lemma_open_prefix(held, j + 1);
        lemma_open_positions_push(held.take(j), held[j]);
        assert(held.take(j).push(held[j]) =~= held.take(j + 1));
        assert forall|m: int| 0 <= m < open_positions(held.take(j)).len() implies #[trigger] open_positions(
            held.take(j),
        )[m] == open_positions(held)[m] by {
            assert(open_positions(held.take(j))[m] == open_positions(held.take(j + 1))[m]);
        }
    } else {
        assert(held.take(j) =~= held);
    }
}


/// `s` with `a` put in its place by id, unless it is already there.
pub open spec fn insert_sorted(s: Seq<AssetId>, a: AssetId) -> Seq<AssetId>
    decreases s.len(),
{
    if s.len() == 0 {
        seq![a]
    } else if a@ < s[0]@ {
        seq![a] + s
    } else if a@ == s[0]@ {
        s
    } else {
        seq![s[0]] + insert_sorted(s.drop_first(), a)
    }
}

/// Inserting into an ascending list keeps it ascending and adds just `a`.
pub proof fn lemma_insert_sorted(s: Seq<AssetId>, a: AssetId)
    requires
        ascending_ids(s),
    ensures
        ascending_ids(insert_sorted(s, a)),
        forall|b: AssetId| #[trigger] insert_sorted(s, a).contains(b) <==> (s.contains(b) || b == a),
    decreases s.len(),
{
    let r = insert_sorted(s, a);
    if s.len() == 0 {
        assert forall|b: AssetId| r.contains(b) <==> (s.contains(b) || b == a) by {
            if r.contains(b) {
                let k = choose|k: int| 0 <= k < r.len() && r[k] == b;
                assert(k == 0);
            }
            if b == a {
                assert(r[0] == a);
            }
        }
    } else if a@ < s[0]@ {
        assert forall|i: int, j: int| 0 <= i < j < r.len() implies (#[trigger] r[i])@ < (
        #[trigger] r[j])@ by {
            if i == 0 {
                assert(r[j] == s[j - 1]);
                if j > 1 {
                    assert(s[0]@ < s[j - 1]@);
                }
            } else {
                assert(r[i] == s[i - 1] && r[j] == s[j - 1]);
            }
        }
        assert forall|b: AssetId| r.contains(b) <==> (s.contains(b) || b == a) by {
            if r.contains(b) {
                let k = choose|k: int| 0 <= k < r.len() && r[k] == b;
                if k > 0 {
                    assert(s[k - 1] == b);
                }
            }
            if s.contains(b) {
                let k = choose|k: int| 0 <= k < s.len() && s[k] == b;
                assert(r[k + 1] == b);
            }
            if b == a {
                assert(r[0] == a);
            }
        }
    } else if a@ == s[0]@ {
        assert(a == s[0]);
        assert(s.contains(s[0]));
    } else {
        let t = s.drop_first();
        assert(ascending_ids(t)) by {
            assert forall|i: int, j: int| 0 <= i < j < t.len() implies (#[trigger] t[i])@ < (
            #[trigger] t[j])@ by {
                assert(t[i] == s[i + 1] && t[j] == s[j + 1]);
            }
        }
        lemma_insert_sorted(t, a);
        let rest = insert_sorted(t, a);
        assert(r == seq![s[0]] + rest);
        assert forall|b: AssetId| rest.contains(b) implies s[0]@ < b@ by {
            if t.contains(b) {
                let k = choose|k: int| 0 <= k < t.len() && t[k] == b;
                assert(s[k + 1] == b);
                assert(s[0]@ < s[k + 1]@);
            }
        }
        assert forall|i: int, j: int| 0 <= i < j < r.len() implies (#[trigger] r[i])@ < (
        #[trigger] r[j])@ by {
            assert(r[j] == rest[j - 1]);
            assert(rest.contains(rest[j - 1]));
            if i > 0 {
                assert(r[i] == rest[i - 1]);
            }
        }
        assert forall|b: AssetId| r.contains(b) <==> (s.contains(b) || b == a) by {
            if r.contains(b) {
                let k = choose|k: int| 0 <= k < r.len() && r[k] == b;
                if k > 0 {
                    assert(rest[k - 1] == b);
                    assert(rest.contains(b));
                    if t.contains(b) {
                        let m = choose|m: int| 0 <= m < t.len() && t[m] == b;
                        assert(s[m + 1] == b);
                    }
                } else {
                    assert(s[0] == b);
                }
            }
            if s.contains(b) {
                let k = choose|k: int| 0 <= k < s.len() && s[k] == b;
                if k == 0 {
                    assert(r[0] == b);
                } else {
                    assert(t[k - 1] == b);
                    assert(rest.contains(b));
                    let m = choose|m: int| 0 <= m < rest.len() && rest[m] == b;
                    assert(r[m + 1] == b);
                }
            }
            if b == a {
                assert(rest.contains(a));
                let m = choose|m: int| 0 <= m < rest.len() && rest[m] == a;
                assert(r[m + 1] == a);
            }
        }
    }
}

/// Every history has its assets listed in ascending id order, so
/// [`asset_ids`] names that list.
pub proof fn lemma_asset_ids_exist(transactions: Seq<Transaction>)
    ensures
        lists_assets_of(transactions, asset_ids(transactions)),
    decreases transactions.len(),
{
    if transactions.len() == 0 {
        let e = Seq::<AssetId>::empty();
        assert(lists_assets_of(transactions, e));
    } else {
        let earlier = transactions.drop_last();
        lemma_asset_ids_exist(earlier);
        let ids = asset_ids(earlier);
        let a = transactions.last()@.asset_id;
        lemma_insert_sorted(ids, a);
        let w = insert_sorted(ids, a);
        assert forall|b: AssetId| w.contains(b) <==> holds_asset(transactions, b) by {
            if holds_asset(transactions, b) {
                let k = choose|k: int|
                    0 <= k < transactions.len() && (#[trigger] transactions[k])@.asset_id == b;
                if k < transactions.len() - 1 {
                    assert(earlier[k] == transactions[k]);
                    assert(holds_asset(earlier, b));
                }
            }
            if ids.contains(b) {
                assert(holds_asset(earlier, b));
                let k = choose|k: int| 0 <= k < earlier.len() && (#[trigger] earlier[k])@.asset_id == b;
                assert(transactions[k] == earlier[k]);
            }
            if b == a {
                assert(transactions[transactions.len() - 1]@.asset_id == b);
            }
        }
        assert(lists_assets_of(transactions, w));
    }
}

/// When every asset's replay yields a position, the holdings list one
/// position per asset of the history, at its asset's place in ascending id
/// order.
pub proof fn lemma_holdings_model_lists_assets(transactions: Seq<Transaction>)
    requires
        all_built(transactions),
    ensures
        holdings_model(transactions).len() == asset_ids(transactions).len(),
        forall|i: int|
            0 <= i < holdings_model(transactions).len() ==> (#[trigger] holdings_model(
                transactions,
            )[i]).asset_id == asset_ids(transactions)[i] && position_outcome(
                transactions,
                asset_ids(transactions)[i],
            ) == PositionOutcome::Built(holdings_model(transactions)[i]),
        forall|i: int, j: int|
            0 <= i < j < holdings_model(transactions).len() ==> (#[trigger] holdings_model(
                transactions,
            )[i]).asset_id@ < (#[trigger] holdings_model(transactions)[j]).asset_id@,
        forall|a: AssetId|
            holds_asset(transactions, a) <==> exists|i: int|
                0 <= i < holdings_model(transactions).len() && (#[trigger] holdings_model(
                    transactions,
                )[i]).asset_id == a,
{
    lemma_asset_ids_exist(transactions);
    let ids = asset_ids(transactions);
    let h = holdings_model(transactions);
    assert forall|i: int| 0 <= i < h.len() implies (#[trigger] h[i]).asset_id == ids[i]
        && position_outcome(transactions, ids[i]) == PositionOutcome::Built(h[i]) by {
        assert(ids.contains(ids[i]));
        assert(position_outcome(transactions, ids[i]) is Built);
    }
    assert forall|i: int, j: int| 0 <= i < j < h.len() implies (#[trigger] h[i]).asset_id@ < (
    #[trigger] h[j]).asset_id@ by {
        assert(h[i].asset_id == ids[i]);
        assert(h[j].asset_id == ids[j]);
    }
    assert forall|a: AssetId| holds_asset(transactions, a) <==> exists|i: int|
        0 <= i < h.len() && (#[trigger] h[i]).asset_id == a by {
        if holds_asset(transactions, a) {
            assert(ids.contains(a));
            let k = choose|k: int| 0 <= k < ids.len() && ids[k] == a;
            assert(h[k].asset_id == a);
        }
        if exists|i: int| 0 <= i < h.len() && (#[trigger] h[i]).asset_id == a {
            let k = choose|k: int| 0 <= k < h.len() && (#[trigger] h[k]).asset_id == a;
            assert(h[k].asset_id == ids[k]);
            assert(ids.contains(a));
        }
    }
}

/// The open positions are the positions above zero, each taken once, in
/// the order of the list.
pub proof fn lemma_open_positions_members(held: Seq<PositionView>)
    ensures
        forall|i: int|
            0 <= i < open_positions(held).len() ==> value_positive(
                (#[trigger] open_positions(held)[i]).quantity,
            ) && held.contains(open_positions(held)[i]),
        forall|p: PositionView|
            held.contains(p) && value_positive(p.quantity) ==> open_positions(held).contains(p),
        (forall|i: int, j: int|
            0 <= i < j < held.len() ==> (#[trigger] held[i]).asset_id@ < (
            #[trigger] held[j]).asset_id@) ==> forall|i: int, j: int|
            0 <= i < j < open_positions(held).len() ==> (#[trigger] open_positions(held)[i]).asset_id@
                < (#[trigger] open_positions(held)[j]).asset_id@,
    decreases held.len(),
{
    let open = open_positions(held);
    if held.len() > 0 {
        let earlier = held.drop_last();
        let last = held.last();
        lemma_open_positions_members(earlier);
        lemma_open_positions_push(earlier, last);
        assert(earlier.push(last) =~= held);
        let before = open_positions(earlier);
        assert forall|i: int| 0 <= i < open.len() implies value_positive(
            (#[trigger] open[i]).quantity,
        ) && held.contains(open[i]) by {
            if i < before.len() {
                assert(open[i] == before[i]);
                let k = choose|k: int| 0 <= k < earlier.len() && earlier[k] == before[i];
                assert(held[k] == earlier[k]);
            } else {
                assert(open[i] == last);
                assert(held[held.len() - 1] == last);
            }
        }
        assert forall|p: PositionView| held.contains(p) && value_positive(p.quantity) implies open.contains(
            p,
        ) by {
            let k = choose|k: int| 0 <= k < held.len() && held[k] == p;
            if k < held.len() - 1 {
                assert(earlier[k] == p);
                assert(earlier.contains(p));
                assert(before.contains(p));
                let m = choose|m: int| 0 <= m < before.len() && before[m] == p;
                assert(open[m] == p);
            } else {
                assert(open[before.len() as int] == p);
            }
        }
        if forall|i: int, j: int|
            0 <= i < j < held.len() ==> (#[trigger] held[i]).asset_id@ < (#[trigger] held[j]).asset_id@ {
            assert forall|i: int, j: int| 0 <= i < j < earlier.len() implies (
            #[trigger] earlier[i]).asset_id@ < (#[trigger] earlier[j]).asset_id@ by {
                assert(earlier[i] == held[i] && earlier[j] == held[j]);
            }
            assert forall|i: int, j: int| 0 <= i < j < open.len() implies (
            #[trigger] open[i]).asset_id@ < (#[trigger] open[j]).asset_id@ by {
                if j < before.len() {
                    assert(open[i] == before[i] && open[j] == before[j]);
                } else {
                    assert(open[i] == before[i]);
                    assert(open[j] == last);
                    assert(earlier.contains(before[i]));
                    let k = choose|k: int| 0 <= k < earlier.len() && earlier[k] == before[i];
                    assert(held[k] == earlier[k]);
                    assert(held[held.len() - 1] == last);
                }
            }
        }
    }
}

/// The history of an asset within the first `i` transactions starts the
/// history of that asset within all of them.
pub proof fn lemma_history_prefix(transactions: Seq<Transaction>, i: int, asset_id: AssetId)
    requires
        0 <= i <= transactions.len(),
    ensures
        asset_history(transactions.take(i), asset_id).len() <= asset_history(transactions, asset_id).len(),
        asset_history(transactions, asset_id).take(asset_history(transactions.take(i), asset_id).len() as int)
            == asset_history(transactions.take(i), asset_id),
    decreases transactions.len() - i,
{
    let full = asset_history(transactions, asset_id);
    if i == transactions.len() {
        assert(transactions.take(i) =~= transactions);
        assert(full.take(full.len() as int) =~= full);
    } else {
        lemma_history_prefix(transactions, i + 1, asset_id);
        lemma_asset_history_step(transactions, i, asset_id);
        let p = asset_history(transactions.take(i), asset_id);
        let p1 = asset_history(transactions.take(i + 1), asset_id);
        if p1 != p {
            assert(p1 == p.push(transactions[i]@.transaction_type));
            assert(full.take(p.len() as int) =~= p1.take(p.len() as int));
            assert(p1.take(p.len() as int) =~= p);
        }
    }
}

/// One more exact addition keeps a running total exact.
pub proof fn lemma_exact_total_step(
    values: Seq<DecimalView>,
    j: int,
    before: DecimalView,
    after: DecimalView,
)
    requires
        0 <= j < values.len(),
        forall|s: nat|
            #[trigger] totals_fit(values, s) ==> before.1 <= s && scaled(before, s) == exact_total(
                values.take(j),
                s,
            ),
        exact_sum_at_fitting_scales(before, values[j], after),
    ensures
        forall|s: nat|
            #[trigger] totals_fit(values, s) ==> after.1 <= s && scaled(after, s) == exact_total(
                values.take(j + 1),
                s,
            ),
{
    assert forall|s: nat| #[trigger] totals_fit(values, s) implies after.1 <= s && scaled(after, s)
        == exact_total(values.take(j + 1), s) by {
        lemma_total_step(values, j, s);
        assert(values[j].1 <= s);
        assert(-MAX_MANTISSA <= exact_total(values.take(j + 1), s) <= MAX_MANTISSA);
        assert(fits_at(before, values[j], s, scaled(before, s) + scaled(values[j], s)));
    }
}

} // verus!
