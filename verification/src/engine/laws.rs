//! What holds of the engine across calls: it has no memory, so equal inputs
//! give equal results; a snapshot holds exactly the open positions; the
//! holdings cover the whole history; and sorting a ledger leaves one order.

use vstd::prelude::*;

use crate::decimal::{
    adds_exactly, decimal_checked_add, decimal_checked_div, decimal_checked_mul, decimal_checked_sub,
    divides_exactly, lemma_compare_with_zero, multiplies_exactly, pow10, scaled, value_lt,
    value_positive, zero_view, Decimal, DecimalView,
};
use crate::domain::position::{position_model, valuation_model, PositionView};
use crate::calendar::date_lt;
use crate::domain::snapshot::PortfolioSnapshot;
use crate::domain::transaction::{key_lt, sorted_by_key, Transaction, TransactionType};
use crate::engine::errors::EngineError;
use crate::engine::model::{
    lemma_replay_push, lemma_sum_push, realized_gains, replay, sell_gain, sum_of, Replay,
    all_built, all_priced, asset_history, asset_ids, lemma_asset_ids_exist, replay_fits, holdings_model, holds_asset, lemma_asset_ids_is,
    lemma_holdings_model_lists_assets, lemma_open_positions_members, open_positions,
    oversold_error, position_outcome, priced, snapshot_fits, valuation_of, valuation_views,
    valuations, PositionOutcome,
};
use crate::engine::portfolio_engine::{holdings_result, snapshot_result, Holdings};
use crate::ids::AssetId;
use crate::market_data::MarketData;

verus! {

broadcast use vstd::seq_lib::group_to_multiset_ensures;

/// Two errors that both report the oversold asset of a history are the same error.
proof fn lemma_oversold_error_unique(transactions: Seq<Transaction>, e1: EngineError, e2: EngineError)
    requires
        oversold_error(transactions, e1),
        oversold_error(transactions, e2),
    ensures
        e1 == e2,
{
    let a1 = e1->asset_id;
    let a2 = e2->asset_id;
    if a1@ < a2@ {
        assert(!(position_outcome(transactions, a1) is Oversold));
    }
    if a2@ < a1@ {
        assert(!(position_outcome(transactions, a2) is Oversold));
    }
    assert(a1 == a2);
}

/// Replaying the same history twice gives the same holdings, or the same
/// error: the engine keeps nothing between calls.
pub proof fn law_holdings_deterministic(
    transactions: Seq<Transaction>,
    first: Result<Holdings, EngineError>,
    second: Result<Holdings, EngineError>,
)
    requires
        holdings_result(transactions, first),
        holdings_result(transactions, second),
    ensures
        match (first, second) {
            (Ok(a), Ok(b)) => a@ == b@,
            (Err(a), Err(b)) => a == b,
            _ => false,
        },
{
    if let (Err(a), Err(b)) = (first, second) {
        lemma_oversold_error_unique(transactions, a, b);
    }
}

/// Valuing the same history against the same prices twice gives the same
/// positions and totals, or the same error; only the moment the snapshot
/// was taken differs.
pub proof fn law_snapshot_deterministic(
    transactions: Seq<Transaction>,
    prices: Map<AssetId, MarketData>,
    first: Result<PortfolioSnapshot, EngineError>,
    second: Result<PortfolioSnapshot, EngineError>,
)
    requires
        snapshot_result(transactions, prices, first),
        snapshot_result(transactions, prices, second),
    ensures
        match (first, second) {
            (Ok(a), Ok(b)) => valuation_views(a@.positions) == valuation_views(b@.positions)
                && a@.total_cost_basis == b@.total_cost_basis && a@.total_market_value
                == b@.total_market_value && a@.total_realized_pnl == b@.total_realized_pnl
                && a@.total_unrealized_pnl == b@.total_unrealized_pnl,
            (Err(a), Err(b)) => a == b,
            _ => false,
        },
{
    if !all_built(transactions) {
        if let (Err(a), Err(b)) = (first, second) {
            lemma_oversold_error_unique(transactions, a, b);
        }
    } else {
        let open = open_positions(holdings_model(transactions));
        if !all_priced(prices, open) {
            if let (Err(EngineError::MissingMarketData(a)), Err(EngineError::MissingMarketData(b))) = (
                first,
                second,
            ) {
                let i = choose|i: int|
                    0 <= i < open.len() && (#[trigger] open[i]).asset_id == a && !priced(prices, open[i])
                        && forall|j: int| 0 <= j < i ==> priced(prices, #[trigger] open[j]);
                let k = choose|k: int|
                    0 <= k < open.len() && (#[trigger] open[k]).asset_id == b && !priced(prices, open[k])
                        && forall|j: int| 0 <= j < k ==> priced(prices, #[trigger] open[j]);
                if i < k {
                    assert(priced(prices, open[i]));
                }
                if k < i {
                    assert(priced(prices, open[k]));
                }
            }
        }
    }
}

/// A snapshot holds exactly the positions currently held: each with a
/// quantity above zero, each the replayed position of its asset and valued
/// at that asset's price, one per asset in ascending id order, and none of
/// the held ones left out.
pub proof fn law_snapshot_holds_open_positions(
    transactions: Seq<Transaction>,
    prices: Map<AssetId, MarketData>,
    snapshot: PortfolioSnapshot,
)
    requires
        snapshot_fits(transactions, prices),
        snapshot_result(transactions, prices, Ok(snapshot)),
    ensures
        forall|i: int|
            0 <= i < snapshot@.positions.len() ==> {
                let v = #[trigger] valuation_views(snapshot@.positions)[i];
                &&& value_positive(v.position.quantity)
                &&& holds_asset(transactions, v.position.asset_id)
                &&& position_outcome(transactions, v.position.asset_id) == PositionOutcome::Built(
                    v.position,
                )
                &&& v.current_price == prices[v.position.asset_id].price@
            },
        forall|i: int, j: int|
            0 <= i < j < snapshot@.positions.len() ==> (#[trigger] valuation_views(
                snapshot@.positions,
            )[i]).position.asset_id@ < (#[trigger] valuation_views(
                snapshot@.positions,
            )[j]).position.asset_id@,
        forall|a: AssetId|
            holds_asset(transactions, a) && (#[trigger] position_outcome(transactions, a)) is Built
                && value_positive(position_outcome(transactions, a)->Built_0.quantity) ==> exists|i: int|
                0 <= i < snapshot@.positions.len() && (#[trigger] valuation_views(
                    snapshot@.positions,
                )[i]).position == position_outcome(transactions, a)->Built_0,
{
    let held = holdings_model(transactions);
    let open = open_positions(held);
    let v = valuation_views(snapshot@.positions);
    assert(all_built(transactions));
    assert(all_priced(prices, open));
    assert(v == valuations(prices, open));
    lemma_holdings_model_lists_assets(transactions);
    lemma_open_positions_members(held);
    assert forall|i: int| 0 <= i < open.len() implies (#[trigger] v[i]).position == open[i] by {
        assert(priced(prices, open[i]));
        assert(valuation_of(prices, open[i]) is Some);
    }
    assert forall|i: int| 0 <= i < v.len() implies {
        let x = #[trigger] v[i];
        &&& value_positive(x.position.quantity)
        &&& holds_asset(transactions, x.position.asset_id)
        &&& position_outcome(transactions, x.position.asset_id) == PositionOutcome::Built(x.position)
        &&& x.current_price == prices[x.position.asset_id].price@
    } by {
        assert(v[i].position == open[i]);
        assert(held.contains(open[i]));
        let k = choose|k: int| 0 <= k < held.len() && held[k] == open[i];
        assert(held[k].asset_id == asset_ids(transactions)[k]);
        assert(holds_asset(transactions, held[k].asset_id));
        assert(valuation_of(prices, open[i]) is Some);
    }
    assert forall|i: int, j: int| 0 <= i < j < v.len() implies (#[trigger] v[i]).position.asset_id@ < (
    #[trigger] v[j]).position.asset_id@ by {
        assert(v[i].position == open[i]);
        assert(v[j].position == open[j]);
    }
    assert forall|a: AssetId|
        holds_asset(transactions, a) && (#[trigger] position_outcome(transactions, a)) is Built
            && value_positive(position_outcome(transactions, a)->Built_0.quantity) implies exists|i: int|
        0 <= i < v.len() && (#[trigger] v[i]).position == position_outcome(transactions, a)->Built_0 by {
        let p = position_outcome(transactions, a)->Built_0;
        let k = choose|k: int| 0 <= k < held.len() && (#[trigger] held[k]).asset_id == a;
        assert(held[k].asset_id == asset_ids(transactions)[k]);
        assert(held[k] == p);
        assert(held.contains(p));
        assert(open.contains(p));
        let m = choose|m: int| 0 <= m < open.len() && open[m] == p;
        assert(v[m].position == p);
    }
}

/// The holdings of a history list every asset it mentions, closed positions
/// included, each as the replay of that asset's transactions, one per asset
/// in ascending id order.
pub proof fn law_holdings_cover_history(transactions: Seq<Transaction>, holdings: Holdings)
    requires
        holdings_result(transactions, Ok(holdings)),
    ensures
        forall|a: AssetId|
            holds_asset(transactions, a) <==> exists|i: int|
                0 <= i < holdings@.len() && (#[trigger] holdings@[i]).asset_id == a,
        forall|i: int|
            0 <= i < holdings@.len() ==> position_outcome(transactions, (#[trigger] holdings@[i]).asset_id)
                == PositionOutcome::Built(holdings@[i]),
        forall|i: int, j: int|
            0 <= i < j < holdings@.len() ==> (#[trigger] holdings@[i]).asset_id@ < (
            #[trigger] holdings@[j]).asset_id@,
{
    lemma_holdings_model_lists_assets(transactions);
}

/// An empty history values to an empty snapshot with every total zero,
/// whatever the prices.
pub proof fn law_empty_history(prices: Map<AssetId, MarketData>, result: Result<PortfolioSnapshot, EngineError>)
    requires
        snapshot_result(Seq::empty(), prices, result),
    ensures
        snapshot_fits(Seq::empty(), prices),
        result matches Ok(s) && s@.positions.len() == 0 && s@.total_cost_basis == zero_view()
            && s@.total_market_value == zero_view() && s@.total_realized_pnl == zero_view()
            && s@.total_unrealized_pnl == zero_view(),
{
    let t = Seq::<Transaction>::empty();
    lemma_asset_ids_is(t, Seq::empty());
    assert(holdings_model(t) =~= Seq::<PositionView>::empty());
    assert(open_positions(holdings_model(t)) =~= Seq::<PositionView>::empty());
    assert(all_built(t));
    let v = valuations(prices, open_positions(holdings_model(t)));
    assert(v.len() == 0);
    assert(crate::engine::model::cost_basis_values(v) =~= Seq::<DecimalView>::empty());
    assert(crate::engine::model::market_values(v) =~= Seq::<DecimalView>::empty());
    assert(crate::engine::model::unrealized_values(v) =~= Seq::<DecimalView>::empty());
    assert(crate::engine::model::realized_values(holdings_model(t)) =~= Seq::<DecimalView>::empty());
    if let Ok(s) = result {
        assert(valuation_views(s@.positions).len() == s@.positions.len());
    }
}

/// Two ledgers in replay order that hold the same transactions are the same
/// ledger, as long as no two different transactions share a date and an id.
/// So sorting leaves one order, however the transactions were appended.
pub proof fn law_sorted_ledgers_agree(first: Seq<Transaction>, second: Seq<Transaction>)
    requires
        sorted_by_key(first),
        sorted_by_key(second),
        first.to_multiset() == second.to_multiset(),
        forall|i: int, j: int|
            0 <= i < first.len() && 0 <= j < first.len() && (#[trigger] first[i])@.date == (
            #[trigger] first[j])@.date && first[i]@.id == first[j]@.id ==> first[i] == first[j],
    ensures
        first == second,
    decreases first.len(),
{
    first.to_multiset_ensures();
    second.to_multiset_ensures();
    assert(first.len() == second.len());
    if first.len() > 0 {
        let n = first.len() - 1;
        let x = first[n];
        let y = second[n];
        assert(first.to_multiset().count(y) > 0);
        assert(second.to_multiset().count(x) > 0);
        assert(first.contains(y));
        assert(second.contains(x));
        let p = choose|p: int| 0 <= p < first.len() && first[p] == y;
        let q = choose|q: int| 0 <= q < second.len() && second[q] == x;
        if p < n {
            assert(!key_lt(first[n], first[p]));
        }
        if q < n {
            assert(!key_lt(second[n], second[q]));
        }
        assert(!key_lt(x, y));
        assert(!key_lt(y, x));
        assert(x@.date == y@.date);
        assert(x@.id@ == y@.id@);
        assert(x@.id == y@.id);
        assert(x == y);
        let f = first.drop_last();
        let g = second.drop_last();
        assert(first =~= f.push(x));
        assert(second =~= g.push(x));
        assert(f.to_multiset() =~= g.to_multiset()) by {
            assert(f.push(x).to_multiset() == f.to_multiset().insert(x));
            assert(g.push(x).to_multiset() == g.to_multiset().insert(x));
            assert forall|t: Transaction| f.to_multiset().count(t) == g.to_multiset().count(t) by {
                assert(f.to_multiset().insert(x).count(t) == g.to_multiset().insert(x).count(t));
            }
        }
        assert forall|i: int, j: int|
            0 <= i < f.len() && 0 <= j < f.len() && (#[trigger] f[i])@.date == (#[trigger] f[j])@.date
                && f[i]@.id == f[j]@.id implies f[i] == f[j] by {
            assert(f[i] == first[i] && f[j] == first[j]);
        }
        assert(sorted_by_key(f)) by {
            assert forall|i: int, j: int| 0 <= i < j < f.len() implies !key_lt(#[trigger] f[j], #[trigger] f[i]) by {
                assert(f[i] == first[i] && f[j] == first[j]);
            }
        }
        assert(sorted_by_key(g)) by {
            assert forall|i: int, j: int| 0 <= i < j < g.len() implies !key_lt(#[trigger] g[j], #[trigger] g[i]) by {
                assert(g[i] == second[i] && g[j] == second[j]);
            }
        }
        law_sorted_ledgers_agree(f, g);
    } else {
        assert(first =~= second);
    }
}

/// A history mentions an asset exactly when that asset's own history is not
/// empty.
proof fn lemma_holds_asset_iff_history(transactions: Seq<Transaction>, asset_id: AssetId)
    ensures
        holds_asset(transactions, asset_id) <==> asset_history(transactions, asset_id).len() > 0,
    decreases transactions.len(),
{
    if transactions.len() > 0 {
        let earlier = transactions.drop_last();
        lemma_holds_asset_iff_history(earlier, asset_id);
        if holds_asset(earlier, asset_id) {
            let k = choose|k: int| 0 <= k < earlier.len() && (#[trigger] earlier[k])@.asset_id == asset_id;
            assert(transactions[k] == earlier[k]);
        }
        if holds_asset(transactions, asset_id) {
            let k = choose|k: int|
                0 <= k < transactions.len() && (#[trigger] transactions[k])@.asset_id == asset_id;
            if k < transactions.len() - 1 {
                assert(earlier[k] == transactions[k]);
            }
        }
        if transactions.last()@.asset_id == asset_id {
            assert(transactions[transactions.len() - 1]@.asset_id == asset_id);
        }
    }
}

/// Two histories that give every asset the same own history give the engine
/// the same assets, outcomes and holdings.
proof fn lemma_same_asset_histories(first: Seq<Transaction>, second: Seq<Transaction>)
    requires
        forall|a: AssetId| #[trigger] asset_history(first, a) == asset_history(second, a),
    ensures
        forall|a: AssetId| holds_asset(first, a) == holds_asset(second, a),
        forall|a: AssetId| #[trigger] position_outcome(first, a) == position_outcome(second, a),
        asset_ids(first) == asset_ids(second),
        holdings_model(first) == holdings_model(second),
        all_built(first) == all_built(second),
        replay_fits(first) == replay_fits(second),
        forall|e: EngineError| oversold_error(first, e) == oversold_error(second, e),
{
    assert forall|a: AssetId| holds_asset(first, a) == holds_asset(second, a) by {
        lemma_holds_asset_iff_history(first, a);
        lemma_holds_asset_iff_history(second, a);
        assert(asset_history(first, a) == asset_history(second, a));
    }
    assert forall|a: AssetId| #[trigger] position_outcome(first, a) == position_outcome(second, a) by {
        assert(asset_history(first, a) == asset_history(second, a));
    }
    lemma_asset_ids_exist(first);
    lemma_asset_ids_is(second, asset_ids(first));
    assert(holdings_model(first) =~= holdings_model(second));
    if all_built(first) {
        assert forall|a: AssetId| holds_asset(second, a) implies #[trigger] position_outcome(second, a) is Built by {
            assert(holds_asset(first, a));
            assert(position_outcome(first, a) is Built);
        }
    }
    if all_built(second) {
        assert forall|a: AssetId| holds_asset(first, a) implies #[trigger] position_outcome(first, a) is Built by {
            assert(holds_asset(second, a));
            assert(position_outcome(second, a) is Built);
        }
    }
    if replay_fits(first) {
        assert forall|a: AssetId| holds_asset(second, a) implies !(#[trigger] position_outcome(second, a) is Failed) by {
            assert(holds_asset(first, a));
            assert(!(position_outcome(first, a) is Failed));
        }
    }
    if replay_fits(second) {
        assert forall|a: AssetId| holds_asset(first, a) implies !(#[trigger] position_outcome(first, a) is Failed) by {
            assert(holds_asset(second, a));
            assert(!(position_outcome(second, a) is Failed));
        }
    }
    assert forall|e: EngineError| oversold_error(first, e) == oversold_error(second, e) by {
        if oversold_error(first, e) {
            let id = e->asset_id;
            assert(holds_asset(second, id));
            assert forall|b: AssetId| holds_asset(second, b) && b@ < id@ implies !(#[trigger] position_outcome(
                second,
                b,
            ) is Oversold) by {
                assert(holds_asset(first, b));
                assert(!(position_outcome(first, b) is Oversold));
            }
        }
        if oversold_error(second, e) {
            let id = e->asset_id;
            assert(holds_asset(first, id));
            assert forall|b: AssetId| holds_asset(first, b) && b@ < id@ implies !(#[trigger] position_outcome(
                first,
                b,
            ) is Oversold) by {
                assert(holds_asset(second, b));
                assert(!(position_outcome(second, b) is Oversold));
            }
        }
    }
}

/// Interleaving the histories of different assets differently changes no
/// result: two histories that give every asset the same own sequence of buys
/// and sells value alike, with the same positions and totals or the same
/// error, and fit the decimal range alike.
pub proof fn law_snapshot_ignores_interleaving(
    first: Seq<Transaction>,
    second: Seq<Transaction>,
    prices: Map<AssetId, MarketData>,
    first_result: Result<PortfolioSnapshot, EngineError>,
    second_result: Result<PortfolioSnapshot, EngineError>,
)
    requires
        forall|a: AssetId| #[trigger] asset_history(first, a) == asset_history(second, a),
        snapshot_result(first, prices, first_result),
        snapshot_result(second, prices, second_result),
    ensures
        snapshot_fits(first, prices) == snapshot_fits(second, prices),
        match (first_result, second_result) {
            (Ok(a), Ok(b)) => valuation_views(a@.positions) == valuation_views(b@.positions)
                && a@.total_cost_basis == b@.total_cost_basis && a@.total_market_value
                == b@.total_market_value && a@.total_realized_pnl == b@.total_realized_pnl
                && a@.total_unrealized_pnl == b@.total_unrealized_pnl,
            (Err(a), Err(b)) => a == b,
            _ => false,
        },
{
    lemma_same_asset_histories(first, second);
    assert(snapshot_fits(first, prices) == snapshot_fits(second, prices));
    assert(snapshot_result(first, prices, second_result));
    law_snapshot_deterministic(first, prices, first_result, second_result);
}

/// Interleaving the histories of different assets differently changes no
/// holdings: two histories that give every asset the same own sequence of
/// buys and sells replay to the same holdings, or the same error.
pub proof fn law_holdings_ignore_interleaving(
    first: Seq<Transaction>,
    second: Seq<Transaction>,
    first_result: Result<Holdings, EngineError>,
    second_result: Result<Holdings, EngineError>,
)
    requires
        forall|a: AssetId| #[trigger] asset_history(first, a) == asset_history(second, a),
        holdings_result(first, first_result),
        holdings_result(second, second_result),
    ensures
        replay_fits(first) == replay_fits(second),
        match (first_result, second_result) {
            (Ok(a), Ok(b)) => a@ == b@,
            (Err(a), Err(b)) => a == b,
            _ => false,
        },
{
    lemma_same_asset_histories(first, second);
    assert(holdings_result(first, second_result));
    law_holdings_deterministic(first, first_result, second_result);
}

/// Realized profit is never reset: whenever a replay runs to the end, the
/// profit it has realized is the sum, in order, of the gain of every sale,
/// each `(price - average cost just before the sale) * quantity sold`, full
/// exits and fresh buying cycles included.
pub proof fn law_realized_pnl_sums_every_sale(history: Seq<TransactionType>)
    ensures
        replay(history) matches Replay::Running { realized_pnl, .. } ==> sum_of(
            realized_gains(history),
        ) == Some(realized_pnl),
    decreases history.len(),
{
    if history.len() > 0 {
        let earlier = history.drop_last();
        law_realized_pnl_sums_every_sale(earlier);
        assert(earlier.push(history.last()) =~= history);
        lemma_replay_push(earlier, history.last());
        if let Replay::Running { quantity, average_cost, realized_pnl } = replay(earlier) {
            if let TransactionType::Sell { quantity: sold, price } = history.last() {
                if !value_lt(quantity, sold@) {
                    if let Some(gain) = sell_gain(average_cost, sold@, price@) {
                        lemma_sum_push(realized_gains(earlier), gain);
                    }
                }
            }
        }
    } else {
        assert(realized_gains(history) =~= Seq::<DecimalView>::empty());
    }
}

/// The arithmetic of one buy of `bought` units at `price` onto a holding of
/// `quantity` units at `average_cost` is exact: the new quantity
/// `quantity + bought`, the two costs `average_cost * quantity` and
/// `price * bought`, their sum, and that sum over the new quantity.
pub open spec fn buy_arithmetic_exact(
    quantity: DecimalView,
    average_cost: DecimalView,
    bought: DecimalView,
    price: DecimalView,
) -> bool {
    let held_cost = decimal_checked_mul(average_cost, quantity).unwrap();
    let bought_cost = decimal_checked_mul(price, bought).unwrap();
    &&& adds_exactly(quantity, bought)
    &&& multiplies_exactly(average_cost, quantity)
    &&& multiplies_exactly(price, bought)
    &&& adds_exactly(held_cost, bought_cost)
    &&& divides_exactly(
        decimal_checked_add(held_cost, bought_cost).unwrap(),
        decimal_checked_add(quantity, bought).unwrap(),
    )
}

/// A buy sets the average cost to the weighted average of the holding and
/// the purchase: after buying `b` units at `p` onto `q` units at average
/// cost `c`, the quantity is `q + b` and the new average `a` satisfies
/// `a * (q + b) == c * q + p * b`, wherever that arithmetic is exact; in
/// particular, buying below the average lowers it. Realized profit is
/// untouched. (Figures are compared at scale 28.)
pub proof fn law_buy_averages_cost(history: Seq<TransactionType>, bought: Decimal, price: Decimal)
    requires
        replay(history) is Running,
        buy_arithmetic_exact(
            replay(history)->quantity,
            replay(history)->average_cost,
            bought@,
            price@,
        ),
    ensures
        ({
            let before = replay(history);
            let after = replay(history.push(TransactionType::Buy { quantity: bought, price }));
            let q = scaled(before->quantity, 28);
            let c = scaled(before->average_cost, 28);
            let b = scaled(bought@, 28);
            let p = scaled(price@, 28);
            &&& after is Running
            &&& after->realized_pnl == before->realized_pnl
            &&& scaled(after->quantity, 28) == q + b
            &&& scaled(after->average_cost, 28) * (q + b) == c * q + p * b
            &&& (q >= 0 && b > 0 && p < c ==> scaled(after->average_cost, 28) < c)
        }),
{
    let t = TransactionType::Buy { quantity: bought, price };
    lemma_replay_push(history, t);
    let before = replay(history);
    let qv = before->quantity;
    let cv = before->average_cost;
    let held_cost = decimal_checked_mul(cv, qv).unwrap();
    let bought_cost = decimal_checked_mul(price@, bought@).unwrap();
    let total = decimal_checked_add(held_cost, bought_cost).unwrap();
    let new_quantity = decimal_checked_add(qv, bought@).unwrap();
    let average = decimal_checked_div(total, new_quantity).unwrap();
    let after = replay(history.push(t));
    assert(after->average_cost == average);
    let q = scaled(qv, 28);
    let c = scaled(cv, 28);
    let b = scaled(bought@, 28);
    let p = scaled(price@, 28);
    let a = scaled(average, 28);
    let big = pow10(28);
    let h = scaled(held_cost, 28);
    let g = scaled(bought_cost, 28);
    let n = scaled(new_quantity, 28);
    let tt = scaled(total, 28);
    assert(a * (q + b) == c * q + p * b) by (nonlinear_arith)
        requires
            n == q + b,
            tt == h + g,
            h * big == c * q,
            g * big == p * b,
            a * n == tt * big,
    ;
    assert(q >= 0 && b > 0 && p < c ==> a < c) by (nonlinear_arith)
        requires
            a * (q + b) == c * q + p * b,
    ;
}

/// A sale that leaves units held does not change their average cost,
/// whatever the sale price: only a full exit resets it.
pub proof fn law_partial_sale_keeps_average_cost(history: Seq<TransactionType>, sold: Decimal, price: Decimal)
    requires
        replay(history) is Running,
    ensures
        ({
            let after = replay(history.push(TransactionType::Sell { quantity: sold, price }));
            after is Running && after->quantity.0 != 0 ==> after->average_cost == replay(
                history,
            )->average_cost
        }),
{
    let t = TransactionType::Sell { quantity: sold, price };
    lemma_replay_push(history, t);
    let after = replay(history.push(t));
    if after is Running {
        lemma_compare_with_zero(after->quantity);
    }
}

/// A sale is rejected as an oversell exactly when it asks for more than is
/// held, and the rejection reports the holding and the attempt; a sale of at
/// most the holding is never rejected, whatever its price.
pub proof fn law_sale_rejected_exactly_when_oversold(history: Seq<TransactionType>, sold: Decimal, price: Decimal)
    requires
        replay(history) is Running,
    ensures
        ({
            let q = replay(history)->quantity;
            let after = replay(history.push(TransactionType::Sell { quantity: sold, price }));
            &&& after is Oversold <==> value_lt(q, sold@)
            &&& after is Oversold ==> after->held == q && after->attempted == sold@
        }),
{
    lemma_replay_push(history, TransactionType::Sell { quantity: sold, price });
}

/// A ledger in replay order is chronological: no transaction is followed by
/// one dated earlier (by year, then month, then day), and on one day ids
/// come in ascending order.
pub proof fn law_replay_order_is_chronological(ledger: Seq<Transaction>)
    requires
        sorted_by_key(ledger),
    ensures
        forall|i: int, j: int|
            0 <= i < j < ledger.len() ==> !date_lt((#[trigger] ledger[j])@.date, (#[trigger] ledger[i])@.date)
                && (ledger[i]@.date == ledger[j]@.date ==> ledger[i]@.id@ <= ledger[j]@.id@),
{
    assert forall|i: int, j: int| 0 <= i < j < ledger.len() implies !date_lt(
        (#[trigger] ledger[j])@.date,
        (#[trigger] ledger[i])@.date,
    ) && (ledger[i]@.date == ledger[j]@.date ==> ledger[i]@.id@ <= ledger[j]@.id@) by {
        assert(!key_lt(ledger[j], ledger[i]));
    }
}

/// A position's cost basis is the decimal product `quantity * average_cost`,
/// exactly as `rust_decimal` computes it, rounding included; a position
/// exists exactly when that product does not overflow.
pub proof fn law_cost_basis_is_the_product(
    asset_id: AssetId,
    quantity: DecimalView,
    average_cost: DecimalView,
    realized_pnl: DecimalView,
)
    ensures
        position_model(asset_id, quantity, average_cost, realized_pnl) is Some <==> decimal_checked_mul(
            quantity,
            average_cost,
        ) is Some,
        position_model(asset_id, quantity, average_cost, realized_pnl) matches Some(p) ==> p.cost_basis
            == decimal_checked_mul(quantity, average_cost).unwrap() && p.quantity == quantity
            && p.average_cost == average_cost && p.realized_pnl == realized_pnl && p.asset_id == asset_id,
{
}

/// A valuation's market value is the decimal product `quantity * price`, and
/// its unrealized profit is `market value - cost basis`, exactly as
/// `rust_decimal` computes them, rounding included.
pub proof fn law_valuation_figures(position: PositionView, price: DecimalView)
    ensures
        valuation_model(position, price) matches Some(v) ==> v.market_value == decimal_checked_mul(
            position.quantity,
            price,
        ).unwrap() && v.unrealized_pnl == decimal_checked_sub(
            decimal_checked_mul(position.quantity, price).unwrap(),
            position.cost_basis,
        ).unwrap() && v.position == position && v.current_price == price,
        valuation_model(position, price) is Some <==> (decimal_checked_mul(position.quantity, price) matches Some(m)
            && decimal_checked_sub(m, position.cost_basis) is Some),
{
}

} // verus!
