//! Buys and sells, and the order in which they are replayed.

use vstd::prelude::*;

use crate::calendar::{date_lt, Date};
use crate::decimal::{
    decimal_lt, lemma_compare_with_zero, value_positive, zero_view, Decimal, DecimalView,
};
use crate::domain::asset::option_string_view;
use crate::domain::errors::TransactionError;
use crate::ids::{is_v7, AssetId, TransactionId};

verus! {

broadcast use vstd::seq_lib::group_to_multiset_ensures;

/// The check every buy and sell must pass: quantity first, then price, each
/// strictly positive.
pub open spec fn validation(quantity: DecimalView, price: DecimalView) -> Result<(), TransactionError> {
    if !value_positive(quantity) {
        Err(TransactionError::NonPositiveQuantity)
    } else if !value_positive(price) {
        Err(TransactionError::NonPositivePrice)
    } else {
        Ok(())
    }
}

/// What a transaction does. Each variant carries only what it needs.
#[derive(Debug, Clone, Copy, PartialEq, Eq)]
pub enum TransactionType {
    Buy { quantity: Decimal, price: Decimal },
    Sell { quantity: Decimal, price: Decimal },
}

impl TransactionType {
    pub open spec fn quantity_view(self) -> DecimalView {
        match self {
            TransactionType::Buy { quantity, .. } => quantity@,
            TransactionType::Sell { quantity, .. } => quantity@,
        }
    }

    pub open spec fn price_view(self) -> DecimalView {
        match self {
            TransactionType::Buy { price, .. } => price@,
            TransactionType::Sell { price, .. } => price@,
        }
    }

    /// The result of validating this buy or sell.
    pub open spec fn validation(self) -> Result<(), TransactionError> {
        validation(self.quantity_view(), self.price_view())
    }

    /// A buy of `quantity` units at `price` each, if both are positive.
    pub fn buy(quantity: Decimal, price: Decimal) -> (r: Result<TransactionType, TransactionError>)
        ensures
            r == match validation(quantity@, price@) {
                Ok(_) => Ok(TransactionType::Buy { quantity, price }),
                Err(e) => Err(e),
            },
    {
        match Self::validate(&quantity, &price) {
            Ok(()) => Ok(TransactionType::Buy { quantity, price }),
            Err(e) => Err(e),
        }
    }

    /// A sell of `quantity` units at `price` each, if both are positive.
    pub fn sell(quantity: Decimal, price: Decimal) -> (r: Result<TransactionType, TransactionError>)
        ensures
            r == match validation(quantity@, price@) {
                Ok(_) => Ok(TransactionType::Sell { quantity, price }),
                Err(e) => Err(e),
            },
    {
        match Self::validate(&quantity, &price) {
            Ok(()) => Ok(TransactionType::Sell { quantity, price }),
            Err(e) => Err(e),
        }
    }

    fn validate(quantity: &Decimal, price: &Decimal) -> (r: Result<(), TransactionError>)
        ensures
            r == validation(quantity@, price@),
    {
        let zero = Decimal::zero();
        proof {
            lemma_compare_with_zero(quantity@);
            lemma_compare_with_zero(price@);
        }
        if !decimal_lt(&zero, quantity) {
            return Err(TransactionError::NonPositiveQuantity);
        }
        if !decimal_lt(&zero, price) {
            return Err(TransactionError::NonPositivePrice);
        }
        Ok(())
    }

    /// Re-checks an already-built value, such as one written as a literal.
    fn validate_self(&self) -> (r: Result<(), TransactionError>)
        ensures
            r == self.validation(),
    {
        match self {
            TransactionType::Buy { quantity, price } => Self::validate(quantity, price),
            TransactionType::Sell { quantity, price } => Self::validate(quantity, price),
        }
    }
}

/// What a [`Transaction`] holds.
pub struct TransactionView {
    pub id: TransactionId,
    pub asset_id: AssetId,
    pub date: Date,
    pub transaction_type: TransactionType,
    pub notes: Option<Seq<char>>,
}

/// One dated buy or sell of one asset. Its quantity and price are always
/// positive.
#[derive(Debug, PartialEq, Eq)]
pub struct Transaction {
    pub(crate) id: TransactionId,
    pub(crate) asset_id: AssetId,
    pub(crate) date: Date,
    pub(crate) transaction_type: TransactionType,
    pub(crate) notes: Option<String>,
}

impl Transaction {
    /// Quantity and price are positive in every transaction.
    #[verifier::type_invariant]
    spec fn well_formed(self) -> bool {
        self.transaction_type.validation() is Ok
    }

    pub open(crate) spec fn view(&self) -> TransactionView {
        TransactionView {
            id: self.id,
            asset_id: self.asset_id,
            date: self.date,
            transaction_type: self.transaction_type,
            notes: option_string_view(self.notes),
        }
    }

    /// A transaction with a freshly minted id, if its quantity and price
    /// are both positive.
    pub fn new(
        asset_id: AssetId,
        date: Date,
        transaction_type: TransactionType,
        notes: Option<String>,
    ) -> (r: Result<Transaction, TransactionError>)
        ensures
            match transaction_type.validation() {
                Ok(_) => r matches Ok(t) && t@.asset_id == asset_id && t@.date == date
                    && t@.transaction_type == transaction_type && t@.notes == option_string_view(
                    notes,
                ) && is_v7(t@.id@),
                Err(e) => r == Err::<Transaction, TransactionError>(e),
            },
    {
        match transaction_type.validate_self() {
            Err(e) => Err(e),
            Ok(()) => Ok(
                Transaction {
                    id: TransactionId::new(),
                    asset_id,
                    date,
                    transaction_type,
                    notes,
                },
            ),
        }
    }

    /// Rebuilds a transaction that already has an id, such as one read back
    /// from storage.
    pub(crate) fn from_stored(
        id: TransactionId,
        asset_id: AssetId,
        date: Date,
        transaction_type: TransactionType,
        notes: Option<String>,
    ) -> (r: Transaction)
        requires
            transaction_type.validation() is Ok,
        ensures
            r@ == (TransactionView {
                id,
                asset_id,
                date,
                transaction_type,
                notes: option_string_view(notes),
            }),
    {
        Transaction { id, asset_id, date, transaction_type, notes }
    }

    pub fn id(&self) -> (r: TransactionId)
        ensures
            r == self@.id,
    {
        self.id
    }

    pub fn asset_id(&self) -> (r: AssetId)
        ensures
            r == self@.asset_id,
    {
        self.asset_id
    }

    pub fn date(&self) -> (r: Date)
        ensures
            r == self@.date,
    {
        self.date
    }

    pub fn transaction_type(&self) -> (r: &TransactionType)
        ensures
            *r == self@.transaction_type,
            r.validation() is Ok,
    {
        proof {
            use_type_invariant(self);
        }
        &self.transaction_type
    }

    pub fn notes(&self) -> (r: Option<&str>)
        ensures
            crate::domain::asset::option_str_view(r) == self@.notes,
    {
        crate::domain::asset::option_as_str(&self.notes)
    }

    /// The replay order key: date first, then id (time-ordered, so same-day
    /// transactions follow creation order).
    pub fn ordering_key(&self) -> (r: (Date, TransactionId))
        ensures
            r == (self@.date, self@.id),
    {
        (self.date, self.id)
    }
}

impl Clone for Transaction {
    fn clone(&self) -> (r: Transaction)
        ensures
            r == *self,
    {
        proof {
            use_type_invariant(self);
        }
        let notes = match &self.notes {
            Some(n) => Some(n.clone()),
            None => None,
        };
        Transaction {
            id: self.id,
            asset_id: self.asset_id,
            date: self.date,
            transaction_type: self.transaction_type,
            notes,
        }
    }
}

/// `a` replays strictly before `b`: an earlier date, or the same date and a
/// smaller id.
pub open spec fn key_lt(a: Transaction, b: Transaction) -> bool {
    date_lt(a@.date, b@.date) || (a@.date == b@.date && a@.id@ < b@.id@)
}

/// No transaction is followed by one that replays strictly before it.
pub open spec fn sorted_by_key(s: Seq<Transaction>) -> bool {
    forall|i: int, j: int| 0 <= i < j < s.len() ==> !key_lt(#[trigger] s[j], #[trigger] s[i])
}

/// Neither of `a` and `b` replays strictly before the other: they share a
/// date and an id.
pub open spec fn same_key(a: Transaction, b: Transaction) -> bool {
    !key_lt(a, b) && !key_lt(b, a)
}

/// `after` holds `before[pos[k]]` at each place `k`, taking each place of
/// `before` once, and keeps transactions with the same key in the order
/// they had in `before`.
pub open spec fn stable_rearrangement(before: Seq<Transaction>, after: Seq<Transaction>, pos: Seq<int>) -> bool {
    &&& pos.len() == after.len()
    &&& before.len() == after.len()
    &&& forall|k: int| 0 <= k < after.len() ==> 0 <= #[trigger] pos[k] < before.len() && after[k] == before[pos[k]]
    &&& forall|a: int, b: int| 0 <= a < b < after.len() ==> #[trigger] pos[a] != #[trigger] pos[b]
    &&& forall|a: int, b: int|
        0 <= a < b < after.len() && same_key(#[trigger] after[a], #[trigger] after[b]) ==> pos[a] < pos[b]
}

/// `after` is `before` rearranged, with transactions of the same key left
/// in their order.
pub open spec fn stably_rearranged(before: Seq<Transaction>, after: Seq<Transaction>) -> bool {
    exists|pos: Seq<int>| stable_rearrangement(before, after, pos)
}

/// A strictly increasing list of `n` places among `0..n` is `0, 1, ..., n-1`.
proof fn lemma_increasing_places(pos: Seq<int>)
    requires
        forall|k: int| 0 <= k < pos.len() ==> 0 <= #[trigger] pos[k] < pos.len(),
        forall|a: int, b: int| 0 <= a < b < pos.len() ==> #[trigger] pos[a] < #[trigger] pos[b],
    ensures
        forall|k: int| 0 <= k < pos.len() ==> #[trigger] pos[k] == k,
{
    assert forall|k: int| 0 <= k < pos.len() implies #[trigger] pos[k] >= k by {
        lemma_increasing_from_below(pos, k);
    }
    assert forall|k: int| 0 <= k < pos.len() implies #[trigger] pos[k] <= k by {
        lemma_increasing_from_above(pos, k);
    }
}

proof fn lemma_increasing_from_below(pos: Seq<int>, k: int)
    requires
        0 <= k < pos.len(),
        forall|k: int| 0 <= k < pos.len() ==> 0 <= #[trigger] pos[k] < pos.len(),
        forall|a: int, b: int| 0 <= a < b < pos.len() ==> #[trigger] pos[a] < #[trigger] pos[b],
    ensures
        pos[k] >= k,
    decreases k,
{
    if k > 0 {
        lemma_increasing_from_below(pos, k - 1);
        assert(pos[k - 1] < pos[k]);
    }
}

proof fn lemma_increasing_from_above(pos: Seq<int>, k: int)
    requires
        0 <= k < pos.len(),
        forall|k: int| 0 <= k < pos.len() ==> 0 <= #[trigger] pos[k] < pos.len(),
        forall|a: int, b: int| 0 <= a < b < pos.len() ==> #[trigger] pos[a] < #[trigger] pos[b],
    ensures
        pos[k] <= k,
    decreases pos.len() - k,
{
    if k < pos.len() - 1 {
        lemma_increasing_from_above(pos, k + 1);
        assert(pos[k] < pos[k + 1]);
    }
}

/// Sorting stably a ledger already in replay order changes nothing: a
/// stable rearrangement of a sorted ledger that is itself sorted is that
/// same ledger, so a second sort leaves the first one's result as it is.
pub proof fn law_sorting_a_sorted_ledger_changes_nothing(before: Seq<Transaction>, after: Seq<Transaction>)
    requires
        sorted_by_key(before),
        sorted_by_key(after),
        stably_rearranged(before, after),
    ensures
        after == before,
{
    let pos = choose|pos: Seq<int>| stable_rearrangement(before, after, pos);
    assert forall|a: int, b: int| 0 <= a < b < pos.len() implies #[trigger] pos[a] < #[trigger] pos[b] by {
        if !same_key(after[a], after[b]) {
            assert(!key_lt(after[b], after[a]));
            assert(key_lt(after[a], after[b]));
            if pos[b] < pos[a] {
                assert(!key_lt(before[pos[a]], before[pos[b]]));
            }
        }
    }
    lemma_increasing_places(pos);
    assert forall|k: int| 0 <= k < after.len() implies after[k] == before[k] by {
        assert(pos[k] == k);
    }
    assert(after =~= before);
}

/// Compares two transactions' replay keys.
pub(crate) fn key_less(a: &Transaction, b: &Transaction) -> (r: bool)
    ensures
        r == key_lt(*a, *b),
{
    a.date.is_before(&b.date) || (a.date == b.date && a.id.0 < b.id.0)
}

/// Sorts transactions into replay order; stable insertion sort.
pub(crate) fn sort_by_ordering_key(v: &mut Vec<Transaction>)
    ensures
        sorted_by_key(final(v)@),
        final(v)@.to_multiset() == old(v)@.to_multiset(),
        stably_rearranged(old(v)@, final(v)@),
{
    let n = v.len();
    let ghost start = v@;
    let ghost mut pos: Seq<int> = Seq::new(n as nat, |k: int| k);
    if n < 2 {
        proof {
            assert(stable_rearrangement(start, v@, pos));
        }
        return;
    }
    let mut i: usize = 1;
    while i < n
        invariant
            1 <= i <= n,
            v.len() == n,
            start == old(v)@,
            v@.to_multiset() == old(v)@.to_multiset(),
            forall|a: int, b: int| 0 <= a < b < i ==> !key_lt(#[trigger] v@[b], #[trigger] v@[a]),
            pos.len() == n,
            forall|k: int| 0 <= k < n ==> 0 <= #[trigger] pos[k] < n && v@[k] == start[pos[k]],
            forall|k: int| i <= k < n ==> #[trigger] pos[k] == k,
            forall|k: int| 0 <= k < i ==> #[trigger] pos[k] < i,
            forall|a: int, b: int| 0 <= a < b < i ==> #[trigger] pos[a] != #[trigger] pos[b],
            forall|a: int, b: int|
                0 <= a < b < i && same_key(#[trigger] v@[a], #[trigger] v@[b]) ==> pos[a] < pos[b],
        decreases n - i,
    {
        let ghost before = v@;
        let x = v.remove(i);
        let mut j: usize = i;
        while j > 0 && key_less(&x, &v[j - 1])
            invariant
                0 <= j <= i < n,
                v.len() == n - 1,
                v@ == before.remove(i as int),
                forall|k: int| j <= k < i ==> key_lt(x, #[trigger] v@[k]),
            decreases j,
        {
            j -= 1;
        }
        proof {
            assert(j == 0 || !key_lt(x, v@[j - 1]));
        }
        v.insert(j, x);
        proof {
            let old_pos = pos;
            assert(old_pos[i as int] == i && before[i as int] == x);
            pos = old_pos.remove(i as int).insert(j as int, i as int);
            assert forall|k: int| 0 <= k < n implies 0 <= #[trigger] pos[k] < n && v@[k] == start[pos[k]] by {
                if k < j {
                    assert(pos[k] == old_pos[k] && v@[k] == before[k]);
                } else if k == j {
                    assert(v@[k] == x);
                } else if k <= i {
                    assert(pos[k] == old_pos[k - 1] && v@[k] == before[k - 1]);
                } else {
                    assert(pos[k] == old_pos[k] && v@[k] == before[k]);
                }
            }
            assert forall|k: int| i + 1 <= k < n implies #[trigger] pos[k] == k by {
                assert(pos[k] == old_pos[k]);
            }
            assert forall|k: int| 0 <= k < i + 1 implies #[trigger] pos[k] < i + 1 by {
                if k < j {
                    assert(pos[k] == old_pos[k]);
                } else if k > j {
                    assert(pos[k] == old_pos[k - 1]);
                }
            }
            assert forall|a: int, b: int| 0 <= a < b < i + 1 implies #[trigger] pos[a] != #[trigger] pos[b] by {
                let pa = if a < j { a } else if a == j { -1 } else { a - 1 };
                let pb = if b < j { b } else if b == j { -1 } else { b - 1 };
                if a == j {
                    assert(pos[b] == old_pos[pb]);
                    assert(old_pos[pb] < i);
                } else if b == j {
                    assert(pos[a] == old_pos[pa]);
                    assert(old_pos[pa] < i);
                } else {
                    assert(pos[a] == old_pos[pa] && pos[b] == old_pos[pb]);
                    assert(pa < pb);
                }
            }
            assert forall|a: int, b: int|
                0 <= a < b < i + 1 && same_key(#[trigger] v@[a], #[trigger] v@[b]) implies pos[a] < pos[b] by {
                if a == j {
                    assert(v@[b] == before[b - 1]);
                    assert(key_lt(x, before[b - 1]));
                } else if b == j {
                    assert(pos[a] == old_pos[a]);
                } else if b < j {
                    assert(pos[a] == old_pos[a] && pos[b] == old_pos[b]);
                    assert(v@[a] == before[a] && v@[b] == before[b]);
                } else if a < j {
                    assert(pos[a] == old_pos[a] && pos[b] == old_pos[b - 1]);
                    assert(v@[a] == before[a] && v@[b] == before[b - 1]);
                } else {
                    assert(pos[a] == old_pos[a - 1] && pos[b] == old_pos[b - 1]);
                    assert(v@[a] == before[a - 1] && v@[b] == before[b - 1]);
                }
            }
            assert(before.remove(i as int).insert(j as int, x).to_multiset() =~= before.to_multiset());
            assert forall|a: int, b: int| 0 <= a < b < i + 1 implies !key_lt(
                #[trigger] v@[b],
                #[trigger] v@[a],
            ) by {
                if b < j {
                    assert(v@[a] == before[a] && v@[b] == before[b]);
                } else if b == j {
                    assert(v@[a] == before[a]);
                    assert(!key_lt(before[j - 1], before[a]) || a == j - 1);
                } else if a == j {
                    assert(v@[b] == before[b - 1]);
                } else if a < j {
                    assert(v@[a] == before[a]);
                    assert(v@[b] == before[b - 1]);
                } else {
                    assert(v@[a] == before[a - 1]);
                    assert(v@[b] == before[b - 1]);
                }
            }
        }
        i += 1;
    }
    proof {
        assert(stable_rearrangement(start, v@, pos));
    }
}

} // verus!
