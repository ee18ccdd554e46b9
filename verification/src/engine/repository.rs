//! The persistence interface, and an in-memory transaction store.

use vstd::prelude::*;

use crate::domain::errors::TransactionError;
use crate::domain::transaction::{sort_by_ordering_key, sorted_by_key, Transaction};
use crate::engine::laws::law_sorted_ledgers_agree;
use crate::ids::TransactionId;

verus! {

broadcast use vstd::seq_lib::group_to_multiset_ensures;

/// A store of items of type `T`, each with its natural id and error type.
/// Implemented by the users of this library (SQLite, files, memory).
pub trait Repository<T> {
    type Id;

    type Error;

    /// Stores `item`, replacing any item with the same id, and returns its id.
    fn save(&mut self, item: T) -> Result<Self::Id, Self::Error>;

    /// The item with `id`, if one is stored.
    fn find_by_id(&self, id: &Self::Id) -> Result<Option<T>, Self::Error>;

    /// Every stored item.
    fn find_all(&self) -> Result<Vec<T>, Self::Error>;

    /// Removes the item with `id`, if any; removing an absent id is not an error.
    fn delete(&mut self, id: &Self::Id) -> Result<(), Self::Error>;
}

/// Whether some stored transaction has `id`.
pub open spec fn stores_id(entries: Seq<Transaction>, id: TransactionId) -> bool {
    exists|i: int| 0 <= i < entries.len() && (#[trigger] entries[i])@.id == id
}

/// No two stored transactions share an id.
pub open spec fn ids_unique(entries: Seq<Transaction>) -> bool {
    forall|i: int, j: int|
        0 <= i < entries.len() && 0 <= j < entries.len() && i != j ==> (#[trigger] entries[i])@.id
            != (#[trigger] entries[j])@.id
}

/// The id-to-transaction map that a list with distinct ids stands for.
pub open spec fn id_map(entries: Seq<Transaction>) -> Map<TransactionId, Transaction> {
    Map::new(
        |k: TransactionId| stores_id(entries, k),
        |k: TransactionId|
            entries[choose|i: int| 0 <= i < entries.len() && (#[trigger] entries[i])@.id == k],
    )
}

proof fn lemma_id_map_entry(entries: Seq<Transaction>, i: int)
    requires
        ids_unique(entries),
        0 <= i < entries.len(),
    ensures
        id_map(entries).contains_key(entries[i]@.id),
        id_map(entries)[entries[i]@.id] == entries[i],
{
    let k = entries[i]@.id;
    assert(stores_id(entries, k));
    let j = choose|j: int| 0 <= j < entries.len() && (#[trigger] entries[j])@.id == k;
    assert(j == i);
}

proof fn lemma_id_map_len(entries: Seq<Transaction>)
    requires
        ids_unique(entries),
    ensures
        id_map(entries).dom().finite(),
        id_map(entries).dom().len() == entries.len(),
{
    let ids = entries.map_values(|t: Transaction| t@.id);
    assert forall|i: int, j: int| 0 <= i < ids.len() && 0 <= j < ids.len() && i != j implies ids[i]
        != ids[j] by {
        assert(ids[i] == entries[i]@.id);
        assert(ids[j] == entries[j]@.id);
    }
    assert(ids.no_duplicates());
    ids.unique_seq_to_set();
    assert forall|k: TransactionId| #[trigger] id_map(entries).dom().contains(k) <==> ids.to_set().contains(
        k,
    ) by {
        if stores_id(entries, k) {
            let i = choose|i: int| 0 <= i < entries.len() && (#[trigger] entries[i])@.id == k;
            assert(ids[i] == k);
        }
        if ids.contains(k) {
            let i = choose|i: int| 0 <= i < ids.len() && ids[i] == k;
            assert(entries[i]@.id == k);
        }
    }
    assert(id_map(entries).dom() =~= ids.to_set());
    vstd::seq_lib::seq_to_set_is_finite(ids);
}

/// Reordering a list with distinct ids keeps its ids distinct.
proof fn lemma_ids_unique_permutation(s1: Seq<Transaction>, s2: Seq<Transaction>)
    requires
        ids_unique(s1),
        s1.to_multiset() == s2.to_multiset(),
    ensures
        ids_unique(s2),
{
    assert(s1.no_duplicates());
    s1.lemma_multiset_has_no_duplicates();
    s2.lemma_multiset_has_no_duplicates_conv();
    assert forall|i: int, j: int|
        0 <= i < s2.len() && 0 <= j < s2.len() && i != j implies (#[trigger] s2[i])@.id != (
        #[trigger] s2[j])@.id by {
        assert(s2[i] != s2[j]);
        assert(s2.contains(s2[i]) && s2.contains(s2[j]));
        assert(s2.to_multiset().count(s2[i]) > 0 && s2.to_multiset().count(s2[j]) > 0);
        assert(s1.to_multiset().count(s2[i]) > 0 && s1.to_multiset().count(s2[j]) > 0);
        assert(s1.contains(s2[i]) && s1.contains(s2[j]));
        let p = choose|p: int| 0 <= p < s1.len() && s1[p] == s2[i];
        let q = choose|q: int| 0 <= q < s1.len() && s1[q] == s2[j];
        assert(p != q);
    }
}

/// Two lists without repeats that hold the same transactions hold them as
/// often as each other.
proof fn lemma_same_members_same_multiset(s1: Seq<Transaction>, s2: Seq<Transaction>)
    requires
        s1.no_duplicates(),
        s2.no_duplicates(),
        forall|t: Transaction| s1.contains(t) <==> s2.contains(t),
    ensures
        s1.to_multiset() == s2.to_multiset(),
{
    s1.lemma_multiset_has_no_duplicates();
    s2.lemma_multiset_has_no_duplicates();
    assert forall|t: Transaction| s1.to_multiset().count(t) == s2.to_multiset().count(t) by {
        if s1.contains(t) {
            assert(s1.to_multiset().contains(t));
            assert(s2.to_multiset().contains(t));
        } else {
            assert(s1.to_multiset().count(t) == 0);
            assert(s2.to_multiset().count(t) == 0);
        }
    }
    assert(s1.to_multiset() =~= s2.to_multiset());
}

/// Transactions kept in memory, keyed by id.
#[derive(Debug)]
pub struct InMemoryTransactionRepository {
    pub(crate) transactions: Vec<Transaction>,
}

impl InMemoryTransactionRepository {
    #[verifier::type_invariant]
    spec fn well_formed(self) -> bool {
        ids_unique(self.transactions@)
    }

    pub open(crate) spec fn view(&self) -> Map<TransactionId, Transaction> {
        id_map(self.transactions@)
    }

    /// An empty store.
    pub fn new() -> (r: InMemoryTransactionRepository)
        ensures
            r@ == Map::<TransactionId, Transaction>::empty(),
    {
        let r = InMemoryTransactionRepository { transactions: Vec::new() };
        assert(r@ =~= Map::<TransactionId, Transaction>::empty());
        r
    }

    /// Number of stored transactions.
    pub fn len(&self) -> (r: usize)
        ensures
            self@.dom().finite(),
            r == self@.dom().len(),
    {
        proof {
            use_type_invariant(self);
            lemma_id_map_len(self.transactions@);
        }
        self.transactions.len()
    }

    pub fn is_empty(&self) -> (r: bool)
        ensures
            r == (self@.dom().len() == 0),
    {
        self.len() == 0
    }

    fn index_of(&self, id: &TransactionId) -> (r: Option<usize>)
        ensures
            match r {
                Some(i) => i < self.transactions@.len() && self.transactions@[i as int]@.id == *id,
                None => !stores_id(self.transactions@, *id),
            },
    {
        let mut i: usize = 0;
        while i < self.transactions.len()
            invariant
                i <= self.transactions@.len(),
                forall|j: int| 0 <= j < i ==> (#[trigger] self.transactions@[j])@.id != *id,
            decreases self.transactions@.len() - i,
        {
            if self.transactions[i].id().0 == id.0 {
                return Some(i);
            }
            i += 1;
        }
        None
    }

    /// Stores `item`, replacing any transaction with the same id.
    pub fn store(&mut self, item: Transaction) -> (r: TransactionId)
        ensures
            r == item@.id,
            final(self)@ == old(self)@.insert(item@.id, item),
            old(self)@.dom().finite(),
            final(self)@.dom().finite(),
    {
        proof {
            use_type_invariant(&*self);
            lemma_id_map_len(self.transactions@);
        }
        let id = item.id();
        let ghost before = self.transactions@;
        let found = self.index_of(&id);
        let mut entries: Vec<Transaction> = Vec::new();
        std::mem::swap(&mut entries, &mut self.transactions);
        match found {
            Some(i) => {
                entries.remove(i);
                entries.insert(i, item);
                proof {
                    let after = entries@;
                    assert(after =~= before.update(i as int, item));
                    assert forall|k: TransactionId| #[trigger] id_map(after).contains_key(k) <==> id_map(
                        before,
                    ).insert(id, item).contains_key(k) by {
                        if k == id {
                            assert(after[i as int]@.id == k);
                        } else if stores_id(before, k) {
                            let j = choose|j: int| 0 <= j < before.len() && (#[trigger] before[j])@.id == k;
                            assert(after[j]@.id == k);
                        } else if stores_id(after, k) {
                            let j = choose|j: int| 0 <= j < after.len() && (#[trigger] after[j])@.id == k;
                            assert(before[j]@.id == k);
                        }
                    }
                    assert forall|k: TransactionId| #[trigger] id_map(after).contains_key(k) implies id_map(
                        after,
                    )[k] == id_map(before).insert(id, item)[k] by {
                        let j = choose|j: int| 0 <= j < after.len() && (#[trigger] after[j])@.id == k;
                        lemma_id_map_entry(after, j);
                        if k != id {
                            lemma_id_map_entry(before, j);
                        }
                    }
                    assert(id_map(after) =~= id_map(before).insert(id, item));
                }
            },
            None => {
                entries.push(item);
                proof {
                    let after = entries@;
                    assert forall|k: TransactionId| #[trigger] id_map(after).contains_key(k) <==> id_map(
                        before,
                    ).insert(id, item).contains_key(k) by {
                        if k == id {
                            assert(after[before.len() as int]@.id == k);
                        } else if stores_id(before, k) {
                            let j = choose|j: int| 0 <= j < before.len() && (#[trigger] before[j])@.id == k;
                            assert(after[j]@.id == k);
                        } else if stores_id(after, k) {
                            let j = choose|j: int| 0 <= j < after.len() && (#[trigger] after[j])@.id == k;
                            assert(before[j]@.id == k);
                        }
                    }
                    assert forall|k: TransactionId| #[trigger] id_map(after).contains_key(k) implies id_map(
                        after,
                    )[k] == id_map(before).insert(id, item)[k] by {
                        let j = choose|j: int| 0 <= j < after.len() && (#[trigger] after[j])@.id == k;
                        lemma_id_map_entry(after, j);
                        if k != id {
                            lemma_id_map_entry(before, j);
                        }
                    }
                    assert(id_map(after) =~= id_map(before).insert(id, item));
                }
            },
        }
        self.transactions = entries;
        id
    }

    /// A copy of the transaction with `id`, if stored.
    pub fn lookup(&self, id: &TransactionId) -> (r: Option<Transaction>)
        ensures
            match r {
                Some(t) => self@.contains_key(*id) && self@[*id] == t,
                None => !self@.contains_key(*id),
            },
    {
        proof {
            use_type_invariant(self);
        }
        match self.index_of(id) {
            Some(i) => {
                proof {
                    lemma_id_map_entry(self.transactions@, i as int);
                }
                Some(self.transactions[i].clone())
            },
            None => None,
        }
    }

    /// Copies of all stored transactions, in replay order (by date, then id),
    /// so they can be fed straight to the engine.
    pub fn all_in_replay_order(&self) -> (r: Vec<Transaction>)
        ensures
            sorted_by_key(r@),
            ids_unique(r@),
            r@.len() == self@.dom().len(),
            forall|t: Transaction| r@.contains(t) <==> (self@.contains_key(t@.id) && self@[t@.id] == t),
    {
        proof {
            use_type_invariant(self);
            lemma_id_map_len(self.transactions@);
        }
        let mut all: Vec<Transaction> = Vec::new();
        let mut i: usize = 0;
        while i < self.transactions.len()
            invariant
                i <= self.transactions@.len(),
                all@ == self.transactions@.take(i as int),
            decreases self.transactions@.len() - i,
        {
            all.push(self.transactions[i].clone());
            proof {
                assert(all@ =~= self.transactions@.take(i + 1));
            }
            i += 1;
        }
        proof {
            assert(self.transactions@.take(self.transactions@.len() as int) =~= self.transactions@);
        }
        let ghost unsorted = all@;
        sort_by_ordering_key(&mut all);
        proof {
            lemma_ids_unique_permutation(unsorted, all@);
            assert(all@.len() == unsorted.len()) by {
                assert(all@.to_multiset().len() == unsorted.to_multiset().len());
            }
            assert forall|t: Transaction| all@.contains(t) <==> (self@.contains_key(t@.id) && self@[t@.id]
                == t) by {
                assert(all@.contains(t) <==> all@.to_multiset().contains(t));
                assert(unsorted.contains(t) <==> unsorted.to_multiset().contains(t));
                if unsorted.contains(t) {
                    let j = choose|j: int| 0 <= j < unsorted.len() && unsorted[j] == t;
                    lemma_id_map_entry(self.transactions@, j);
                }
                if self@.contains_key(t@.id) && self@[t@.id] == t {
                    let j = choose|j: int|
                        0 <= j < self.transactions@.len() && (#[trigger] self.transactions@[j])@.id
                            == t@.id;
                    lemma_id_map_entry(self.transactions@, j);
                    assert(unsorted[j] == t);
                }
            }
        }
        all
    }

    /// Removes the transaction with `id`, if stored.
    pub fn remove(&mut self, id: &TransactionId)
        ensures
            final(self)@ == old(self)@.remove(*id),
            old(self)@.dom().finite(),
            final(self)@.dom().finite(),
    {
        proof {
            use_type_invariant(&*self);
            lemma_id_map_len(self.transactions@);
        }
        let ghost before = self.transactions@;
        let found = self.index_of(id);
        let mut entries: Vec<Transaction> = Vec::new();
        std::mem::swap(&mut entries, &mut self.transactions);
        match found {
            Some(i) => {
                entries.remove(i);
                proof {
                    let after = entries@;
                    assert(after =~= before.remove(i as int));
                    assert forall|k: TransactionId| #[trigger] id_map(after).contains_key(k) <==> id_map(
                        before,
                    ).remove(*id).contains_key(k) by {
                        if stores_id(after, k) {
                            let j = choose|j: int| 0 <= j < after.len() && (#[trigger] after[j])@.id == k;
                            if j < i {
                                assert(before[j]@.id == k);
                            } else {
                                assert(before[j + 1]@.id == k);
                            }
                        }
                        if k != *id && stores_id(before, k) {
                            let j = choose|j: int| 0 <= j < before.len() && (#[trigger] before[j])@.id == k;
                            if j < i {
                                assert(after[j]@.id == k);
                            } else {
                                assert(j != i);
                                assert(after[j - 1]@.id == k);
                            }
                        }
                    }
                    assert forall|k: TransactionId| #[trigger] id_map(after).contains_key(k) implies id_map(
                        after,
                    )[k] == id_map(before).remove(*id)[k] by {
                        let j = choose|j: int| 0 <= j < after.len() && (#[trigger] after[j])@.id == k;
                        lemma_id_map_entry(after, j);
                        if j < i {
                            lemma_id_map_entry(before, j);
                        } else {
                            lemma_id_map_entry(before, j + 1);
                        }
                    }
                    assert(id_map(after) =~= id_map(before).remove(*id));
                }
            },
            None => {
                proof {
                    assert(id_map(before) =~= id_map(before).remove(*id));
                }
            },
        }
        self.transactions = entries;
    }
}

/// What saving, looking up and deleting do to a repository's contents: a
/// saved transaction is what a lookup of its id gives back; saving another
/// transaction under the same id replaces it, leaving the stored ids as
/// they were; and after deleting an id its lookup comes back empty.
pub proof fn law_repository_round_trip(
    repo: InMemoryTransactionRepository,
    item: Transaction,
    replacement: Transaction,
)
    requires
        replacement@.id == item@.id,
    ensures
        repo@.insert(item@.id, item).contains_key(item@.id),
        repo@.insert(item@.id, item)[item@.id] == item,
        repo@.insert(item@.id, item).insert(replacement@.id, replacement) == repo@.insert(
            item@.id,
            replacement,
        ),
        repo@.insert(item@.id, item).insert(replacement@.id, replacement).dom() == repo@.insert(
            item@.id,
            item,
        ).dom(),
        !repo@.insert(item@.id, item).remove(item@.id).contains_key(item@.id),
{
    let saved = repo@.insert(item@.id, item);
    assert(saved.insert(replacement@.id, replacement) =~= repo@.insert(item@.id, replacement));
    assert(saved.insert(replacement@.id, replacement).dom() =~= saved.dom());
}

/// The replay order of a repository's transactions is determined by its
/// contents alone: two lists in replay order, without repeated ids, that
/// each hold exactly the stored transactions are the same list.
pub proof fn law_replay_order_is_determined(
    repo: InMemoryTransactionRepository,
    first: Seq<Transaction>,
    second: Seq<Transaction>,
)
    requires
        sorted_by_key(first),
        sorted_by_key(second),
        ids_unique(first),
        ids_unique(second),
        forall|t: Transaction| first.contains(t) <==> (repo@.contains_key(t@.id) && repo@[t@.id] == t),
        forall|t: Transaction| second.contains(t) <==> (repo@.contains_key(t@.id) && repo@[t@.id] == t),
    ensures
        first == second,
{
    assert(first.no_duplicates()) by {
        assert forall|i: int, j: int| 0 <= i < first.len() && 0 <= j < first.len() && i != j implies first[i]
            != first[j] by {
            assert(first[i]@.id != first[j]@.id);
        }
    }
    assert(second.no_duplicates()) by {
        assert forall|i: int, j: int| 0 <= i < second.len() && 0 <= j < second.len() && i != j implies second[i]
            != second[j] by {
            assert(second[i]@.id != second[j]@.id);
        }
    }
    lemma_same_members_same_multiset(first, second);
    assert forall|i: int, j: int|
        0 <= i < first.len() && 0 <= j < first.len() && (#[trigger] first[i])@.date == (
        #[trigger] first[j])@.date && first[i]@.id == first[j]@.id implies first[i] == first[j] by {
        if i != j {
            assert(first[i]@.id != first[j]@.id);
        }
    }
    law_sorted_ledgers_agree(first, second);
}

impl Default for InMemoryTransactionRepository {
    fn default() -> (r: InMemoryTransactionRepository)
        ensures
            r@ == Map::<TransactionId, Transaction>::empty(),
    {
        InMemoryTransactionRepository::new()
    }
}

impl Repository<Transaction> for InMemoryTransactionRepository {
    type Id = TransactionId;

    type Error = TransactionError;

    fn save(&mut self, item: Transaction) -> (r: Result<TransactionId, TransactionError>)
        ensures
            r == Ok::<TransactionId, TransactionError>(item@.id),
            final(self)@ == old(self)@.insert(item@.id, item),
            old(self)@.dom().finite(),
            final(self)@.dom().finite(),
    {
        Ok(self.store(item))
    }

    fn find_by_id(&self, id: &TransactionId) -> (r: Result<Option<Transaction>, TransactionError>)
        ensures
            r is Ok,
            match r {
                Ok(Some(t)) => self@.contains_key(*id) && self@[*id] == t,
                Ok(None) => !self@.contains_key(*id),
                Err(_) => false,
            },
    {
        Ok(self.lookup(id))
    }

    fn find_all(&self) -> (r: Result<Vec<Transaction>, TransactionError>)
        ensures
            r matches Ok(v) && sorted_by_key(v@) && ids_unique(v@) && v@.len() == self@.dom().len() && forall|
                t: Transaction,
            | v@.contains(t) <==> (self@.contains_key(t@.id) && self@[t@.id] == t),
    {
        Ok(self.all_in_replay_order())
    }

    fn delete(&mut self, id: &TransactionId) -> (r: Result<(), TransactionError>)
        ensures
            r is Ok,
            final(self)@ == old(self)@.remove(*id),
            old(self)@.dom().finite(),
            final(self)@.dom().finite(),
    {
        self.remove(id);
        Ok(())
    }
}

} // verus!
