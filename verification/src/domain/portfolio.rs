//! The portfolio: a named, append-only ledger of transactions.

use vstd::prelude::*;

use crate::calendar::date_lt;
use crate::domain::transaction::{
    key_lt, sort_by_ordering_key, sorted_by_key, stably_rearranged, Transaction,
};
use crate::ids::PortfolioId;

verus! {

/// What a [`Portfolio`] holds.
pub struct PortfolioView {
    pub id: PortfolioId,
    pub name: Seq<char>,
    pub transactions: Seq<Transaction>,
}

/// A thin owner of transaction history. The engine never sees it: every
/// figure is derived from the transactions alone.
#[derive(Debug, Clone, PartialEq, Eq)]
pub struct Portfolio {
    pub(crate) id: PortfolioId,
    pub(crate) name: String,
    pub(crate) transactions: Vec<Transaction>,
}

impl Portfolio {
    pub open(crate) spec fn view(&self) -> PortfolioView {
        PortfolioView { id: self.id, name: self.name@, transactions: self.transactions@ }
    }

    /// An empty portfolio.
    pub fn new(id: PortfolioId, name: &str) -> (r: Portfolio)
        ensures
            r@ == (PortfolioView { id, name: name@, transactions: Seq::empty() }),
    {
        Portfolio { id, name: name.to_owned(), transactions: Vec::new() }
    }

    pub fn id(&self) -> (r: PortfolioId)
        ensures
            r == self@.id,
    {
        self.id
    }

    pub fn name(&self) -> (r: &str)
        ensures
            r@ == self@.name,
    {
        self.name.as_str()
    }

    /// Appends a transaction to the end of the ledger.
    pub fn apply_transaction(&mut self, transaction: Transaction)
        ensures
            final(self)@ == (PortfolioView {
                transactions: old(self)@.transactions.push(transaction),
                ..old(self)@
            }),
    {
        self.transactions.push(transaction);
    }

    /// The ledger, in its current order.
    pub fn transactions(&self) -> (r: &[Transaction])
        ensures
            r@ == self@.transactions,
    {
        self.transactions.as_slice()
    }

    pub fn transaction_count(&self) -> (r: usize)
        ensures
            r == self@.transactions.len(),
    {
        self.transactions.len()
    }

    pub fn is_empty(&self) -> (r: bool)
        ensures
            r == (self@.transactions.len() == 0),
    {
        self.transactions.len() == 0
    }

    /// Puts the ledger into replay order (by date, then id), keeping the same
    /// transactions.
    pub fn sort_transactions(&mut self)
        ensures
            final(self)@.id == old(self)@.id,
            final(self)@.name == old(self)@.name,
            sorted_by_key(final(self)@.transactions),
            final(self)@.transactions.to_multiset() == old(self)@.transactions.to_multiset(),
            stably_rearranged(old(self)@.transactions, final(self)@.transactions),
            forall|i: int, j: int|
                0 <= i < j < final(self)@.transactions.len() ==> !date_lt(
                    (#[trigger] final(self)@.transactions[j])@.date,
                    (#[trigger] final(self)@.transactions[i])@.date,
                ),
    {
        sort_by_ordering_key(&mut self.transactions);
        proof {
            assert forall|i: int, j: int| 0 <= i < j < self.transactions@.len() implies !date_lt(
                (#[trigger] self.transactions@[j])@.date,
                (#[trigger] self.transactions@[i])@.date,
            ) by {
                assert(!key_lt(self.transactions@[j], self.transactions@[i]));
            }
        }
    }
}

} // verus!
