//! Market prices: the per-asset price record, the provider interface, an in-memory
//! provider, and the asset-keyed map that carries prices into the engine.

use vstd::prelude::*;

use crate::calendar::Timestamp;
use crate::decimal::Decimal;
use crate::ids::{uuid_hyphenated, AssetId};

verus! {

/// A map from assets to values. Each asset appears at most once.
#[derive(Debug)]
pub struct AssetMap<V> {
    pub(crate) entries: Vec<(AssetId, V)>,
}

/// Whether the entries hold `key`.
pub open spec fn entries_have<V>(entries: Seq<(AssetId, V)>, key: AssetId) -> bool {
    exists|i: int| 0 <= i < entries.len() && (#[trigger] entries[i]).0 == key
}

/// No asset occurs twice among the entries.
pub open spec fn keys_unique<V>(entries: Seq<(AssetId, V)>) -> bool {
    forall|i: int, j: int|
        0 <= i < entries.len() && 0 <= j < entries.len() && i != j ==> (#[trigger] entries[i]).0
            != (#[trigger] entries[j]).0
}

/// The map that a list of entries with distinct keys stands for.
pub open spec fn entries_map<V>(entries: Seq<(AssetId, V)>) -> Map<AssetId, V> {
    Map::new(
        |k: AssetId| entries_have(entries, k),
        |k: AssetId| entries[choose|i: int| 0 <= i < entries.len() && (#[trigger] entries[i]).0 == k].1,
    )
}

/// In entries with distinct keys, the value of the key at `i` is the one at `i`.
proof fn lemma_entry_value<V>(entries: Seq<(AssetId, V)>, i: int)
    requires
        keys_unique(entries),
        0 <= i < entries.len(),
    ensures
        entries_map(entries).contains_key(entries[i].0),
        entries_map(entries)[entries[i].0] == entries[i].1,
{
    let k = entries[i].0;
    assert(entries_have(entries, k));
    let j = choose|j: int| 0 <= j < entries.len() && (#[trigger] entries[j]).0 == k;
    assert(j == i);
}

impl<V> AssetMap<V> {
    #[verifier::type_invariant]
    spec fn well_formed(self) -> bool {
        keys_unique(self.entries@)
    }

    pub open(crate) spec fn view(&self) -> Map<AssetId, V> {
        entries_map(self.entries@)
    }

    /// An empty map.
    pub fn new() -> (r: AssetMap<V>)
        ensures
            r@ == Map::<AssetId, V>::empty(),
    {
        let r = AssetMap { entries: Vec::new() };
        assert(r@ =~= Map::<AssetId, V>::empty());
        r
    }

    fn index_of(&self, key: &AssetId) -> (r: Option<usize>)
        ensures
            match r {
                Some(i) => i < self.entries@.len() && self.entries@[i as int].0 == *key,
                None => !entries_have(self.entries@, *key),
            },
    {
        let mut i: usize = 0;
        while i < self.entries.len()
            invariant
                i <= self.entries@.len(),
                forall|j: int| 0 <= j < i ==> (#[trigger] self.entries@[j]).0 != *key,
            decreases self.entries@.len() - i,
        {
            if self.entries[i].0.0 == key.0 {
                return Some(i);
            }
            i += 1;
        }
        None
    }

    /// Whether `key` has a value.
    pub fn contains_key(&self, key: &AssetId) -> (r: bool)
        ensures
            r == self@.contains_key(*key),
    {
        self.index_of(key).is_some()
    }

    /// The value of `key`, if it has one.
    pub fn get(&self, key: &AssetId) -> (r: Option<&V>)
        ensures
            match r {
                Some(v) => self@.contains_key(*key) && self@[*key] == *v,
                None => !self@.contains_key(*key),
            },
    {
        proof {
            use_type_invariant(self);
        }
        match self.index_of(key) {
            Some(i) => {
                proof {
                    lemma_entry_value(self.entries@, i as int);
                }
                Some(&self.entries[i].1)
            },
            None => None,
        }
    }

    /// Sets the value of `key`, returning the value it replaced.
    pub fn insert(&mut self, key: AssetId, value: V) -> (r: Option<V>)
        ensures
            final(self)@ == old(self)@.insert(key, value),
            match r {
                Some(v) => old(self)@.contains_key(key) && old(self)@[key] == v,
                None => !old(self)@.contains_key(key),
            },
    {
        proof {
            use_type_invariant(&*self);
        }
        let ghost before = self.entries@;
        let found = self.index_of(&key);
        let mut entries: Vec<(AssetId, V)> = Vec::new();
        std::mem::swap(&mut entries, &mut self.entries);
        match found {
            Some(i) => {
                proof {
                    lemma_entry_value(before, i as int);
                }
                let (_, previous) = entries.remove(i);
                entries.insert(i, (key, value));
                proof {
                    let after = entries@;
                    assert(after =~= before.update(i as int, (key, value)));
                    assert(keys_unique(after));
                    assert forall|k: AssetId| #[trigger]
                        entries_map(after).contains_key(k) == before_map_insert_contains(
                            before,
                            key,
                            value,
                            k,
                        ) by {
                        if k == key {
                            assert(after[i as int].0 == k);
                        } else if entries_have(before, k) {
                            let j = choose|j: int| 0 <= j < before.len() && (#[trigger] before[j]).0 == k;
                            assert(after[j].0 == k);
                        } else if entries_have(after, k) {
                            let j = choose|j: int| 0 <= j < after.len() && (#[trigger] after[j]).0 == k;
                            assert(before[j].0 == k);
                        }
                    }
                    assert forall|k: AssetId| #[trigger] entries_map(after).contains_key(k) implies entries_map(
                        after,
                    )[k] == entries_map(before).insert(key, value)[k] by {
                        let j = choose|j: int| 0 <= j < after.len() && (#[trigger] after[j]).0 == k;
                        lemma_entry_value(after, j);
                        if k != key {
                            lemma_entry_value(before, j);
                        }
                    }
                    assert(entries_map(after) =~= entries_map(before).insert(key, value));
                }
                self.entries = entries;
                Some(previous)
            },
            None => {
                entries.push((key, value));
                proof {
                    let after = entries@;
                    assert(keys_unique(after));
                    assert forall|k: AssetId| #[trigger]
                        entries_map(after).contains_key(k) == before_map_insert_contains(
                            before,
                            key,
                            value,
                            k,
                        ) by {
                        if k == key {
                            assert(after[before.len() as int].0 == k);
                        } else if entries_have(before, k) {
                            let j = choose|j: int| 0 <= j < before.len() && (#[trigger] before[j]).0 == k;
                            assert(after[j].0 == k);
                        }
                    }
                    assert forall|k: AssetId| #[trigger] entries_map(after).contains_key(k) implies entries_map(
                        after,
                    )[k] == entries_map(before).insert(key, value)[k] by {
                        let j = choose|j: int| 0 <= j < after.len() && (#[trigger] after[j]).0 == k;
                        lemma_entry_value(after, j);
                        if k != key {
                            lemma_entry_value(before, j);
                        }
                    }
                    assert(entries_map(after) =~= entries_map(before).insert(key, value));
                }
                self.entries = entries;
                None
            },
        }
    }
}

/// Whether `k` is a key once `key` has been inserted into the entries' map.
spec fn before_map_insert_contains<V>(
    before: Seq<(AssetId, V)>,
    key: AssetId,
    value: V,
    k: AssetId,
) -> bool {
    entries_map(before).insert(key, value).contains_key(k)
}

/// A price fetch that could not be served.
#[derive(Debug, Clone, PartialEq, Eq)]
pub enum MarketDataError {
    NotFound(AssetId),
    FetchFailed { asset_id: AssetId, reason: String },
    ProviderUnavailable(String),
}

pub open spec fn market_data_error_message(e: MarketDataError) -> Seq<char> {
    match e {
        MarketDataError::NotFound(a) => "no market data available for asset "@ + uuid_hyphenated(a@),
        MarketDataError::FetchFailed { asset_id, reason } => "failed to fetch market data for asset "@
            + uuid_hyphenated(asset_id@) + ": "@ + reason@,
        MarketDataError::ProviderUnavailable(reason) => "market data provider unavailable: "@
            + reason@,
    }
}

impl MarketDataError {
    /// The human-readable message.
    pub fn message(&self) -> (r: String)
        ensures
            r@ == market_data_error_message(*self),
    {
        match self {
            MarketDataError::NotFound(a) => {
                let mut m = "no market data available for asset ".to_owned();
                m.append(a.to_string().as_str());
                m
            },
            MarketDataError::FetchFailed { asset_id, reason } => {
                let mut m = "failed to fetch market data for asset ".to_owned();
                m.append(asset_id.to_string().as_str());
                m.append(": ");
                m.append(reason.as_str());
                m
            },
            MarketDataError::ProviderUnavailable(reason) => {
                let mut m = "market data provider unavailable: ".to_owned();
                m.append(reason.as_str());
                m
            },
        }
    }
}

/// One price point for one asset.
#[derive(Debug, Clone, Copy, PartialEq, Eq)]
pub struct MarketData {
    pub asset_id: AssetId,
    pub price: Decimal,
    pub as_of: Timestamp,
}

impl MarketData {
    pub fn new(asset_id: AssetId, price: Decimal, as_of: Timestamp) -> (r: MarketData)
        ensures
            r == (MarketData { asset_id, price, as_of }),
    {
        MarketData { asset_id, price, as_of }
    }
}

/// A source of current prices, implemented by the users of this library (an
/// in-memory table, a web API, a cache).
pub trait MarketDataProvider {
    /// `r` is an answer this provider may give when asked for the price of
    /// `asset_id`. A relation rather than a function: a provider that reads a
    /// live source may answer differently from one call to the next. A
    /// provider that promises nothing keeps this default, which admits every
    /// answer.
    open spec fn may_quote(&self, asset_id: AssetId, r: Result<Decimal, MarketDataError>) -> bool {
        true
    }

    /// The current price of `asset_id`.
    fn price(&self, asset_id: &AssetId) -> (r: Result<Decimal, MarketDataError>)
        ensures
            self.may_quote(*asset_id, r),
    ;
}

/// A provider that answers from a fixed table of prices.
#[derive(Debug)]
pub struct MockProvider {
    pub(crate) prices: AssetMap<Decimal>,
}

impl MockProvider {
    pub open(crate) spec fn view(&self) -> Map<AssetId, Decimal> {
        self.prices@
    }

    /// A provider that knows no prices.
    pub fn new() -> (r: MockProvider)
        ensures
            r@ == Map::<AssetId, Decimal>::empty(),
    {
        MockProvider { prices: AssetMap::new() }
    }

    /// The same provider, now quoting `price` for `asset_id`.
    pub fn with_price(self, asset_id: AssetId, price: Decimal) -> (r: MockProvider)
        ensures
            r@ == self@.insert(asset_id, price),
    {
        let mut provider = self;
        provider.prices.insert(asset_id, price);
        provider
    }

    /// The configured price, or `NotFound` for an asset with none.
    pub fn quote(&self, asset_id: &AssetId) -> (r: Result<Decimal, MarketDataError>)
        ensures
            match r {
                Ok(p) => self@.contains_key(*asset_id) && self@[*asset_id] == p,
                Err(e) => !self@.contains_key(*asset_id) && e == MarketDataError::NotFound(
                    *asset_id,
                ),
            },
    {
        match self.prices.get(asset_id) {
            Some(p) => Ok(*p),
            None => Err(MarketDataError::NotFound(*asset_id)),
        }
    }
}

/// The answer a fixed table gives: the configured price, or `NotFound`.
pub open spec fn table_quote(
    prices: Map<AssetId, Decimal>,
    asset_id: AssetId,
    r: Result<Decimal, MarketDataError>,
) -> bool {
    match r {
        Ok(p) => prices.contains_key(asset_id) && prices[asset_id] == p,
        Err(e) => !prices.contains_key(asset_id) && e == MarketDataError::NotFound(asset_id),
    }
}

impl MarketDataProvider for MockProvider {
    open spec fn may_quote(&self, asset_id: AssetId, r: Result<Decimal, MarketDataError>) -> bool {
        table_quote(self@, asset_id, r)
    }

    fn price(&self, asset_id: &AssetId) -> (r: Result<Decimal, MarketDataError>)
        ensures
            match r {
                Ok(p) => self@.contains_key(*asset_id) && self@[*asset_id] == p,
                Err(e) => !self@.contains_key(*asset_id) && e == MarketDataError::NotFound(
                    *asset_id,
                ),
            },
    {
        self.quote(asset_id)
    }
}

} // verus!
