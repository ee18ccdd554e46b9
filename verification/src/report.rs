//! What the portfolio report prints, decided apart from the printing.

use vstd::prelude::*;

use crate::domain::asset::Asset;
use crate::ids::{uuid_hyphenated, AssetId};

verus! {

/// The label of a report line for `asset_id`: the ticker of the first asset
/// in `assets` with that id, or else the id itself, hyphenated.
pub fn report_label(assets: &[Asset], asset_id: &AssetId) -> (r: String)
    ensures
        match first_with_id(assets@, *asset_id) {
            Some(i) => r@ == assets@[i]@.ticker,
            None => r@ == uuid_hyphenated(asset_id@),
        },
{
    let mut i: usize = 0;
    while i < assets.len()
        invariant
            i <= assets@.len(),
            forall|j: int| 0 <= j < i ==> (#[trigger] assets@[j])@.id != *asset_id,
        decreases assets@.len() - i,
    {
        if assets[i].id().0 == asset_id.0 {
            proof {
                lemma_first_with_id(assets@, *asset_id, i as int);
            }
            return assets[i].ticker().as_str().to_owned();
        }
        i += 1;
    }
    proof {
        lemma_no_asset_with_id(assets@, *asset_id);
    }
    asset_id.to_string()
}

/// The first place in `assets` holding an asset with id `asset_id`, if any.
pub open spec fn first_with_id(assets: Seq<Asset>, asset_id: AssetId) -> Option<int>
    decreases assets.len(),
{
    if assets.len() == 0 {
        None
    } else if assets[0]@.id == asset_id {
        Some(0)
    } else {
        match first_with_id(assets.drop_first(), asset_id) {
            Some(i) => Some(i + 1),
            None => None,
        }
    }
}

proof fn lemma_first_with_id(assets: Seq<Asset>, asset_id: AssetId, i: int)
    requires
        0 <= i < assets.len(),
        assets[i]@.id == asset_id,
        forall|j: int| 0 <= j < i ==> (#[trigger] assets[j])@.id != asset_id,
    ensures
        first_with_id(assets, asset_id) == Some(i),
    decreases i,
{
    if i > 0 {
        let rest = assets.drop_first();
        assert forall|j: int| 0 <= j < i - 1 implies (#[trigger] rest[j])@.id != asset_id by {
            assert(rest[j] == assets[j + 1]);
        }
        lemma_first_with_id(rest, asset_id, i - 1);
        assert(assets[0]@.id != asset_id);
    }
}

proof fn lemma_no_asset_with_id(assets: Seq<Asset>, asset_id: AssetId)
    requires
        forall|j: int| 0 <= j < assets.len() ==> (#[trigger] assets[j])@.id != asset_id,
    ensures
        first_with_id(assets, asset_id) is None,
    decreases assets.len(),
{
    if assets.len() > 0 {
        let rest = assets.drop_first();
        assert forall|j: int| 0 <= j < rest.len() implies (#[trigger] rest[j])@.id != asset_id by {
            assert(rest[j] == assets[j + 1]);
        }
        lemma_no_asset_with_id(rest, asset_id);
        assert(assets[0]@.id != asset_id);
    }
}

} // verus!
