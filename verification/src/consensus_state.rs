//! The state of the storage on which the peers agree.

use crate::alias_mapping::AliasMapping;
use crate::assoc_map::AssocMap;
use crate::config::{CollectionConfig, CollectionConfigView};
use crate::shard_distribution::{shards_of, PeerId, ShardId};
use std::collections::HashMap;
use vstd::prelude::*;

verus! {

/// How a collection is configured, and on which peer each of its shards is.
pub struct CollectionState {
    pub config: CollectionConfig,
    pub shard_to_peer: HashMap<ShardId, PeerId>,
}

/// What a `CollectionState` says.
pub struct CollectionStateView {
    pub config: CollectionConfigView,
    pub shard_to_peer: Map<ShardId, PeerId>,
}

impl View for CollectionState {
    type V = CollectionStateView;

    open spec fn view(&self) -> CollectionStateView {
        CollectionStateView { config: self.config@, shard_to_peer: self.shard_to_peer@ }
    }
}

impl CollectionState {
    /// Whether two states say the same.
    pub fn same(&self, other: &CollectionState) -> (res: bool)
        ensures
            res == (self@ == other@),
    {
        if !self.config.same(&other.config) {
            return false;
        }
        let res = covers(&self.shard_to_peer, &other.shard_to_peer) && covers(
            &other.shard_to_peer,
            &self.shard_to_peer,
        );
        proof {
            let a = self.shard_to_peer@;
            let b = other.shard_to_peer@;
            if res {
                assert forall|s: ShardId| #[trigger] a.dom().contains(s) == b.dom().contains(
                    s,
                ) by {}
                assert(a =~= b);
            }
        }
        res
    }

    /// A copy of the state.
    pub fn duplicate(&self) -> (res: CollectionState)
        ensures
            res@ == self@,
    {
        CollectionState {
            config: self.config.clone(),
            shard_to_peer: self.shard_to_peer.clone(),
        }
    }
}

/// Whether a map holds all that another one holds.
fn covers(map: &HashMap<ShardId, PeerId>, part: &HashMap<ShardId, PeerId>) -> (res: bool)
    ensures
        res == part@.submap_of(map@),
{
    let shards = shards_of(part);
    for i in 0..shards.len()
        invariant
            shards@.to_set() == part@.dom(),
            forall|j: int|
                0 <= j < i ==> map@.contains_key(#[trigger] shards@[j]) && map@[shards@[j]]
                    == part@[shards@[j]],
    {
        let shard = shards[i];
        assert(shards@.to_set().contains(shards@[i as int]));
        match (map.get(&shard), part.get(&shard)) {
            (Some(a), Some(b)) => {
                if *a != *b {
                    return false;
                }
            },
            _ => {
                return false;
            },
        }
    }
    assert forall|s: ShardId| part@.dom().contains(s) implies #[trigger] map@.dom().contains(s)
        && part@[s] == map@[s] by {
        assert(shards@.to_set().contains(s));
        let j = choose|j: int| 0 <= j < shards@.len() && shards@[j] == s;
        assert(map@.contains_key(shards@[j]));
    }
    true
}

/// All collections with their states, and all aliases.
pub struct CollectionsSnapshot {
    pub collections: AssocMap<String, CollectionState>,
    pub aliases: AliasMapping,
}

} // verus!
