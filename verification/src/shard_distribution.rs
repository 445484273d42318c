//! On which peers the shards of a collection are placed.

use std::collections::HashMap;
use vstd::prelude::*;
use vstd::std_specs::iter::IteratorSpec;

verus! {

pub type ShardId = u32;

pub type PeerId = u64;

/// Picks the placements on a peer.
pub open spec fn is_on(peer_id: PeerId) -> spec_fn((ShardId, PeerId)) -> bool {
    |p: (ShardId, PeerId)| p.1 == peer_id
}

/// Picks the placements on other peers.
pub open spec fn is_off(peer_id: PeerId) -> spec_fn((ShardId, PeerId)) -> bool {
    |p: (ShardId, PeerId)| p.1 != peer_id
}

/// The shard of a placement.
pub open spec fn shard_of() -> spec_fn((ShardId, PeerId)) -> ShardId {
    |p: (ShardId, PeerId)| p.0
}

/// The shards that a list of placements puts on a peer, in the order of the list.
pub open spec fn shards_on(placements: Seq<(ShardId, PeerId)>, peer_id: PeerId) -> Seq<ShardId> {
    placements.filter(is_on(peer_id)).map_values(shard_of())
}

/// The placements of a list that are not on a peer, in the order of the list.
pub open spec fn placements_off(
    placements: Seq<(ShardId, PeerId)>,
    peer_id: PeerId,
) -> Seq<(ShardId, PeerId)> {
    placements.filter(is_off(peer_id))
}

/// A proposal on which peer each shard of a new collection shall be.
#[derive(Debug)]
pub struct ShardDistributionProposal {
    pub distribution: Vec<(ShardId, PeerId)>,
}

impl ShardDistributionProposal {
    /// The shards that the proposal puts on a peer.
    pub fn local_shards_for(&self, peer_id: PeerId) -> (res: Vec<ShardId>)
        ensures
            res@ == shards_on(self.distribution@, peer_id),
    {
        let ghost all = self.distribution@;
        let mut res: Vec<ShardId> = Vec::new();
        assert(all.take(0).filter(is_on(peer_id)) =~= Seq::empty()) by {
            reveal(Seq::filter);
        }
        for i in 0..self.distribution.len()
            invariant
                all == self.distribution@,
                res@ =~= all.take(i as int).filter(is_on(peer_id)).map_values(shard_of()),
        {
            proof {
                lemma_filter_step(all, is_on(peer_id), i as int);
            }
            if self.distribution[i].1 == peer_id {
                res.push(self.distribution[i].0);
            }
        }
        assert(all.take(all.len() as int) =~= all);
        res
    }

    /// The shards that the proposal puts elsewhere, with their peers.
    pub fn remote_shards_for(&self, peer_id: PeerId) -> (res: Vec<(ShardId, PeerId)>)
        ensures
            res@ == placements_off(self.distribution@, peer_id),
    {
        let ghost all = self.distribution@;
        let mut res: Vec<(ShardId, PeerId)> = Vec::new();
        assert(all.take(0).filter(is_off(peer_id)) =~= Seq::empty()) by {
            reveal(Seq::filter);
        }
        for i in 0..self.distribution.len()
            invariant
                all == self.distribution@,
                res@ =~= all.take(i as int).filter(is_off(peer_id)),
        {
            proof {
                lemma_filter_step(all, is_off(peer_id), i as int);
            }
            if self.distribution[i].1 != peer_id {
                res.push(self.distribution[i]);
            }
        }
        assert(all.take(all.len() as int) =~= all);
        res
    }
}

/// What one more element adds to a filtered sequence.
proof fn lemma_filter_step<A>(s: Seq<A>, pred: spec_fn(A) -> bool, i: int)
    requires
        0 <= i < s.len(),
    ensures
        s.take(i + 1).filter(pred) == if pred(s[i]) {
            s.take(i).filter(pred).push(s[i])
        } else {
            s.take(i).filter(pred)
        },
{
    reveal(Seq::filter);
    assert(s.take(i + 1).drop_last() =~= s.take(i));
}

/// Where the shards of a collection are, as seen from one peer.
#[derive(Debug)]
pub enum CollectionShardDistribution {
    /// All shards are on this peer.
    AllLocal,
    /// These shards are on this peer, and those on the peers named with them.
    Distribution { local: Vec<ShardId>, remote: Vec<(ShardId, PeerId)> },
}

/// `local` lists once each the shards that the map puts on the peer, and `remote` lists
/// once each the others, with their peers.
pub open spec fn splits(
    shard_to_peer: Map<ShardId, PeerId>,
    this_peer: PeerId,
    local: Seq<ShardId>,
    remote: Seq<(ShardId, PeerId)>,
) -> bool {
    &&& local.no_duplicates()
    &&& remote.no_duplicates()
    &&& forall|shard: ShardId| #[trigger]
        local.contains(shard) <==> shard_to_peer.contains_key(shard) && shard_to_peer[shard]
            == this_peer
    &&& forall|shard: ShardId, peer: PeerId| #[trigger]
        remote.contains((shard, peer)) <==> shard_to_peer.contains_key(shard)
            && shard_to_peer[shard] == peer && peer != this_peer
}

impl CollectionShardDistribution {
    /// The distribution that a map from shards to peers describes.
    pub fn from_shard_to_peer(
        this_peer: PeerId,
        shard_to_peer: &HashMap<ShardId, PeerId>,
    ) -> (res: Self)
        ensures
            res matches CollectionShardDistribution::Distribution { local, remote } && splits(
                shard_to_peer@,
                this_peer,
                local@,
                remote@,
            ),
    {
        let ghost map = shard_to_peer@;
        let shards = shards_of(shard_to_peer);
        let mut local: Vec<ShardId> = Vec::new();
        let mut remote: Vec<(ShardId, PeerId)> = Vec::new();
        for i in 0..shards.len()
            invariant
                map == shard_to_peer@,
                shards@.no_duplicates(),
                shards@.to_set() == map.dom(),
                local@.no_duplicates(),
                remote@.no_duplicates(),
                forall|s: ShardId| #[trigger]
                    local@.contains(s) <==> map.contains_key(s) && map[s] == this_peer && exists|
                        j: int,
                    |
                        0 <= j < i && #[trigger] shards@[j] == s,
                forall|s: ShardId, p: PeerId| #[trigger]
                    remote@.contains((s, p)) <==> map.contains_key(s) && map[s] == p && p
                        != this_peer && exists|j: int| 0 <= j < i && #[trigger] shards@[j] == s,
        {
            let ghost before_local = local@;
            let ghost before_remote = remote@;
            let shard = shards[i];
            assert(shards@.to_set().contains(shards@[i as int]));
            match shard_to_peer.get(&shard) {
                Some(peer) => {
                    if *peer == this_peer {
                        local.push(shard);
                        proof {
                            lemma_push_contains(before_local, shard);
                        }
                    } else {
                        remote.push((shard, *peer));
                        proof {
                            lemma_push_contains(before_remote, (shard, *peer));
                        }
                    }
                },
                None => {},
            }
        }
        assert forall|s: ShardId| map.contains_key(s) implies exists|j: int|
            0 <= j < shards@.len() && #[trigger] shards@[j] == s by {
            assert(shards@.to_set().contains(s));
        }
        CollectionShardDistribution::Distribution { local, remote }
    }
}

/// The shards of a map, each once.
pub(crate) fn shards_of(shard_to_peer: &HashMap<ShardId, PeerId>) -> (res: Vec<ShardId>)
    ensures
        res@.no_duplicates(),
        res@.to_set() == shard_to_peer@.dom(),
{
    let mut res: Vec<ShardId> = Vec::new();
    for shard in shards: shard_to_peer.keys()
        invariant
            shards.seq() == shard_to_peer.keys().remaining(),
            res@ == shards.seq().unref().take(shards.index()),
    {
        res.push(*shard);
    }
    assert(res@ == shard_to_peer.keys().remaining().unref());
    res
}

/// What a sequence contains after one more element.
proof fn lemma_push_contains<A>(s: Seq<A>, a: A)
    ensures
        forall|x: A| #[trigger] s.push(a).contains(x) <==> s.contains(x) || x == a,
        s.no_duplicates() && !s.contains(a) ==> s.push(a).no_duplicates(),
{
    let t = s.push(a);
    assert forall|x: A| #[trigger] t.contains(x) <==> s.contains(x) || x == a by {
        if s.contains(x) {
            let i = choose|i: int| 0 <= i < s.len() && s[i] == x;
            assert(t[i] == x);
        }
        if x == a {
            assert(t[s.len() as int] == x);
        }
    }
}

} // verus!
