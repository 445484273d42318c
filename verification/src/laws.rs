//! What holds of collections, their names and their shards.

use crate::config::{StorageConfig, ALIASES_DIR, COLLECTIONS_DIR};
use crate::creation::shard_number;
use crate::errors::StorageError;
use crate::meta_ops::{deletion_begins, deletion_ends, DeletionStep};
use crate::model::TocView;
use crate::operations::CreateCollectionOperation;
use crate::shard_distribution::{
    is_off, is_on, placements_off, shards_on, splits, PeerId, ShardId,
};
use crate::toc::{distribution_requested, ShardDistributionRequest};
use vstd::prelude::*;

verus! {

/// Where a name leads. The name of a collection leads to that collection, whatever the aliases
/// are. Any other name that is an alias leads to the collection that it stands for, if that is
/// there. A name that is neither leads nowhere. What a name leads to is a collection.
pub proof fn law_resolve<C>(toc: TocView<C>, name: Seq<char>)
    ensures
        toc.has(name) ==> toc.resolve(name) == Some(name),
        !toc.has(name) && toc.aliases.contains_key(name) ==> toc.resolve(name) == if toc.has(
            toc.aliases[name],
        ) {
            Some(toc.aliases[name])
        } else {
            None
        },
        !toc.has(name) && !toc.aliases.contains_key(name) ==> toc.resolve(name) is None,
        toc.resolve(name) matches Some(found) ==> toc.has(found),
{
}

/// A collection that was added is found, by its name and by every alias that stands for it. Other
/// names lead where they led, and the settings of the storage and the peer stay.
pub proof fn law_created_collection_is_found<C>(toc: TocView<C>, name: Seq<char>, collection: C)
    requires
        !toc.has(name),
    ensures
        ({
            let after = toc.with_collection(name, collection);
            &&& after.has(name)
            &&& after.collections[name] == collection
            &&& forall|other: Seq<char>| #[trigger]
                after.resolve(other) == if other == name || toc.target(other) == name {
                    Some(name)
                } else {
                    toc.resolve(other)
                }
            &&& forall|other: Seq<char>| #[trigger]
                toc.has(other) ==> after.collections[other] == toc.collections[other]
            &&& after.aliases == toc.aliases
            &&& after.storage_config == toc.storage_config
            &&& after.this_peer_id == toc.this_peer_id
        }),
{
}

/// A collection that was deleted is not found, neither by its name nor by an alias that stands
/// for it. Its name leads nowhere, unless it is an alias of another collection. Other names lead
/// where they led, and the aliases, the settings of the storage and the peer stay.
pub proof fn law_deleted_collection_is_gone<C>(toc: TocView<C>, name: Seq<char>)
    ensures
        ({
            let after = toc.without_collection(name);
            &&& !after.has(name)
            &&& after.resolve(name) == if toc.aliases.contains_key(name) && toc.aliases[name]
                != name && toc.has(toc.aliases[name]) {
                Some(toc.aliases[name])
            } else {
                None
            }
            &&& forall|other: Seq<char>|
                other != name ==> #[trigger] after.resolve(other) == if toc.target(other) == name {
                    None
                } else {
                    toc.resolve(other)
                }
            &&& forall|other: Seq<char>| #[trigger]
                after.has(other) ==> after.collections[other] == toc.collections[other]
            &&& after.aliases == toc.aliases
            &&& after.storage_config == toc.storage_config
            &&& after.this_peer_id == toc.this_peer_id
        }),
{
}

/// The whole of the deletion of a collection. The answer is `false` exactly when there was no
/// collection of that name, and nothing changes then; it is `true` when there was one and its
/// directory is removed. In every case there is no collection of that name afterwards, also when
/// its directory could not be removed.
pub proof fn law_deletion<C>(
    pre: TocView<C>,
    name: Seq<char>,
    post: TocView<C>,
    step: DeletionStep<C>,
    removed: Result<(), String>,
    answer: Result<bool, StorageError>,
)
    requires
        deletion_begins(pre, name, post, step),
        match step {
            DeletionStep::RemoveDirectory { collection_name, .. } => deletion_ends(
                collection_name@,
                removed,
                answer,
            ),
            DeletionStep::Finished(result) => answer == result,
        },
    ensures
        answer == Ok::<bool, StorageError>(false) <==> !pre.has(name),
        answer == Ok::<bool, StorageError>(true) <==> pre.has(name) && removed is Ok,
        answer is Err <==> pre.has(name) && removed is Err,
        post == pre.without_collection(name),
        !post.has(name),
{
    if !pre.has(name) {
        assert(pre.without_collection(name).collections =~= pre.collections);
    }
}

/// To add a collection and to delete it changes nothing.
pub proof fn law_create_then_delete<C>(toc: TocView<C>, name: Seq<char>, collection: C)
    requires
        !toc.has(name),
    ensures
        toc.with_collection(name, collection).without_collection(name) == toc,
{
    assert(toc.with_collection(name, collection).without_collection(name).collections
        =~= toc.collections);
}

/// To delete a collection twice does no more than to delete it once.
pub proof fn law_delete_twice<C>(toc: TocView<C>, name: Seq<char>)
    ensures
        toc.without_collection(name).without_collection(name) == toc.without_collection(name),
{
    assert(toc.without_collection(name).without_collection(name).collections
        =~= toc.without_collection(name).collections);
}

/// The parts of the paths of collections of different names differ. All but the last of them are
/// the parts of the path of the collections, which are not those of the path of the aliases.
pub proof fn law_paths_are_distinct(storage_config: StorageConfig, a: Seq<char>, b: Seq<char>)
    ensures
        storage_config.collection_path_parts(a) == storage_config.collection_path_parts(b) ==> a
            == b,
        storage_config.collection_path_parts(a).drop_last()
            == storage_config.collections_path_parts(),
        storage_config.collections_path_parts() != storage_config.alias_path_parts(),
{
    let pa = storage_config.collection_path_parts(a);
    let pb = storage_config.collection_path_parts(b);
    assert(pa.last() == a && pb.last() == b);
    assert(pa.drop_last() =~= storage_config.collections_path_parts());
    reveal_strlit("collections");
    reveal_strlit("aliases");
    assert(COLLECTIONS_DIR@.len() != ALIASES_DIR@.len());
    assert(storage_config.collections_path_parts()[1] == COLLECTIONS_DIR@);
    assert(storage_config.alias_path_parts()[1] == ALIASES_DIR@);
}

/// A proposal is split between a peer and the others: each placement is either among the shards
/// of the peer or among the placements elsewhere, and there are no more of them.
pub proof fn law_proposal_is_split(
    placements: Seq<(ShardId, PeerId)>,
    peer_id: PeerId,
    placement: (ShardId, PeerId),
)
    ensures
        shards_on(placements, peer_id).len() + placements_off(placements, peer_id).len()
            == placements.len(),
        shards_on(placements, peer_id).contains(placement.0) <==> placements.contains(
            (placement.0, peer_id),
        ),
        placements_off(placements, peer_id).contains(placement) <==> placements.contains(placement)
            && placement.1 != peer_id,
    decreases placements.len(),
{
    reveal(Seq::filter);
    if placements.len() > 0 {
        let rest = placements.drop_last();
        let last = placements.last();
        law_proposal_is_split(rest, peer_id, placement);
        lemma_contains_last(placements, placement);
        lemma_contains_last(placements, (placement.0, peer_id));
        let on = shards_on(placements, peer_id);
        let off = placements_off(placements, peer_id);
        if last.1 == peer_id {
            assert(placements.filter(is_on(peer_id)) == rest.filter(is_on(peer_id)).push(last));
            assert(placements.filter(is_off(peer_id)) == rest.filter(is_off(peer_id)));
            assert(on =~= shards_on(rest, peer_id).push(last.0));
            lemma_contains_last(on, placement.0);
            assert(on.drop_last() =~= shards_on(rest, peer_id));
        } else {
            assert(placements.filter(is_on(peer_id)) == rest.filter(is_on(peer_id)));
            assert(off == placements_off(rest, peer_id).push(last));
            lemma_contains_last(off, placement);
            assert(off.drop_last() =~= placements_off(rest, peer_id));
        }
    }
}

/// What a sequence contains, by its last element and the others.
proof fn lemma_contains_last<A>(s: Seq<A>, a: A)
    requires
        s.len() > 0,
    ensures
        s.contains(a) <==> s.drop_last().contains(a) || s.last() == a,
{
    if s.contains(a) {
        let i = choose|i: int| 0 <= i < s.len() && s[i] == a;
        if i < s.len() - 1 {
            assert(s.drop_last()[i] == a);
        }
    }
    if s.drop_last().contains(a) {
        let i = choose|i: int| 0 <= i < s.drop_last().len() && s.drop_last()[i] == a;
        assert(s[i] == a);
    }
    if s.last() == a {
        assert(s[s.len() - 1] == a);
    }
}

/// Two operations that ask for the same number of shards, where one shard counts as asked for if
/// nothing is said, get the same request, whatever else they say: neither the name of the
/// collection nor any of its settings has a part in where its shards are placed.
pub proof fn law_same_number_of_shards_same_request<C, S>(
    toc: TocView<C>,
    a: CreateCollectionOperation,
    b: CreateCollectionOperation,
    peers: Seq<PeerId>,
    shards: Seq<Seq<S>>,
    for_a: ShardDistributionRequest<S>,
    for_b: ShardDistributionRequest<S>,
)
    requires
        shard_number(a.create_collection) == shard_number(b.create_collection),
        distribution_requested(toc, a, peers, shards, for_a),
        distribution_requested(toc, b, peers, shards, for_b),
    ensures
        for_a.shard_number == for_b.shard_number,
        for_a.this_peer_id == for_b.this_peer_id,
        for_a.known_peers@ == for_b.known_peers@,
        for_a.known_shards@ == for_b.known_shards@,
{
}

/// A map from shards to peers is split between a peer and the others: each shard is on one side
/// and not on the other.
pub proof fn law_shards_are_split(
    shard_to_peer: Map<ShardId, PeerId>,
    this_peer: PeerId,
    local: Seq<ShardId>,
    remote: Seq<(ShardId, PeerId)>,
    shard: ShardId,
)
    requires
        splits(shard_to_peer, this_peer, local, remote),
    ensures
        shard_to_peer.contains_key(shard) <==> local.contains(shard) || exists|peer: PeerId|
            remote.contains((shard, peer)),
        local.contains(shard) ==> forall|peer: PeerId| !remote.contains((shard, peer)),
{
    if shard_to_peer.contains_key(shard) && !local.contains(shard) {
        assert(remote.contains((shard, shard_to_peer[shard])));
    }
}

} // verus!
