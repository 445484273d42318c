//! What the calls of a table that only read it give, told by what the table holds.

use crate::alias_mapping::{aliases_of, AliasMapping};
use crate::assoc_map::{lemma_entries_dom, lemma_entries_last, lemma_entries_value};
use crate::config::{StorageConfig, StoragePath};
use crate::consensus_state::{CollectionState, CollectionsSnapshot};
use crate::errors::StorageError;
use crate::operations::CreateCollectionOperation;
use crate::shard_distribution::{PeerId, ShardId};
use crate::toc::{
    contents, PeerAddressById, ReadCall, ReadMethod, ShardDistributionRequest, TableOfContent,
    UpdateCall,
};
use vstd::prelude::*;

verus! {

/// A table that was just made has the collections that were handed in, each under its name. Of two
/// of the same name it has the later one. It has the aliases, the settings and the peer that were
/// handed in.
pub proof fn law_new_table<C>(
    storage_config: &StorageConfig,
    loaded: Vec<(String, C)>,
    aliases: AliasMapping,
    this_peer_id: PeerId,
    toc: TableOfContent<C>,
)
    requires
        call_ensures(
            TableOfContent::<C>::new,
            (storage_config, loaded, aliases, this_peer_id),
            toc,
        ),
    ensures
        forall|name: Seq<char>| #[trigger]
            toc@.collections.contains_key(name) <==> exists|i: int|
                0 <= i < loaded@.len() && (#[trigger] loaded@[i]).0@ == name,
        forall|i: int|
            0 <= i < loaded@.len() && (forall|j: int|
                i < j < loaded@.len() ==> (#[trigger] loaded@[j]).0@ != loaded@[i].0@)
                ==> toc@.collections[(#[trigger] loaded@[i]).0@] == loaded@[i].1,
        toc@.aliases == aliases@,
        toc@.storage_config == *storage_config,
        toc@.this_peer_id == this_peer_id,
{
    assert forall|name: Seq<char>| #[trigger]
        toc@.collections.contains_key(name) <==> exists|i: int|
            0 <= i < loaded@.len() && (#[trigger] loaded@[i]).0@ == name by {
        lemma_entries_dom(loaded@, name);
        if toc@.collections.contains_key(name) {
            let i = choose|i: int| 0 <= i < loaded@.len() && #[trigger] loaded@[i].0@ == name;
            assert(loaded@[i].0@ == name);
        }
    }
    assert forall|i: int|
        0 <= i < loaded@.len() && (forall|j: int|
            i < j < loaded@.len() ==> (#[trigger] loaded@[j]).0@
                != loaded@[i].0@) implies toc@.collections[(#[trigger] loaded@[i]).0@]
        == loaded@[i].1 by {
        lemma_entries_last(loaded@, i);
    }
}

/// The name of a collection stands for itself, whatever the aliases are. Any other name that is an
/// alias stands for the collection of the alias. A name that leads to no collection is an error
/// that names the collection that is missing.
pub proof fn law_resolve_name<C>(
    toc: &TableOfContent<C>,
    name: &str,
    res: Result<String, StorageError>,
)
    requires
        call_ensures(TableOfContent::<C>::resolve_name, (toc, name), res),
    ensures
        toc@.collections.contains_key(name@) ==> (res matches Ok(found) && found@ == name@),
        !toc@.collections.contains_key(name@) && toc@.aliases.contains_key(name@)
            && toc@.collections.contains_key(toc@.aliases[name@]) ==> (res matches Ok(found)
            && found@ == toc@.aliases[name@]),
        !toc@.collections.contains_key(name@) && toc@.aliases.contains_key(name@)
            && !toc@.collections.contains_key(toc@.aliases[name@]) ==> (res matches Err(
            StorageError::NotFound { description },
        ) && description@ == "Collection `"@ + toc@.aliases[name@] + "` doesn't exist!"@),
        !toc@.collections.contains_key(name@) && !toc@.aliases.contains_key(name@) ==> (
        res matches Err(StorageError::NotFound { description }) && description@ == "Collection `"@
            + name@ + "` doesn't exist!"@),
{
}

/// The collection that is got for a name is the one of the name that the name is resolved to. If
/// the name is not resolved, the error is the same.
pub proof fn law_get_collection<C>(
    toc: &TableOfContent<C>,
    name: &str,
    resolved: Result<String, StorageError>,
    got: Result<&C, StorageError>,
)
    requires
        call_ensures(TableOfContent::<C>::resolve_name, (toc, name), resolved),
        call_ensures(TableOfContent::<C>::get_collection, (toc, name), got),
    ensures
        match resolved {
            Ok(found) => toc@.collections.contains_key(found@) && (got matches Ok(collection)
                && *collection == toc@.collections[found@]),
            Err(e) => got matches Err(f) && f@ == e@,
        },
{
}

/// What is got by an alias is what is got by the name of the collection that it stands for, unless
/// the alias has the name of a collection itself.
pub proof fn law_alias_is_as_good_as_its_collection<C>(
    toc: &TableOfContent<C>,
    alias: &str,
    name: &str,
    by_alias: Result<&C, StorageError>,
    by_name: Result<&C, StorageError>,
)
    requires
        toc@.aliases.contains_key(alias@),
        toc@.aliases[alias@] == name@,
        !toc@.collections.contains_key(alias@),
        toc@.collections.contains_key(name@),
        call_ensures(TableOfContent::<C>::get_collection, (toc, alias), by_alias),
        call_ensures(TableOfContent::<C>::get_collection, (toc, name), by_name),
    ensures
        by_alias matches Ok(a) && (by_name matches Ok(b) && *a == *b && *a
            == toc@.collections[name@]),
{
}

/// The collection of that very name, and the two checks of a name, do not look at aliases.
pub proof fn law_very_name<C>(
    toc: &TableOfContent<C>,
    name: &str,
    collection: Option<&C>,
    exists_check: Result<(), StorageError>,
    not_exists_check: Result<(), StorageError>,
)
    requires
        call_ensures(TableOfContent::<C>::collection, (toc, name), collection),
        call_ensures(TableOfContent::<C>::validate_collection_exists, (toc, name), exists_check),
        call_ensures(
            TableOfContent::<C>::validate_collection_not_exists,
            (toc, name),
            not_exists_check,
        ),
    ensures
        toc@.collections.contains_key(name@) ==> {
            &&& collection matches Some(c) && *c == toc@.collections[name@]
            &&& exists_check is Ok
            &&& not_exists_check matches Err(StorageError::BadInput { description })
                && description@ == "Collection `"@ + name@ + "` already exists!"@
        },
        !toc@.collections.contains_key(name@) ==> {
            &&& collection is None
            &&& not_exists_check is Ok
            &&& exists_check matches Err(StorageError::NotFound { description }) && description@
                == "Collection `"@ + name@ + "` doesn't exist!"@
        },
{
}

/// `res` is a read by `method` on the collection that was got, with the request and the shard that
/// were handed in, or the error of getting it.
pub open spec fn reads_from<C, R>(
    got: Result<&C, StorageError>,
    method: ReadMethod,
    request: R,
    shard_selection: Option<ShardId>,
    res: Result<ReadCall<'_, C, R>, StorageError>,
) -> bool {
    match got {
        Ok(collection) => res matches Ok(call) && {
            &&& *call.collection == *collection
            &&& call.method == method
            &&& call.request == request
            &&& call.shard_selection == shard_selection
        },
        Err(e) => res matches Err(f) && f@ == e@,
    }
}

/// Every read goes to the collection that is got by that name, by its own method, and takes along
/// what was handed in.
pub proof fn law_reads<C, R>(
    toc: &TableOfContent<C>,
    name: &str,
    request: R,
    shard: Option<ShardId>,
    got: Result<&C, StorageError>,
    recommended: Result<ReadCall<'_, C, R>, StorageError>,
    searched: Result<ReadCall<'_, C, R>, StorageError>,
    searched_batch: Result<ReadCall<'_, C, R>, StorageError>,
    retrieved: Result<ReadCall<'_, C, R>, StorageError>,
    scrolled: Result<ReadCall<'_, C, R>, StorageError>,
)
    requires
        call_ensures(TableOfContent::<C>::get_collection, (toc, name), got),
        call_ensures(TableOfContent::<C>::recommend::<R>, (toc, name, request, shard), recommended),
        call_ensures(TableOfContent::<C>::search::<R>, (toc, name, request, shard), searched),
        call_ensures(
            TableOfContent::<C>::search_batch::<R>,
            (toc, name, request, shard),
            searched_batch,
        ),
        call_ensures(TableOfContent::<C>::retrieve::<R>, (toc, name, request, shard), retrieved),
        call_ensures(TableOfContent::<C>::scroll::<R>, (toc, name, request, shard), scrolled),
    ensures
        reads_from(got, ReadMethod::RecommendBy, request, shard, recommended),
        reads_from(got, ReadMethod::Search, request, shard, searched),
        reads_from(got, ReadMethod::BatchSearch, request, shard, searched_batch),
        reads_from(got, ReadMethod::Retrieve, request, shard, retrieved),
        reads_from(got, ReadMethod::ScrollBy, request, shard, scrolled),
{
}

/// Every update goes to the collection that is got by that name and takes along what was handed
/// in. With a shard selected it comes from a peer, else from a client.
pub proof fn law_updates<C, O>(
    toc: &TableOfContent<C>,
    name: &str,
    operation: O,
    shard_selection: Option<ShardId>,
    wait: bool,
    got: Result<&C, StorageError>,
    res: Result<UpdateCall<'_, C, O>, StorageError>,
)
    requires
        call_ensures(TableOfContent::<C>::get_collection, (toc, name), got),
        call_ensures(
            TableOfContent::<C>::update::<O>,
            (toc, name, operation, shard_selection, wait),
            res,
        ),
    ensures
        match (got, shard_selection) {
            (Ok(c), Some(shard)) => res matches Ok(
                UpdateCall::FromPeer { collection, operation: o, shard_selection: s, wait: w },
            ) && *collection == *c && o == operation && s == shard && w == wait,
            (Ok(c), None) => res matches Ok(
                UpdateCall::FromClient { collection, operation: o, wait: w },
            ) && *collection == *c && o == operation && w == wait,
            (Err(e), _) => res matches Err(f) && f@ == e@,
        },
{
}

/// All collections are listed: a name is in the list exactly when there is a collection of that
/// name, and no name is in it twice.
pub proof fn law_all_collections<C>(toc: &TableOfContent<C>, names: Vec<String>, name: Seq<char>)
    requires
        call_ensures(TableOfContent::<C>::all_collections, (toc,), names),
    ensures
        toc@.collections.contains_key(name) <==> exists|i: int|
            0 <= i < names@.len() && (#[trigger] names@[i])@ == name,
        forall|i: int, j: int|
            0 <= i < j < names@.len() ==> (#[trigger] names@[i])@ != (#[trigger] names@[j])@,
        names@.len() == toc@.collections.dom().len(),
{
    assert(toc@.collections.dom().contains(name) == toc@.collections.contains_key(name));
    if toc@.collections.contains_key(name) {
        let i = choose|i: int| #![trigger names@[i]] 0 <= i < names@.len() && names@[i]@ == name;
        assert(names@[i]@ == name);
    }
    if exists|i: int| 0 <= i < names@.len() && (#[trigger] names@[i])@ == name {
        let i = choose|i: int| 0 <= i < names@.len() && (#[trigger] names@[i])@ == name;
        assert(toc@.collections.dom().contains(names@[i]@));
    }
}

/// The aliases of a collection are listed: a name is in the list exactly when it is an alias that
/// stands for the collection, and no name is in it twice. Listing them never fails.
pub proof fn law_collection_aliases<C>(
    toc: &TableOfContent<C>,
    collection_name: &str,
    res: Result<Vec<String>, StorageError>,
    alias: Seq<char>,
)
    requires
        call_ensures(TableOfContent::<C>::collection_aliases, (toc, collection_name), res),
    ensures
        res matches Ok(aliases) && {
            &&& toc@.aliases.contains_key(alias) && toc@.aliases[alias] == collection_name@
                <==> exists|i: int| 0 <= i < aliases@.len() && (#[trigger] aliases@[i])@ == alias
            &&& forall|i: int, j: int|
                0 <= i < j < aliases@.len() ==> (#[trigger] aliases@[i])@ != (
                #[trigger] aliases@[j])@
        },
{
    let aliases = res->Ok_0;
    let dom = aliases_of(toc@.aliases, collection_name@);
    assert(dom.contains(alias) <==> toc@.aliases.contains_key(alias) && toc@.aliases[alias]
        == collection_name@);
    if dom.contains(alias) {
        let i = choose|i: int|
            #![trigger aliases@[i]]
            0 <= i < aliases@.len() && aliases@[i]@ == alias;
        assert(aliases@[i]@ == alias);
    }
    if exists|i: int| 0 <= i < aliases@.len() && (#[trigger] aliases@[i])@ == alias {
        let i = choose|i: int| 0 <= i < aliases@.len() && (#[trigger] aliases@[i])@ == alias;
        assert(dom.contains(aliases@[i]@));
    }
}

/// A snapshot has each collection of the table, no other, with the state that was handed in for
/// it, and it has the aliases of the table. States are handed in in the order of the list of all
/// collections.
pub proof fn law_collections_snapshot<C>(
    toc: &TableOfContent<C>,
    names: Vec<String>,
    states: Vec<CollectionState>,
    data: CollectionsSnapshot,
)
    requires
        call_ensures(TableOfContent::<C>::all_collections, (toc,), names),
        states@.len() == names@.len(),
        call_ensures(TableOfContent::<C>::collections_snapshot, (toc, states), data),
    ensures
        forall|name: Seq<char>| #[trigger]
            data.collections@.contains_key(name) <==> toc@.collections.contains_key(name),
        forall|i: int|
            0 <= i < names@.len() ==> data.collections@[(#[trigger] names@[i])@] == states@[i],
        data.aliases@ == toc@.aliases,
{
    assert forall|name: Seq<char>| #[trigger]
        data.collections@.contains_key(name) <==> toc@.collections.contains_key(name) by {
        assert(data.collections@.dom().contains(name) == toc@.collections.dom().contains(name));
    }
    assert forall|i: int| 0 <= i < names@.len() implies data.collections@[(
    #[trigger] names@[i])@] == states@[i] by {
        assert(names@[i]@ == toc.order()[i]);
    }
}

/// What is handed to those who place shards: the number that the operation asks for, or one if it
/// asks for none, this peer, each peer whose address is known, once, and the shards of all
/// collections, one collection after the other. Nothing else of the operation has a part in it: a
/// second operation that asks for as many shards gets the same.
pub proof fn law_shard_distribution_request<C, S>(
    toc: &TableOfContent<C>,
    op: &CreateCollectionOperation,
    other: &CreateCollectionOperation,
    id_to_address: &PeerAddressById,
    shards: Vec<Vec<S>>,
    res: ShardDistributionRequest<S>,
    other_res: ShardDistributionRequest<S>,
    peer: PeerId,
)
    requires
        call_ensures(
            TableOfContent::<C>::suggest_shard_distribution::<S>,
            (toc, op, id_to_address, shards),
            res,
        ),
        call_ensures(
            TableOfContent::<C>::suggest_shard_distribution::<S>,
            (toc, other, id_to_address, shards),
            other_res,
        ),
    ensures
        op.create_collection.shard_number matches Some(n) ==> res.shard_number == n,
        op.create_collection.shard_number is None ==> res.shard_number == 1,
        res.this_peer_id == toc@.this_peer_id,
        res.known_peers@.contains(peer) <==> id_to_address@.contains_key(peer),
        res.known_peers@.no_duplicates(),
        res.known_shards@ == Seq::new(shards@.len(), |i: int| shards@[i]@).flatten(),
        res.known_peers@ == other_res.known_peers@,
        res.known_shards@ == other_res.known_shards@,
        res.this_peer_id == other_res.this_peer_id,
        op.create_collection.shard_number == other.create_collection.shard_number
            ==> res.shard_number == other_res.shard_number,
{
    assert(contents(shards@) =~= Seq::new(shards@.len(), |i: int| shards@[i]@));
    assert(res.known_peers@.to_set().contains(peer) == id_to_address@.dom().contains(peer));
}

/// The directory of a collection is the one of its name in the directory `collections` of the
/// storage.
pub proof fn law_collection_path<C>(
    toc: &TableOfContent<C>,
    name: &str,
    path: StoragePath,
    storage_path: &str,
)
    requires
        call_ensures(TableOfContent::<C>::get_collection_path, (toc, name), path),
        call_ensures(TableOfContent::<C>::storage_path, (toc,), storage_path),
    ensures
        storage_path@ == toc@.storage_config.storage_path@,
        path.parts@.len() == 3,
        path.parts@[0]@ == storage_path@,
        path.parts@[1]@ == "collections"@,
        path.parts@[2]@ == name@,
{
    lemma_parts(path, toc@.storage_config, name@);
}

/// The directories of the collections and of the aliases, in the directory of the storage, and
/// that of a collection.
pub proof fn law_storage_paths(
    storage_config: &StorageConfig,
    name: &str,
    collections: StoragePath,
    aliases: StoragePath,
    collection: StoragePath,
)
    requires
        call_ensures(StorageConfig::collections_path, (storage_config,), collections),
        call_ensures(StorageConfig::alias_path, (storage_config,), aliases),
        call_ensures(StorageConfig::collection_path, (storage_config, name), collection),
    ensures
        collections.parts@.len() == 2,
        collections.parts@[0]@ == storage_config.storage_path@,
        collections.parts@[1]@ == "collections"@,
        aliases.parts@.len() == 2,
        aliases.parts@[0]@ == storage_config.storage_path@,
        aliases.parts@[1]@ == "aliases"@,
        collection.parts@.len() == 3,
        collection.parts@[0]@ == storage_config.storage_path@,
        collection.parts@[1]@ == "collections"@,
        collection.parts@[2]@ == name@,
{
    lemma_parts(collection, *storage_config, name@);
    assert(collections@.len() == 2 && aliases@.len() == 2);
    assert(collections@[0] == collections.parts@[0]@);
    assert(collections@[1] == collections.parts@[1]@);
    assert(aliases@[0] == aliases.parts@[0]@);
    assert(aliases@[1] == aliases.parts@[1]@);
}

/// The parts of the path of a collection, one by one.
pub proof fn lemma_parts(path: StoragePath, storage_config: StorageConfig, name: Seq<char>)
    requires
        path@ == storage_config.collection_path_parts(name),
    ensures
        path.parts@.len() == 3,
        path.parts@[0]@ == storage_config.storage_path@,
        path.parts@[1]@ == "collections"@,
        path.parts@[2]@ == name,
{
    assert(path@.len() == 3);
    assert(path@[0] == path.parts@[0]@);
    assert(path@[1] == path.parts@[1]@);
    assert(path@[2] == path.parts@[2]@);
}

/// The peer is the one that the table was made for, and the addresses of the peers are those that
/// are handed in.
pub proof fn law_peers<C>(
    toc: &TableOfContent<C>,
    id_to_address: &PeerAddressById,
    this_peer: PeerId,
    addresses: PeerAddressById,
    aliases: &AliasMapping,
)
    requires
        call_ensures(TableOfContent::<C>::this_peer_id, (toc,), this_peer),
        call_ensures(TableOfContent::<C>::peer_address_by_id, (toc, id_to_address), addresses),
        call_ensures(TableOfContent::<C>::alias_mapping, (toc,), aliases),
    ensures
        this_peer == toc@.this_peer_id,
        addresses@ == id_to_address@,
        aliases@ == toc@.aliases,
{
}

/// Emptying a table hands out each of its collections once, with its name, and leaves the aliases,
/// the settings and the peer.
pub proof fn law_drain<C>(toc: &mut TableOfContent<C>, drained: Vec<(String, C)>)
    requires
        call_ensures(TableOfContent::<C>::drain, (toc,), drained),
    ensures
        forall|i: int|
            0 <= i < drained@.len() ==> old(toc)@.collections.contains_key(
                (#[trigger] drained@[i]).0@,
            ) && old(toc)@.collections[drained@[i].0@] == drained@[i].1,
        forall|i: int, j: int|
            0 <= i < j < drained@.len() ==> (#[trigger] drained@[i]).0@ != (
            #[trigger] drained@[j]).0@,
        forall|name: Seq<char>| #[trigger]
            old(toc)@.collections.contains_key(name) ==> exists|i: int|
                0 <= i < drained@.len() && (#[trigger] drained@[i]).0@ == name,
        final(toc)@.collections == Map::<Seq<char>, C>::empty(),
        final(toc)@.aliases == old(toc)@.aliases,
        final(toc)@.storage_config == old(toc)@.storage_config,
        final(toc)@.this_peer_id == old(toc)@.this_peer_id,
{
    assert forall|i: int, j: int| 0 <= i < j < drained@.len() implies (#[trigger] drained@[i]).0@
        != (#[trigger] drained@[j]).0@ by {
        assert(drained@[i].0@ != drained@[j].0@);
    }
    assert forall|i: int| 0 <= i < drained@.len() implies old(toc)@.collections.contains_key(
        (#[trigger] drained@[i]).0@,
    ) && old(toc)@.collections[drained@[i].0@] == drained@[i].1 by {
        lemma_entries_value(drained@, i);
    }
    assert forall|name: Seq<char>| #[trigger]
        old(toc)@.collections.contains_key(name) implies exists|i: int|
        0 <= i < drained@.len() && (#[trigger] drained@[i]).0@ == name by {
        lemma_entries_dom(drained@, name);
        let i = choose|i: int| 0 <= i < drained@.len() && #[trigger] drained@[i].0@ == name;
        assert(drained@[i].0@ == name);
    }
}

} // verus!
