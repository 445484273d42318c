//! What the calls on the parts of a table come to, told by what is handed to them and by how two
//! calls relate.

use crate::alias_mapping::AliasMapping;
use crate::assoc_map::{lemma_entries_dom, lemma_entries_last, lemma_entries_value, AssocMap};
use crate::config::{CollectionConfig, ShardCount};
use crate::consensus_state::CollectionState;
use crate::errors::StorageError;
use crate::laws::law_proposal_is_split;
use crate::shard_distribution::{
    is_off, is_on, shards_on, CollectionShardDistribution, PeerId,
    ShardDistributionProposal, ShardId,
};
use std::collections::HashMap;
use vstd::prelude::*;

verus! {

/// A map that was just made has no key. One that is made from entries has the key of each of them,
/// with the value of the last entry that has it.
pub proof fn law_new_maps<V>(
    empty: AssocMap<String, V>,
    entries: Vec<(String, V)>,
    map: AssocMap<String, V>,
)
    requires
        call_ensures(AssocMap::<String, V>::new, (), empty),
        call_ensures(AssocMap::<String, V>::from_entries, (entries,), map),
    ensures
        forall|key: Seq<char>| !#[trigger] empty@.contains_key(key),
        forall|key: Seq<char>| #[trigger]
            map@.contains_key(key) <==> exists|i: int|
                0 <= i < entries@.len() && (#[trigger] entries@[i]).0@ == key,
        forall|i: int|
            0 <= i < entries@.len() && (forall|j: int|
                i < j < entries@.len() ==> (#[trigger] entries@[j]).0@ != entries@[i].0@)
                ==> map@[(#[trigger] entries@[i]).0@] == entries@[i].1,
{
    assert forall|key: Seq<char>| #[trigger]
        map@.contains_key(key) <==> exists|i: int|
            0 <= i < entries@.len() && (#[trigger] entries@[i]).0@ == key by {
        lemma_entries_dom(entries@, key);
        if map@.contains_key(key) {
            let i = choose|i: int| 0 <= i < entries@.len() && #[trigger] entries@[i].0@ == key;
            assert(entries@[i].0@ == key);
        }
    }
    assert forall|i: int|
        0 <= i < entries@.len() && (forall|j: int|
            i < j < entries@.len() ==> (#[trigger] entries@[j]).0@
                != entries@[i].0@) implies map@[(#[trigger] entries@[i]).0@] == entries@[i].1 by {
        lemma_entries_last(entries@, i);
    }
}

/// A key that was given a value has that value; a key that was taken out is not there, and its
/// value is handed out. No other key is touched.
pub proof fn law_map_changes<V>(
    map: &mut AssocMap<String, V>,
    key: String,
    value: V,
    other: &mut AssocMap<String, V>,
    gone: &String,
    removed: Option<V>,
    name: Seq<char>,
)
    requires
        call_ensures(AssocMap::<String, V>::insert, (map, key, value), ()),
        call_ensures(AssocMap::<String, V>::remove, (other, gone), removed),
    ensures
        final(map)@.contains_key(key@),
        final(map)@[key@] == value,
        name != key@ ==> final(map)@.contains_key(name) == old(map)@.contains_key(name),
        name != key@ && old(map)@.contains_key(name) ==> final(map)@[name] == old(map)@[name],
        !final(other)@.contains_key(gone@),
        name != gone@ ==> final(other)@.contains_key(name) == old(other)@.contains_key(name),
        name != gone@ && old(other)@.contains_key(name) ==> final(other)@[name]
            == old(other)@[name],
        removed is Some <==> old(other)@.contains_key(gone@),
        removed matches Some(v) ==> v == old(other)@[gone@],
{
}

/// What is read of a map: a key is there or not, with its value; the keys are listed, each once.
pub proof fn law_map_reads<V>(
    map: &AssocMap<String, V>,
    key: &String,
    there: bool,
    got: Option<&V>,
    keys: Vec<String>,
    len: usize,
    name: Seq<char>,
)
    requires
        call_ensures(AssocMap::<String, V>::contains_key, (map, key), there),
        call_ensures(AssocMap::<String, V>::get, (map, key), got),
        call_ensures(AssocMap::<String, V>::keys, (map,), keys),
        call_ensures(AssocMap::<String, V>::len, (map,), len),
    ensures
        there <==> map@.contains_key(key@),
        got is Some <==> map@.contains_key(key@),
        got matches Some(v) ==> *v == map@[key@],
        map@.contains_key(name) <==> exists|i: int|
            0 <= i < keys@.len() && (#[trigger] keys@[i])@ == name,
        forall|i: int, j: int|
            0 <= i < j < keys@.len() ==> (#[trigger] keys@[i])@ != (#[trigger] keys@[j])@,
        len == keys@.len() == map@.dom().len(),
{
    assert(map@.dom().contains(name) == map@.contains_key(name));
    if map@.contains_key(name) {
        let i = choose|i: int| #![trigger keys@[i]] 0 <= i < keys@.len() && keys@[i]@ == name;
        assert(keys@[i]@ == name);
    }
    if exists|i: int| 0 <= i < keys@.len() && (#[trigger] keys@[i])@ == name {
        let i = choose|i: int| 0 <= i < keys@.len() && (#[trigger] keys@[i])@ == name;
        assert(map@.dom().contains(keys@[i]@));
    }
}

/// The keys and the values at the positions of a map are those of the list of its keys.
pub proof fn law_map_positions<V>(
    map: &AssocMap<String, V>,
    i: usize,
    keys: Vec<String>,
    key: &String,
    value: &V,
)
    requires
        call_ensures(AssocMap::<String, V>::keys, (map,), keys),
        i < keys@.len(),
        call_ensures(AssocMap::<String, V>::key_at, (map, i), key),
        call_ensures(AssocMap::<String, V>::value_at, (map, i), value),
    ensures
        key@ == keys@[i as int]@,
        map@.contains_key(key@),
        *value == map@[key@],
{
}

/// A copy of a map has the same keys, with copies of their values. A map that was emptied has no
/// key, and each of its keys was handed out once, with its value.
pub proof fn law_map_copied_and_emptied<V: Clone>(
    map: &AssocMap<String, V>,
    copy: AssocMap<String, V>,
    emptied: &mut AssocMap<String, V>,
    entries: Vec<(String, V)>,
    key: Seq<char>,
)
    requires
        call_ensures(AssocMap::<String, V>::duplicate, (map,), copy),
        call_ensures(AssocMap::<String, V>::drain, (emptied,), entries),
    ensures
        copy@.contains_key(key) == map@.contains_key(key),
        map@.contains_key(key) ==> cloned::<V>(map@[key], copy@[key]),
        !final(emptied)@.contains_key(key),
        old(emptied)@.contains_key(key) <==> exists|i: int|
            0 <= i < entries@.len() && (#[trigger] entries@[i]).0@ == key,
        forall|i: int|
            0 <= i < entries@.len() ==> old(emptied)@[(#[trigger] entries@[i]).0@]
                == entries@[i].1,
        forall|i: int, j: int|
            0 <= i < j < entries@.len() ==> (#[trigger] entries@[i]).0@ != (
            #[trigger] entries@[j]).0@,
{
    assert(copy@.dom().contains(key) == map@.dom().contains(key));
    lemma_entries_dom(entries@, key);
    if old(emptied)@.contains_key(key) {
        let i = choose|i: int| 0 <= i < entries@.len() && #[trigger] entries@[i].0@ == key;
        assert(entries@[i].0@ == key);
    }
    assert forall|i: int| 0 <= i < entries@.len() implies old(emptied)@[(
    #[trigger] entries@[i]).0@] == entries@[i].1 by {
        lemma_entries_value(entries@, i);
    }
    assert forall|i: int, j: int| 0 <= i < j < entries@.len() implies (#[trigger] entries@[i]).0@
        != (#[trigger] entries@[j]).0@ by {
        assert(entries@[i].0@ != entries@[j].0@);
    }
}

/// Aliases that were just made are none. An alias that was inserted stands for its collection, and
/// one that was removed is gone. No other alias is touched.
pub proof fn law_alias_mapping_changes(
    empty: AliasMapping,
    map: &mut AliasMapping,
    alias: String,
    collection: String,
    other: &mut AliasMapping,
    gone: &str,
    name: Seq<char>,
)
    requires
        call_ensures(AliasMapping::new, (), empty),
        call_ensures(AliasMapping::insert, (map, alias, collection), ()),
        call_ensures(AliasMapping::remove, (other, gone), ()),
    ensures
        !empty@.contains_key(name),
        final(map)@.contains_key(alias@),
        final(map)@[alias@] == collection@,
        name != alias@ ==> final(map)@.contains_key(name) == old(map)@.contains_key(name),
        name != alias@ && old(map)@.contains_key(name) ==> final(map)@[name] == old(map)@[name],
        !final(other)@.contains_key(gone@),
        name != gone@ ==> final(other)@.contains_key(name) == old(other)@.contains_key(name),
        name != gone@ && old(other)@.contains_key(name) ==> final(other)@[name]
            == old(other)@[name],
{
}

/// A renamed alias stands under its new name for what it stood for under its old one, and the old
/// name is gone, unless it is the new one. No other alias is touched. If there is no alias of the
/// old name, that is an error that names it, and nothing changes.
pub proof fn law_alias_mapping_rename(
    map: &mut AliasMapping,
    from: &str,
    to: String,
    res: Result<(), StorageError>,
    name: Seq<char>,
)
    requires
        call_ensures(AliasMapping::rename_alias, (map, from, to), res),
    ensures
        res is Ok <==> old(map)@.contains_key(from@),
        res is Ok ==> {
            &&& final(map)@.contains_key(to@)
            &&& final(map)@[to@] == old(map)@[from@]
            &&& from@ != to@ ==> !final(map)@.contains_key(from@)
            &&& name != from@ && name != to@ ==> {
                &&& final(map)@.contains_key(name) == old(map)@.contains_key(name)
                &&& old(map)@.contains_key(name) ==> final(map)@[name] == old(map)@[name]
            }
        },
        res matches Err(e) ==> {
            &&& final(map)@ == old(map)@
            &&& e matches StorageError::NotFound { description } && description@ == "Alias "@
                + from@ + " does not exist!"@
        },
{
}

/// What is read of aliases: what an alias stands for, all of them, each once, and a copy. To put
/// others in their place leaves none of them.
pub proof fn law_alias_mapping_reads(
    map: &AliasMapping,
    alias: &str,
    got: Option<String>,
    entries: Vec<(String, String)>,
    copy: AliasMapping,
    replaced: &mut AliasMapping,
    state: AliasMapping,
    name: Seq<char>,
)
    requires
        call_ensures(AliasMapping::get, (map, alias), got),
        call_ensures(AliasMapping::entries, (map,), entries),
        call_ensures(AliasMapping::state, (map,), copy),
        call_ensures(AliasMapping::apply_state, (replaced, state), ()),
    ensures
        got is Some <==> map@.contains_key(alias@),
        got matches Some(target) ==> target@ == map@[alias@],
        map@.contains_key(name) <==> exists|i: int|
            0 <= i < entries@.len() && (#[trigger] entries@[i]).0@ == name,
        forall|i: int|
            0 <= i < entries@.len() ==> (#[trigger] entries@[i]).1@ == map@[entries@[i].0@],
        forall|i: int, j: int|
            0 <= i < j < entries@.len() ==> (#[trigger] entries@[i]).0@ != (
            #[trigger] entries@[j]).0@,
        copy@ == map@,
        final(replaced)@ == state@,
{
    if exists|i: int| 0 <= i < entries@.len() && (#[trigger] entries@[i]).0@ == name {
        let i = choose|i: int| 0 <= i < entries@.len() && (#[trigger] entries@[i]).0@ == name;
        assert(map@.contains_key(entries@[i].0@));
    }
}

/// Two configurations count as the same exactly when each of their parts is.
pub proof fn law_same_configuration(a: &CollectionConfig, b: &CollectionConfig, same: bool)
    requires
        call_ensures(CollectionConfig::same, (a, b), same),
    ensures
        same <==> {
            &&& a.params.vector_size == b.params.vector_size
            &&& a.params.distance == b.params.distance
            &&& a.params.shard_number == b.params.shard_number
            &&& a.params.on_disk_payload == b.params.on_disk_payload
            &&& a.wal_config.settings@ == b.wal_config.settings@
            &&& a.optimizer_config.settings@ == b.optimizer_config.settings@
            &&& a.hnsw_config.settings@ == b.hnsw_config.settings@
        },
        a@ == b@ <==> same,
{
}

/// Two states count as the same exactly when their configurations do and each shard is on the same
/// peer. A copy of a state is the same.
pub proof fn law_same_state(
    a: &CollectionState,
    b: &CollectionState,
    same_config: bool,
    same: bool,
    copy: CollectionState,
)
    requires
        call_ensures(CollectionConfig::same, (&a.config, &b.config), same_config),
        call_ensures(CollectionState::same, (a, b), same),
        call_ensures(CollectionState::duplicate, (a,), copy),
    ensures
        same <==> same_config && a.shard_to_peer@ == b.shard_to_peer@,
        a@ == b@ <==> same,
        copy.config@ == a.config@,
        copy.shard_to_peer@ == a.shard_to_peer@,
{
}

/// A number of shards is never none, and says the number that it was made of.
pub proof fn law_shard_count(count: u32, made: Option<ShardCount>, got: u32)
    requires
        call_ensures(ShardCount::new, (count,), made),
        made matches Some(shards) ==> call_ensures(ShardCount::get, (shards,), got),
    ensures
        made is Some <==> count > 0,
        made is Some ==> got == count,
{
}

/// The text of an error is the one that it was given.
pub proof fn law_description(error: &StorageError, text: &String)
    requires
        call_ensures(StorageError::description, (error,), text),
    ensures
        error matches StorageError::BadInput { description } ==> text@ == description@,
        error matches StorageError::NotFound { description } ==> text@ == description@,
        error matches StorageError::ServiceError { description } ==> text@ == description@,
{
}

/// The shards of a proposal are told apart one by one, in their order: those of two lists that are
/// put together are those of the one and then those of the other, and a single shard is here
/// exactly when it is put on this peer, and else is elsewhere, with its peer.
pub proof fn law_proposal_is_told_apart(
    peer_id: PeerId,
    both: &ShardDistributionProposal,
    first: &ShardDistributionProposal,
    second: &ShardDistributionProposal,
    both_local: Vec<ShardId>,
    first_local: Vec<ShardId>,
    second_local: Vec<ShardId>,
    both_remote: Vec<(ShardId, PeerId)>,
    first_remote: Vec<(ShardId, PeerId)>,
    second_remote: Vec<(ShardId, PeerId)>,
)
    requires
        both.distribution@ == first.distribution@ + second.distribution@,
        call_ensures(ShardDistributionProposal::local_shards_for, (both, peer_id), both_local),
        call_ensures(ShardDistributionProposal::local_shards_for, (first, peer_id), first_local),
        call_ensures(ShardDistributionProposal::local_shards_for, (second, peer_id), second_local),
        call_ensures(ShardDistributionProposal::remote_shards_for, (both, peer_id), both_remote),
        call_ensures(ShardDistributionProposal::remote_shards_for, (first, peer_id), first_remote),
        call_ensures(
            ShardDistributionProposal::remote_shards_for,
            (second, peer_id),
            second_remote,
        ),
    ensures
        both_local@ == first_local@ + second_local@,
        both_remote@ == first_remote@ + second_remote@,
        first.distribution@.len() == 1 && first.distribution@[0].1 == peer_id ==> first_local@
            == seq![first.distribution@[0].0] && first_remote@.len() == 0,
        first.distribution@.len() == 1 && first.distribution@[0].1 != peer_id ==> first_remote@
            == first.distribution@ && first_local@.len() == 0,
        first.distribution@.len() == 0 ==> first_local@.len() == 0 && first_remote@.len() == 0,
{
    let a = first.distribution@;
    let b = second.distribution@;
    Seq::filter_distributes_over_add(a, b, is_on(peer_id));
    Seq::filter_distributes_over_add(a, b, is_off(peer_id));
    assert(shards_on(a + b, peer_id) =~= shards_on(a, peer_id) + shards_on(b, peer_id));
    if a.len() == 1 {
        reveal(Seq::filter);
        assert(a.drop_last().filter(is_on(peer_id)) =~= Seq::empty());
        assert(a.drop_last().filter(is_off(peer_id)) =~= Seq::empty());
        assert(a =~= seq![a[0]]);
        if a[0].1 == peer_id {
            assert(first_local@ =~= seq![a[0].0]);
        } else {
            assert(first_remote@ =~= seq![a[0]]);
        }
    }
    law_proposal_is_split(a, peer_id, (0u32, 0u64));
}

/// A map from shards to peers is told apart: a shard is here exactly when the map puts it on this
/// peer, and is elsewhere, with its peer, exactly when the map puts it on another. Each is listed
/// once, and they are never taken for all being here.
pub proof fn law_shard_map_is_told_apart(
    this_peer: PeerId,
    shard_to_peer: &HashMap<ShardId, PeerId>,
    res: CollectionShardDistribution,
    shard: ShardId,
    peer: PeerId,
)
    requires
        call_ensures(
            CollectionShardDistribution::from_shard_to_peer,
            (this_peer, shard_to_peer),
            res,
        ),
    ensures
        res matches CollectionShardDistribution::Distribution { local, remote } && {
            &&& local@.contains(shard) <==> shard_to_peer@.contains_key(shard)
                && shard_to_peer@[shard] == this_peer
            &&& remote@.contains((shard, peer)) <==> shard_to_peer@.contains_key(shard)
                && shard_to_peer@[shard] == peer && peer != this_peer
            &&& local@.no_duplicates()
            &&& remote@.no_duplicates()
        },
{
}

} // verus!
