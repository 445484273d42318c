//! The table of contents: lookups, and the calls that go to a collection.

use crate::alias_mapping::{aliases_of, AliasMapping};
use crate::assoc_map::{distinct_keys, entries_map, lists_once, AssocMap};
use crate::config::{StorageConfig, StoragePath};
use crate::consensus_state::{CollectionState, CollectionsSnapshot};
use crate::creation::shard_number;
use crate::errors::{collection_exists_error, collection_missing_error, StorageError};
use crate::model::TocView;
use crate::operations::CreateCollectionOperation;
use crate::shard_distribution::{PeerId, ShardId};
use std::collections::HashMap;
use vstd::prelude::*;
use vstd::std_specs::iter::IteratorSpec;

verus! {

/// The addresses of the peers.
pub type PeerAddressById = HashMap<PeerId, String>;

/// The main object of the storage. It knows every collection by name, and every alias.
///
/// `C` is the handle of a collection. The table keeps handles and gives them out; it
/// never looks into them.
pub struct TableOfContent<C> {
    collections: AssocMap<String, C>,
    storage_config: StorageConfig,
    alias_persistence: AliasMapping,
    this_peer_id: PeerId,
}

impl<C> View for TableOfContent<C> {
    type V = TocView<C>;

    closed spec fn view(&self) -> TocView<C> {
        TocView {
            collections: self.collections@,
            aliases: self.alias_persistence@,
            storage_config: self.storage_config,
            this_peer_id: self.this_peer_id,
        }
    }
}

/// The operations of a collection that read points.
#[derive(Clone, Copy, Debug, PartialEq, Eq, Structural)]
pub enum ReadMethod {
    RecommendBy,
    Search,
    BatchSearch,
    Retrieve,
    ScrollBy,
}

/// A read that is to be made on a collection.
pub struct ReadCall<'a, C, R> {
    pub collection: &'a C,
    pub method: ReadMethod,
    pub request: R,
    pub shard_selection: Option<ShardId>,
}

/// An update that is to be made on a collection.
pub enum UpdateCall<'a, C, O> {
    /// Another peer sent it, for one shard that is here.
    FromPeer { collection: &'a C, operation: O, shard_selection: ShardId, wait: bool },
    /// A client sent it, for whichever shards it concerns.
    FromClient { collection: &'a C, operation: O, wait: bool },
}

/// `res` is the call of `method` on the collection that `name` leads to, or the error
/// that there is none.
pub open spec fn routed<C, R>(
    toc: TocView<C>,
    name: Seq<char>,
    method: ReadMethod,
    request: R,
    shard_selection: Option<ShardId>,
    res: Result<ReadCall<'_, C, R>, StorageError>,
) -> bool {
    match toc.resolve(name) {
        Some(real_name) => res matches Ok(call) && {
            &&& *call.collection == toc.collections[real_name]
            &&& call.method == method
            &&& call.request == request
            &&& call.shard_selection == shard_selection
        },
        None => res matches Err(e) && e@ == collection_missing_error(toc.target(name)),
    }
}

/// What each of the lists holds.
pub open spec fn contents<S>(lists: Seq<Vec<S>>) -> Seq<Seq<S>> {
    lists.map_values(|list: Vec<S>| list@)
}

/// What is known when shards are to be placed on peers.
pub struct ShardDistributionRequest<S> {
    pub shard_number: u32,
    pub this_peer_id: PeerId,
    pub known_peers: Vec<PeerId>,
    pub known_shards: Vec<S>,
}

/// `res` is what is to be known to place the shards of a new collection: how many they are (one
/// if the operation does not say), this peer, the peers in the order in which their addresses are
/// listed, and the shards of all collections, one collection after the other.
pub open spec fn distribution_requested<C, S>(
    toc: TocView<C>,
    op: CreateCollectionOperation,
    peers: Seq<PeerId>,
    shards: Seq<Seq<S>>,
    res: ShardDistributionRequest<S>,
) -> bool {
    &&& res.shard_number == shard_number(op.create_collection)
    &&& res.this_peer_id == toc.this_peer_id
    &&& res.known_peers@ == peers
    &&& res.known_shards@ == shards.flatten()
}

impl<C> TableOfContent<C> {
    /// The names of the collections in the order in which they are listed.
    pub closed spec fn order(&self) -> Seq<Seq<char>> {
        self.collections.order()
    }

    /// A table of the collections that were found on disk, each with the name of its
    /// directory, and of the aliases that were kept.
    pub fn new(
        storage_config: &StorageConfig,
        loaded: Vec<(String, C)>,
        alias_persistence: AliasMapping,
        this_peer_id: PeerId,
    ) -> (res: Self)
        ensures
            res@ == (TocView {
                collections: entries_map(loaded@),
                aliases: alias_persistence@,
                storage_config: *storage_config,
                this_peer_id,
            }),
    {
        TableOfContent {
            collections: AssocMap::from_entries(loaded),
            storage_config: storage_config.clone(),
            alias_persistence,
            this_peer_id,
        }
    }

    /// The directory of a collection.
    pub fn get_collection_path(&self, collection_name: &str) -> (res: StoragePath)
        ensures
            res@ == self@.path(collection_name@),
    {
        self.storage_config.collection_path(collection_name)
    }

    /// The directory of the storage.
    pub fn storage_path(&self) -> (res: &str)
        ensures
            res@ == self@.storage_config.storage_path@,
    {
        self.storage_config.storage_path.as_str()
    }

    /// The settings of the storage.
    pub(crate) fn storage_config(&self) -> (res: &StorageConfig)
        ensures
            *res == self@.storage_config,
    {
        &self.storage_config
    }

    /// The peer that this table is on.
    pub fn this_peer_id(&self) -> (res: PeerId)
        ensures
            res == self@.this_peer_id,
    {
        self.this_peer_id
    }

    /// Refuses a name that no collection has.
    pub fn validate_collection_exists(&self, collection_name: &str) -> (res: Result<
        (),
        StorageError,
    >)
        ensures
            match res {
                Ok(_) => self@.has(collection_name@),
                Err(e) => !self@.has(collection_name@) && e@ == collection_missing_error(
                    collection_name@,
                ),
            },
    {
        if self.collections.contains_key(&collection_name.to_owned()) {
            Ok(())
        } else {
            Err(StorageError::collection_missing(collection_name))
        }
    }

    /// Refuses a name that a collection has.
    pub fn validate_collection_not_exists(&self, collection_name: &str) -> (res: Result<
        (),
        StorageError,
    >)
        ensures
            match res {
                Ok(_) => !self@.has(collection_name@),
                Err(e) => self@.has(collection_name@) && e@ == collection_exists_error(
                    collection_name@,
                ),
            },
    {
        if self.collections.contains_key(&collection_name.to_owned()) {
            Err(StorageError::collection_exists(collection_name))
        } else {
            Ok(())
        }
    }

    /// Finds the original name of the collection.
    ///
    /// If the collection exists, that is its name. If the alias exists, it is the name of the
    /// collection that the alias stands for. If neither exists, that is an error, and so it is
    /// if the alias stands for a collection that does not exist.
    pub fn resolve_name(&self, collection_name: &str) -> (res: Result<String, StorageError>)
        ensures
            match res {
                Ok(name) => self@.resolve(collection_name@) == Some(name@),
                Err(e) => self@.resolve(collection_name@) is None && e@
                    == collection_missing_error(self@.target(collection_name@)),
            },
    {
        if self.collections.contains_key(&collection_name.to_owned()) {
            return Ok(collection_name.to_owned());
        }
        let resolved_name = match self.alias_persistence.get(collection_name) {
            None => collection_name.to_owned(),
            Some(resolved_alias) => resolved_alias,
        };
        match self.validate_collection_exists(resolved_name.as_str()) {
            Ok(_) => Ok(resolved_name),
            Err(e) => Err(e),
        }
    }

    /// The collection that a name or an alias leads to.
    pub fn get_collection(&self, collection_name: &str) -> (res: Result<&C, StorageError>)
        ensures
            match self@.resolve(collection_name@) {
                Some(name) => res matches Ok(collection) && *collection
                    == self@.collections[name],
                None => res matches Err(e) && e@ == collection_missing_error(
                    self@.target(collection_name@),
                ),
            },
    {
        match self.resolve_name(collection_name) {
            Ok(real_collection_name) => match self.collections.get(&real_collection_name) {
                Some(collection) => Ok(collection),
                None => Err(StorageError::collection_missing(real_collection_name.as_str())),
            },
            Err(e) => Err(e),
        }
    }

    /// The collection of that very name, whatever the aliases are.
    pub fn collection(&self, name: &str) -> (res: Option<&C>)
        ensures
            match res {
                Some(collection) => self@.has(name@) && *collection == self@.collections[name@],
                None => !self@.has(name@),
            },
    {
        self.collections.get(&name.to_owned())
    }

    fn read<R>(
        &self,
        collection_name: &str,
        method: ReadMethod,
        request: R,
        shard_selection: Option<ShardId>,
    ) -> (res: Result<ReadCall<'_, C, R>, StorageError>)
        ensures
            routed(self@, collection_name@, method, request, shard_selection, res),
    {
        match self.get_collection(collection_name) {
            Ok(collection) => Ok(ReadCall { collection, method, request, shard_selection }),
            Err(e) => Err(e),
        }
    }

    /// Recommend points using positive and negative example from the request.
    pub fn recommend<R>(
        &self,
        collection_name: &str,
        request: R,
        shard_selection: Option<ShardId>,
    ) -> (res: Result<ReadCall<'_, C, R>, StorageError>)
        ensures
            routed(
                self@,
                collection_name@,
                ReadMethod::RecommendBy,
                request,
                shard_selection,
                res,
            ),
    {
        self.read(collection_name, ReadMethod::RecommendBy, request, shard_selection)
    }

    /// Search for the closest points using vector similarity with given restrictions defined
    /// in the request.
    pub fn search<R>(
        &self,
        collection_name: &str,
        request: R,
        shard_selection: Option<ShardId>,
    ) -> (res: Result<ReadCall<'_, C, R>, StorageError>)
        ensures
            routed(self@, collection_name@, ReadMethod::Search, request, shard_selection, res),
    {
        self.read(collection_name, ReadMethod::Search, request, shard_selection)
    }

    /// Make several searches at once.
    pub fn search_batch<R>(
        &self,
        collection_name: &str,
        request: R,
        shard_selection: Option<ShardId>,
    ) -> (res: Result<ReadCall<'_, C, R>, StorageError>)
        ensures
            routed(
                self@,
                collection_name@,
                ReadMethod::BatchSearch,
                request,
                shard_selection,
                res,
            ),
    {
        self.read(collection_name, ReadMethod::BatchSearch, request, shard_selection)
    }

    /// Return specific points by IDs.
    pub fn retrieve<R>(
        &self,
        collection_name: &str,
        request: R,
        shard_selection: Option<ShardId>,
    ) -> (res: Result<ReadCall<'_, C, R>, StorageError>)
        ensures
            routed(self@, collection_name@, ReadMethod::Retrieve, request, shard_selection, res),
    {
        self.read(collection_name, ReadMethod::Retrieve, request, shard_selection)
    }

    /// Paginate over all stored points with given filtering conditions.
    pub fn scroll<R>(
        &self,
        collection_name: &str,
        request: R,
        shard_selection: Option<ShardId>,
    ) -> (res: Result<ReadCall<'_, C, R>, StorageError>)
        ensures
            routed(self@, collection_name@, ReadMethod::ScrollBy, request, shard_selection, res),
    {
        self.read(collection_name, ReadMethod::ScrollBy, request, shard_selection)
    }

    /// Change the points of a collection. With a shard selected the change comes from another
    /// peer, else from a client.
    pub fn update<O>(
        &self,
        collection_name: &str,
        operation: O,
        shard_selection: Option<ShardId>,
        wait: bool,
    ) -> (res: Result<UpdateCall<'_, C, O>, StorageError>)
        ensures
            match self@.resolve(collection_name@) {
                Some(name) => match shard_selection {
                    Some(shard) => res matches Ok(
                        UpdateCall::FromPeer {
                            collection,
                            operation: op,
                            shard_selection: s,
                            wait: w,
                        },
                    ) && *collection == self@.collections[name] && op == operation && s == shard
                        && w == wait,
                    None => res matches Ok(
                        UpdateCall::FromClient { collection, operation: op, wait: w },
                    ) && *collection == self@.collections[name] && op == operation && w == wait,
                },
                None => res matches Err(e) && e@ == collection_missing_error(
                    self@.target(collection_name@),
                ),
            },
    {
        match self.get_collection(collection_name) {
            Ok(collection) => match shard_selection {
                Some(shard_selection) => Ok(
                    UpdateCall::FromPeer { collection, operation, shard_selection, wait },
                ),
                None => Ok(UpdateCall::FromClient { collection, operation, wait }),
            },
            Err(e) => Err(e),
        }
    }

    /// List of all collections.
    pub fn all_collections(&self) -> (res: Vec<String>)
        ensures
            lists_once(res@, self@.collections.dom()),
            res@.len() == self@.collections.dom().len(),
            res@.len() == self.order().len(),
            forall|i: int| 0 <= i < res@.len() ==> (#[trigger] res@[i])@ == self.order()[i],
    {
        self.collections.keys()
    }

    /// List of all aliases for a given collection.
    pub fn collection_aliases(&self, collection_name: &str) -> (res: Result<
        Vec<String>,
        StorageError,
    >)
        ensures
            res matches Ok(aliases) && lists_once(
                aliases@,
                aliases_of(self@.aliases, collection_name@),
            ),
    {
        Ok(self.alias_persistence.collection_aliases(collection_name))
    }

    /// The addresses of the peers. They are kept with the connections, so the caller hands in
    /// what they are now.
    pub fn peer_address_by_id(&self, id_to_address: &PeerAddressById) -> (res: PeerAddressById)
        ensures
            res@ == id_to_address@,
    {
        id_to_address.clone()
    }

    /// The collections, with the states that they were found in, and the aliases. `states`
    /// has the state of each collection, in the order of `all_collections`.
    pub fn collections_snapshot(&self, states: Vec<CollectionState>) -> (res: CollectionsSnapshot)
        requires
            states@.len() == self.order().len(),
        ensures
            res.collections@.dom() == self@.collections.dom(),
            forall|i: int|
                0 <= i < states@.len() ==> res.collections@[#[trigger] self.order()[i]]
                    == states@[i],
            res.aliases@ == self@.aliases,
    {
        let names = self.all_collections();
        let ghost all = states@;
        let mut rest = states;
        let mut collections: AssocMap<String, CollectionState> = AssocMap::new();
        while rest.len() > 0
            invariant
                rest@.len() <= all.len(),
                rest@ =~= all.take(rest@.len() as int),
                all.len() == names@.len(),
                names@.len() == self.order().len(),
                lists_once(names@, self@.collections.dom()),
                forall|i: int|
                    0 <= i < names@.len() ==> (#[trigger] names@[i])@ == self.order()[i],
                forall|name: Seq<char>| #[trigger]
                    collections@.contains_key(name) <==> exists|j: int|
                        rest@.len() <= j < names@.len() && (#[trigger] names@[j])@ == name,
                forall|j: int|
                    rest@.len() <= j < names@.len() ==> collections@[(#[trigger] names@[j])@]
                        == all[j],
            decreases rest@.len(),
        {
            if let Some(state) = rest.pop() {
                let i = rest.len();
                collections.insert(names[i].clone(), state);
            }
        }
        assert(collections@.dom() =~= self@.collections.dom());
        assert forall|i: int| 0 <= i < all.len() implies collections@[#[trigger] self.order()[i]]
            == all[i] by {
            assert(names@[i]@ == self.order()[i]);
        }
        CollectionsSnapshot { collections, aliases: self.alias_persistence.state() }
    }

    /// What is to be known to propose on which peers the shards of a new collection shall be:
    /// how many they are (one if the operation does not say), the peers, and the shards that
    /// the collections have already. `shards` has the shards of each collection, in the order of
    /// `all_collections`.
    pub fn suggest_shard_distribution<S>(
        &self,
        op: &CreateCollectionOperation,
        id_to_address: &PeerAddressById,
        shards: Vec<Vec<S>>,
    ) -> (res: ShardDistributionRequest<S>)
        requires
            shards@.len() == self.order().len(),
        ensures
            distribution_requested(
                self@,
                *op,
                id_to_address.keys().remaining().unref(),
                contents(shards@),
                res,
            ),
            res.known_peers@.no_duplicates(),
            res.known_peers@.to_set() == id_to_address@.dom(),
    {
        let shard_number: u32 = match op.create_collection.shard_number {
            Some(n) => n,
            None => 1,
        };
        let known_peers = peers_of(id_to_address);
        let known_shards = flatten(shards);
        ShardDistributionRequest {
            shard_number,
            this_peer_id: self.this_peer_id(),
            known_peers,
            known_shards,
        }
    }

    /// Empties the table, and hands out the collections, each with its name.
    pub fn drain(&mut self) -> (res: Vec<(String, C)>)
        ensures
            final(self)@ == (TocView {
                collections: Map::<Seq<char>, C>::empty(),
                ..old(self)@
            }),
            distinct_keys(res@),
            entries_map(res@) == old(self)@.collections,
    {
        self.collections.drain()
    }

    /// Adds a collection.
    pub(crate) fn put_collection(&mut self, name: String, collection: C)
        ensures
            final(self)@ == old(self)@.with_collection(name@, collection),
    {
        self.collections.insert(name, collection);
    }

    /// Takes a collection out.
    pub(crate) fn take_collection(&mut self, name: &str) -> (res: Option<C>)
        ensures
            final(self)@ == old(self)@.without_collection(name@),
            match res {
                Some(collection) => old(self)@.has(name@) && collection
                    == old(self)@.collections[name@],
                None => !old(self)@.has(name@),
            },
    {
        self.collections.remove(&name.to_owned())
    }

    /// The aliases.
    pub(crate) fn aliases_mut(&mut self) -> (res: &mut AliasMapping)
        ensures
            res@ == old(self)@.aliases,
            final(self)@ == old(self)@.with_aliases(final(res)@),
    {
        &mut self.alias_persistence
    }

    /// The aliases as they are to be kept.
    pub fn alias_mapping(&self) -> (res: &AliasMapping)
        ensures
            res@ == self@.aliases,
    {
        &self.alias_persistence
    }
}

/// The peers whose addresses are known, each once, in the order in which the map lists them.
fn peers_of(id_to_address: &PeerAddressById) -> (res: Vec<PeerId>)
    ensures
        res@ == id_to_address.keys().remaining().unref(),
        res@.no_duplicates(),
        res@.to_set() == id_to_address@.dom(),
{
    let mut res: Vec<PeerId> = Vec::new();
    for peer in peers: id_to_address.keys()
        invariant
            peers.seq() == id_to_address.keys().remaining(),
            res@ == peers.seq().unref().take(peers.index()),
    {
        res.push(*peer);
    }
    res
}

/// All elements of all lists, in order.
fn flatten<S>(lists: Vec<Vec<S>>) -> (res: Vec<S>)
    ensures
        res@ == contents(lists@).flatten(),
{
    let ghost all = lists@;
    let mut rest = lists;
    let mut reversed: Vec<Vec<S>> = Vec::new();
    while rest.len() > 0
        invariant
            rest@.len() <= all.len(),
            rest@ =~= all.take(rest@.len() as int),
            reversed@.len() == all.len() - rest@.len(),
            forall|i: int|
                0 <= i < reversed@.len() ==> #[trigger] reversed@[i] == all[all.len() - 1 - i],
        decreases rest@.len(),
    {
        if let Some(list) = rest.pop() {
            reversed.push(list);
        }
    }
    let mut res: Vec<S> = Vec::new();
    assert(contents(all.take(0)).flatten() =~= Seq::<S>::empty());
    while reversed.len() > 0
        invariant
            reversed@.len() <= all.len(),
            forall|i: int|
                0 <= i < reversed@.len() ==> #[trigger] reversed@[i] == all[all.len() - 1 - i],
            res@ == contents(all.take(all.len() - reversed@.len())).flatten(),
        decreases reversed@.len(),
    {
        let ghost n = all.len() - reversed@.len();
        if let Some(list) = reversed.pop() {
            let mut list = list;
            proof {
                let s = contents(all.take(n + 1));
                assert(s.drop_last() =~= contents(all.take(n)));
                assert(s.last() == list@);
                s.lemma_flatten_and_flatten_alt_are_equivalent();
                s.drop_last().lemma_flatten_and_flatten_alt_are_equivalent();
            }
            res.append(&mut list);
        }
    }
    assert(all.take(all.len() as int) =~= all);
    res
}

} // verus!
