//! Bringing the table of contents to the state of a snapshot.
//!
//! The caller keeps everyone else from the table from `apply_collections_snapshot` on until the
//! run is over. Each function takes up a run where a step left it, with what came of that step.

use crate::assoc_map::AssocMap;
use crate::config::StoragePath;
use crate::consensus_state::{CollectionState, CollectionStateView, CollectionsSnapshot};
use crate::creation::{create_collection_path, BuildRequest};
use crate::errors::{
    collection_exists_error, create_directory_error, remove_directory_error, ErrorView, StorageError,
};
use crate::meta_ops::{directory_removed, DeletionStep};
use crate::model::TocView;
use crate::shard_distribution::{splits, CollectionShardDistribution};
use crate::toc::TableOfContent;
use vstd::prelude::*;

verus! {

/// A snapshot that is being applied, and how many of its collections are done with.
pub struct SnapshotRun {
    data: CollectionsSnapshot,
    index: usize,
}

/// A run that has reached one of the collections of its snapshot.
pub struct SnapshotEntry {
    run: SnapshotRun,
}

/// What a run says: the names of the collections in the snapshot, in the order in which they are
/// gone through, their states, the aliases, and how many of the names are done with.
pub struct RunView {
    pub ids: Seq<Seq<char>>,
    pub states: Map<Seq<char>, CollectionState>,
    pub aliases: Map<Seq<char>, Seq<char>>,
    pub index: int,
}

impl View for SnapshotRun {
    type V = RunView;

    closed spec fn view(&self) -> RunView {
        RunView {
            ids: self.data.collections.order(),
            states: self.data.collections@,
            aliases: self.data.aliases@,
            index: self.index as int,
        }
    }
}

impl View for SnapshotEntry {
    type V = RunView;

    closed spec fn view(&self) -> RunView {
        self.run@
    }
}

impl RunView {
    /// The names are those of the snapshot, each once.
    pub open spec fn wf(self) -> bool {
        &&& self.ids.no_duplicates()
        &&& self.ids.to_set() == self.states.dom()
        &&& 0 <= self.index <= self.ids.len()
    }

    /// The run has a collection at hand.
    pub open spec fn at_entry(self) -> bool {
        self.wf() && self.index < self.ids.len()
    }

    /// The collection at hand.
    pub open spec fn id(self) -> Seq<char> {
        self.ids[self.index]
    }

    /// The state that the snapshot has for the collection at hand.
    pub open spec fn state(self) -> CollectionState {
        self.states[self.id()]
    }

    /// The run when it is done with the collection at hand.
    pub open spec fn advanced(self) -> RunView {
        RunView { index: self.index + 1, ..self }
    }
}

/// The beginning of a run.
pub open spec fn begun(data: CollectionsSnapshot) -> RunView {
    RunView {
        ids: data.collections.order(),
        states: data.collections@,
        aliases: data.aliases@,
        index: 0,
    }
}

/// The next thing that is to be done for a snapshot.
pub enum SnapshotStep<C> {
    /// Read the state of the collection that is here, then go on with `state_read`.
    ReadState { entry: SnapshotEntry },
    /// Give the collection that is here another state, then go on with `state_applied`.
    ApplyState { entry: SnapshotEntry, state: CollectionState, path: StoragePath },
    /// Make the directory of a collection that is not here, then go on with
    /// `snapshot_directory_created`.
    CreateDirectory { entry: SnapshotEntry, path: StoragePath },
    /// Make a collection that is not here, then go on with `snapshot_collection_built`.
    Build { entry: SnapshotEntry, request: BuildRequest },
    /// Let a collection that is not in the snapshot end its work and remove its directory, then
    /// go on with `snapshot_directory_removed`.
    RemoveDirectory {
        run: SnapshotRun,
        collection: C,
        collection_name: String,
        path: StoragePath,
    },
    /// Save the aliases, then go on with `snapshot_aliases_saved`.
    SaveAliases,
    /// The run is over.
    Finished { result: Result<(), StorageError> },
}

/// `step` is what follows when a run is taken up, and `post` is the table then.
///
/// As long as the snapshot has collections that are not done with, the next one is read if it is
/// here, and is made if not. Then collections that are not in the snapshot are taken out, one at
/// a time. At last the aliases become those of the snapshot.
pub open spec fn snapshot_next<C>(
    pre: TocView<C>,
    run: RunView,
    post: TocView<C>,
    step: SnapshotStep<C>,
) -> bool {
    if run.index < run.ids.len() {
        &&& post == pre
        &&& if pre.has(run.id()) {
            step matches SnapshotStep::ReadState { entry } && entry@ == run
        } else {
            step matches SnapshotStep::CreateDirectory { entry, path } && entry@ == run && path@
                == pre.path(run.id())
        }
    } else if pre.collections.dom().subset_of(run.states.dom()) {
        &&& post == pre.with_aliases(run.aliases)
        &&& step is SaveAliases
    } else {
        step matches SnapshotStep::RemoveDirectory {
            run: next,
            collection,
            collection_name,
            path,
        } && {
            &&& next@ == run
            &&& pre.has(collection_name@)
            &&& !run.states.contains_key(collection_name@)
            &&& collection == pre.collections[collection_name@]
            &&& path@ == pre.path(collection_name@)
            &&& post == pre.without_collection(collection_name@)
        }
    }
}

/// The run is over with an error, and the table stays as it is.
pub open spec fn fails_with<C>(
    pre: TocView<C>,
    error: ErrorView,
    post: TocView<C>,
    step: SnapshotStep<C>,
) -> bool {
    &&& post == pre
    &&& step matches SnapshotStep::Finished { result: Err(e) } && e@ == error
}

/// What follows on the state in which the collection at hand was found. If it is not that of the
/// snapshot, the collection is to get that of the snapshot.
pub open spec fn after_state_read<C>(
    pre: TocView<C>,
    run: RunView,
    current: CollectionStateView,
    post: TocView<C>,
    step: SnapshotStep<C>,
) -> bool {
    if current == run.state()@ {
        snapshot_next(pre, run.advanced(), post, step)
    } else {
        &&& post == pre
        &&& step matches SnapshotStep::ApplyState { entry, state, path }
        &&& entry@ == run
        &&& state@ == run.state()@
        &&& path@ == pre.path(run.id())
    }
}

/// What follows once the collection at hand was to get its state.
pub open spec fn after_state_applied<C>(
    pre: TocView<C>,
    run: RunView,
    outcome: Result<(), StorageError>,
    post: TocView<C>,
    step: SnapshotStep<C>,
) -> bool {
    match outcome {
        Ok(_) => snapshot_next(pre, run.advanced(), post, step),
        Err(e) => fails_with(pre, e@, post, step),
    }
}

/// What follows once it was tried to make the directory of the collection at hand: it is to be
/// made there, as the snapshot has it, with the shards that the snapshot puts on this peer.
pub open spec fn after_directory_created<C>(
    pre: TocView<C>,
    run: RunView,
    outcome: Result<(), String>,
    post: TocView<C>,
    step: SnapshotStep<C>,
) -> bool {
    match outcome {
        Ok(_) => {
            &&& post == pre
            &&& step matches SnapshotStep::Build { entry, request }
            &&& entry@ == run
            &&& request.collection_name@ == run.id()
            &&& request.path@ == pre.path(run.id())
            &&& request.config == run.state().config
            &&& request.distribution matches CollectionShardDistribution::Distribution {
                local,
                remote,
            }
            &&& splits(run.state().shard_to_peer@, pre.this_peer_id, local@, remote@)
        },
        Err(cause) => fails_with(pre, create_directory_error(run.id(), cause@), post, step),
    }
}

/// What follows once the collection at hand was to be made.
pub open spec fn after_built<C>(
    pre: TocView<C>,
    run: RunView,
    outcome: Result<C, StorageError>,
    post: TocView<C>,
    step: SnapshotStep<C>,
) -> bool {
    match outcome {
        Ok(collection) => if pre.has(run.id()) {
            fails_with(pre, collection_exists_error(run.id()), post, step)
        } else {
            snapshot_next(pre.with_collection(run.id(), collection), run.advanced(), post, step)
        },
        Err(e) => fails_with(pre, e@, post, step),
    }
}

/// What follows once it was tried to remove the directory of a collection that is not in the
/// snapshot.
pub open spec fn after_directory_removed<C>(
    pre: TocView<C>,
    run: RunView,
    name: Seq<char>,
    outcome: Result<(), String>,
    post: TocView<C>,
    step: SnapshotStep<C>,
) -> bool {
    match outcome {
        Ok(_) => snapshot_next(pre, run, post, step),
        Err(cause) => fails_with(pre, remove_directory_error(name, cause@), post, step),
    }
}

impl SnapshotRun {
    #[verifier::type_invariant]
    closed spec fn inv(self) -> bool {
        self@.wf()
    }
}

impl SnapshotEntry {
    #[verifier::type_invariant]
    closed spec fn inv(self) -> bool {
        self@.at_entry()
    }

    /// The name of the collection at hand.
    pub fn collection_name(&self) -> (res: &String)
        ensures
            self@.at_entry(),
            res@ == self@.id(),
    {
        proof {
            use_type_invariant(self);
        }
        self.run.data.collections.key_at(self.run.index)
    }

    /// The state that the snapshot has for the collection at hand.
    pub fn state(&self) -> (res: &CollectionState)
        ensures
            self@.at_entry(),
            *res == self@.state(),
    {
        proof {
            use_type_invariant(self);
        }
        self.run.data.collections.value_at(self.run.index)
    }

    fn advance(self) -> (res: SnapshotRun)
        ensures
            self@.at_entry(),
            res@ == self@.advanced(),
    {
        proof {
            use_type_invariant(&self);
        }
        let _ = self.run.data.collections.len();
        SnapshotRun { index: self.run.index + 1, data: self.run.data }
    }
}

impl<C> TableOfContent<C> {
    /// A collection that the map does not have.
    fn find_surplus(&self, states: &AssocMap<String, CollectionState>) -> (res: Option<String>)
        ensures
            match res {
                Some(name) => self@.has(name@) && !states@.contains_key(name@),
                None => self@.collections.dom().subset_of(states@.dom()),
            },
    {
        let names = self.all_collections();
        for i in 0..names.len()
            invariant
                crate::assoc_map::lists_once(names@, self@.collections.dom()),
                forall|j: int| 0 <= j < i ==> states@.contains_key((#[trigger] names@[j])@),
        {
            assert(self@.collections.dom().contains(names@[i as int]@));
            if !states.contains_key(&names[i]) {
                return Some(names[i].clone());
            }
        }
        assert forall|name: Seq<char>| self@.collections.dom().contains(
            name,
        ) implies #[trigger] states@.dom().contains(name) by {
            let j = choose|j: int| #![trigger names@[j]] 0 <= j < names@.len() && names@[j]@ == name;
            assert(states@.contains_key(names@[j]@));
        }
        None
    }

    /// Takes up a run.
    fn next_snapshot_step(&mut self, run: SnapshotRun) -> (res: SnapshotStep<C>)
        ensures
            snapshot_next(old(self)@, run@, final(self)@, res),
    {
        proof {
            use_type_invariant(&run);
        }
        if run.index < run.data.collections.len() {
            let entry = SnapshotEntry { run };
            let known = self.collection(entry.collection_name().as_str()).is_some();
            if known {
                SnapshotStep::ReadState { entry }
            } else {
                let path = self.get_collection_path(entry.collection_name().as_str());
                SnapshotStep::CreateDirectory { entry, path }
            }
        } else {
            match self.find_surplus(&run.data.collections) {
                Some(name) => match self.delete_collection(name.as_str()) {
                    DeletionStep::RemoveDirectory { collection, collection_name, path } => {
                        SnapshotStep::RemoveDirectory { run, collection, collection_name, path }
                    },
                    // The name is in the table, so this does not happen.
                    DeletionStep::Finished(_) => SnapshotStep::Finished { result: Ok(()) },
                },
                None => {
                    self.aliases_mut().apply_state(run.data.aliases);
                    SnapshotStep::SaveAliases
                },
            }
        }
    }

    /// Starts to apply a snapshot.
    pub fn apply_collections_snapshot(&mut self, data: CollectionsSnapshot) -> (res: SnapshotStep<C>)
        ensures
            begun(data).wf(),
            snapshot_next(old(self)@, begun(data), final(self)@, res),
    {
        let _ = data.collections.len();
        self.next_snapshot_step(SnapshotRun { data, index: 0 })
    }

    /// Goes on with the state in which the collection was found.
    pub fn state_read(&mut self, entry: SnapshotEntry, current: CollectionState) -> (res:
        SnapshotStep<C>)
        ensures
            entry@.at_entry(),
            after_state_read(old(self)@, entry@, current@, final(self)@, res),
    {
        if current.same(entry.state()) {
            self.next_snapshot_step(entry.advance())
        } else {
            let state = entry.state().duplicate();
            let path = self.get_collection_path(entry.collection_name().as_str());
            SnapshotStep::ApplyState { entry, state, path }
        }
    }

    /// Goes on once the collection was to get its state.
    pub fn state_applied(
        &mut self,
        entry: SnapshotEntry,
        outcome: Result<(), StorageError>,
    ) -> (res: SnapshotStep<C>)
        ensures
            entry@.at_entry(),
            after_state_applied(old(self)@, entry@, outcome, final(self)@, res),
    {
        let next = entry.advance();
        match outcome {
            Ok(_) => self.next_snapshot_step(next),
            Err(e) => SnapshotStep::Finished { result: Err(e) },
        }
    }

    /// Goes on once it was tried to make the directory. `outcome` has the text of the error if
    /// that failed.
    pub fn snapshot_directory_created(
        &mut self,
        entry: SnapshotEntry,
        outcome: Result<(), String>,
    ) -> (res: SnapshotStep<C>)
        ensures
            entry@.at_entry(),
            after_directory_created(old(self)@, entry@, outcome, final(self)@, res),
    {
        match create_collection_path(entry.collection_name().as_str(), outcome) {
            Ok(_) => {
                let distribution = CollectionShardDistribution::from_shard_to_peer(
                    self.this_peer_id(),
                    &entry.state().shard_to_peer,
                );
                let request = BuildRequest {
                    collection_name: entry.collection_name().clone(),
                    path: self.get_collection_path(entry.collection_name().as_str()),
                    config: entry.state().config.clone(),
                    distribution,
                };
                SnapshotStep::Build { entry, request }
            },
            Err(e) => SnapshotStep::Finished { result: Err(e) },
        }
    }

    /// Goes on once the collection was to be made.
    pub fn snapshot_collection_built(
        &mut self,
        entry: SnapshotEntry,
        outcome: Result<C, StorageError>,
    ) -> (res: SnapshotStep<C>)
        ensures
            entry@.at_entry(),
            after_built(old(self)@, entry@, outcome, final(self)@, res),
    {
        let name = entry.collection_name().clone();
        match self.collection_built(name, outcome) {
            Ok(_) => self.next_snapshot_step(entry.advance()),
            Err(e) => SnapshotStep::Finished { result: Err(e) },
        }
    }

    /// Goes on once it was tried to remove the directory of a collection that is not in the
    /// snapshot. `outcome` has the text of the error if that failed.
    pub fn snapshot_directory_removed(
        &mut self,
        run: SnapshotRun,
        collection_name: &str,
        outcome: Result<(), String>,
    ) -> (res: SnapshotStep<C>)
        ensures
            after_directory_removed(
                old(self)@,
                run@,
                collection_name@,
                outcome,
                final(self)@,
                res,
            ),
    {
        match directory_removed(collection_name, outcome) {
            Ok(_) => self.next_snapshot_step(run),
            Err(e) => SnapshotStep::Finished { result: Err(e) },
        }
    }

    /// Ends a run once the aliases were to be saved.
    pub fn snapshot_aliases_saved(&self, outcome: Result<(), StorageError>) -> (res: SnapshotStep<C>)
        ensures
            res == (SnapshotStep::<C>::Finished { result: outcome }),
    {
        SnapshotStep::Finished { result: outcome }
    }
}

} // verus!
