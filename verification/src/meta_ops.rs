//! Operations on collections: which of them does what, and how they begin and end.

use crate::config::{OptimizersConfigDiff, StoragePath};
use crate::creation::{creation_requested, DirectoryRequest};
use crate::errors::{collection_missing_error, remove_directory_error, StorageError};
use crate::model::TocView;
use crate::operations::{
    ChangeAliasesOperation, CollectionMetaOperations, CreateCollectionOperation, UpdateCollection,
};
use crate::shard_distribution::{
    placements_off, shards_on, CollectionShardDistribution, PeerId, ShardId,
};
use crate::toc::TableOfContent;
use vstd::prelude::*;

verus! {

/// The next thing that is to be done for an operation.
pub enum MetaOpStep<'a, C> {
    /// Make the directory of a new collection, then go on with `directory_created`.
    CreateDirectory(DirectoryRequest),
    /// Change the optimizers of a collection, then go on with `optimizer_params_updated`.
    UpdateOptimizers { collection: &'a C, diff: OptimizersConfigDiff },
    /// Go on with `delete_collection`.
    DeleteCollection { collection_name: String },
    /// Go on with `update_aliases`.
    ChangeAliases(ChangeAliasesOperation),
    /// The operation is over.
    Finished(Result<bool, StorageError>),
}

/// What is left to do for a collection that is no longer in the table.
pub enum DeletionStep<C> {
    /// Let the collection end its work, remove its directory, then go on with
    /// `directory_removed`.
    RemoveDirectory { collection: C, collection_name: String, path: StoragePath },
    /// The operation is over.
    Finished(Result<bool, StorageError>),
}

/// `step` begins to make a collection, or refuses it.
pub open spec fn creation_begins<C>(
    toc: TocView<C>,
    op: CreateCollectionOperation,
    distribution: CollectionShardDistribution,
    step: MetaOpStep<'_, C>,
) -> bool {
    match step {
        MetaOpStep::CreateDirectory(request) => creation_requested(
            toc,
            op.collection_name@,
            op.create_collection,
            distribution,
            Ok(request),
        ),
        MetaOpStep::Finished(Err(e)) => creation_requested(
            toc,
            op.collection_name@,
            op.create_collection,
            distribution,
            Err(e),
        ),
        _ => false,
    }
}

/// `step` begins to change the settings of a collection, or refuses that, or has nothing to
/// change: that is no error, whether there is such a collection or not.
pub open spec fn collection_update_begins<C>(
    toc: TocView<C>,
    name: Seq<char>,
    operation: UpdateCollection,
    step: MetaOpStep<'_, C>,
) -> bool {
    match operation.optimizers_config {
        None => step matches MetaOpStep::Finished(Ok(done)) && done,
        Some(new_config) => match toc.resolve(name) {
            Some(real_name) => step matches MetaOpStep::UpdateOptimizers { collection, diff }
                && *collection == toc.collections[real_name] && diff == new_config,
            None => step matches MetaOpStep::Finished(Err(e)) && e@ == collection_missing_error(
                toc.target(name),
            ),
        },
    }
}

/// The collection of that very name is out of the table, and `step` is to remove its directory.
/// If there is none, the operation is over, and the answer is `false`.
pub open spec fn deletion_begins<C>(
    pre: TocView<C>,
    name: Seq<char>,
    post: TocView<C>,
    step: DeletionStep<C>,
) -> bool {
    if pre.has(name) {
        &&& post == pre.without_collection(name)
        &&& step matches DeletionStep::RemoveDirectory { collection, collection_name, path }
        &&& collection == pre.collections[name]
        &&& collection_name@ == name
        &&& path@ == pre.path(name)
    } else {
        &&& post == pre
        &&& step == DeletionStep::<C>::Finished(Ok(false))
    }
}

/// The answer once it was tried to remove the directory.
pub open spec fn deletion_ends(
    name: Seq<char>,
    outcome: Result<(), String>,
    res: Result<bool, StorageError>,
) -> bool {
    match outcome {
        Ok(_) => res == Ok::<bool, StorageError>(true),
        Err(cause) => res matches Err(e) && e@ == remove_directory_error(name, cause@),
    }
}

/// `step` begins an operation. A distributed collection gets the shards that its proposal puts on
/// this peer, and knows where the others are; any other new collection has all shards here.
pub open spec fn operation_begins<C>(
    toc: TocView<C>,
    operation: CollectionMetaOperations,
    step: MetaOpStep<'_, C>,
) -> bool {
    match operation {
        CollectionMetaOperations::CreateCollectionDistributed(op, proposal) => exists|
            local: Vec<ShardId>,
            remote: Vec<(ShardId, PeerId)>,
        |
            {
                &&& local@ == shards_on(proposal.distribution@, toc.this_peer_id)
                &&& remote@ == placements_off(proposal.distribution@, toc.this_peer_id)
                &&& #[trigger] creation_begins(
                    toc,
                    op,
                    CollectionShardDistribution::Distribution { local, remote },
                    step,
                )
            },
        CollectionMetaOperations::CreateCollection(op) => creation_begins(
            toc,
            op,
            CollectionShardDistribution::AllLocal,
            step,
        ),
        CollectionMetaOperations::UpdateCollection(op) => collection_update_begins(
            toc,
            op.collection_name@,
            op.update_collection,
            step,
        ),
        CollectionMetaOperations::DeleteCollection(
            op,
        ) => step matches MetaOpStep::DeleteCollection { collection_name }
            && collection_name == op.0,
        CollectionMetaOperations::ChangeAliases(
            op,
        ) => step matches MetaOpStep::ChangeAliases(change) && change == op,
    }
}

impl<C> TableOfContent<C> {
    /// Begins an operation.
    pub fn perform_collection_meta_op(&self, operation: CollectionMetaOperations) -> (res:
        MetaOpStep<'_, C>)
        ensures
            operation_begins(self@, operation, res),
    {
        match operation {
            CollectionMetaOperations::CreateCollectionDistributed(operation, distribution) => {
                let local = distribution.local_shards_for(self.this_peer_id());
                let remote = distribution.remote_shards_for(self.this_peer_id());
                self.begin_creation(
                    operation,
                    CollectionShardDistribution::Distribution { local, remote },
                )
            },
            CollectionMetaOperations::CreateCollection(operation) => {
                self.begin_creation(operation, CollectionShardDistribution::AllLocal)
            },
            CollectionMetaOperations::UpdateCollection(operation) => {
                self.update_collection(
                    operation.collection_name.as_str(),
                    operation.update_collection,
                )
            },
            CollectionMetaOperations::DeleteCollection(operation) => {
                MetaOpStep::DeleteCollection { collection_name: operation.0 }
            },
            CollectionMetaOperations::ChangeAliases(operation) => {
                MetaOpStep::ChangeAliases(operation)
            },
        }
    }

    fn begin_creation(
        &self,
        operation: CreateCollectionOperation,
        distribution: CollectionShardDistribution,
    ) -> (res: MetaOpStep<'_, C>)
        ensures
            creation_begins(self@, operation, distribution, res),
    {
        match self.create_collection(
            operation.collection_name.as_str(),
            operation.create_collection,
            distribution,
        ) {
            Ok(request) => MetaOpStep::CreateDirectory(request),
            Err(e) => MetaOpStep::Finished(Err(e)),
        }
    }

    /// Begins to change the settings of a collection, which may be named by an alias.
    pub fn update_collection(&self, collection_name: &str, operation: UpdateCollection) -> (res:
        MetaOpStep<'_, C>)
        ensures
            collection_update_begins(self@, collection_name@, operation, res),
    {
        match operation.optimizers_config {
            None => MetaOpStep::Finished(Ok(true)),
            Some(new_optimizers_config) => match self.get_collection(collection_name) {
                Ok(collection) => MetaOpStep::UpdateOptimizers {
                    collection,
                    diff: new_optimizers_config,
                },
                Err(e) => MetaOpStep::Finished(Err(e)),
            },
        }
    }

    /// Takes a collection out of the table. The name must be its own: an alias does not do.
    /// Aliases that stand for it stay.
    pub fn delete_collection(&mut self, collection_name: &str) -> (res: DeletionStep<C>)
        ensures
            deletion_begins(old(self)@, collection_name@, final(self)@, res),
    {
        let ghost before = self@;
        match self.take_collection(collection_name) {
            Some(removed) => DeletionStep::RemoveDirectory {
                collection: removed,
                collection_name: collection_name.to_owned(),
                path: self.get_collection_path(collection_name),
            },
            None => {
                assert(before.without_collection(collection_name@) =~= before);
                DeletionStep::Finished(Ok(false))
            },
        }
    }
}

/// Ends a change of settings. The error is that of the collection.
pub fn optimizer_params_updated(outcome: Result<(), StorageError>) -> (res: Result<
    bool,
    StorageError,
>)
    ensures
        match outcome {
            Ok(_) => res == Ok::<bool, StorageError>(true),
            Err(e) => res == Err::<bool, StorageError>(e),
        },
{
    match outcome {
        Ok(_) => Ok(true),
        Err(e) => Err(e),
    }
}

/// Ends the removal of a collection. `outcome` has the text of the error if its directory
/// could not be removed.
pub fn directory_removed(collection_name: &str, outcome: Result<(), String>) -> (res: Result<
    bool,
    StorageError,
>)
    ensures
        deletion_ends(collection_name@, outcome, res),
{
    match outcome {
        Ok(_) => Ok(true),
        Err(cause) => Err(StorageError::remove_directory(collection_name, cause.as_str())),
    }
}

} // verus!
