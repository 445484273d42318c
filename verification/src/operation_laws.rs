//! What the calls that make, change and delete collections ask for and answer, told by what is
//! handed to them and by what the table holds.

use crate::config::{lemma_shard_count, HnswConfig, OptimizersConfig, WalConfig};
use crate::creation::{
    create_collection_path, ConfigStep, DirectoryRequest, HnswUpdate, OptimizersUpdate, WalUpdate,
};
use crate::errors::StorageError;
use crate::laws::law_proposal_is_split;
use crate::lookup_laws::lemma_parts;
use crate::meta_ops::{directory_removed, optimizer_params_updated, DeletionStep, MetaOpStep};
use crate::operations::{
    ChangeAliasesOperation, CollectionMetaOperations, CreateCollection, CreateCollectionOperation,
    DeleteCollectionOperation, UpdateCollection, UpdateCollectionOperation,
};
use crate::shard_distribution::{
    CollectionShardDistribution, PeerId, ShardDistributionProposal, ShardId,
};
use crate::toc::TableOfContent;
use vstd::prelude::*;

verus! {

/// A collection can be made exactly when there is none of that name. What is asked for is the
/// directory of that name in the directory of collections, and the operation and the shards are
/// taken along as they are.
pub proof fn law_create_collection<C>(
    toc: &TableOfContent<C>,
    name: &str,
    operation: CreateCollection,
    distribution: CollectionShardDistribution,
    res: Result<DirectoryRequest, StorageError>,
)
    requires
        call_ensures(
            TableOfContent::<C>::create_collection,
            (toc, name, operation, distribution),
            res,
        ),
    ensures
        toc@.collections.contains_key(name@) ==> (res matches Err(
            StorageError::BadInput { description },
        ) && description@ == "Collection `"@ + name@ + "` already exists!"@),
        !toc@.collections.contains_key(name@) ==> (res matches Ok(request) && {
            &&& request.collection_name@ == name@
            &&& request.operation == operation
            &&& request.distribution == distribution
            &&& request.path.parts@.len() == 3
            &&& request.path.parts@[0]@ == toc@.storage_config.storage_path@
            &&& request.path.parts@[1]@ == "collections"@
            &&& request.path.parts@[2]@ == name@
        }),
{
    if let Ok(request) = res {
        lemma_parts(request.path, toc@.storage_config, name@);
    }
}

/// Once the directory was to be made, a collection goes on exactly when the directory is there and
/// it is to have shards. If not, the error says which of the two is amiss; the directory comes
/// first.
pub proof fn law_directory_created<C>(
    toc: &TableOfContent<C>,
    request: DirectoryRequest,
    made: Result<(), String>,
    res: Result<ConfigStep, StorageError>,
)
    requires
        call_ensures(TableOfContent::<C>::directory_created, (toc, request, made), res),
    ensures
        res is Ok <==> made is Ok && request.operation.shard_number != Some(0u32),
        made matches Err(cause) ==> (res matches Err(StorageError::ServiceError { description })
            && description@ == "Can't create directory for collection "@
            + request.collection_name@ + ". Error: "@ + cause@),
        made is Ok && request.operation.shard_number == Some(0u32) ==> (res matches Err(
            StorageError::BadInput { description },
        ) && description@ == "`shard_number` cannot be 0"@),
{
}

/// The collection that is to be built at last is the one that was asked for, in the directory that
/// was asked for. Its size and distance are those of the operation. It has as many shards as the
/// operation says, or one if it does not say. Its payload is on disk if the operation says so, or
/// if it does not say and the storage says so. Each section of its settings is that of the storage
/// if the operation does not change it, and is what came of the change if it does; then the change
/// that is asked for is that of the operation, to the settings of the storage.
///
/// `wal`, `optimizers` and `hnsw` are what came of the changes, as far as they were asked for, and
/// `first`, `second`, `third` and `last` are the steps.
pub proof fn law_new_collection_is_as_asked_for<C>(
    toc: &TableOfContent<C>,
    request: DirectoryRequest,
    made: Result<(), String>,
    wal: WalConfig,
    optimizers: OptimizersConfig,
    hnsw: HnswConfig,
    first: ConfigStep,
    second: ConfigStep,
    third: ConfigStep,
    last: ConfigStep,
)
    requires
        call_ensures(TableOfContent::<C>::directory_created, (toc, request, made), Ok(first)),
        match first {
            ConfigStep::UpdateWal(update) => call_ensures(
                TableOfContent::<C>::wal_updated,
                (toc, update, Ok(wal)),
                Ok(second),
            ),
            _ => second == first,
        },
        match second {
            ConfigStep::UpdateOptimizers(update) => call_ensures(
                TableOfContent::<C>::optimizers_updated,
                (toc, update, Ok(optimizers)),
                Ok(third),
            ),
            _ => third == second,
        },
        match third {
            ConfigStep::UpdateHnsw(update) => call_ensures(
                TableOfContent::<C>::hnsw_updated,
                (toc, update, Ok(hnsw)),
                Ok(last),
            ),
            _ => last == third,
        },
    ensures
        match request.operation.wal_config {
            Some(diff) => first matches ConfigStep::UpdateWal(u) && u.diff == diff && u.base
                == toc@.storage_config.wal,
            None => !(first is UpdateWal),
        },
        match request.operation.optimizers_config {
            Some(diff) => second matches ConfigStep::UpdateOptimizers(u) && u.diff == diff
                && u.base == toc@.storage_config.optimizers,
            None => !(second is UpdateOptimizers),
        },
        match request.operation.hnsw_config {
            Some(diff) => third matches ConfigStep::UpdateHnsw(u) && u.diff == diff && u.base
                == toc@.storage_config.hnsw_index,
            None => !(third is UpdateHnsw),
        },
        last matches ConfigStep::Build(build) && {
            &&& build.collection_name == request.collection_name
            &&& build.path == request.path
            &&& build.distribution == request.distribution
            &&& build.config.params.vector_size == request.operation.vector_size
            &&& build.config.params.distance == request.operation.distance
            &&& request.operation.shard_number matches Some(n)
                ==> build.config.params.shard_number@ == n
            &&& request.operation.shard_number is None
                ==> build.config.params.shard_number@ == 1
            &&& request.operation.on_disk_payload matches Some(on_disk)
                ==> build.config.params.on_disk_payload == on_disk
            &&& request.operation.on_disk_payload is None
                ==> build.config.params.on_disk_payload == toc@.storage_config.on_disk_payload
            &&& request.operation.wal_config is Some ==> build.config.wal_config == wal
            &&& request.operation.wal_config is None ==> build.config.wal_config
                == toc@.storage_config.wal
            &&& request.operation.optimizers_config is Some ==> build.config.optimizer_config
                == optimizers
            &&& request.operation.optimizers_config is None ==> build.config.optimizer_config
                == toc@.storage_config.optimizers
            &&& request.operation.hnsw_config is Some ==> build.config.hnsw_config == hnsw
            &&& request.operation.hnsw_config is None ==> build.config.hnsw_config
                == toc@.storage_config.hnsw_index
        },
{
    if let Some(n) = request.operation.shard_number {
        lemma_shard_count(n);
    }
    lemma_shard_count(1);
}

/// A change to a section that cannot be made ends the making of a collection with its error, and
/// one that can be made does not end it.
pub proof fn law_settings_errors<C>(
    toc: &TableOfContent<C>,
    wal_update: WalUpdate,
    wal: Result<WalConfig, StorageError>,
    after_wal: Result<ConfigStep, StorageError>,
    optimizers_update: OptimizersUpdate,
    optimizers: Result<OptimizersConfig, StorageError>,
    after_optimizers: Result<ConfigStep, StorageError>,
    hnsw_update: HnswUpdate,
    hnsw: Result<HnswConfig, StorageError>,
    after_hnsw: Result<ConfigStep, StorageError>,
)
    requires
        call_ensures(TableOfContent::<C>::wal_updated, (toc, wal_update, wal), after_wal),
        call_ensures(
            TableOfContent::<C>::optimizers_updated,
            (toc, optimizers_update, optimizers),
            after_optimizers,
        ),
        call_ensures(TableOfContent::<C>::hnsw_updated, (toc, hnsw_update, hnsw), after_hnsw),
    ensures
        match wal {
            Ok(_) => after_wal is Ok,
            Err(e) => after_wal == Err::<ConfigStep, StorageError>(e),
        },
        match optimizers {
            Ok(_) => after_optimizers is Ok,
            Err(e) => after_optimizers == Err::<ConfigStep, StorageError>(e),
        },
        match hnsw {
            Ok(_) => after_hnsw is Ok,
            Err(e) => after_hnsw == Err::<ConfigStep, StorageError>(e),
        },
{
}

/// The collection that was made is in the table afterwards, under its name, exactly when it could
/// be made and there was none of that name; then the answer is `true`. Nothing else in the table
/// changes, and nothing at all if the answer is an error.
pub proof fn law_collection_built<C>(
    toc: &mut TableOfContent<C>,
    name: String,
    outcome: Result<C, StorageError>,
    res: Result<bool, StorageError>,
)
    requires
        call_ensures(TableOfContent::<C>::collection_built, (toc, name, outcome), res),
    ensures
        match outcome {
            Err(e) => res == Err::<bool, StorageError>(e) && final(toc)@ == old(toc)@,
            Ok(collection) => if old(toc)@.collections.contains_key(name@) {
                &&& res matches Err(StorageError::BadInput { description })
                &&& description@ == "Collection `"@ + name@ + "` already exists!"@
                &&& final(toc)@ == old(toc)@
            } else {
                &&& res == Ok::<bool, StorageError>(true)
                &&& final(toc)@.collections == old(toc)@.collections.insert(name@, collection)
                &&& final(toc)@.aliases == old(toc)@.aliases
                &&& final(toc)@.storage_config == old(toc)@.storage_config
                &&& final(toc)@.this_peer_id == old(toc)@.this_peer_id
            },
        },
{
}

/// The answers to what was tried on disk and in a collection: it is `true`, or the way on, exactly
/// when that went well, and the error says what went wrong, and with which collection.
pub proof fn law_outcomes(
    name: &str,
    outcome: Result<(), String>,
    created: Result<(), StorageError>,
    removed: Result<bool, StorageError>,
    changed: Result<(), StorageError>,
    updated: Result<bool, StorageError>,
)
    requires
        call_ensures(create_collection_path, (name, outcome), created),
        call_ensures(directory_removed, (name, outcome), removed),
        call_ensures(optimizer_params_updated, (changed,), updated),
    ensures
        match outcome {
            Ok(_) => created is Ok && removed == Ok::<bool, StorageError>(true),
            Err(cause) => {
                &&& created matches Err(StorageError::ServiceError { description })
                    && description@ == "Can't create directory for collection "@ + name@
                    + ". Error: "@ + cause@
                &&& removed matches Err(StorageError::ServiceError { description })
                    && description@ == "Can't delete collection "@ + name@ + ", error: "@ + cause@
            },
        },
        match changed {
            Ok(_) => updated == Ok::<bool, StorageError>(true),
            Err(e) => updated == Err::<bool, StorageError>(e),
        },
{
}

/// A deleted collection is out of the table, and nothing else in the table changes. The collection
/// and its directory are handed out to be ended. If there was none of that name the answer is
/// `false`, and nothing changes. An alias does not do for a name.
pub proof fn law_delete_collection<C>(
    toc: &mut TableOfContent<C>,
    name: &str,
    step: DeletionStep<C>,
)
    requires
        call_ensures(TableOfContent::<C>::delete_collection, (toc, name), step),
    ensures
        final(toc)@.collections == old(toc)@.collections.remove(name@),
        final(toc)@.aliases == old(toc)@.aliases,
        final(toc)@.storage_config == old(toc)@.storage_config,
        final(toc)@.this_peer_id == old(toc)@.this_peer_id,
        old(toc)@.collections.contains_key(name@) ==> (
        step matches DeletionStep::RemoveDirectory { collection, collection_name, path } && {
            &&& collection == old(toc)@.collections[name@]
            &&& collection_name@ == name@
            &&& path.parts@.len() == 3
            &&& path.parts@[0]@ == old(toc)@.storage_config.storage_path@
            &&& path.parts@[1]@ == "collections"@
            &&& path.parts@[2]@ == name@
        }),
        !old(toc)@.collections.contains_key(name@) ==> step == DeletionStep::<C>::Finished(
            Ok(false),
        ),
{
    if let DeletionStep::RemoveDirectory { path, .. } = step {
        lemma_parts(path, old(toc)@.storage_config, name@);
    } else {
        assert(old(toc)@.collections.remove(name@) =~= old(toc)@.collections);
    }
}

/// A change of the optimizers asks the collection that is got by that name, be it its own name or
/// an alias, to be changed by exactly that change. If there is none the error is that of getting
/// it. It is answered `true` at once only if there is nothing to change, whatever the name.
pub proof fn law_update_collection<C>(
    toc: &TableOfContent<C>,
    name: &str,
    operation: UpdateCollection,
    got: Result<&C, StorageError>,
    step: MetaOpStep<'_, C>,
)
    requires
        call_ensures(TableOfContent::<C>::get_collection, (toc, name), got),
        call_ensures(TableOfContent::<C>::update_collection, (toc, name, operation), step),
    ensures
        match (operation.optimizers_config, got) {
            (None, _) => step matches MetaOpStep::Finished(Ok(done)) && done,
            (Some(change), Ok(c)) => step matches MetaOpStep::UpdateOptimizers { collection, diff }
                && *collection == *c && diff == change,
            (Some(_), Err(e)) => step matches MetaOpStep::Finished(Err(f)) && f@ == e@,
        },
        operation.optimizers_config matches Some(change) ==> {
            &&& toc@.collections.contains_key(name@) ==> (
            step matches MetaOpStep::UpdateOptimizers { collection, diff } && *collection
                == toc@.collections[name@] && diff == change)
            &&& !toc@.collections.contains_key(name@) && toc@.aliases.contains_key(name@)
                && toc@.collections.contains_key(toc@.aliases[name@]) ==> (
            step matches MetaOpStep::UpdateOptimizers { collection, diff } && *collection
                == toc@.collections[toc@.aliases[name@]] && diff == change)
            &&& got is Ok <==> step is UpdateOptimizers
        },
{
}

/// `step` is the way on of a creation that was begun on its own: the same directory, operation and
/// shards are asked for, or the same error is given.
pub open spec fn goes_on_as<C>(
    begun: Result<DirectoryRequest, StorageError>,
    step: MetaOpStep<'_, C>,
) -> bool {
    match begun {
        Ok(r) => step matches MetaOpStep::CreateDirectory(request) && {
            &&& request.collection_name@ == r.collection_name@
            &&& request.operation == r.operation
            &&& request.distribution == r.distribution
            &&& request.path@ == r.path@
        },
        Err(e) => step matches MetaOpStep::Finished(Err(f)) && f@ == e@,
    }
}

/// An operation that makes a collection begins as making it does. All of its shards are here.
pub proof fn law_perform_creation<C>(
    toc: &TableOfContent<C>,
    op: CreateCollectionOperation,
    name: &str,
    begun: Result<DirectoryRequest, StorageError>,
    step: MetaOpStep<'_, C>,
)
    requires
        name@ == op.collection_name@,
        call_ensures(
            TableOfContent::<C>::create_collection,
            (toc, name, op.create_collection, CollectionShardDistribution::AllLocal),
            begun,
        ),
        call_ensures(
            TableOfContent::<C>::perform_collection_meta_op,
            (toc, CollectionMetaOperations::CreateCollection(op)),
            step,
        ),
    ensures
        goes_on_as(begun, step),
        step is CreateDirectory <==> !toc@.collections.contains_key(op.collection_name@),
{
}

/// An operation that makes a distributed collection begins with its directory, unless there is a
/// collection of that name. The shards are always told apart: a shard is local exactly when the
/// proposal puts it on this peer, and is known to be on another peer exactly when the proposal
/// puts it there. Together there are as many of them as the proposal has, and they stand in the
/// order in which the proposal itself tells them apart.
pub proof fn law_perform_distributed_creation<C>(
    toc: &TableOfContent<C>,
    op: CreateCollectionOperation,
    proposal: ShardDistributionProposal,
    step: MetaOpStep<'_, C>,
    here: Vec<ShardId>,
    elsewhere: Vec<(ShardId, PeerId)>,
    shard: ShardId,
    peer: PeerId,
)
    requires
        call_ensures(
            ShardDistributionProposal::local_shards_for,
            (&proposal, toc@.this_peer_id),
            here,
        ),
        call_ensures(
            ShardDistributionProposal::remote_shards_for,
            (&proposal, toc@.this_peer_id),
            elsewhere,
        ),
        call_ensures(
            TableOfContent::<C>::perform_collection_meta_op,
            (toc, CollectionMetaOperations::CreateCollectionDistributed(op, proposal)),
            step,
        ),
    ensures
        toc@.collections.contains_key(op.collection_name@) ==> (
        step matches MetaOpStep::Finished(Err(StorageError::BadInput { description }))
            && description@ == "Collection `"@ + op.collection_name@ + "` already exists!"@),
        !toc@.collections.contains_key(op.collection_name@) ==> (
        step matches MetaOpStep::CreateDirectory(request) && {
            &&& request.collection_name@ == op.collection_name@
            &&& request.operation == op.create_collection
            &&& request.path.parts@.len() == 3
            &&& request.path.parts@[0]@ == toc@.storage_config.storage_path@
            &&& request.path.parts@[1]@ == "collections"@
            &&& request.path.parts@[2]@ == op.collection_name@
            &&& request.distribution matches CollectionShardDistribution::Distribution {
                local,
                remote,
            }
            &&& local@.contains(shard) <==> proposal.distribution@.contains(
                (shard, toc@.this_peer_id),
            )
            &&& remote@.contains((shard, peer)) <==> proposal.distribution@.contains((shard, peer))
                && peer != toc@.this_peer_id
            &&& local@.len() + remote@.len() == proposal.distribution@.len()
            &&& local@ == here@
            &&& remote@ == elsewhere@
        }),
{
    law_proposal_is_split(proposal.distribution@, toc@.this_peer_id, (shard, peer));
    if let MetaOpStep::CreateDirectory(request) = step {
        lemma_parts(request.path, toc@.storage_config, op.collection_name@);
    }
}

/// An operation that changes a collection does what changing it does.
pub proof fn law_perform_update<C>(
    toc: &TableOfContent<C>,
    op: UpdateCollectionOperation,
    name: &str,
    updated: MetaOpStep<'_, C>,
    step: MetaOpStep<'_, C>,
)
    requires
        name@ == op.collection_name@,
        call_ensures(
            TableOfContent::<C>::update_collection,
            (toc, name, op.update_collection),
            updated,
        ),
        call_ensures(
            TableOfContent::<C>::perform_collection_meta_op,
            (toc, CollectionMetaOperations::UpdateCollection(op)),
            step,
        ),
    ensures
        match updated {
            MetaOpStep::UpdateOptimizers { collection: c, diff: d } => {
                step matches MetaOpStep::UpdateOptimizers { collection, diff } && *collection == *c
                    && diff == d
            },
            MetaOpStep::Finished(Ok(d)) => step matches MetaOpStep::Finished(Ok(done)) && done == d,
            MetaOpStep::Finished(Err(e)) => step matches MetaOpStep::Finished(Err(f)) && f@ == e@,
            _ => false,
        },
{
}

/// Operations that delete a collection or change aliases are handed on as they are.
pub proof fn law_perform_handed_on<C>(
    toc: &TableOfContent<C>,
    delete: DeleteCollectionOperation,
    change: ChangeAliasesOperation,
    deletion: MetaOpStep<'_, C>,
    changes: MetaOpStep<'_, C>,
)
    requires
        call_ensures(
            TableOfContent::<C>::perform_collection_meta_op,
            (toc, CollectionMetaOperations::DeleteCollection(delete)),
            deletion,
        ),
        call_ensures(
            TableOfContent::<C>::perform_collection_meta_op,
            (toc, CollectionMetaOperations::ChangeAliases(change)),
            changes,
        ),
    ensures
        deletion matches MetaOpStep::DeleteCollection { collection_name } && collection_name@
            == delete.0@,
        changes matches MetaOpStep::ChangeAliases(operation) && operation.actions@
            == change.actions@,
{
}

} // verus!
