//! What holds of the making of a collection as a whole.

use crate::config::{
    lemma_shard_count, CollectionConfig, HnswConfig, OptimizersConfig, StorageConfig, WalConfig,
};
use crate::creation::{
    after_directory_step, after_optimizers_step, after_wal_step, build_request, collection_added,
    collection_params, creation_requested, directory_settled, shard_number, BuildRequest,
    CollectionDraft, ConfigStep, DirectoryRequest,
};
use crate::errors::{
    collection_exists_error, create_directory_error, zero_shards_error, ErrorView, StorageError,
};
use crate::model::TocView;
use crate::operations::CreateCollection;
use crate::shard_distribution::CollectionShardDistribution;
use vstd::prelude::*;

verus! {

/// The collection that is to be made once the settings of the vector index are asked for at most.
pub open spec fn settle_hnsw(
    step: ConfigStep,
    hnsw: Result<HnswConfig, StorageError>,
) -> Option<Result<BuildRequest, StorageError>> {
    match step {
        ConfigStep::UpdateHnsw(update) => Some(
            match hnsw {
                Ok(hnsw_config) => Ok(
                    build_request(
                        update.draft,
                        update.wal_config,
                        update.optimizer_config,
                        hnsw_config,
                    ),
                ),
                Err(e) => Err(e),
            },
        ),
        ConfigStep::Build(request) => Some(Ok(request)),
        _ => None,
    }
}

/// The same once the settings of the optimizers are asked for at most.
pub open spec fn settle_optimizers(
    storage_config: StorageConfig,
    step: ConfigStep,
    optimizers: Result<OptimizersConfig, StorageError>,
    hnsw: Result<HnswConfig, StorageError>,
) -> Option<Result<BuildRequest, StorageError>> {
    match step {
        ConfigStep::UpdateOptimizers(update) => match optimizers {
            Ok(optimizer_config) => settle_hnsw(
                after_optimizers_step(
                    storage_config,
                    update.draft,
                    update.wal_config,
                    optimizer_config,
                    update.hnsw_diff,
                ),
                hnsw,
            ),
            Err(e) => Some(Err(e)),
        },
        _ => settle_hnsw(step, hnsw),
    }
}

/// The same for all settings: each section that a step asks for is answered by what came of its
/// changes.
pub open spec fn settle(
    storage_config: StorageConfig,
    step: ConfigStep,
    wal: Result<WalConfig, StorageError>,
    optimizers: Result<OptimizersConfig, StorageError>,
    hnsw: Result<HnswConfig, StorageError>,
) -> Option<Result<BuildRequest, StorageError>> {
    match step {
        ConfigStep::UpdateWal(update) => match wal {
            Ok(wal_config) => settle_optimizers(
                storage_config,
                after_wal_step(
                    storage_config,
                    update.draft,
                    wal_config,
                    update.optimizers_diff,
                    update.hnsw_diff,
                ),
                optimizers,
                hnsw,
            ),
            Err(e) => Some(Err(e)),
        },
        _ => settle_optimizers(storage_config, step, optimizers, hnsw),
    }
}

/// Each section of the settings of a new collection is that of the storage, or, where the
/// operation changes it, what came of the changes. The first section whose changes cannot be
/// applied, in the order of write-ahead log, optimizers, vector index, gives the error.
pub proof fn law_settings_of_a_new_collection(
    storage_config: StorageConfig,
    draft: CollectionDraft,
    operation: CreateCollection,
    wal: Result<WalConfig, StorageError>,
    optimizers: Result<OptimizersConfig, StorageError>,
    hnsw: Result<HnswConfig, StorageError>,
)
    ensures
        ({
            let wal_section = if operation.wal_config is Some {
                wal
            } else {
                Ok(storage_config.wal)
            };
            let optimizers_section = if operation.optimizers_config is Some {
                optimizers
            } else {
                Ok(storage_config.optimizers)
            };
            let hnsw_section = if operation.hnsw_config is Some {
                hnsw
            } else {
                Ok(storage_config.hnsw_index)
            };
            settle(
                storage_config,
                after_directory_step(storage_config, draft, operation),
                wal,
                optimizers,
                hnsw,
            ) == Some(
                match (wal_section, optimizers_section, hnsw_section) {
                    (Err(e), _, _) => Err(e),
                    (Ok(_), Err(e), _) => Err(e),
                    (Ok(_), Ok(_), Err(e)) => Err(e),
                    (Ok(w), Ok(o), Ok(h)) => Ok(
                        BuildRequest {
                            collection_name: draft.collection_name,
                            path: draft.path,
                            config: CollectionConfig {
                                params: draft.params,
                                wal_config: w,
                                optimizer_config: o,
                                hnsw_config: h,
                            },
                            distribution: draft.distribution,
                        },
                    ),
                },
            )
        }),
{
}

/// What came of the steps that are taken outside of the table to make a collection.
pub struct CreationOutcomes<C> {
    pub directory: Result<(), String>,
    pub wal: Result<WalConfig, StorageError>,
    pub optimizers: Result<OptimizersConfig, StorageError>,
    pub hnsw: Result<HnswConfig, StorageError>,
    pub built: Result<C, StorageError>,
}

/// The error of the first section that is to be changed and cannot be.
pub open spec fn settings_error<C>(
    operation: CreateCollection,
    outcomes: CreationOutcomes<C>,
) -> Option<ErrorView> {
    if operation.wal_config is Some && outcomes.wal is Err {
        Some(outcomes.wal->Err_0@)
    } else if operation.optimizers_config is Some && outcomes.optimizers is Err {
        Some(outcomes.optimizers->Err_0@)
    } else if operation.hnsw_config is Some && outcomes.hnsw is Err {
        Some(outcomes.hnsw->Err_0@)
    } else {
        None
    }
}

/// Why a collection is not made, in the order in which that is found out. `at_end` is the table
/// when the collection would be added.
pub open spec fn creation_error<C>(
    at_start: TocView<C>,
    at_end: TocView<C>,
    name: Seq<char>,
    operation: CreateCollection,
    outcomes: CreationOutcomes<C>,
) -> Option<ErrorView> {
    if at_start.has(name) {
        Some(collection_exists_error(name))
    } else if outcomes.directory is Err {
        Some(create_directory_error(name, outcomes.directory->Err_0@))
    } else if shard_number(operation) == 0 {
        Some(zero_shards_error())
    } else if settings_error(operation, outcomes) is Some {
        settings_error(operation, outcomes)
    } else if outcomes.built is Err {
        Some(outcomes.built->Err_0@)
    } else if at_end.has(name) {
        Some(collection_exists_error(name))
    } else {
        None
    }
}

/// The answer to the whole of the making of a collection, out of those of its steps.
pub open spec fn creation_answer(
    request: Result<DirectoryRequest, StorageError>,
    step: Result<ConfigStep, StorageError>,
    build: Result<BuildRequest, StorageError>,
    added: Result<bool, StorageError>,
) -> Result<bool, StorageError> {
    match (request, step, build) {
        (Err(e), _, _) => Err(e),
        (Ok(_), Err(e), _) => Err(e),
        (Ok(_), Ok(_), Err(e)) => Err(e),
        (Ok(_), Ok(_), Ok(_)) => added,
    }
}

/// The whole of the making of a collection. It goes well exactly when the name was free at its
/// start and at its end, the collection has shards, and all that is done outside goes well; then
/// the answer is `true`, and the collection is in the table. Otherwise the first thing that is
/// amiss gives the error, and the table stays as it is. What is asked for is a collection of that
/// name in its directory, with the parameters of the operation, or of the storage where the
/// operation has none, and with the shards that were handed in.
pub proof fn law_creation<C>(
    at_start: TocView<C>,
    at_end: TocView<C>,
    after: TocView<C>,
    name: Seq<char>,
    operation: CreateCollection,
    distribution: CollectionShardDistribution,
    outcomes: CreationOutcomes<C>,
    request: Result<DirectoryRequest, StorageError>,
    step: Result<ConfigStep, StorageError>,
    build: Result<BuildRequest, StorageError>,
    added: Result<bool, StorageError>,
)
    requires
        creation_requested(at_start, name, operation, distribution, request),
        request matches Ok(r) ==> directory_settled(
            at_start.storage_config,
            r,
            outcomes.directory,
            step,
        ),
        request is Ok && step is Ok ==> settle(
            at_start.storage_config,
            step->Ok_0,
            outcomes.wal,
            outcomes.optimizers,
            outcomes.hnsw,
        ) == Some(build),
        if request is Ok && step is Ok && build is Ok {
            collection_added(at_end, build->Ok_0.collection_name@, outcomes.built, after, added)
        } else {
            after == at_end
        },
    ensures
        match creation_error(at_start, at_end, name, operation, outcomes) {
            Some(error) => {
                &&& creation_answer(request, step, build, added) matches Err(e) && e@ == error
                &&& after == at_end
            },
            None => {
                &&& creation_answer(request, step, build, added) == Ok::<bool, StorageError>(true)
                &&& after == at_end.with_collection(name, outcomes.built->Ok_0)
            },
        },
        request is Ok && step is Ok && build is Ok ==> {
            let b = build->Ok_0;
            &&& b.collection_name@ == name
            &&& b.path@ == at_start.path(name)
            &&& b.config.params == collection_params(operation, at_start.storage_config)
            &&& b.config.params.shard_number@ == shard_number(operation) > 0
            &&& b.distribution == distribution
        },
{
    lemma_shard_count(shard_number(operation));
    if request is Ok && step is Ok {
        let r = request->Ok_0;
        law_settings_of_a_new_collection(
            at_start.storage_config,
            crate::creation::draft_of(r, at_start.storage_config),
            operation,
            outcomes.wal,
            outcomes.optimizers,
            outcomes.hnsw,
        );
    }
}

} // verus!
