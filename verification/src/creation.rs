//! Making a new collection.
//!
//! Making a collection takes work on disk and in the collection itself. The functions here
//! decide what is to be done next; each takes what came of the step before it.
//!
//! 1. `create_collection` asks for the directory of the collection.
//! 2. `directory_created` asks for changed settings, section by section, as far as the
//!    operation changes them.
//! 3. `wal_updated`, `optimizers_updated` and `hnsw_updated` take the changed sections, and
//!    ask for the collection when all are there.
//! 4. `collection_built` adds the collection to the table.
//!
//! The table may change between two steps.

use crate::config::{
    CollectionConfig, CollectionParams, HnswConfig, HnswConfigDiff, OptimizersConfig,
    OptimizersConfigDiff, ShardCount, StorageConfig, StoragePath, WalConfig, WalConfigDiff,
};
use crate::errors::{
    collection_exists_error, create_directory_error, zero_shards_error, StorageError,
};
use crate::model::TocView;
use crate::operations::CreateCollection;
use crate::shard_distribution::CollectionShardDistribution;
use crate::toc::TableOfContent;
use vstd::prelude::*;

verus! {

/// The directory of a new collection is to be made, with those above it.
pub struct DirectoryRequest {
    pub collection_name: String,
    pub path: StoragePath,
    pub operation: CreateCollection,
    pub distribution: CollectionShardDistribution,
}

/// A collection whose directory and parameters are settled.
pub struct CollectionDraft {
    pub collection_name: String,
    pub path: StoragePath,
    pub params: CollectionParams,
    pub distribution: CollectionShardDistribution,
}

/// A collection is to be made in its directory.
pub struct BuildRequest {
    pub collection_name: String,
    pub path: StoragePath,
    pub config: CollectionConfig,
    pub distribution: CollectionShardDistribution,
}

/// The changes `diff` are to be applied to the settings `base` of the write-ahead log.
pub struct WalUpdate {
    pub diff: WalConfigDiff,
    pub base: WalConfig,
    pub draft: CollectionDraft,
    pub optimizers_diff: Option<OptimizersConfigDiff>,
    pub hnsw_diff: Option<HnswConfigDiff>,
}

/// The changes `diff` are to be applied to the settings `base` of the optimizers.
pub struct OptimizersUpdate {
    pub diff: OptimizersConfigDiff,
    pub base: OptimizersConfig,
    pub draft: CollectionDraft,
    pub wal_config: WalConfig,
    pub hnsw_diff: Option<HnswConfigDiff>,
}

/// The changes `diff` are to be applied to the settings `base` of the vector index.
pub struct HnswUpdate {
    pub diff: HnswConfigDiff,
    pub base: HnswConfig,
    pub draft: CollectionDraft,
    pub wal_config: WalConfig,
    pub optimizer_config: OptimizersConfig,
}

/// The next thing that is to be done for a new collection.
pub enum ConfigStep {
    UpdateWal(WalUpdate),
    UpdateOptimizers(OptimizersUpdate),
    UpdateHnsw(HnswUpdate),
    Build(BuildRequest),
}

/// The shards that a new collection gets: one if the operation does not say.
pub open spec fn shard_number(operation: CreateCollection) -> u32 {
    match operation.shard_number {
        Some(n) => n,
        None => 1,
    }
}

/// The parameters of a new collection.
pub open spec fn collection_params(
    operation: CreateCollection,
    storage_config: StorageConfig,
) -> CollectionParams {
    CollectionParams {
        vector_size: operation.vector_size,
        distance: operation.distance,
        shard_number: ShardCount::of(shard_number(operation)),
        on_disk_payload: match operation.on_disk_payload {
            Some(on_disk) => on_disk,
            None => storage_config.on_disk_payload,
        },
    }
}

/// The request to make a collection out of a draft and its settings.
pub open spec fn build_request(
    draft: CollectionDraft,
    wal_config: WalConfig,
    optimizer_config: OptimizersConfig,
    hnsw_config: HnswConfig,
) -> BuildRequest {
    BuildRequest {
        collection_name: draft.collection_name,
        path: draft.path,
        config: CollectionConfig {
            params: draft.params,
            wal_config,
            optimizer_config,
            hnsw_config,
        },
        distribution: draft.distribution,
    }
}

/// What follows once the settings of the optimizers are there.
pub open spec fn after_optimizers_step(
    storage_config: StorageConfig,
    draft: CollectionDraft,
    wal_config: WalConfig,
    optimizer_config: OptimizersConfig,
    hnsw_diff: Option<HnswConfigDiff>,
) -> ConfigStep {
    match hnsw_diff {
        None => ConfigStep::Build(
            build_request(draft, wal_config, optimizer_config, storage_config.hnsw_index),
        ),
        Some(diff) => ConfigStep::UpdateHnsw(
            HnswUpdate {
                diff,
                base: storage_config.hnsw_index,
                draft,
                wal_config,
                optimizer_config,
            },
        ),
    }
}

/// What follows once the settings of the write-ahead log are there.
pub open spec fn after_wal_step(
    storage_config: StorageConfig,
    draft: CollectionDraft,
    wal_config: WalConfig,
    optimizers_diff: Option<OptimizersConfigDiff>,
    hnsw_diff: Option<HnswConfigDiff>,
) -> ConfigStep {
    match optimizers_diff {
        None => after_optimizers_step(
            storage_config,
            draft,
            wal_config,
            storage_config.optimizers,
            hnsw_diff,
        ),
        Some(diff) => ConfigStep::UpdateOptimizers(
            OptimizersUpdate {
                diff,
                base: storage_config.optimizers,
                draft,
                wal_config,
                hnsw_diff,
            },
        ),
    }
}

/// What follows once the directory is there.
pub open spec fn after_directory_step(
    storage_config: StorageConfig,
    draft: CollectionDraft,
    operation: CreateCollection,
) -> ConfigStep {
    match operation.wal_config {
        None => after_wal_step(
            storage_config,
            draft,
            storage_config.wal,
            operation.optimizers_config,
            operation.hnsw_config,
        ),
        Some(diff) => ConfigStep::UpdateWal(
            WalUpdate {
                diff,
                base: storage_config.wal,
                draft,
                optimizers_diff: operation.optimizers_config,
                hnsw_diff: operation.hnsw_config,
            },
        ),
    }
}

/// The draft of the collection whose directory was asked for.
pub open spec fn draft_of(
    request: DirectoryRequest,
    storage_config: StorageConfig,
) -> CollectionDraft {
    CollectionDraft {
        collection_name: request.collection_name,
        path: request.path,
        params: collection_params(request.operation, storage_config),
        distribution: request.distribution,
    }
}

/// `res` asks for the directory of a new collection, or refuses a name that a collection has.
pub open spec fn creation_requested<C>(
    toc: TocView<C>,
    name: Seq<char>,
    operation: CreateCollection,
    distribution: CollectionShardDistribution,
    res: Result<DirectoryRequest, StorageError>,
) -> bool {
    match res {
        Ok(request) => {
            &&& !toc.has(name)
            &&& request.collection_name@ == name
            &&& request.path@ == toc.path(name)
            &&& request.operation == operation
            &&& request.distribution == distribution
        },
        Err(e) => toc.has(name) && e@ == collection_exists_error(name),
    }
}

/// `res` goes on with the settings of the collection. It is an error if the directory could not
/// be made, and if the collection would have no shards.
pub open spec fn directory_settled(
    storage_config: StorageConfig,
    request: DirectoryRequest,
    outcome: Result<(), String>,
    res: Result<ConfigStep, StorageError>,
) -> bool {
    match outcome {
        Err(cause) => res matches Err(e) && e@ == create_directory_error(
            request.collection_name@,
            cause@,
        ),
        Ok(_) => if shard_number(request.operation) == 0 {
            res matches Err(e) && e@ == zero_shards_error()
        } else {
            res == Ok::<ConfigStep, StorageError>(
                after_directory_step(
                    storage_config,
                    draft_of(request, storage_config),
                    request.operation,
                ),
            )
        },
    }
}

/// The collection that was made is added, unless there is one of that name by then.
pub open spec fn collection_added<C>(
    pre: TocView<C>,
    name: Seq<char>,
    outcome: Result<C, StorageError>,
    post: TocView<C>,
    res: Result<bool, StorageError>,
) -> bool {
    match outcome {
        Ok(collection) => if pre.has(name) {
            &&& res matches Err(e) && e@ == collection_exists_error(name)
            &&& post == pre
        } else {
            &&& res == Ok::<bool, StorageError>(true)
            &&& post == pre.with_collection(name, collection)
        },
        Err(e) => res == Err::<bool, StorageError>(e) && post == pre,
    }
}

impl<C> TableOfContent<C> {
    /// Starts to make a collection. A name that a collection has is refused, and nothing is
    /// done on disk. An alias of that name is no hindrance: the name leads to the collection once
    /// it is there.
    pub fn create_collection(
        &self,
        collection_name: &str,
        operation: CreateCollection,
        collection_shard_distribution: CollectionShardDistribution,
    ) -> (res: Result<DirectoryRequest, StorageError>)
        ensures
            creation_requested(
                self@,
                collection_name@,
                operation,
                collection_shard_distribution,
                res,
            ),
    {
        match self.validate_collection_not_exists(collection_name) {
            Ok(_) => Ok(
                DirectoryRequest {
                    collection_name: collection_name.to_owned(),
                    path: self.get_collection_path(collection_name),
                    operation,
                    distribution: collection_shard_distribution,
                },
            ),
            Err(e) => Err(e),
        }
    }

    /// Goes on once it was tried to make the directory. `outcome` has the text of the error if
    /// that failed.
    pub fn directory_created(
        &self,
        request: DirectoryRequest,
        outcome: Result<(), String>,
    ) -> (res: Result<ConfigStep, StorageError>)
        ensures
            directory_settled(self@.storage_config, request, outcome, res),
    {
        match create_collection_path(request.collection_name.as_str(), outcome) {
            Ok(_) => {},
            Err(e) => {
                return Err(e);
            },
        }
        let DirectoryRequest { collection_name, path, operation, distribution } = request;
        let CreateCollection {
            vector_size,
            distance,
            shard_number,
            on_disk_payload,
            hnsw_config: hnsw_config_diff,
            wal_config: wal_config_diff,
            optimizers_config: optimizers_config_diff,
        } = operation;
        let shard_number: u32 = match shard_number {
            Some(n) => n,
            None => 1,
        };
        let shard_number = match ShardCount::new(shard_number) {
            Some(shard_number) => shard_number,
            None => {
                return Err(StorageError::zero_shards());
            },
        };
        let params = CollectionParams {
            vector_size,
            distance,
            shard_number,
            on_disk_payload: match on_disk_payload {
                Some(on_disk) => on_disk,
                None => self.storage_config().on_disk_payload,
            },
        };
        let draft = CollectionDraft { collection_name, path, params, distribution };
        match wal_config_diff {
            None => Ok(
                self.after_wal(
                    draft,
                    self.storage_config().wal.clone(),
                    optimizers_config_diff,
                    hnsw_config_diff,
                ),
            ),
            Some(diff) => Ok(
                ConfigStep::UpdateWal(
                    WalUpdate {
                        diff,
                        base: self.storage_config().wal.clone(),
                        draft,
                        optimizers_diff: optimizers_config_diff,
                        hnsw_diff: hnsw_config_diff,
                    },
                ),
            ),
        }
    }

    fn after_wal(
        &self,
        draft: CollectionDraft,
        wal_config: WalConfig,
        optimizers_diff: Option<OptimizersConfigDiff>,
        hnsw_diff: Option<HnswConfigDiff>,
    ) -> (res: ConfigStep)
        ensures
            res == after_wal_step(
                self@.storage_config,
                draft,
                wal_config,
                optimizers_diff,
                hnsw_diff,
            ),
    {
        match optimizers_diff {
            None => self.after_optimizers(
                draft,
                wal_config,
                self.storage_config().optimizers.clone(),
                hnsw_diff,
            ),
            Some(diff) => ConfigStep::UpdateOptimizers(
                OptimizersUpdate {
                    diff,
                    base: self.storage_config().optimizers.clone(),
                    draft,
                    wal_config,
                    hnsw_diff,
                },
            ),
        }
    }

    fn after_optimizers(
        &self,
        draft: CollectionDraft,
        wal_config: WalConfig,
        optimizer_config: OptimizersConfig,
        hnsw_diff: Option<HnswConfigDiff>,
    ) -> (res: ConfigStep)
        ensures
            res == after_optimizers_step(
                self@.storage_config,
                draft,
                wal_config,
                optimizer_config,
                hnsw_diff,
            ),
    {
        match hnsw_diff {
            None => ConfigStep::Build(
                make_build_request(
                    draft,
                    wal_config,
                    optimizer_config,
                    self.storage_config().hnsw_index.clone(),
                ),
            ),
            Some(diff) => ConfigStep::UpdateHnsw(
                HnswUpdate {
                    diff,
                    base: self.storage_config().hnsw_index.clone(),
                    draft,
                    wal_config,
                    optimizer_config,
                },
            ),
        }
    }

    /// Goes on with the changed settings of the write-ahead log.
    pub fn wal_updated(
        &self,
        update: WalUpdate,
        outcome: Result<WalConfig, StorageError>,
    ) -> (res: Result<ConfigStep, StorageError>)
        ensures
            match outcome {
                Ok(wal_config) => res == Ok::<ConfigStep, StorageError>(
                    after_wal_step(
                        self@.storage_config,
                        update.draft,
                        wal_config,
                        update.optimizers_diff,
                        update.hnsw_diff,
                    ),
                ),
                Err(e) => res == Err::<ConfigStep, StorageError>(e),
            },
    {
        match outcome {
            Ok(wal_config) => Ok(
                self.after_wal(
                    update.draft,
                    wal_config,
                    update.optimizers_diff,
                    update.hnsw_diff,
                ),
            ),
            Err(e) => Err(e),
        }
    }

    /// Goes on with the changed settings of the optimizers.
    pub fn optimizers_updated(
        &self,
        update: OptimizersUpdate,
        outcome: Result<OptimizersConfig, StorageError>,
    ) -> (res: Result<ConfigStep, StorageError>)
        ensures
            match outcome {
                Ok(optimizer_config) => res == Ok::<ConfigStep, StorageError>(
                    after_optimizers_step(
                        self@.storage_config,
                        update.draft,
                        update.wal_config,
                        optimizer_config,
                        update.hnsw_diff,
                    ),
                ),
                Err(e) => res == Err::<ConfigStep, StorageError>(e),
            },
    {
        match outcome {
            Ok(optimizer_config) => Ok(
                self.after_optimizers(
                    update.draft,
                    update.wal_config,
                    optimizer_config,
                    update.hnsw_diff,
                ),
            ),
            Err(e) => Err(e),
        }
    }

    /// Goes on with the changed settings of the vector index.
    pub fn hnsw_updated(
        &self,
        update: HnswUpdate,
        outcome: Result<HnswConfig, StorageError>,
    ) -> (res: Result<ConfigStep, StorageError>)
        ensures
            match outcome {
                Ok(hnsw_config) => res == Ok::<ConfigStep, StorageError>(
                    ConfigStep::Build(
                        build_request(
                            update.draft,
                            update.wal_config,
                            update.optimizer_config,
                            hnsw_config,
                        ),
                    ),
                ),
                Err(e) => res == Err::<ConfigStep, StorageError>(e),
            },
    {
        match outcome {
            Ok(hnsw_config) => Ok(
                ConfigStep::Build(
                    make_build_request(
                        update.draft,
                        update.wal_config,
                        update.optimizer_config,
                        hnsw_config,
                    ),
                ),
            ),
            Err(e) => Err(e),
        }
    }

    /// Adds the collection that was made, unless there is one of that name by now.
    pub fn collection_built(
        &mut self,
        collection_name: String,
        outcome: Result<C, StorageError>,
    ) -> (res: Result<bool, StorageError>)
        ensures
            collection_added(old(self)@, collection_name@, outcome, final(self)@, res),
    {
        match outcome {
            Ok(collection) => match self.validate_collection_not_exists(
                collection_name.as_str(),
            ) {
                Ok(_) => {
                    self.put_collection(collection_name, collection);
                    Ok(true)
                },
                Err(e) => Err(e),
            },
            Err(e) => Err(e),
        }
    }
}

fn make_build_request(
    draft: CollectionDraft,
    wal_config: WalConfig,
    optimizer_config: OptimizersConfig,
    hnsw_config: HnswConfig,
) -> (res: BuildRequest)
    ensures
        res == build_request(draft, wal_config, optimizer_config, hnsw_config),
{
    BuildRequest {
        collection_name: draft.collection_name,
        path: draft.path,
        config: CollectionConfig {
            params: draft.params,
            wal_config,
            optimizer_config,
            hnsw_config,
        },
        distribution: draft.distribution,
    }
}

/// What came of making the directory of a collection. `outcome` has the text of the error if
/// that failed.
pub fn create_collection_path(collection_name: &str, outcome: Result<(), String>) -> (res: Result<
    (),
    StorageError,
>)
    ensures
        match outcome {
            Ok(_) => res is Ok,
            Err(cause) => res matches Err(e) && e@ == create_directory_error(
                collection_name@,
                cause@,
            ),
        },
{
    match outcome {
        Ok(_) => Ok(()),
        Err(cause) => Err(StorageError::create_directory(collection_name, cause.as_str())),
    }
}

} // verus!
