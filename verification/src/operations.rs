//! The operations that change which collections and aliases there are.

use crate::config::{Distance, HnswConfigDiff, OptimizersConfigDiff, WalConfigDiff};
use crate::shard_distribution::ShardDistributionProposal;
use vstd::prelude::*;

verus! {

/// The alias `alias_name` shall stand for the collection `collection_name`.
#[derive(Debug)]
pub struct CreateAlias {
    pub collection_name: String,
    pub alias_name: String,
}

#[derive(Debug)]
pub struct CreateAliasOperation {
    pub create_alias: CreateAlias,
}

/// The alias `alias_name` shall be no more.
#[derive(Debug)]
pub struct DeleteAlias {
    pub alias_name: String,
}

#[derive(Debug)]
pub struct DeleteAliasOperation {
    pub delete_alias: DeleteAlias,
}

/// The alias `old_alias_name` shall be called `new_alias_name`.
#[derive(Debug)]
pub struct RenameAlias {
    pub old_alias_name: String,
    pub new_alias_name: String,
}

#[derive(Debug)]
pub struct RenameAliasOperation {
    pub rename_alias: RenameAlias,
}

/// A change to the aliases.
#[derive(Debug)]
pub enum AliasOperations {
    CreateAlias(CreateAliasOperation),
    DeleteAlias(DeleteAliasOperation),
    RenameAlias(RenameAliasOperation),
}

/// Several changes to the aliases, to be made one after the other.
#[derive(Debug)]
pub struct ChangeAliasesOperation {
    pub actions: Vec<AliasOperations>,
}

/// The settings of a new collection. What is `None` comes from the storage.
#[derive(Debug)]
pub struct CreateCollection {
    pub vector_size: usize,
    pub distance: Distance,
    pub shard_number: Option<u32>,
    pub on_disk_payload: Option<bool>,
    pub hnsw_config: Option<HnswConfigDiff>,
    pub wal_config: Option<WalConfigDiff>,
    pub optimizers_config: Option<OptimizersConfigDiff>,
}

#[derive(Debug)]
pub struct CreateCollectionOperation {
    pub collection_name: String,
    pub create_collection: CreateCollection,
}

/// The settings of a collection that shall change.
#[derive(Debug)]
pub struct UpdateCollection {
    pub optimizers_config: Option<OptimizersConfigDiff>,
}

#[derive(Debug)]
pub struct UpdateCollectionOperation {
    pub collection_name: String,
    pub update_collection: UpdateCollection,
}

/// The collection of that name shall be no more.
#[derive(Debug)]
pub struct DeleteCollectionOperation(pub String);

/// An operation on collections or aliases.
#[derive(Debug)]
pub enum CollectionMetaOperations {
    CreateCollectionDistributed(CreateCollectionOperation, ShardDistributionProposal),
    CreateCollection(CreateCollectionOperation),
    UpdateCollection(UpdateCollectionOperation),
    DeleteCollection(DeleteCollectionOperation),
    ChangeAliases(ChangeAliasesOperation),
}

} // verus!
