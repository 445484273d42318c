//! The settings of the storage and of its collections, and where they live on disk.
//!
//! The table of contents passes the sections of a configuration on without reading
//! them, so each section is held in serialized form. Sections are compared by their
//! text: equal settings must be given equal text.

use vstd::prelude::*;

verus! {

/// How the distance between two vectors is measured.
#[derive(Clone, Copy, Debug, PartialEq, Eq, Structural)]
pub enum Distance {
    Cosine,
    Euclid,
    Dot,
}

/// The settings of the write-ahead log.
#[derive(Debug)]
pub struct WalConfig {
    pub settings: String,
}

/// The settings of the optimizers.
#[derive(Debug)]
pub struct OptimizersConfig {
    pub settings: String,
}

/// The settings of the vector index.
#[derive(Debug)]
pub struct HnswConfig {
    pub settings: String,
}

/// Changes to the settings of the write-ahead log.
#[derive(Debug)]
pub struct WalConfigDiff {
    pub settings: String,
}

/// Changes to the settings of the optimizers.
#[derive(Debug)]
pub struct OptimizersConfigDiff {
    pub settings: String,
}

/// Changes to the settings of the vector index.
#[derive(Debug)]
pub struct HnswConfigDiff {
    pub settings: String,
}

impl Clone for WalConfig {
    fn clone(&self) -> (res: Self)
        ensures
            res == *self,
    {
        WalConfig { settings: self.settings.clone() }
    }
}

impl Clone for OptimizersConfig {
    fn clone(&self) -> (res: Self)
        ensures
            res == *self,
    {
        OptimizersConfig { settings: self.settings.clone() }
    }
}

impl Clone for HnswConfig {
    fn clone(&self) -> (res: Self)
        ensures
            res == *self,
    {
        HnswConfig { settings: self.settings.clone() }
    }
}

/// How many shards a collection has: never none.
#[derive(Clone, Copy, Debug, PartialEq, Eq, Structural)]
pub struct ShardCount {
    count: u32,
}

impl View for ShardCount {
    type V = u32;

    closed spec fn view(&self) -> u32 {
        self.count
    }
}

impl ShardCount {
    #[verifier::type_invariant]
    closed spec fn inv(self) -> bool {
        self.count > 0
    }

    /// So many shards.
    pub closed spec fn of(count: u32) -> ShardCount {
        ShardCount { count }
    }

    /// So many shards, unless that is none.
    pub fn new(count: u32) -> (res: Option<ShardCount>)
        ensures
            match res {
                Some(shards) => count > 0 && shards == ShardCount::of(count) && shards@ == count,
                None => count == 0,
            },
    {
        if count == 0 {
            None
        } else {
            Some(ShardCount { count })
        }
    }

    /// The number of shards.
    pub fn get(self) -> (res: u32)
        ensures
            res == self@,
            res > 0,
    {
        proof {
            use_type_invariant(&self);
        }
        self.count
    }
}

/// What a number of shards says.
pub proof fn lemma_shard_count(count: u32)
    ensures
        ShardCount::of(count)@ == count,
{
}

/// The settings that every collection has of its own.
#[derive(Clone, Copy, Debug, PartialEq, Eq, Structural)]
pub struct CollectionParams {
    pub vector_size: usize,
    pub distance: Distance,
    pub shard_number: ShardCount,
    pub on_disk_payload: bool,
}

/// The configuration of a collection.
#[derive(Debug)]
pub struct CollectionConfig {
    pub params: CollectionParams,
    pub wal_config: WalConfig,
    pub optimizer_config: OptimizersConfig,
    pub hnsw_config: HnswConfig,
}

/// What a `CollectionConfig` says.
pub struct CollectionConfigView {
    pub params: CollectionParams,
    pub wal_config: Seq<char>,
    pub optimizer_config: Seq<char>,
    pub hnsw_config: Seq<char>,
}

impl View for CollectionConfig {
    type V = CollectionConfigView;

    open spec fn view(&self) -> CollectionConfigView {
        CollectionConfigView {
            params: self.params,
            wal_config: self.wal_config.settings@,
            optimizer_config: self.optimizer_config.settings@,
            hnsw_config: self.hnsw_config.settings@,
        }
    }
}

impl Clone for CollectionConfig {
    fn clone(&self) -> (res: Self)
        ensures
            res == *self,
    {
        CollectionConfig {
            params: self.params,
            wal_config: self.wal_config.clone(),
            optimizer_config: self.optimizer_config.clone(),
            hnsw_config: self.hnsw_config.clone(),
        }
    }
}

impl CollectionConfig {
    /// Whether two configurations say the same.
    pub fn same(&self, other: &CollectionConfig) -> (res: bool)
        ensures
            res == (self@ == other@),
    {
        self.params == other.params && self.wal_config.settings == other.wal_config.settings
            && self.optimizer_config.settings == other.optimizer_config.settings
            && self.hnsw_config.settings == other.hnsw_config.settings
    }
}

/// The settings of the storage, from which collections take what they do not set.
#[derive(Debug)]
pub struct StorageConfig {
    pub storage_path: String,
    pub on_disk_payload: bool,
    pub optimizers: OptimizersConfig,
    pub wal: WalConfig,
    pub hnsw_index: HnswConfig,
}

impl Clone for StorageConfig {
    fn clone(&self) -> (res: Self)
        ensures
            res == *self,
    {
        StorageConfig {
            storage_path: self.storage_path.clone(),
            on_disk_payload: self.on_disk_payload,
            optimizers: self.optimizers.clone(),
            wal: self.wal.clone(),
            hnsw_index: self.hnsw_index.clone(),
        }
    }
}

/// The directory that holds the collections, within the storage directory.
pub const COLLECTIONS_DIR: &'static str = "collections";

/// The directory that holds the aliases, within the storage directory.
pub const ALIASES_DIR: &'static str = "aliases";

/// A path, as the parts that are joined to it one after the other.
#[derive(Debug)]
pub struct StoragePath {
    pub parts: Vec<String>,
}

impl View for StoragePath {
    type V = Seq<Seq<char>>;

    open spec fn view(&self) -> Seq<Seq<char>> {
        self.parts@.map_values(|part: String| part@)
    }
}

impl StorageConfig {
    /// The parts of the path of the collections.
    pub open spec fn collections_path_parts(self) -> Seq<Seq<char>> {
        seq![self.storage_path@, COLLECTIONS_DIR@]
    }

    /// The parts of the path of the aliases.
    pub open spec fn alias_path_parts(self) -> Seq<Seq<char>> {
        seq![self.storage_path@, ALIASES_DIR@]
    }

    /// The parts of the path of a collection.
    pub open spec fn collection_path_parts(self, collection_name: Seq<char>) -> Seq<Seq<char>> {
        self.collections_path_parts().push(collection_name)
    }

    /// The directory that holds all collections, one directory each.
    pub fn collections_path(&self) -> (res: StoragePath)
        ensures
            res@ == self.collections_path_parts(),
    {
        let mut parts: Vec<String> = Vec::new();
        parts.push(self.storage_path.clone());
        parts.push(COLLECTIONS_DIR.to_owned());
        let res = StoragePath { parts };
        assert(res@ =~= self.collections_path_parts());
        res
    }

    /// The directory in which the aliases are kept.
    pub fn alias_path(&self) -> (res: StoragePath)
        ensures
            res@ == self.alias_path_parts(),
    {
        let mut parts: Vec<String> = Vec::new();
        parts.push(self.storage_path.clone());
        parts.push(ALIASES_DIR.to_owned());
        let res = StoragePath { parts };
        assert(res@ =~= self.alias_path_parts());
        res
    }

    /// The directory of a collection.
    pub fn collection_path(&self, collection_name: &str) -> (res: StoragePath)
        ensures
            res@ == self.collection_path_parts(collection_name@),
    {
        let mut parts = self.collections_path().parts;
        parts.push(collection_name.to_owned());
        let res = StoragePath { parts };
        assert(res@ =~= self.collection_path_parts(collection_name@));
        res
    }
}

} // verus!
