//! The mathematical model of the table of contents.

use crate::config::StorageConfig;
use crate::shard_distribution::PeerId;
use vstd::prelude::*;

verus! {

/// What a table of contents holds: the collections by name, the aliases with the names
/// that they stand for, the settings of the storage, and the peer that it is on.
#[verifier::ext_equal]
pub struct TocView<C> {
    pub collections: Map<Seq<char>, C>,
    pub aliases: Map<Seq<char>, Seq<char>>,
    pub storage_config: StorageConfig,
    pub this_peer_id: PeerId,
}

impl<C> TocView<C> {
    /// Whether there is a collection of that very name.
    pub open spec fn has(self, name: Seq<char>) -> bool {
        self.collections.contains_key(name)
    }

    /// The name that a name stands for. That of a collection stands for itself, whatever the
    /// aliases are; an alias stands for its target; any other name stands for itself.
    pub open spec fn target(self, name: Seq<char>) -> Seq<char> {
        if !self.has(name) && self.aliases.contains_key(name) {
            self.aliases[name]
        } else {
            name
        }
    }

    /// The name of the collection that a name leads to, if there is such a collection.
    pub open spec fn resolve(self, name: Seq<char>) -> Option<Seq<char>> {
        if self.has(self.target(name)) {
            Some(self.target(name))
        } else {
            None
        }
    }

    /// The same with one more collection.
    pub open spec fn with_collection(self, name: Seq<char>, collection: C) -> Self {
        TocView { collections: self.collections.insert(name, collection), ..self }
    }

    /// The same without a collection.
    pub open spec fn without_collection(self, name: Seq<char>) -> Self {
        TocView { collections: self.collections.remove(name), ..self }
    }

    /// The same with other aliases.
    pub open spec fn with_aliases(self, aliases: Map<Seq<char>, Seq<char>>) -> Self {
        TocView { aliases, ..self }
    }

    /// The parts of the path of a collection.
    pub open spec fn path(self, name: Seq<char>) -> Seq<Seq<char>> {
        self.storage_config.collection_path_parts(name)
    }
}

} // verus!
