//! What holds of the table and of what is kept on disk, over any number of operations.
//!
//! A directory is known by the parts of its path. So what is said here is said of collections
//! whose names are plain names of files.

use crate::alias_changes::{after_save, aliases_changed, AliasStep};
use crate::alias_laws::law_alias_changes_keep_collections;
use crate::assoc_map::{entries_map, lemma_entries_dom};
use crate::creation::{
    collection_added, directory_settled, draft_of, BuildRequest, ConfigStep, DirectoryRequest,
};
use crate::creation_laws::{law_settings_of_a_new_collection, settle, CreationOutcomes};
use crate::errors::StorageError;
use crate::laws::law_paths_are_distinct;
use crate::meta_ops::{
    deletion_begins, deletion_ends, operation_begins, DeletionStep, MetaOpStep,
};
use crate::model::TocView;
use crate::operations::{AliasOperations, CollectionMetaOperations};
use vstd::prelude::*;

verus! {

/// A table, with the directories that were made for its collections and not removed since, and
/// with the aliases as they were last saved.
pub struct StorageView<C> {
    pub toc: TocView<C>,
    pub directories: Set<Seq<Seq<char>>>,
    pub saved_aliases: Map<Seq<char>, Seq<char>>,
}

/// On disk there is a directory for each collection of the table and for nothing else, and the
/// aliases are saved as they are.
pub open spec fn kept<C>(storage: StorageView<C>) -> bool {
    &&& forall|path: Seq<Seq<char>>| #[trigger]
        storage.directories.contains(path) <==> exists|name: Seq<char>| #[trigger]
            storage.toc.has(name) && path == storage.toc.path(name)
    &&& storage.saved_aliases == storage.toc.aliases
}

/// The steps by which the collection whose directory was asked for is made and added to the table,
/// when nothing is amiss.
pub open spec fn creation_steps<C>(
    pre: TocView<C>,
    request: DirectoryRequest,
    step: ConfigStep,
    build: BuildRequest,
    outcomes: CreationOutcomes<C>,
    post: TocView<C>,
) -> bool {
    &&& directory_settled(pre.storage_config, request, outcomes.directory, Ok(step))
    &&& settle(
        pre.storage_config,
        step,
        outcomes.wal,
        outcomes.optimizers,
        outcomes.hnsw,
    ) == Some(Ok::<BuildRequest, StorageError>(build))
    &&& collection_added(pre, build.collection_name@, outcomes.built, post, Ok(true))
}

/// The collection whose directory was asked for is made in it and added to the table.
pub open spec fn creation_goes_well<C>(
    pre: StorageView<C>,
    request: DirectoryRequest,
    post: StorageView<C>,
) -> bool {
    &&& exists|step: ConfigStep, build: BuildRequest, outcomes: CreationOutcomes<C>| #[trigger]
        creation_steps(pre.toc, request, step, build, outcomes, post.toc)
    &&& post.directories == pre.directories.insert(request.path@)
    &&& post.saved_aliases == pre.saved_aliases
}

/// The collection of that name is taken out of the table and its directory is removed, or there
/// is none.
pub open spec fn deletion_goes_well<C>(
    pre: StorageView<C>,
    name: Seq<char>,
    post: StorageView<C>,
) -> bool {
    &&& exists|step: DeletionStep<C>|
        {
            &&& #[trigger] deletion_begins(pre.toc, name, post.toc, step)
            &&& match step {
                DeletionStep::RemoveDirectory { collection_name, path, .. } => {
                    &&& deletion_ends(collection_name@, Ok(()), Ok(true))
                    &&& post.directories == pre.directories.remove(path@)
                },
                DeletionStep::Finished(result) => {
                    &&& result is Ok
                    &&& post.directories == pre.directories
                },
            }
        }
    &&& post.saved_aliases == pre.saved_aliases
}

/// The changes of aliases are made, and the aliases of the table are saved.
pub open spec fn alias_changes_go_well<C>(
    pre: StorageView<C>,
    actions: Seq<AliasOperations>,
    post: StorageView<C>,
) -> bool {
    &&& exists|mid: TocView<C>, step: AliasStep|
        {
            &&& #[trigger] aliases_changed(pre.toc, actions, mid, step)
            &&& match step {
                AliasStep::Save(changes) => {
                    &&& after_save(
                        mid,
                        changes@,
                        Ok(()),
                        post.toc,
                        AliasStep::Finished(Ok(true)),
                    )
                    &&& post.saved_aliases == mid.aliases
                },
                AliasStep::Finished(result) => {
                    &&& result is Ok
                    &&& post.toc == mid
                    &&& post.saved_aliases == pre.saved_aliases
                },
            }
        }
    &&& post.directories == pre.directories
}

/// An operation that begins with `step` is answered with `Ok`, and all that it asks for is done.
pub open spec fn step_goes_well<C>(
    pre: StorageView<C>,
    step: MetaOpStep<'_, C>,
    post: StorageView<C>,
) -> bool {
    match step {
        MetaOpStep::CreateDirectory(request) => creation_goes_well(pre, request, post),
        MetaOpStep::UpdateOptimizers { .. } => post == pre,
        MetaOpStep::DeleteCollection { collection_name } => deletion_goes_well(
            pre,
            collection_name@,
            post,
        ),
        MetaOpStep::ChangeAliases(operation) => alias_changes_go_well(
            pre,
            operation.actions@,
            post,
        ),
        MetaOpStep::Finished(result) => result is Ok && post == pre,
    }
}

/// The operations lead from `start` to `now`, one after the other, and all of them go well.
pub open spec fn all_go_well<C>(
    start: StorageView<C>,
    operations: Seq<CollectionMetaOperations>,
    now: StorageView<C>,
) -> bool
    decreases operations.len(),
{
    if operations.len() == 0 {
        now == start
    } else {
        exists|pre: StorageView<C>, step: MetaOpStep<'_, C>|
            {
                &&& operation_begins(pre.toc, operations.last(), step)
                &&& #[trigger] step_goes_well(pre, step, now)
                &&& all_go_well(start, operations.drop_last(), pre)
            }
    }
}

/// The table that is made when the storage is opened again: of the collections that are loaded
/// from the directories, each with the name of its directory, and of the aliases that were saved.
pub open spec fn reopened<C>(storage: StorageView<C>, loaded: Seq<(String, C)>) -> TocView<C> {
    TocView {
        collections: entries_map(loaded),
        aliases: storage.saved_aliases,
        storage_config: storage.toc.storage_config,
        this_peer_id: storage.toc.this_peer_id,
    }
}

/// `loaded` has a collection for each of the directories in the directory of collections.
pub open spec fn loads_all<C>(storage: StorageView<C>, loaded: Seq<(String, C)>) -> bool {
    forall|name: Seq<char>| #[trigger]
        storage.directories.contains(storage.toc.path(name)) <==> exists|i: int|
            0 <= i < loaded.len() && #[trigger] loaded[i].0@ == name
}

/// A new collection and its directory belong together.
proof fn lemma_creation_keeps<C>(
    pre: StorageView<C>,
    request: DirectoryRequest,
    post: StorageView<C>,
)
    requires
        kept(pre),
        request.path@ == pre.toc.path(request.collection_name@),
        creation_goes_well(pre, request, post),
    ensures
        kept(post),
        post.toc.storage_config == pre.toc.storage_config,
        post.toc.this_peer_id == pre.toc.this_peer_id,
{
    let name = request.collection_name@;
    let (step, build, outcomes) = choose|
        step: ConfigStep,
        build: BuildRequest,
        outcomes: CreationOutcomes<C>,
    | #[trigger]
        creation_steps(pre.toc, request, step, build, outcomes, post.toc);
    law_settings_of_a_new_collection(
        pre.toc.storage_config,
        draft_of(request, pre.toc.storage_config),
        request.operation,
        outcomes.wal,
        outcomes.optimizers,
        outcomes.hnsw,
    );
    assert(build.collection_name@ == name);
    assert forall|path: Seq<Seq<char>>| #[trigger]
        post.directories.contains(path) <==> exists|other: Seq<char>| #[trigger]
            post.toc.has(other) && path == post.toc.path(other) by {
        if post.directories.contains(path) {
            if path == request.path@ {
                assert(post.toc.has(name) && path == post.toc.path(name));
            } else {
                let other = choose|other: Seq<char>| #[trigger]
                    pre.toc.has(other) && path == pre.toc.path(other);
                assert(post.toc.has(other) && path == post.toc.path(other));
            }
        }
        if exists|other: Seq<char>| #[trigger]
            post.toc.has(other) && path == post.toc.path(other) {
            let other = choose|other: Seq<char>| #[trigger]
                post.toc.has(other) && path == post.toc.path(other);
            if other != name {
                assert(pre.toc.has(other) && path == pre.toc.path(other));
            }
        }
    }
}

/// A deleted collection and its directory go together.
proof fn lemma_deletion_keeps<C>(pre: StorageView<C>, name: Seq<char>, post: StorageView<C>)
    requires
        kept(pre),
        deletion_goes_well(pre, name, post),
    ensures
        kept(post),
        post.toc.storage_config == pre.toc.storage_config,
        post.toc.this_peer_id == pre.toc.this_peer_id,
{
    if pre.toc.has(name) {
        let gone = pre.toc.path(name);
        assert(post.directories == pre.directories.remove(gone));
        assert forall|path: Seq<Seq<char>>| #[trigger]
            post.directories.contains(path) <==> exists|other: Seq<char>| #[trigger]
                post.toc.has(other) && path == post.toc.path(other) by {
            if post.directories.contains(path) {
                assert(pre.directories.contains(path));
                let other = choose|other: Seq<char>| #[trigger]
                    pre.toc.has(other) && path == pre.toc.path(other);
                assert(post.toc.has(other) && path == post.toc.path(other));
            }
            if exists|other: Seq<char>| #[trigger]
                post.toc.has(other) && path == post.toc.path(other) {
                let other = choose|other: Seq<char>| #[trigger]
                    post.toc.has(other) && path == post.toc.path(other);
                assert(pre.toc.has(other) && path == pre.toc.path(other));
                law_paths_are_distinct(pre.toc.storage_config, other, name);
            }
        }
    }
}

/// Changed aliases are saved.
proof fn lemma_alias_changes_keep<C>(
    pre: StorageView<C>,
    actions: Seq<AliasOperations>,
    post: StorageView<C>,
)
    requires
        kept(pre),
        alias_changes_go_well(pre, actions, post),
    ensures
        kept(post),
        post.toc.storage_config == pre.toc.storage_config,
        post.toc.this_peer_id == pre.toc.this_peer_id,
{
    law_alias_changes_keep_collections(pre.toc, actions, actions.len() as int);
    assert(post.toc.collections == pre.toc.collections);
    assert(post.toc.storage_config == pre.toc.storage_config);
    assert forall|path: Seq<Seq<char>>| #[trigger]
        post.directories.contains(path) <==> exists|other: Seq<char>| #[trigger]
            post.toc.has(other) && path == post.toc.path(other) by {
        assert(forall|other: Seq<char>| #[trigger] post.toc.has(other) == pre.toc.has(other));
        if post.directories.contains(path) {
            let other = choose|other: Seq<char>| #[trigger]
                pre.toc.has(other) && path == pre.toc.path(other);
            assert(post.toc.has(other) && path == post.toc.path(other));
        }
        if exists|other: Seq<char>| #[trigger]
            post.toc.has(other) && path == post.toc.path(other) {
            let other = choose|other: Seq<char>| #[trigger]
                post.toc.has(other) && path == post.toc.path(other);
            assert(pre.toc.has(other) && path == pre.toc.path(other));
        }
    }
}

/// An operation that goes well keeps table and disk together.
proof fn lemma_operation_keeps<C>(
    pre: StorageView<C>,
    operation: CollectionMetaOperations,
    step: MetaOpStep<'_, C>,
    post: StorageView<C>,
)
    requires
        kept(pre),
        operation_begins(pre.toc, operation, step),
        step_goes_well(pre, step, post),
    ensures
        kept(post),
        post.toc.storage_config == pre.toc.storage_config,
        post.toc.this_peer_id == pre.toc.this_peer_id,
{
    match step {
        MetaOpStep::CreateDirectory(request) => {
            lemma_creation_keeps(pre, request, post);
        },
        MetaOpStep::DeleteCollection { collection_name } => {
            lemma_deletion_keeps(pre, collection_name@, post);
        },
        MetaOpStep::ChangeAliases(change) => {
            lemma_alias_changes_keep(pre, change.actions@, post);
        },
        _ => {},
    }
}

/// A storage that was just opened is kept, be it new and empty or opened again: its table has a
/// collection for each directory, and the aliases that were saved.
pub proof fn law_opened_storage_is_kept<C>(storage: StorageView<C>, loaded: Seq<(String, C)>)
    requires
        forall|path: Seq<Seq<char>>| #[trigger]
            storage.directories.contains(path) ==> exists|name: Seq<char>|
                path == #[trigger] storage.toc.path(name),
        loads_all(storage, loaded),
    ensures
        kept(StorageView { toc: reopened(storage, loaded), ..storage }),
{
    let opened = StorageView { toc: reopened(storage, loaded), ..storage };
    assert forall|path: Seq<Seq<char>>| #[trigger]
        opened.directories.contains(path) <==> exists|name: Seq<char>| #[trigger]
            opened.toc.has(name) && path == opened.toc.path(name) by {
        if storage.directories.contains(path) {
            let name = choose|name: Seq<char>| path == #[trigger] storage.toc.path(name);
            lemma_entries_dom(loaded, name);
            assert(opened.toc.has(name) && path == opened.toc.path(name));
        }
        if exists|name: Seq<char>| #[trigger]
            opened.toc.has(name) && path == opened.toc.path(name) {
            let name = choose|name: Seq<char>| #[trigger]
                opened.toc.has(name) && path == opened.toc.path(name);
            lemma_entries_dom(loaded, name);
            assert(storage.directories.contains(storage.toc.path(name)));
        }
    }
}

/// After any number of operations that all go well there is a directory for each collection of
/// the table and for nothing else, and the aliases are saved as they are, if that was so before.
pub proof fn law_operations_are_kept<C>(
    start: StorageView<C>,
    operations: Seq<CollectionMetaOperations>,
    now: StorageView<C>,
)
    requires
        kept(start),
        all_go_well(start, operations, now),
    ensures
        kept(now),
        now.toc.storage_config == start.toc.storage_config,
        now.toc.this_peer_id == start.toc.this_peer_id,
    decreases operations.len(),
{
    if operations.len() > 0 {
        let (pre, step) = choose|pre: StorageView<C>, step: MetaOpStep<'_, C>|
            {
                &&& operation_begins(pre.toc, operations.last(), step)
                &&& #[trigger] step_goes_well(pre, step, now)
                &&& all_go_well(start, operations.drop_last(), pre)
            };
        law_operations_are_kept(start, operations.drop_last(), pre);
        lemma_operation_keeps(pre, operations.last(), step, now);
    }
}

/// Collections and aliases survive a restart, and what was deleted does not come back. After any
/// number of operations that all go well, the table that is made when the storage is opened again
/// has the same names of collections and the same aliases, so that every name leads where it led.
pub proof fn law_restart<C>(
    start: StorageView<C>,
    operations: Seq<CollectionMetaOperations>,
    now: StorageView<C>,
    loaded: Seq<(String, C)>,
)
    requires
        kept(start),
        all_go_well(start, operations, now),
        loads_all(now, loaded),
    ensures
        reopened(now, loaded).collections.dom() == now.toc.collections.dom(),
        reopened(now, loaded).aliases == now.toc.aliases,
        forall|name: Seq<char>| #[trigger]
            reopened(now, loaded).resolve(name) == now.toc.resolve(name),
{
    law_operations_are_kept(start, operations, now);
    let again = reopened(now, loaded);
    assert forall|name: Seq<char>| #[trigger] again.has(name) == now.toc.has(name) by {
        lemma_entries_dom(loaded, name);
        let path = now.toc.path(name);
        assert(again.has(name) <==> now.directories.contains(path));
        if now.toc.has(name) {
            assert(now.directories.contains(path));
        }
        if now.directories.contains(path) {
            let other = choose|other: Seq<char>| #[trigger]
                now.toc.has(other) && path == now.toc.path(other);
            law_paths_are_distinct(now.toc.storage_config, other, name);
        }
    }
    assert forall|name: Seq<char>| again.collections.dom().contains(name)
        == now.toc.collections.dom().contains(name) by {
        assert(again.has(name) == now.toc.has(name));
    }
    assert(again.collections.dom() =~= now.toc.collections.dom());
}

} // verus!
