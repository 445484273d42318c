//! What the calls by which a snapshot is applied come to, told by the snapshot that is handed in and
//! by what the table holds.

use crate::config::StoragePath;
use crate::consensus_state::{CollectionState, CollectionsSnapshot};
use crate::creation::BuildRequest;
use crate::errors::StorageError;
use crate::lookup_laws::lemma_parts;
use crate::model::TocView;
use crate::shard_distribution::{CollectionShardDistribution, PeerId, ShardId};
use crate::snapshot::{begun, snapshot_next, RunView, SnapshotEntry, SnapshotRun, SnapshotStep};
use crate::snapshot_laws::{
    law_applied_snapshot_agrees, law_snapshot_failure, law_snapshot_goes_well, law_snapshot_keeps,
    law_snapshot_run_ends, resumes, went_well, SnapshotEvent,
};
use crate::snapshot_state_laws::{
    concerns, goes_on, is_run, law_applied_snapshot_has_its_states,
    law_run_reaches_its_steps, settled_at, settles, Trace,
};
use crate::toc::TableOfContent;
use vstd::prelude::*;

verus! {

/// To go on with the state of a collection makes a step of the run.
pub proof fn law_state_read_goes_on<C>(
    toc: &mut TableOfContent<C>,
    entry: SnapshotEntry,
    current: CollectionState,
    next: SnapshotStep<C>,
)
    requires
        call_ensures(TableOfContent::<C>::state_read, (toc, entry, current), next),
    ensures
        resumes(
            old(toc)@,
            SnapshotStep::ReadState { entry },
            SnapshotEvent::StateRead(current),
            final(toc)@,
            next,
        ),
{
}

/// To go on once a collection was to get its state makes a step of the run.
pub proof fn law_state_applied_goes_on<C>(
    toc: &mut TableOfContent<C>,
    entry: SnapshotEntry,
    state: CollectionState,
    path: StoragePath,
    outcome: Result<(), StorageError>,
    next: SnapshotStep<C>,
)
    requires
        call_ensures(TableOfContent::<C>::state_applied, (toc, entry, outcome), next),
    ensures
        resumes(
            old(toc)@,
            SnapshotStep::ApplyState { entry, state, path },
            SnapshotEvent::StateApplied(outcome),
            final(toc)@,
            next,
        ),
{
}

/// To go on once a directory was to be made makes a step of the run.
pub proof fn law_directory_created_goes_on<C>(
    toc: &mut TableOfContent<C>,
    entry: SnapshotEntry,
    path: StoragePath,
    outcome: Result<(), String>,
    next: SnapshotStep<C>,
)
    requires
        call_ensures(TableOfContent::<C>::snapshot_directory_created, (toc, entry, outcome), next),
    ensures
        resumes(
            old(toc)@,
            SnapshotStep::CreateDirectory { entry, path },
            SnapshotEvent::DirectoryCreated(outcome),
            final(toc)@,
            next,
        ),
{
}

/// To go on once a collection was to be made makes a step of the run.
pub proof fn law_collection_built_goes_on<C>(
    toc: &mut TableOfContent<C>,
    entry: SnapshotEntry,
    request: BuildRequest,
    outcome: Result<C, StorageError>,
    next: SnapshotStep<C>,
)
    requires
        call_ensures(TableOfContent::<C>::snapshot_collection_built, (toc, entry, outcome), next),
    ensures
        resumes(
            old(toc)@,
            SnapshotStep::Build { entry, request },
            SnapshotEvent::Built(outcome),
            final(toc)@,
            next,
        ),
{
}

/// To go on once a directory was to be removed makes a step of the run.
pub proof fn law_directory_removed_goes_on<C>(
    toc: &mut TableOfContent<C>,
    run: SnapshotRun,
    collection: C,
    collection_name: String,
    path: StoragePath,
    name: &str,
    outcome: Result<(), String>,
    next: SnapshotStep<C>,
)
    requires
        name@ == collection_name@,
        call_ensures(
            TableOfContent::<C>::snapshot_directory_removed,
            (toc, run, name, outcome),
            next,
        ),
    ensures
        resumes(
            old(toc)@,
            SnapshotStep::RemoveDirectory { run, collection, collection_name, path },
            SnapshotEvent::DirectoryRemoved(outcome),
            final(toc)@,
            next,
        ),
{
}

/// To go on once the aliases were to be saved makes a step of the run, and the run is over with
/// what came of it.
pub proof fn law_aliases_saved_goes_on<C>(
    toc: &TableOfContent<C>,
    outcome: Result<(), StorageError>,
    next: SnapshotStep<C>,
)
    requires
        call_ensures(TableOfContent::<C>::snapshot_aliases_saved, (toc, outcome), next),
    ensures
        resumes(
            toc@,
            SnapshotStep::SaveAliases,
            SnapshotEvent::AliasesSaved(outcome),
            toc@,
            next,
        ),
        next == (SnapshotStep::<C>::Finished { result: outcome }),
{
}

/// The name and the state that are read off a step are those that the run has at hand.
pub proof fn law_entry(entry: &SnapshotEntry, name: &String, state: &CollectionState)
    requires
        call_ensures(SnapshotEntry::collection_name, (entry,), name),
        call_ensures(SnapshotEntry::state, (entry,), state),
    ensures
        name@ == entry@.id(),
        entry@.states.contains_key(name@),
        *state == entry@.states[name@],
{
    assert(entry@.ids.to_set().contains(entry@.ids[entry@.index]));
}

/// What a step is about, told by the snapshot and the table that the run began with.
///
/// A collection is read, or gets a state, only if the snapshot has it and it is here; the state is
/// that of the snapshot. It is made only if the snapshot has it and it is not here. It is removed
/// only if the snapshot does not have it, and it is one that was here. Each is done in the
/// directory of its name.
pub open spec fn fits<C>(
    start: TocView<C>,
    states: Map<Seq<char>, CollectionState>,
    toc: TocView<C>,
    step: SnapshotStep<C>,
) -> bool {
    match step {
        SnapshotStep::ReadState { entry } => {
            &&& states.contains_key(entry@.id())
            &&& toc.collections.contains_key(entry@.id())
        },
        SnapshotStep::ApplyState { entry, state, path } => {
            &&& states.contains_key(entry@.id())
            &&& toc.collections.contains_key(entry@.id())
            &&& state@ == states[entry@.id()]@
            &&& in_its_directory(start, entry@.id(), path)
        },
        SnapshotStep::CreateDirectory { entry, path } => {
            &&& states.contains_key(entry@.id())
            &&& !toc.collections.contains_key(entry@.id())
            &&& in_its_directory(start, entry@.id(), path)
        },
        SnapshotStep::Build { entry, request } => {
            &&& states.contains_key(entry@.id())
            &&& !toc.collections.contains_key(entry@.id())
            &&& request.collection_name@ == entry@.id()
            &&& in_its_directory(start, entry@.id(), request.path)
            &&& request.config == states[entry@.id()].config
            &&& request.distribution matches CollectionShardDistribution::Distribution {
                local,
                remote,
            }
            &&& forall|shard: ShardId| #[trigger]
                local@.contains(shard) <==> states[entry@.id()].shard_to_peer@.contains_key(shard)
                    && states[entry@.id()].shard_to_peer@[shard] == start.this_peer_id
            &&& forall|shard: ShardId, peer: PeerId| #[trigger]
                remote@.contains((shard, peer)) <==> states[entry@.id()].shard_to_peer@.contains_key(
                    shard,
                ) && states[entry@.id()].shard_to_peer@[shard] == peer && peer
                    != start.this_peer_id
            &&& local@.no_duplicates()
            &&& remote@.no_duplicates()
        },
        SnapshotStep::RemoveDirectory { collection, collection_name, path, .. } => {
            &&& !states.contains_key(collection_name@)
            &&& start.collections.contains_key(collection_name@)
            &&& collection == start.collections[collection_name@]
            &&& !toc.collections.contains_key(collection_name@)
            &&& in_its_directory(start, collection_name@, path)
        },
        SnapshotStep::SaveAliases => true,
        SnapshotStep::Finished { .. } => true,
    }
}

/// The path is that of the directory of a collection of that name.
pub open spec fn in_its_directory<C>(
    start: TocView<C>,
    name: Seq<char>,
    path: StoragePath,
) -> bool {
    &&& path.parts@.len() == 3
    &&& path.parts@[0]@ == start.storage_config.storage_path@
    &&& path.parts@[1]@ == "collections"@
    &&& path.parts@[2]@ == name
}

/// What is so at every step of a run that began as `begin`.
spec fn fits_run<C>(
    start: TocView<C>,
    begin: RunView,
    toc: TocView<C>,
    step: SnapshotStep<C>,
) -> bool {
    &&& fits(start, begin.states, toc, step)
    &&& toc.storage_config == start.storage_config
    &&& toc.this_peer_id == start.this_peer_id
    &&& forall|name: Seq<char>| #[trigger]
        toc.has(name) && !begin.states.contains_key(name) ==> start.has(name)
            && toc.collections[name] == start.collections[name]
    &&& match step {
        SnapshotStep::ReadState { entry } => at_hand(begin, entry@),
        SnapshotStep::ApplyState { entry, .. } => at_hand(begin, entry@),
        SnapshotStep::CreateDirectory { entry, .. } => at_hand(begin, entry@),
        SnapshotStep::Build { entry, .. } => at_hand(begin, entry@),
        SnapshotStep::RemoveDirectory { run, .. } => {
            &&& run@.ids == begin.ids
            &&& run@.states == begin.states
            &&& run@.index == run@.ids.len()
        },
        _ => true,
    }
}

/// `run` is the run that began as `begin`, with a collection at hand.
spec fn at_hand(begin: RunView, run: RunView) -> bool {
    &&& run.ids == begin.ids
    &&& run.states == begin.states
    &&& 0 <= run.index < run.ids.len()
}

/// A run that is taken up fits.
proof fn lemma_taken_up_fits<C>(
    start: TocView<C>,
    begin: RunView,
    pre: TocView<C>,
    rest: RunView,
    post: TocView<C>,
    step: SnapshotStep<C>,
)
    requires
        begin.wf(),
        rest.ids == begin.ids,
        rest.states == begin.states,
        0 <= rest.index <= rest.ids.len(),
        pre.storage_config == start.storage_config,
        pre.this_peer_id == start.this_peer_id,
        forall|name: Seq<char>| #[trigger]
            pre.has(name) && !begin.states.contains_key(name) ==> start.has(name)
                && pre.collections[name] == start.collections[name],
        snapshot_next(pre, rest, post, step),
    ensures
        fits_run(start, begin, post, step),
{
    if rest.index < rest.ids.len() {
        assert(begin.ids.to_set().contains(begin.ids[rest.index]));
        if let SnapshotStep::CreateDirectory { path, .. } = step {
            lemma_parts(path, start.storage_config, rest.id());
        }
    } else if let SnapshotStep::RemoveDirectory { collection_name, path, .. } = step {
        lemma_parts(path, start.storage_config, collection_name@);
        assert(pre.has(collection_name@));
    }
    assert forall|name: Seq<char>| #[trigger]
        post.has(name) && !begin.states.contains_key(name) implies start.has(name)
        && post.collections[name] == start.collections[name] by {
        assert(pre.has(name));
    }
}

/// Every step of a run fits.
proof fn lemma_fits<C>(start: TocView<C>, begin: RunView, run: Trace<C>, j: int)
    requires
        begin.wf(),
        begin.index == 0,
        is_run(start, begin, run),
        0 <= j <= run.events.len(),
    ensures
        fits_run(start, begin, run.tables[j], run.steps[j]),
    decreases j,
{
    if j == 0 {
        lemma_taken_up_fits(start, begin, start, begin, run.tables[0], run.steps[0]);
    } else {
        lemma_fits(start, begin, run, j - 1);
        let pre = run.tables[j - 1];
        let post = run.tables[j];
        let next = run.steps[j];
        let event = run.events[j - 1];
        assert(resumes(pre, run.steps[j - 1], event, post, next));
        match (run.steps[j - 1], event) {
            (SnapshotStep::ReadState { entry }, SnapshotEvent::StateRead(current)) => {
                if current@ == entry@.state()@ {
                    lemma_taken_up_fits(start, begin, pre, entry@.advanced(), post, next);
                } else if let SnapshotStep::ApplyState { path, .. } = next {
                    lemma_parts(path, start.storage_config, entry@.id());
                }
            },
            (SnapshotStep::ApplyState { entry, .. }, SnapshotEvent::StateApplied(outcome)) => {
                if outcome is Ok {
                    lemma_taken_up_fits(start, begin, pre, entry@.advanced(), post, next);
                }
            },
            (
                SnapshotStep::CreateDirectory { entry, .. },
                SnapshotEvent::DirectoryCreated(outcome),
            ) => {
                if let SnapshotStep::Build { request, .. } = next {
                    lemma_parts(request.path, start.storage_config, entry@.id());
                }
            },
            (SnapshotStep::Build { entry, .. }, SnapshotEvent::Built(outcome)) => {
                if let Ok(collection) = outcome {
                    let mid = pre.with_collection(entry@.id(), collection);
                    assert forall|name: Seq<char>| #[trigger]
                        mid.has(name) && !begin.states.contains_key(name) implies start.has(name)
                        && mid.collections[name] == start.collections[name] by {
                        assert(pre.has(name));
                    }
                    lemma_taken_up_fits(start, begin, mid, entry@.advanced(), post, next);
                }
            },
            (
                SnapshotStep::RemoveDirectory { run: rest, .. },
                SnapshotEvent::DirectoryRemoved(outcome),
            ) => {
                if outcome is Ok {
                    lemma_taken_up_fits(start, begin, pre, rest@, post, next);
                }
            },
            _ => {},
        }
    }
}

/// In a run that ends well every step went well.
proof fn lemma_all_went_well<C>(start: TocView<C>, begin: RunView, run: Trace<C>, i: int)
    requires
        begin.wf(),
        begin.index == 0,
        is_run(start, begin, run),
        run.steps.last() == (SnapshotStep::<C>::Finished { result: Ok(()) }),
        0 <= i < run.events.len(),
    ensures
        went_well(run.events[i]),
{
    law_run_reaches_its_steps(start, begin, run, i);
    law_snapshot_failure(
        start,
        begin,
        run.events.take(i),
        run.tables[i],
        run.steps[i],
        run.events[i],
        run.tables[i + 1],
        run.steps[i + 1],
    );
    if !went_well(run.events[i]) {
        if i + 1 < run.events.len() {
            assert(resumes(
                run.tables[i + 1],
                run.steps[i + 1],
                run.events[i + 1],
                run.tables[i + 2],
                run.steps[i + 2],
            ));
        } else {
            assert(run.steps.last() == run.steps[i + 1]);
        }
    }
}

/// A collection that the snapshot does not have is here, or was to be removed.
proof fn lemma_here_or_removed<C>(
    start: TocView<C>,
    begin: RunView,
    run: Trace<C>,
    name: Seq<char>,
    j: int,
)
    requires
        begin.wf(),
        begin.index == 0,
        is_run(start, begin, run),
        start.has(name),
        !begin.states.contains_key(name),
        0 <= j <= run.events.len(),
    ensures
        run.tables[j].has(name) || exists|i: int|
            0 <= i <= j && removes(#[trigger] run.steps[i], name),
    decreases j,
{
    lemma_fits(start, begin, run, j);
    if j == 0 {
        if !run.tables[0].has(name) {
            assert(removes(run.steps[0], name));
        }
    } else {
        lemma_here_or_removed(start, begin, run, name, j - 1);
        lemma_fits(start, begin, run, j - 1);
        assert(resumes(
            run.tables[j - 1],
            run.steps[j - 1],
            run.events[j - 1],
            run.tables[j],
            run.steps[j],
        ));
        if run.tables[j - 1].has(name) {
            if !run.tables[j].has(name) {
                assert(removes(run.steps[j], name));
            }
        } else {
            let i = choose|i: int| 0 <= i <= j - 1 && removes(#[trigger] run.steps[i], name);
            assert(removes(run.steps[i], name));
        }
    }
}

/// The step asks that the collection of that name be ended and its directory be removed.
pub open spec fn removes<C>(step: SnapshotStep<C>, name: Seq<char>) -> bool {
    step matches SnapshotStep::RemoveDirectory { collection_name, .. } && collection_name@ == name
}

/// To apply a snapshot, to the end. When the run is over with `Ok`, the names in the table are
/// exactly those in the snapshot that was handed in, and the aliases are its aliases. Each of its
/// collections, from the first to the last, was found in the state that the snapshot has for it,
/// or was given that state, or was made with it; no later step is about it, and it is the one in
/// the table. The settings and the peer stay.
pub proof fn law_apply_collections_snapshot<C>(
    toc: &mut TableOfContent<C>,
    data: CollectionsSnapshot,
    run: Trace<C>,
    name: Seq<char>,
)
    requires
        goes_on(run),
        call_ensures(
            TableOfContent::<C>::apply_collections_snapshot,
            (toc, data),
            run.steps[0],
        ),
        run.tables[0] == final(toc)@,
        run.steps.last() == (SnapshotStep::<C>::Finished { result: Ok(()) }),
    ensures
        run.tables.last().collections.contains_key(name) <==> data.collections@.contains_key(name),
        run.tables.last().aliases == data.aliases@,
        run.tables.last().storage_config == old(toc)@.storage_config,
        run.tables.last().this_peer_id == old(toc)@.this_peer_id,
        data.collections@.contains_key(name) ==> exists|i: int|
            0 <= i < run.events.len() && settles(
                old(toc)@,
                name,
                data.collections@[name],
                #[trigger] run.steps[i],
                run.events[i],
                run.tables.last(),
            ) && forall|k: int| i < k < run.steps.len() ==> !concerns(#[trigger] run.steps[k], name),
{
    let start = old(toc)@;
    let begin = begun(data);
    let last = run.events.len() as int;
    law_run_reaches_its_steps(start, begin, run, last);
    assert(run.events.take(last) =~= run.events);
    law_applied_snapshot_agrees(start, begin, run.events, run.tables[last], run.steps[last]);
    law_snapshot_keeps(start, begin, run.events, run.tables[last], run.steps[last]);
    assert(run.tables.last() == run.tables[last] && run.steps.last() == run.steps[last]);
    assert(run.tables.last().collections.dom().contains(name)
        == data.collections@.dom().contains(name));
    if data.collections@.contains_key(name) {
        law_applied_snapshot_has_its_states(start, begin, run, name);
        let i = choose|i: int| settled_at(start, begin, run, name, i, last);
        assert(settles(
            start,
            name,
            data.collections@[name],
            run.steps[i],
            run.events[i],
            run.tables.last(),
        ));
    }
}

/// At every step of a run, whatever came of those before, what is asked for fits the snapshot that
/// was handed in and the table that the run began with. The settings and the peer stay. The
/// aliases are those from before as long as collections are read, changed, made or removed, and
/// those of the snapshot when they are to be saved; then the names are those of the snapshot, too.
pub proof fn law_steps_fit_the_snapshot<C>(
    toc: &mut TableOfContent<C>,
    data: CollectionsSnapshot,
    run: Trace<C>,
    j: int,
)
    requires
        goes_on(run),
        call_ensures(
            TableOfContent::<C>::apply_collections_snapshot,
            (toc, data),
            run.steps[0],
        ),
        run.tables[0] == final(toc)@,
        0 <= j <= run.events.len(),
    ensures
        fits(old(toc)@, data.collections@, run.tables[j], run.steps[j]),
        run.tables[j].storage_config == old(toc)@.storage_config,
        run.tables[j].this_peer_id == old(toc)@.this_peer_id,
        !(run.steps[j] is SaveAliases) && !(run.steps[j] is Finished) ==> run.tables[j].aliases
            == old(toc)@.aliases,
        run.steps[j] is SaveAliases ==> run.tables[j].aliases == data.aliases@
            && run.tables[j].collections.dom() == data.collections@.dom(),
{
    lemma_fits(old(toc)@, begun(data), run, j);
    law_run_reaches_its_steps(old(toc)@, begun(data), run, j);
    law_snapshot_keeps(
        old(toc)@,
        begun(data),
        run.events.take(j),
        run.tables[j],
        run.steps[j],
    );
}

/// What leads to what. A collection gets a state only right after it was found in another one, and
/// then it always does. It is made right after its directory was made. One that was found in its
/// state, got it, or was made, is done with.
pub proof fn law_what_leads_to_what<C>(
    pre: TocView<C>,
    step: SnapshotStep<C>,
    event: SnapshotEvent<C>,
    post: TocView<C>,
    next: SnapshotStep<C>,
)
    requires
        resumes(pre, step, event, post, next),
    ensures
        next matches SnapshotStep::ApplyState { entry: e, .. } ==> (
        step matches SnapshotStep::ReadState { entry } && entry@ == e@ && (
        event matches SnapshotEvent::StateRead(current) && current@ != entry@.states[entry@.id()]@)),
        (step matches SnapshotStep::ReadState { entry } && (
        event matches SnapshotEvent::StateRead(current) && current@ != entry@.states[entry@.id()]@))
            ==> next is ApplyState,
        next matches SnapshotStep::Build { entry: e, .. } ==> (
        step matches SnapshotStep::CreateDirectory { entry, .. } && entry@ == e@ && (
        event matches SnapshotEvent::DirectoryCreated(Ok(_)))),
        event matches SnapshotEvent::DirectoryCreated(Ok(_)) ==> next is Build,
        next is ApplyState || next is Build ==> post == pre,
{
}

/// A collection that was here and that the snapshot does not have was removed, once a run is over
/// with `Ok`.
proof fn lemma_removed<C>(start: TocView<C>, begin: RunView, run: Trace<C>, name: Seq<char>) -> (i:
    int)
    requires
        begin.wf(),
        begin.index == 0,
        is_run(start, begin, run),
        run.steps.last() == (SnapshotStep::<C>::Finished { result: Ok(()) }),
        start.has(name),
        !begin.states.contains_key(name),
    ensures
        0 <= i < run.events.len(),
        removes(run.steps[i], name),
        run.events[i] matches SnapshotEvent::DirectoryRemoved(Ok(_)),
{
    let last = run.events.len() as int;
    assert(run.steps.last() == run.steps[last]);
    assert(!run.tables[last].has(name)) by {
        law_run_reaches_its_steps(start, begin, run, last);
        assert(run.events.take(last) =~= run.events);
        law_applied_snapshot_agrees(start, begin, run.events, run.tables[last], run.steps[last]);
        assert(!run.tables[last].collections.dom().contains(name));
    }
    lemma_here_or_removed(start, begin, run, name, last);
    let i = choose|i: int| 0 <= i <= last && removes(#[trigger] run.steps[i], name);
    lemma_all_went_well(start, begin, run, i);
    assert(resumes(
        run.tables[i],
        run.steps[i],
        run.events[i],
        run.tables[i + 1],
        run.steps[i + 1],
    ));
    i
}

/// Every collection that was here and that the snapshot does not have is to be ended, and its
/// directory to be removed, before a run is over with `Ok`, and that goes well.
pub proof fn law_surplus_is_removed<C>(
    toc: &mut TableOfContent<C>,
    data: CollectionsSnapshot,
    run: Trace<C>,
    name: Seq<char>,
)
    requires
        goes_on(run),
        call_ensures(
            TableOfContent::<C>::apply_collections_snapshot,
            (toc, data),
            run.steps[0],
        ),
        run.tables[0] == final(toc)@,
        run.steps.last() == (SnapshotStep::<C>::Finished { result: Ok(()) }),
        old(toc)@.collections.contains_key(name),
        !data.collections@.contains_key(name),
    ensures
        exists|i: int|
            0 <= i < run.events.len() && removes(#[trigger] run.steps[i], name) && (
            run.events[i] matches SnapshotEvent::DirectoryRemoved(Ok(_))),
{
    let i = lemma_removed(old(toc)@, begun(data), run, name);
    assert(removes(run.steps[i], name));
}

/// A run of a snapshot comes to an end: at most two things come of the steps about each of its
/// collections, one of those about each collection that it does not have, and one of saving the
/// aliases. If all of them go well, it is over with `Ok` when it is over.
pub proof fn law_apply_comes_to_an_end<C>(
    toc: &mut TableOfContent<C>,
    data: CollectionsSnapshot,
    run: Trace<C>,
)
    requires
        goes_on(run),
        call_ensures(
            TableOfContent::<C>::apply_collections_snapshot,
            (toc, data),
            run.steps[0],
        ),
        run.tables[0] == final(toc)@,
        old(toc)@.collections.dom().finite(),
    ensures
        run.events.len() <= 2 * data.collections@.dom().len() + old(
            toc,
        )@.collections.dom().difference(data.collections@.dom()).len() + 1,
        (forall|i: int| 0 <= i < run.events.len() ==> went_well(#[trigger] run.events[i])) ==> (
        run.steps.last() matches SnapshotStep::Finished { result } ==> result is Ok),
{
    let start = old(toc)@;
    let begin = begun(data);
    let last = run.events.len() as int;
    law_run_reaches_its_steps(start, begin, run, last);
    assert(run.events.take(last) =~= run.events);
    assert(run.steps.last() == run.steps[last]);
    law_snapshot_run_ends(start, begin, run.events, run.tables[last], run.steps[last]);
    begin.ids.unique_seq_to_set();
    if forall|i: int| 0 <= i < run.events.len() ==> went_well(#[trigger] run.events[i]) {
        law_snapshot_goes_well(start, begin, run.events, run.tables[last], run.steps[last]);
    }
}

} // verus!
