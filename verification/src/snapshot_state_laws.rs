//! What a run of a snapshot does to each collection, step by step.

use crate::consensus_state::CollectionState;
use crate::model::TocView;
use crate::shard_distribution::{splits, CollectionShardDistribution};
use crate::snapshot::{snapshot_next, RunView, SnapshotStep};
use crate::snapshot_laws::{reaches, resumes, SnapshotEvent};
use vstd::prelude::*;

verus! {

/// A run, written out: its steps, with the table at each of them, and what came of each step but
/// the last.
pub struct Trace<C> {
    pub tables: Seq<TocView<C>>,
    pub steps: Seq<SnapshotStep<C>>,
    pub events: Seq<SnapshotEvent<C>>,
}

/// Each step of the run follows on the one before it.
pub open spec fn goes_on<C>(run: Trace<C>) -> bool {
    &&& run.tables.len() == run.events.len() + 1
    &&& run.steps.len() == run.events.len() + 1
    &&& forall|i: int|
        #![trigger run.events[i]]
        0 <= i < run.events.len() ==> resumes(
            run.tables[i],
            run.steps[i],
            run.events[i],
            run.tables[i + 1],
            run.steps[i + 1],
        )
}

/// The run begins on the table `start`, and each step follows on the one before it.
pub open spec fn is_run<C>(start: TocView<C>, begin: RunView, run: Trace<C>) -> bool {
    &&& snapshot_next(start, begin, run.tables[0], run.steps[0])
    &&& goes_on(run)
}

/// What came of the steps leads to the steps of the run, and to its tables.
pub proof fn law_run_reaches_its_steps<C>(start: TocView<C>, begin: RunView, run: Trace<C>, i: int)
    requires
        is_run(start, begin, run),
        0 <= i <= run.events.len(),
    ensures
        reaches(start, begin, run.events.take(i), run.tables[i], run.steps[i]),
    decreases i,
{
    let events = run.events.take(i);
    if i > 0 {
        law_run_reaches_its_steps(start, begin, run, i - 1);
        assert(events.drop_last() =~= run.events.take(i - 1));
        assert(events.last() == run.events[i - 1]);
        assert(resumes(
            run.tables[i - 1],
            run.steps[i - 1],
            events.last(),
            run.tables[i],
            run.steps[i],
        ));
    }
}

/// The step is about the collection of that name.
pub open spec fn concerns<C>(step: SnapshotStep<C>, name: Seq<char>) -> bool {
    match step {
        SnapshotStep::ReadState { entry } => entry@.id() == name,
        SnapshotStep::ApplyState { entry, .. } => entry@.id() == name,
        SnapshotStep::CreateDirectory { entry, .. } => entry@.id() == name,
        SnapshotStep::Build { entry, .. } => entry@.id() == name,
        SnapshotStep::RemoveDirectory { collection_name, .. } => collection_name@ == name,
        SnapshotStep::SaveAliases => false,
        SnapshotStep::Finished { .. } => false,
    }
}

/// The step that asks for a collection of that name, in its directory, with the configuration that
/// `state` has, and with the shards that it puts on this peer.
pub open spec fn builds<C>(
    start: TocView<C>,
    name: Seq<char>,
    state: CollectionState,
    step: SnapshotStep<C>,
) -> bool {
    &&& step matches SnapshotStep::Build { entry, request }
    &&& entry@.id() == name
    &&& request.collection_name@ == name
    &&& request.path@ == start.path(name)
    &&& request.config == state.config
    &&& request.distribution matches CollectionShardDistribution::Distribution { local, remote }
    &&& splits(state.shard_to_peer@, start.this_peer_id, local@, remote@)
}

/// With this step and what came of it the collection of that name is in the state `state`: it was
/// here and was found in that state, or it was here and got that state, or it was not here and was
/// made accordingly. In `toc` it is still the same one.
pub open spec fn settles<C>(
    start: TocView<C>,
    name: Seq<char>,
    state: CollectionState,
    step: SnapshotStep<C>,
    event: SnapshotEvent<C>,
    toc: TocView<C>,
) -> bool {
    &&& toc.has(name)
    &&& match (step, event) {
        (SnapshotStep::ReadState { entry }, SnapshotEvent::StateRead(current)) => {
            &&& entry@.id() == name
            &&& current@ == state@
            &&& start.has(name)
            &&& toc.collections[name] == start.collections[name]
        },
        (
            SnapshotStep::ApplyState { entry, state: applied, path },
            SnapshotEvent::StateApplied(outcome),
        ) => {
            &&& entry@.id() == name
            &&& applied@ == state@
            &&& path@ == start.path(name)
            &&& outcome is Ok
            &&& start.has(name)
            &&& toc.collections[name] == start.collections[name]
        },
        (SnapshotStep::Build { .. }, SnapshotEvent::Built(outcome)) => {
            &&& builds(start, name, state, step)
            &&& !start.has(name)
            &&& outcome matches Ok(collection) && toc.collections[name] == collection
        },
        _ => false,
    }
}

/// At its step `j` the run has settled the state of the collection at its step `i`, and no step
/// from there on was about that collection.
pub open spec fn settled_at<C>(
    start: TocView<C>,
    begin: RunView,
    run: Trace<C>,
    name: Seq<char>,
    i: int,
    j: int,
) -> bool {
    &&& 0 <= i < j
    &&& settles(start, name, begin.states[name], run.steps[i], run.events[i], run.tables[j])
    &&& forall|k: int| i < k <= j ==> !concerns(#[trigger] run.steps[k], name)
}

/// `run` is the run that began as `begin`, with a collection at hand.
spec fn at_hand(begin: RunView, run: RunView) -> bool {
    &&& run.ids == begin.ids
    &&& run.states == begin.states
    &&& run.aliases == begin.aliases
    &&& 0 <= run.index < run.ids.len()
}

/// The collection of that name is what it was before the run, or is not here as before.
spec fn untouched<C>(start: TocView<C>, toc: TocView<C>, name: Seq<char>) -> bool {
    &&& toc.has(name) == start.has(name)
    &&& start.has(name) ==> toc.collections[name] == start.collections[name]
}

/// The run has settled the state of the collection.
spec fn is_settled<C>(
    start: TocView<C>,
    begin: RunView,
    run: Trace<C>,
    name: Seq<char>,
    j: int,
) -> bool {
    exists|i: int| settled_at(start, begin, run, name, i, j)
}

/// How far the run is with the collection that is the `n`th of the snapshot.
spec fn progress<C>(start: TocView<C>, begin: RunView, run: Trace<C>, n: int, j: int) -> bool {
    let name = begin.ids[n];
    let toc = run.tables[j];
    &&& toc.storage_config == start.storage_config
    &&& toc.this_peer_id == start.this_peer_id
    &&& match run.steps[j] {
        SnapshotStep::ReadState { entry } => {
            &&& at_hand(begin, entry@)
            &&& toc.has(entry@.id())
            &&& entry@.index <= n ==> untouched(start, toc, name)
            &&& n < entry@.index ==> is_settled(start, begin, run, name, j)
        },
        SnapshotStep::ApplyState { entry, state, path } => {
            &&& at_hand(begin, entry@)
            &&& toc.has(entry@.id())
            &&& state@ == entry@.state()@
            &&& path@ == start.path(entry@.id())
            &&& entry@.index <= n ==> untouched(start, toc, name)
            &&& n < entry@.index ==> is_settled(start, begin, run, name, j)
        },
        SnapshotStep::CreateDirectory { entry, .. } => {
            &&& at_hand(begin, entry@)
            &&& !toc.has(entry@.id())
            &&& entry@.index <= n ==> untouched(start, toc, name)
            &&& n < entry@.index ==> is_settled(start, begin, run, name, j)
        },
        SnapshotStep::Build { entry, .. } => {
            &&& at_hand(begin, entry@)
            &&& !toc.has(entry@.id())
            &&& builds(start, entry@.id(), entry@.state(), run.steps[j])
            &&& entry@.index <= n ==> untouched(start, toc, name)
            &&& n < entry@.index ==> is_settled(start, begin, run, name, j)
        },
        SnapshotStep::RemoveDirectory { run: rest, .. } => {
            &&& rest@.ids == begin.ids
            &&& rest@.states == begin.states
            &&& rest@.aliases == begin.aliases
            &&& rest@.index == begin.ids.len()
            &&& is_settled(start, begin, run, name, j)
        },
        SnapshotStep::SaveAliases => is_settled(start, begin, run, name, j),
        SnapshotStep::Finished { result } => result is Ok ==> is_settled(
            start,
            begin,
            run,
            name,
            j,
        ),
    }
}

/// A collection whose state is settled stays so over a step that is not about it.
proof fn lemma_stays_settled<C>(
    start: TocView<C>,
    begin: RunView,
    run: Trace<C>,
    name: Seq<char>,
    j: int,
)
    requires
        is_settled(start, begin, run, name, j),
        run.tables[j].has(name) ==> run.tables[j + 1].has(name) && run.tables[j
            + 1].collections[name] == run.tables[j].collections[name],
        !concerns(run.steps[j + 1], name),
    ensures
        is_settled(start, begin, run, name, j + 1),
{
    let i = choose|i: int| settled_at(start, begin, run, name, i, j);
    assert(settled_at(start, begin, run, name, i, j + 1));
}

/// Where a run stands that is taken up at `rest`, on a table `pre` on which the collections before
/// that point are settled.
proof fn lemma_taken_up<C>(
    start: TocView<C>,
    begin: RunView,
    run: Trace<C>,
    n: int,
    pre: TocView<C>,
    rest: RunView,
    j: int,
)
    requires
        begin.wf(),
        0 <= n < begin.ids.len(),
        rest.ids == begin.ids,
        rest.states == begin.states,
        rest.aliases == begin.aliases,
        0 <= rest.index <= rest.ids.len(),
        pre.storage_config == start.storage_config,
        pre.this_peer_id == start.this_peer_id,
        snapshot_next(pre, rest, run.tables[j], run.steps[j]),
        rest.index <= n ==> untouched(start, pre, begin.ids[n]),
        n < rest.index && pre.has(begin.ids[n]) && run.tables[j].has(begin.ids[n])
            && run.tables[j].collections[begin.ids[n]] == pre.collections[begin.ids[n]]
            && !concerns(run.steps[j], begin.ids[n]) ==> is_settled(
            start,
            begin,
            run,
            begin.ids[n],
            j,
        ),
        n < rest.index ==> pre.has(begin.ids[n]),
    ensures
        progress(start, begin, run, n, j),
{
    let name = begin.ids[n];
    assert(begin.ids.to_set().contains(name));
    assert(begin.states.contains_key(name));
    if rest.index < rest.ids.len() {
        if n < rest.index {
            assert(begin.ids[n] != begin.ids[rest.index]);
        }
    }
}

/// How far a run is with a collection, at each of its steps.
proof fn lemma_progress<C>(start: TocView<C>, begin: RunView, run: Trace<C>, n: int, j: int)
    requires
        begin.wf(),
        begin.index == 0,
        is_run(start, begin, run),
        0 <= n < begin.ids.len(),
        0 <= j <= run.events.len(),
    ensures
        progress(start, begin, run, n, j),
    decreases j,
{
    if j == 0 {
        lemma_taken_up(start, begin, run, n, start, begin, 0);
    } else {
        lemma_progress(start, begin, run, n, j - 1);
        lemma_progress_step(start, begin, run, n, j - 1);
    }
}

/// How one more step brings a run on with a collection.
proof fn lemma_progress_step<C>(start: TocView<C>, begin: RunView, run: Trace<C>, n: int, j: int)
    requires
        begin.wf(),
        is_run(start, begin, run),
        0 <= n < begin.ids.len(),
        0 <= j < run.events.len(),
        progress(start, begin, run, n, j),
    ensures
        progress(start, begin, run, n, j + 1),
{
    let name = begin.ids[n];
    let pre = run.tables[j];
    let post = run.tables[j + 1];
    let step = run.steps[j];
    let next = run.steps[j + 1];
    let event = run.events[j];
    assert(resumes(pre, step, event, post, next));
    assert(begin.ids.to_set().contains(name));
    // What is settled by this step is settled at the next one.
    assert(settles(start, name, begin.states[name], step, event, post) && !concerns(next, name)
        ==> is_settled(start, begin, run, name, j + 1)) by {
        if settles(start, name, begin.states[name], step, event, post) && !concerns(next, name) {
            assert(settled_at(start, begin, run, name, j, j + 1));
        }
    }
    // What was settled before stays so.
    assert(is_settled(start, begin, run, name, j) && (pre.has(name) ==> post.has(name)
        && post.collections[name] == pre.collections[name]) && !concerns(next, name)
        ==> is_settled(start, begin, run, name, j + 1)) by {
        if is_settled(start, begin, run, name, j) && (pre.has(name) ==> post.has(name)
            && post.collections[name] == pre.collections[name]) && !concerns(next, name) {
            lemma_stays_settled(start, begin, run, name, j);
        }
    }
    // A collection whose state is settled is here.
    assert(is_settled(start, begin, run, name, j) ==> pre.has(name)) by {
        if is_settled(start, begin, run, name, j) {
            let i = choose|i: int| settled_at(start, begin, run, name, i, j);
            assert(settled_at(start, begin, run, name, i, j));
        }
    }
    match (step, event) {
        (SnapshotStep::ReadState { entry }, SnapshotEvent::StateRead(current)) => {
            if n != entry@.index {
                assert(begin.ids[n] != begin.ids[entry@.index]);
            }
            if current@ == entry@.state()@ {
                lemma_taken_up(start, begin, run, n, pre, entry@.advanced(), j + 1);
            }
        },
        (SnapshotStep::ApplyState { entry, .. }, SnapshotEvent::StateApplied(outcome)) => {
            if n != entry@.index {
                assert(begin.ids[n] != begin.ids[entry@.index]);
            }
            if outcome is Ok {
                lemma_taken_up(start, begin, run, n, pre, entry@.advanced(), j + 1);
            }
        },
        (SnapshotStep::CreateDirectory { entry, .. }, SnapshotEvent::DirectoryCreated(outcome)) => {
            if n != entry@.index {
                assert(begin.ids[n] != begin.ids[entry@.index]);
            }
        },
        (SnapshotStep::Build { entry, .. }, SnapshotEvent::Built(outcome)) => {
            if n != entry@.index {
                assert(begin.ids[n] != begin.ids[entry@.index]);
            }
            if let Ok(collection) = outcome {
                let mid = pre.with_collection(entry@.id(), collection);
                lemma_taken_up(start, begin, run, n, mid, entry@.advanced(), j + 1);
            }
        },
        (
            SnapshotStep::RemoveDirectory { run: rest, .. },
            SnapshotEvent::DirectoryRemoved(outcome),
        ) => {
            if outcome is Ok {
                lemma_taken_up(start, begin, run, n, pre, rest@, j + 1);
            }
        },
        _ => {},
    }
}

/// After a run that went well, every collection of the snapshot is in the state that the snapshot
/// has for it. At one of the steps of the run the collection was found in that state, or it was
/// given that state, or it was made with that configuration and with the shards that the state
/// puts on this peer. No later step is about that collection, and the one that is in the table at
/// the end is the one that was found, changed or made.
pub proof fn law_applied_snapshot_has_its_states<C>(
    start: TocView<C>,
    begin: RunView,
    run: Trace<C>,
    name: Seq<char>,
)
    requires
        begin.wf(),
        begin.index == 0,
        is_run(start, begin, run),
        run.steps.last() == (SnapshotStep::<C>::Finished { result: Ok(()) }),
        begin.states.contains_key(name),
    ensures
        exists|i: int|
            settled_at(start, begin, run, name, i, run.events.len() as int),
{
    assert(begin.ids.to_set().contains(name));
    let n = choose|n: int| 0 <= n < begin.ids.len() && begin.ids[n] == name;
    let last = run.events.len() as int;
    lemma_progress(start, begin, run, n, last);
    assert(run.steps.last() == run.steps[last]);
}

} // verus!
