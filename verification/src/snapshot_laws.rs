//! What holds of a whole run of a snapshot, however its steps turn out.

use crate::consensus_state::CollectionState;
use crate::errors::{create_directory_error, remove_directory_error, ErrorView, StorageError};
use crate::model::TocView;
use crate::snapshot::{
    after_built, after_directory_created, after_directory_removed, after_state_applied,
    after_state_read, snapshot_next, RunView, SnapshotStep,
};
use vstd::prelude::*;

verus! {

/// What came of a step.
pub enum SnapshotEvent<C> {
    StateRead(CollectionState),
    StateApplied(Result<(), StorageError>),
    DirectoryCreated(Result<(), String>),
    Built(Result<C, StorageError>),
    DirectoryRemoved(Result<(), String>),
    AliasesSaved(Result<(), StorageError>),
}

/// `next` follows on `step` when `event` came of it, and `post` is the table then.
pub open spec fn resumes<C>(
    pre: TocView<C>,
    step: SnapshotStep<C>,
    event: SnapshotEvent<C>,
    post: TocView<C>,
    next: SnapshotStep<C>,
) -> bool {
    match (step, event) {
        (SnapshotStep::ReadState { entry }, SnapshotEvent::StateRead(current)) => {
            after_state_read(pre, entry@, current@, post, next)
        },
        (SnapshotStep::ApplyState { entry, .. }, SnapshotEvent::StateApplied(outcome)) => {
            after_state_applied(pre, entry@, outcome, post, next)
        },
        (SnapshotStep::CreateDirectory { entry, .. }, SnapshotEvent::DirectoryCreated(outcome)) => {
            after_directory_created(pre, entry@, outcome, post, next)
        },
        (SnapshotStep::Build { entry, .. }, SnapshotEvent::Built(outcome)) => {
            after_built(pre, entry@, outcome, post, next)
        },
        (
            SnapshotStep::RemoveDirectory { run, collection_name, .. },
            SnapshotEvent::DirectoryRemoved(outcome),
        ) => after_directory_removed(pre, run@, collection_name@, outcome, post, next),
        (SnapshotStep::SaveAliases, SnapshotEvent::AliasesSaved(outcome)) => {
            &&& post == pre
            &&& next == (SnapshotStep::<C>::Finished { result: outcome })
        },
        _ => false,
    }
}

/// A run that begins on the table `start` comes to `step`, with the table `toc`, when `events`
/// came of its steps.
pub open spec fn reaches<C>(
    start: TocView<C>,
    begin: RunView,
    events: Seq<SnapshotEvent<C>>,
    toc: TocView<C>,
    step: SnapshotStep<C>,
) -> bool
    decreases events.len(),
{
    if events.len() == 0 {
        snapshot_next(start, begin, toc, step)
    } else {
        exists|pre: TocView<C>, prev: SnapshotStep<C>|
            {
                &&& #[trigger] resumes(pre, prev, events.last(), toc, step)
                &&& reaches(start, begin, events.drop_last(), pre, prev)
            }
    }
}

/// `run` is a later point of the run that began as `begin`, and the collections that it is done
/// with are there.
spec fn on_the_way<C>(begin: RunView, toc: TocView<C>, run: RunView) -> bool {
    &&& run.ids == begin.ids
    &&& run.states == begin.states
    &&& run.aliases == begin.aliases
    &&& begin.index <= run.index <= run.ids.len()
    &&& forall|i: int| begin.index <= i < run.index ==> toc.has(#[trigger] run.ids[i])
}

/// What a run keeps: the collections that the snapshot has stay, others come only from the
/// snapshot, and the settings and the peer stay.
pub open spec fn keeps<C>(start: TocView<C>, begin: RunView, toc: TocView<C>) -> bool {
    &&& forall|name: Seq<char>|
        start.has(name) && begin.states.contains_key(name) ==> #[trigger] toc.has(name)
            && toc.collections[name] == start.collections[name]
    &&& forall|name: Seq<char>| #[trigger]
        toc.has(name) ==> (start.has(name) && toc.collections[name] == start.collections[name])
            || begin.states.contains_key(name)
    &&& toc.storage_config == start.storage_config
    &&& toc.this_peer_id == start.this_peer_id
}

/// The table has the names and the aliases of the snapshot.
pub open spec fn agrees<C>(begin: RunView, toc: TocView<C>) -> bool {
    &&& toc.collections.dom() == begin.states.dom()
    &&& toc.aliases == begin.aliases
}

/// Every collection of the snapshot is there.
pub open spec fn complete<C>(begin: RunView, toc: TocView<C>) -> bool {
    forall|name: Seq<char>| begin.states.contains_key(name) ==> #[trigger] toc.has(name)
}

/// Every collection from before the run is there.
pub open spec fn none_removed<C>(start: TocView<C>, toc: TocView<C>) -> bool {
    forall|name: Seq<char>| start.has(name) ==> #[trigger] toc.has(name)
}

/// What is so at every step of a run.
spec fn step_inv<C>(
    start: TocView<C>,
    begin: RunView,
    toc: TocView<C>,
    step: SnapshotStep<C>,
) -> bool {
    &&& keeps(start, begin, toc)
    &&& match step {
        SnapshotStep::ReadState { entry } => {
            &&& on_the_way(begin, toc, entry@)
            &&& entry@.index < entry@.ids.len()
            &&& toc.has(entry@.id())
            &&& none_removed(start, toc)
            &&& toc.aliases == start.aliases
        },
        SnapshotStep::ApplyState { entry, .. } => {
            &&& on_the_way(begin, toc, entry@)
            &&& entry@.index < entry@.ids.len()
            &&& toc.has(entry@.id())
            &&& none_removed(start, toc)
            &&& toc.aliases == start.aliases
        },
        SnapshotStep::CreateDirectory { entry, .. } => {
            &&& on_the_way(begin, toc, entry@)
            &&& entry@.index < entry@.ids.len()
            &&& !toc.has(entry@.id())
            &&& none_removed(start, toc)
            &&& toc.aliases == start.aliases
        },
        SnapshotStep::Build { entry, .. } => {
            &&& on_the_way(begin, toc, entry@)
            &&& entry@.index < entry@.ids.len()
            &&& !toc.has(entry@.id())
            &&& none_removed(start, toc)
            &&& toc.aliases == start.aliases
        },
        SnapshotStep::RemoveDirectory { run, .. } => {
            &&& on_the_way(begin, toc, run@)
            &&& run@.index == run@.ids.len()
            &&& complete(begin, toc)
            &&& toc.aliases == start.aliases
        },
        SnapshotStep::SaveAliases => agrees(begin, toc),
        SnapshotStep::Finished { result } => {
            &&& result is Ok ==> agrees(begin, toc)
            &&& none_removed(start, toc) || complete(begin, toc)
            &&& toc.aliases == start.aliases || agrees(begin, toc)
        },
    }
}

/// Taking up a run keeps what is so at every step.
proof fn lemma_next_inv<C>(
    start: TocView<C>,
    begin: RunView,
    pre: TocView<C>,
    run: RunView,
    post: TocView<C>,
    step: SnapshotStep<C>,
)
    requires
        begin.wf(),
        begin.index == 0,
        keeps(start, begin, pre),
        on_the_way(begin, pre, run),
        run.index < run.ids.len() ==> none_removed(start, pre),
        pre.aliases == start.aliases,
        snapshot_next(pre, run, post, step),
    ensures
        step_inv(start, begin, post, step),
{
    if run.index >= run.ids.len() {
        if pre.collections.dom().subset_of(run.states.dom()) {
            assert forall|name: Seq<char>| begin.states.dom().contains(
                name,
            ) implies #[trigger] pre.collections.dom().contains(name) by {
                assert(begin.ids.to_set().contains(name));
                let i = choose|i: int| 0 <= i < begin.ids.len() && begin.ids[i] == name;
                assert(pre.has(run.ids[i]));
            }
            assert(post.collections.dom() =~= begin.states.dom());
            assert(keeps(start, begin, post)) by {
                assert forall|name: Seq<char>| #[trigger] post.has(name) == pre.has(name) by {}
            }
        } else if let SnapshotStep::RemoveDirectory { collection_name, .. } = step {
            let gone = collection_name@;
            assert forall|i: int| begin.index <= i < run.index implies post.has(
                #[trigger] run.ids[i],
            ) by {
                assert(pre.has(run.ids[i]));
                assert(begin.ids.to_set().contains(begin.ids[i]));
            }
            assert forall|name: Seq<char>|
                start.has(name) && begin.states.contains_key(name) implies #[trigger] post.has(
                name,
            ) && post.collections[name] == start.collections[name] by {
                assert(pre.has(name));
            }
            assert forall|name: Seq<char>| #[trigger] post.has(name) implies (start.has(name)
                && post.collections[name] == start.collections[name])
                || begin.states.contains_key(name) by {
                assert(pre.has(name));
            }
        }
    }
}

/// What came of a step keeps what is so at every step.
proof fn lemma_resume_inv<C>(
    start: TocView<C>,
    begin: RunView,
    pre: TocView<C>,
    step: SnapshotStep<C>,
    event: SnapshotEvent<C>,
    post: TocView<C>,
    next: SnapshotStep<C>,
)
    requires
        begin.wf(),
        begin.index == 0,
        step_inv(start, begin, pre, step),
        resumes(pre, step, event, post, next),
    ensures
        step_inv(start, begin, post, next),
{
    match (step, event) {
        (SnapshotStep::ReadState { entry }, SnapshotEvent::StateRead(current)) => {
            if current@ == entry@.state()@ {
                lemma_next_inv(start, begin, pre, entry@.advanced(), post, next);
            }
        },
        (SnapshotStep::ApplyState { entry, .. }, SnapshotEvent::StateApplied(outcome)) => {
            if outcome is Ok {
                lemma_next_inv(start, begin, pre, entry@.advanced(), post, next);
            }
        },
        (SnapshotStep::Build { entry, .. }, SnapshotEvent::Built(outcome)) => {
            if let Ok(collection) = outcome {
                let id = entry@.id();
                let mid = pre.with_collection(id, collection);
                assert(begin.ids.to_set().contains(id)) by {
                    assert(begin.ids[entry@.index] == id);
                }
                assert(keeps(start, begin, mid)) by {
                    assert forall|name: Seq<char>|
                        start.has(name) && begin.states.contains_key(
                            name,
                        ) implies #[trigger] mid.has(name) && mid.collections[name]
                        == start.collections[name] by {
                        assert(pre.has(name));
                    }
                    assert forall|name: Seq<char>| #[trigger] mid.has(name) implies (start.has(
                        name,
                    ) && mid.collections[name] == start.collections[name])
                        || begin.states.contains_key(name) by {
                        if name != id {
                            assert(pre.has(name));
                        }
                    }
                }
                assert(on_the_way(begin, mid, entry@.advanced())) by {
                    assert forall|i: int| begin.index <= i < entry@.index + 1 implies mid.has(
                        #[trigger] entry@.ids[i],
                    ) by {
                        if i < entry@.index {
                            assert(pre.has(entry@.ids[i]));
                        }
                    }
                }
                assert(none_removed(start, mid)) by {
                    assert forall|name: Seq<char>| start.has(name) implies #[trigger] mid.has(
                        name,
                    ) by {
                        assert(pre.has(name));
                    }
                }
                lemma_next_inv(start, begin, mid, entry@.advanced(), post, next);
            }
        },
        (
            SnapshotStep::RemoveDirectory { run, .. },
            SnapshotEvent::DirectoryRemoved(outcome),
        ) => {
            if outcome is Ok {
                lemma_next_inv(start, begin, pre, run@, post, next);
            }
        },
        _ => {},
    }
}

/// What is so at every step of a run.
proof fn lemma_run_inv<C>(
    start: TocView<C>,
    begin: RunView,
    events: Seq<SnapshotEvent<C>>,
    toc: TocView<C>,
    step: SnapshotStep<C>,
)
    requires
        begin.wf(),
        begin.index == 0,
        reaches(start, begin, events, toc, step),
    ensures
        step_inv(start, begin, toc, step),
    decreases events.len(),
{
    if events.len() == 0 {
        lemma_next_inv(start, begin, start, begin, toc, step);
    } else {
        let (pre, prev) = choose|pre: TocView<C>, prev: SnapshotStep<C>|
            {
                &&& #[trigger] resumes(pre, prev, events.last(), toc, step)
                &&& reaches(start, begin, events.drop_last(), pre, prev)
            };
        lemma_run_inv(start, begin, events.drop_last(), pre, prev);
        lemma_resume_inv(start, begin, pre, prev, events.last(), toc, step);
    }
}

/// After a run that went well, the table has exactly the collections of the snapshot and exactly
/// its aliases. The collections that were here already are the same ones as before.
pub proof fn law_applied_snapshot_agrees<C>(
    start: TocView<C>,
    begin: RunView,
    events: Seq<SnapshotEvent<C>>,
    toc: TocView<C>,
    step: SnapshotStep<C>,
)
    requires
        begin.wf(),
        begin.index == 0,
        reaches(start, begin, events, toc, step),
        step == (SnapshotStep::<C>::Finished { result: Ok(()) }),
    ensures
        toc.collections.dom() == begin.states.dom(),
        toc.aliases == begin.aliases,
        forall|name: Seq<char>|
            start.has(name) && begin.states.contains_key(name) ==> #[trigger] toc.collections[name]
                == start.collections[name],
{
    lemma_run_inv(start, begin, events, toc, step);
    assert forall|name: Seq<char>|
        start.has(name) && begin.states.contains_key(
            name,
        ) implies #[trigger] toc.collections[name] == start.collections[name] by {
        assert(toc.has(name));
    }
}

/// At every step of a run, also when it has failed: no collection of the snapshot that was here
/// is gone or replaced, nothing came that is not in the snapshot, and the settings of the storage
/// and the peer are what they were. The aliases are those from before until all collections of
/// the snapshot, and no others, are there; then they are those of the snapshot, and are to be
/// saved. So they are those from before at every step that reads, changes, makes or removes a
/// collection.
pub proof fn law_snapshot_keeps<C>(
    start: TocView<C>,
    begin: RunView,
    events: Seq<SnapshotEvent<C>>,
    toc: TocView<C>,
    step: SnapshotStep<C>,
)
    requires
        begin.wf(),
        begin.index == 0,
        reaches(start, begin, events, toc, step),
    ensures
        keeps(start, begin, toc),
        toc.aliases == start.aliases || agrees(begin, toc),
        !(step is SaveAliases) && !(step is Finished) ==> toc.aliases == start.aliases,
        step is SaveAliases ==> agrees(begin, toc),
{
    lemma_run_inv(start, begin, events, toc, step);
}

/// Nothing is removed before every collection of the snapshot is done with: as soon as a
/// collection from before the run is gone, or is to be removed, all collections of the snapshot
/// are there, and none of them is left to be read, changed or made.
pub proof fn law_snapshot_removes_last<C>(
    start: TocView<C>,
    begin: RunView,
    events: Seq<SnapshotEvent<C>>,
    toc: TocView<C>,
    step: SnapshotStep<C>,
)
    requires
        begin.wf(),
        begin.index == 0,
        reaches(start, begin, events, toc, step),
    ensures
        none_removed(start, toc) || complete(begin, toc),
        step is RemoveDirectory || step is SaveAliases ==> complete(begin, toc),
        step is ReadState || step is ApplyState || step is CreateDirectory || step is Build
            ==> none_removed(start, toc),
{
    lemma_run_inv(start, begin, events, toc, step);
}

/// What came of a step is not a failure.
pub open spec fn went_well<C>(event: SnapshotEvent<C>) -> bool {
    match event {
        SnapshotEvent::StateRead(_) => true,
        SnapshotEvent::StateApplied(outcome) => outcome is Ok,
        SnapshotEvent::DirectoryCreated(outcome) => outcome is Ok,
        SnapshotEvent::Built(outcome) => outcome is Ok,
        SnapshotEvent::DirectoryRemoved(outcome) => outcome is Ok,
        SnapshotEvent::AliasesSaved(outcome) => outcome is Ok,
    }
}

/// The error of a step that failed.
pub open spec fn failure<C>(step: SnapshotStep<C>, event: SnapshotEvent<C>) -> Option<ErrorView> {
    match (step, event) {
        (_, SnapshotEvent::StateApplied(Err(e))) => Some(e@),
        (
            SnapshotStep::CreateDirectory { entry, .. },
            SnapshotEvent::DirectoryCreated(Err(cause)),
        ) => Some(create_directory_error(entry@.id(), cause@)),
        (_, SnapshotEvent::Built(Err(e))) => Some(e@),
        (
            SnapshotStep::RemoveDirectory { collection_name, .. },
            SnapshotEvent::DirectoryRemoved(Err(cause)),
        ) => Some(remove_directory_error(collection_name@, cause@)),
        (_, SnapshotEvent::AliasesSaved(Err(e))) => Some(e@),
        _ => None,
    }
}

/// The first step that fails ends a run: it is over with the error of that step, and the table is
/// what it was before that came of the step. Unless it was the saving of the aliases that failed,
/// these are still those from before the run. A step that does not fail does not end a run in an
/// error.
pub proof fn law_snapshot_failure<C>(
    start: TocView<C>,
    begin: RunView,
    events: Seq<SnapshotEvent<C>>,
    toc: TocView<C>,
    step: SnapshotStep<C>,
    event: SnapshotEvent<C>,
    after: TocView<C>,
    next: SnapshotStep<C>,
)
    requires
        begin.wf(),
        begin.index == 0,
        reaches(start, begin, events, toc, step),
        resumes(toc, step, event, after, next),
    ensures
        !went_well(event) <==> failure(step, event) is Some,
        match failure(step, event) {
            Some(error) => {
                &&& next matches SnapshotStep::Finished { result: Err(e) } && e@ == error
                &&& after == toc
                &&& !(event is AliasesSaved) ==> after.aliases == start.aliases
            },
            None => !(next matches SnapshotStep::Finished { result: Err(_) }),
        },
{
    lemma_run_inv(start, begin, events, toc, step);
}

/// A run whose steps all go well does not fail: it goes on, or it is over with `Ok(())`, and then
/// the table has exactly the collections and the aliases of the snapshot.
pub proof fn law_snapshot_goes_well<C>(
    start: TocView<C>,
    begin: RunView,
    events: Seq<SnapshotEvent<C>>,
    toc: TocView<C>,
    step: SnapshotStep<C>,
)
    requires
        begin.wf(),
        begin.index == 0,
        reaches(start, begin, events, toc, step),
        forall|i: int| 0 <= i < events.len() ==> went_well(#[trigger] events[i]),
    ensures
        step matches SnapshotStep::Finished { result } ==> result is Ok && agrees(begin, toc),
{
    lemma_run_inv(start, begin, events, toc, step);
    if events.len() > 0 {
        let (pre, prev) = choose|pre: TocView<C>, prev: SnapshotStep<C>|
            {
                &&& #[trigger] resumes(pre, prev, events.last(), toc, step)
                &&& reaches(start, begin, events.drop_last(), pre, prev)
            };
        lemma_run_inv(start, begin, events.drop_last(), pre, prev);
        assert(went_well(events[events.len() - 1]));
    }
}

/// How far a run is from its end at most, in steps.
spec fn distance<C>(begin: RunView, toc: TocView<C>, step: SnapshotStep<C>) -> int {
    let surplus: int = toc.collections.dom().difference(begin.states.dom()).len() as int;
    match step {
        SnapshotStep::ReadState { entry } => 2 * (entry@.ids.len() - entry@.index) + surplus + 1,
        SnapshotStep::CreateDirectory { entry, .. } => 2 * (entry@.ids.len() - entry@.index)
            + surplus + 1,
        SnapshotStep::ApplyState { entry, .. } => 2 * (entry@.ids.len() - entry@.index) + surplus,
        SnapshotStep::Build { entry, .. } => 2 * (entry@.ids.len() - entry@.index) + surplus,
        SnapshotStep::RemoveDirectory { .. } => surplus + 2,
        SnapshotStep::SaveAliases => 1,
        SnapshotStep::Finished { .. } => 0,
    }
}

/// A run that is taken up is no further from its end than its collections allow.
proof fn lemma_next_distance<C>(
    begin: RunView,
    pre: TocView<C>,
    run: RunView,
    post: TocView<C>,
    step: SnapshotStep<C>,
)
    requires
        pre.collections.dom().finite(),
        run.states == begin.states,
        run.index <= run.ids.len(),
        snapshot_next(pre, run, post, step),
    ensures
        post.collections.dom().finite(),
        0 <= distance(begin, post, step) <= 2 * (run.ids.len() - run.index)
            + pre.collections.dom().difference(begin.states.dom()).len() + 1,
{
    let before = pre.collections.dom().difference(begin.states.dom());
    if let SnapshotStep::RemoveDirectory { collection_name, .. } = step {
        let after = post.collections.dom().difference(begin.states.dom());
        assert(after =~= before.remove(collection_name@));
        assert(before.contains(collection_name@));
    }
}

/// Every event brings a run closer to its end.
proof fn lemma_resume_distance<C>(
    start: TocView<C>,
    begin: RunView,
    pre: TocView<C>,
    step: SnapshotStep<C>,
    event: SnapshotEvent<C>,
    post: TocView<C>,
    next: SnapshotStep<C>,
)
    requires
        begin.wf(),
        begin.index == 0,
        pre.collections.dom().finite(),
        step_inv(start, begin, pre, step),
        resumes(pre, step, event, post, next),
    ensures
        post.collections.dom().finite(),
        0 <= distance(begin, post, next) < distance(begin, pre, step),
{
    match (step, event) {
        (SnapshotStep::ReadState { entry }, SnapshotEvent::StateRead(current)) => {
            if current@ == entry@.state()@ {
                lemma_next_distance(begin, pre, entry@.advanced(), post, next);
            }
        },
        (SnapshotStep::ApplyState { entry, .. }, SnapshotEvent::StateApplied(outcome)) => {
            if outcome is Ok {
                lemma_next_distance(begin, pre, entry@.advanced(), post, next);
            }
        },
        (SnapshotStep::Build { entry, .. }, SnapshotEvent::Built(outcome)) => {
            if let Ok(collection) = outcome {
                let mid = pre.with_collection(entry@.id(), collection);
                assert(begin.ids.to_set().contains(entry@.id())) by {
                    assert(begin.ids[entry@.index] == entry@.id());
                }
                assert(mid.collections.dom() =~= pre.collections.dom().insert(entry@.id()));
                assert(mid.collections.dom().difference(begin.states.dom())
                    =~= pre.collections.dom().difference(begin.states.dom()));
                lemma_next_distance(begin, mid, entry@.advanced(), post, next);
            }
        },
        (
            SnapshotStep::RemoveDirectory { run, .. },
            SnapshotEvent::DirectoryRemoved(outcome),
        ) => {
            if outcome is Ok {
                lemma_next_distance(begin, pre, run@, post, next);
            }
        },
        _ => {},
    }
}

/// How far a run is from its end after some events.
proof fn lemma_run_distance<C>(
    start: TocView<C>,
    begin: RunView,
    events: Seq<SnapshotEvent<C>>,
    toc: TocView<C>,
    step: SnapshotStep<C>,
)
    requires
        begin.wf(),
        begin.index == 0,
        start.collections.dom().finite(),
        reaches(start, begin, events, toc, step),
    ensures
        toc.collections.dom().finite(),
        distance(begin, toc, step) >= 0,
        events.len() + distance(begin, toc, step) <= 2 * begin.ids.len()
            + start.collections.dom().difference(begin.states.dom()).len() + 1,
    decreases events.len(),
{
    if events.len() == 0 {
        lemma_next_distance(begin, start, begin, toc, step);
    } else {
        let (pre, prev) = choose|pre: TocView<C>, prev: SnapshotStep<C>|
            {
                &&& #[trigger] resumes(pre, prev, events.last(), toc, step)
                &&& reaches(start, begin, events.drop_last(), pre, prev)
            };
        lemma_run_distance(start, begin, events.drop_last(), pre, prev);
        lemma_run_inv(start, begin, events.drop_last(), pre, prev);
        lemma_resume_distance(start, begin, pre, prev, events.last(), toc, step);
    }
}

/// A run ends: there are no more events than two for each collection of the snapshot, one for
/// each collection that is not in it, and one for the aliases.
pub proof fn law_snapshot_run_ends<C>(
    start: TocView<C>,
    begin: RunView,
    events: Seq<SnapshotEvent<C>>,
    toc: TocView<C>,
    step: SnapshotStep<C>,
)
    requires
        begin.wf(),
        begin.index == 0,
        start.collections.dom().finite(),
        reaches(start, begin, events, toc, step),
    ensures
        events.len() <= 2 * begin.ids.len() + start.collections.dom().difference(
            begin.states.dom(),
        ).len() + 1,
{
    lemma_run_distance(start, begin, events, toc, step);
}

/// Each collection that was read was in the state that the snapshot has for it. The collections
/// are read in the order of the snapshot.
pub open spec fn reads_agree<C>(begin: RunView, events: Seq<SnapshotEvent<C>>) -> bool {
    forall|i: int|
        0 <= i < events.len() ==> (#[trigger] events[i] matches SnapshotEvent::StateRead(current)
            ==> i < begin.ids.len() ==> current@ == begin.states[begin.ids[i]]@)
}

/// A snapshot of a table changes nothing when it is applied to that table: every collection is
/// read, none gets another state, none is made, none is removed, and the aliases stay.
pub proof fn law_own_snapshot_changes_nothing<C>(
    start: TocView<C>,
    begin: RunView,
    events: Seq<SnapshotEvent<C>>,
    toc: TocView<C>,
    step: SnapshotStep<C>,
)
    requires
        begin.wf(),
        begin.index == 0,
        begin.states.dom() == start.collections.dom(),
        begin.aliases == start.aliases,
        reads_agree(begin, events),
        reaches(start, begin, events, toc, step),
    ensures
        toc == start,
        step is ReadState || step is SaveAliases || step is Finished,
        step matches SnapshotStep::ReadState { entry } ==> entry@ == (RunView {
            index: events.len() as int,
            ..begin
        }),
    decreases events.len(),
{
    if events.len() == 0 {
        lemma_own_next(start, begin, begin, toc, step);
    } else {
        let (pre, prev) = choose|pre: TocView<C>, prev: SnapshotStep<C>|
            {
                &&& #[trigger] resumes(pre, prev, events.last(), toc, step)
                &&& reaches(start, begin, events.drop_last(), pre, prev)
            };
        let earlier = events.drop_last();
        assert(reads_agree(begin, earlier)) by {
            assert forall|i: int| 0 <= i < earlier.len() implies (
            #[trigger] earlier[i] matches SnapshotEvent::StateRead(current) ==> i < begin.ids.len()
                ==> current@ == begin.states[begin.ids[i]]@) by {
                assert(earlier[i] == events[i]);
            }
        }
        law_own_snapshot_changes_nothing(start, begin, earlier, pre, prev);
        lemma_run_inv(start, begin, earlier, pre, prev);
        if let SnapshotStep::ReadState { entry } = prev {
            if let SnapshotEvent::StateRead(current) = events.last() {
                assert(events[events.len() - 1] == events.last());
                assert(current@ == entry@.state()@);
                lemma_own_next(start, begin, entry@.advanced(), toc, step);
            }
        }
    }
}

/// Taking up a run on a table that has the collections and aliases of the snapshot.
proof fn lemma_own_next<C>(
    start: TocView<C>,
    begin: RunView,
    run: RunView,
    post: TocView<C>,
    step: SnapshotStep<C>,
)
    requires
        begin.wf(),
        begin.states.dom() == start.collections.dom(),
        begin.aliases == start.aliases,
        run.ids == begin.ids,
        run.states == begin.states,
        run.aliases == begin.aliases,
        0 <= run.index <= run.ids.len(),
        snapshot_next(start, run, post, step),
    ensures
        post == start,
        step is ReadState || step is SaveAliases,
        step matches SnapshotStep::ReadState { entry } ==> entry@ == run,
{
    if run.index < run.ids.len() {
        assert(begin.ids.to_set().contains(run.id())) by {
            assert(begin.ids[run.index] == run.id());
        }
        assert(start.has(run.id()));
    }
}

} // verus!
