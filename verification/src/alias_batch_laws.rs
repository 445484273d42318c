//! What several changes of aliases that are made together come to, told by the changes and by what
//! the table holds.

use crate::alias_changes::{after_changes, lemma_refused, AliasChanges, AliasStep};
use crate::errors::StorageError;
use crate::model::TocView;
use crate::operations::{AliasOperations, ChangeAliasesOperation};
use crate::toc::TableOfContent;
use vstd::prelude::*;

verus! {

/// The change makes that name an alias of that collection.
pub open spec fn makes(action: AliasOperations, alias: Seq<char>, collection: Seq<char>) -> bool {
    &&& action matches AliasOperations::CreateAlias(op)
    &&& op.create_alias.alias_name@ == alias
    &&& op.create_alias.collection_name@ == collection
}

/// The change deletes the alias of that name.
pub open spec fn deletes(action: AliasOperations, alias: Seq<char>) -> bool {
    &&& action matches AliasOperations::DeleteAlias(op)
    &&& op.delete_alias.alias_name@ == alias
}

/// The change gives the alias `from` the name `to`.
pub open spec fn renames(action: AliasOperations, from: Seq<char>, to: Seq<char>) -> bool {
    &&& action matches AliasOperations::RenameAlias(op)
    &&& op.rename_alias.old_alias_name@ == from
    &&& op.rename_alias.new_alias_name@ == to
}

/// The change is about an alias of that name.
pub open spec fn is_about(action: AliasOperations, alias: Seq<char>) -> bool {
    ||| exists|collection: Seq<char>| #[trigger] makes(action, alias, collection)
    ||| deletes(action, alias)
    ||| exists|to: Seq<char>| #[trigger] renames(action, alias, to)
    ||| exists|from: Seq<char>| #[trigger] renames(action, from, alias)
}

/// The names other than these two stand for what they stood for.
pub open spec fn others_stay(
    before: Map<Seq<char>, Seq<char>>,
    after: Map<Seq<char>, Seq<char>>,
    a: Seq<char>,
    b: Seq<char>,
) -> bool {
    forall|name: Seq<char>|
        name != a && name != b ==> {
            &&& #[trigger] after.contains_key(name) == before.contains_key(name)
            &&& before.contains_key(name) ==> after[name] == before[name]
        }
}

/// What one change does to the aliases of a table with those collections. It does it only where
/// it is allowed: an alias is made for a collection that there is and not under the name of one,
/// and an alias is renamed only if there is one of the old name.
pub open spec fn changes_into<C>(
    collections: Map<Seq<char>, C>,
    before: Map<Seq<char>, Seq<char>>,
    action: AliasOperations,
    after: Map<Seq<char>, Seq<char>>,
) -> bool {
    &&& forall|alias: Seq<char>, collection: Seq<char>| #[trigger]
        makes(action, alias, collection) ==> {
            &&& collections.contains_key(collection)
            &&& !collections.contains_key(alias)
            &&& after.contains_key(alias) && after[alias] == collection
            &&& others_stay(before, after, alias, alias)
        }
    &&& forall|alias: Seq<char>| #[trigger]
        deletes(action, alias) ==> {
            &&& !after.contains_key(alias)
            &&& others_stay(before, after, alias, alias)
        }
    &&& forall|from: Seq<char>, to: Seq<char>| #[trigger]
        renames(action, from, to) ==> {
            &&& before.contains_key(from)
            &&& after.contains_key(to) && after[to] == before[from]
            &&& from != to ==> !after.contains_key(from)
            &&& others_stay(before, after, from, to)
        }
}

/// Why a change is refused: an alias for a collection that there is not, an alias under the name of
/// a collection, or a new name for an alias that there is not.
pub open spec fn refused_for<C>(
    collections: Map<Seq<char>, C>,
    aliases: Map<Seq<char>, Seq<char>>,
    action: AliasOperations,
    error: StorageError,
) -> bool {
    match action {
        AliasOperations::CreateAlias(op) => {
            let alias = op.create_alias.alias_name@;
            let collection = op.create_alias.collection_name@;
            ||| !collections.contains_key(collection) && (error matches StorageError::NotFound {
                description,
            } && description@ == "Collection `"@ + collection + "` doesn't exist!"@)
            ||| collections.contains_key(collection) && collections.contains_key(alias) && (
            error matches StorageError::BadInput { description } && description@ == "Collection `"@
                + alias + "` already exists!"@)
        },
        AliasOperations::DeleteAlias(_) => false,
        AliasOperations::RenameAlias(op) => {
            let from = op.rename_alias.old_alias_name@;
            !aliases.contains_key(from) && (error matches StorageError::NotFound { description }
                && description@ == "Alias "@ + from + " does not exist!"@)
        },
    }
}

/// `maps` are the aliases before and after each of the first changes, one after the other.
pub open spec fn change_by_change<C>(
    collections: Map<Seq<char>, C>,
    actions: Seq<AliasOperations>,
    maps: Seq<Map<Seq<char>, Seq<char>>>,
) -> bool {
    &&& 0 < maps.len() <= actions.len() + 1
    &&& forall|i: int|
        #![trigger actions[i]]
        0 <= i < maps.len() - 1 ==> changes_into(collections, maps[i], actions[i], maps[i + 1])
}

/// What one more change does.
proof fn lemma_one_change<C>(toc: TocView<C>, actions: Seq<AliasOperations>, i: int)
    requires
        0 <= i < actions.len(),
        after_changes(toc, actions, i) is Ok,
        after_changes(toc, actions, i + 1) is Ok,
    ensures
        changes_into(
            after_changes(toc, actions, i)->Ok_0.collections,
            after_changes(toc, actions, i)->Ok_0.aliases,
            actions[i],
            after_changes(toc, actions, i + 1)->Ok_0.aliases,
        ),
        after_changes(toc, actions, i + 1)->Ok_0.collections == after_changes(
            toc,
            actions,
            i,
        )->Ok_0.collections,
        after_changes(toc, actions, i + 1)->Ok_0.storage_config == after_changes(
            toc,
            actions,
            i,
        )->Ok_0.storage_config,
        after_changes(toc, actions, i + 1)->Ok_0.this_peer_id == after_changes(
            toc,
            actions,
            i,
        )->Ok_0.this_peer_id,
{
}

/// The aliases after each of the first `n` changes, if none of them is refused.
proof fn lemma_change_by_change<C>(toc: TocView<C>, actions: Seq<AliasOperations>, n: int) -> (maps:
    Seq<Map<Seq<char>, Seq<char>>>)
    requires
        0 <= n <= actions.len(),
        after_changes(toc, actions, n) is Ok,
    ensures
        change_by_change(toc.collections, actions, maps),
        maps.len() == n + 1,
        maps[0] == toc.aliases,
        maps[n] == after_changes(toc, actions, n)->Ok_0.aliases,
        after_changes(toc, actions, n)->Ok_0.collections == toc.collections,
        after_changes(toc, actions, n)->Ok_0.storage_config == toc.storage_config,
        after_changes(toc, actions, n)->Ok_0.this_peer_id == toc.this_peer_id,
    decreases n,
{
    if n == 0 {
        seq![toc.aliases]
    } else {
        if after_changes(toc, actions, n - 1) is Err {
            lemma_refused(toc, actions, n - 1, n);
        }
        let earlier = lemma_change_by_change(toc, actions, n - 1);
        lemma_one_change(toc, actions, n - 1);
        let maps = earlier.push(after_changes(toc, actions, n)->Ok_0.aliases);
        assert forall|i: int|
            #![trigger actions[i]]
            0 <= i < maps.len() - 1 implies changes_into(
            toc.collections,
            maps[i],
            actions[i],
            maps[i + 1],
        ) by {
            if i < n - 1 {
                assert(maps[i] == earlier[i] && maps[i + 1] == earlier[i + 1]);
            }
        }
        maps
    }
}

/// The first change that is refused.
proof fn lemma_first_refusal<C>(toc: TocView<C>, actions: Seq<AliasOperations>, n: int) -> (i: int)
    requires
        0 <= n <= actions.len(),
        after_changes(toc, actions, n) is Err,
    ensures
        0 <= i < n,
        after_changes(toc, actions, i) is Ok,
        after_changes(toc, actions, i + 1) is Err,
        after_changes(toc, actions, i + 1) == after_changes(toc, actions, n),
    decreases n,
{
    if after_changes(toc, actions, n - 1) is Err {
        let i = lemma_first_refusal(toc, actions, n - 1);
        lemma_refused(toc, actions, n - 1, n);
        i
    } else {
        n - 1
    }
}

/// An operation makes its changes one after the other, each on the aliases that those before it
/// have left, and each wherever in the list it stands. If it gets to the end, all of them are made
/// and are to be saved. If one of them is refused, the operation is over with the reason for that
/// one, and nothing has changed. In no case anything but aliases changes.
pub proof fn law_changes_are_made_one_by_one<C>(
    toc: &mut TableOfContent<C>,
    operation: ChangeAliasesOperation,
    step: AliasStep,
)
    requires
        call_ensures(TableOfContent::<C>::update_aliases, (toc, operation), step),
    ensures
        final(toc)@.collections == old(toc)@.collections,
        final(toc)@.storage_config == old(toc)@.storage_config,
        final(toc)@.this_peer_id == old(toc)@.this_peer_id,
        exists|maps: Seq<Map<Seq<char>, Seq<char>>>|
            {
                &&& #[trigger] change_by_change(old(toc)@.collections, operation.actions@, maps)
                &&& maps[0] == old(toc)@.aliases
                &&& match step {
                    AliasStep::Save(_) => {
                        &&& operation.actions@.len() > 0
                        &&& maps.len() == operation.actions@.len() + 1
                        &&& final(toc)@.aliases == maps[operation.actions@.len() as int]
                    },
                    AliasStep::Finished(Ok(done)) => {
                        &&& done
                        &&& operation.actions@.len() == 0
                        &&& final(toc)@.aliases == old(toc)@.aliases
                    },
                    AliasStep::Finished(Err(e)) => {
                        &&& maps.len() <= operation.actions@.len()
                        &&& refused_for(
                            old(toc)@.collections,
                            maps[maps.len() - 1],
                            operation.actions@[maps.len() - 1],
                            e,
                        )
                        &&& final(toc)@.aliases == old(toc)@.aliases
                    },
                }
            },
{
    let start = old(toc)@;
    let actions = operation.actions@;
    let n = actions.len() as int;
    if after_changes(start, actions, n) is Ok {
        let maps = lemma_change_by_change(start, actions, n);
        assert(change_by_change(start.collections, actions, maps));
    } else {
        let i = lemma_first_refusal(start, actions, n);
        let maps = lemma_change_by_change(start, actions, i);
        assert(change_by_change(start.collections, actions, maps));
        assert(maps[maps.len() - 1] == after_changes(start, actions, i)->Ok_0.aliases);
    }
}

/// What a name stands for after changes of which none from `k` on is about it.
proof fn lemma_not_about<C>(
    toc: TocView<C>,
    actions: Seq<AliasOperations>,
    k: int,
    n: int,
    name: Seq<char>,
)
    requires
        0 <= k <= n <= actions.len(),
        after_changes(toc, actions, n) is Ok,
        forall|i: int| k <= i < n ==> !is_about(#[trigger] actions[i], name),
    ensures
        after_changes(toc, actions, k) is Ok,
        ({
            let before = after_changes(toc, actions, k)->Ok_0.aliases;
            let after = after_changes(toc, actions, n)->Ok_0.aliases;
            &&& after.contains_key(name) == before.contains_key(name)
            &&& before.contains_key(name) ==> after[name] == before[name]
        }),
    decreases n - k,
{
    if k < n {
        if after_changes(toc, actions, n - 1) is Err {
            lemma_refused(toc, actions, n - 1, n);
        }
        lemma_not_about(toc, actions, k, n - 1, name);
        let last = actions[n - 1];
        assert(!is_about(last, name));
        match last {
            AliasOperations::CreateAlias(op) => {
                assert(makes(last, op.create_alias.alias_name@, op.create_alias.collection_name@));
            },
            AliasOperations::DeleteAlias(op) => {
                assert(deletes(last, op.delete_alias.alias_name@));
            },
            AliasOperations::RenameAlias(op) => {
                assert(renames(
                    last,
                    op.rename_alias.old_alias_name@,
                    op.rename_alias.new_alias_name@,
                ));
            },
        }
    }
}

/// The last change that is about a name says what becomes of it, if the operation is not refused.
/// If that change deletes the alias, or gives it another name, the name is no alias afterwards. If
/// it makes the alias, the name stands for the collection of that change. If it gives the name to
/// an alias, the name is an alias; and it stands for what the other name stood for before the
/// operation, unless an earlier change was about that one.
pub proof fn law_last_change_of_a_name_counts<C>(
    toc: &mut TableOfContent<C>,
    operation: ChangeAliasesOperation,
    step: AliasStep,
    k: int,
    name: Seq<char>,
)
    requires
        call_ensures(TableOfContent::<C>::update_aliases, (toc, operation), step),
        !(step matches AliasStep::Finished(Err(_))),
        0 <= k < operation.actions@.len(),
        forall|i: int|
            k < i < operation.actions@.len() ==> !is_about(#[trigger] operation.actions@[i], name),
    ensures
        deletes(operation.actions@[k], name) ==> !final(toc)@.aliases.contains_key(name),
        forall|collection: Seq<char>| #[trigger]
            makes(operation.actions@[k], name, collection) ==> {
                &&& final(toc)@.aliases.contains_key(name)
                &&& final(toc)@.aliases[name] == collection
            },
        forall|to: Seq<char>|
            to != name && #[trigger] renames(operation.actions@[k], name, to)
                ==> !final(toc)@.aliases.contains_key(name),
        forall|from: Seq<char>| #[trigger]
            renames(operation.actions@[k], from, name) ==> {
                &&& final(toc)@.aliases.contains_key(name)
                &&& (forall|i: int|
                    0 <= i < k ==> !is_about(#[trigger] operation.actions@[i], from)) ==> {
                    &&& old(toc)@.aliases.contains_key(from)
                    &&& final(toc)@.aliases[name] == old(toc)@.aliases[from]
                }
            },
{
    let start = old(toc)@;
    let actions = operation.actions@;
    let n = actions.len() as int;
    lemma_not_about(start, actions, k + 1, n, name);
    if after_changes(start, actions, k) is Err {
        lemma_refused(start, actions, k, n);
    }
    lemma_one_change(start, actions, k);
    assert forall|from: Seq<char>|
        (forall|i: int| 0 <= i < k ==> !is_about(#[trigger] actions[i], from)) && #[trigger] renames(
            actions[k],
            from,
            name,
        ) implies start.aliases.contains_key(from) && final(toc)@.aliases[name]
        == start.aliases[from] by {
        lemma_not_about(start, actions, 0, k, from);
    }
}

/// A name that no change is about stands for what it stood for, whatever becomes of the operation.
pub proof fn law_other_names_stay<C>(
    toc: &mut TableOfContent<C>,
    operation: ChangeAliasesOperation,
    step: AliasStep,
    name: Seq<char>,
)
    requires
        call_ensures(TableOfContent::<C>::update_aliases, (toc, operation), step),
        forall|i: int|
            0 <= i < operation.actions@.len() ==> !is_about(#[trigger] operation.actions@[i], name),
    ensures
        final(toc)@.aliases.contains_key(name) == old(toc)@.aliases.contains_key(name),
        old(toc)@.aliases.contains_key(name) ==> final(toc)@.aliases[name]
            == old(toc)@.aliases[name],
{
    let start = old(toc)@;
    let actions = operation.actions@;
    let n = actions.len() as int;
    if after_changes(start, actions, n) is Ok {
        lemma_not_about(start, actions, 0, n, name);
    }
}

/// Which operations are refused. One with an alias for a collection that there is not, or with an
/// alias under the name of a collection, always is. One without such an alias, and without a
/// change of a name, never is.
pub proof fn law_refused_operations<C>(
    toc: &mut TableOfContent<C>,
    operation: ChangeAliasesOperation,
    step: AliasStep,
)
    requires
        call_ensures(TableOfContent::<C>::update_aliases, (toc, operation), step),
    ensures
        forall|i: int, alias: Seq<char>, collection: Seq<char>|
            0 <= i < operation.actions@.len() && #[trigger] makes(
                operation.actions@[i],
                alias,
                collection,
            ) && (!old(toc)@.collections.contains_key(collection)
                || old(toc)@.collections.contains_key(alias)) ==> (
            step matches AliasStep::Finished(Err(_))),
        (forall|i: int|
            0 <= i < operation.actions@.len() ==> match #[trigger] operation.actions@[i] {
                AliasOperations::CreateAlias(op) => {
                    &&& old(toc)@.collections.contains_key(op.create_alias.collection_name@)
                    &&& !old(toc)@.collections.contains_key(op.create_alias.alias_name@)
                },
                AliasOperations::DeleteAlias(_) => true,
                AliasOperations::RenameAlias(_) => false,
            }) ==> !(step matches AliasStep::Finished(Err(_))),
        (step matches AliasStep::Finished(Err(_))) ==> final(toc)@ == old(toc)@,
{
    let start = old(toc)@;
    let actions = operation.actions@;
    let n = actions.len() as int;
    if after_changes(start, actions, n) is Ok {
        let maps = lemma_change_by_change(start, actions, n);
        assert forall|i: int, alias: Seq<char>, collection: Seq<char>|
            0 <= i < actions.len() && #[trigger] makes(
                actions[i],
                alias,
                collection,
            ) implies start.collections.contains_key(collection)
            && !start.collections.contains_key(alias) by {
            assert(changes_into(start.collections, maps[i], actions[i], maps[i + 1]));
        }
    } else {
        let i = lemma_first_refusal(start, actions, n);
        let _ = lemma_change_by_change(start, actions, i);
        assert(actions[i] == actions[i]);
    }
}

/// Once it was tried to save the aliases the operation is over. If they are saved the answer is
/// `true`, and the table stays as it is. If not the answer is the error of saving them, and the
/// aliases are those from before the operation.
pub proof fn law_saved_or_as_before<C>(
    toc: &mut TableOfContent<C>,
    operation: ChangeAliasesOperation,
    changes: AliasChanges,
    again: &mut TableOfContent<C>,
    outcome: Result<(), StorageError>,
    last: AliasStep,
)
    requires
        call_ensures(
            TableOfContent::<C>::update_aliases,
            (toc, operation),
            AliasStep::Save(changes),
        ),
        old(again)@ == final(toc)@,
        call_ensures(TableOfContent::<C>::aliases_saved, (again, changes, outcome), last),
    ensures
        match outcome {
            Ok(_) => {
                &&& last == AliasStep::Finished(Ok(true))
                &&& final(again)@ == final(toc)@
            },
            Err(e) => {
                &&& last == AliasStep::Finished(Err(e))
                &&& final(again)@.collections == old(toc)@.collections
                &&& final(again)@.aliases == old(toc)@.aliases
                &&& final(again)@.storage_config == old(toc)@.storage_config
                &&& final(again)@.this_peer_id == old(toc)@.this_peer_id
            },
        },
{
    let _ = lemma_change_by_change(
        old(toc)@,
        operation.actions@,
        operation.actions@.len() as int,
    );
}

} // verus!
