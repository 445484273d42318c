//! What holds of aliases, and of a whole operation that changes them.

use crate::alias_changes::{
    after_changes, after_save, alias_effect, aliases_changed, AliasStep,
};
use crate::alias_mapping::aliases_of;
use crate::errors::{ErrorView, StorageError};
use crate::model::TocView;
use crate::operations::AliasOperations;
use vstd::prelude::*;

verus! {

/// The whole of an operation. `start` is the table before it and `end` the one after it; between
/// making and saving the changes the table is `mid`, and `saved` is what came of saving them.
pub open spec fn alias_operation<C>(
    start: TocView<C>,
    actions: Seq<AliasOperations>,
    mid: TocView<C>,
    begun: AliasStep,
    saved: Result<(), StorageError>,
    end: TocView<C>,
    last: AliasStep,
) -> bool {
    &&& aliases_changed(start, actions, mid, begun)
    &&& match begun {
        AliasStep::Save(changes) => after_save(mid, changes@, saved, end, last),
        AliasStep::Finished(_) => end == mid && last == begun,
    }
}

/// An operation makes all of its changes or none. It answers `true` exactly when none of them is
/// refused and they are saved; then all of them are made, in their order. Else it ends in the
/// error of the first change that is refused, or in that of saving, and the table is as it was.
pub proof fn law_alias_operation<C>(
    start: TocView<C>,
    actions: Seq<AliasOperations>,
    mid: TocView<C>,
    begun: AliasStep,
    saved: Result<(), StorageError>,
    end: TocView<C>,
    last: AliasStep,
)
    requires
        alias_operation(start, actions, mid, begun, saved, end, last),
    ensures
        match after_changes(start, actions, actions.len() as int) {
            Ok(after) => if actions.len() == 0 || saved is Ok {
                &&& last == AliasStep::Finished(Ok(true))
                &&& end == after
            } else {
                &&& last == AliasStep::Finished(Err(saved->Err_0))
                &&& end == start
            },
            Err(error) => {
                &&& last matches AliasStep::Finished(Err(e)) && e@ == error
                &&& end == start
            },
        },
{
    law_alias_changes_keep_collections(start, actions, actions.len() as int);
}

/// No one who reads the table meets changes that are made in part. A reader comes before an
/// operation, between its two steps, or after it; whichever it is, the table is the one from
/// before the operation or the one with all of its changes. Where the operation answers `true`,
/// whoever comes after its first step meets all of them.
pub proof fn law_no_part_of_an_alias_operation_is_seen<C>(
    start: TocView<C>,
    actions: Seq<AliasOperations>,
    mid: TocView<C>,
    begun: AliasStep,
    saved: Result<(), StorageError>,
    end: TocView<C>,
    last: AliasStep,
    seen: TocView<C>,
)
    requires
        alias_operation(start, actions, mid, begun, saved, end, last),
        seen == start || seen == mid || seen == end,
    ensures
        seen == start || after_changes(start, actions, actions.len() as int) == Ok::<
            TocView<C>,
            ErrorView,
        >(seen),
        last == AliasStep::Finished(Ok(true)) ==> mid == end && after_changes(
            start,
            actions,
            actions.len() as int,
        ) == Ok::<TocView<C>, ErrorView>(end),
{
    law_alias_operation(start, actions, mid, begun, saved, end, last);
}

/// Changes of aliases leave the collections, the settings and the peer alone.
pub proof fn law_alias_changes_keep_collections<C>(
    toc: TocView<C>,
    actions: Seq<AliasOperations>,
    n: int,
)
    ensures
        after_changes(toc, actions, n) matches Ok(after) ==> {
            &&& after.collections == toc.collections
            &&& after.storage_config == toc.storage_config
            &&& after.this_peer_id == toc.this_peer_id
        },
    decreases n,
{
    if n > 0 {
        law_alias_changes_keep_collections(toc, actions, n - 1);
    }
}

/// A new alias leads to its collection. No other name leads elsewhere than before.
pub proof fn law_created_alias_resolves<C>(toc: TocView<C>, action: AliasOperations)
    requires
        action is CreateAlias,
    ensures
        ({
            let create = action->CreateAlias_0.create_alias;
            match alias_effect(toc, action) {
                Ok(aliases) => {
                    let after = toc.with_aliases(aliases);
                    &&& toc.has(create.collection_name@)
                    &&& !toc.has(create.alias_name@)
                    &&& after.resolve(create.alias_name@) == Some(create.collection_name@)
                    &&& forall|name: Seq<char>|
                        name != create.alias_name@ ==> #[trigger] after.resolve(name)
                            == toc.resolve(name)
                },
                Err(_) => !toc.has(create.collection_name@) || toc.has(create.alias_name@),
            }
        }),
{
}

/// A name that no longer is an alias stands for itself. No other name leads elsewhere than before.
pub proof fn law_deleted_alias_is_gone<C>(toc: TocView<C>, action: AliasOperations)
    requires
        action is DeleteAlias,
    ensures
        ({
            let alias = action->DeleteAlias_0.delete_alias.alias_name@;
            &&& alias_effect(toc, action) matches Ok(aliases)
            &&& {
                let after = toc.with_aliases(aliases);
                &&& after.target(alias) == alias
                &&& forall|name: Seq<char>|
                    name != alias ==> #[trigger] after.resolve(name) == toc.resolve(name)
            }
        }),
{
}

/// A renamed alias leads where it led before, unless there is a collection of its old name, to
/// which that led, or of its new name, to which this leads. Names other than these two lead where
/// they led.
pub proof fn law_renamed_alias_resolves<C>(toc: TocView<C>, action: AliasOperations)
    requires
        action is RenameAlias,
    ensures
        ({
            let rename = action->RenameAlias_0.rename_alias;
            let old_name = rename.old_alias_name@;
            let new_name = rename.new_alias_name@;
            match alias_effect(toc, action) {
                Ok(aliases) => {
                    let after = toc.with_aliases(aliases);
                    &&& toc.aliases.contains_key(old_name)
                    &&& !toc.has(old_name) && !toc.has(new_name) ==> after.resolve(new_name)
                        == toc.resolve(old_name)
                    &&& toc.has(new_name) ==> after.resolve(new_name) == Some(new_name)
                    &&& toc.has(old_name) ==> after.resolve(old_name) == Some(old_name)
                    &&& old_name != new_name ==> after.target(old_name) == old_name
                    &&& forall|name: Seq<char>|
                        name != old_name && name != new_name ==> #[trigger] after.resolve(name)
                            == toc.resolve(name)
                },
                Err(_) => !toc.aliases.contains_key(old_name),
            }
        }),
{
}

/// To rename an alias and to rename it back changes nothing, unless the new name was that of
/// another alias, which is then gone.
pub proof fn law_rename_back<C>(toc: TocView<C>, there: AliasOperations, back: AliasOperations)
    requires
        there is RenameAlias,
        back is RenameAlias,
        ({
            let a = there->RenameAlias_0.rename_alias;
            let b = back->RenameAlias_0.rename_alias;
            &&& a.old_alias_name@ == b.new_alias_name@
            &&& a.new_alias_name@ == b.old_alias_name@
            &&& toc.aliases.contains_key(a.new_alias_name@) ==> a.new_alias_name@
                == a.old_alias_name@
        }),
    ensures
        alias_effect(toc, there) matches Ok(aliases) ==> alias_effect(
            toc.with_aliases(aliases),
            back,
        ) == Ok::<Map<Seq<char>, Seq<char>>, ErrorView>(toc.aliases),
{
    if let Ok(aliases) = alias_effect(toc, there) {
        let a = there->RenameAlias_0.rename_alias;
        assert(aliases.remove(a.new_alias_name@).insert(
            a.old_alias_name@,
            aliases[a.new_alias_name@],
        ) =~= toc.aliases);
    }
}

/// To make an alias and to delete it changes nothing, if there was no alias of that name.
pub proof fn law_create_then_delete_alias<C>(
    toc: TocView<C>,
    create: AliasOperations,
    delete: AliasOperations,
)
    requires
        create is CreateAlias,
        delete is DeleteAlias,
        create->CreateAlias_0.create_alias.alias_name@
            == delete->DeleteAlias_0.delete_alias.alias_name@,
        !toc.aliases.contains_key(create->CreateAlias_0.create_alias.alias_name@),
    ensures
        alias_effect(toc, create) matches Ok(aliases) ==> alias_effect(
            toc.with_aliases(aliases),
            delete,
        ) == Ok::<Map<Seq<char>, Seq<char>>, ErrorView>(toc.aliases),
{
    if let Ok(aliases) = alias_effect(toc, create) {
        assert(aliases.remove(create->CreateAlias_0.create_alias.alias_name@) =~= toc.aliases);
    }
}

/// The aliases that are listed for a name are those that stand for it. As long as there is a
/// collection of that name they lead to it, but for those that have the name of a collection
/// themselves.
pub proof fn law_listed_alias_resolves<C>(toc: TocView<C>, name: Seq<char>, alias: Seq<char>)
    ensures
        aliases_of(toc.aliases, name).contains(alias) <==> toc.aliases.contains_key(alias)
            && toc.aliases[alias] == name,
        aliases_of(toc.aliases, name).contains(alias) && toc.has(name) && !toc.has(alias)
            ==> toc.resolve(alias) == Some(name),
{
}

} // verus!
