//! Changing aliases.
//!
//! The changes of one operation are made together or not at all. They are worked out on a copy of
//! the aliases, one after the other. If one of them is refused, nothing changes. Else the copy
//! takes the place of the aliases and is saved; if it cannot be saved, the aliases from before
//! come back.

use crate::alias_mapping::AliasMapping;
use crate::errors::{
    alias_missing_error, collection_exists_error, collection_missing_error, ErrorView, StorageError,
};
use crate::model::TocView;
use crate::operations::{
    AliasOperations, ChangeAliasesOperation, CreateAlias, CreateAliasOperation, DeleteAlias,
    DeleteAliasOperation, RenameAlias, RenameAliasOperation,
};
use crate::toc::TableOfContent;
use vstd::prelude::*;

verus! {

/// Changes that are made and are to be saved, with the aliases from before.
pub struct AliasChanges {
    before: AliasMapping,
}

/// What an `AliasChanges` says.
pub struct AliasChangesView {
    pub before: Map<Seq<char>, Seq<char>>,
}

impl View for AliasChanges {
    type V = AliasChangesView;

    closed spec fn view(&self) -> AliasChangesView {
        AliasChangesView { before: self.before@ }
    }
}

/// The next thing that is to be done for a change of aliases.
pub enum AliasStep {
    /// Save the aliases, then go on with `aliases_saved`.
    Save(AliasChanges),
    /// The operation is over.
    Finished(Result<bool, StorageError>),
}

/// The aliases after a change, or why it is refused.
///
/// A new alias must stand for a collection that there is, and must not have the name of one.
/// It may have the name of an alias, which then stands for the new collection. To delete an
/// alias that there is not changes nothing; to rename one is refused.
pub open spec fn alias_effect<C>(toc: TocView<C>, action: AliasOperations) -> Result<
    Map<Seq<char>, Seq<char>>,
    ErrorView,
> {
    match action {
        AliasOperations::CreateAlias(op) => {
            let collection_name = op.create_alias.collection_name@;
            let alias_name = op.create_alias.alias_name@;
            if !toc.has(collection_name) {
                Err(collection_missing_error(collection_name))
            } else if toc.has(alias_name) {
                Err(collection_exists_error(alias_name))
            } else {
                Ok(toc.aliases.insert(alias_name, collection_name))
            }
        },
        AliasOperations::DeleteAlias(op) => Ok(toc.aliases.remove(op.delete_alias.alias_name@)),
        AliasOperations::RenameAlias(op) => {
            let old_name = op.rename_alias.old_alias_name@;
            let new_name = op.rename_alias.new_alias_name@;
            if toc.aliases.contains_key(old_name) {
                Ok(toc.aliases.remove(old_name).insert(new_name, toc.aliases[old_name]))
            } else {
                Err(alias_missing_error(old_name))
            }
        },
    }
}

/// The table after the first `n` changes, made one after the other, or why the first of them that
/// is refused is refused.
pub open spec fn after_changes<C>(
    toc: TocView<C>,
    actions: Seq<AliasOperations>,
    n: int,
) -> Result<TocView<C>, ErrorView>
    decreases n,
{
    if n <= 0 {
        Ok(toc)
    } else {
        match after_changes(toc, actions, n - 1) {
            Ok(before) => match alias_effect(before, actions[n - 1]) {
                Ok(aliases) => Ok(before.with_aliases(aliases)),
                Err(error) => Err(error),
            },
            Err(error) => Err(error),
        }
    }
}

/// What a refused change does to those after it.
pub proof fn lemma_refused<C>(toc: TocView<C>, actions: Seq<AliasOperations>, i: int, n: int)
    requires
        i <= n,
        after_changes(toc, actions, i) is Err,
    ensures
        after_changes(toc, actions, n) == after_changes(toc, actions, i),
    decreases n - i,
{
    if i < n {
        lemma_refused(toc, actions, i, n - 1);
    }
}

/// `step` is what follows on an operation, and `post` is the table then: all changes are made and
/// are to be saved, or one of them is refused and none is made, or there are none.
pub open spec fn aliases_changed<C>(
    pre: TocView<C>,
    actions: Seq<AliasOperations>,
    post: TocView<C>,
    step: AliasStep,
) -> bool {
    match after_changes(pre, actions, actions.len() as int) {
        Ok(after) => if actions.len() > 0 {
            &&& post == after
            &&& step matches AliasStep::Save(changes)
            &&& changes@.before == pre.aliases
        } else {
            &&& post == pre
            &&& step == AliasStep::Finished(Ok(true))
        },
        Err(error) => {
            &&& post == pre
            &&& step matches AliasStep::Finished(Err(e)) && e@ == error
        },
    }
}

/// `step` is what follows once it was tried to save the aliases: the operation is over, and the
/// aliases from before are back if they could not be saved.
pub open spec fn after_save<C>(
    pre: TocView<C>,
    changes: AliasChangesView,
    outcome: Result<(), StorageError>,
    post: TocView<C>,
    step: AliasStep,
) -> bool {
    match outcome {
        Ok(_) => {
            &&& post == pre
            &&& step == AliasStep::Finished(Ok(true))
        },
        Err(e) => {
            &&& post == pre.with_aliases(changes.before)
            &&& step == AliasStep::Finished(Err(e))
        },
    }
}

impl<C> TableOfContent<C> {
    /// Makes a change to aliases that are to be those of this table.
    fn change_alias(&self, aliases: &mut AliasMapping, action: &AliasOperations) -> (res: Result<
        (),
        StorageError,
    >)
        ensures
            match alias_effect(self@.with_aliases(old(aliases)@), *action) {
                Ok(changed) => res is Ok && final(aliases)@ == changed,
                Err(error) => {
                    &&& res matches Err(e) && e@ == error
                    &&& final(aliases)@ == old(aliases)@
                },
            },
    {
        match action {
            AliasOperations::CreateAlias(
                CreateAliasOperation { create_alias: CreateAlias { collection_name, alias_name } },
            ) => {
                match self.validate_collection_exists(collection_name.as_str()) {
                    Ok(_) => {},
                    Err(e) => {
                        return Err(e);
                    },
                }
                match self.validate_collection_not_exists(alias_name.as_str()) {
                    Ok(_) => {},
                    Err(e) => {
                        return Err(e);
                    },
                }
                aliases.insert(alias_name.clone(), collection_name.clone());
                Ok(())
            },
            AliasOperations::DeleteAlias(
                DeleteAliasOperation { delete_alias: DeleteAlias { alias_name } },
            ) => {
                aliases.remove(alias_name.as_str());
                Ok(())
            },
            AliasOperations::RenameAlias(
                RenameAliasOperation {
                    rename_alias: RenameAlias { old_alias_name, new_alias_name },
                },
            ) => aliases.rename_alias(old_alias_name.as_str(), new_alias_name.clone()),
        }
    }

    /// Performs several alias changes in an atomic fashion: all of them, or none if one is refused.
    pub fn update_aliases(&mut self, operation: ChangeAliasesOperation) -> (res: AliasStep)
        ensures
            aliases_changed(old(self)@, operation.actions@, final(self)@, res),
    {
        let actions = operation.actions;
        let ghost start = self@;
        let mut aliases = self.alias_mapping().state();
        assert(start.with_aliases(aliases@) == start);
        for i in 0..actions.len()
            invariant
                start == old(self)@,
                actions@ == operation.actions@,
                self@ == start,
                after_changes(start, actions@, i as int) == Ok::<TocView<C>, ErrorView>(
                    start.with_aliases(aliases@),
                ),
        {
            match self.change_alias(&mut aliases, &actions[i]) {
                Ok(_) => {},
                Err(e) => {
                    proof {
                        lemma_refused(start, actions@, i + 1, actions@.len() as int);
                    }
                    return AliasStep::Finished(Err(e));
                },
            }
        }
        if actions.len() == 0 {
            return AliasStep::Finished(Ok(true));
        }
        std::mem::swap(self.aliases_mut(), &mut aliases);
        AliasStep::Save(AliasChanges { before: aliases })
    }

    /// Ends the changes once it was tried to save the aliases.
    pub fn aliases_saved(
        &mut self,
        changes: AliasChanges,
        outcome: Result<(), StorageError>,
    ) -> (res: AliasStep)
        ensures
            after_save(old(self)@, changes@, outcome, final(self)@, res),
    {
        match outcome {
            Ok(_) => AliasStep::Finished(Ok(true)),
            Err(e) => {
                self.aliases_mut().apply_state(changes.before);
                AliasStep::Finished(Err(e))
            },
        }
    }
}

} // verus!
