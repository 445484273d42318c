//! Making, changing and deleting collections, and changing aliases.

use storage::alias_changes::AliasStep;
use storage::alias_mapping::AliasMapping;
use storage::config::{
    Distance, HnswConfig, HnswConfigDiff, OptimizersConfig, OptimizersConfigDiff, ShardCount,
    StorageConfig, WalConfig, WalConfigDiff,
};
use storage::creation::{create_collection_path, BuildRequest, ConfigStep, DirectoryRequest};
use storage::errors::StorageError;
use storage::meta_ops::{directory_removed, optimizer_params_updated, DeletionStep, MetaOpStep};
use storage::operations::{
    AliasOperations, ChangeAliasesOperation, CollectionMetaOperations, CreateAlias,
    CreateAliasOperation, CreateCollection, CreateCollectionOperation, DeleteAlias,
    DeleteAliasOperation, DeleteCollectionOperation, RenameAlias, RenameAliasOperation,
    UpdateCollection, UpdateCollectionOperation,
};
use storage::shard_distribution::{CollectionShardDistribution, ShardDistributionProposal};
use storage::toc::TableOfContent;

fn config() -> StorageConfig {
    StorageConfig {
        storage_path: "./storage".to_string(),
        on_disk_payload: true,
        optimizers: OptimizersConfig { settings: "opt".to_string() },
        wal: WalConfig { settings: "wal".to_string() },
        hnsw_index: HnswConfig { settings: "hnsw".to_string() },
    }
}

fn table(names: &[&str], aliases: &[(&str, &str)]) -> TableOfContent<String> {
    let loaded = names.iter().map(|n| (n.to_string(), format!("handle of {}", n))).collect();
    let mut mapping = AliasMapping::new();
    for (alias, target) in aliases {
        mapping.insert(alias.to_string(), target.to_string());
    }
    TableOfContent::new(&config(), loaded, mapping, 7)
}

fn plain() -> CreateCollection {
    CreateCollection {
        vector_size: 4,
        distance: Distance::Cosine,
        shard_number: None,
        on_disk_payload: None,
        hnsw_config: None,
        wal_config: None,
        optimizers_config: None,
    }
}

fn all_diffs() -> CreateCollection {
    CreateCollection {
        hnsw_config: Some(HnswConfigDiff { settings: "+h".to_string() }),
        wal_config: Some(WalConfigDiff { settings: "+w".to_string() }),
        optimizers_config: Some(OptimizersConfigDiff { settings: "+o".to_string() }),
        ..plain()
    }
}

fn failure(text: &str) -> StorageError {
    StorageError::ServiceError { description: text.to_string() }
}

fn request(toc: &TableOfContent<String>, name: &str, operation: CreateCollection) -> DirectoryRequest {
    toc.create_collection(name, operation, CollectionShardDistribution::AllLocal).ok().unwrap()
}

/// Applies every change by appending it.
fn settle(toc: &TableOfContent<String>, mut step: ConfigStep) -> BuildRequest {
    loop {
        step = match step {
            ConfigStep::UpdateWal(update) => {
                let settings = format!("{}{}", update.base.settings, update.diff.settings);
                toc.wal_updated(update, Ok(WalConfig { settings })).ok().unwrap()
            }
            ConfigStep::UpdateOptimizers(update) => {
                let settings = format!("{}{}", update.base.settings, update.diff.settings);
                toc.optimizers_updated(update, Ok(OptimizersConfig { settings })).ok().unwrap()
            }
            ConfigStep::UpdateHnsw(update) => {
                let settings = format!("{}{}", update.base.settings, update.diff.settings);
                toc.hnsw_updated(update, Ok(HnswConfig { settings })).ok().unwrap()
            }
            ConfigStep::Build(request) => return request,
        };
    }
}

#[test]
fn a_collection_is_made_step_by_step() {
    let mut toc = table(&["a"], &[]);
    let request = request(&toc, "new", plain());
    assert_eq!(request.collection_name, "new");
    assert_eq!(request.path.parts, ["./storage", "collections", "new"]);
    let step = toc.directory_created(request, Ok(())).ok().unwrap();
    let build = settle(&toc, step);
    assert_eq!(build.collection_name, "new");
    assert_eq!(build.path.parts, ["./storage", "collections", "new"]);
    assert_eq!(build.config.params.vector_size, 4);
    assert_eq!(build.config.params.distance, Distance::Cosine);
    assert_eq!(build.config.params.shard_number.get(), 1);
    assert!(build.config.params.on_disk_payload);
    assert_eq!(build.config.wal_config.settings, "wal");
    assert_eq!(build.config.optimizer_config.settings, "opt");
    assert_eq!(build.config.hnsw_config.settings, "hnsw");
    assert!(matches!(build.distribution, CollectionShardDistribution::AllLocal));
    assert!(toc.get_collection("new").is_err());
    let res = toc.collection_built(build.collection_name, Ok("fresh".to_string()));
    assert_eq!(res.unwrap(), true);
    assert_eq!(toc.get_collection("new").unwrap(), "fresh");
    assert_eq!(toc.get_collection("a").unwrap(), "handle of a");
}

#[test]
fn settings_of_the_operation_go_first() {
    let toc = table(&[], &[]);
    let operation =
        CreateCollection { shard_number: Some(3), on_disk_payload: Some(false), ..all_diffs() };
    let step = toc.directory_created(request(&toc, "new", operation), Ok(())).ok().unwrap();
    let build = settle(&toc, step);
    assert_eq!(build.config.params.shard_number.get(), 3);
    assert!(!build.config.params.on_disk_payload);
    assert_eq!(build.config.wal_config.settings, "wal+w");
    assert_eq!(build.config.optimizer_config.settings, "opt+o");
    assert_eq!(build.config.hnsw_config.settings, "hnsw+h");
}

#[test]
fn only_changed_sections_are_asked_for() {
    let toc = table(&[], &[]);
    let operation = CreateCollection { wal_config: None, optimizers_config: None, ..all_diffs() };
    match toc.directory_created(request(&toc, "new", operation), Ok(())) {
        Ok(ConfigStep::UpdateHnsw(update)) => {
            assert_eq!(update.diff.settings, "+h");
            assert_eq!(update.base.settings, "hnsw");
            assert_eq!(update.wal_config.settings, "wal");
            assert_eq!(update.optimizer_config.settings, "opt");
        }
        _ => panic!("only the vector index changes"),
    }
    let operation = CreateCollection { wal_config: None, hnsw_config: None, ..all_diffs() };
    let step = toc.directory_created(request(&toc, "new", operation), Ok(()));
    assert!(matches!(step, Ok(ConfigStep::UpdateOptimizers(_))));
}

#[test]
fn the_first_section_that_fails_gives_the_error() {
    let toc = table(&[], &[]);
    match toc.directory_created(request(&toc, "new", all_diffs()), Ok(())) {
        Ok(ConfigStep::UpdateWal(update)) => {
            let e = toc.wal_updated(update, Err(failure("no wal"))).err().unwrap();
            assert_eq!(e.description(), "no wal");
        }
        _ => panic!("the log comes first"),
    }
    let operation = CreateCollection { wal_config: None, ..all_diffs() };
    match toc.directory_created(request(&toc, "new", operation), Ok(())) {
        Ok(ConfigStep::UpdateOptimizers(update)) => {
            let e = toc.optimizers_updated(update, Err(failure("no optimizers"))).err().unwrap();
            assert_eq!(e.description(), "no optimizers");
        }
        _ => panic!("the optimizers come next"),
    }
    let operation = CreateCollection { wal_config: None, optimizers_config: None, ..all_diffs() };
    match toc.directory_created(request(&toc, "new", operation), Ok(())) {
        Ok(ConfigStep::UpdateHnsw(update)) => {
            let e = toc.hnsw_updated(update, Err(failure("no index"))).err().unwrap();
            assert_eq!(e.description(), "no index");
        }
        _ => panic!("the index comes last"),
    }
}

#[test]
fn a_taken_name_is_refused() {
    let toc = table(&["a"], &[]);
    match toc.create_collection("a", plain(), CollectionShardDistribution::AllLocal) {
        Err(StorageError::BadInput { description }) => {
            assert_eq!(description, "Collection `a` already exists!");
        }
        _ => panic!("the name is taken"),
    }
}

#[test]
fn a_collection_may_have_the_name_of_an_alias() {
    let mut toc = table(&["a"], &[("x", "a")]);
    let step = toc.directory_created(request(&toc, "x", plain()), Ok(())).ok().unwrap();
    let build = settle(&toc, step);
    assert!(toc.collection_built(build.collection_name, Ok("fresh".to_string())).unwrap());
    assert_eq!(toc.collection("x").unwrap(), "fresh");
    assert_eq!(toc.resolve_name("x").unwrap(), "x");
    assert_eq!(toc.get_collection("x").unwrap(), "fresh");
    assert!(matches!(toc.delete_collection("a"), DeletionStep::RemoveDirectory { .. }));
    assert_eq!(toc.get_collection("x").unwrap(), "fresh");
    assert!(matches!(toc.delete_collection("x"), DeletionStep::RemoveDirectory { .. }));
    assert!(toc.get_collection("x").is_err());
}

#[test]
fn the_name_of_a_deleted_collection_may_go_on_as_an_alias() {
    let mut toc = table(&["a", "x"], &[("x", "a")]);
    assert_eq!(toc.get_collection("x").unwrap(), "handle of x");
    let _ = toc.delete_collection("x");
    assert_eq!(toc.get_collection("x").unwrap(), "handle of a");
}

#[test]
fn a_directory_that_cannot_be_made_is_an_error() {
    let toc = table(&[], &[]);
    match toc.directory_created(request(&toc, "new", plain()), Err("disk full".to_string())) {
        Err(StorageError::ServiceError { description }) => {
            assert_eq!(description, "Can't create directory for collection new. Error: disk full");
        }
        _ => panic!("there is no directory"),
    }
    assert!(create_collection_path("new", Ok(())).is_ok());
    assert!(create_collection_path("new", Err("disk full".to_string())).is_err());
}

#[test]
fn zero_shards_are_refused_once_the_directory_is_there() {
    assert!(ShardCount::new(0).is_none());
    let toc = table(&[], &[]);
    let none = || CreateCollection { shard_number: Some(0), ..all_diffs() };
    match toc.directory_created(request(&toc, "new", none()), Ok(())) {
        Err(StorageError::BadInput { description }) => {
            assert_eq!(description, "`shard_number` cannot be 0");
        }
        _ => panic!("there are no shards"),
    }
    let e = toc.directory_created(request(&toc, "new", none()), Err("x".to_string())).err().unwrap();
    assert!(matches!(e, StorageError::ServiceError { .. }));
}

#[test]
fn a_collection_that_cannot_be_made_is_an_error() {
    let mut toc = table(&["a"], &[]);
    let e = toc.collection_built("new".to_string(), Err(failure("no room"))).err().unwrap();
    assert_eq!(e.description(), "no room");
    assert_eq!(toc.all_collections(), ["a"]);
}

#[test]
fn of_two_collections_of_one_name_the_first_to_be_made_stays() {
    let mut toc = table(&[], &[]);
    let first = request(&toc, "new", plain());
    let second = request(&toc, "new", plain());
    assert!(toc.collection_built(first.collection_name, Ok("first".to_string())).unwrap());
    match toc.collection_built(second.collection_name, Ok("second".to_string())) {
        Err(StorageError::BadInput { description }) => {
            assert_eq!(description, "Collection `new` already exists!");
        }
        _ => panic!("the name is taken by now"),
    }
    assert_eq!(toc.get_collection("new").unwrap(), "first");
}

#[test]
fn a_distributed_collection_is_split_between_the_peers() {
    let toc = table(&[], &[]);
    let proposal = ShardDistributionProposal { distribution: vec![(0, 7), (1, 8), (2, 7), (3, 9)] };
    assert_eq!(proposal.local_shards_for(8), [1]);
    assert_eq!(proposal.remote_shards_for(8), [(0, 7), (2, 7), (3, 9)]);
    assert!(proposal.local_shards_for(1).is_empty());
    assert_eq!(
        proposal.local_shards_for(7).len() + proposal.remote_shards_for(7).len(),
        proposal.distribution.len()
    );
    let operation =
        CreateCollectionOperation { collection_name: "new".to_string(), create_collection: plain() };
    match toc.perform_collection_meta_op(CollectionMetaOperations::CreateCollectionDistributed(
        operation, proposal,
    )) {
        MetaOpStep::CreateDirectory(request) => match request.distribution {
            CollectionShardDistribution::Distribution { local, remote } => {
                assert_eq!(local, [0, 2]);
                assert_eq!(remote, [(1, 8), (3, 9)]);
            }
            _ => panic!("not all shards are here"),
        },
        _ => panic!("the name is free"),
    }
}

#[test]
fn operations_begin_as_they_are() {
    let toc = table(&["a"], &[]);
    let create = |name: &str| {
        CollectionMetaOperations::CreateCollection(CreateCollectionOperation {
            collection_name: name.to_string(),
            create_collection: plain(),
        })
    };
    match toc.perform_collection_meta_op(create("new")) {
        MetaOpStep::CreateDirectory(request) => {
            assert_eq!(request.collection_name, "new");
            assert!(matches!(request.distribution, CollectionShardDistribution::AllLocal));
        }
        _ => panic!("the name is free"),
    }
    match toc.perform_collection_meta_op(create("a")) {
        MetaOpStep::Finished(Err(StorageError::BadInput { .. })) => {}
        _ => panic!("the name is taken"),
    }
    match toc.perform_collection_meta_op(CollectionMetaOperations::DeleteCollection(
        DeleteCollectionOperation("a".to_string()),
    )) {
        MetaOpStep::DeleteCollection { collection_name } => assert_eq!(collection_name, "a"),
        _ => panic!("it is a deletion"),
    }
    match toc.perform_collection_meta_op(CollectionMetaOperations::ChangeAliases(
        ChangeAliasesOperation { actions: vec![delete_alias("x")] },
    )) {
        MetaOpStep::ChangeAliases(operation) => assert_eq!(operation.actions.len(), 1),
        _ => panic!("it is a change of aliases"),
    }
}

fn update(name: &str, diff: Option<&str>) -> CollectionMetaOperations {
    CollectionMetaOperations::UpdateCollection(UpdateCollectionOperation {
        collection_name: name.to_string(),
        update_collection: UpdateCollection {
            optimizers_config: diff.map(|d| OptimizersConfigDiff { settings: d.to_string() }),
        },
    })
}

#[test]
fn the_optimizers_of_a_collection_change() {
    let toc = table(&["a"], &[("x", "a")]);
    match toc.perform_collection_meta_op(update("x", Some("+o"))) {
        MetaOpStep::UpdateOptimizers { collection, diff } => {
            assert_eq!(collection, "handle of a");
            assert_eq!(diff.settings, "+o");
        }
        _ => panic!("the collection is there"),
    }
    assert_eq!(optimizer_params_updated(Ok(())).unwrap(), true);
    let e = optimizer_params_updated(Err(failure("bad diff"))).err().unwrap();
    assert_eq!(e.description(), "bad diff");
}

#[test]
fn a_change_of_an_unknown_collection_is_refused() {
    let toc = table(&["a"], &[]);
    match toc.perform_collection_meta_op(update("b", Some("+o"))) {
        MetaOpStep::Finished(Err(StorageError::NotFound { description })) => {
            assert_eq!(description, "Collection `b` doesn't exist!");
        }
        _ => panic!("there is no such collection"),
    }
}

#[test]
fn a_change_of_nothing_goes_well_for_any_name() {
    let toc = table(&["a"], &[]);
    for name in ["a", "b"] {
        match toc.perform_collection_meta_op(update(name, None)) {
            MetaOpStep::Finished(Ok(done)) => assert!(done),
            _ => panic!("there is nothing to change"),
        }
    }
}

#[test]
fn a_collection_is_deleted() {
    let mut toc = table(&["a", "b"], &[("x", "a")]);
    match toc.delete_collection("a") {
        DeletionStep::RemoveDirectory { collection, collection_name, path } => {
            assert_eq!(collection, "handle of a");
            assert_eq!(collection_name, "a");
            assert_eq!(path.parts, ["./storage", "collections", "a"]);
        }
        _ => panic!("the collection is there"),
    }
    assert_eq!(toc.all_collections(), ["b"]);
    assert!(toc.get_collection("a").is_err());
    assert!(toc.get_collection("x").is_err());
    assert_eq!(toc.collection_aliases("a").unwrap(), ["x"]);
    assert_eq!(directory_removed("a", Ok(())).unwrap(), true);
    match directory_removed("a", Err("busy".to_string())) {
        Err(StorageError::ServiceError { description }) => {
            assert_eq!(description, "Can't delete collection a, error: busy");
        }
        _ => panic!("the directory is still there"),
    }
}

#[test]
fn a_collection_is_gone_though_its_directory_stays() {
    let mut toc = table(&["a", "b"], &[]);
    match toc.delete_collection("a") {
        DeletionStep::RemoveDirectory { collection_name, .. } => {
            assert!(directory_removed(&collection_name, Err("busy".to_string())).is_err());
        }
        DeletionStep::Finished(_) => panic!("nothing to remove"),
    }
    assert!(toc.get_collection("a").is_err());
    assert!(toc.get_collection("b").is_ok());
    assert!(matches!(toc.delete_collection("a"), DeletionStep::Finished(Ok(false))));
}

#[test]
fn a_collection_that_is_not_there_is_not_deleted() {
    let mut toc = table(&["a"], &[("x", "a")]);
    for name in ["b", "x"] {
        match toc.delete_collection(name) {
            DeletionStep::Finished(Ok(deleted)) => assert!(!deleted),
            _ => panic!("there is no such collection"),
        }
    }
    assert_eq!(toc.all_collections(), ["a"]);
}

#[test]
fn to_make_and_to_delete_leaves_nothing() {
    let mut toc = table(&["a"], &[]);
    assert!(toc.collection_built("new".to_string(), Ok("fresh".to_string())).unwrap());
    assert!(matches!(toc.delete_collection("new"), DeletionStep::RemoveDirectory { .. }));
    assert_eq!(toc.all_collections(), ["a"]);
    assert!(matches!(toc.delete_collection("new"), DeletionStep::Finished(Ok(false))));
}

fn create_alias(alias: &str, collection: &str) -> AliasOperations {
    AliasOperations::CreateAlias(CreateAliasOperation {
        create_alias: CreateAlias {
            collection_name: collection.to_string(),
            alias_name: alias.to_string(),
        },
    })
}

fn delete_alias(alias: &str) -> AliasOperations {
    AliasOperations::DeleteAlias(DeleteAliasOperation {
        delete_alias: DeleteAlias { alias_name: alias.to_string() },
    })
}

fn rename_alias(from: &str, to: &str) -> AliasOperations {
    AliasOperations::RenameAlias(RenameAliasOperation {
        rename_alias: RenameAlias {
            old_alias_name: from.to_string(),
            new_alias_name: to.to_string(),
        },
    })
}

/// Makes the changes. `saved` is what comes of saving the aliases.
fn change_with(
    toc: &mut TableOfContent<String>,
    actions: Vec<AliasOperations>,
    saved: Result<(), StorageError>,
) -> Result<bool, StorageError> {
    match toc.update_aliases(ChangeAliasesOperation { actions }) {
        AliasStep::Save(changes) => match toc.aliases_saved(changes, saved) {
            AliasStep::Finished(res) => res,
            AliasStep::Save(_) => panic!("the aliases are saved once"),
        },
        AliasStep::Finished(res) => res,
    }
}

fn change(
    toc: &mut TableOfContent<String>,
    actions: Vec<AliasOperations>,
) -> Result<bool, StorageError> {
    change_with(toc, actions, Ok(()))
}

fn entries(toc: &TableOfContent<String>) -> Vec<(String, String)> {
    let mut res = toc.alias_mapping().entries();
    res.sort();
    res
}

fn pairs(aliases: &[(&str, &str)]) -> Vec<(String, String)> {
    aliases.iter().map(|(a, c)| (a.to_string(), c.to_string())).collect()
}

#[test]
fn aliases_are_made_renamed_and_deleted() {
    let mut toc = table(&["a", "b"], &[("x", "a")]);
    let actions = vec![create_alias("y", "b"), rename_alias("x", "z"), delete_alias("nothing")];
    assert_eq!(change(&mut toc, actions).unwrap(), true);
    assert_eq!(entries(&toc), pairs(&[("y", "b"), ("z", "a")]));
    assert_eq!(toc.resolve_name("y").unwrap(), "b");
    assert_eq!(toc.resolve_name("z").unwrap(), "a");
    assert!(toc.resolve_name("x").is_err());
    assert_eq!(change(&mut toc, vec![delete_alias("y")]).unwrap(), true);
    assert_eq!(entries(&toc), pairs(&[("z", "a")]));
}

#[test]
fn an_alias_is_switched_to_another_collection() {
    let mut toc = table(&["a", "b"], &[("x", "a")]);
    let actions = vec![delete_alias("x"), create_alias("x", "b")];
    assert!(change(&mut toc, actions).unwrap());
    assert_eq!(toc.get_collection("x").unwrap(), "handle of b");
    assert!(change(&mut toc, vec![create_alias("x", "a")]).unwrap());
    assert_eq!(toc.get_collection("x").unwrap(), "handle of a");
}

#[test]
fn no_changes_go_well() {
    let mut toc = table(&["a"], &[("x", "a")]);
    assert_eq!(change_with(&mut toc, vec![], Err(failure("not saved"))).unwrap(), true);
    assert_eq!(entries(&toc), pairs(&[("x", "a")]));
}

#[test]
fn an_alias_of_no_collection_is_refused() {
    let mut toc = table(&["a"], &[("x", "a")]);
    match change(&mut toc, vec![create_alias("y", "x")]) {
        Err(StorageError::NotFound { description }) => {
            assert_eq!(description, "Collection `x` doesn't exist!");
        }
        _ => panic!("an alias is no collection"),
    }
    assert_eq!(entries(&toc), pairs(&[("x", "a")]));
}

#[test]
fn an_alias_with_the_name_of_a_collection_is_refused() {
    let mut toc = table(&["a", "b"], &[]);
    match change(&mut toc, vec![create_alias("b", "a")]) {
        Err(StorageError::BadInput { description }) => {
            assert_eq!(description, "Collection `b` already exists!");
        }
        _ => panic!("the name is taken"),
    }
    assert!(entries(&toc).is_empty());
}

#[test]
fn an_alias_that_is_not_there_cannot_be_renamed() {
    let mut toc = table(&["a"], &[("x", "a")]);
    match change(&mut toc, vec![rename_alias("y", "z")]) {
        Err(StorageError::NotFound { description }) => {
            assert_eq!(description, "Alias y does not exist!");
        }
        _ => panic!("there is no such alias"),
    }
    assert_eq!(entries(&toc), pairs(&[("x", "a")]));
}

#[test]
fn no_change_is_made_if_one_is_refused() {
    let mut toc = table(&["c1"], &[]);
    let actions = vec![create_alias("a", "c1"), create_alias("b", "nope"), create_alias("d", "c1")];
    match change(&mut toc, actions) {
        Err(StorageError::NotFound { description }) => {
            assert_eq!(description, "Collection `nope` doesn't exist!");
        }
        _ => panic!("there is no such collection"),
    }
    assert!(toc.collection_aliases("c1").unwrap().is_empty());
    assert!(toc.collection_aliases("nope").unwrap().is_empty());
    assert!(toc.get_collection("a").is_err());
}

#[test]
fn refused_changes_leave_all_kinds_of_changes_undone() {
    let mut toc = table(&["a", "b"], &[("x", "a"), ("y", "b")]);
    let before = entries(&toc);
    let actions = vec![
        delete_alias("x"),
        rename_alias("y", "z"),
        create_alias("w", "a"),
        rename_alias("x", "v"),
        create_alias("a", "b"),
    ];
    match change(&mut toc, actions) {
        Err(StorageError::NotFound { description }) => {
            assert_eq!(description, "Alias x does not exist!");
        }
        _ => panic!("the alias is deleted by then"),
    }
    assert_eq!(entries(&toc), before);
}

#[test]
fn aliases_that_cannot_be_saved_are_as_they_were() {
    let mut toc = table(&["a"], &[("w", "a")]);
    let before = entries(&toc);
    let actions = vec![create_alias("x", "a"), delete_alias("w"), create_alias("z", "a")];
    let e = change_with(&mut toc, actions, Err(failure("not saved"))).err().unwrap();
    assert_eq!(e.description(), "not saved");
    assert_eq!(entries(&toc), before);
}

#[test]
fn all_changes_are_there_when_they_are_to_be_saved() {
    let mut toc = table(&["a", "b"], &[("x", "a")]);
    let actions = vec![delete_alias("x"), create_alias("x", "b"), create_alias("y", "a")];
    match toc.update_aliases(ChangeAliasesOperation { actions }) {
        AliasStep::Save(changes) => {
            assert_eq!(entries(&toc), pairs(&[("x", "b"), ("y", "a")]));
            assert!(matches!(toc.aliases_saved(changes, Ok(())), AliasStep::Finished(Ok(true))));
        }
        AliasStep::Finished(_) => panic!("there are changes to be saved"),
    }
    assert_eq!(entries(&toc), pairs(&[("x", "b"), ("y", "a")]));
}

#[test]
fn to_rename_and_to_rename_back_changes_nothing() {
    let mut toc = table(&["a", "b"], &[("x", "a"), ("y", "b")]);
    let before = entries(&toc);
    assert!(change(&mut toc, vec![rename_alias("x", "z"), rename_alias("z", "x")]).unwrap());
    assert_eq!(entries(&toc), before);
    assert!(change(&mut toc, vec![rename_alias("x", "x")]).unwrap());
    assert_eq!(entries(&toc), before);
}

#[test]
fn a_renamed_alias_takes_the_place_of_another() {
    let mut toc = table(&["a", "b"], &[("x", "a"), ("y", "b")]);
    assert!(change(&mut toc, vec![rename_alias("x", "y")]).unwrap());
    assert_eq!(entries(&toc), pairs(&[("y", "a")]));
}

#[test]
fn collections_and_aliases_survive_a_restart() {
    let mut toc = table(&[], &[]);
    let mut directories: Vec<Vec<String>> = Vec::new();
    for name in ["a", "b", "c"] {
        let asked = request(&toc, name, plain());
        directories.push(asked.path.parts.clone());
        let step = toc.directory_created(asked, Ok(())).ok().unwrap();
        let build = settle(&toc, step);
        assert!(toc.collection_built(build.collection_name, Ok(name.to_string())).unwrap());
    }
    assert!(change(&mut toc, vec![create_alias("x", "a"), create_alias("y", "b")]).unwrap());
    match toc.delete_collection("b") {
        DeletionStep::RemoveDirectory { collection_name, path, .. } => {
            directories.retain(|d| *d != path.parts);
            assert!(directory_removed(&collection_name, Ok(())).unwrap());
        }
        DeletionStep::Finished(_) => panic!("the collection is there"),
    }
    let loaded = directories.iter().map(|d| (d[2].clone(), d[2].clone())).collect();
    let again = TableOfContent::new(&config(), loaded, toc.alias_mapping().state(), 7);
    assert_eq!(again.all_collections(), ["a", "c"]);
    assert_eq!(again.all_collections().len(), toc.all_collections().len());
    assert_eq!(entries(&again), entries(&toc));
    assert_eq!(again.resolve_name("x").unwrap(), "a");
    assert!(again.resolve_name("y").is_err());
}
