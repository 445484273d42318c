//! Snapshots: taking them and applying them.

use std::collections::HashMap;
use storage::alias_mapping::AliasMapping;
use storage::assoc_map::AssocMap;
use storage::config::{
    CollectionConfig, CollectionParams, Distance, HnswConfig, OptimizersConfig, ShardCount,
    StorageConfig, WalConfig,
};
use storage::consensus_state::{CollectionState, CollectionsSnapshot};
use storage::errors::StorageError;
use storage::shard_distribution::CollectionShardDistribution;
use storage::snapshot::SnapshotStep;
use storage::toc::TableOfContent;

fn config() -> StorageConfig {
    StorageConfig {
        storage_path: "./storage".to_string(),
        on_disk_payload: true,
        optimizers: OptimizersConfig { settings: "opt".to_string() },
        wal: WalConfig { settings: "wal".to_string() },
        hnsw_index: HnswConfig { settings: "hnsw".to_string() },
    }
}

fn table(names: &[&str], aliases: &[(&str, &str)]) -> TableOfContent<String> {
    let loaded = names.iter().map(|n| (n.to_string(), format!("handle of {}", n))).collect();
    TableOfContent::new(&config(), loaded, mapping(aliases), 7)
}

fn mapping(aliases: &[(&str, &str)]) -> AliasMapping {
    let mut res = AliasMapping::new();
    for (alias, target) in aliases {
        res.insert(alias.to_string(), target.to_string());
    }
    res
}

fn state(wal: &str, shards: &[(u32, u64)]) -> CollectionState {
    let mut shard_to_peer: HashMap<u32, u64> = HashMap::new();
    for (shard, peer) in shards {
        shard_to_peer.insert(*shard, *peer);
    }
    CollectionState {
        config: CollectionConfig {
            params: CollectionParams {
                vector_size: 4,
                distance: Distance::Euclid,
                shard_number: ShardCount::new(2).unwrap(),
                on_disk_payload: false,
            },
            wal_config: WalConfig { settings: wal.to_string() },
            optimizer_config: OptimizersConfig { settings: "o".to_string() },
            hnsw_config: HnswConfig { settings: "h".to_string() },
        },
        shard_to_peer,
    }
}

fn snapshot(collections: &[(&str, &str)], aliases: &[(&str, &str)]) -> CollectionsSnapshot {
    let mut res: AssocMap<String, CollectionState> = AssocMap::new();
    for (name, wal) in collections {
        res.insert(name.to_string(), state(wal, &[(0, 7), (1, 8)]));
    }
    CollectionsSnapshot { collections: res, aliases: mapping(aliases) }
}

fn sorted<T: Ord>(mut v: Vec<T>) -> Vec<T> {
    v.sort();
    v
}

/// Applies a snapshot. A collection is found in the state that has its name for a setting. The
/// action named by `fails` fails. Returns the actions and the result.
fn apply(
    toc: &mut TableOfContent<String>,
    data: CollectionsSnapshot,
    fails: &str,
) -> (Vec<String>, Result<(), StorageError>) {
    let mut log: Vec<String> = Vec::new();
    let failure = || StorageError::ServiceError { description: "failed".to_string() };
    let mut step = toc.apply_collections_snapshot(data);
    loop {
        step = match step {
            SnapshotStep::ReadState { entry } => {
                let name = entry.collection_name().clone();
                log.push(format!("read {}", name));
                toc.state_read(entry, state(&name, &[(1, 8), (0, 7)]))
            }
            SnapshotStep::ApplyState { entry, state, path } => {
                let action = format!("apply {}", entry.collection_name());
                assert_eq!(path.parts, ["./storage", "collections", entry.collection_name()]);
                assert!(state.same(entry.state()));
                let outcome = if action == fails { Err(failure()) } else { Ok(()) };
                log.push(action);
                toc.state_applied(entry, outcome)
            }
            SnapshotStep::CreateDirectory { entry, path } => {
                let action = format!("mkdir {}", entry.collection_name());
                assert_eq!(path.parts, ["./storage", "collections", entry.collection_name()]);
                let outcome = if action == fails { Err("full".to_string()) } else { Ok(()) };
                log.push(action);
                toc.snapshot_directory_created(entry, outcome)
            }
            SnapshotStep::Build { entry, request } => {
                let action = format!("build {}", request.collection_name);
                assert_eq!(&request.collection_name, entry.collection_name());
                assert_eq!(request.path.parts, ["./storage", "collections", entry.collection_name()]);
                assert!(request.config.same(&entry.state().config));
                match request.distribution {
                    CollectionShardDistribution::Distribution { local, remote } => {
                        assert_eq!(local, [0]);
                        assert_eq!(remote, [(1, 8)]);
                    }
                    _ => panic!("the snapshot says where the shards are"),
                }
                let outcome = if action == fails { Err(failure()) } else { Ok("made".to_string()) };
                log.push(action);
                toc.snapshot_collection_built(entry, outcome)
            }
            SnapshotStep::RemoveDirectory { run, collection, collection_name, path } => {
                let action = format!("rmdir {}", collection_name);
                assert_eq!(collection, format!("handle of {}", collection_name));
                assert_eq!(path.parts, ["./storage", "collections", collection_name.as_str()]);
                let outcome = if action == fails { Err("busy".to_string()) } else { Ok(()) };
                log.push(action);
                toc.snapshot_directory_removed(run, &collection_name, outcome)
            }
            SnapshotStep::SaveAliases => {
                log.push("save".to_string());
                toc.snapshot_aliases_saved(if fails == "save" { Err(failure()) } else { Ok(()) })
            }
            SnapshotStep::Finished { result } => return (log, result),
        };
    }
}

#[test]
fn states_are_compared_by_what_they_say() {
    assert!(state("w", &[(0, 7), (1, 8)]).same(&state("w", &[(1, 8), (0, 7)])));
    assert!(!state("w", &[(0, 7)]).same(&state("v", &[(0, 7)])));
    assert!(!state("w", &[(0, 7)]).same(&state("w", &[(0, 8)])));
    assert!(!state("w", &[(0, 7)]).same(&state("w", &[(0, 7), (1, 7)])));
    assert!(!state("w", &[(0, 7), (1, 7)]).same(&state("w", &[(0, 7)])));
    assert!(state("w", &[(0, 7)]).duplicate().same(&state("w", &[(0, 7)])));
}

#[test]
fn a_snapshot_has_all_collections_and_aliases() {
    let toc = table(&["a", "b"], &[("x", "a")]);
    let names = toc.all_collections();
    let states = names.iter().map(|n| state(n, &[(0, 7)])).collect();
    let data = toc.collections_snapshot(states);
    assert_eq!(sorted(data.collections.keys()), ["a", "b"]);
    assert_eq!(data.collections.get(&"a".to_string()).unwrap().config.wal_config.settings, "a");
    assert_eq!(data.collections.get(&"b".to_string()).unwrap().config.wal_config.settings, "b");
    assert_eq!(data.aliases.entries(), [("x".to_string(), "a".to_string())]);
}

#[test]
fn a_snapshot_is_applied() {
    let mut toc = table(&["same", "changed", "gone"], &[("x", "gone")]);
    let data = snapshot(&[("same", "same"), ("changed", "other"), ("new", "new")], &[("y", "new")]);
    let (log, result) = apply(&mut toc, data, "");
    assert!(result.is_ok());
    assert_eq!(
        log,
        [
            "read same",
            "read changed",
            "apply changed",
            "mkdir new",
            "build new",
            "rmdir gone",
            "save"
        ]
    );
    assert_eq!(sorted(toc.all_collections()), ["changed", "new", "same"]);
    assert_eq!(toc.get_collection("same").unwrap(), "handle of same");
    assert_eq!(toc.get_collection("changed").unwrap(), "handle of changed");
    assert_eq!(toc.get_collection("y").unwrap(), "made");
    assert!(toc.get_collection("x").is_err());
    assert!(log.len() <= 2 * 3 + 1 + 1);
}

#[test]
fn an_empty_snapshot_empties_the_table() {
    let mut toc = table(&["a", "b"], &[("x", "a")]);
    let (log, result) = apply(&mut toc, snapshot(&[], &[]), "");
    assert!(result.is_ok());
    assert_eq!(sorted(log), ["rmdir a", "rmdir b", "save"]);
    assert!(toc.all_collections().is_empty());
    assert!(toc.alias_mapping().entries().is_empty());
}

#[test]
fn the_own_snapshot_changes_nothing() {
    let mut toc = table(&["a", "b"], &[("x", "a")]);
    let names = toc.all_collections();
    let states = names.iter().map(|n| state(n, &[(0, 7), (1, 8)])).collect();
    let data = toc.collections_snapshot(states);
    let (log, result) = apply(&mut toc, data, "");
    assert!(result.is_ok());
    assert_eq!(sorted(log), ["read a", "read b", "save"]);
    assert_eq!(toc.get_collection("x").unwrap(), "handle of a");
    assert_eq!(toc.get_collection("b").unwrap(), "handle of b");
}

#[test]
fn a_failure_ends_the_run_and_keeps_the_aliases() {
    let cases = [
        ("apply changed", "failed"),
        ("mkdir new", "Can't create directory for collection new. Error: full"),
        ("build new", "failed"),
        ("rmdir gone", "Can't delete collection gone, error: busy"),
    ];
    for (action, description) in cases {
        let mut toc = table(&["changed", "gone"], &[("x", "gone")]);
        let data = snapshot(&[("changed", "other"), ("new", "new")], &[("y", "new")]);
        let (log, result) = apply(&mut toc, data, action);
        assert_eq!(log.last().unwrap(), action);
        match result {
            Err(StorageError::ServiceError { description: d }) => assert_eq!(d, description),
            _ => panic!("it fails"),
        }
        assert_eq!(toc.alias_mapping().entries(), [("x".to_string(), "gone".to_string())]);
        assert_eq!(toc.get_collection("changed").unwrap(), "handle of changed");
    }
}

#[test]
fn aliases_that_cannot_be_saved_are_an_error() {
    let mut toc = table(&["a"], &[]);
    let (_, result) = apply(&mut toc, snapshot(&[("a", "a")], &[("y", "a")]), "save");
    assert_eq!(result.err().unwrap().description(), "failed");
    assert_eq!(toc.get_collection("y").unwrap(), "handle of a");
}

#[test]
fn a_map_of_shards_is_split_between_the_peers() {
    let s = state("w", &[(0, 7), (1, 8), (2, 7), (3, 9)]);
    match CollectionShardDistribution::from_shard_to_peer(7, &s.shard_to_peer) {
        CollectionShardDistribution::Distribution { local, remote } => {
            assert_eq!(sorted(local), [0, 2]);
            assert_eq!(sorted(remote), [(1, 8), (3, 9)]);
        }
        _ => panic!("the map says where the shards are"),
    }
}

#[test]
fn every_collection_ends_in_the_state_of_the_snapshot() {
    let mut toc = table(&["same", "changed", "gone"], &[("x", "gone")]);
    let mut states: HashMap<String, CollectionState> = HashMap::new();
    for name in ["same", "changed", "gone"] {
        states.insert(name.to_string(), state(name, &[(0, 7), (1, 8)]));
    }
    let wanted = [("same", "same"), ("changed", "other"), ("new", "new")];
    let mut step = toc.apply_collections_snapshot(snapshot(&wanted, &[("y", "new")]));
    let result = loop {
        let aliases = toc.alias_mapping().entries();
        match step {
            SnapshotStep::SaveAliases | SnapshotStep::Finished { .. } => {
                assert_eq!(aliases, [("y".to_string(), "new".to_string())]);
            }
            _ => assert_eq!(aliases, [("x".to_string(), "gone".to_string())]),
        }
        step = match step {
            SnapshotStep::ReadState { entry } => {
                let current = states[entry.collection_name()].duplicate();
                toc.state_read(entry, current)
            }
            SnapshotStep::ApplyState { entry, state, .. } => {
                states.insert(entry.collection_name().clone(), state);
                toc.state_applied(entry, Ok(()))
            }
            SnapshotStep::CreateDirectory { entry, .. } => {
                toc.snapshot_directory_created(entry, Ok(()))
            }
            SnapshotStep::Build { entry, request } => {
                let mut shard_to_peer: HashMap<u32, u64> = HashMap::new();
                match request.distribution {
                    CollectionShardDistribution::Distribution { local, remote } => {
                        shard_to_peer.extend(local.iter().map(|shard| (*shard, 7)));
                        shard_to_peer.extend(remote);
                    }
                    CollectionShardDistribution::AllLocal => panic!("there are other peers"),
                }
                let made = CollectionState { config: request.config, shard_to_peer };
                states.insert(request.collection_name, made);
                toc.snapshot_collection_built(entry, Ok("made".to_string()))
            }
            SnapshotStep::RemoveDirectory { run, collection_name, .. } => {
                states.remove(&collection_name);
                toc.snapshot_directory_removed(run, &collection_name, Ok(()))
            }
            SnapshotStep::SaveAliases => toc.snapshot_aliases_saved(Ok(())),
            SnapshotStep::Finished { result } => break result,
        };
    };
    assert!(result.is_ok());
    assert_eq!(states.len(), wanted.len());
    let data = snapshot(&wanted, &[]);
    for (name, _) in wanted {
        assert!(states[name].same(data.collections.get(&name.to_string()).unwrap()));
    }
}
