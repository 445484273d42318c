//! Names, aliases, listings, and the calls that go to a collection.

use storage::alias_mapping::AliasMapping;
use storage::assoc_map::AssocMap;
use storage::config::{Distance, HnswConfig, OptimizersConfig, StorageConfig, WalConfig};
use storage::errors::StorageError;
use storage::operations::{CreateCollection, CreateCollectionOperation};
use storage::toc::{PeerAddressById, ReadMethod, TableOfContent, UpdateCall};

fn config() -> StorageConfig {
    StorageConfig {
        storage_path: "./storage".to_string(),
        on_disk_payload: true,
        optimizers: OptimizersConfig { settings: "opt".to_string() },
        wal: WalConfig { settings: "wal".to_string() },
        hnsw_index: HnswConfig { settings: "hnsw".to_string() },
    }
}

fn table(names: &[&str], aliases: &[(&str, &str)]) -> TableOfContent<String> {
    let loaded = names.iter().map(|n| (n.to_string(), format!("handle of {}", n))).collect();
    let mut mapping = AliasMapping::new();
    for (alias, target) in aliases {
        mapping.insert(alias.to_string(), target.to_string());
    }
    TableOfContent::new(&config(), loaded, mapping, 7)
}

fn sorted(mut names: Vec<String>) -> Vec<String> {
    names.sort();
    names
}

fn not_found(e: &StorageError) -> &str {
    match e {
        StorageError::NotFound { description } => description,
        _ => panic!("another error: {:?}", e),
    }
}

#[test]
fn a_collection_is_found_by_its_name() {
    let toc = table(&["a", "b"], &[]);
    assert_eq!(toc.resolve_name("a").unwrap(), "a");
    assert_eq!(toc.get_collection("b").unwrap(), "handle of b");
}

#[test]
fn a_collection_is_found_by_an_alias() {
    let toc = table(&["a", "b"], &[("x", "a")]);
    assert_eq!(toc.resolve_name("x").unwrap(), "a");
    assert_eq!(toc.get_collection("x").unwrap(), "handle of a");
}

#[test]
fn an_unknown_name_is_not_found() {
    let toc = table(&["a"], &[]);
    let e = toc.resolve_name("c").err().unwrap();
    assert_eq!(not_found(&e), "Collection `c` doesn't exist!");
    assert_eq!(e.description(), "Collection `c` doesn't exist!");
    assert!(toc.get_collection("c").is_err());
}

#[test]
fn an_alias_without_its_collection_is_not_found() {
    let toc = table(&["a"], &[("x", "gone")]);
    let e = toc.get_collection("x").err().unwrap();
    assert_eq!(not_found(&e), "Collection `gone` doesn't exist!");
}

#[test]
fn a_collection_goes_before_an_alias_of_its_name() {
    let mut toc = table(&["a", "b"], &[("a", "b")]);
    assert_eq!(toc.resolve_name("a").unwrap(), "a");
    assert_eq!(toc.get_collection("a").unwrap(), "handle of a");
    assert_eq!(toc.search("a", 1, None).ok().unwrap().collection, "handle of a");
    assert_eq!(toc.collection("a").unwrap(), "handle of a");
    assert!(toc.collection("c").is_none());
    let _ = toc.delete_collection("b");
    assert_eq!(toc.resolve_name("a").unwrap(), "a");
}

#[test]
fn aliases_are_not_followed_twice() {
    let toc = table(&["a"], &[("x", "y"), ("y", "a")]);
    assert!(toc.resolve_name("x").is_err());
    assert_eq!(toc.resolve_name("y").unwrap(), "a");
}

#[test]
fn names_are_validated() {
    let toc = table(&["a"], &[("x", "a")]);
    assert!(toc.validate_collection_exists("a").is_ok());
    assert!(toc.validate_collection_exists("x").is_err());
    assert!(toc.validate_collection_not_exists("x").is_ok());
    match toc.validate_collection_not_exists("a") {
        Err(StorageError::BadInput { description }) => {
            assert_eq!(description, "Collection `a` already exists!");
        }
        _ => panic!("the name is taken"),
    }
}

#[test]
fn all_collections_are_listed_once() {
    assert_eq!(sorted(table(&["b", "a", "c"], &[("x", "a")]).all_collections()), ["a", "b", "c"]);
    assert!(table(&[], &[]).all_collections().is_empty());
}

#[test]
fn the_last_of_two_collections_of_one_name_is_kept() {
    let loaded = vec![("a".to_string(), 1), ("b".to_string(), 2), ("a".to_string(), 3)];
    let toc = TableOfContent::new(&config(), loaded, AliasMapping::new(), 7);
    assert_eq!(*toc.get_collection("a").unwrap(), 3);
    assert_eq!(sorted(toc.all_collections()), ["a", "b"]);
}

#[test]
fn the_aliases_of_a_collection_are_listed() {
    let toc = table(&["a", "b"], &[("x", "a"), ("y", "b"), ("z", "a"), ("w", "gone")]);
    assert_eq!(sorted(toc.collection_aliases("a").unwrap()), ["x", "z"]);
    assert_eq!(sorted(toc.collection_aliases("b").unwrap()), ["y"]);
    assert_eq!(sorted(toc.collection_aliases("gone").unwrap()), ["w"]);
    assert!(toc.collection_aliases("x").unwrap().is_empty());
    for alias in toc.collection_aliases("a").unwrap() {
        assert_eq!(toc.resolve_name(&alias).unwrap(), "a");
    }
}

#[test]
fn paths_are_made_of_their_parts() {
    let toc = table(&[], &[]);
    assert_eq!(toc.storage_path(), "./storage");
    assert_eq!(toc.get_collection_path("a").parts, ["./storage", "collections", "a"]);
    assert_eq!(config().collections_path().parts, ["./storage", "collections"]);
    assert_eq!(config().alias_path().parts, ["./storage", "aliases"]);
    assert_ne!(toc.get_collection_path("a").parts, toc.get_collection_path("b").parts);
}

#[test]
fn the_peer_is_the_one_that_was_handed_in() {
    assert_eq!(table(&[], &[]).this_peer_id(), 7);
}

#[test]
fn reads_go_to_the_collection() {
    let toc = table(&["a"], &[("x", "a")]);
    let call = toc.search("x", 42, Some(3)).ok().unwrap();
    assert_eq!(call.collection, "handle of a");
    assert_eq!(call.method, ReadMethod::Search);
    assert_eq!(call.request, 42);
    assert_eq!(call.shard_selection, Some(3));
    assert_eq!(toc.recommend("a", 1, None).ok().unwrap().method, ReadMethod::RecommendBy);
    assert_eq!(toc.search_batch("a", 1, None).ok().unwrap().method, ReadMethod::BatchSearch);
    assert_eq!(toc.retrieve("a", 1, None).ok().unwrap().method, ReadMethod::Retrieve);
    assert_eq!(toc.scroll("a", 1, None).ok().unwrap().method, ReadMethod::ScrollBy);
}

#[test]
fn reads_of_an_unknown_collection_are_refused() {
    let toc = table(&["a"], &[]);
    let e = toc.search("b", 1, None).err().unwrap();
    assert_eq!(not_found(&e), "Collection `b` doesn't exist!");
    assert!(toc.recommend("b", 1, None).is_err());
    assert!(toc.search_batch("b", 1, None).is_err());
    assert!(toc.retrieve("b", 1, None).is_err());
    assert!(toc.scroll("b", 1, None).is_err());
    assert!(toc.update("b", 1, None, true).is_err());
}

#[test]
fn updates_come_from_a_peer_or_from_a_client() {
    let toc = table(&["a"], &[]);
    match toc.update("a", 5, Some(2), true) {
        Ok(UpdateCall::FromPeer { collection, operation, shard_selection, wait }) => {
            assert_eq!((collection.as_str(), operation, shard_selection, wait), ("handle of a", 5, 2, true));
        }
        _ => panic!("a shard was selected"),
    }
    match toc.update("a", 5, None, false) {
        Ok(UpdateCall::FromClient { collection, operation, wait }) => {
            assert_eq!((collection.as_str(), operation, wait), ("handle of a", 5, false));
        }
        _ => panic!("no shard was selected"),
    }
}

#[test]
fn draining_hands_out_all_collections() {
    let mut toc = table(&["a", "b"], &[("x", "a")]);
    let mut drained = toc.drain();
    drained.sort();
    assert_eq!(
        drained,
        [("a".to_string(), "handle of a".to_string()), ("b".to_string(), "handle of b".to_string())]
    );
    assert!(toc.all_collections().is_empty());
    assert_eq!(toc.collection_aliases("a").unwrap(), ["x"]);
    assert!(toc.drain().is_empty());
}

fn peers(ids: &[u64]) -> PeerAddressById {
    let mut res = PeerAddressById::new();
    for id in ids {
        res.insert(*id, format!("http://peer{}", id));
    }
    res
}

fn create(shard_number: Option<u32>) -> CreateCollectionOperation {
    CreateCollectionOperation {
        collection_name: "new".to_string(),
        create_collection: CreateCollection {
            vector_size: 4,
            distance: Distance::Dot,
            shard_number,
            on_disk_payload: None,
            hnsw_config: None,
            wal_config: None,
            optimizers_config: None,
        },
    }
}

#[test]
fn peer_addresses_are_copied() {
    let toc = table(&[], &[]);
    let copy = toc.peer_address_by_id(&peers(&[7, 8]));
    assert_eq!(copy.len(), 2);
    assert_eq!(copy.get(&7).unwrap(), "http://peer7");
    assert_eq!(copy.get(&8).unwrap(), "http://peer8");
    assert!(copy.get(&9).is_none());
}

#[test]
fn a_distribution_is_asked_for_with_all_that_is_known() {
    let toc = table(&["a", "b", "c"], &[]);
    let shards = vec![vec![(0, 7), (1, 8)], vec![], vec![(0, 9)]];
    let addresses = peers(&[9, 7, 8]);
    let mut request = toc.suggest_shard_distribution(&create(Some(6)), &addresses, shards);
    assert_eq!(request.known_peers, addresses.keys().copied().collect::<Vec<u64>>());
    request.known_peers.sort();
    assert_eq!(request.shard_number, 6);
    assert_eq!(request.this_peer_id, 7);
    assert_eq!(request.known_peers, [7, 8, 9]);
    assert_eq!(request.known_shards, [(0, 7), (1, 8), (0, 9)]);
}

#[test]
fn a_distribution_has_one_shard_by_default() {
    let toc = table(&[], &[]);
    let request = toc.suggest_shard_distribution(&create(None), &peers(&[]), Vec::<Vec<u8>>::new());
    assert_eq!(request.shard_number, 1);
    assert!(request.known_peers.is_empty());
    assert!(request.known_shards.is_empty());
}

#[test]
fn only_the_number_of_shards_has_a_part_in_the_distribution() {
    let toc = table(&["a"], &[]);
    let mut other = create(Some(1));
    other.collection_name = "a".to_string();
    other.create_collection.vector_size = 100;
    other.create_collection.distance = Distance::Cosine;
    let shards = || vec![vec![(0, 7), (1, 8)]];
    let addresses = peers(&[8, 7, 9, 10]);
    let first = toc.suggest_shard_distribution(&create(None), &addresses, shards());
    let second = toc.suggest_shard_distribution(&other, &addresses, shards());
    assert_eq!(first.shard_number, second.shard_number);
    assert_eq!(first.this_peer_id, second.this_peer_id);
    assert_eq!(first.known_peers, second.known_peers);
    assert_eq!(first.known_shards, second.known_shards);
}

#[test]
fn an_assoc_map_keeps_one_value_for_each_key() {
    let mut map: AssocMap<String, u64> = AssocMap::new();
    let (one, two) = ("one".to_string(), "two".to_string());
    map.insert(one.clone(), 10);
    map.insert(two.clone(), 20);
    map.insert(one.clone(), 11);
    assert_eq!(map.len(), 2);
    assert_eq!(map.get(&one), Some(&11));
    assert!(map.contains_key(&two));
    assert_eq!(map.remove(&two), Some(20));
    assert_eq!(map.remove(&two), None);
    assert_eq!(map.keys(), ["one"]);
    assert_eq!((map.key_at(0), *map.value_at(0)), (&one, 11));
    assert_eq!(map.duplicate().get(&one), Some(&11));
    assert_eq!(map.drain(), [(one, 11)]);
    assert_eq!(map.len(), 0);
}
