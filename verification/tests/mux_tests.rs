// Mux key-set manager tests: CRUD, deduplication, add/remove counts and
// the public listing.

use fee_manager::codec::BlsPubkey;
use fee_manager::error::ApiError;
use fee_manager::mux::MuxStore;
use fee_manager::schema::CreateMuxConfigRequest;
use fee_manager::schema::MuxConfigFilters;
use fee_manager::schema::MuxKeysRequest;
use fee_manager::schema::UpdateMuxConfigRequest;

fn test_bls_pubkey(suffix: &str) -> BlsPubkey {
    let hex_suffix: String = suffix.chars().filter(|c| c.is_ascii_hexdigit()).collect();
    let text = format!("0xdead{:0<92}", hex_suffix);
    BlsPubkey::parse(&text).unwrap()
}

fn create(store: &mut MuxStore, name: &str, keys: Vec<BlsPubkey>) {
    let req = CreateMuxConfigRequest { name: name.to_string(), keys };
    store.create_mux_config(&req, 1).unwrap();
}

#[test]
fn test_create_mux_config() {
    let mut store = MuxStore::new();
    let req = CreateMuxConfigRequest { name: "test_mux_create".to_string(), keys: vec![] };
    let item = store.create_mux_config(&req, 1).unwrap();
    assert_eq!(item.name, "test_mux_create");
    assert_eq!(item.key_count, 0);
}

#[test]
fn test_create_mux_config_with_keys() {
    let mut store = MuxStore::new();
    let key1 = test_bls_pubkey("k1");
    let key2 = test_bls_pubkey("k2");
    let req = CreateMuxConfigRequest { name: "test_mux_keys".to_string(), keys: vec![key1, key2] };
    let item = store.create_mux_config(&req, 1).unwrap();
    assert_eq!(item.name, "test_mux_keys");
    assert_eq!(item.key_count, 2);
}

#[test]
fn test_create_mux_config_duplicate() {
    let mut store = MuxStore::new();
    create(&mut store, "test_mux_dup", vec![]);
    let req = CreateMuxConfigRequest { name: "test_mux_dup".to_string(), keys: vec![] };
    let err = store.create_mux_config(&req, 2).unwrap_err();
    assert!(matches!(err, ApiError::Conflict(_)));
}

#[test]
fn test_get_mux_config() {
    let mut store = MuxStore::new();
    let key1 = test_bls_pubkey("g1");
    let key2 = test_bls_pubkey("g2");
    create(&mut store, "test_mux_get", vec![key1, key2]);
    let resp = store.get_mux_config("test_mux_get").unwrap();
    assert_eq!(resp.name, "test_mux_get");
    assert_eq!(resp.keys.len(), 2);
}

#[test]
fn test_get_mux_config_not_found() {
    let store = MuxStore::new();
    let err = store.get_mux_config("test_mux_notfound").unwrap_err();
    assert!(matches!(err, ApiError::NotFound(_)));
}

#[test]
fn test_update_mux_config() {
    let mut store = MuxStore::new();
    let key1 = test_bls_pubkey("u1");
    let key2 = test_bls_pubkey("u2");
    let key3 = test_bls_pubkey("u3");
    create(&mut store, "test_mux_update", vec![key1.clone()]);

    let req = UpdateMuxConfigRequest { keys: vec![key2.clone(), key3.clone()] };
    let resp = store.update_mux_config("test_mux_update", &req, 2).unwrap();
    assert_eq!(resp.keys.len(), 2);
    assert!(!resp.keys.contains(&key1));
    assert!(resp.keys.contains(&key2));
    assert!(resp.keys.contains(&key3));
}

#[test]
fn test_delete_mux_config() {
    let mut store = MuxStore::new();
    create(&mut store, "test_mux_delete", vec![]);
    store.delete_mux_config("test_mux_delete").unwrap();
    let err = store.get_mux_config("test_mux_delete").unwrap_err();
    assert!(matches!(err, ApiError::NotFound(_)));
}

#[test]
fn test_add_mux_keys() {
    let mut store = MuxStore::new();
    create(&mut store, "test_mux_addkeys", vec![]);

    let key1 = test_bls_pubkey("a1");
    let key2 = test_bls_pubkey("a2");
    let resp = store
        .add_mux_keys(
            "test_mux_addkeys",
            &MuxKeysRequest { keys: vec![key1.clone(), key2] },
            2,
        )
        .unwrap();
    assert_eq!(resp.added, Some(2));
    assert_eq!(resp.total_keys, 2);

    // Add more keys, one of them a duplicate.
    let key3 = test_bls_pubkey("a3");
    let resp = store
        .add_mux_keys("test_mux_addkeys", &MuxKeysRequest { keys: vec![key1, key3] }, 3)
        .unwrap();
    assert_eq!(resp.added, Some(1));
    assert_eq!(resp.total_keys, 3);
}

#[test]
fn test_remove_mux_keys() {
    let mut store = MuxStore::new();
    let key1 = test_bls_pubkey("r1");
    let key2 = test_bls_pubkey("r2");
    let key3 = test_bls_pubkey("r3");
    create(
        &mut store,
        "test_mux_remkeys",
        vec![key1.clone(), key2.clone(), key3.clone()],
    );

    let resp = store
        .remove_mux_keys("test_mux_remkeys", &MuxKeysRequest { keys: vec![key1, key2] }, 2)
        .unwrap();
    assert_eq!(resp.removed, Some(2));
    assert_eq!(resp.total_keys, 1);

    let resp = store.get_mux_config("test_mux_remkeys").unwrap();
    assert_eq!(resp.keys.len(), 1);
    assert!(resp.keys.contains(&key3));
}

#[test]
fn test_get_mux_keys_public() {
    let mut store = MuxStore::new();
    let key1 = test_bls_pubkey("p1");
    let key2 = test_bls_pubkey("p2");
    create(&mut store, "test_mux_public", vec![key1.clone(), key2.clone()]);

    let keys = store.get_mux_keys_public("test_mux_public").unwrap();
    assert_eq!(keys.len(), 2);
    assert!(keys.contains(&key1));
    assert!(keys.contains(&key2));
}

#[test]
fn test_get_mux_keys_public_not_found() {
    let store = MuxStore::new();
    let err = store.get_mux_keys_public("test_mux_pubnotfound").unwrap_err();
    assert!(matches!(err, ApiError::NotFound(_)));
}

#[test]
fn test_list_mux_configs() {
    let mut store = MuxStore::new();
    for i in 1..=3 {
        create(&mut store, &format!("test_mux_list_{}", i), vec![]);
    }
    let page = store.list_mux_configs(&MuxConfigFilters { limit: 100, offset: 0 });
    let test_configs: Vec<_> = page
        .data
        .iter()
        .filter(|c| c.name.starts_with("test_mux_list_"))
        .collect();
    assert_eq!(test_configs.len(), 3);
}

#[test]
fn test_mux_pagination() {
    let mut store = MuxStore::new();
    for i in 1..=5 {
        create(&mut store, &format!("test_mux_page_{}", i), vec![]);
    }
    let page = store.list_mux_configs(&MuxConfigFilters { limit: 2, offset: 0 });
    assert_eq!(page.data.len(), 2);
    assert_eq!(page.limit, 2);
    assert_eq!(page.total, 5);
}

#[test]
fn replace_twice_gives_same_set_and_collapses_duplicates() {
    let mut store = MuxStore::new();
    let key1 = test_bls_pubkey("d1");
    let key2 = test_bls_pubkey("d2");
    create(&mut store, "replace_mux", vec![]);

    // Duplicate literal entries collapse to distinct members.
    let req = UpdateMuxConfigRequest {
        keys: vec![key1.clone(), key1.clone(), key2.clone(), key1.clone()],
    };
    let first = store.update_mux_config("replace_mux", &req, 2).unwrap();
    assert_eq!(first.keys.len(), 2);
    assert_eq!(first.keys[0], key1);
    assert_eq!(first.keys[1], key2);

    // Replacing again with the identical input yields the same final set.
    let req = UpdateMuxConfigRequest {
        keys: vec![key1.clone(), key1.clone(), key2.clone(), key1.clone()],
    };
    let second = store.update_mux_config("replace_mux", &req, 3).unwrap();
    assert_eq!(second.keys, first.keys);
}

#[test]
fn create_collapses_duplicate_keys() {
    let mut store = MuxStore::new();
    let key1 = test_bls_pubkey("e1");
    let req = CreateMuxConfigRequest {
        name: "dedup_mux".to_string(),
        keys: vec![key1.clone(), key1.clone(), key1.clone()],
    };
    let item = store.create_mux_config(&req, 1).unwrap();
    assert_eq!(item.key_count, 1);
    let keys = store.get_mux_keys_public("dedup_mux").unwrap();
    assert_eq!(keys, vec![key1]);
}

#[test]
fn add_same_key_twice_reports_one_then_zero() {
    let mut store = MuxStore::new();
    let k = test_bls_pubkey("f1");
    create(&mut store, "add_twice_mux", vec![]);

    let first = store
        .add_mux_keys("add_twice_mux", &MuxKeysRequest { keys: vec![k.clone()] }, 2)
        .unwrap();
    assert_eq!(first.added, Some(1));
    assert_eq!(first.total_keys, 1);

    let second = store
        .add_mux_keys("add_twice_mux", &MuxKeysRequest { keys: vec![k.clone()] }, 3)
        .unwrap();
    assert_eq!(second.added, Some(0));
    assert_eq!(second.total_keys, 1);

    let keys = store.get_mux_keys_public("add_twice_mux").unwrap();
    assert_eq!(keys, vec![k]);
}

#[test]
fn remove_ignores_absent_keys() {
    let mut store = MuxStore::new();
    let k1 = test_bls_pubkey("h1");
    let k2 = test_bls_pubkey("h2");
    create(&mut store, "rm_absent_mux", vec![k1.clone()]);
    let resp = store
        .remove_mux_keys("rm_absent_mux", &MuxKeysRequest { keys: vec![k2] }, 2)
        .unwrap();
    assert_eq!(resp.removed, Some(0));
    assert_eq!(resp.total_keys, 1);
    let keys = store.get_mux_keys_public("rm_absent_mux").unwrap();
    assert_eq!(keys, vec![k1]);
}

#[test]
fn listing_keeps_insertion_order() {
    let mut store = MuxStore::new();
    let k1 = test_bls_pubkey("i3");
    let k2 = test_bls_pubkey("i1");
    let k3 = test_bls_pubkey("i2");
    create(&mut store, "ordered_mux", vec![k1.clone(), k2.clone()]);
    store
        .add_mux_keys("ordered_mux", &MuxKeysRequest { keys: vec![k3.clone()] }, 2)
        .unwrap();
    let keys = store.get_mux_keys_public("ordered_mux").unwrap();
    assert_eq!(keys, vec![k1, k2, k3]);
}
