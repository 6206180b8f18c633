// Proposer pattern CRUD and filtering tests.

use fee_manager::codec::BlsPubkey;
use fee_manager::error::ApiError;
use fee_manager::schema::CreateProposerPatternRequest;
use fee_manager::schema::ProposerPatternFilters;
use fee_manager::schema::RelayConfig;
use fee_manager::schema::RelayEntry;
use fee_manager::schema::UpdateProposerPatternRequest;
use fee_manager::store::ConfigStore;

fn relay(url: &str, public_key: &str) -> RelayEntry {
    RelayEntry {
        url: url.to_string(),
        relay: RelayConfig {
            public_key: BlsPubkey::parse(public_key).unwrap(),
            fee_recipient: None,
            gas_limit: None,
            min_value: None,
        },
    }
}

fn pattern_request(name: &str, pattern: &str, tags: &[&str]) -> CreateProposerPatternRequest {
    CreateProposerPatternRequest {
        name: name.to_string(),
        pattern: pattern.to_string(),
        tags: tags.iter().map(|t| t.to_string()).collect(),
        fee_recipient: None,
        gas_limit: None,
        min_value: None,
        reset_relays: false,
        relays: None,
    }
}

fn no_update() -> UpdateProposerPatternRequest {
    UpdateProposerPatternRequest {
        pattern: None,
        tags: None,
        fee_recipient: None,
        gas_limit: None,
        min_value: None,
        reset_relays: None,
        relays: None,
    }
}

fn no_filters() -> ProposerPatternFilters {
    ProposerPatternFilters {
        name: None,
        pattern: None,
        tag: None,
        fee_recipient: None,
        gas_limit: None,
        min_value: None,
        reset_relays: None,
        limit: 100,
        offset: 0,
    }
}

const RELAY_KEY_1: &str = "0x8b5d2e73e2a3a55c6c87b8b6eb92e0149a125c852751db1422fa951e42a09b82c142c3ea98d0d9930b056a3bc9896b8f";
const RELAY_KEY_2: &str = "0xb0b07cd0abef743db4260b0ed50619cf6ad4d82064cb4fbec9d3ec530f7c5e6793d9f286c4e082c0244ffb9f2658fe88";

#[test]
fn test_create_proposer_pattern() {
    let mut store = ConfigStore::new();
    let req = pattern_request(
        "test_pat_create",
        "^0x8[0-9a-f]{94}$",
        &["lido", "liquid-staking"],
    );
    let body = store.create_proposer_pattern(&req, 1).unwrap();
    assert_eq!(body.name, "test_pat_create");
    assert_eq!(body.pattern, "^0x8[0-9a-f]{94}$");
    assert_eq!(body.tags, vec!["lido", "liquid-staking"]);
    assert!(!body.reset_relays);
}

#[test]
fn test_create_proposer_pattern_with_relays() {
    let mut store = ConfigStore::new();
    let req = CreateProposerPatternRequest {
        reset_relays: true,
        relays: Some(vec![
            relay("https://relay1.example.com", RELAY_KEY_1),
            relay("https://relay2.example.com", RELAY_KEY_2),
        ]),
        ..pattern_request("test_pat_relays", "^0x9[0-9a-f]{94}$", &["rocketpool"])
    };
    let body = store.create_proposer_pattern(&req, 1).unwrap();
    assert!(body.reset_relays);
    assert!(body.relays.is_some());
    assert_eq!(body.relays.as_ref().unwrap().len(), 2);
}

#[test]
fn test_create_proposer_pattern_duplicate() {
    let mut store = ConfigStore::new();
    store
        .create_proposer_pattern(&pattern_request("test_pat_dup", "^0x[0-9a-f]+$", &[]), 1)
        .unwrap();
    let err = store
        .create_proposer_pattern(&pattern_request("test_pat_dup", "^0x[0-9a-f]+$", &[]), 2)
        .unwrap_err();
    assert!(matches!(err, ApiError::Conflict(_)));
}

#[test]
fn test_get_proposer_pattern() {
    let mut store = ConfigStore::new();
    store
        .create_proposer_pattern(
            &pattern_request("test_pat_get", "^0xa[0-9a-f]{94}$", &["coinbase"]),
            1,
        )
        .unwrap();
    let body = store.get_proposer_pattern("test_pat_get").unwrap();
    assert_eq!(body.name, "test_pat_get");
    assert_eq!(body.pattern, "^0xa[0-9a-f]{94}$");
    assert_eq!(body.tags, vec!["coinbase"]);
}

#[test]
fn test_get_proposer_pattern_not_found() {
    let store = ConfigStore::new();
    let err = store.get_proposer_pattern("test_pat_notfound").unwrap_err();
    assert!(matches!(err, ApiError::NotFound(_)));
}

#[test]
fn test_update_proposer_pattern() {
    let mut store = ConfigStore::new();
    store
        .create_proposer_pattern(
            &pattern_request("test_pat_update", "^0xb[0-9a-f]{94}$", &["solo"]),
            1,
        )
        .unwrap();

    let upd = UpdateProposerPatternRequest {
        pattern: Some("^0xc[0-9a-f]{94}$".to_string()),
        tags: Some(vec!["solo".to_string(), "home-staker".to_string()]),
        reset_relays: Some(true),
        ..no_update()
    };
    let body = store.update_proposer_pattern("test_pat_update", &upd, 2).unwrap();
    assert_eq!(body.pattern, "^0xc[0-9a-f]{94}$");
    assert_eq!(body.tags, vec!["solo", "home-staker"]);
    assert!(body.reset_relays);
}

#[test]
fn test_delete_proposer_pattern() {
    let mut store = ConfigStore::new();
    store
        .create_proposer_pattern(&pattern_request("test_pat_delete", "^0x[0-9a-f]+$", &[]), 1)
        .unwrap();
    store.delete_proposer_pattern("test_pat_delete").unwrap();
    assert!(matches!(
        store.get_proposer_pattern("test_pat_delete").unwrap_err(),
        ApiError::NotFound(_)
    ));
}

#[test]
fn test_list_proposer_patterns() {
    let mut store = ConfigStore::new();
    for i in 1..=3u64 {
        let req = pattern_request(
            &format!("test_pat_list_{}", i),
            &format!("^0x{}[0-9a-f]{{94}}$", i),
            &[&format!("tag{}", i)],
        );
        store.create_proposer_pattern(&req, i).unwrap();
    }
    let page = store.list_proposer_patterns(&ProposerPatternFilters {
        name: Some("test_pat_list_".to_string()),
        ..no_filters()
    });
    assert_eq!(page.data.len(), 3);
}

#[test]
fn test_filter_by_tag() {
    let mut store = ConfigStore::new();
    store
        .create_proposer_pattern(
            &pattern_request("test_tag_1", "^0x1[0-9a-f]{94}$", &["lido", "liquid-staking"]),
            1,
        )
        .unwrap();
    store
        .create_proposer_pattern(
            &pattern_request("test_tag_2", "^0x2[0-9a-f]{94}$", &["rocketpool", "decentralized"]),
            2,
        )
        .unwrap();
    store
        .create_proposer_pattern(
            &pattern_request("test_tag_3", "^0x3[0-9a-f]{94}$", &["lido", "institutional"]),
            3,
        )
        .unwrap();

    let page = store.list_proposer_patterns(&ProposerPatternFilters {
        name: Some("test_tag_".to_string()),
        tag: Some("lido".to_string()),
        ..no_filters()
    });
    assert_eq!(page.data.len(), 2);
    assert!(page.data.iter().all(|p| p.tags.contains(&"lido".to_string())));

    let page = store.list_proposer_patterns(&ProposerPatternFilters {
        name: Some("test_tag_".to_string()),
        tag: Some("rocketpool".to_string()),
        ..no_filters()
    });
    assert_eq!(page.data.len(), 1);
}

#[test]
fn test_filter_by_pattern() {
    let mut store = ConfigStore::new();
    store
        .create_proposer_pattern(&pattern_request("test_pf_1", "^0x8[0-9a-f]{94}$", &[]), 1)
        .unwrap();
    store
        .create_proposer_pattern(&pattern_request("test_pf_2", "^0x9[0-9a-f]{94}$", &[]), 2)
        .unwrap();

    let page = store.list_proposer_patterns(&ProposerPatternFilters {
        name: Some("test_pf_".to_string()),
        pattern: Some("0x8".to_string()),
        ..no_filters()
    });
    assert_eq!(page.data.len(), 1);
    assert!(page.data[0].pattern.contains("0x8"));
}

#[test]
fn proposer_patterns_test_test_filter_by_reset_relays() {
    let mut store = ConfigStore::new();
    for i in 1..=4u64 {
        let req = CreateProposerPatternRequest {
            reset_relays: i % 2 == 0,
            ..pattern_request(
                &format!("test_prr_{}", i),
                &format!("^0x{}[0-9a-f]{{94}}$", i),
                &[],
            )
        };
        store.create_proposer_pattern(&req, i).unwrap();
    }

    let page = store.list_proposer_patterns(&ProposerPatternFilters {
        name: Some("test_prr_".to_string()),
        reset_relays: Some(true),
        ..no_filters()
    });
    assert_eq!(page.data.len(), 2);
    assert!(page.data.iter().all(|p| p.reset_relays));
}

#[test]
fn test_proposer_patterns_pagination() {
    let mut store = ConfigStore::new();
    for i in 1..=5u64 {
        let req = pattern_request(
            &format!("test_pat_page_{}", i),
            &format!("^0x{}[0-9a-f]{{94}}$", i),
            &[],
        );
        store.create_proposer_pattern(&req, i).unwrap();
    }

    let page = store.list_proposer_patterns(&ProposerPatternFilters {
        name: Some("test_pat_page_".to_string()),
        limit: 2,
        ..no_filters()
    });
    assert_eq!(page.data.len(), 2);
    assert_eq!(page.total, 5);

    let page = store.list_proposer_patterns(&ProposerPatternFilters {
        name: Some("test_pat_page_".to_string()),
        limit: 2,
        offset: 3,
        ..no_filters()
    });
    assert_eq!(page.data.len(), 2);
    assert_eq!(page.offset, 3);
}

#[test]
fn pattern_update_keeps_unset_fields() {
    let mut store = ConfigStore::new();
    let req = CreateProposerPatternRequest {
        gas_limit: Some("31000000".to_string()),
        ..pattern_request("keep_fields", "^0x1$", &["a"])
    };
    store.create_proposer_pattern(&req, 1).unwrap();

    let upd = UpdateProposerPatternRequest {
        min_value: Some("5".to_string()),
        ..no_update()
    };
    let body = store.update_proposer_pattern("keep_fields", &upd, 2).unwrap();
    assert_eq!(body.pattern, "^0x1$");
    assert_eq!(body.tags, vec!["a"]);
    assert_eq!(body.gas_limit, Some("31000000".to_string()));
    assert_eq!(body.min_value, Some("5".to_string()));
    assert_eq!(body.created_at, 1);
    assert_eq!(body.updated_at, 2);
}
