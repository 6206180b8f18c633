// Resolution engine tests: layering, precedence, tag semantics and the
// end-to-end scenario.

use fee_manager::codec::BlsPubkey;
use fee_manager::codec::EthAddress;
use fee_manager::error::ApiError;
use fee_manager::schema::CreateDefaultConfigRequest;
use fee_manager::schema::CreateOrUpdateProposerRequest;
use fee_manager::schema::CreateProposerPatternRequest;
use fee_manager::schema::RelayConfig;
use fee_manager::schema::RelayEntry;
use fee_manager::store::ConfigStore;

fn addr(text: &str) -> EthAddress {
    EthAddress::parse(text).unwrap()
}

fn key(text: &str) -> BlsPubkey {
    BlsPubkey::parse(text).unwrap()
}

fn test_bls_pubkey(suffix: &str) -> BlsPubkey {
    let hex_suffix: String = suffix.chars().filter(|c| c.is_ascii_hexdigit()).collect();
    let text = format!("0xdead{:0<92}", hex_suffix);
    key(&text)
}

fn config_request(name: &str, fee: Option<&str>, gas: Option<&str>, active: bool) -> CreateDefaultConfigRequest {
    CreateDefaultConfigRequest {
        name: name.to_string(),
        fee_recipient: fee.map(addr),
        gas_limit: gas.map(|g| g.to_string()),
        min_value: None,
        active,
        relays: None,
    }
}

fn proposer_request(fee: Option<&str>, gas: Option<&str>, reset: bool) -> CreateOrUpdateProposerRequest {
    CreateOrUpdateProposerRequest {
        fee_recipient: fee.map(addr),
        gas_limit: gas.map(|g| g.to_string()),
        min_value: None,
        reset_relays: reset,
        relays: None,
    }
}

fn pattern_request(
    name: &str,
    pattern: &str,
    tags: &[&str],
    fee: Option<&str>,
    gas: Option<&str>,
) -> CreateProposerPatternRequest {
    CreateProposerPatternRequest {
        name: name.to_string(),
        pattern: pattern.to_string(),
        tags: tags.iter().map(|t| t.to_string()).collect(),
        fee_recipient: fee.map(addr),
        gas_limit: gas.map(|g| g.to_string()),
        min_value: None,
        reset_relays: false,
        relays: None,
    }
}

fn tags(ts: &[&str]) -> Option<Vec<String>> {
    Some(ts.iter().map(|t| t.to_string()).collect())
}

const RELAY_KEY_1: &str = "0x8b5d2e73e2a3a55c6c87b8b6eb92e0149a125c852751db1422fa951e42a09b82c142c3ea98d0d9930b056a3bc9896b8f";

#[test]
fn test_get_execution_config_basic() {
    let mut store = ConfigStore::new();
    let req = CreateDefaultConfigRequest {
        min_value: Some("10000000000000000".to_string()),
        relays: Some(vec![RelayEntry {
            url: "https://relay1.example.com".to_string(),
            relay: RelayConfig {
                public_key: key(RELAY_KEY_1),
                fee_recipient: None,
                gas_limit: None,
                min_value: None,
            },
        }]),
        ..config_request(
            "test_exec_basic",
            Some("0x1234567890abcdef1234567890abcdef12345678"),
            Some("30000000"),
            true,
        )
    };
    store.create_default_config(&req, 1).unwrap();

    let body = store
        .get_execution_config("test_exec_basic", &vec![], &None)
        .unwrap();
    assert_eq!(body.version, 2);
    assert_eq!(
        body.fee_recipient.map(|a| a.to_hex()),
        Some("0x1234567890abcdef1234567890abcdef12345678".to_string())
    );
    assert_eq!(body.gas_limit, Some("30000000".to_string()));
    assert!(body.relays.is_some());
    assert!(body.proposers.is_none());
}

#[test]
fn test_get_execution_config_not_found() {
    let store = ConfigStore::new();
    let err = store
        .get_execution_config("test_exec_nonexistent", &vec![], &None)
        .unwrap_err();
    assert!(matches!(err, ApiError::NotFound(_)));
}

#[test]
fn test_get_execution_config_inactive() {
    let mut store = ConfigStore::new();
    store
        .create_default_config(
            &config_request(
                "test_exec_inactive",
                Some("0x1234567890abcdef1234567890abcdef12345678"),
                None,
                false,
            ),
            1,
        )
        .unwrap();

    let err = store
        .get_execution_config("test_exec_inactive", &vec![], &None)
        .unwrap_err();
    assert!(matches!(err, ApiError::NotFound(_)));
}

#[test]
fn test_get_execution_config_with_proposer_keys() {
    let mut store = ConfigStore::new();
    store
        .create_default_config(
            &config_request(
                "test_exec_proposers",
                Some("0xdef1def1def1def1def1def1def1def1def1def1"),
                Some("30000000"),
                true,
            ),
            1,
        )
        .unwrap();

    let pubkey = test_bls_pubkey("prop1");
    store
        .create_or_update_proposer(
            &pubkey,
            &proposer_request(
                Some("0x5e8422345238f34275888049021821e8e08caa1f"),
                Some("35000000"),
                true,
            ),
            2,
        )
        .unwrap();

    let body = store
        .get_execution_config("test_exec_proposers", &vec![pubkey.clone()], &None)
        .unwrap();

    assert_eq!(
        body.fee_recipient.map(|a| a.to_hex()),
        Some("0xdef1def1def1def1def1def1def1def1def1def1".to_string())
    );
    let proposers = body.proposers.as_ref().unwrap();
    assert_eq!(proposers.len(), 1);
    assert_eq!(proposers[0].proposer, pubkey.to_hex());
    assert_eq!(
        proposers[0].fee_recipient.as_ref().map(|a| a.to_hex()),
        Some("0x5e8422345238f34275888049021821e8e08caa1f".to_string())
    );
    assert_eq!(proposers[0].gas_limit, Some("35000000".to_string()));
    assert_eq!(proposers[0].reset_relays, Some(true));
}

#[test]
fn test_get_execution_config_unknown_keys() {
    let mut store = ConfigStore::new();
    store
        .create_default_config(
            &config_request(
                "test_exec_unknown",
                Some("0xdef1def1def1def1def1def1def1def1def1def1"),
                None,
                true,
            ),
            1,
        )
        .unwrap();

    let unknown_key = test_bls_pubkey("unk1");
    let body = store
        .get_execution_config("test_exec_unknown", &vec![unknown_key], &None)
        .unwrap();

    assert_eq!(
        body.fee_recipient.map(|a| a.to_hex()),
        Some("0xdef1def1def1def1def1def1def1def1def1def1".to_string())
    );
    // A key with no proposer row yields no entry at all.
    assert!(body.proposers.is_none());
}

#[test]
fn test_get_execution_config_with_tags() {
    let mut store = ConfigStore::new();
    store
        .create_default_config(
            &config_request(
                "test_exec_tags",
                Some("0xdef1def1def1def1def1def1def1def1def1def1"),
                None,
                true,
            ),
            1,
        )
        .unwrap();
    store
        .create_proposer_pattern(
            &pattern_request(
                "test_pattern_lido",
                "^0xtest.*$",
                &["lido", "liquid-staking"],
                Some("0x11d011d011d011d011d011d011d011d011d011d0"),
                Some("32000000"),
            ),
            2,
        )
        .unwrap();

    let body = store
        .get_execution_config("test_exec_tags", &vec![], &tags(&["lido"]))
        .unwrap();

    let proposers = body.proposers.as_ref().unwrap();
    let pattern_entry = proposers.iter().find(|p| p.proposer == "^0xtest.*$");
    assert!(pattern_entry.is_some());
    assert_eq!(
        pattern_entry.unwrap().fee_recipient.as_ref().map(|a| a.to_hex()),
        Some("0x11d011d011d011d011d011d011d011d011d011d0".to_string())
    );
}

#[test]
fn test_get_execution_config_multiple_proposers() {
    let mut store = ConfigStore::new();
    store
        .create_default_config(
            &config_request(
                "test_exec_multi",
                Some("0xdef1def1def1def1def1def1def1def1def1def1"),
                None,
                true,
            ),
            1,
        )
        .unwrap();

    let pubkey1 = test_bls_pubkey("m1");
    let pubkey2 = test_bls_pubkey("m2");
    let pubkey3 = test_bls_pubkey("m3");
    for (i, pubkey) in [&pubkey1, &pubkey2, &pubkey3].iter().enumerate() {
        store
            .create_or_update_proposer(
                pubkey,
                &proposer_request(None, Some(&format!("{}0000000", 30 + i)), false),
                i as u64 + 2,
            )
            .unwrap();
    }

    let body = store
        .get_execution_config(
            "test_exec_multi",
            &vec![pubkey1.clone(), pubkey2.clone(), pubkey3.clone()],
            &None,
        )
        .unwrap();

    let proposers = body.proposers.as_ref().unwrap();
    assert_eq!(proposers.len(), 3);
    // Entries follow the requested key order.
    assert_eq!(proposers[0].proposer, pubkey1.to_hex());
    assert_eq!(proposers[1].proposer, pubkey2.to_hex());
    assert_eq!(proposers[2].proposer, pubkey3.to_hex());
}

#[test]
fn precedence_top_level_is_never_overridden() {
    let mut store = ConfigStore::new();
    // D(fee_recipient = A, gas_limit = "30000000").
    let fee_a = "0xaaaaaaaaaaaaaaaaaaaaaaaaaaaaaaaaaaaaaaaa";
    store
        .create_default_config(&config_request("prec", Some(fee_a), Some("30000000"), true), 1)
        .unwrap();
    // P(key = K, gas_limit = "35000000") only.
    let k = test_bls_pubkey("0001");
    store
        .create_or_update_proposer(&k, &proposer_request(None, Some("35000000"), false), 2)
        .unwrap();

    let body = store.get_execution_config("prec", &vec![k.clone()], &None).unwrap();
    // Top level keeps the defaults.
    assert_eq!(body.fee_recipient.map(|a| a.to_hex()), Some(fee_a.to_string()));
    assert_eq!(body.gas_limit, Some("30000000".to_string()));
    // The entry carries only what the proposer row sets.
    let proposers = body.proposers.unwrap();
    assert_eq!(proposers.len(), 1);
    assert_eq!(proposers[0].proposer, k.to_hex());
    assert_eq!(proposers[0].gas_limit, Some("35000000".to_string()));
    assert!(proposers[0].fee_recipient.is_none());
    assert!(proposers[0].min_value.is_none());
    assert!(proposers[0].reset_relays.is_none());
}

#[test]
fn tag_or_semantics() {
    let mut store = ConfigStore::new();
    store
        .create_default_config(&config_request("tagor", None, None, true), 1)
        .unwrap();
    store
        .create_proposer_pattern(&pattern_request("pat_ab", "^0xab.*$", &["a", "b"], None, None), 2)
        .unwrap();

    // A pattern tagged {a, b} is included for requested tags {b, c}.
    let body = store.get_execution_config("tagor", &vec![], &tags(&["b", "c"])).unwrap();
    let proposers = body.proposers.unwrap();
    assert_eq!(proposers.len(), 1);
    assert_eq!(proposers[0].proposer, "^0xab.*$");

    // And excluded for requested tags {c, d}.
    let body = store.get_execution_config("tagor", &vec![], &tags(&["c", "d"])).unwrap();
    assert!(body.proposers.is_none());
}

#[test]
fn duplicate_requested_keys_repeat_their_entry() {
    let mut store = ConfigStore::new();
    store
        .create_default_config(&config_request("dupkeys", None, None, true), 1)
        .unwrap();
    let k = test_bls_pubkey("0d01");
    store
        .create_or_update_proposer(&k, &proposer_request(None, Some("33000000"), false), 2)
        .unwrap();

    let body = store
        .get_execution_config("dupkeys", &vec![k.clone(), k.clone()], &None)
        .unwrap();
    let proposers = body.proposers.unwrap();
    assert_eq!(proposers.len(), 2);
    assert_eq!(proposers[0].proposer, k.to_hex());
    assert_eq!(proposers[1].proposer, k.to_hex());
}

#[test]
fn proposer_entries_come_before_pattern_entries() {
    let mut store = ConfigStore::new();
    store
        .create_default_config(&config_request("order", None, None, true), 1)
        .unwrap();
    let k = test_bls_pubkey("0e01");
    store
        .create_or_update_proposer(&k, &proposer_request(None, None, false), 2)
        .unwrap();
    store
        .create_proposer_pattern(&pattern_request("pat_x", "^0xe.*$", &["x"], None, None), 3)
        .unwrap();

    let body = store
        .get_execution_config("order", &vec![k.clone()], &tags(&["x"]))
        .unwrap();
    let proposers = body.proposers.unwrap();
    assert_eq!(proposers.len(), 2);
    assert_eq!(proposers[0].proposer, k.to_hex());
    assert_eq!(proposers[1].proposer, "^0xe.*$");
}

#[test]
fn end_to_end_prod_scenario() {
    let mut store = ConfigStore::new();
    let fee = format!("0x{}", "aa".repeat(20));
    store
        .create_default_config(&config_request("prod", Some(&fee), None, true), 1)
        .unwrap();

    let k = key(&format!("0x8b{}", "00".repeat(47)));
    store
        .create_or_update_proposer(&k, &proposer_request(None, Some("35000000"), true), 2)
        .unwrap();

    let body = store.get_execution_config("prod", &vec![k.clone()], &None).unwrap();
    assert_eq!(body.fee_recipient.map(|a| a.to_hex()), Some(fee));
    let proposers = body.proposers.unwrap();
    assert_eq!(proposers[0].gas_limit, Some("35000000".to_string()));
    assert_eq!(proposers[0].reset_relays, Some(true));
}
