// Health, token, configuration and audit-shape tests.

use fee_manager::audit::AuditAction;
use fee_manager::audit::AuditChanges;
use fee_manager::audit::ResourceType;
use fee_manager::auth::generate_token;
use fee_manager::auth::hash_token;
use fee_manager::config::default_audit_enabled;
use fee_manager::config::default_audit_output;
use fee_manager::config::default_auth_enabled;
use fee_manager::config::default_log_format;
use fee_manager::config::u16_dec_string;
use fee_manager::config::AppConfig;
use fee_manager::config::AuthConfig;
use fee_manager::config::DatabaseConfig;
use fee_manager::health::get_health;
use fee_manager::health::get_ready;
use fee_manager::error::ApiError;
use fee_manager::models::DbDefaultConfig;
use fee_manager::models::DbRelayConfig;
use fee_manager::models::DbRelayEntry;
use fee_manager::models::DefaultConfigResponse;
use fee_manager::error::ErrorResponse;

#[test]
fn test_health_endpoint() {
    let body = get_health();
    assert_eq!(body.status, "healthy");
}

#[test]
fn test_ready_endpoint() {
    let body = get_ready();
    assert_eq!(body.status, "ready");
}

#[test]
fn hash_token_known_vectors() {
    // SHA-256 of the empty string and of "abc", as lowercase hex.
    assert_eq!(
        hash_token(""),
        "e3b0c44298fc1c149afbf4c8996fb92427ae41e4649b934ca495991b7852b855"
    );
    assert_eq!(
        hash_token("abc"),
        "ba7816bf8f01cfea414140de5dae2223b00361a396177a9cb410ff61f20015ad"
    );
}

#[test]
fn generate_token_shape_and_hash() {
    let (token, hash) = generate_token();
    assert_eq!(token.len(), 64);
    assert!(token.chars().all(|c| c.is_ascii_hexdigit() && !c.is_ascii_uppercase()));
    assert_eq!(hash, hash_token(&token));
    assert_eq!(hash.len(), 64);
}

#[test]
fn config_address_and_database_url() {
    let config = AppConfig {
        database: DatabaseConfig {
            host: "db.internal".to_string(),
            port: 5432,
            username: "fee".to_string(),
            password: "pw".to_string(),
            dbname: "fees".to_string(),
        },
        auth: AuthConfig { enabled: true },
        log_level: "info".to_string(),
        log_format: default_log_format(),
        audit_enabled: default_audit_enabled(),
        audit_output: default_audit_output(),
        host: "0.0.0.0".to_string(),
        port: 8080,
    };
    assert_eq!(config.address(), "0.0.0.0:8080");
    assert_eq!(
        config.database.database_url(),
        "postgres://fee:pw@db.internal:5432/fees"
    );
}

#[test]
fn config_defaults() {
    assert_eq!(default_log_format(), "text");
    assert!(default_audit_enabled());
    assert_eq!(default_audit_output(), "stderr");
    assert!(default_auth_enabled());
    assert!(AuthConfig::default().enabled);
}

#[test]
fn decimal_formatting() {
    assert_eq!(u16_dec_string(0), "0");
    assert_eq!(u16_dec_string(7), "7");
    assert_eq!(u16_dec_string(5432), "5432");
    assert_eq!(u16_dec_string(65535), "65535");
}

#[test]
fn error_codes_and_statuses() {
    assert_eq!(ApiError::NotFound("x".to_string()).status_code(), 404);
    assert_eq!(ApiError::Conflict("x".to_string()).status_code(), 409);
    assert_eq!(ApiError::InvalidData("x".to_string()).status_code(), 400);
    assert_eq!(ApiError::Unauthorized.status_code(), 401);
    assert_eq!(ApiError::InternalError("x".to_string()).status_code(), 500);

    assert_eq!(ApiError::NotFound("x".to_string()).code(), "NOT_FOUND");
    assert_eq!(ApiError::InternalError("x".to_string()).code(), "INTERNAL_ERROR");
    assert_eq!(ApiError::NotFound("gone".to_string()).message(), "gone");

    let (status, body) = ErrorResponse::not_found("missing".to_string());
    assert_eq!(status, 404);
    assert_eq!(body.error.code, "NOT_FOUND");
    assert_eq!(body.error.message, "missing");

    let (status, body) = ErrorResponse::internal_error("boom".to_string());
    assert_eq!(status, 500);
    assert_eq!(body.error.code, "INTERNAL_ERROR");
}

#[test]
fn audit_codes() {
    assert_eq!(AuditAction::Create.code(), "create");
    assert_eq!(AuditAction::RemoveKeys.code(), "remove_keys");
    assert_eq!(ResourceType::CommitBoostMux.code(), "commit_boost_mux");
    assert_eq!(ResourceType::VouchDefaultConfig.code(), "vouch_default_config");
    let changes = AuditChanges::default();
    assert!(changes.fee_recipient.is_none());
    assert!(changes.key_count.is_none());
    assert!(changes.tags.is_none());
}

#[test]
fn legacy_default_config_reply() {
    let db = DbDefaultConfig {
        config_id: "prod".to_string(),
        fee_recipient: Some("0x1234567890abcdef1234567890abcdef12345678".to_string()),
        gas_limit: Some("30000000".to_string()),
        min_value: Some("0.1".to_string()),
        grace: Some(30),
        relays: Some(vec![DbRelayEntry {
            url: "https://relay1.com/".to_string(),
            relay: DbRelayConfig {
                public_key: Some("0xabcdef1234567890abcdef1234567890abcdef12".to_string()),
                fee_recipient: None,
                gas_limit: Some("30000000".to_string()),
                min_value: Some("0.2".to_string()),
            },
        }]),
    };
    let resp = DefaultConfigResponse::of_db(db);
    assert_eq!(resp.fee_recipient.as_deref(), Some("0x1234567890abcdef1234567890abcdef12345678"));
    assert_eq!(resp.grace, Some(30));
    let relays = resp.relays.unwrap();
    assert_eq!(relays.len(), 1);
    assert_eq!(relays[0].url, "https://relay1.com/");
    assert_eq!(relays[0].relay.min_value.as_deref(), Some("0.2"));
}
