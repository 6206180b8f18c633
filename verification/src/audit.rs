//! Data carried by audit events for admin operations.
//!
//! Writing the events out is I/O and lives with the embedding program;
//! these types fix what an event says.

use vstd::prelude::*;

verus! {

/// What kind of admin action an audit event records.
#[derive(Clone, Copy, Debug, PartialEq, Eq, Structural)]
pub enum AuditAction {
    Create,
    Update,
    Delete,
    AddKeys,
    RemoveKeys,
}

impl AuditAction {
    /// The stable snake_case name of the action.
    pub fn code(&self) -> (r: String)
        ensures
            r@ == match self {
                AuditAction::Create => "create"@,
                AuditAction::Update => "update"@,
                AuditAction::Delete => "delete"@,
                AuditAction::AddKeys => "add_keys"@,
                AuditAction::RemoveKeys => "remove_keys"@,
            },
    {
        match self {
            AuditAction::Create => String::from_str("create"),
            AuditAction::Update => String::from_str("update"),
            AuditAction::Delete => String::from_str("delete"),
            AuditAction::AddKeys => String::from_str("add_keys"),
            AuditAction::RemoveKeys => String::from_str("remove_keys"),
        }
    }
}

/// Which resource an audit event is about.
#[derive(Clone, Copy, Debug, PartialEq, Eq, Structural)]
pub enum ResourceType {
    VouchDefaultConfig,
    VouchProposer,
    VouchProposerPattern,
    CommitBoostMux,
    AuthToken,
}

impl ResourceType {
    /// The stable snake_case name of the resource kind.
    pub fn code(&self) -> (r: String)
        ensures
            r@ == match self {
                ResourceType::VouchDefaultConfig => "vouch_default_config"@,
                ResourceType::VouchProposer => "vouch_proposer"@,
                ResourceType::VouchProposerPattern => "vouch_proposer_pattern"@,
                ResourceType::CommitBoostMux => "commit_boost_mux"@,
                ResourceType::AuthToken => "auth_token"@,
            },
    {
        match self {
            ResourceType::VouchDefaultConfig => String::from_str("vouch_default_config"),
            ResourceType::VouchProposer => String::from_str("vouch_proposer"),
            ResourceType::VouchProposerPattern => String::from_str("vouch_proposer_pattern"),
            ResourceType::CommitBoostMux => String::from_str("commit_boost_mux"),
            ResourceType::AuthToken => String::from_str("auth_token"),
        }
    }
}

/// The key field changes an audit event tracks; unset fields are omitted.
#[derive(Debug)]
pub struct AuditChanges {
    pub fee_recipient: Option<String>,
    pub min_value: Option<String>,
    pub gas_limit: Option<String>,
    pub active: Option<bool>,
    pub reset_relays: Option<bool>,
    pub pattern: Option<String>,
    pub tags: Option<Vec<String>>,
    pub key_count: Option<i64>,
    pub name: Option<String>,
    pub relays_count: Option<usize>,
}

impl Default for AuditChanges {
    /// The empty change set: every field unset.
    fn default() -> (r: Self)
        ensures
            r.fee_recipient is None,
            r.min_value is None,
            r.gas_limit is None,
            r.active is None,
            r.reset_relays is None,
            r.pattern is None,
            r.tags is None,
            r.key_count is None,
            r.name is None,
            r.relays_count is None,
    {
        AuditChanges {
            fee_recipient: None,
            min_value: None,
            gas_limit: None,
            active: None,
            reset_relays: None,
            pattern: None,
            tags: None,
            key_count: None,
            name: None,
            relays_count: None,
        }
    }
}

} // verus!
