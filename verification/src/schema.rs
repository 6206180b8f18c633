//! The request and response shapes of the service, together with the
//! spec-level predicates that say when two of them carry the same data.
//!
//! Relay collections are association lists keyed by a unique URL; an
//! optional field that is unset means "omitted", never "null".

use vstd::prelude::*;

use crate::codec::BlsPubkey;
use crate::codec::EthAddress;

verus! {

/// One relay: its own public key plus optional overrides.
#[derive(Debug)]
pub struct RelayConfig {
    pub public_key: BlsPubkey,
    pub fee_recipient: Option<EthAddress>,
    pub gas_limit: Option<String>,
    pub min_value: Option<String>,
}

/// A relay keyed by its unique URL.
#[derive(Debug)]
pub struct RelayEntry {
    pub url: String,
    pub relay: RelayConfig,
}

/// One proposer relay: a relay plus the disabled flag.
#[derive(Debug)]
pub struct ProposerRelayConfig {
    pub public_key: BlsPubkey,
    pub fee_recipient: Option<EthAddress>,
    pub gas_limit: Option<String>,
    pub min_value: Option<String>,
    pub disabled: bool,
}

/// A proposer relay keyed by its unique URL.
#[derive(Debug)]
pub struct ProposerRelayEntry {
    pub url: String,
    pub relay: ProposerRelayConfig,
}

/// The view of an optional address: the bytes, if set.
pub open spec fn opt_addr(o: Option<EthAddress>) -> Option<Seq<u8>> {
    match o {
        Option::Some(a) => Option::Some(a@),
        Option::None => Option::None,
    }
}

/// The view of an optional string: the characters, if set.
pub open spec fn opt_str(o: Option<String>) -> Option<Seq<char>> {
    match o {
        Option::Some(s) => Option::Some(s@),
        Option::None => Option::None,
    }
}

/// Whether two relay configs carry the same data.
pub open spec fn relay_cfg_eq(a: RelayConfig, b: RelayConfig) -> bool {
    &&& a.public_key@ == b.public_key@
    &&& opt_addr(a.fee_recipient) == opt_addr(b.fee_recipient)
    &&& opt_str(a.gas_limit) == opt_str(b.gas_limit)
    &&& opt_str(a.min_value) == opt_str(b.min_value)
}

/// Whether two relay entries carry the same URL and data.
pub open spec fn relay_entry_eq(a: RelayEntry, b: RelayEntry) -> bool {
    a.url@ == b.url@ && relay_cfg_eq(a.relay, b.relay)
}

/// Whether two relay lists carry the same entries in the same order.
pub open spec fn relays_eq(a: Seq<RelayEntry>, b: Seq<RelayEntry>) -> bool {
    a.len() == b.len() && (forall|i: int| 0 <= i < a.len() ==> relay_entry_eq(#[trigger] a[i], b[i]))
}

/// Whether two proposer relay configs carry the same data.
pub open spec fn prelay_cfg_eq(a: ProposerRelayConfig, b: ProposerRelayConfig) -> bool {
    &&& a.public_key@ == b.public_key@
    &&& opt_addr(a.fee_recipient) == opt_addr(b.fee_recipient)
    &&& opt_str(a.gas_limit) == opt_str(b.gas_limit)
    &&& opt_str(a.min_value) == opt_str(b.min_value)
    &&& a.disabled == b.disabled
}

/// Whether two proposer relay entries carry the same URL and data.
pub open spec fn prelay_entry_eq(a: ProposerRelayEntry, b: ProposerRelayEntry) -> bool {
    a.url@ == b.url@ && prelay_cfg_eq(a.relay, b.relay)
}

/// Whether two proposer relay lists carry the same entries in order.
pub open spec fn prelays_eq(a: Seq<ProposerRelayEntry>, b: Seq<ProposerRelayEntry>) -> bool {
    a.len() == b.len() && (forall|i: int|
        0 <= i < a.len() ==> prelay_entry_eq(#[trigger] a[i], b[i]))
}

/// Whether a plain relay entry carries the same URL and data as a
/// proposer relay entry, the disabled flag dropped.
pub open spec fn relay_entry_of_prelay(out: RelayEntry, src: ProposerRelayEntry) -> bool {
    &&& out.url@ == src.url@
    &&& out.relay.public_key@ == src.relay.public_key@
    &&& opt_addr(out.relay.fee_recipient) == opt_addr(src.relay.fee_recipient)
    &&& opt_str(out.relay.gas_limit) == opt_str(src.relay.gas_limit)
    &&& opt_str(out.relay.min_value) == opt_str(src.relay.min_value)
}

/// Whether a relay list mirrors a proposer relay list, flags dropped.
pub open spec fn relays_of_prelays(out: Seq<RelayEntry>, src: Seq<ProposerRelayEntry>) -> bool {
    out.len() == src.len() && (forall|i: int|
        0 <= i < out.len() ==> relay_entry_of_prelay(#[trigger] out[i], src[i]))
}

/// Whether no two entries of a relay list share a URL.
pub open spec fn urls_unique(s: Seq<RelayEntry>) -> bool {
    forall|i: int, j: int| 0 <= i < j < s.len() ==> (#[trigger] s[i].url)@ != (#[trigger] s[j].url)@
}

/// Whether no two entries of a proposer relay list share a URL.
pub open spec fn purls_unique(s: Seq<ProposerRelayEntry>) -> bool {
    forall|i: int, j: int| 0 <= i < j < s.len() ==> (#[trigger] s[i].url)@ != (#[trigger] s[j].url)@
}

/// Copies an optional string.
pub fn clone_opt_string(o: &Option<String>) -> (r: Option<String>)
    ensures
        opt_str(r) == opt_str(*o),
{
    match o {
        Option::Some(s) => Option::Some(s.clone()),
        Option::None => Option::None,
    }
}

/// Copies an optional address.
pub fn clone_opt_addr(o: &Option<EthAddress>) -> (r: Option<EthAddress>)
    ensures
        opt_addr(r) == opt_addr(*o),
{
    match o {
        Option::Some(a) => Option::Some(a.clone()),
        Option::None => Option::None,
    }
}

impl Clone for RelayConfig {
    /// Cloning keeps the data.
    fn clone(&self) -> (r: Self)
        ensures
            relay_cfg_eq(r, *self),
    {
        RelayConfig {
            public_key: self.public_key.clone(),
            fee_recipient: clone_opt_addr(&self.fee_recipient),
            gas_limit: clone_opt_string(&self.gas_limit),
            min_value: clone_opt_string(&self.min_value),
        }
    }
}

impl Clone for RelayEntry {
    /// Cloning keeps the URL and the data.
    fn clone(&self) -> (r: Self)
        ensures
            relay_entry_eq(r, *self),
    {
        RelayEntry { url: self.url.clone(), relay: self.relay.clone() }
    }
}

impl Clone for ProposerRelayConfig {
    /// Cloning keeps the data.
    fn clone(&self) -> (r: Self)
        ensures
            prelay_cfg_eq(r, *self),
    {
        ProposerRelayConfig {
            public_key: self.public_key.clone(),
            fee_recipient: clone_opt_addr(&self.fee_recipient),
            gas_limit: clone_opt_string(&self.gas_limit),
            min_value: clone_opt_string(&self.min_value),
            disabled: self.disabled,
        }
    }
}

impl Clone for ProposerRelayEntry {
    /// Cloning keeps the URL and the data.
    fn clone(&self) -> (r: Self)
        ensures
            prelay_entry_eq(r, *self),
    {
        ProposerRelayEntry { url: self.url.clone(), relay: self.relay.clone() }
    }
}

/// Copies a relay list entry for entry.
pub fn clone_relays(v: &Vec<RelayEntry>) -> (r: Vec<RelayEntry>)
    ensures
        relays_eq(r@, v@),
{
    let mut r: Vec<RelayEntry> = Vec::new();
    let mut i: usize = 0;
    while i < v.len()
        invariant
            i <= v.len(),
            r@.len() == i,
            forall|j: int| 0 <= j < i ==> relay_entry_eq(#[trigger] r@[j], v@[j]),
        decreases v.len() - i,
    {
        r.push(v[i].clone());
        i = i + 1;
    }
    r
}

/// Copies a proposer relay list entry for entry.
pub fn clone_prelays(v: &Vec<ProposerRelayEntry>) -> (r: Vec<ProposerRelayEntry>)
    ensures
        prelays_eq(r@, v@),
{
    let mut r: Vec<ProposerRelayEntry> = Vec::new();
    let mut i: usize = 0;
    while i < v.len()
        invariant
            i <= v.len(),
            r@.len() == i,
            forall|j: int| 0 <= j < i ==> prelay_entry_eq(#[trigger] r@[j], v@[j]),
        decreases v.len() - i,
    {
        r.push(v[i].clone());
        i = i + 1;
    }
    r
}

/// A page of an admin listing.
#[derive(Debug)]
pub struct PaginatedResponse<T> {
    pub data: Vec<T>,
    pub total: i64,
    pub limit: i64,
    pub offset: i64,
}

/// The serde-style default for an `active` flag: on.
pub fn default_true() -> (r: bool)
    ensures
        r == true,
{
    true
}

/// The serde-style default page size.
pub fn default_limit() -> (r: i64)
    ensures
        r == 100,
{
    100
}

// ============================================================================
// Default configs
// ============================================================================

/// A default config as returned by the admin endpoints.
#[derive(Debug)]
pub struct DefaultConfigResponse {
    pub name: String,
    pub fee_recipient: Option<EthAddress>,
    pub gas_limit: Option<String>,
    pub min_value: Option<String>,
    pub active: bool,
    pub relays: Option<Vec<RelayEntry>>,
    pub created_at: u64,
    pub updated_at: u64,
}

/// A default config row in an admin listing.
#[derive(Debug)]
pub struct DefaultConfigListItem {
    pub name: String,
    pub fee_recipient: Option<EthAddress>,
    pub gas_limit: Option<String>,
    pub min_value: Option<String>,
    pub active: bool,
    pub created_at: u64,
    pub updated_at: u64,
}

/// What a new default config should hold.
#[derive(Debug)]
pub struct CreateDefaultConfigRequest {
    pub name: String,
    pub fee_recipient: Option<EthAddress>,
    pub gas_limit: Option<String>,
    pub min_value: Option<String>,
    pub active: bool,
    pub relays: Option<Vec<RelayEntry>>,
}

/// Which fields of a default config to change; unset fields are kept.
#[derive(Debug)]
pub struct UpdateDefaultConfigRequest {
    pub fee_recipient: Option<EthAddress>,
    pub gas_limit: Option<String>,
    pub min_value: Option<String>,
    pub active: Option<bool>,
    pub relays: Option<Vec<RelayEntry>>,
}

/// The admin listing filters for default configs; every set field must
/// hold (name is a prefix match, the rest are exact).
#[derive(Debug)]
pub struct DefaultConfigFilters {
    pub name: Option<String>,
    pub fee_recipient: Option<String>,
    pub gas_limit: Option<String>,
    pub min_value: Option<String>,
    pub active: Option<bool>,
    pub limit: i64,
    pub offset: i64,
}

impl Default for DefaultConfigFilters {
    /// No filters, the default page.
    fn default() -> (r: Self)
        ensures
            r.name is None,
            r.fee_recipient is None,
            r.gas_limit is None,
            r.min_value is None,
            r.active is None,
            r.limit == 100,
            r.offset == 0,
    {
        DefaultConfigFilters {
            name: None,
            fee_recipient: None,
            gas_limit: None,
            min_value: None,
            active: None,
            limit: 100,
            offset: 0,
        }
    }
}

// ============================================================================
// Proposers
// ============================================================================

/// A proposer as returned by the admin endpoints.
#[derive(Debug)]
pub struct ProposerResponse {
    pub public_key: BlsPubkey,
    pub fee_recipient: Option<EthAddress>,
    pub gas_limit: Option<String>,
    pub min_value: Option<String>,
    pub reset_relays: bool,
    pub relays: Option<Vec<ProposerRelayEntry>>,
    pub created_at: u64,
    pub updated_at: u64,
}

/// A proposer row in an admin listing.
#[derive(Debug)]
pub struct ProposerListItem {
    pub public_key: BlsPubkey,
    pub fee_recipient: Option<EthAddress>,
    pub gas_limit: Option<String>,
    pub min_value: Option<String>,
    pub reset_relays: bool,
    pub created_at: u64,
    pub updated_at: u64,
}

/// What a proposer should hold after a create-or-update; this replaces
/// the whole row, relays included.
#[derive(Debug)]
pub struct CreateOrUpdateProposerRequest {
    pub fee_recipient: Option<EthAddress>,
    pub gas_limit: Option<String>,
    pub min_value: Option<String>,
    pub reset_relays: bool,
    pub relays: Option<Vec<ProposerRelayEntry>>,
}

/// The admin listing filters for proposers; every set field must hold
/// (public_key and relay_url are prefix matches on the canonical text,
/// the relay_* fields ask for some relay of the proposer to match).
#[derive(Debug)]
pub struct ProposerFilters {
    pub public_key: Option<String>,
    pub fee_recipient: Option<String>,
    pub gas_limit: Option<String>,
    pub min_value: Option<String>,
    pub reset_relays: Option<bool>,
    pub relay_url: Option<String>,
    pub relay_min_value: Option<String>,
    pub relay_disabled: Option<bool>,
    pub limit: i64,
    pub offset: i64,
}

impl Default for ProposerFilters {
    /// No filters, the default page.
    fn default() -> (r: Self)
        ensures
            r.public_key is None,
            r.fee_recipient is None,
            r.gas_limit is None,
            r.min_value is None,
            r.reset_relays is None,
            r.relay_url is None,
            r.relay_min_value is None,
            r.relay_disabled is None,
            r.limit == 100,
            r.offset == 0,
    {
        ProposerFilters {
            public_key: None,
            fee_recipient: None,
            gas_limit: None,
            min_value: None,
            reset_relays: None,
            relay_url: None,
            relay_min_value: None,
            relay_disabled: None,
            limit: 100,
            offset: 0,
        }
    }
}

// ============================================================================
// Proposer patterns
// ============================================================================

/// A proposer pattern as returned by the admin endpoints.
#[derive(Debug)]
pub struct ProposerPatternResponse {
    pub name: String,
    pub pattern: String,
    pub tags: Vec<String>,
    pub fee_recipient: Option<EthAddress>,
    pub gas_limit: Option<String>,
    pub min_value: Option<String>,
    pub reset_relays: bool,
    pub relays: Option<Vec<RelayEntry>>,
    pub created_at: u64,
    pub updated_at: u64,
}

/// A proposer pattern row in an admin listing.
#[derive(Debug)]
pub struct ProposerPatternListItem {
    pub name: String,
    pub pattern: String,
    pub tags: Vec<String>,
    pub fee_recipient: Option<EthAddress>,
    pub gas_limit: Option<String>,
    pub min_value: Option<String>,
    pub reset_relays: bool,
    pub created_at: u64,
    pub updated_at: u64,
}

/// What a new proposer pattern should hold.
#[derive(Debug)]
pub struct CreateProposerPatternRequest {
    pub name: String,
    pub pattern: String,
    pub tags: Vec<String>,
    pub fee_recipient: Option<EthAddress>,
    pub gas_limit: Option<String>,
    pub min_value: Option<String>,
    pub reset_relays: bool,
    pub relays: Option<Vec<RelayEntry>>,
}

/// Which fields of a proposer pattern to change; unset fields are kept.
#[derive(Debug)]
pub struct UpdateProposerPatternRequest {
    pub pattern: Option<String>,
    pub tags: Option<Vec<String>>,
    pub fee_recipient: Option<EthAddress>,
    pub gas_limit: Option<String>,
    pub min_value: Option<String>,
    pub reset_relays: Option<bool>,
    pub relays: Option<Vec<RelayEntry>>,
}

/// The admin listing filters for proposer patterns; every set field must
/// hold (name is a prefix match, pattern a substring match, tag an exact
/// member test, the rest exact).
#[derive(Debug)]
pub struct ProposerPatternFilters {
    pub name: Option<String>,
    pub pattern: Option<String>,
    pub tag: Option<String>,
    pub fee_recipient: Option<String>,
    pub gas_limit: Option<String>,
    pub min_value: Option<String>,
    pub reset_relays: Option<bool>,
    pub limit: i64,
    pub offset: i64,
}

impl Default for ProposerPatternFilters {
    /// No filters, the default page.
    fn default() -> (r: Self)
        ensures
            r.name is None,
            r.pattern is None,
            r.tag is None,
            r.fee_recipient is None,
            r.gas_limit is None,
            r.min_value is None,
            r.reset_relays is None,
            r.limit == 100,
            r.offset == 0,
    {
        ProposerPatternFilters {
            name: None,
            pattern: None,
            tag: None,
            fee_recipient: None,
            gas_limit: None,
            min_value: None,
            reset_relays: None,
            limit: 100,
            offset: 0,
        }
    }
}

// ============================================================================
// Execution config (the public resolution endpoint)
// ============================================================================

/// The raw query parameter of the resolution endpoint: a comma-separated
/// tag list, parsed by the HTTP layer.
#[derive(Debug)]
pub struct ExecutionConfigQuery {
    pub tags: Option<String>,
}

/// The body of a resolution request: the validator keys to resolve, in
/// request order, duplicates allowed.
#[derive(Debug)]
pub struct ExecutionConfigRequest {
    pub keys: Vec<BlsPubkey>,
}

/// The merged configuration for one resolution request.
#[derive(Debug)]
pub struct ExecutionConfigResponse {
    pub version: u8,
    pub fee_recipient: Option<EthAddress>,
    pub gas_limit: Option<String>,
    pub min_value: Option<String>,
    pub relays: Option<Vec<RelayEntry>>,
    pub proposers: Option<Vec<ProposerEntry>>,
}

/// One override entry of a resolution response. `proposer` holds either
/// the canonical hex of a validator key or a pattern's regex text; the
/// field is intentionally polymorphic across the two entry kinds.
#[derive(Debug)]
pub struct ProposerEntry {
    pub proposer: String,
    pub fee_recipient: Option<EthAddress>,
    pub gas_limit: Option<String>,
    pub min_value: Option<String>,
    pub reset_relays: Option<bool>,
    pub relays: Option<Vec<RelayEntry>>,
}

// ============================================================================
// Mux configs
// ============================================================================

/// A mux config as returned by the admin endpoints.
#[derive(Debug)]
pub struct MuxConfigResponse {
    pub name: String,
    pub keys: Vec<BlsPubkey>,
    pub created_at: u64,
    pub updated_at: u64,
}

/// A mux config row in an admin listing.
#[derive(Debug)]
pub struct MuxConfigListItem {
    pub name: String,
    pub key_count: i64,
    pub created_at: u64,
    pub updated_at: u64,
}

/// What a new mux config should hold; duplicate keys collapse.
#[derive(Debug)]
pub struct CreateMuxConfigRequest {
    pub name: String,
    pub keys: Vec<BlsPubkey>,
}

/// The full replacement key set of a mux config; duplicates collapse.
#[derive(Debug)]
pub struct UpdateMuxConfigRequest {
    pub keys: Vec<BlsPubkey>,
}

/// Keys to add to or remove from a mux config.
#[derive(Debug)]
pub struct MuxKeysRequest {
    pub keys: Vec<BlsPubkey>,
}

/// How an add or remove went: how many keys changed and how many remain.
#[derive(Debug)]
pub struct MuxKeysResponse {
    pub added: Option<i64>,
    pub removed: Option<i64>,
    pub total_keys: i64,
}

/// The admin listing filters for mux configs: just the page.
#[derive(Debug)]
pub struct MuxConfigFilters {
    pub limit: i64,
    pub offset: i64,
}

impl Default for MuxConfigFilters {
    /// The default page.
    fn default() -> (r: Self)
        ensures
            r.limit == 100,
            r.offset == 0,
    {
        MuxConfigFilters { limit: 100, offset: 0 }
    }
}

// ============================================================================
// Auth tokens
// ============================================================================

/// What a new bearer token should be named.
#[derive(Debug)]
pub struct CreateTokenRequest {
    /// Short identifier for the token.
    pub name: String,
    /// Optional longer description.
    pub description: Option<String>,
}

} // verus!
