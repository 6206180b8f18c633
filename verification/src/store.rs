//! The configuration store: default configs, proposers and proposer
//! patterns with their relay children, under the invariants the data
//! model demands — unique identifiers, unique relay URLs per parent.
//!
//! Child relay collections are updated by whole-collection replacement.

use vstd::prelude::*;

use crate::codec::encoded;
use crate::codec::BlsPubkey;
use crate::codec::EthAddress;
use crate::error::ApiError;
use crate::mux::page_end;
use crate::mux::page_start;
use crate::schema::clone_opt_addr;
use crate::schema::clone_opt_string;
use crate::schema::clone_prelays;
use crate::schema::clone_relays;
use crate::schema::opt_addr;
use crate::schema::opt_str;
use crate::schema::prelays_eq;
use crate::schema::purls_unique;
use crate::schema::relays_eq;
use crate::schema::urls_unique;
use crate::schema::CreateDefaultConfigRequest;
use crate::schema::CreateOrUpdateProposerRequest;
use crate::schema::CreateProposerPatternRequest;
use crate::schema::DefaultConfigFilters;
use crate::schema::DefaultConfigListItem;
use crate::schema::DefaultConfigResponse;
use crate::schema::PaginatedResponse;
use crate::schema::ProposerFilters;
use crate::schema::ProposerListItem;
use crate::schema::ProposerPatternFilters;
use crate::schema::ProposerPatternListItem;
use crate::schema::ProposerPatternResponse;
use crate::schema::ProposerRelayEntry;
use crate::schema::ProposerResponse;
use crate::schema::RelayEntry;
use crate::schema::UpdateDefaultConfigRequest;
use crate::schema::UpdateProposerPatternRequest;
use crate::strutil::contains_sub;
use crate::strutil::is_prefix;
use crate::strutil::str_contains;
use crate::strutil::str_eq;
use crate::strutil::str_prefix;

verus! {

/// A named baseline configuration with its relay children.
#[derive(Debug)]
pub struct DefaultConfigRecord {
    pub name: String,
    pub fee_recipient: Option<EthAddress>,
    pub gas_limit: Option<String>,
    pub min_value: Option<String>,
    pub active: bool,
    pub relays: Vec<RelayEntry>,
    pub created_at: u64,
    pub updated_at: u64,
}

/// A per-validator override row with its relay children.
#[derive(Debug)]
pub struct ProposerRecord {
    pub public_key: BlsPubkey,
    pub fee_recipient: Option<EthAddress>,
    pub gas_limit: Option<String>,
    pub min_value: Option<String>,
    pub reset_relays: bool,
    pub relays: Vec<ProposerRelayEntry>,
    pub created_at: u64,
    pub updated_at: u64,
}

/// A named rule override: regex text, tags, and relay children.
#[derive(Debug)]
pub struct PatternRecord {
    pub name: String,
    pub pattern: String,
    pub tags: Vec<String>,
    pub fee_recipient: Option<EthAddress>,
    pub gas_limit: Option<String>,
    pub min_value: Option<String>,
    pub reset_relays: bool,
    pub relays: Vec<RelayEntry>,
    pub created_at: u64,
    pub updated_at: u64,
}

/// Whether two string lists hold the same texts in the same order.
pub open spec fn strs_eq(a: Seq<String>, b: Seq<String>) -> bool {
    a.len() == b.len() && (forall|i: int| 0 <= i < a.len() ==> (#[trigger] a[i])@ == b[i]@)
}

/// Whether some default config is named `name`.
pub open spec fn dc_has(s: Seq<DefaultConfigRecord>, name: Seq<char>) -> bool {
    exists|i: int| 0 <= i < s.len() && (#[trigger] s[i].name)@ == name
}

/// The index of the default config named `name` (unique under `wf`).
pub open spec fn dc_idx(s: Seq<DefaultConfigRecord>, name: Seq<char>) -> int {
    choose|i: int| 0 <= i < s.len() && (#[trigger] s[i].name)@ == name
}

/// Whether some proposer has this key.
pub open spec fn pr_has(s: Seq<ProposerRecord>, key: Seq<u8>) -> bool {
    exists|i: int| 0 <= i < s.len() && (#[trigger] s[i].public_key)@ == key
}

/// The index of the proposer with this key (unique under `wf`).
pub open spec fn pr_idx(s: Seq<ProposerRecord>, key: Seq<u8>) -> int {
    choose|i: int| 0 <= i < s.len() && (#[trigger] s[i].public_key)@ == key
}

/// Whether some pattern is named `name`.
pub open spec fn pt_has(s: Seq<PatternRecord>, name: Seq<char>) -> bool {
    exists|i: int| 0 <= i < s.len() && (#[trigger] s[i].name)@ == name
}

/// The index of the pattern named `name` (unique under `wf`).
pub open spec fn pt_idx(s: Seq<PatternRecord>, name: Seq<char>) -> int {
    choose|i: int| 0 <= i < s.len() && (#[trigger] s[i].name)@ == name
}

/// The relay list a request carries, or the empty one.
pub open spec fn req_relays(o: Option<Vec<RelayEntry>>) -> Seq<RelayEntry> {
    match o {
        Option::Some(v) => v@,
        Option::None => Seq::empty(),
    }
}

/// The proposer relay list a request carries, or the empty one.
pub open spec fn req_prelays(o: Option<Vec<ProposerRelayEntry>>) -> Seq<ProposerRelayEntry> {
    match o {
        Option::Some(v) => v@,
        Option::None => Seq::empty(),
    }
}

/// Whether a response mirrors a default config record; the relay map is
/// omitted exactly when the record has no relays.
pub open spec fn dc_resp_matches(resp: DefaultConfigResponse, rec: DefaultConfigRecord) -> bool {
    &&& resp.name@ == rec.name@
    &&& opt_addr(resp.fee_recipient) == opt_addr(rec.fee_recipient)
    &&& opt_str(resp.gas_limit) == opt_str(rec.gas_limit)
    &&& opt_str(resp.min_value) == opt_str(rec.min_value)
    &&& resp.active == rec.active
    &&& match resp.relays {
        Option::Some(rs) => rec.relays@.len() > 0 && relays_eq(rs@, rec.relays@),
        Option::None => rec.relays@.len() == 0,
    }
    &&& resp.created_at == rec.created_at
    &&& resp.updated_at == rec.updated_at
}

/// Whether a listing row mirrors a default config record.
pub open spec fn dc_item_matches(item: DefaultConfigListItem, rec: DefaultConfigRecord) -> bool {
    &&& item.name@ == rec.name@
    &&& opt_addr(item.fee_recipient) == opt_addr(rec.fee_recipient)
    &&& opt_str(item.gas_limit) == opt_str(rec.gas_limit)
    &&& opt_str(item.min_value) == opt_str(rec.min_value)
    &&& item.active == rec.active
    &&& item.created_at == rec.created_at
    &&& item.updated_at == rec.updated_at
}

/// Whether a response mirrors a proposer record; the relay map is
/// omitted exactly when the record has no relays.
pub open spec fn pr_resp_matches(resp: ProposerResponse, rec: ProposerRecord) -> bool {
    &&& resp.public_key@ == rec.public_key@
    &&& opt_addr(resp.fee_recipient) == opt_addr(rec.fee_recipient)
    &&& opt_str(resp.gas_limit) == opt_str(rec.gas_limit)
    &&& opt_str(resp.min_value) == opt_str(rec.min_value)
    &&& resp.reset_relays == rec.reset_relays
    &&& match resp.relays {
        Option::Some(rs) => rec.relays@.len() > 0 && prelays_eq(rs@, rec.relays@),
        Option::None => rec.relays@.len() == 0,
    }
    &&& resp.created_at == rec.created_at
    &&& resp.updated_at == rec.updated_at
}

/// Whether a listing row mirrors a proposer record.
pub open spec fn pr_item_matches(item: ProposerListItem, rec: ProposerRecord) -> bool {
    &&& item.public_key@ == rec.public_key@
    &&& opt_addr(item.fee_recipient) == opt_addr(rec.fee_recipient)
    &&& opt_str(item.gas_limit) == opt_str(rec.gas_limit)
    &&& opt_str(item.min_value) == opt_str(rec.min_value)
    &&& item.reset_relays == rec.reset_relays
    &&& item.created_at == rec.created_at
    &&& item.updated_at == rec.updated_at
}

/// Whether a response mirrors a pattern record; the relay map is omitted
/// exactly when the record has no relays.
pub open spec fn pt_resp_matches(resp: ProposerPatternResponse, rec: PatternRecord) -> bool {
    &&& resp.name@ == rec.name@
    &&& resp.pattern@ == rec.pattern@
    &&& strs_eq(resp.tags@, rec.tags@)
    &&& opt_addr(resp.fee_recipient) == opt_addr(rec.fee_recipient)
    &&& opt_str(resp.gas_limit) == opt_str(rec.gas_limit)
    &&& opt_str(resp.min_value) == opt_str(rec.min_value)
    &&& resp.reset_relays == rec.reset_relays
    &&& match resp.relays {
        Option::Some(rs) => rec.relays@.len() > 0 && relays_eq(rs@, rec.relays@),
        Option::None => rec.relays@.len() == 0,
    }
    &&& resp.created_at == rec.created_at
    &&& resp.updated_at == rec.updated_at
}

/// Whether a listing row mirrors a pattern record.
pub open spec fn pt_item_matches(item: ProposerPatternListItem, rec: PatternRecord) -> bool {
    &&& item.name@ == rec.name@
    &&& item.pattern@ == rec.pattern@
    &&& strs_eq(item.tags@, rec.tags@)
    &&& opt_addr(item.fee_recipient) == opt_addr(rec.fee_recipient)
    &&& opt_str(item.gas_limit) == opt_str(rec.gas_limit)
    &&& opt_str(item.min_value) == opt_str(rec.min_value)
    &&& item.reset_relays == rec.reset_relays
    &&& item.created_at == rec.created_at
    &&& item.updated_at == rec.updated_at
}

/// The typed store over the three collections.
#[derive(Debug)]
pub struct ConfigStore {
    default_configs: Vec<DefaultConfigRecord>,
    proposers: Vec<ProposerRecord>,
    patterns: Vec<PatternRecord>,
}

impl ConfigStore {
    /// The default config rows, in creation order.
    pub closed spec fn dcs(&self) -> Seq<DefaultConfigRecord> {
        self.default_configs@
    }

    /// The proposer rows, in creation order.
    pub closed spec fn prs(&self) -> Seq<ProposerRecord> {
        self.proposers@
    }

    /// The pattern rows, in creation order.
    pub closed spec fn pts(&self) -> Seq<PatternRecord> {
        self.patterns@
    }

    /// The store invariant: identifiers unique within their collection,
    /// relay URLs unique within their owning parent.
    pub open spec fn wf(&self) -> bool {
        &&& forall|i: int, j: int|
            0 <= i < j < self.dcs().len() ==> (#[trigger] self.dcs()[i].name)@ != (
            #[trigger] self.dcs()[j].name)@
        &&& forall|i: int, j: int|
            0 <= i < j < self.prs().len() ==> (#[trigger] self.prs()[i].public_key)@ != (
            #[trigger] self.prs()[j].public_key)@
        &&& forall|i: int, j: int|
            0 <= i < j < self.pts().len() ==> (#[trigger] self.pts()[i].name)@ != (
            #[trigger] self.pts()[j].name)@
        &&& forall|i: int| 0 <= i < self.dcs().len() ==> urls_unique((#[trigger] self.dcs()[i]).relays@)
        &&& forall|i: int| 0 <= i < self.prs().len() ==> purls_unique((#[trigger] self.prs()[i]).relays@)
        &&& forall|i: int| 0 <= i < self.pts().len() ==> urls_unique((#[trigger] self.pts()[i]).relays@)
    }

    /// An empty store.
    pub fn new() -> (r: Self)
        ensures
            r.wf(),
            r.dcs().len() == 0,
            r.prs().len() == 0,
            r.pts().len() == 0,
    {
        ConfigStore { default_configs: Vec::new(), proposers: Vec::new(), patterns: Vec::new() }
    }

    /// The default config row at an index.
    pub(crate) fn dc_at(&self, i: usize) -> (r: &DefaultConfigRecord)
        requires
            i < self.dcs().len(),
        ensures
            *r == self.dcs()[i as int],
    {
        &self.default_configs[i]
    }

    /// The proposer row at an index.
    pub(crate) fn pr_at(&self, i: usize) -> (r: &ProposerRecord)
        requires
            i < self.prs().len(),
        ensures
            *r == self.prs()[i as int],
    {
        &self.proposers[i]
    }

    /// The pattern row at an index.
    pub(crate) fn pt_at(&self, i: usize) -> (r: &PatternRecord)
        requires
            i < self.pts().len(),
        ensures
            *r == self.pts()[i as int],
    {
        &self.patterns[i]
    }

    /// How many pattern rows there are.
    pub(crate) fn pts_len(&self) -> (r: usize)
        ensures
            r == self.pts().len(),
    {
        self.patterns.len()
    }

    /// Finds the default config named `name`, if any.
    pub(crate) fn find_dc(&self, name: &str) -> (r: Option<usize>)
        ensures
            match r {
                Option::Some(i) => i < self.dcs().len() && self.dcs()[i as int].name@ == name@
                    && dc_has(self.dcs(), name@),
                Option::None => !dc_has(self.dcs(), name@),
            },
    {
        let mut i: usize = 0;
        while i < self.default_configs.len()
            invariant
                i <= self.dcs().len(),
                forall|j: int| 0 <= j < i ==> (#[trigger] self.dcs()[j].name)@ != name@,
            decreases self.dcs().len() - i,
        {
            if str_eq(self.default_configs[i].name.as_str(), name) {
                return Option::Some(i);
            }
            i = i + 1;
        }
        Option::None
    }

    /// Finds the proposer with this key, if any.
    pub(crate) fn find_pr(&self, key: &BlsPubkey) -> (r: Option<usize>)
        ensures
            match r {
                Option::Some(i) => i < self.prs().len() && self.prs()[i as int].public_key@ == key@
                    && pr_has(self.prs(), key@),
                Option::None => !pr_has(self.prs(), key@),
            },
    {
        let mut i: usize = 0;
        while i < self.proposers.len()
            invariant
                i <= self.prs().len(),
                forall|j: int| 0 <= j < i ==> (#[trigger] self.prs()[j].public_key)@ != key@,
            decreases self.prs().len() - i,
        {
            if self.proposers[i].public_key.eq(key) {
                return Option::Some(i);
            }
            i = i + 1;
        }
        Option::None
    }

    /// Finds the pattern named `name`, if any.
    pub(crate) fn find_pt(&self, name: &str) -> (r: Option<usize>)
        ensures
            match r {
                Option::Some(i) => i < self.pts().len() && self.pts()[i as int].name@ == name@
                    && pt_has(self.pts(), name@),
                Option::None => !pt_has(self.pts(), name@),
            },
    {
        let mut i: usize = 0;
        while i < self.patterns.len()
            invariant
                i <= self.pts().len(),
                forall|j: int| 0 <= j < i ==> (#[trigger] self.pts()[j].name)@ != name@,
            decreases self.pts().len() - i,
        {
            if str_eq(self.patterns[i].name.as_str(), name) {
                return Option::Some(i);
            }
            i = i + 1;
        }
        Option::None
    }

    /// Creates a named default config with its relay children. Fails with
    /// `Conflict` exactly when the name is taken, and with `InvalidData`
    /// exactly when the name is fresh but the request repeats a relay URL.
    pub fn create_default_config(&mut self, req: &CreateDefaultConfigRequest, now: u64) -> (r:
        Result<DefaultConfigResponse, ApiError>)
        requires
            old(self).wf(),
        ensures
            final(self).wf(),
            final(self).prs() == old(self).prs(),
            final(self).pts() == old(self).pts(),
            match r {
                Result::Ok(resp) => {
                    &&& !dc_has(old(self).dcs(), req.name@)
                    &&& urls_unique(req_relays(req.relays))
                    &&& final(self).dcs().len() == old(self).dcs().len() + 1
                    &&& final(self).dcs().subrange(0, old(self).dcs().len() as int) == old(self).dcs()
                    &&& {
                        let rec = final(self).dcs().last();
                        &&& rec.name@ == req.name@
                        &&& opt_addr(rec.fee_recipient) == opt_addr(req.fee_recipient)
                        &&& opt_str(rec.gas_limit) == opt_str(req.gas_limit)
                        &&& opt_str(rec.min_value) == opt_str(req.min_value)
                        &&& rec.active == req.active
                        &&& relays_eq(rec.relays@, req_relays(req.relays))
                        &&& rec.created_at == now
                        &&& rec.updated_at == now
                        &&& dc_resp_matches(resp, rec)
                    }
                },
                Result::Err(e) => final(self).dcs() == old(self).dcs() && match e {
                    ApiError::Conflict(_) => dc_has(old(self).dcs(), req.name@),
                    ApiError::InvalidData(_) => !dc_has(old(self).dcs(), req.name@)
                        && !urls_unique(req_relays(req.relays)),
                    _ => false,
                },
            },
    {
        if let Option::Some(_) = self.find_dc(req.name.as_str()) {
            return Result::Err(ApiError::Conflict(req.name.clone()));
        }
        if let Option::Some(rs) = &req.relays {
            if !check_urls_unique(rs) {
                return Result::Err(ApiError::InvalidData(req.name.clone()));
            }
        }
        let rec = DefaultConfigRecord {
            name: req.name.clone(),
            fee_recipient: clone_opt_addr(&req.fee_recipient),
            gas_limit: clone_opt_string(&req.gas_limit),
            min_value: clone_opt_string(&req.min_value),
            active: req.active,
            relays: relays_of_req(&req.relays),
            created_at: now,
            updated_at: now,
        };
        let resp = DefaultConfigResponse {
            name: rec.name.clone(),
            fee_recipient: clone_opt_addr(&rec.fee_recipient),
            gas_limit: clone_opt_string(&rec.gas_limit),
            min_value: clone_opt_string(&rec.min_value),
            active: rec.active,
            relays: relays_to_resp(&rec.relays),
            created_at: now,
            updated_at: now,
        };
        self.default_configs.push(rec);
        proof {
            assert(final(self).dcs().subrange(0, old(self).dcs().len() as int) =~= old(self).dcs());
        }
        Result::Ok(resp)
    }

    /// The named default config with its relays, active or not, or
    /// `NotFound`.
    pub fn get_default_config(&self, name: &str) -> (r: Result<DefaultConfigResponse, ApiError>)
        requires
            self.wf(),
        ensures
            match r {
                Result::Ok(resp) => dc_has(self.dcs(), name@) && dc_resp_matches(
                    resp,
                    self.dcs()[dc_idx(self.dcs(), name@)],
                ),
                Result::Err(e) => e is NotFound && !dc_has(self.dcs(), name@),
            },
    {
        match self.find_dc(name) {
            Option::Some(i) => {
                proof {
                    lemma_dc_idx_of(self.dcs(), name@, i as int);
                }
                let rec = &self.default_configs[i];
                Result::Ok(
                    DefaultConfigResponse {
                        name: rec.name.clone(),
                        fee_recipient: clone_opt_addr(&rec.fee_recipient),
                        gas_limit: clone_opt_string(&rec.gas_limit),
                        min_value: clone_opt_string(&rec.min_value),
                        active: rec.active,
                        relays: relays_to_resp(&rec.relays),
                        created_at: rec.created_at,
                        updated_at: rec.updated_at,
                    },
                )
            },
            Option::None => Result::Err(ApiError::NotFound(String::from_str(name))),
        }
    }

    /// Updates the set fields of a named default config; unset fields are
    /// kept, and a given relay list replaces the whole child collection.
    /// Fails with `NotFound` exactly when the name is absent, and with
    /// `InvalidData` exactly when it exists but the request repeats a
    /// relay URL.
    pub fn update_default_config(
        &mut self,
        name: &str,
        req: &UpdateDefaultConfigRequest,
        now: u64,
    ) -> (r: Result<DefaultConfigResponse, ApiError>)
        requires
            old(self).wf(),
        ensures
            final(self).wf(),
            final(self).prs() == old(self).prs(),
            final(self).pts() == old(self).pts(),
            match r {
                Result::Ok(resp) => {
                    let i = dc_idx(old(self).dcs(), name@);
                    let was = old(self).dcs()[i];
                    let rec = final(self).dcs()[i];
                    &&& dc_has(old(self).dcs(), name@)
                    &&& (req.relays is Some ==> urls_unique(req_relays(req.relays)))
                    &&& final(self).dcs().len() == old(self).dcs().len()
                    &&& (forall|j: int|
                        0 <= j < final(self).dcs().len() && j != i ==> final(self).dcs()[j] == old(self).dcs()[j])
                    &&& rec.name@ == was.name@
                    &&& opt_addr(rec.fee_recipient) == (if req.fee_recipient is Some {
                        opt_addr(req.fee_recipient)
                    } else {
                        opt_addr(was.fee_recipient)
                    })
                    &&& opt_str(rec.gas_limit) == (if req.gas_limit is Some {
                        opt_str(req.gas_limit)
                    } else {
                        opt_str(was.gas_limit)
                    })
                    &&& opt_str(rec.min_value) == (if req.min_value is Some {
                        opt_str(req.min_value)
                    } else {
                        opt_str(was.min_value)
                    })
                    &&& rec.active == (match req.active {
                        Option::Some(a) => a,
                        Option::None => was.active,
                    })
                    &&& (match req.relays {
                        Option::Some(rs) => relays_eq(rec.relays@, rs@),
                        Option::None => relays_eq(rec.relays@, was.relays@),
                    })
                    &&& rec.created_at == was.created_at
                    &&& rec.updated_at == now
                    &&& dc_resp_matches(resp, rec)
                },
                Result::Err(e) => final(self).dcs() == old(self).dcs() && match e {
                    ApiError::NotFound(_) => !dc_has(old(self).dcs(), name@),
                    ApiError::InvalidData(_) => dc_has(old(self).dcs(), name@) && req.relays
                        is Some && !urls_unique(req_relays(req.relays)),
                    _ => false,
                },
            },
    {
        let i = match self.find_dc(name) {
            Option::Some(i) => i,
            Option::None => {
                return Result::Err(ApiError::NotFound(String::from_str(name)));
            },
        };
        proof {
            lemma_dc_idx_of(self.dcs(), name@, i as int);
        }
        if let Option::Some(rs) = &req.relays {
            if !check_urls_unique(rs) {
                return Result::Err(ApiError::InvalidData(String::from_str(name)));
            }
        }
        let was = &self.default_configs[i];
        let rec = DefaultConfigRecord {
            name: was.name.clone(),
            fee_recipient: match &req.fee_recipient {
                Option::Some(a) => Option::Some(a.clone()),
                Option::None => clone_opt_addr(&was.fee_recipient),
            },
            gas_limit: match &req.gas_limit {
                Option::Some(g) => Option::Some(g.clone()),
                Option::None => clone_opt_string(&was.gas_limit),
            },
            min_value: match &req.min_value {
                Option::Some(m) => Option::Some(m.clone()),
                Option::None => clone_opt_string(&was.min_value),
            },
            active: match req.active {
                Option::Some(a) => a,
                Option::None => was.active,
            },
            relays: match &req.relays {
                Option::Some(rs) => clone_relays(rs),
                Option::None => clone_relays(&was.relays),
            },
            created_at: was.created_at,
            updated_at: now,
        };
        let resp = DefaultConfigResponse {
            name: rec.name.clone(),
            fee_recipient: clone_opt_addr(&rec.fee_recipient),
            gas_limit: clone_opt_string(&rec.gas_limit),
            min_value: clone_opt_string(&rec.min_value),
            active: rec.active,
            relays: relays_to_resp(&rec.relays),
            created_at: rec.created_at,
            updated_at: rec.updated_at,
        };
        self.default_configs[i] = rec;
        Result::Ok(resp)
    }

    /// Deletes the named default config. Fails with `NotFound` exactly
    /// when the name is absent.
    pub fn delete_default_config(&mut self, name: &str) -> (r: Result<(), ApiError>)
        requires
            old(self).wf(),
        ensures
            final(self).wf(),
            final(self).prs() == old(self).prs(),
            final(self).pts() == old(self).pts(),
            match r {
                Result::Ok(_) => dc_has(old(self).dcs(), name@) && final(self).dcs() == old(self).dcs().remove(dc_idx(old(self).dcs(), name@)),
                Result::Err(e) => e is NotFound && !dc_has(old(self).dcs(), name@) && final(self).dcs() == old(self).dcs(),
            },
    {
        match self.find_dc(name) {
            Option::Some(i) => {
                proof {
                    lemma_dc_idx_of(self.dcs(), name@, i as int);
                }
                self.default_configs.remove(i);
                Result::Ok(())
            },
            Option::None => Result::Err(ApiError::NotFound(String::from_str(name))),
        }
    }

    /// One page of the default configs that pass the filters, in store
    /// order, with the count of all that pass.
    pub fn list_default_configs(&self, filters: &DefaultConfigFilters) -> (r: PaginatedResponse<
        DefaultConfigListItem,
    >)
        requires
            self.dcs().len() <= 0x7fff_ffff_ffff_ffff,
        ensures
            ({
                let filt = self.dcs().filter(|c: DefaultConfigRecord| dc_matches(c, *filters));
                let off = page_start(filt.len() as int, filters.offset);
                let end = page_end(filt.len() as int, filters.limit, filters.offset);
                &&& r.total == filt.len()
                &&& r.limit == filters.limit
                &&& r.offset == filters.offset
                &&& r.data@.len() == end - off
                &&& (forall|j: int|
                    0 <= j < r.data@.len() ==> dc_item_matches(#[trigger] r.data@[j], filt[off + j]))
            }),
    {
        let ghost pred = |c: DefaultConfigRecord| dc_matches(c, *filters);
        let off0: u64 = if filters.offset < 0 {
            0
        } else {
            filters.offset as u64
        };
        let lim0: u64 = if filters.limit < 0 {
            0
        } else {
            filters.limit as u64
        };
        let mut data: Vec<DefaultConfigListItem> = Vec::new();
        let mut count: u64 = 0;
        let mut i: usize = 0;
        proof {
            assert(self.dcs().subrange(0, 0).filter(pred) =~= Seq::<DefaultConfigRecord>::empty());
        }
        while i < self.default_configs.len()
            invariant
                i <= self.dcs().len(),
                count == self.dcs().subrange(0, i as int).filter(pred).len(),
                count <= i,
                data@.len() == (if count <= off0 {
                    0int
                } else if count >= off0 + lim0 {
                    lim0 as int
                } else {
                    count - off0
                }),
                forall|j: int|
                    0 <= j < data@.len() ==> dc_item_matches(
                        #[trigger] data@[j],
                        self.dcs().subrange(0, i as int).filter(pred)[off0 + j],
                    ),
            decreases self.dcs().len() - i,
        {
            proof {
                lemma_filter_step(self.dcs(), pred, i as int);
            }
            let rec = &self.default_configs[i];
            if dc_matches_exec(rec, filters) {
                if count >= off0 && (data.len() as u64) < lim0 {
                    data.push(
                        DefaultConfigListItem {
                            name: rec.name.clone(),
                            fee_recipient: clone_opt_addr(&rec.fee_recipient),
                            gas_limit: clone_opt_string(&rec.gas_limit),
                            min_value: clone_opt_string(&rec.min_value),
                            active: rec.active,
                            created_at: rec.created_at,
                            updated_at: rec.updated_at,
                        },
                    );
                }
                count = count + 1;
            }
            i = i + 1;
        }
        proof {
            assert(self.dcs().subrange(0, self.dcs().len() as int) =~= self.dcs());
        }
        PaginatedResponse {
            data,
            total: count as i64,
            limit: filters.limit,
            offset: filters.offset,
        }
    }

    /// Creates the proposer with this key, or replaces the whole row —
    /// fields, flags and relay children — when it already exists; reports
    /// whether it was created. Fails with `InvalidData` exactly when the
    /// request repeats a relay URL.
    pub fn create_or_update_proposer(
        &mut self,
        public_key: &BlsPubkey,
        req: &CreateOrUpdateProposerRequest,
        now: u64,
    ) -> (r: Result<(bool, ProposerResponse), ApiError>)
        requires
            old(self).wf(),
        ensures
            final(self).wf(),
            final(self).dcs() == old(self).dcs(),
            final(self).pts() == old(self).pts(),
            match r {
                Result::Ok((created, resp)) => {
                    &&& purls_unique(req_prelays(req.relays))
                    &&& created == !pr_has(old(self).prs(), public_key@)
                    &&& (created ==> {
                        &&& final(self).prs().len() == old(self).prs().len() + 1
                        &&& final(self).prs().subrange(0, old(self).prs().len() as int) == old(self).prs()
                        &&& proposer_row_matches(
                            final(self).prs().last(),
                            public_key@,
                            *req,
                            now,
                            now,
                        )
                        &&& pr_resp_matches(resp, final(self).prs().last())
                    })
                    &&& (!created ==> {
                        let i = pr_idx(old(self).prs(), public_key@);
                        &&& final(self).prs().len() == old(self).prs().len()
                        &&& (forall|j: int|
                            0 <= j < final(self).prs().len() && j != i ==> final(self).prs()[j]
                                == old(self).prs()[j])
                        &&& proposer_row_matches(
                            final(self).prs()[i],
                            public_key@,
                            *req,
                            old(self).prs()[i].created_at,
                            now,
                        )
                        &&& pr_resp_matches(resp, final(self).prs()[i])
                    })
                },
                Result::Err(e) => e is InvalidData && !purls_unique(req_prelays(req.relays))
                    && final(self).prs() == old(self).prs(),
            },
    {
        if let Option::Some(rs) = &req.relays {
            if !check_purls_unique(rs) {
                return Result::Err(ApiError::InvalidData(public_key.to_hex()));
            }
        }
        let rec = ProposerRecord {
            public_key: public_key.clone(),
            fee_recipient: clone_opt_addr(&req.fee_recipient),
            gas_limit: clone_opt_string(&req.gas_limit),
            min_value: clone_opt_string(&req.min_value),
            reset_relays: req.reset_relays,
            relays: prelays_of_req(&req.relays),
            created_at: now,
            updated_at: now,
        };
        match self.find_pr(public_key) {
            Option::Some(i) => {
                proof {
                    lemma_pr_idx_of(self.prs(), public_key@, i as int);
                }
                let created = self.proposers[i].created_at;
                let rec = ProposerRecord { created_at: created, ..rec };
                let resp = ProposerResponse {
                    public_key: rec.public_key.clone(),
                    fee_recipient: clone_opt_addr(&rec.fee_recipient),
                    gas_limit: clone_opt_string(&rec.gas_limit),
                    min_value: clone_opt_string(&rec.min_value),
                    reset_relays: rec.reset_relays,
                    relays: prelays_to_resp(&rec.relays),
                    created_at: rec.created_at,
                    updated_at: rec.updated_at,
                };
                self.proposers[i] = rec;
                Result::Ok((false, resp))
            },
            Option::None => {
                let resp = ProposerResponse {
                    public_key: rec.public_key.clone(),
                    fee_recipient: clone_opt_addr(&rec.fee_recipient),
                    gas_limit: clone_opt_string(&rec.gas_limit),
                    min_value: clone_opt_string(&rec.min_value),
                    reset_relays: rec.reset_relays,
                    relays: prelays_to_resp(&rec.relays),
                    created_at: rec.created_at,
                    updated_at: rec.updated_at,
                };
                self.proposers.push(rec);
                proof {
                    assert(final(self).prs().subrange(0, old(self).prs().len() as int) =~= old(self).prs());
                }
                Result::Ok((true, resp))
            },
        }
    }

    /// The proposer with this key and its relays, or `NotFound`.
    pub fn get_proposer(&self, public_key: &BlsPubkey) -> (r: Result<ProposerResponse, ApiError>)
        requires
            self.wf(),
        ensures
            match r {
                Result::Ok(resp) => pr_has(self.prs(), public_key@) && pr_resp_matches(
                    resp,
                    self.prs()[pr_idx(self.prs(), public_key@)],
                ),
                Result::Err(e) => e is NotFound && !pr_has(self.prs(), public_key@),
            },
    {
        match self.find_pr(public_key) {
            Option::Some(i) => {
                proof {
                    lemma_pr_idx_of(self.prs(), public_key@, i as int);
                }
                let rec = &self.proposers[i];
                Result::Ok(
                    ProposerResponse {
                        public_key: rec.public_key.clone(),
                        fee_recipient: clone_opt_addr(&rec.fee_recipient),
                        gas_limit: clone_opt_string(&rec.gas_limit),
                        min_value: clone_opt_string(&rec.min_value),
                        reset_relays: rec.reset_relays,
                        relays: prelays_to_resp(&rec.relays),
                        created_at: rec.created_at,
                        updated_at: rec.updated_at,
                    },
                )
            },
            Option::None => Result::Err(ApiError::NotFound(public_key.to_hex())),
        }
    }

    /// Deletes the proposer with this key. Fails with `NotFound` exactly
    /// when no proposer has it.
    pub fn delete_proposer(&mut self, public_key: &BlsPubkey) -> (r: Result<(), ApiError>)
        requires
            old(self).wf(),
        ensures
            final(self).wf(),
            final(self).dcs() == old(self).dcs(),
            final(self).pts() == old(self).pts(),
            match r {
                Result::Ok(_) => pr_has(old(self).prs(), public_key@) && final(self).prs() == old(self).prs().remove(pr_idx(old(self).prs(), public_key@)),
                Result::Err(e) => e is NotFound && !pr_has(old(self).prs(), public_key@) && final(self).prs() == old(self).prs(),
            },
    {
        match self.find_pr(public_key) {
            Option::Some(i) => {
                proof {
                    lemma_pr_idx_of(self.prs(), public_key@, i as int);
                }
                self.proposers.remove(i);
                Result::Ok(())
            },
            Option::None => Result::Err(ApiError::NotFound(public_key.to_hex())),
        }
    }

    /// One page of the proposers that pass the filters, in store order,
    /// with the count of all that pass.
    pub fn list_proposers(&self, filters: &ProposerFilters) -> (r: PaginatedResponse<
        ProposerListItem,
    >)
        requires
            self.prs().len() <= 0x7fff_ffff_ffff_ffff,
        ensures
            ({
                let filt = self.prs().filter(|p: ProposerRecord| pr_matches(p, *filters));
                let off = page_start(filt.len() as int, filters.offset);
                let end = page_end(filt.len() as int, filters.limit, filters.offset);
                &&& r.total == filt.len()
                &&& r.limit == filters.limit
                &&& r.offset == filters.offset
                &&& r.data@.len() == end - off
                &&& (forall|j: int|
                    0 <= j < r.data@.len() ==> pr_item_matches(#[trigger] r.data@[j], filt[off + j]))
            }),
    {
        let ghost pred = |p: ProposerRecord| pr_matches(p, *filters);
        let off0: u64 = if filters.offset < 0 {
            0
        } else {
            filters.offset as u64
        };
        let lim0: u64 = if filters.limit < 0 {
            0
        } else {
            filters.limit as u64
        };
        let mut data: Vec<ProposerListItem> = Vec::new();
        let mut count: u64 = 0;
        let mut i: usize = 0;
        proof {
            assert(self.prs().subrange(0, 0).filter(pred) =~= Seq::<ProposerRecord>::empty());
        }
        while i < self.proposers.len()
            invariant
                i <= self.prs().len(),
                count == self.prs().subrange(0, i as int).filter(pred).len(),
                count <= i,
                data@.len() == (if count <= off0 {
                    0int
                } else if count >= off0 + lim0 {
                    lim0 as int
                } else {
                    count - off0
                }),
                forall|j: int|
                    0 <= j < data@.len() ==> pr_item_matches(
                        #[trigger] data@[j],
                        self.prs().subrange(0, i as int).filter(pred)[off0 + j],
                    ),
            decreases self.prs().len() - i,
        {
            proof {
                lemma_filter_step(self.prs(), pred, i as int);
            }
            let rec = &self.proposers[i];
            if pr_matches_exec(rec, filters) {
                if count >= off0 && (data.len() as u64) < lim0 {
                    data.push(
                        ProposerListItem {
                            public_key: rec.public_key.clone(),
                            fee_recipient: clone_opt_addr(&rec.fee_recipient),
                            gas_limit: clone_opt_string(&rec.gas_limit),
                            min_value: clone_opt_string(&rec.min_value),
                            reset_relays: rec.reset_relays,
                            created_at: rec.created_at,
                            updated_at: rec.updated_at,
                        },
                    );
                }
                count = count + 1;
            }
            i = i + 1;
        }
        proof {
            assert(self.prs().subrange(0, self.prs().len() as int) =~= self.prs());
        }
        PaginatedResponse {
            data,
            total: count as i64,
            limit: filters.limit,
            offset: filters.offset,
        }
    }

    /// Creates a named proposer pattern with its relay children. Fails
    /// with `Conflict` exactly when the name is taken, and with
    /// `InvalidData` exactly when the name is fresh but the request
    /// repeats a relay URL.
    pub fn create_proposer_pattern(&mut self, req: &CreateProposerPatternRequest, now: u64) -> (r:
        Result<ProposerPatternResponse, ApiError>)
        requires
            old(self).wf(),
        ensures
            final(self).wf(),
            final(self).dcs() == old(self).dcs(),
            final(self).prs() == old(self).prs(),
            match r {
                Result::Ok(resp) => {
                    &&& !pt_has(old(self).pts(), req.name@)
                    &&& urls_unique(req_relays(req.relays))
                    &&& final(self).pts().len() == old(self).pts().len() + 1
                    &&& final(self).pts().subrange(0, old(self).pts().len() as int) == old(self).pts()
                    &&& {
                        let rec = final(self).pts().last();
                        &&& rec.name@ == req.name@
                        &&& rec.pattern@ == req.pattern@
                        &&& strs_eq(rec.tags@, req.tags@)
                        &&& opt_addr(rec.fee_recipient) == opt_addr(req.fee_recipient)
                        &&& opt_str(rec.gas_limit) == opt_str(req.gas_limit)
                        &&& opt_str(rec.min_value) == opt_str(req.min_value)
                        &&& rec.reset_relays == req.reset_relays
                        &&& relays_eq(rec.relays@, req_relays(req.relays))
                        &&& rec.created_at == now
                        &&& rec.updated_at == now
                        &&& pt_resp_matches(resp, rec)
                    }
                },
                Result::Err(e) => final(self).pts() == old(self).pts() && match e {
                    ApiError::Conflict(_) => pt_has(old(self).pts(), req.name@),
                    ApiError::InvalidData(_) => !pt_has(old(self).pts(), req.name@)
                        && !urls_unique(req_relays(req.relays)),
                    _ => false,
                },
            },
    {
        if let Option::Some(_) = self.find_pt(req.name.as_str()) {
            return Result::Err(ApiError::Conflict(req.name.clone()));
        }
        if let Option::Some(rs) = &req.relays {
            if !check_urls_unique(rs) {
                return Result::Err(ApiError::InvalidData(req.name.clone()));
            }
        }
        let rec = PatternRecord {
            name: req.name.clone(),
            pattern: req.pattern.clone(),
            tags: clone_strings(&req.tags),
            fee_recipient: clone_opt_addr(&req.fee_recipient),
            gas_limit: clone_opt_string(&req.gas_limit),
            min_value: clone_opt_string(&req.min_value),
            reset_relays: req.reset_relays,
            relays: relays_of_req(&req.relays),
            created_at: now,
            updated_at: now,
        };
        let resp = ProposerPatternResponse {
            name: rec.name.clone(),
            pattern: rec.pattern.clone(),
            tags: clone_strings(&rec.tags),
            fee_recipient: clone_opt_addr(&rec.fee_recipient),
            gas_limit: clone_opt_string(&rec.gas_limit),
            min_value: clone_opt_string(&rec.min_value),
            reset_relays: rec.reset_relays,
            relays: relays_to_resp(&rec.relays),
            created_at: now,
            updated_at: now,
        };
        self.patterns.push(rec);
        proof {
            assert(final(self).pts().subrange(0, old(self).pts().len() as int) =~= old(self).pts());
        }
        Result::Ok(resp)
    }

    /// The named proposer pattern with its relays, or `NotFound`.
    pub fn get_proposer_pattern(&self, name: &str) -> (r: Result<ProposerPatternResponse, ApiError>)
        requires
            self.wf(),
        ensures
            match r {
                Result::Ok(resp) => pt_has(self.pts(), name@) && pt_resp_matches(
                    resp,
                    self.pts()[pt_idx(self.pts(), name@)],
                ),
                Result::Err(e) => e is NotFound && !pt_has(self.pts(), name@),
            },
    {
        match self.find_pt(name) {
            Option::Some(i) => {
                proof {
                    lemma_pt_idx_of(self.pts(), name@, i as int);
                }
                let rec = &self.patterns[i];
                Result::Ok(
                    ProposerPatternResponse {
                        name: rec.name.clone(),
                        pattern: rec.pattern.clone(),
                        tags: clone_strings(&rec.tags),
                        fee_recipient: clone_opt_addr(&rec.fee_recipient),
                        gas_limit: clone_opt_string(&rec.gas_limit),
                        min_value: clone_opt_string(&rec.min_value),
                        reset_relays: rec.reset_relays,
                        relays: relays_to_resp(&rec.relays),
                        created_at: rec.created_at,
                        updated_at: rec.updated_at,
                    },
                )
            },
            Option::None => Result::Err(ApiError::NotFound(String::from_str(name))),
        }
    }

    /// Updates the set fields of a named pattern; unset fields are kept,
    /// and a given relay list replaces the whole child collection. Fails
    /// with `NotFound` exactly when the name is absent, and with
    /// `InvalidData` exactly when it exists but the request repeats a
    /// relay URL.
    pub fn update_proposer_pattern(
        &mut self,
        name: &str,
        req: &UpdateProposerPatternRequest,
        now: u64,
    ) -> (r: Result<ProposerPatternResponse, ApiError>)
        requires
            old(self).wf(),
        ensures
            final(self).wf(),
            final(self).dcs() == old(self).dcs(),
            final(self).prs() == old(self).prs(),
            match r {
                Result::Ok(resp) => {
                    let i = pt_idx(old(self).pts(), name@);
                    let was = old(self).pts()[i];
                    let rec = final(self).pts()[i];
                    &&& pt_has(old(self).pts(), name@)
                    &&& (req.relays is Some ==> urls_unique(req_relays(req.relays)))
                    &&& final(self).pts().len() == old(self).pts().len()
                    &&& (forall|j: int|
                        0 <= j < final(self).pts().len() && j != i ==> final(self).pts()[j] == old(self).pts()[j])
                    &&& rec.name@ == was.name@
                    &&& rec.pattern@ == (match req.pattern {
                        Option::Some(p) => p@,
                        Option::None => was.pattern@,
                    })
                    &&& (match req.tags {
                        Option::Some(ts) => strs_eq(rec.tags@, ts@),
                        Option::None => strs_eq(rec.tags@, was.tags@),
                    })
                    &&& opt_addr(rec.fee_recipient) == (if req.fee_recipient is Some {
                        opt_addr(req.fee_recipient)
                    } else {
                        opt_addr(was.fee_recipient)
                    })
                    &&& opt_str(rec.gas_limit) == (if req.gas_limit is Some {
                        opt_str(req.gas_limit)
                    } else {
                        opt_str(was.gas_limit)
                    })
                    &&& opt_str(rec.min_value) == (if req.min_value is Some {
                        opt_str(req.min_value)
                    } else {
                        opt_str(was.min_value)
                    })
                    &&& rec.reset_relays == (match req.reset_relays {
                        Option::Some(b) => b,
                        Option::None => was.reset_relays,
                    })
                    &&& (match req.relays {
                        Option::Some(rs) => relays_eq(rec.relays@, rs@),
                        Option::None => relays_eq(rec.relays@, was.relays@),
                    })
                    &&& rec.created_at == was.created_at
                    &&& rec.updated_at == now
                    &&& pt_resp_matches(resp, rec)
                },
                Result::Err(e) => final(self).pts() == old(self).pts() && match e {
                    ApiError::NotFound(_) => !pt_has(old(self).pts(), name@),
                    ApiError::InvalidData(_) => pt_has(old(self).pts(), name@) && req.relays
                        is Some && !urls_unique(req_relays(req.relays)),
                    _ => false,
                },
            },
    {
        let i = match self.find_pt(name) {
            Option::Some(i) => i,
            Option::None => {
                return Result::Err(ApiError::NotFound(String::from_str(name)));
            },
        };
        proof {
            lemma_pt_idx_of(self.pts(), name@, i as int);
        }
        if let Option::Some(rs) = &req.relays {
            if !check_urls_unique(rs) {
                return Result::Err(ApiError::InvalidData(String::from_str(name)));
            }
        }
        let was = &self.patterns[i];
        let rec = PatternRecord {
            name: was.name.clone(),
            pattern: match &req.pattern {
                Option::Some(p) => p.clone(),
                Option::None => was.pattern.clone(),
            },
            tags: match &req.tags {
                Option::Some(ts) => clone_strings(ts),
                Option::None => clone_strings(&was.tags),
            },
            fee_recipient: match &req.fee_recipient {
                Option::Some(a) => Option::Some(a.clone()),
                Option::None => clone_opt_addr(&was.fee_recipient),
            },
            gas_limit: match &req.gas_limit {
                Option::Some(g) => Option::Some(g.clone()),
                Option::None => clone_opt_string(&was.gas_limit),
            },
            min_value: match &req.min_value {
                Option::Some(m) => Option::Some(m.clone()),
                Option::None => clone_opt_string(&was.min_value),
            },
            reset_relays: match req.reset_relays {
                Option::Some(b) => b,
                Option::None => was.reset_relays,
            },
            relays: match &req.relays {
                Option::Some(rs) => clone_relays(rs),
                Option::None => clone_relays(&was.relays),
            },
            created_at: was.created_at,
            updated_at: now,
        };
        let resp = ProposerPatternResponse {
            name: rec.name.clone(),
            pattern: rec.pattern.clone(),
            tags: clone_strings(&rec.tags),
            fee_recipient: clone_opt_addr(&rec.fee_recipient),
            gas_limit: clone_opt_string(&rec.gas_limit),
            min_value: clone_opt_string(&rec.min_value),
            reset_relays: rec.reset_relays,
            relays: relays_to_resp(&rec.relays),
            created_at: rec.created_at,
            updated_at: rec.updated_at,
        };
        self.patterns[i] = rec;
        Result::Ok(resp)
    }

    /// Deletes the named pattern. Fails with `NotFound` exactly when the
    /// name is absent.
    pub fn delete_proposer_pattern(&mut self, name: &str) -> (r: Result<(), ApiError>)
        requires
            old(self).wf(),
        ensures
            final(self).wf(),
            final(self).dcs() == old(self).dcs(),
            final(self).prs() == old(self).prs(),
            match r {
                Result::Ok(_) => pt_has(old(self).pts(), name@) && final(self).pts() == old(self).pts().remove(pt_idx(old(self).pts(), name@)),
                Result::Err(e) => e is NotFound && !pt_has(old(self).pts(), name@) && final(self).pts() == old(self).pts(),
            },
    {
        match self.find_pt(name) {
            Option::Some(i) => {
                proof {
                    lemma_pt_idx_of(self.pts(), name@, i as int);
                }
                self.patterns.remove(i);
                Result::Ok(())
            },
            Option::None => Result::Err(ApiError::NotFound(String::from_str(name))),
        }
    }

    /// One page of the patterns that pass the filters, in store order,
    /// with the count of all that pass.
    pub fn list_proposer_patterns(&self, filters: &ProposerPatternFilters) -> (r:
        PaginatedResponse<ProposerPatternListItem>)
        requires
            self.pts().len() <= 0x7fff_ffff_ffff_ffff,
        ensures
            ({
                let filt = self.pts().filter(|p: PatternRecord| pt_matches(p, *filters));
                let off = page_start(filt.len() as int, filters.offset);
                let end = page_end(filt.len() as int, filters.limit, filters.offset);
                &&& r.total == filt.len()
                &&& r.limit == filters.limit
                &&& r.offset == filters.offset
                &&& r.data@.len() == end - off
                &&& (forall|j: int|
                    0 <= j < r.data@.len() ==> pt_item_matches(#[trigger] r.data@[j], filt[off + j]))
            }),
    {
        let ghost pred = |p: PatternRecord| pt_matches(p, *filters);
        let off0: u64 = if filters.offset < 0 {
            0
        } else {
            filters.offset as u64
        };
        let lim0: u64 = if filters.limit < 0 {
            0
        } else {
            filters.limit as u64
        };
        let mut data: Vec<ProposerPatternListItem> = Vec::new();
        let mut count: u64 = 0;
        let mut i: usize = 0;
        proof {
            assert(self.pts().subrange(0, 0).filter(pred) =~= Seq::<PatternRecord>::empty());
        }
        while i < self.patterns.len()
            invariant
                i <= self.pts().len(),
                count == self.pts().subrange(0, i as int).filter(pred).len(),
                count <= i,
                data@.len() == (if count <= off0 {
                    0int
                } else if count >= off0 + lim0 {
                    lim0 as int
                } else {
                    count - off0
                }),
                forall|j: int|
                    0 <= j < data@.len() ==> pt_item_matches(
                        #[trigger] data@[j],
                        self.pts().subrange(0, i as int).filter(pred)[off0 + j],
                    ),
            decreases self.pts().len() - i,
        {
            proof {
                lemma_filter_step(self.pts(), pred, i as int);
            }
            let rec = &self.patterns[i];
            if pt_matches_exec(rec, filters) {
                if count >= off0 && (data.len() as u64) < lim0 {
                    data.push(
                        ProposerPatternListItem {
                            name: rec.name.clone(),
                            pattern: rec.pattern.clone(),
                            tags: clone_strings(&rec.tags),
                            fee_recipient: clone_opt_addr(&rec.fee_recipient),
                            gas_limit: clone_opt_string(&rec.gas_limit),
                            min_value: clone_opt_string(&rec.min_value),
                            reset_relays: rec.reset_relays,
                            created_at: rec.created_at,
                            updated_at: rec.updated_at,
                        },
                    );
                }
                count = count + 1;
            }
            i = i + 1;
        }
        proof {
            assert(self.pts().subrange(0, self.pts().len() as int) =~= self.pts());
        }
        PaginatedResponse {
            data,
            total: count as i64,
            limit: filters.limit,
            offset: filters.offset,
        }
    }
}

/// Whether a pattern record passes the admin listing filters: name by
/// prefix, pattern text by substring, tag by exact membership, fee
/// recipient by canonical text, the rest exactly.
pub open spec fn pt_matches(rec: PatternRecord, f: ProposerPatternFilters) -> bool {
    &&& match f.name {
        Option::Some(p) => is_prefix(p@, rec.name@),
        Option::None => true,
    }
    &&& match f.pattern {
        Option::Some(p) => contains_sub(rec.pattern@, p@),
        Option::None => true,
    }
    &&& match f.tag {
        Option::Some(t) => exists|i: int| 0 <= i < rec.tags@.len() && (#[trigger] rec.tags@[i])@ == t@,
        Option::None => true,
    }
    &&& match f.fee_recipient {
        Option::Some(t) => match rec.fee_recipient {
            Option::Some(a) => t@ == encoded(a@),
            Option::None => false,
        },
        Option::None => true,
    }
    &&& match f.gas_limit {
        Option::Some(g) => match rec.gas_limit {
            Option::Some(rg) => rg@ == g@,
            Option::None => false,
        },
        Option::None => true,
    }
    &&& match f.min_value {
        Option::Some(m) => match rec.min_value {
            Option::Some(rm) => rm@ == m@,
            Option::None => false,
        },
        Option::None => true,
    }
    &&& match f.reset_relays {
        Option::Some(b) => rec.reset_relays == b,
        Option::None => true,
    }
}

/// Whether some string of the list is exactly this text.
fn strings_contain(v: &Vec<String>, t: &str) -> (r: bool)
    ensures
        r == exists|i: int| 0 <= i < v@.len() && (#[trigger] v@[i])@ == t@,
{
    let mut i: usize = 0;
    while i < v.len()
        invariant
            i <= v@.len(),
            forall|j: int| 0 <= j < i ==> (#[trigger] v@[j])@ != t@,
        decreases v@.len() - i,
    {
        if str_eq(v[i].as_str(), t) {
            return true;
        }
        i = i + 1;
    }
    false
}

/// Whether a pattern record passes the filters, checked.
fn pt_matches_exec(rec: &PatternRecord, f: &ProposerPatternFilters) -> (r: bool)
    ensures
        r == pt_matches(*rec, *f),
{
    if let Option::Some(p) = &f.name {
        if !str_prefix(p.as_str(), rec.name.as_str()) {
            return false;
        }
    }
    if let Option::Some(p) = &f.pattern {
        if !str_contains(rec.pattern.as_str(), p.as_str()) {
            return false;
        }
    }
    if let Option::Some(t) = &f.tag {
        if !strings_contain(&rec.tags, t.as_str()) {
            return false;
        }
    }
    if let Option::Some(t) = &f.fee_recipient {
        match &rec.fee_recipient {
            Option::Some(a) => {
                let hex = a.to_hex();
                if !str_eq(t.as_str(), hex.as_str()) {
                    return false;
                }
            },
            Option::None => {
                return false;
            },
        }
    }
    if let Option::Some(g) = &f.gas_limit {
        match &rec.gas_limit {
            Option::Some(rg) => {
                if !str_eq(rg.as_str(), g.as_str()) {
                    return false;
                }
            },
            Option::None => {
                return false;
            },
        }
    }
    if let Option::Some(m) = &f.min_value {
        match &rec.min_value {
            Option::Some(rm) => {
                if !str_eq(rm.as_str(), m.as_str()) {
                    return false;
                }
            },
            Option::None => {
                return false;
            },
        }
    }
    if let Option::Some(b) = f.reset_relays {
        if rec.reset_relays != b {
            return false;
        }
    }
    true
}

/// Whether a proposer row holds exactly what a create-or-update request
/// asked for, with these timestamps.
pub open spec fn proposer_row_matches(
    rec: ProposerRecord,
    key: Seq<u8>,
    req: CreateOrUpdateProposerRequest,
    created_at: u64,
    updated_at: u64,
) -> bool {
    &&& rec.public_key@ == key
    &&& opt_addr(rec.fee_recipient) == opt_addr(req.fee_recipient)
    &&& opt_str(rec.gas_limit) == opt_str(req.gas_limit)
    &&& opt_str(rec.min_value) == opt_str(req.min_value)
    &&& rec.reset_relays == req.reset_relays
    &&& prelays_eq(rec.relays@, req_prelays(req.relays))
    &&& rec.created_at == created_at
    &&& rec.updated_at == updated_at
}

/// Whether a proposer record passes the admin listing filters: the key
/// and relay URLs by prefix on their canonical text, the relay_* fields
/// asking for some relay of the proposer to match, the rest exactly.
pub open spec fn pr_matches(rec: ProposerRecord, f: ProposerFilters) -> bool {
    &&& match f.public_key {
        Option::Some(p) => is_prefix(p@, encoded(rec.public_key@)),
        Option::None => true,
    }
    &&& match f.fee_recipient {
        Option::Some(t) => match rec.fee_recipient {
            Option::Some(a) => t@ == encoded(a@),
            Option::None => false,
        },
        Option::None => true,
    }
    &&& match f.gas_limit {
        Option::Some(g) => match rec.gas_limit {
            Option::Some(rg) => rg@ == g@,
            Option::None => false,
        },
        Option::None => true,
    }
    &&& match f.min_value {
        Option::Some(m) => match rec.min_value {
            Option::Some(rm) => rm@ == m@,
            Option::None => false,
        },
        Option::None => true,
    }
    &&& match f.reset_relays {
        Option::Some(b) => rec.reset_relays == b,
        Option::None => true,
    }
    &&& match f.relay_url {
        Option::Some(p) => exists|i: int|
            0 <= i < rec.relays@.len() && is_prefix(p@, (#[trigger] rec.relays@[i]).url@),
        Option::None => true,
    }
    &&& match f.relay_min_value {
        Option::Some(m) => exists|i: int|
            0 <= i < rec.relays@.len() && match (#[trigger] rec.relays@[i]).relay.min_value {
                Option::Some(v) => v@ == m@,
                Option::None => false,
            },
        Option::None => true,
    }
    &&& match f.relay_disabled {
        Option::Some(b) => exists|i: int|
            0 <= i < rec.relays@.len() && (#[trigger] rec.relays@[i]).relay.disabled == b,
        Option::None => true,
    }
}

/// Whether some relay's URL starts with this prefix.
fn prelays_any_url_prefix(rs: &Vec<ProposerRelayEntry>, p: &str) -> (r: bool)
    ensures
        r == exists|i: int| 0 <= i < rs@.len() && is_prefix(p@, (#[trigger] rs@[i]).url@),
{
    let mut i: usize = 0;
    while i < rs.len()
        invariant
            i <= rs@.len(),
            forall|j: int| 0 <= j < i ==> !is_prefix(p@, (#[trigger] rs@[j]).url@),
        decreases rs@.len() - i,
    {
        if str_prefix(p, rs[i].url.as_str()) {
            return true;
        }
        i = i + 1;
    }
    false
}

/// Whether some relay carries exactly this min_value.
fn prelays_any_min_value(rs: &Vec<ProposerRelayEntry>, m: &str) -> (r: bool)
    ensures
        r == exists|i: int|
            0 <= i < rs@.len() && match (#[trigger] rs@[i]).relay.min_value {
                Option::Some(v) => v@ == m@,
                Option::None => false,
            },
{
    let mut i: usize = 0;
    while i < rs.len()
        invariant
            i <= rs@.len(),
            forall|j: int|
                0 <= j < i ==> !(match (#[trigger] rs@[j]).relay.min_value {
                    Option::Some(v) => v@ == m@,
                    Option::None => false,
                }),
        decreases rs@.len() - i,
    {
        if let Option::Some(v) = &rs[i].relay.min_value {
            if str_eq(v.as_str(), m) {
                return true;
            }
        }
        i = i + 1;
    }
    false
}

/// Whether some relay has this disabled state.
fn prelays_any_disabled(rs: &Vec<ProposerRelayEntry>, b: bool) -> (r: bool)
    ensures
        r == exists|i: int| 0 <= i < rs@.len() && (#[trigger] rs@[i]).relay.disabled == b,
{
    let mut i: usize = 0;
    while i < rs.len()
        invariant
            i <= rs@.len(),
            forall|j: int| 0 <= j < i ==> (#[trigger] rs@[j]).relay.disabled != b,
        decreases rs@.len() - i,
    {
        if rs[i].relay.disabled == b {
            return true;
        }
        i = i + 1;
    }
    false
}

/// Whether a proposer record passes the filters, checked.
fn pr_matches_exec(rec: &ProposerRecord, f: &ProposerFilters) -> (r: bool)
    ensures
        r == pr_matches(*rec, *f),
{
    if let Option::Some(p) = &f.public_key {
        let hex = rec.public_key.to_hex();
        if !str_prefix(p.as_str(), hex.as_str()) {
            return false;
        }
    }
    if let Option::Some(t) = &f.fee_recipient {
        match &rec.fee_recipient {
            Option::Some(a) => {
                let hex = a.to_hex();
                if !str_eq(t.as_str(), hex.as_str()) {
                    return false;
                }
            },
            Option::None => {
                return false;
            },
        }
    }
    if let Option::Some(g) = &f.gas_limit {
        match &rec.gas_limit {
            Option::Some(rg) => {
                if !str_eq(rg.as_str(), g.as_str()) {
                    return false;
                }
            },
            Option::None => {
                return false;
            },
        }
    }
    if let Option::Some(m) = &f.min_value {
        match &rec.min_value {
            Option::Some(rm) => {
                if !str_eq(rm.as_str(), m.as_str()) {
                    return false;
                }
            },
            Option::None => {
                return false;
            },
        }
    }
    if let Option::Some(b) = f.reset_relays {
        if rec.reset_relays != b {
            return false;
        }
    }
    if let Option::Some(p) = &f.relay_url {
        if !prelays_any_url_prefix(&rec.relays, p.as_str()) {
            return false;
        }
    }
    if let Option::Some(m) = &f.relay_min_value {
        if !prelays_any_min_value(&rec.relays, m.as_str()) {
            return false;
        }
    }
    if let Option::Some(b) = f.relay_disabled {
        if !prelays_any_disabled(&rec.relays, b) {
            return false;
        }
    }
    true
}

/// Whether a default config record passes the admin listing filters:
/// name by prefix, fee recipient by canonical text, the decimal strings
/// and the active flag exactly.
pub open spec fn dc_matches(rec: DefaultConfigRecord, f: DefaultConfigFilters) -> bool {
    &&& match f.name {
        Option::Some(p) => is_prefix(p@, rec.name@),
        Option::None => true,
    }
    &&& match f.fee_recipient {
        Option::Some(t) => match rec.fee_recipient {
            Option::Some(a) => t@ == encoded(a@),
            Option::None => false,
        },
        Option::None => true,
    }
    &&& match f.gas_limit {
        Option::Some(g) => match rec.gas_limit {
            Option::Some(rg) => rg@ == g@,
            Option::None => false,
        },
        Option::None => true,
    }
    &&& match f.min_value {
        Option::Some(m) => match rec.min_value {
            Option::Some(rm) => rm@ == m@,
            Option::None => false,
        },
        Option::None => true,
    }
    &&& match f.active {
        Option::Some(a) => rec.active == a,
        Option::None => true,
    }
}

/// Whether a default config record passes the filters, checked.
fn dc_matches_exec(rec: &DefaultConfigRecord, f: &DefaultConfigFilters) -> (r: bool)
    ensures
        r == dc_matches(*rec, *f),
{
    if let Option::Some(p) = &f.name {
        if !str_prefix(p.as_str(), rec.name.as_str()) {
            return false;
        }
    }
    if let Option::Some(t) = &f.fee_recipient {
        match &rec.fee_recipient {
            Option::Some(a) => {
                let hex = a.to_hex();
                if !str_eq(t.as_str(), hex.as_str()) {
                    return false;
                }
            },
            Option::None => {
                return false;
            },
        }
    }
    if let Option::Some(g) = &f.gas_limit {
        match &rec.gas_limit {
            Option::Some(rg) => {
                if !str_eq(rg.as_str(), g.as_str()) {
                    return false;
                }
            },
            Option::None => {
                return false;
            },
        }
    }
    if let Option::Some(m) = &f.min_value {
        match &rec.min_value {
            Option::Some(rm) => {
                if !str_eq(rm.as_str(), m.as_str()) {
                    return false;
                }
            },
            Option::None => {
                return false;
            },
        }
    }
    if let Option::Some(a) = f.active {
        if rec.active != a {
            return false;
        }
    }
    true
}

pub(crate) proof fn lemma_filter_step<A>(s: Seq<A>, pred: spec_fn(A) -> bool, i: int)
    requires
        0 <= i < s.len(),
    ensures
        s.subrange(0, i + 1).filter(pred) == (if pred(s[i]) {
            s.subrange(0, i).filter(pred).push(s[i])
        } else {
            s.subrange(0, i).filter(pred)
        }),
{
    reveal(Seq::filter);
    assert(s.subrange(0, i + 1).drop_last() =~= s.subrange(0, i));
    assert(s.subrange(0, i + 1).last() == s[i]);
}

pub(crate) proof fn lemma_dc_idx_of(s: Seq<DefaultConfigRecord>, name: Seq<char>, i: int)
    requires
        0 <= i < s.len(),
        s[i].name@ == name,
        forall|a: int, b: int|
            0 <= a < b < s.len() ==> (#[trigger] s[a].name)@ != (#[trigger] s[b].name)@,
    ensures
        dc_has(s, name),
        dc_idx(s, name) == i,
{
    assert(dc_has(s, name));
    let w = dc_idx(s, name);
    assert(0 <= w < s.len() && s[w].name@ == name);
    if w < i {
        assert(s[w].name@ != s[i].name@);
    } else if w > i {
        assert(s[i].name@ != s[w].name@);
    }
}

pub(crate) proof fn lemma_pr_idx_of(s: Seq<ProposerRecord>, key: Seq<u8>, i: int)
    requires
        0 <= i < s.len(),
        s[i].public_key@ == key,
        forall|a: int, b: int|
            0 <= a < b < s.len() ==> (#[trigger] s[a].public_key)@ != (
            #[trigger] s[b].public_key)@,
    ensures
        pr_has(s, key),
        pr_idx(s, key) == i,
{
    assert(pr_has(s, key));
    let w = pr_idx(s, key);
    assert(0 <= w < s.len() && s[w].public_key@ == key);
    if w < i {
        assert(s[w].public_key@ != s[i].public_key@);
    } else if w > i {
        assert(s[i].public_key@ != s[w].public_key@);
    }
}

pub(crate) proof fn lemma_pt_idx_of(s: Seq<PatternRecord>, name: Seq<char>, i: int)
    requires
        0 <= i < s.len(),
        s[i].name@ == name,
        forall|a: int, b: int|
            0 <= a < b < s.len() ==> (#[trigger] s[a].name)@ != (#[trigger] s[b].name)@,
    ensures
        pt_has(s, name),
        pt_idx(s, name) == i,
{
    assert(pt_has(s, name));
    let w = pt_idx(s, name);
    assert(0 <= w < s.len() && s[w].name@ == name);
    if w < i {
        assert(s[w].name@ != s[i].name@);
    } else if w > i {
        assert(s[i].name@ != s[w].name@);
    }
}

/// Whether no two entries of a relay list share a URL, checked pairwise.
pub fn check_urls_unique(v: &Vec<RelayEntry>) -> (r: bool)
    ensures
        r == urls_unique(v@),
{
    let mut i: usize = 0;
    while i < v.len()
        invariant
            i <= v@.len(),
            forall|a: int, b: int|
                0 <= a < b < v@.len() && a < i ==> (#[trigger] v@[a].url)@ != (
                #[trigger] v@[b].url)@,
        decreases v@.len() - i,
    {
        let mut j: usize = i + 1;
        while j < v.len()
            invariant
                i < j <= v@.len(),
                forall|b: int| i < b < j ==> (#[trigger] v@[b].url)@ != v@[i as int].url@,
            decreases v@.len() - j,
        {
            if str_eq(v[i].url.as_str(), v[j].url.as_str()) {
                return false;
            }
            j = j + 1;
        }
        i = i + 1;
    }
    true
}

/// Whether no two entries of a proposer relay list share a URL.
pub fn check_purls_unique(v: &Vec<ProposerRelayEntry>) -> (r: bool)
    ensures
        r == purls_unique(v@),
{
    let mut i: usize = 0;
    while i < v.len()
        invariant
            i <= v@.len(),
            forall|a: int, b: int|
                0 <= a < b < v@.len() && a < i ==> (#[trigger] v@[a].url)@ != (
                #[trigger] v@[b].url)@,
        decreases v@.len() - i,
    {
        let mut j: usize = i + 1;
        while j < v.len()
            invariant
                i < j <= v@.len(),
                forall|b: int| i < b < j ==> (#[trigger] v@[b].url)@ != v@[i as int].url@,
            decreases v@.len() - j,
        {
            if str_eq(v[i].url.as_str(), v[j].url.as_str()) {
                return false;
            }
            j = j + 1;
        }
        i = i + 1;
    }
    true
}

/// Copies a string list.
pub fn clone_strings(v: &Vec<String>) -> (r: Vec<String>)
    ensures
        strs_eq(r@, v@),
{
    let mut r: Vec<String> = Vec::new();
    let mut i: usize = 0;
    while i < v.len()
        invariant
            i <= v@.len(),
            r@.len() == i,
            forall|j: int| 0 <= j < i ==> (#[trigger] r@[j])@ == v@[j]@,
        decreases v@.len() - i,
    {
        r.push(v[i].clone());
        i = i + 1;
    }
    r
}

/// The request's relay list copied out, or empty when absent.
fn relays_of_req(o: &Option<Vec<RelayEntry>>) -> (r: Vec<RelayEntry>)
    ensures
        relays_eq(r@, req_relays(*o)),
{
    match o {
        Option::Some(v) => clone_relays(v),
        Option::None => Vec::new(),
    }
}

/// The request's proposer relay list copied out, or empty when absent.
fn prelays_of_req(o: &Option<Vec<ProposerRelayEntry>>) -> (r: Vec<ProposerRelayEntry>)
    ensures
        prelays_eq(r@, req_prelays(*o)),
{
    match o {
        Option::Some(v) => clone_prelays(v),
        Option::None => Vec::new(),
    }
}

/// A relay list wrapped for a response: omitted when empty.
pub(crate) fn relays_to_resp(v: &Vec<RelayEntry>) -> (r: Option<Vec<RelayEntry>>)
    ensures
        match r {
            Option::Some(rs) => v@.len() > 0 && relays_eq(rs@, v@),
            Option::None => v@.len() == 0,
        },
{
    if v.len() == 0 {
        Option::None
    } else {
        Option::Some(clone_relays(v))
    }
}

/// A proposer relay list wrapped for a response: omitted when empty.
pub(crate) fn prelays_to_resp(v: &Vec<ProposerRelayEntry>) -> (r: Option<Vec<ProposerRelayEntry>>)
    ensures
        match r {
            Option::Some(rs) => v@.len() > 0 && prelays_eq(rs@, v@),
            Option::None => v@.len() == 0,
        },
{
    if v.len() == 0 {
        Option::None
    } else {
        Option::Some(clone_prelays(v))
    }
}

} // verus!
