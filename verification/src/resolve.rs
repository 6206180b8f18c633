//! The resolution engine: merges the default, proposer and pattern
//! layers into one execution configuration for a batch of validator
//! keys.
//!
//! Top-level fields come from the active default config alone and are
//! never overridden. Proposer entries follow the requested key order,
//! keys without a row producing no entry; pattern entries follow for
//! every pattern whose tag set intersects the requested tags (any shared
//! tag qualifies), in store order. The entry arrays' order is the only
//! precedence signal; nothing further is resolved here.

use vstd::prelude::*;

use crate::codec::encoded;
use crate::codec::BlsPubkey;
use crate::error::ApiError;
use crate::schema::clone_opt_addr;
use crate::schema::clone_opt_string;
use crate::schema::opt_addr;
use crate::schema::opt_str;
use crate::schema::relays_eq;
use crate::schema::relays_of_prelays;
use crate::schema::ExecutionConfigResponse;
use crate::schema::ProposerEntry;
use crate::schema::ProposerRelayEntry;
use crate::schema::RelayConfig;
use crate::schema::RelayEntry;
use crate::store::dc_has;
use crate::store::dc_idx;
use crate::store::lemma_dc_idx_of;
use crate::store::lemma_pr_idx_of;
use crate::store::pr_has;
use crate::store::pr_idx;
use crate::store::relays_to_resp;
use crate::store::ConfigStore;
use crate::store::PatternRecord;
use crate::store::ProposerRecord;

verus! {

/// The requested tag list, or the empty one.
pub open spec fn req_tags(o: Option<Vec<String>>) -> Seq<String> {
    match o {
        Option::Some(v) => v@,
        Option::None => Seq::empty(),
    }
}

/// Whether two tag sets share at least one tag (set-OR semantics: any
/// shared tag qualifies, not all).
pub open spec fn tags_intersect(pat_tags: Seq<String>, req: Seq<String>) -> bool {
    exists|i: int, j: int|
        0 <= i < pat_tags.len() && 0 <= j < req.len() && (#[trigger] pat_tags[i])@ == (
        #[trigger] req[j])@
}

/// The proposer row index for each requested key that has one, in
/// requested order; keys without a row contribute nothing.
pub open spec fn proposer_hits(ps: Seq<ProposerRecord>, keys: Seq<BlsPubkey>) -> Seq<int>
    decreases keys.len(),
{
    if keys.len() == 0 {
        Seq::empty()
    } else {
        let rest = proposer_hits(ps, keys.drop_last());
        if pr_has(ps, keys.last()@) {
            rest.push(pr_idx(ps, keys.last()@))
        } else {
            rest
        }
    }
}

/// The indexes of the patterns whose tag set intersects the requested
/// tags, in store order.
pub open spec fn pattern_hits(pts: Seq<PatternRecord>, tags: Seq<String>) -> Seq<int>
    decreases pts.len(),
{
    if pts.len() == 0 {
        Seq::empty()
    } else {
        let rest = pattern_hits(pts.drop_last(), tags);
        if tags_intersect(pts.last().tags@, tags) {
            rest.push(pts.len() - 1)
        } else {
            rest
        }
    }
}

/// Whether an entry carries exactly a proposer row: its key as canonical
/// hex, only the fields the row sets, `reset_relays` only when true, and
/// all of the row's relays — disabled ones included — or no relay map
/// when the row has none.
pub open spec fn entry_matches_proposer(e: ProposerEntry, p: ProposerRecord) -> bool {
    &&& e.proposer@ == encoded(p.public_key@)
    &&& opt_addr(e.fee_recipient) == opt_addr(p.fee_recipient)
    &&& opt_str(e.gas_limit) == opt_str(p.gas_limit)
    &&& opt_str(e.min_value) == opt_str(p.min_value)
    &&& e.reset_relays == (if p.reset_relays {
        Option::Some(true)
    } else {
        Option::None::<bool>
    })
    &&& match e.relays {
        Option::Some(rs) => p.relays@.len() > 0 && relays_of_prelays(rs@, p.relays@),
        Option::None => p.relays@.len() == 0,
    }
}

/// Whether an entry carries exactly a pattern row: its literal regex
/// text in the `proposer` field, only the fields the row sets,
/// `reset_relays` only when true, and the row's relays or no relay map
/// when it has none.
pub open spec fn entry_matches_pattern(e: ProposerEntry, p: PatternRecord) -> bool {
    &&& e.proposer@ == p.pattern@
    &&& opt_addr(e.fee_recipient) == opt_addr(p.fee_recipient)
    &&& opt_str(e.gas_limit) == opt_str(p.gas_limit)
    &&& opt_str(e.min_value) == opt_str(p.min_value)
    &&& e.reset_relays == (if p.reset_relays {
        Option::Some(true)
    } else {
        Option::None::<bool>
    })
    &&& match e.relays {
        Option::Some(rs) => p.relays@.len() > 0 && relays_eq(rs@, p.relays@),
        Option::None => p.relays@.len() == 0,
    }
}

proof fn lemma_proposer_hits_step(ps: Seq<ProposerRecord>, keys: Seq<BlsPubkey>, j: int)
    requires
        0 <= j < keys.len(),
    ensures
        proposer_hits(ps, keys.subrange(0, j + 1)) == (if pr_has(ps, keys[j]@) {
            proposer_hits(ps, keys.subrange(0, j)).push(pr_idx(ps, keys[j]@))
        } else {
            proposer_hits(ps, keys.subrange(0, j))
        }),
{
    let s = keys.subrange(0, j + 1);
    assert(s.drop_last() =~= keys.subrange(0, j));
    assert(s.last() == keys[j]);
}

proof fn lemma_pattern_hits_step(pts: Seq<PatternRecord>, tags: Seq<String>, k: int)
    requires
        0 <= k < pts.len(),
    ensures
        pattern_hits(pts.subrange(0, k + 1), tags) == (if tags_intersect(pts[k].tags@, tags) {
            pattern_hits(pts.subrange(0, k), tags).push(k)
        } else {
            pattern_hits(pts.subrange(0, k), tags)
        }),
{
    let s = pts.subrange(0, k + 1);
    assert(s.drop_last() =~= pts.subrange(0, k));
    assert(s.last() == pts[k]);
}

/// Law: with no requested tags, no pattern qualifies.
pub proof fn lemma_pattern_hits_empty(pts: Seq<PatternRecord>)
    ensures
        pattern_hits(pts, Seq::empty()).len() == 0,
    decreases pts.len(),
{
    if pts.len() > 0 {
        lemma_pattern_hits_empty(pts.drop_last());
    }
}

/// Law: a key with no proposer row contributes no entry — the hit list
/// over one key is empty exactly when no row has the key.
pub proof fn lemma_unknown_key_no_entry(ps: Seq<ProposerRecord>, key: BlsPubkey)
    ensures
        !pr_has(ps, key@) ==> proposer_hits(ps, seq![key]).len() == 0,
        pr_has(ps, key@) ==> proposer_hits(ps, seq![key]) == seq![pr_idx(ps, key@)],
{
    let one = seq![key];
    assert(one.drop_last() =~= Seq::<BlsPubkey>::empty());
    assert(proposer_hits(ps, one.drop_last()) == Seq::<int>::empty());
    if pr_has(ps, key@) {
        assert(proposer_hits(ps, one) =~= seq![pr_idx(ps, key@)]);
    }
}

/// Whether some tag is shared between a pattern's tags and the request.
fn tags_intersect_exec(pat_tags: &Vec<String>, req: &Vec<String>) -> (r: bool)
    ensures
        r == tags_intersect(pat_tags@, req@),
{
    let mut i: usize = 0;
    while i < pat_tags.len()
        invariant
            i <= pat_tags@.len(),
            forall|a: int, b: int|
                0 <= a < i && 0 <= b < req@.len() ==> (#[trigger] pat_tags@[a])@ != (
                #[trigger] req@[b])@,
        decreases pat_tags@.len() - i,
    {
        let mut j: usize = 0;
        while j < req.len()
            invariant
                i < pat_tags@.len(),
                j <= req@.len(),
                forall|b: int| 0 <= b < j ==> (#[trigger] req@[b])@ != pat_tags@[i as int]@,
            decreases req@.len() - j,
        {
            if crate::strutil::str_eq(pat_tags[i].as_str(), req[j].as_str()) {
                assert(pat_tags@[i as int]@ == req@[j as int]@);
                return true;
            }
            j = j + 1;
        }
        i = i + 1;
    }
    false
}

/// The relay map of a proposer entry: every relay of the row, disabled
/// ones included, with the disabled flag dropped; omitted when empty.
fn prelays_to_entry_relays(v: &Vec<ProposerRelayEntry>) -> (r: Option<Vec<RelayEntry>>)
    ensures
        match r {
            Option::Some(rs) => v@.len() > 0 && relays_of_prelays(rs@, v@),
            Option::None => v@.len() == 0,
        },
{
    if v.len() == 0 {
        return Option::None;
    }
    let mut rs: Vec<RelayEntry> = Vec::new();
    let mut i: usize = 0;
    while i < v.len()
        invariant
            i <= v@.len(),
            rs@.len() == i,
            forall|j: int|
                0 <= j < i ==> crate::schema::relay_entry_of_prelay(#[trigger] rs@[j], v@[j]),
        decreases v@.len() - i,
    {
        let src = &v[i];
        rs.push(
            RelayEntry {
                url: src.url.clone(),
                relay: RelayConfig {
                    public_key: src.relay.public_key.clone(),
                    fee_recipient: clone_opt_addr(&src.relay.fee_recipient),
                    gas_limit: clone_opt_string(&src.relay.gas_limit),
                    min_value: clone_opt_string(&src.relay.min_value),
                },
            },
        );
        i = i + 1;
    }
    Option::Some(rs)
}

impl ConfigStore {
    /// Resolves the execution configuration for a batch request: the
    /// top-level fields and relay map come from the active default config
    /// named `config_name` and are never overridden; the entries array
    /// holds one entry per requested key with a proposer row, in request
    /// order (duplicate keys repeat their entry, unknown keys add none),
    /// followed by one entry per pattern whose tags intersect the
    /// requested tags, in store order. Fails with `NotFound` exactly when
    /// no active config has the name; an empty key list or no tag match
    /// is success with the entries omitted.
    pub fn get_execution_config(
        &self,
        config_name: &str,
        keys: &Vec<BlsPubkey>,
        tags: &Option<Vec<String>>,
    ) -> (r: Result<ExecutionConfigResponse, ApiError>)
        requires
            self.wf(),
        ensures
            match r {
                Result::Ok(resp) => {
                    let dc = self.dcs()[dc_idx(self.dcs(), config_name@)];
                    let hits = proposer_hits(self.prs(), keys@);
                    let phits = pattern_hits(self.pts(), req_tags(*tags));
                    &&& dc_has(self.dcs(), config_name@)
                    &&& dc.active
                    &&& resp.version == 2
                    &&& opt_addr(resp.fee_recipient) == opt_addr(dc.fee_recipient)
                    &&& opt_str(resp.gas_limit) == opt_str(dc.gas_limit)
                    &&& opt_str(resp.min_value) == opt_str(dc.min_value)
                    &&& match resp.relays {
                        Option::Some(rs) => dc.relays@.len() > 0 && relays_eq(rs@, dc.relays@),
                        Option::None => dc.relays@.len() == 0,
                    }
                    &&& match resp.proposers {
                        Option::Some(es) => {
                            &&& hits.len() + phits.len() > 0
                            &&& es@.len() == hits.len() + phits.len()
                            &&& (forall|m: int|
                                0 <= m < hits.len() ==> entry_matches_proposer(
                                    #[trigger] es@[m],
                                    self.prs()[hits[m]],
                                ))
                            &&& (forall|m: int|
                                0 <= m < phits.len() ==> entry_matches_pattern(
                                    #[trigger] es@[hits.len() + m],
                                    self.pts()[phits[m]],
                                ))
                        },
                        Option::None => hits.len() + phits.len() == 0,
                    }
                },
                Result::Err(e) => e is NotFound && !(dc_has(self.dcs(), config_name@)
                    && self.dcs()[dc_idx(self.dcs(), config_name@)].active),
            },
    {
        let i = match self.find_dc(config_name) {
            Option::Some(i) => i,
            Option::None => {
                return Result::Err(ApiError::NotFound(String::from_str(config_name)));
            },
        };
        proof {
            lemma_dc_idx_of(self.dcs(), config_name@, i as int);
        }
        if !self.dc_at(i).active {
            return Result::Err(ApiError::NotFound(String::from_str(config_name)));
        }
        let mut entries: Vec<ProposerEntry> = Vec::new();
        let mut j: usize = 0;
        proof {
            assert(keys@.subrange(0, 0) =~= Seq::<BlsPubkey>::empty());
        }
        while j < keys.len()
            invariant
                j <= keys@.len(),
                self.wf(),
                entries@.len() == proposer_hits(self.prs(), keys@.subrange(0, j as int)).len(),
                forall|m: int|
                    0 <= m < entries@.len() ==> entry_matches_proposer(
                        #[trigger] entries@[m],
                        self.prs()[proposer_hits(self.prs(), keys@.subrange(0, j as int))[m]],
                    ),
            decreases keys@.len() - j,
        {
            proof {
                lemma_proposer_hits_step(self.prs(), keys@, j as int);
            }
            match self.find_pr(&keys[j]) {
                Option::Some(pi) => {
                    proof {
                        lemma_pr_idx_of(self.prs(), keys@[j as int]@, pi as int);
                    }
                    let p = self.pr_at(pi);
                    entries.push(
                        ProposerEntry {
                            proposer: p.public_key.to_hex(),
                            fee_recipient: clone_opt_addr(&p.fee_recipient),
                            gas_limit: clone_opt_string(&p.gas_limit),
                            min_value: clone_opt_string(&p.min_value),
                            reset_relays: if p.reset_relays {
                                Option::Some(true)
                            } else {
                                Option::None
                            },
                            relays: prelays_to_entry_relays(&p.relays),
                        },
                    );
                },
                Option::None => {},
            }
            j = j + 1;
        }
        proof {
            assert(keys@.subrange(0, keys@.len() as int) =~= keys@);
        }
        let ghost nhits = entries@.len() as int;
        match tags {
            Option::Some(ts) => {
                let mut k: usize = 0;
                proof {
                    assert(self.pts().subrange(0, 0) =~= Seq::<PatternRecord>::empty());
                }
                while k < self.pts_len()
                    invariant
                        k <= self.pts().len(),
                        self.wf(),
                        nhits == proposer_hits(self.prs(), keys@).len(),
                        entries@.len() == nhits + pattern_hits(
                            self.pts().subrange(0, k as int),
                            ts@,
                        ).len(),
                        forall|m: int|
                            0 <= m < nhits ==> entry_matches_proposer(
                                #[trigger] entries@[m],
                                self.prs()[proposer_hits(self.prs(), keys@)[m]],
                            ),
                        forall|m: int|
                            0 <= m < entries@.len() - nhits ==> entry_matches_pattern(
                                #[trigger] entries@[nhits + m],
                                self.pts()[pattern_hits(self.pts().subrange(0, k as int), ts@)[m]],
                            ),
                    decreases self.pts().len() - k,
                {
                    proof {
                        lemma_pattern_hits_step(self.pts(), ts@, k as int);
                    }
                    let pt = self.pt_at(k);
                    if tags_intersect_exec(&pt.tags, ts) {
                        entries.push(
                            ProposerEntry {
                                proposer: pt.pattern.clone(),
                                fee_recipient: clone_opt_addr(&pt.fee_recipient),
                                gas_limit: clone_opt_string(&pt.gas_limit),
                                min_value: clone_opt_string(&pt.min_value),
                                reset_relays: if pt.reset_relays {
                                    Option::Some(true)
                                } else {
                                    Option::None
                                },
                                relays: relays_to_resp(&pt.relays),
                            },
                        );
                    }
                    k = k + 1;
                }
                proof {
                    assert(self.pts().subrange(0, self.pts().len() as int) =~= self.pts());
                }
            },
            Option::None => {
                proof {
                    lemma_pattern_hits_empty(self.pts());
                }
            },
        }
        let dc = self.dc_at(i);
        let proposers_opt = if entries.len() == 0 {
            Option::None
        } else {
            Option::Some(entries)
        };
        Result::Ok(
            ExecutionConfigResponse {
                version: 2,
                fee_recipient: clone_opt_addr(&dc.fee_recipient),
                gas_limit: clone_opt_string(&dc.gas_limit),
                min_value: clone_opt_string(&dc.min_value),
                relays: relays_to_resp(&dc.relays),
                proposers: proposers_opt,
            },
        )
    }
}

} // verus!
