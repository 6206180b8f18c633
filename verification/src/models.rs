//! The stored shape of the first-generation default-config endpoint and
//! its reply: all fields opaque text, with a grace period, and a relay
//! map keyed by URL. The reply omits unset fields instead of writing
//! nulls.

use vstd::prelude::*;

verus! {

/// A stored relay row of the first-generation schema.
#[derive(Debug)]
pub struct DbRelayConfig {
    pub public_key: Option<String>,
    pub fee_recipient: Option<String>,
    pub gas_limit: Option<String>,
    pub min_value: Option<String>,
}

/// A stored relay keyed by its URL.
#[derive(Debug)]
pub struct DbRelayEntry {
    pub url: String,
    pub relay: DbRelayConfig,
}

/// A stored default config row of the first-generation schema.
#[derive(Debug)]
pub struct DbDefaultConfig {
    pub config_id: String,
    pub fee_recipient: Option<String>,
    pub gas_limit: Option<String>,
    pub min_value: Option<String>,
    pub grace: Option<i16>,
    pub relays: Option<Vec<DbRelayEntry>>,
}

/// A relay as replied by the first-generation endpoint.
#[derive(Debug)]
pub struct RelayConfigResponse {
    pub public_key: Option<String>,
    pub fee_recipient: Option<String>,
    pub gas_limit: Option<String>,
    pub min_value: Option<String>,
}

/// A reply relay keyed by its URL.
#[derive(Debug)]
pub struct RelayResponseEntry {
    pub url: String,
    pub relay: RelayConfigResponse,
}

/// The first-generation reply: the row without its identifier.
#[derive(Debug)]
pub struct DefaultConfigResponse {
    pub fee_recipient: Option<String>,
    pub gas_limit: Option<String>,
    pub min_value: Option<String>,
    pub grace: Option<i16>,
    pub relays: Option<Vec<RelayResponseEntry>>,
}

/// Whether a reply relay carries exactly a stored relay's fields.
pub open spec fn relay_resp_matches(resp: RelayConfigResponse, db: DbRelayConfig) -> bool {
    &&& crate::schema::opt_str(resp.public_key) == crate::schema::opt_str(db.public_key)
    &&& crate::schema::opt_str(resp.fee_recipient) == crate::schema::opt_str(db.fee_recipient)
    &&& crate::schema::opt_str(resp.gas_limit) == crate::schema::opt_str(db.gas_limit)
    &&& crate::schema::opt_str(resp.min_value) == crate::schema::opt_str(db.min_value)
}

impl RelayConfigResponse {
    /// The reply for one stored relay: the same four fields.
    pub fn of_db(relay: DbRelayConfig) -> (r: Self)
        ensures
            relay_resp_matches(r, relay),
    {
        RelayConfigResponse {
            public_key: relay.public_key,
            fee_recipient: relay.fee_recipient,
            gas_limit: relay.gas_limit,
            min_value: relay.min_value,
        }
    }
}

impl DefaultConfigResponse {
    /// The reply for one stored row: the same fields, the relay map
    /// carried over entry for entry under its URLs.
    pub fn of_db(config: DbDefaultConfig) -> (r: Self)
        ensures
            crate::schema::opt_str(r.fee_recipient) == crate::schema::opt_str(
                config.fee_recipient,
            ),
            crate::schema::opt_str(r.gas_limit) == crate::schema::opt_str(config.gas_limit),
            crate::schema::opt_str(r.min_value) == crate::schema::opt_str(config.min_value),
            r.grace == config.grace,
            match (r.relays, config.relays) {
                (Option::Some(out), Option::Some(db)) => out@.len() == db@.len() && (forall|
                    i: int,
                |
                    0 <= i < out@.len() ==> (#[trigger] out@[i]).url@ == db@[i].url@
                        && relay_resp_matches(out@[i].relay, db@[i].relay)),
                (Option::None, Option::None) => true,
                _ => false,
            },
    {
        let relays = match config.relays {
            Option::Some(db) => {
                let ghost dbv = db@;
                let mut out: Vec<RelayResponseEntry> = Vec::new();
                let mut db = db;
                let mut i: usize = 0;
                let n = db.len();
                while i < n
                    invariant
                        i <= n,
                        n == dbv.len(),
                        db@ == dbv.skip(i as int),
                        out@.len() == i,
                        forall|j: int|
                            0 <= j < i ==> (#[trigger] out@[j]).url@ == dbv[j].url@
                                && relay_resp_matches(out@[j].relay, dbv[j].relay),
                    decreases n - i,
                {
                    let entry = db.remove(0);
                    proof {
                        assert(dbv.skip(i as int)[0] == dbv[i as int]);
                        assert(db@ =~= dbv.skip(i + 1));
                    }
                    out.push(
                        RelayResponseEntry {
                            url: entry.url,
                            relay: RelayConfigResponse::of_db(entry.relay),
                        },
                    );
                    i = i + 1;
                }
                Option::Some(out)
            },
            Option::None => Option::None,
        };
        DefaultConfigResponse {
            fee_recipient: config.fee_recipient,
            gas_limit: config.gas_limit,
            min_value: config.min_value,
            grace: config.grace,
            relays,
        }
    }
}

} // verus!
