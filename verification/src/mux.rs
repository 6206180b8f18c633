//! The mux key-set manager: named, deduplicated, listable sets of
//! validator public keys with create / replace / add / remove / list
//! semantics.
//!
//! No duplicate raw-byte key value ever coexists under one name, and
//! listing returns keys in stable insertion order.

use vstd::prelude::*;

use crate::codec::BlsPubkey;
use crate::error::ApiError;
use crate::schema::CreateMuxConfigRequest;
use crate::schema::MuxConfigFilters;
use crate::schema::MuxConfigListItem;
use crate::schema::MuxConfigResponse;
use crate::schema::MuxKeysRequest;
use crate::schema::MuxKeysResponse;
use crate::schema::PaginatedResponse;
use crate::schema::UpdateMuxConfigRequest;

verus! {

/// The byte views of a key list, in order.
pub open spec fn kviews(ks: Seq<BlsPubkey>) -> Seq<Seq<u8>> {
    ks.map_values(|k: BlsPubkey| k@)
}

/// The keys of `base` followed by those of `new` that are not already
/// present, first occurrences kept, in order.
pub open spec fn add_keys(base: Seq<Seq<u8>>, new: Seq<Seq<u8>>) -> Seq<Seq<u8>>
    decreases new.len(),
{
    if new.len() == 0 {
        base
    } else {
        let prev = add_keys(base, new.drop_last());
        if prev.contains(new.last()) {
            prev
        } else {
            prev.push(new.last())
        }
    }
}

/// The distinct keys of a list, first occurrences kept, in order.
pub open spec fn dedup_keys(ks: Seq<Seq<u8>>) -> Seq<Seq<u8>> {
    add_keys(Seq::empty(), ks)
}

/// The keys of `base` that are not listed in `rem`, in order.
pub open spec fn remove_keys(base: Seq<Seq<u8>>, rem: Seq<Seq<u8>>) -> Seq<Seq<u8>> {
    base.filter(|k: Seq<u8>| !rem.contains(k))
}

proof fn lemma_add_keys_step(base: Seq<Seq<u8>>, new: Seq<Seq<u8>>, i: int)
    requires
        0 <= i < new.len(),
    ensures
        add_keys(base, new.subrange(0, i + 1)) == {
            let prev = add_keys(base, new.subrange(0, i));
            if prev.contains(new[i]) {
                prev
            } else {
                prev.push(new[i])
            }
        },
{
    let s = new.subrange(0, i + 1);
    assert(s.drop_last() =~= new.subrange(0, i));
    assert(s.last() == new[i]);
}

proof fn lemma_add_keys_props(base: Seq<Seq<u8>>, new: Seq<Seq<u8>>)
    requires
        base.no_duplicates(),
    ensures
        add_keys(base, new).no_duplicates(),
        add_keys(base, new).len() >= base.len(),
        add_keys(base, new).len() <= base.len() + new.len(),
        add_keys(base, new).subrange(0, base.len() as int) == base,
        forall|x: Seq<u8>|
            add_keys(base, new).contains(x) <==> base.contains(x) || new.contains(x),
    decreases new.len(),
{
    if new.len() == 0 {
        assert(add_keys(base, new).subrange(0, base.len() as int) =~= base);
    } else {
        lemma_add_keys_props(base, new.drop_last());
        let prev = add_keys(base, new.drop_last());
        let cur = add_keys(base, new);
        if !prev.contains(new.last()) {
            assert(cur == prev.push(new.last()));
            assert forall|i: int, j: int|
                0 <= i < j < cur.len() implies cur[i] != cur[j] by {
                if j < cur.len() - 1 {
                    assert(prev[i] != prev[j]);
                } else {
                    assert(cur[j] == new.last());
                    assert(prev[i] == cur[i]);
                    assert(!prev.contains(new.last()));
                }
            }
            assert(cur.subrange(0, base.len() as int) =~= prev.subrange(
                0,
                base.len() as int,
            ));
        }
        assert forall|x: Seq<u8>| cur.contains(x) <==> base.contains(x) || new.contains(x) by {
            assert(new.contains(x) <==> new.drop_last().contains(x) || x == new.last()) by {
                if new.contains(x) {
                    let w = choose|w: int| 0 <= w < new.len() && new[w] == x;
                    if w < new.len() - 1 {
                        assert(new.drop_last()[w] == x);
                        assert(new.drop_last().contains(x));
                    }
                }
                if new.drop_last().contains(x) {
                    let w = choose|w: int|
                        0 <= w < new.drop_last().len() && new.drop_last()[w] == x;
                    assert(new[w] == x);
                    assert(new.contains(x));
                }
                if x == new.last() {
                    assert(new[new.len() - 1] == x);
                    assert(new.contains(x));
                }
            }
            if prev.contains(new.last()) {
                assert(cur == prev);
            } else {
                assert(cur == prev.push(new.last()));
                assert(cur.contains(x) <==> prev.contains(x) || x == new.last()) by {
                    if cur.contains(x) {
                        let w = choose|w: int| 0 <= w < cur.len() && cur[w] == x;
                        if w < prev.len() {
                            assert(prev[w] == x);
                            assert(prev.contains(x));
                        } else {
                            assert(x == new.last());
                        }
                    }
                    if prev.contains(x) {
                        let w = choose|w: int| 0 <= w < prev.len() && prev[w] == x;
                        assert(cur[w] == x);
                        assert(cur.contains(x));
                    }
                    if x == new.last() {
                        assert(cur[cur.len() - 1] == x);
                        assert(cur.contains(x));
                    }
                }
            }
        }
    }
}

/// Law: replacing a set with a key list stores its distinct keys exactly
/// once each, keeps exactly the listed members, and doing it again with
/// the same list changes nothing.
pub proof fn lemma_replace_idempotent(ks: Seq<Seq<u8>>)
    ensures
        dedup_keys(ks).no_duplicates(),
        dedup_keys(dedup_keys(ks)) == dedup_keys(ks),
        forall|x: Seq<u8>| dedup_keys(ks).contains(x) <==> ks.contains(x),
{
    lemma_add_keys_props(Seq::empty(), ks);
    lemma_dedup_of_distinct(dedup_keys(ks));
}

proof fn lemma_dedup_of_distinct(ks: Seq<Seq<u8>>)
    requires
        ks.no_duplicates(),
    ensures
        dedup_keys(ks) == ks,
    decreases ks.len(),
{
    if ks.len() == 0 {
        assert(dedup_keys(ks) =~= ks);
    } else {
        assert(ks.drop_last().no_duplicates());
        lemma_dedup_of_distinct(ks.drop_last());
        assert(!ks.drop_last().contains(ks.last())) by {
            if ks.drop_last().contains(ks.last()) {
                let w = choose|w: int|
                    0 <= w < ks.drop_last().len() && ks.drop_last()[w] == ks.last();
                assert(ks[w] == ks[ks.len() - 1]);
            }
        }
        assert(dedup_keys(ks) =~= ks);
    }
}

/// Law: adding one key inserts it exactly when it is absent; adding it
/// again inserts nothing and leaves the set unchanged.
pub proof fn lemma_add_twice(ks: Seq<Seq<u8>>, k: Seq<u8>)
    ensures
        !ks.contains(k) ==> add_keys(ks, seq![k]) == ks.push(k) && add_keys(ks, seq![k]).len()
            == ks.len() + 1,
        ks.contains(k) ==> add_keys(ks, seq![k]) == ks,
        add_keys(add_keys(ks, seq![k]), seq![k]) == add_keys(ks, seq![k]),
{
    let one = seq![k];
    assert(one.drop_last() =~= Seq::<Seq<u8>>::empty());
    assert(add_keys(ks, one.drop_last()) == ks);
    let once = add_keys(ks, one);
    assert(add_keys(once, one.drop_last()) == once);
    assert(once.contains(k)) by {
        if !ks.contains(k) {
            assert(once == ks.push(k));
            assert(once[once.len() - 1] == k);
        }
    }
}

/// One named key set with its bookkeeping timestamps.
#[derive(Debug)]
pub struct MuxConfigRecord {
    pub name: String,
    pub keys: Vec<BlsPubkey>,
    pub created_at: u64,
    pub updated_at: u64,
}

/// Whether a listing row mirrors a record.
pub open spec fn mux_item_matches(item: MuxConfigListItem, rec: MuxConfigRecord) -> bool {
    &&& item.name@ == rec.name@
    &&& item.key_count == rec.keys@.len()
    &&& item.created_at == rec.created_at
    &&& item.updated_at == rec.updated_at
}

/// Whether a response mirrors a record.
pub open spec fn mux_resp_matches(resp: MuxConfigResponse, rec: MuxConfigRecord) -> bool {
    &&& resp.name@ == rec.name@
    &&& kviews(resp.keys@) == kviews(rec.keys@)
    &&& resp.created_at == rec.created_at
    &&& resp.updated_at == rec.updated_at
}

/// Whether some record is named `name`.
pub open spec fn mux_has(s: Seq<MuxConfigRecord>, name: Seq<char>) -> bool {
    exists|i: int| 0 <= i < s.len() && (#[trigger] s[i].name)@ == name
}

/// The index of the record named `name` (unique under `MuxStore::wf`).
pub open spec fn mux_idx(s: Seq<MuxConfigRecord>, name: Seq<char>) -> int {
    choose|i: int| 0 <= i < s.len() && (#[trigger] s[i].name)@ == name
}

/// The named key sets, in creation order.
#[derive(Debug)]
pub struct MuxStore {
    configs: Vec<MuxConfigRecord>,
}

impl View for MuxStore {
    type V = Seq<MuxConfigRecord>;

    closed spec fn view(&self) -> Seq<MuxConfigRecord> {
        self.configs@
    }
}

impl MuxStore {
    /// The store invariant: names are unique, and no key set holds a
    /// duplicate raw-byte value.
    pub open spec fn wf(&self) -> bool {
        &&& forall|i: int, j: int|
            0 <= i < j < self@.len() ==> (#[trigger] self@[i].name)@ != (#[trigger] self@[j].name)@
        &&& forall|i: int| 0 <= i < self@.len() ==> kviews((#[trigger] self@[i]).keys@).no_duplicates()
    }

    /// An empty store.
    pub fn new() -> (r: Self)
        ensures
            r.wf(),
            r@.len() == 0,
    {
        MuxStore { configs: Vec::new() }
    }

    /// Finds the record named `name`, if any.
    fn find(&self, name: &str) -> (r: Option<usize>)
        ensures
            match r {
                Option::Some(i) => i < self@.len() && self@[i as int].name@ == name@ && mux_has(
                    self@,
                    name@,
                ),
                Option::None => !mux_has(self@, name@),
            },
    {
        let mut i: usize = 0;
        while i < self.configs.len()
            invariant
                i <= self@.len(),
                forall|j: int| 0 <= j < i ==> (#[trigger] self@[j].name)@ != name@,
            decreases self@.len() - i,
        {
            if crate::strutil::str_eq(self.configs[i].name.as_str(), name) {
                return Option::Some(i);
            }
            i = i + 1;
        }
        Option::None
    }

    /// Creates a named key set; duplicate keys in the request collapse to
    /// distinct members, and the reported count is the distinct count.
    /// Fails with `Conflict` exactly when the name is already taken.
    pub fn create_mux_config(&mut self, req: &CreateMuxConfigRequest, now: u64) -> (r: Result<
        MuxConfigListItem,
        ApiError,
    >)
        requires
            old(self).wf(),
            req.keys@.len() <= 0x7fff_ffff_ffff_ffff,
        ensures
            final(self).wf(),
            match r {
                Result::Ok(item) => {
                    &&& !mux_has(old(self)@, req.name@)
                    &&& final(self)@.len() == old(self)@.len() + 1
                    &&& final(self)@.subrange(0, old(self)@.len() as int) == old(self)@
                    &&& final(self)@.last().name@ == req.name@
                    &&& kviews(final(self)@.last().keys@) == dedup_keys(kviews(req.keys@))
                    &&& final(self)@.last().created_at == now
                    &&& final(self)@.last().updated_at == now
                    &&& mux_item_matches(item, final(self)@.last())
                },
                Result::Err(e) => e is Conflict && mux_has(old(self)@, req.name@) && final(self)@
                    == old(self)@,
            },
    {
        if let Option::Some(_) = self.find(req.name.as_str()) {
            return Result::Err(ApiError::Conflict(req.name.clone()));
        }
        let empty: Vec<BlsPubkey> = Vec::new();
        proof {
            assert(kviews(empty@) =~= Seq::<Seq<u8>>::empty());
            lemma_add_keys_props(Seq::empty(), kviews(req.keys@));
        }
        let keys = with_added_keys(&empty, &req.keys);
        let rec = MuxConfigRecord { name: req.name.clone(), keys, created_at: now, updated_at: now };
        let item = MuxConfigListItem {
            name: req.name.clone(),
            key_count: rec.keys.len() as i64,
            created_at: now,
            updated_at: now,
        };
        self.configs.push(rec);
        proof {
            assert(final(self)@.subrange(0, old(self)@.len() as int) =~= old(self)@);
        }
        Result::Ok(item)
    }

    /// The named key set with its bookkeeping, or `NotFound`.
    pub fn get_mux_config(&self, name: &str) -> (r: Result<MuxConfigResponse, ApiError>)
        requires
            self.wf(),
        ensures
            match r {
                Result::Ok(resp) => mux_has(self@, name@) && mux_resp_matches(
                    resp,
                    self@[mux_idx(self@, name@)],
                ),
                Result::Err(e) => e is NotFound && !mux_has(self@, name@),
            },
    {
        match self.find(name) {
            Option::Some(i) => {
                proof {
                    lemma_mux_idx_of(self@, name@, i as int);
                }
                let rec = &self.configs[i];
                Result::Ok(
                    MuxConfigResponse {
                        name: rec.name.clone(),
                        keys: clone_keys(&rec.keys),
                        created_at: rec.created_at,
                        updated_at: rec.updated_at,
                    },
                )
            },
            Option::None => Result::Err(ApiError::NotFound(String::from_str(name))),
        }
    }

    /// Atomically replaces the whole key set of a named config;
    /// duplicates in the request collapse. Fails with `NotFound` exactly
    /// when the name is absent.
    pub fn update_mux_config(&mut self, name: &str, req: &UpdateMuxConfigRequest, now: u64) -> (r:
        Result<MuxConfigResponse, ApiError>)
        requires
            old(self).wf(),
            req.keys@.len() <= 0x7fff_ffff_ffff_ffff,
        ensures
            final(self).wf(),
            match r {
                Result::Ok(resp) => {
                    let i = mux_idx(old(self)@, name@);
                    &&& mux_has(old(self)@, name@)
                    &&& final(self)@.len() == old(self)@.len()
                    &&& (forall|j: int|
                        0 <= j < final(self)@.len() && j != i ==> final(self)@[j] == old(self)@[j])
                    &&& final(self)@[i].name@ == name@
                    &&& final(self)@[i].created_at == old(self)@[i].created_at
                    &&& final(self)@[i].updated_at == now
                    &&& kviews(final(self)@[i].keys@) == dedup_keys(kviews(req.keys@))
                    &&& mux_resp_matches(resp, final(self)@[i])
                },
                Result::Err(e) => e is NotFound && !mux_has(old(self)@, name@) && final(self)@
                    == old(self)@,
            },
    {
        match self.find(name) {
            Option::Some(i) => {
                proof {
                    lemma_mux_idx_of(self@, name@, i as int);
                }
                let empty: Vec<BlsPubkey> = Vec::new();
                proof {
                    assert(kviews(empty@) =~= Seq::<Seq<u8>>::empty());
                }
                let keys = with_added_keys(&empty, &req.keys);
                let created = self.configs[i].created_at;
                let rec_name = self.configs[i].name.clone();
                let rec = MuxConfigRecord {
                    name: rec_name,
                    keys,
                    created_at: created,
                    updated_at: now,
                };
                let resp = MuxConfigResponse {
                    name: rec.name.clone(),
                    keys: clone_keys(&rec.keys),
                    created_at: rec.created_at,
                    updated_at: rec.updated_at,
                };
                self.configs[i] = rec;
                Result::Ok(resp)
            },
            Option::None => Result::Err(ApiError::NotFound(String::from_str(name))),
        }
    }

    /// Deletes the named key set. Fails with `NotFound` exactly when the
    /// name is absent.
    pub fn delete_mux_config(&mut self, name: &str) -> (r: Result<(), ApiError>)
        requires
            old(self).wf(),
        ensures
            final(self).wf(),
            match r {
                Result::Ok(_) => mux_has(old(self)@, name@) && final(self)@ == old(self)@.remove(
                    mux_idx(old(self)@, name@),
                ),
                Result::Err(e) => e is NotFound && !mux_has(old(self)@, name@) && final(self)@
                    == old(self)@,
            },
    {
        match self.find(name) {
            Option::Some(i) => {
                proof {
                    lemma_mux_idx_of(self@, name@, i as int);
                }
                self.configs.remove(i);
                Result::Ok(())
            },
            Option::None => Result::Err(ApiError::NotFound(String::from_str(name))),
        }
    }

    /// Adds keys to a named set, silently skipping those already present,
    /// and reports how many were newly inserted and how many there are
    /// now. Fails with `NotFound` exactly when the name is absent.
    pub fn add_mux_keys(&mut self, name: &str, req: &MuxKeysRequest, now: u64) -> (r: Result<
        MuxKeysResponse,
        ApiError,
    >)
        requires
            old(self).wf(),
            mux_has(old(self)@, name@) ==> old(self)@[mux_idx(old(self)@, name@)].keys@.len()
                + req.keys@.len() <= 0x7fff_ffff_ffff_ffff,
        ensures
            final(self).wf(),
            match r {
                Result::Ok(resp) => {
                    let i = mux_idx(old(self)@, name@);
                    let before = kviews(old(self)@[i].keys@);
                    let after = add_keys(before, kviews(req.keys@));
                    &&& mux_has(old(self)@, name@)
                    &&& final(self)@.len() == old(self)@.len()
                    &&& (forall|j: int|
                        0 <= j < final(self)@.len() && j != i ==> final(self)@[j] == old(self)@[j])
                    &&& final(self)@[i].name@ == name@
                    &&& final(self)@[i].created_at == old(self)@[i].created_at
                    &&& final(self)@[i].updated_at == now
                    &&& kviews(final(self)@[i].keys@) == after
                    &&& resp.added == Option::Some((after.len() - before.len()) as i64)
                    &&& resp.removed is None
                    &&& resp.total_keys == after.len()
                },
                Result::Err(e) => e is NotFound && !mux_has(old(self)@, name@) && final(self)@
                    == old(self)@,
            },
    {
        match self.find(name) {
            Option::Some(i) => {
                proof {
                    lemma_mux_idx_of(self@, name@, i as int);
                    lemma_add_keys_props(kviews(self@[i as int].keys@), kviews(req.keys@));
                }
                let keys = with_added_keys(&self.configs[i].keys, &req.keys);
                let old_len = self.configs[i].keys.len();
                let new_len = keys.len();
                let added = (new_len - old_len) as i64;
                let created = self.configs[i].created_at;
                let rec_name = self.configs[i].name.clone();
                let rec = MuxConfigRecord {
                    name: rec_name,
                    keys,
                    created_at: created,
                    updated_at: now,
                };
                self.configs[i] = rec;
                Result::Ok(
                    MuxKeysResponse {
                        added: Option::Some(added),
                        removed: Option::None,
                        total_keys: new_len as i64,
                    },
                )
            },
            Option::None => Result::Err(ApiError::NotFound(String::from_str(name))),
        }
    }

    /// Removes the listed keys that are present, ignoring absent ones,
    /// and reports how many were removed and how many remain. Fails with
    /// `NotFound` exactly when the name is absent.
    pub fn remove_mux_keys(&mut self, name: &str, req: &MuxKeysRequest, now: u64) -> (r: Result<
        MuxKeysResponse,
        ApiError,
    >)
        requires
            old(self).wf(),
            mux_has(old(self)@, name@) ==> old(self)@[mux_idx(old(self)@, name@)].keys@.len()
                <= 0x7fff_ffff_ffff_ffff,
        ensures
            final(self).wf(),
            match r {
                Result::Ok(resp) => {
                    let i = mux_idx(old(self)@, name@);
                    let before = kviews(old(self)@[i].keys@);
                    let after = remove_keys(before, kviews(req.keys@));
                    &&& mux_has(old(self)@, name@)
                    &&& final(self)@.len() == old(self)@.len()
                    &&& (forall|j: int|
                        0 <= j < final(self)@.len() && j != i ==> final(self)@[j] == old(self)@[j])
                    &&& final(self)@[i].name@ == name@
                    &&& final(self)@[i].created_at == old(self)@[i].created_at
                    &&& final(self)@[i].updated_at == now
                    &&& kviews(final(self)@[i].keys@) == after
                    &&& resp.removed == Option::Some((before.len() - after.len()) as i64)
                    &&& resp.added is None
                    &&& resp.total_keys == after.len()
                },
                Result::Err(e) => e is NotFound && !mux_has(old(self)@, name@) && final(self)@
                    == old(self)@,
            },
    {
        match self.find(name) {
            Option::Some(i) => {
                proof {
                    lemma_mux_idx_of(self@, name@, i as int);
                }
                let keys = with_removed_keys(&self.configs[i].keys, &req.keys);
                let old_len = self.configs[i].keys.len();
                let new_len = keys.len();
                let removed = (old_len - new_len) as i64;
                let created = self.configs[i].created_at;
                let rec_name = self.configs[i].name.clone();
                let rec = MuxConfigRecord {
                    name: rec_name,
                    keys,
                    created_at: created,
                    updated_at: now,
                };
                self.configs[i] = rec;
                Result::Ok(
                    MuxKeysResponse {
                        added: Option::None,
                        removed: Option::Some(removed),
                        total_keys: new_len as i64,
                    },
                )
            },
            Option::None => Result::Err(ApiError::NotFound(String::from_str(name))),
        }
    }

    /// The keys of the named set, in stable insertion order, or
    /// `NotFound`.
    pub fn get_mux_keys_public(&self, name: &str) -> (r: Result<Vec<BlsPubkey>, ApiError>)
        requires
            self.wf(),
        ensures
            match r {
                Result::Ok(keys) => mux_has(self@, name@) && kviews(keys@) == kviews(
                    self@[mux_idx(self@, name@)].keys@,
                ),
                Result::Err(e) => e is NotFound && !mux_has(self@, name@),
            },
    {
        match self.find(name) {
            Option::Some(i) => {
                proof {
                    lemma_mux_idx_of(self@, name@, i as int);
                }
                Result::Ok(clone_keys(&self.configs[i].keys))
            },
            Option::None => Result::Err(ApiError::NotFound(String::from_str(name))),
        }
    }

    /// One page of all key sets, in creation order, with the total count.
    pub fn list_mux_configs(&self, filters: &MuxConfigFilters) -> (r: PaginatedResponse<
        MuxConfigListItem,
    >)
        requires
            self.wf(),
            self@.len() <= 0x7fff_ffff_ffff_ffff,
            forall|i: int|
                0 <= i < self@.len() ==> (#[trigger] self@[i]).keys@.len()
                    <= 0x7fff_ffff_ffff_ffff,
        ensures
            r.total == self@.len(),
            r.limit == filters.limit,
            r.offset == filters.offset,
            ({
                let off = page_start(self@.len() as int, filters.offset);
                let end = page_end(self@.len() as int, filters.limit, filters.offset);
                &&& r.data@.len() == end - off
                &&& (forall|j: int|
                    0 <= j < r.data@.len() ==> mux_item_matches(
                        #[trigger] r.data@[j],
                        self@[off + j],
                    ))
            }),
    {
        let total = self.configs.len();
        let off = page_start_exec(total, filters.offset);
        let end = page_end_exec(total, filters.limit, filters.offset);
        let mut data: Vec<MuxConfigListItem> = Vec::new();
        let mut i: usize = off;
        while i < end
            invariant
                off <= i <= end,
                end <= self@.len(),
                data@.len() == i - off,
                forall|j: int|
                    0 <= j < data@.len() ==> mux_item_matches(
                        #[trigger] data@[j],
                        self@[off + j],
                    ),
            decreases end - i,
        {
            let rec = &self.configs[i];
            data.push(
                MuxConfigListItem {
                    name: rec.name.clone(),
                    key_count: rec.keys.len() as i64,
                    created_at: rec.created_at,
                    updated_at: rec.updated_at,
                },
            );
            i = i + 1;
        }
        PaginatedResponse {
            data,
            total: total as i64,
            limit: filters.limit,
            offset: filters.offset,
        }
    }
}

/// Where a page starts: the offset clamped to the collection.
pub open spec fn page_start(len: int, offset: i64) -> int {
    if offset < 0 {
        0
    } else if offset > len {
        len
    } else {
        offset as int
    }
}

/// Where a page ends: at most `limit` entries after the start.
pub open spec fn page_end(len: int, limit: i64, offset: i64) -> int {
    let off = page_start(len, offset);
    let lim = if limit < 0 {
        0
    } else {
        limit as int
    };
    if off + lim > len {
        len
    } else {
        off + lim
    }
}

/// Where a page starts, on machine integers.
pub(crate) fn page_start_exec(len: usize, offset: i64) -> (r: usize)
    requires
        len <= 0x7fff_ffff_ffff_ffff,
    ensures
        r == page_start(len as int, offset),
        r <= len,
{
    if offset < 0 {
        0
    } else if offset > len as i64 {
        len
    } else {
        offset as usize
    }
}

/// Where a page ends, on machine integers.
pub(crate) fn page_end_exec(len: usize, limit: i64, offset: i64) -> (r: usize)
    requires
        len <= 0x7fff_ffff_ffff_ffff,
    ensures
        r == page_end(len as int, limit, offset),
        page_start(len as int, offset) <= r <= len,
{
    let off = page_start_exec(len, offset);
    let lim: usize = if limit < 0 {
        0
    } else if limit > len as i64 {
        len
    } else {
        limit as usize
    };
    if lim > len - off {
        len
    } else {
        off + lim
    }
}

proof fn lemma_mux_idx_of(s: Seq<MuxConfigRecord>, name: Seq<char>, i: int)
    requires
        0 <= i < s.len(),
        s[i].name@ == name,
        forall|a: int, b: int|
            0 <= a < b < s.len() ==> (#[trigger] s[a].name)@ != (#[trigger] s[b].name)@,
    ensures
        mux_has(s, name),
        mux_idx(s, name) == i,
{
    assert(mux_has(s, name));
    let w = mux_idx(s, name);
    assert(0 <= w < s.len() && s[w].name@ == name);
    if w < i {
        assert(s[w].name@ != s[i].name@);
    } else if w > i {
        assert(s[i].name@ != s[w].name@);
    }
}

/// Whether a key list holds a key with these bytes.
pub(crate) fn vec_contains_key(v: &Vec<BlsPubkey>, k: &BlsPubkey) -> (r: bool)
    ensures
        r == kviews(v@).contains(k@),
{
    let mut i: usize = 0;
    while i < v.len()
        invariant
            i <= v@.len(),
            forall|j: int| 0 <= j < i ==> kviews(v@)[j] != k@,
        decreases v@.len() - i,
    {
        if v[i].eq(k) {
            assert(kviews(v@)[i as int] == k@);
            return true;
        }
        i = i + 1;
    }
    false
}

/// Copies a key list.
pub(crate) fn clone_keys(v: &Vec<BlsPubkey>) -> (r: Vec<BlsPubkey>)
    ensures
        kviews(r@) == kviews(v@),
{
    let mut r: Vec<BlsPubkey> = Vec::new();
    let mut i: usize = 0;
    while i < v.len()
        invariant
            i <= v@.len(),
            r@.len() == i,
            forall|j: int| 0 <= j < i ==> kviews(r@)[j] == kviews(v@)[j],
        decreases v@.len() - i,
    {
        r.push(v[i].clone());
        i = i + 1;
    }
    proof {
        assert(kviews(r@) =~= kviews(v@));
    }
    r
}

/// The keys of `base` followed by the new members of `new`, deduplicated.
fn with_added_keys(base: &Vec<BlsPubkey>, new: &Vec<BlsPubkey>) -> (r: Vec<BlsPubkey>)
    requires
        kviews(base@).no_duplicates(),
    ensures
        kviews(r@) == add_keys(kviews(base@), kviews(new@)),
        kviews(r@).no_duplicates(),
        r@.len() >= base@.len(),
{
    let mut r = clone_keys(base);
    let mut i: usize = 0;
    proof {
        assert(kviews(new@).subrange(0, 0) =~= Seq::<Seq<u8>>::empty());
        assert(add_keys(kviews(base@), kviews(new@).subrange(0, 0)) == kviews(base@));
    }
    while i < new.len()
        invariant
            i <= new@.len(),
            kviews(r@) == add_keys(kviews(base@), kviews(new@).subrange(0, i as int)),
            kviews(r@).no_duplicates(),
            r@.len() >= base@.len(),
        decreases new@.len() - i,
    {
        proof {
            lemma_add_keys_step(kviews(base@), kviews(new@), i as int);
            assert(kviews(new@)[i as int] == new@[i as int]@);
        }
        if !vec_contains_key(&r, &new[i]) {
            proof {
                let old_ks = kviews(r@);
                let x = new@[i as int]@;
                assert forall|a: int, b: int|
                    0 <= a < b < old_ks.push(x).len() implies old_ks.push(x)[a] != old_ks.push(
                    x,
                )[b] by {
                    if b < old_ks.len() {
                    } else {
                        assert(old_ks.push(x)[b] == x);
                        assert(!old_ks.contains(x));
                    }
                }
            }
            let ghost before = kviews(r@);
            r.push(new[i].clone());
            proof {
                assert(kviews(r@) =~= before.push(new@[i as int]@));
            }
        }
        i = i + 1;
    }
    proof {
        assert(kviews(new@).subrange(0, new@.len() as int) =~= kviews(new@));
    }
    r
}

/// The keys of `base` that are not listed in `rem`.
fn with_removed_keys(base: &Vec<BlsPubkey>, rem: &Vec<BlsPubkey>) -> (r: Vec<BlsPubkey>)
    requires
        kviews(base@).no_duplicates(),
    ensures
        kviews(r@) == remove_keys(kviews(base@), kviews(rem@)),
        kviews(r@).no_duplicates(),
        r@.len() <= base@.len(),
{
    let ghost pred = |k: Seq<u8>| !kviews(rem@).contains(k);
    let mut r: Vec<BlsPubkey> = Vec::new();
    let mut i: usize = 0;
    proof {
        assert(kviews(base@).subrange(0, 0) =~= Seq::<Seq<u8>>::empty());
        assert(kviews(base@).subrange(0, 0).filter(pred) =~= Seq::<Seq<u8>>::empty());
    }
    while i < base.len()
        invariant
            i <= base@.len(),
            kviews(r@) == kviews(base@).subrange(0, i as int).filter(pred),
            kviews(r@).no_duplicates(),
            r@.len() <= i,
            forall|x: Seq<u8>|
                kviews(r@).contains(x) ==> kviews(base@).subrange(0, i as int).contains(x),
        decreases base@.len() - i,
    {
        let ghost prefix = kviews(base@).subrange(0, i as int);
        let ghost prefix1 = kviews(base@).subrange(0, i + 1);
        proof {
            assert(prefix1.drop_last() =~= prefix);
            assert(prefix1.last() == kviews(base@)[i as int]);
            reveal(Seq::filter);
        }
        if !vec_contains_key(rem, &base[i]) {
            let ghost before = kviews(r@);
            let ghost x = base@[i as int]@;
            proof {
                assert(kviews(base@)[i as int] == x);
                assert(pred(x));
                assert(prefix1.filter(pred) == prefix.filter(pred).push(x));
                assert(!prefix.contains(x)) by {
                    if prefix.contains(x) {
                        let w = choose|w: int| 0 <= w < prefix.len() && prefix[w] == x;
                        assert(kviews(base@)[w] == x);
                        assert(kviews(base@)[i as int] == x);
                    }
                }
                assert(!before.contains(x));
                assert forall|a: int, b: int|
                    0 <= a < b < before.push(x).len() implies before.push(x)[a] != before.push(
                    x,
                )[b] by {
                    if b < before.len() {
                    } else {
                        assert(before.push(x)[b] == x);
                    }
                }
            }
            r.push(base[i].clone());
            proof {
                assert(kviews(r@) =~= before.push(x));
                assert forall|y: Seq<u8>| kviews(r@).contains(y) implies prefix1.contains(y) by {
                    if before.contains(y) {
                        let w = choose|w: int| 0 <= w < prefix.len() && prefix[w] == y;
                        assert(prefix1[w] == y);
                    } else {
                        assert(y == x);
                        assert(prefix1[i as int] == x);
                    }
                }
            }
        } else {
            proof {
                assert(kviews(base@)[i as int] == base@[i as int]@);
                assert(!pred(kviews(base@)[i as int]));
                assert(prefix1.filter(pred) == prefix.filter(pred));
                assert forall|y: Seq<u8>| kviews(r@).contains(y) implies prefix1.contains(y) by {
                    let w = choose|w: int| 0 <= w < prefix.len() && prefix[w] == y;
                    assert(prefix1[w] == y);
                }
            }
        }
        i = i + 1;
    }
    proof {
        assert(kviews(base@).subrange(0, base@.len() as int) =~= kviews(base@));
        broadcast use vstd::seq_lib::group_filter_ensures;

        assert(kviews(base@).filter(pred).len() <= kviews(base@).len());
    }
    r
}

} // verus!
