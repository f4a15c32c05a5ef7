use vstd::prelude::*;

use crate::entry::StoreModel;
use crate::error::StoreError;
use crate::store::Store;
use crate::model::{
    clear_post, has_row, key_listed, key_views, lemma_others_unchanged_trans, lemma_push_row,
    lemma_remove_row, lemma_row_at_index, lemma_slots_unchanged_refl, list_entry_ok, list_post,
    listed_key, live_at, live_list, expiry_of, models_match, other_namespaces_unchanged,
    prev_post, remove_many_post, remove_post, row_at, row_matches, set_post, slot_unchanged,
    spec_get, wf_rows, RowV,
};
use crate::values::clone_value;
use serde_json::Value;

verus! {

/// One physical row of the in-process medium: an entry tagged with the
/// namespace it belongs to.
struct Row {
    ns: String,
    key: String,
    value: Value,
    expires_at: Option<u64>,
}

impl View for Row {
    type V = RowV;

    closed spec fn view(&self) -> RowV {
        RowV { ns: self.ns@, key: self.key@, value: self.value, expires_at: self.expires_at }
    }
}

/// The mathematical image of a sequence of physical rows.
spec fn views(s: Seq<Row>) -> Seq<RowV> {
    s.map_values(|r: Row| r@)
}

proof fn lemma_views_remove(s: Seq<Row>, i: int)
    requires
        0 <= i < s.len(),
    ensures
        views(s.remove(i)) == views(s).remove(i),
{
    s.remove_ensures(i);
    views(s).remove_ensures(i);
    let a = views(s.remove(i));
    let b = views(s).remove(i);
    assert forall|j: int| 0 <= j < a.len() implies a[j] == b[j] by {
        if j < i {
            assert(s.remove(i)[j] == s[j]);
            assert(views(s).remove(i)[j] == views(s)[j]);
        } else {
            assert(s.remove(i)[j] == s[j + 1]);
            assert(views(s).remove(i)[j] == views(s)[j + 1]);
        }
    }
    assert(a =~= b);
}

proof fn lemma_views_push(s: Seq<Row>, r: Row)
    ensures
        views(s.push(r)) == views(s).push(r@),
{
    let a = views(s.push(r));
    let b = views(s).push(r@);
    assert forall|j: int| 0 <= j < a.len() implies a[j] == b[j] by {
        if j < s.len() {
            assert(s.push(r)[j] == s[j]);
        } else {
            assert(s.push(r)[j] == r);
        }
    }
    assert(a =~= b);
}

/// The in-process, non-persistent physical medium: a flat table of rows,
/// at most one per (namespace, key) pair, shared by every namespace that
/// lives on it. All of its operations are total; time is handed in, never
/// read here.
pub struct MemoryBackend {
    rows: Vec<Row>,
}

impl MemoryBackend {
    /// All rows of the medium, namespaces tagged.
    pub closed spec fn rows_view(&self) -> Seq<RowV> {
        views(self.rows@)
    }

    /// At most one row per (namespace, key) pair.
    pub closed spec fn wf(&self) -> bool {
        wf_rows(self.rows_view())
    }

    /// An empty medium.
    pub fn new() -> (r: MemoryBackend)
        ensures
            r.wf(),
            r.rows_view() == Seq::<RowV>::empty(),
    {
        let b = MemoryBackend { rows: Vec::new() };
        proof {
            assert(b.rows_view() =~= Seq::<RowV>::empty());
        }
        b
    }

    /// The index of the row occupying (ns, key), if any.
    fn find_index(&self, ns: &str, key: &str) -> (r: Option<usize>)
        ensures
            match r {
                Some(i) => i < self.rows_view().len() && row_matches(
                    self.rows_view()[i as int],
                    ns@,
                    key@,
                ),
                None => !has_row(self.rows_view(), ns@, key@),
            },
    {
        let ns_o: String = ns.to_owned();
        let key_o: String = key.to_owned();
        let n = self.rows.len();
        let mut i: usize = 0;
        while i < n
            invariant
                n == self.rows@.len(),
                i <= n,
                ns_o@ == ns@,
                key_o@ == key@,
                forall|j: int| 0 <= j < i ==> !row_matches(#[trigger] self.rows_view()[j], ns@, key@),
            decreases n - i,
        {
            if self.rows[i].ns == ns_o && self.rows[i].key == key_o {
                proof {
                    assert(self.rows_view()[i as int] == self.rows@[i as int]@);
                }
                return Some(i);
            }
            proof {
                assert(self.rows_view()[i as int] == self.rows@[i as int]@);
            }
            i += 1;
        }
        proof {
            assert forall|j: int| 0 <= j < self.rows_view().len() implies !row_matches(
                #[trigger] self.rows_view()[j],
                ns@,
                key@,
            ) by {}
        }
        None
    }

    /// The live value under (ns, key) at instant `now`: an expired row is
    /// masked as absent.
    pub fn get(&self, ns: &str, key: &str, now: u64) -> (r: Option<Value>)
        requires
            self.wf(),
        ensures
            r == spec_get(self.rows_view(), ns@, key@, now),
    {
        match self.find_index(ns, key) {
            Some(i) => {
                proof {
                    lemma_row_at_index(self.rows_view(), ns@, key@, i as int);
                }
                let live = match self.rows[i].expires_at {
                    None => true,
                    Some(t) => now < t,
                };
                proof {
                    assert(self.rows_view()[i as int] == self.rows@[i as int]@);
                }
                if live {
                    Some(clone_value(&self.rows[i].value))
                } else {
                    None
                }
            },
            None => None,
        }
    }

    /// Inserts or fully replaces the entry for (ns, key), resetting value
    /// and expiry together, and reports the entry that was overwritten.
    pub fn set(&mut self, ns: &str, key: &str, value: Value, ttl: Option<u64>, now: u64) -> (r:
        Option<StoreModel>)
        requires
            old(self).wf(),
        ensures
            final(self).wf(),
            set_post(
                old(self).rows_view(),
                final(self).rows_view(),
                ns@,
                key@,
                value,
                expiry_of(ttl, now),
            ),
            prev_post(old(self).rows_view(), ns@, key@, r),
    {
        let expires_at: Option<u64> = match ttl {
            None => None,
            Some(t) => Some(now.saturating_add(t)),
        };
        let new_row = Row { ns: ns.to_owned(), key: key.to_owned(), value, expires_at };
        let ghost nr: Row = new_row;
        let ghost v0 = self.rows_view();
        match self.find_index(ns, key) {
            Some(i) => {
                let old_row = self.rows.remove(i);
                let ghost mid_rows = self.rows@;
                self.rows.push(new_row);
                proof {
                    let ix = i as int;
                    lemma_views_remove(old(self).rows@, ix);
                    lemma_views_push(mid_rows, nr);
                    let mid = v0.remove(ix);
                    lemma_remove_row(v0, ix);
                    lemma_push_row(mid, nr@);
                    lemma_others_unchanged_trans(v0, mid, mid.push(nr@), ns@, key@);
                    lemma_row_at_index(v0, ns@, key@, ix);
                }
                Some(
                    StoreModel {
                        key: old_row.key,
                        value: old_row.value,
                        expires_at: old_row.expires_at,
                    },
                )
            },
            None => {
                self.rows.push(new_row);
                proof {
                    lemma_views_push(old(self).rows@, nr);
                    lemma_push_row(v0, nr@);
                }
                None
            },
        }
    }

    /// Deletes the entry for (ns, key) if present; deleting an absent key
    /// is a no-op, not an error.
    pub fn remove(&mut self, ns: &str, key: &str)
        requires
            old(self).wf(),
        ensures
            final(self).wf(),
            remove_post(old(self).rows_view(), final(self).rows_view(), ns@, key@),
    {
        let ghost v0 = self.rows_view();
        match self.find_index(ns, key) {
            Some(i) => {
                let _ = self.rows.remove(i);
                proof {
                    let ix = i as int;
                    lemma_views_remove(old(self).rows@, ix);
                    lemma_remove_row(v0, ix);
                }
            },
            None => {
                proof {
                    assert forall|ns2: Seq<char>, k2: Seq<char>|
                        !(ns2 == ns@ && k2 == key@) implies #[trigger] slot_unchanged(
                        v0,
                        v0,
                        ns2,
                        k2,
                    ) by {}
                }
            },
        }
    }

    /// Deletes each key of `keys` under `ns` in turn; keys that are absent
    /// are skipped silently, and slots outside the batch are untouched.
    pub fn remove_many(&mut self, ns: &str, keys: &[String])
        requires
            old(self).wf(),
        ensures
            final(self).wf(),
            remove_many_post(
                old(self).rows_view(),
                final(self).rows_view(),
                ns@,
                key_views(keys@),
            ),
    {
        let ghost v0 = self.rows_view();
        let ghost ks = key_views(keys@);
        let n = keys.len();
        let mut idx: usize = 0;
        while idx < n
            invariant
                self.wf(),
                n == keys@.len(),
                idx <= n,
                ks == key_views(keys@),
                forall|j: int| 0 <= j < idx ==> !has_row(self.rows_view(), ns@, #[trigger] ks[j]),
                forall|ns2: Seq<char>, k2: Seq<char>|
                    !(ns2 == ns@ && key_listed(ks, k2)) ==> #[trigger] slot_unchanged(
                        v0,
                        self.rows_view(),
                        ns2,
                        k2,
                    ),
            decreases n - idx,
        {
            let ghost pre = self.rows_view();
            self.remove(ns, keys[idx].as_str());
            proof {
                let ix = idx as int;
                assert(ks[ix] == keys@[ix]@);
                assert(key_listed(ks, ks[ix])) by {
                    assert(0 <= ix < ks.len() && ks[ix] == ks[ix]);
                }
                assert forall|j: int| 0 <= j < ix + 1 implies !has_row(
                    self.rows_view(),
                    ns@,
                    #[trigger] ks[j],
                ) by {
                    if j < ix {
                        if ks[j] != ks[ix] {
                            assert(slot_unchanged(pre, self.rows_view(), ns@, ks[j]));
                        }
                    }
                }
                assert forall|ns2: Seq<char>, k2: Seq<char>|
                    !(ns2 == ns@ && key_listed(ks, k2)) implies #[trigger] slot_unchanged(
                    v0,
                    self.rows_view(),
                    ns2,
                    k2,
                ) by {
                    assert(slot_unchanged(v0, pre, ns2, k2));
                    assert(!(ns2 == ns@ && k2 == ks[ix]));
                    assert(slot_unchanged(pre, self.rows_view(), ns2, k2));
                }
            }
            idx += 1;
        }
    }

    /// Deletes every entry of namespace `ns`; entries of every other
    /// namespace sharing this medium are untouched.
    pub fn clear(&mut self, ns: &str)
        requires
            old(self).wf(),
        ensures
            final(self).wf(),
            clear_post(old(self).rows_view(), final(self).rows_view(), ns@),
    {
        let ns_o: String = ns.to_owned();
        let ghost v0 = self.rows_view();
        let mut i: usize = 0;
        while i < self.rows.len()
            invariant
                self.wf(),
                i <= self.rows@.len(),
                ns_o@ == ns@,
                forall|j: int| 0 <= j < i ==> (#[trigger] self.rows_view()[j]).ns != ns@,
                other_namespaces_unchanged(v0, self.rows_view(), ns@),
            decreases self.rows@.len() - i,
        {
            proof {
                assert(self.rows_view()[i as int] == self.rows@[i as int]@);
            }
            if self.rows[i].ns == ns_o {
                let ghost pre = self.rows_view();
                let ghost pre_rows = self.rows@;
                let _ = self.rows.remove(i);
                proof {
                    let ix = i as int;
                    lemma_views_remove(pre_rows, ix);
                    lemma_remove_row(pre, ix);
                    pre.remove_ensures(ix);
                    assert forall|j: int| 0 <= j < i implies (#[trigger] self.rows_view()[j]).ns
                        != ns@ by {
                        assert(self.rows_view()[j] == pre[j]);
                    }
                    assert forall|ns2: Seq<char>, k2: Seq<char>| ns2 != ns@ implies #[trigger] slot_unchanged(
                        v0,
                        self.rows_view(),
                        ns2,
                        k2,
                    ) by {
                        assert(slot_unchanged(v0, pre, ns2, k2));
                        assert(!(ns2 == pre[ix].ns && k2 == pre[ix].key));
                        assert(slot_unchanged(pre, self.rows_view(), ns2, k2));
                    }
                }
            } else {
                i += 1;
            }
        }
        proof {
            assert forall|k: Seq<char>| !#[trigger] has_row(self.rows_view(), ns@, k) by {
                if has_row(self.rows_view(), ns@, k) {
                    let j = choose|j: int|
                        0 <= j < self.rows_view().len() && row_matches(
                            #[trigger] self.rows_view()[j],
                            ns@,
                            k,
                        );
                    assert(self.rows_view()[j].ns != ns@);
                }
            }
        }
    }

    /// Every live entry of namespace `ns` at instant `now`, each key once,
    /// in row order; expired rows are masked out. The listing is a
    /// function of the medium's rows alone, so repeated listings of an
    /// unchanged medium agree.
    pub fn list(&self, ns: &str, now: u64) -> (r: Vec<StoreModel>)
        requires
            self.wf(),
        ensures
            list_post(self.rows_view(), ns@, now, r@),
            models_match(live_list(self.rows_view(), ns@, now), r@),
    {
        let ns_o: String = ns.to_owned();
        let mut out: Vec<StoreModel> = Vec::new();
        let n = self.rows.len();
        proof {
            assert(self.rows_view().take(0) =~= Seq::<RowV>::empty());
        }
        let mut i: usize = 0;
        while i < n
            invariant
                self.wf(),
                n == self.rows@.len(),
                i <= n,
                ns_o@ == ns@,
                models_match(live_list(self.rows_view().take(i as int), ns@, now), out@),
                forall|j: int|
                    0 <= j < out@.len() ==> list_entry_ok(
                        self.rows_view(),
                        ns@,
                        now,
                        #[trigger] out@[j],
                    ),
                forall|j: int|
                    0 <= j < out@.len() ==> exists|p: int|
                        0 <= p < i && row_matches(
                            self.rows_view()[p],
                            ns@,
                            (#[trigger] out@[j]).key@,
                        ),
                forall|j1: int, j2: int|
                    0 <= j1 < out@.len() && 0 <= j2 < out@.len() && j1 != j2
                        ==> (#[trigger] out@[j1]).key@ != (#[trigger] out@[j2]).key@,
                forall|p: int|
                    0 <= p < i && (#[trigger] self.rows_view()[p]).ns == ns@ && live_at(
                        self.rows_view()[p].expires_at,
                        now,
                    ) ==> listed_key(out@, self.rows_view()[p].key),
            decreases n - i,
        {
            proof {
                assert(self.rows_view()[i as int] == self.rows@[i as int]@);
            }
            let ghost pre_out = out@;
            let row = &self.rows[i];
            if row.ns == ns_o {
                let live = match row.expires_at {
                    None => true,
                    Some(t) => now < t,
                };
                if live {
                    proof {
                        lemma_row_at_index(self.rows_view(), ns@, row.key@, i as int);
                    }
                    out.push(
                        StoreModel {
                            key: row.key.clone(),
                            value: clone_value(&row.value),
                            expires_at: row.expires_at,
                        },
                    );
                    proof {
                        let ix = i as int;
                        let m = out@[out@.len() - 1];
                        assert(list_entry_ok(self.rows_view(), ns@, now, m));
                        assert forall|j: int| 0 <= j < out@.len() implies list_entry_ok(
                            self.rows_view(),
                            ns@,
                            now,
                            #[trigger] out@[j],
                        ) by {
                            if j < out@.len() - 1 {
                                assert(out@[j] == pre_out[j]);
                            }
                        }
                        assert forall|j: int| 0 <= j < out@.len() implies exists|p: int|
                            0 <= p < ix + 1 && row_matches(
                                self.rows_view()[p],
                                ns@,
                                (#[trigger] out@[j]).key@,
                            ) by {
                            if j < out@.len() - 1 {
                                assert(out@[j] == pre_out[j]);
                                let p = choose|p: int|
                                    0 <= p < ix && row_matches(
                                        self.rows_view()[p],
                                        ns@,
                                        pre_out[j].key@,
                                    );
                                assert(0 <= p < ix + 1 && row_matches(
                                    self.rows_view()[p],
                                    ns@,
                                    out@[j].key@,
                                ));
                            } else {
                                assert(0 <= ix < ix + 1 && row_matches(
                                    self.rows_view()[ix],
                                    ns@,
                                    out@[j].key@,
                                ));
                            }
                        }
                        assert forall|j1: int, j2: int|
                            0 <= j1 < out@.len() && 0 <= j2 < out@.len() && j1 != j2
                            implies (#[trigger] out@[j1]).key@ != (#[trigger] out@[j2]).key@ by {
                            let last = out@.len() - 1;
                            if j1 < last && j2 < last {
                                assert(out@[j1] == pre_out[j1]);
                                assert(out@[j2] == pre_out[j2]);
                            } else {
                                let jo = if j1 == last { j2 } else { j1 };
                                assert(out@[jo] == pre_out[jo]);
                                if out@[jo].key@ == m.key@ {
                                    let p = choose|p: int|
                                        0 <= p < ix && row_matches(
                                            self.rows_view()[p],
                                            ns@,
                                            pre_out[jo].key@,
                                        );
                                    assert(row_matches(self.rows_view()[ix], ns@, m.key@));
                                    assert(false);
                                }
                            }
                        }
                        assert forall|p: int|
                            0 <= p < ix + 1 && (#[trigger] self.rows_view()[p]).ns == ns@
                                && live_at(self.rows_view()[p].expires_at, now) implies listed_key(
                            out@,
                            self.rows_view()[p].key,
                        ) by {
                            if p < ix {
                                let q = choose|q: int|
                                    0 <= q < pre_out.len() && (#[trigger] pre_out[q]).key@
                                        == self.rows_view()[p].key;
                                assert(out@[q] == pre_out[q]);
                                assert(listed_key(out@, self.rows_view()[p].key));
                            } else {
                                assert(out@[out@.len() - 1].key@ == self.rows_view()[ix].key);
                            }
                        }
                    }
                } else {
                    proof {
                        lemma_row_at_index(self.rows_view(), ns@, row.key@, i as int);
                        assert forall|p: int|
                            0 <= p < i + 1 && (#[trigger] self.rows_view()[p]).ns == ns@
                                && live_at(self.rows_view()[p].expires_at, now) implies listed_key(
                            out@,
                            self.rows_view()[p].key,
                        ) by {}
                    }
                }
            }
            proof {
                let ix = i as int;
                let v = self.rows_view();
                let pre_take = v.take(ix);
                let new_take = v.take(ix + 1);
                assert(new_take.drop_last() =~= pre_take);
                assert(new_take.last() == v[ix]);
                let ll_pre = live_list(pre_take, ns@, now);
                let ll_new = live_list(new_take, ns@, now);
                if v[ix].ns == ns@ && live_at(v[ix].expires_at, now) {
                    assert(ll_new =~= ll_pre.push(v[ix]));
                    assert(out@.len() == pre_out.len() + 1);
                    assert forall|j: int| 0 <= j < ll_new.len() implies {
                        &&& (#[trigger] out@[j]).key@ == ll_new[j].key
                        &&& out@[j].value == ll_new[j].value
                        &&& out@[j].expires_at == ll_new[j].expires_at
                    } by {
                        if j < ll_pre.len() {
                            assert(out@[j] == pre_out[j]);
                        }
                    }
                } else {
                    assert(ll_new =~= ll_pre);
                    assert(out@ == pre_out);
                }
            }
            i += 1;
        }
        proof {
            assert forall|k: Seq<char>|
                #[trigger] has_row(self.rows_view(), ns@, k) && live_at(
                    row_at(self.rows_view(), ns@, k).expires_at,
                    now,
                ) implies listed_key(out@, k) by {
                let j = choose|j: int|
                    0 <= j < self.rows_view().len() && row_matches(
                        #[trigger] self.rows_view()[j],
                        ns@,
                        k,
                    );
                lemma_row_at_index(self.rows_view(), ns@, k, j);
                assert(self.rows_view()[j].ns == ns@);
                assert(listed_key(out@, self.rows_view()[j].key));
            }
            assert(self.rows_view().take(self.rows_view().len() as int) =~= self.rows_view());
        }
        out
    }
}

/// The in-process, non-persistent backend: one namespace of a
/// `MemoryBackend` medium behind the store capability. Its operations
/// never fail once it is initialized.
pub struct InMemoryStore {
    namespace: String,
    ready: bool,
    backend: MemoryBackend,
}

impl InMemoryStore {
    /// A fresh, uninitialized store over its own empty medium.
    pub fn new(namespace: String) -> (r: InMemoryStore)
        ensures
            r.inv(),
            !r.ready(),
            r.namespace() == namespace@,
            r.rows() == Seq::<RowV>::empty(),
    {
        InMemoryStore { namespace, ready: false, backend: MemoryBackend::new() }
    }

    /// A fresh, uninitialized store over an existing medium, alongside
    /// whatever namespaces already live there.
    pub fn with_backend(namespace: String, backend: MemoryBackend) -> (r: InMemoryStore)
        requires
            backend.wf(),
        ensures
            r.inv(),
            !r.ready(),
            r.namespace() == namespace@,
            r.rows() == backend.rows_view(),
    {
        InMemoryStore { namespace, ready: false, backend }
    }
}

impl Store for InMemoryStore {
    closed spec fn namespace(&self) -> Seq<char> {
        self.namespace@
    }

    closed spec fn inv(&self) -> bool {
        self.backend.wf()
    }

    closed spec fn ready(&self) -> bool {
        self.ready
    }

    closed spec fn rows(&self) -> Seq<RowV> {
        self.backend.rows_view()
    }

    open spec fn fallible(&self) -> bool {
        false
    }

    open spec fn listing(&self, now: u64) -> Seq<RowV> {
        live_list(self.rows(), self.namespace(), now)
    }

    fn initialize(&mut self) -> (r: Result<(), StoreError>)
        ensures
            r is Ok,
    {
        self.ready = true;
        Ok(())
    }

    fn get(&self, key: &str, now: u64) -> (r: Result<Option<Value>, StoreError>)
        ensures
            self.ready() ==> r is Ok,
    {
        if !self.ready {
            Err(StoreError::NotInitialized)
        } else {
            Ok(self.backend.get(self.namespace.as_str(), key, now))
        }
    }

    fn set(&mut self, key: &str, value: Value, ttl: Option<u64>, now: u64) -> (r: Result<
        Option<StoreModel>,
        StoreError,
    >)
        ensures
            old(self).ready() ==> r is Ok,
    {
        if !self.ready {
            Err(StoreError::NotInitialized)
        } else {
            let ns: String = self.namespace.clone();
            Ok(self.backend.set(ns.as_str(), key, value, ttl, now))
        }
    }

    fn list(&self, now: u64) -> (r: Result<Vec<StoreModel>, StoreError>)
        ensures
            self.ready() ==> r is Ok,
    {
        if !self.ready {
            Err(StoreError::NotInitialized)
        } else {
            Ok(self.backend.list(self.namespace.as_str(), now))
        }
    }

    fn remove(&mut self, key: &str) -> (r: Result<(), StoreError>)
        ensures
            old(self).ready() ==> r is Ok,
    {
        if !self.ready {
            Err(StoreError::NotInitialized)
        } else {
            let ns: String = self.namespace.clone();
            self.backend.remove(ns.as_str(), key);
            Ok(())
        }
    }

    fn remove_many(&mut self, keys: &[String]) -> (r: Result<(), StoreError>)
        ensures
            old(self).ready() ==> r is Ok,
    {
        if !self.ready {
            proof {
                lemma_slots_unchanged_refl(self.rows());
            }
            Err(StoreError::NotInitialized)
        } else {
            let ns: String = self.namespace.clone();
            self.backend.remove_many(ns.as_str(), keys);
            Ok(())
        }
    }

    fn clear(&mut self) -> (r: Result<(), StoreError>)
        ensures
            old(self).ready() ==> r is Ok,
    {
        if !self.ready {
            proof {
                lemma_slots_unchanged_refl(self.rows());
            }
            Err(StoreError::NotInitialized)
        } else {
            let ns: String = self.namespace.clone();
            self.backend.clear(ns.as_str());
            proof {
                assert forall|k: Seq<char>| slot_unchanged(
                    old(self).rows(),
                    self.rows(),
                    self.namespace(),
                    k,
                ) || !#[trigger] has_row(self.rows(), self.namespace(), k) by {}
            }
            Ok(())
        }
    }
}

} // verus!
