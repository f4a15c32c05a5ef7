use vstd::prelude::*;

use crate::adapter::KyvalStoreBuilder;
use crate::clock::now_seconds;
use crate::entry::StoreModel;
use crate::error::KyvalError;
use crate::memory::InMemoryStore;
use crate::model::{
    clear_frame, clear_post, expiry_of, has_row, key_views, list_post, models_match, prev_post,
    remove_many_frame, remove_many_post, remove_post, row_at, set_post, spec_get, RowV,
};
use crate::store::Store;
use serde_json::Value;
use vstd::pervasive::unreached;

verus! {

/// The output is a faithful live listing of the namespace at instant
/// `now`, and reports the backend-defined listing for that instant entry
/// for entry, order included.
pub open spec fn faithful_listing(
    rows: Seq<RowV>,
    ns: Seq<char>,
    listing: Seq<RowV>,
    now: u64,
    out: Seq<StoreModel>,
) -> bool {
    &&& list_post(rows, ns, now, out)
    &&& models_match(listing, out)
}

/// The key-value façade: one initialized store behind a uniform
/// get/set/remove/list/clear interface with optional per-entry expiry.
///
/// The façade holds no state of its own beyond the store and adds no
/// logic to it: values are stored in their structured wire form, expiry
/// instants are taken at the wall clock, and every store failure is
/// propagated unchanged.
pub struct Kyval<S: Store> {
    store: S,
}

impl<S: Store> Kyval<S> {
    /// The wrapped store's structural invariant.
    pub closed spec fn inv(&self) -> bool {
        self.store.inv()
    }

    /// Whether the wrapped store completed initialization; construction
    /// through `try_new` guarantees it.
    pub closed spec fn ready(&self) -> bool {
        self.store.ready()
    }

    /// The namespace this façade reads and writes.
    pub closed spec fn namespace(&self) -> Seq<char> {
        self.store.namespace()
    }

    /// The rows of the physical storage behind the wrapped store.
    pub closed spec fn rows(&self) -> Seq<RowV> {
        self.store.rows()
    }

    /// Whether the wrapped store's operations can fail once initialized;
    /// the in-process backend's cannot, and then every façade call from a
    /// ready state is owed success.
    pub closed spec fn fallible(&self) -> bool {
        self.store.fallible()
    }

    /// The wrapped store's backend-defined listing at instant `now`.
    pub closed spec fn listing(&self, now: u64) -> Seq<RowV> {
        self.store.listing(now)
    }

    /// `out` is a faithful live listing of this façade's namespace at some
    /// instant, and reports the backend-defined listing for that instant
    /// entry for entry, order included.
    pub open spec fn listed_at_some_instant(&self, out: Seq<StoreModel>) -> bool {
        exists|now: u64|
            #[trigger] faithful_listing(self.rows(), self.namespace(), self.listing(now), now, out)
    }

    /// Initializes the given store and wraps it. Initialization failure
    /// is fatal: there is no partially usable façade.
    pub fn try_new(store: S) -> (r: Result<Kyval<S>, KyvalError>)
        requires
            store.inv(),
        ensures
            !store.fallible() ==> r is Ok,
            match r {
                Ok(kv) => {
                    &&& kv.inv()
                    &&& kv.ready()
                    &&& kv.namespace() == store.namespace()
                    &&& kv.rows() == store.rows()
                    &&& kv.fallible() == store.fallible()
                },
                Err(e) => e matches KyvalError::StoreError(se) && se is BackendInitError,
            },
    {
        let mut s = store;
        match s.initialize() {
            Ok(()) => Ok(Kyval { store: s }),
            Err(e) => Err(KyvalError::StoreError(e)),
        }
    }

    /// Stores `value` under `key` with no expiry, fully replacing any
    /// prior entry, and reports the entry that was overwritten.
    pub fn set(&mut self, key: &str, value: Value) -> (r: Result<Option<StoreModel>, KyvalError>)
        requires
            old(self).inv(),
        ensures
            final(self).inv(),
            final(self).namespace() == old(self).namespace(),
            final(self).ready() == old(self).ready(),
            final(self).fallible() == old(self).fallible(),
            !old(self).ready() ==> r is Err,
            old(self).ready() && !old(self).fallible() ==> r is Ok,
            match r {
                Ok(prev) => {
                    &&& old(self).ready()
                    &&& set_post(
                        old(self).rows(),
                        final(self).rows(),
                        old(self).namespace(),
                        key@,
                        value,
                        None,
                    )
                    &&& prev_post(old(self).rows(), old(self).namespace(), key@, prev)
                },
                Err(e) => {
                    &&& e matches KyvalError::StoreError(se) && (if old(self).ready() {
                        se is BackendIOError
                    } else {
                        se is NotInitialized
                    })
                    &&& (final(self).rows() == old(self).rows() || set_post(
                        old(self).rows(),
                        final(self).rows(),
                        old(self).namespace(),
                        key@,
                        value,
                        None,
                    ))
                },
            },
    {
        let now = now_seconds();
        match self.store.set(key, value, None, now) {
            Ok(prev) => Ok(prev),
            Err(e) => Err(KyvalError::StoreError(e)),
        }
    }

    /// Stores `value` under `key` with a time-to-live in seconds, relative
    /// to the wall clock at the call, fully replacing any prior entry.
    pub fn set_with_ttl(&mut self, key: &str, value: Value, ttl: u64) -> (r: Result<
        Option<StoreModel>,
        KyvalError,
    >)
        requires
            old(self).inv(),
        ensures
            final(self).inv(),
            final(self).namespace() == old(self).namespace(),
            final(self).ready() == old(self).ready(),
            final(self).fallible() == old(self).fallible(),
            !old(self).ready() ==> r is Err,
            old(self).ready() && !old(self).fallible() ==> r is Ok,
            match r {
                Ok(prev) => {
                    &&& old(self).ready()
                    &&& prev_post(old(self).rows(), old(self).namespace(), key@, prev)
                    &&& exists|now: u64|
                        set_post(
                            old(self).rows(),
                            final(self).rows(),
                            old(self).namespace(),
                            key@,
                            value,
                            #[trigger] expiry_of(Some(ttl), now),
                        )
                },
                Err(e) => {
                    &&& e matches KyvalError::StoreError(se) && (if old(self).ready() {
                        se is BackendIOError
                    } else {
                        se is NotInitialized
                    })
                    &&& (final(self).rows() == old(self).rows() || exists|now: u64|
                        set_post(
                            old(self).rows(),
                            final(self).rows(),
                            old(self).namespace(),
                            key@,
                            value,
                            #[trigger] expiry_of(Some(ttl), now),
                        ))
                },
            },
    {
        let now = now_seconds();
        let ghost now_g = now;
        let r = self.store.set(key, value, Some(ttl), now);
        proof {
            if r is Ok {
                assert(set_post(
                    old(self).rows(),
                    self.store.rows(),
                    old(self).namespace(),
                    key@,
                    value,
                    expiry_of(Some(ttl), now_g),
                ));
            } else {
                if self.store.rows() != old(self).rows() {
                    assert(set_post(
                        old(self).rows(),
                        self.store.rows(),
                        old(self).namespace(),
                        key@,
                        value,
                        expiry_of(Some(ttl), now_g),
                    ));
                }
            }
        }
        match r {
            Ok(prev) => Ok(prev),
            Err(e) => Err(KyvalError::StoreError(e)),
        }
    }

    /// The live value under `key` at the wall clock of the call: nothing
    /// when the key is absent or its entry has expired; the stored value,
    /// whatever the clock read, when the entry has no expiry.
    pub fn get(&self, key: &str) -> (r: Result<Option<Value>, KyvalError>)
        requires
            self.inv(),
        ensures
            !self.ready() ==> r is Err,
            self.ready() && !self.fallible() ==> r is Ok,
            match r {
                Ok(v) => {
                    &&& self.ready()
                    &&& exists|now: u64|
                        v == #[trigger] spec_get(self.rows(), self.namespace(), key@, now)
                    &&& !has_row(self.rows(), self.namespace(), key@) ==> v is None
                    &&& (has_row(self.rows(), self.namespace(), key@) && row_at(
                        self.rows(),
                        self.namespace(),
                        key@,
                    ).expires_at is None) ==> v == Some(
                        row_at(self.rows(), self.namespace(), key@).value,
                    )
                },
                Err(e) => e matches KyvalError::StoreError(se) && (if self.ready() {
                    se is BackendIOError
                } else {
                    se is NotInitialized
                }),
            },
    {
        let now = now_seconds();
        let ghost now_g = now;
        let r = self.store.get(key, now);
        proof {
            if r is Ok {
                let v = r->Ok_0;
                assert(v == spec_get(self.rows(), self.namespace(), key@, now_g));
            }
        }
        match r {
            Ok(v) => Ok(v),
            Err(e) => Err(KyvalError::StoreError(e)),
        }
    }

    /// Every live entry of the façade's namespace at the wall clock of the
    /// call, each key at most once, faithfully reported.
    pub fn list(&self) -> (r: Result<Vec<StoreModel>, KyvalError>)
        requires
            self.inv(),
        ensures
            !self.ready() ==> r is Err,
            self.ready() && !self.fallible() ==> r is Ok,
            match r {
                Ok(out) => self.ready() && self.listed_at_some_instant(out@),
                Err(e) => e matches KyvalError::StoreError(se) && (if self.ready() {
                    se is BackendIOError
                } else {
                    se is NotInitialized
                }),
            },
    {
        let now = now_seconds();
        let ghost now_g = now;
        let r = self.store.list(now);
        match r {
            Ok(out) => {
                proof {
                    assert(faithful_listing(
                        self.rows(),
                        self.namespace(),
                        self.listing(now_g),
                        now_g,
                        out@,
                    ));
                    assert(self.listed_at_some_instant(out@));
                }
                Ok(out)
            },
            Err(e) => Err(KyvalError::StoreError(e)),
        }
    }

    /// Deletes the entry for `key`; deleting an absent key succeeds with
    /// no effect.
    pub fn remove(&mut self, key: &str) -> (r: Result<(), KyvalError>)
        requires
            old(self).inv(),
        ensures
            final(self).inv(),
            final(self).namespace() == old(self).namespace(),
            final(self).ready() == old(self).ready(),
            final(self).fallible() == old(self).fallible(),
            !old(self).ready() ==> r is Err,
            old(self).ready() && !old(self).fallible() ==> r is Ok,
            match r {
                Ok(()) => old(self).ready() && remove_post(
                    old(self).rows(),
                    final(self).rows(),
                    old(self).namespace(),
                    key@,
                ),
                Err(e) => {
                    &&& e matches KyvalError::StoreError(se) && (if old(self).ready() {
                        se is BackendIOError
                    } else {
                        se is NotInitialized
                    })
                    &&& (final(self).rows() == old(self).rows() || remove_post(
                        old(self).rows(),
                        final(self).rows(),
                        old(self).namespace(),
                        key@,
                    ))
                },
            },
    {
        match self.store.remove(key) {
            Ok(()) => Ok(()),
            Err(e) => Err(KyvalError::StoreError(e)),
        }
    }

    /// Deletes each key in `keys`; absent keys are not an error, and
    /// atomicity across the batch is not guaranteed: on failure some keys
    /// may be removed and others not, but slots outside the batch are
    /// never touched and a batch slot is only ever emptied, never altered.
    pub fn remove_many(&mut self, keys: &[String]) -> (r: Result<(), KyvalError>)
        requires
            old(self).inv(),
        ensures
            final(self).inv(),
            final(self).namespace() == old(self).namespace(),
            final(self).ready() == old(self).ready(),
            final(self).fallible() == old(self).fallible(),
            !old(self).ready() ==> r is Err,
            old(self).ready() && !old(self).fallible() ==> r is Ok,
            remove_many_frame(
                old(self).rows(),
                final(self).rows(),
                old(self).namespace(),
                key_views(keys@),
            ),
            match r {
                Ok(()) => old(self).ready() && remove_many_post(
                    old(self).rows(),
                    final(self).rows(),
                    old(self).namespace(),
                    key_views(keys@),
                ),
                Err(e) => e matches KyvalError::StoreError(se) && (if old(self).ready() {
                    se is BackendIOError
                } else {
                    se is NotInitialized && final(self).rows() == old(self).rows()
                }),
            },
    {
        match self.store.remove_many(keys) {
            Ok(()) => Ok(()),
            Err(e) => Err(KyvalError::StoreError(e)),
        }
    }

    /// Deletes every entry of the façade's namespace; entries of other
    /// namespaces on the same physical storage are unaffected, even on
    /// failure, and even a failed clear only ever empties slots of its
    /// namespace, never alters or inserts one.
    pub fn clear(&mut self) -> (r: Result<(), KyvalError>)
        requires
            old(self).inv(),
        ensures
            final(self).inv(),
            final(self).namespace() == old(self).namespace(),
            final(self).ready() == old(self).ready(),
            final(self).fallible() == old(self).fallible(),
            !old(self).ready() ==> r is Err,
            old(self).ready() && !old(self).fallible() ==> r is Ok,
            clear_frame(old(self).rows(), final(self).rows(), old(self).namespace()),
            match r {
                Ok(()) => old(self).ready() && clear_post(
                    old(self).rows(),
                    final(self).rows(),
                    old(self).namespace(),
                ),
                Err(e) => e matches KyvalError::StoreError(se) && (if old(self).ready() {
                    se is BackendIOError
                } else {
                    se is NotInitialized && final(self).rows() == old(self).rows()
                }),
            },
    {
        match self.store.clear() {
            Ok(()) => Ok(()),
            Err(e) => Err(KyvalError::StoreError(e)),
        }
    }
}

impl Default for Kyval<InMemoryStore> {
    /// Zero-configuration construction: drives the in-process,
    /// non-persistent backend through the builder and initialization,
    /// under the default namespace. The in-process backend's construction
    /// and initialization cannot fail.
    fn default() -> (r: Kyval<InMemoryStore>)
        ensures
            r.inv(),
            r.ready(),
            !r.fallible(),
            r.rows() == Seq::<RowV>::empty(),
            r.namespace() == "kv_store"@,
    {
        match KyvalStoreBuilder::new().uri(":memory:").build() {
            Ok(mut store) => match store.initialize() {
                Ok(()) => Kyval { store },
                Err(_) => unreached(),
            },
            Err(_) => unreached(),
        }
    }
}

} // verus!
