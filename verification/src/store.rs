use vstd::prelude::*;

use crate::entry::StoreModel;
use crate::error::StoreError;
use crate::model::{
    clear_frame, clear_post, expiry_of, list_post, models_match, prev_post, remove_many_frame,
    remove_many_post, remove_post, set_post, spec_get, key_views, RowV,
};
use serde_json::Value;

verus! {

/// The store capability: the polymorphic contract every backend satisfies.
///
/// A store reads and writes one namespace of a physical storage; `rows`
/// is the state of that whole storage, other namespaces included, so that
/// the contract can say what a store must leave untouched. Reads mask
/// expired entries at the instant `now` handed to them; a backend may
/// suspend on I/O, so any operation may fail with an operation-level error,
/// and every operation before initialization reports that state.
pub trait Store: Sized {
    /// The namespace (table name) this store reads and writes.
    spec fn namespace(&self) -> Seq<char>;

    /// The store's structural invariant.
    spec fn inv(&self) -> bool;

    /// Whether initialization has completed.
    spec fn ready(&self) -> bool;

    /// The rows of the physical storage behind this store, every namespace
    /// included.
    spec fn rows(&self) -> Seq<RowV>;

    /// Whether this backend's operations can fail once it is initialized.
    /// A backend whose operations are total reports false here and then
    /// owes success from every ready state; no operation changes it.
    spec fn fallible(&self) -> bool;

    /// The backend-defined listing of the store's namespace at instant
    /// `now`: a function of the store's state alone, which `list` must
    /// report entry for entry, so repeated listings of an unchanged store
    /// agree, order included.
    spec fn listing(&self, now: u64) -> Seq<RowV>;

    /// Idempotent preparation of the storage: it never changes stored
    /// entries, and must complete before any other operation is valid.
    fn initialize(&mut self) -> (r: Result<(), StoreError>)
        requires
            old(self).inv(),
        ensures
            final(self).inv(),
            final(self).namespace() == old(self).namespace(),
            final(self).rows() == old(self).rows(),
            final(self).fallible() == old(self).fallible(),
            !old(self).fallible() ==> r is Ok,
            match r {
                Ok(()) => final(self).ready(),
                Err(e) => e is BackendInitError && final(self).ready() == old(self).ready(),
            },
    ;

    /// The live value under `key`, or nothing when the key is absent or the
    /// entry found has expired at `now`.
    fn get(&self, key: &str, now: u64) -> (r: Result<Option<Value>, StoreError>)
        requires
            self.inv(),
        ensures
            !self.ready() ==> r is Err,
            self.ready() && !self.fallible() ==> r is Ok,
            match r {
                Ok(v) => self.ready() && v == spec_get(
                    self.rows(),
                    self.namespace(),
                    key@,
                    now,
                ),
                Err(e) => if self.ready() {
                    e is BackendIOError
                } else {
                    e is NotInitialized
                },
            },
    ;

    /// Inserts or fully replaces the entry for `key`; a time-to-live is
    /// converted to the absolute instant `now + ttl`. Returns the entry
    /// that was overwritten, if any. On failure the write either fully
    /// applied or did not apply at all.
    fn set(&mut self, key: &str, value: Value, ttl: Option<u64>, now: u64) -> (r: Result<
        Option<StoreModel>,
        StoreError,
    >)
        requires
            old(self).inv(),
        ensures
            final(self).inv(),
            final(self).namespace() == old(self).namespace(),
            final(self).ready() == old(self).ready(),
            final(self).fallible() == old(self).fallible(),
            !old(self).ready() ==> r is Err,
            old(self).ready() && !old(self).fallible() ==> r is Ok,
            match r {
                Ok(prev) => {
                    &&& old(self).ready()
                    &&& set_post(
                        old(self).rows(),
                        final(self).rows(),
                        old(self).namespace(),
                        key@,
                        value,
                        expiry_of(ttl, now),
                    )
                    &&& prev_post(old(self).rows(), old(self).namespace(), key@, prev)
                },
                Err(e) => {
                    &&& (final(self).rows() == old(self).rows() || set_post(
                        old(self).rows(),
                        final(self).rows(),
                        old(self).namespace(),
                        key@,
                        value,
                        expiry_of(ttl, now),
                    ))
                    &&& if old(self).ready() {
                        e is BackendIOError
                    } else {
                        e is NotInitialized
                    }
                },
            },
    ;

    /// Every live entry of the store's namespace, faithfully reported, each
    /// key at most once, in a backend-defined order.
    fn list(&self, now: u64) -> (r: Result<Vec<StoreModel>, StoreError>)
        requires
            self.inv(),
        ensures
            !self.ready() ==> r is Err,
            self.ready() && !self.fallible() ==> r is Ok,
            match r {
                Ok(out) => self.ready() && list_post(self.rows(), self.namespace(), now, out@)
                    && models_match(self.listing(now), out@),
                Err(e) => if self.ready() {
                    e is BackendIOError
                } else {
                    e is NotInitialized
                },
            },
    ;

    /// Deletes the entry for `key` if present; removing an absent key
    /// succeeds with no effect. On failure the removal either fully applied
    /// or did not apply at all.
    fn remove(&mut self, key: &str) -> (r: Result<(), StoreError>)
        requires
            old(self).inv(),
        ensures
            final(self).inv(),
            final(self).namespace() == old(self).namespace(),
            final(self).ready() == old(self).ready(),
            final(self).fallible() == old(self).fallible(),
            !old(self).ready() ==> r is Err,
            old(self).ready() && !old(self).fallible() ==> r is Ok,
            match r {
                Ok(()) => old(self).ready() && remove_post(
                    old(self).rows(),
                    final(self).rows(),
                    old(self).namespace(),
                    key@,
                ),
                Err(e) => {
                    &&& (final(self).rows() == old(self).rows() || remove_post(
                        old(self).rows(),
                        final(self).rows(),
                        old(self).namespace(),
                        key@,
                    ))
                    &&& if old(self).ready() {
                        e is BackendIOError
                    } else {
                        e is NotInitialized
                    }
                },
            },
    ;

    /// Deletes each key in `keys`; absent keys are not an error. Atomicity
    /// across keys is not guaranteed: on failure some keys may be removed
    /// and others not, but slots outside the batch are never touched and a
    /// batch slot is only ever emptied, never altered.
    fn remove_many(&mut self, keys: &[String]) -> (r: Result<(), StoreError>)
        requires
            old(self).inv(),
        ensures
            final(self).inv(),
            final(self).namespace() == old(self).namespace(),
            final(self).ready() == old(self).ready(),
            final(self).fallible() == old(self).fallible(),
            !old(self).ready() ==> r is Err,
            old(self).ready() && !old(self).fallible() ==> r is Ok,
            remove_many_frame(
                old(self).rows(),
                final(self).rows(),
                old(self).namespace(),
                key_views(keys@),
            ),
            match r {
                Ok(()) => old(self).ready() && remove_many_post(
                    old(self).rows(),
                    final(self).rows(),
                    old(self).namespace(),
                    key_views(keys@),
                ),
                Err(e) => if old(self).ready() {
                    e is BackendIOError
                } else {
                    e is NotInitialized && final(self).rows() == old(self).rows()
                },
            },
    ;

    /// Deletes every entry in the store's namespace; other namespaces of
    /// the same physical storage are unaffected, even on failure, and even
    /// a failed clear only ever empties slots of its namespace, never
    /// alters or inserts one.
    fn clear(&mut self) -> (r: Result<(), StoreError>)
        requires
            old(self).inv(),
        ensures
            final(self).inv(),
            final(self).namespace() == old(self).namespace(),
            final(self).ready() == old(self).ready(),
            final(self).fallible() == old(self).fallible(),
            !old(self).ready() ==> r is Err,
            old(self).ready() && !old(self).fallible() ==> r is Ok,
            clear_frame(old(self).rows(), final(self).rows(), old(self).namespace()),
            match r {
                Ok(()) => old(self).ready() && clear_post(
                    old(self).rows(),
                    final(self).rows(),
                    old(self).namespace(),
                ),
                Err(e) => if old(self).ready() {
                    e is BackendIOError
                } else {
                    e is NotInitialized && final(self).rows() == old(self).rows()
                },
            },
    ;
}

} // verus!
