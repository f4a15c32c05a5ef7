use vstd::prelude::*;

verus! {

/// The unit of storage: one key's stored value plus its optional absolute
/// expiry instant, in seconds since the epoch. An absent `expires_at` means
/// the entry lives until it is explicitly removed. This is a transport
/// record between the façade and a store; equality and ordering are not
/// defined on it.
pub struct StoreModel {
    pub key: String,
    pub value: serde_json::Value,
    pub expires_at: Option<u64>,
}

} // verus!
