use vstd::prelude::*;

verus! {

/// Classifies failures from serialization, backend preparation, backend
/// operations, and use of a store before initialization. Every backend
/// failure is propagated unchanged up to the caller; nothing is retried.
#[derive(Debug)]
pub enum StoreError {
    /// A caller-supplied value could not be converted to the structured wire
    /// form before a write, or a stored value could not be converted back on
    /// read. Carries the underlying codec failure as text.
    SerializationError { message: String },
    /// The concrete backend failed to prepare its storage.
    BackendInitError { message: String },
    /// An operation-level failure from the backend during
    /// get/set/remove/list/clear.
    BackendIOError { message: String },
    /// An operation was attempted before the backend completed initialization.
    NotInitialized,
}

/// The façade's error: every store failure is propagated unchanged.
#[derive(Debug)]
pub enum KyvalError {
    StoreError(StoreError),
}

impl From<StoreError> for KyvalError {
    fn from(e: StoreError) -> (r: KyvalError) {
        KyvalError::StoreError(e)
    }
}

impl vstd::std_specs::convert::FromSpecImpl<StoreError> for KyvalError {
    open spec fn obeys_from_spec() -> bool {
        true
    }

    open spec fn from_spec(e: StoreError) -> KyvalError {
        KyvalError::StoreError(e)
    }
}

} // verus!
