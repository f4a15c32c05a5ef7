use vstd::prelude::*;

pub mod adapter;
mod clock;
mod entry;
mod error;
mod kyval;
mod laws;
mod memory;
mod model;
mod store;
mod values;

pub use entry::StoreModel;
pub use error::{KyvalError, StoreError};
pub use kyval::{faithful_listing, Kyval};
pub use laws::{
    lemma_clear_isolates, lemma_list_stable, lemma_overwrite, lemma_overwrite_no_trace,
    lemma_remove_absent, lemma_remove_idempotent, lemma_remove_many_gone, lemma_set_then_get,
    lemma_ttl_expiry_masks,
};
pub use model::{
    clear_frame, clear_post, expiry_of, has_row, key_listed, key_views, list_entry_ok, list_post,
    listed_key, live_at, live_list, models_match, other_namespaces_unchanged, others_unchanged,
    prev_post, remove_many_frame, remove_many_post, remove_post, row_at, row_matches, set_post,
    slot_unchanged, spec_get, wf_rows, RowV,
};
pub use memory::{InMemoryStore, MemoryBackend};
pub use store::Store;
pub use values::ExValue;

verus! {

/// The namespace used when no table name is configured.
pub const DEFAULT_NAMESPACE_NAME: &'static str = "kv_store";

} // verus!
