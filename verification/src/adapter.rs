use vstd::prelude::*;

use crate::error::StoreError;
use crate::memory::InMemoryStore;
use crate::model::RowV;
use crate::store::Store;

verus! {

/// A staged configuration that accumulates named options before producing
/// a concrete store. Each option may be set repeatedly; the last call
/// wins. `build` is the only fallible step: it reads the connection
/// descriptor, selects the backend it names, and constructs it
/// uninitialized — preparing the storage is the façade constructor's
/// separate, explicit step.
pub struct KyvalStoreBuilder {
    uri: Option<String>,
    table_name: Option<String>,
}

impl KyvalStoreBuilder {
    /// The configured connection descriptor.
    pub closed spec fn uri_spec(&self) -> Option<Seq<char>> {
        match self.uri {
            Some(u) => Some(u@),
            None => None,
        }
    }

    /// The configured namespace (table name).
    pub closed spec fn table_spec(&self) -> Option<Seq<char>> {
        match self.table_name {
            Some(t) => Some(t@),
            None => None,
        }
    }

    /// An empty configuration: no descriptor, no table name.
    pub fn new() -> (r: KyvalStoreBuilder)
        ensures
            r.uri_spec() is None,
            r.table_spec() is None,
    {
        KyvalStoreBuilder { uri: None, table_name: None }
    }

    /// Sets the connection descriptor; the reserved value ":memory:"
    /// selects the in-process, non-persistent backend.
    pub fn uri(self, uri: &str) -> (r: KyvalStoreBuilder)
        ensures
            r.uri_spec() == Some(uri@),
            r.table_spec() == self.table_spec(),
    {
        KyvalStoreBuilder { uri: Some(uri.to_owned()), table_name: self.table_name }
    }

    /// Sets the namespace (table name) the store will live under.
    pub fn table_name(self, table_name: &str) -> (r: KyvalStoreBuilder)
        ensures
            r.table_spec() == Some(table_name@),
            r.uri_spec() == self.uri_spec(),
    {
        KyvalStoreBuilder { uri: self.uri, table_name: Some(table_name.to_owned()) }
    }

    /// Selects and constructs the backend the descriptor names, with an
    /// empty medium and the configured namespace — the default namespace
    /// when none was configured — still uninitialized. A missing or
    /// unrecognized descriptor is a construction failure.
    pub fn build(self) -> (r: Result<InMemoryStore, StoreError>)
        ensures
            match r {
                Ok(store) => {
                    &&& self.uri_spec() == Some(":memory:"@)
                    &&& store.inv()
                    &&& !store.ready()
                    &&& store.rows() == Seq::<RowV>::empty()
                    &&& store.namespace() == match self.table_spec() {
                        Some(t) => t,
                        None => "kv_store"@,
                    }
                },
                Err(e) => e is BackendInitError && self.uri_spec() != Some(":memory:"@),
            },
    {
        let namespace: String = match self.table_name {
            Some(t) => t,
            None => crate::DEFAULT_NAMESPACE_NAME.to_owned(),
        };
        match self.uri {
            Some(u) => {
                let memory_uri: String = ":memory:".to_owned();
                if u == memory_uri {
                    Ok(InMemoryStore::new(namespace))
                } else {
                    Err(
                        StoreError::BackendInitError {
                            message: "unrecognized connection descriptor".to_owned(),
                        },
                    )
                }
            },
            None => Err(
                StoreError::BackendInitError {
                    message: "no connection descriptor was configured".to_owned(),
                },
            ),
        }
    }
}

} // verus!
