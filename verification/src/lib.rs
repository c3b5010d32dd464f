//! Celerix Store: a hierarchical key-value store addressed by a
//! persona -> app -> key path, with per-persona durable snapshots,
//! a line-oriented wire protocol, and an opt-in client-side
//! encryption envelope for individual values.

use vstd::prelude::*;

pub mod client;
pub mod dict;
mod discovery;
mod errors;
pub mod json;
pub mod memstore;
pub mod persistence;
pub mod router;
mod strutil;
pub mod vault;

pub use dict::Dict;
pub use discovery::{choose_mode, Mode};
pub use errors::Error;
pub use memstore::{MemAppScope, MemStore, MemVaultScope};
pub use persistence::Persistence;
pub use router::{handle_line, LineReply};

use crate::json::str_content;
use crate::memstore::{
    dump_model, hier_insert, hier_remove, lookup, lookup_err, persona_model, persona_wf, AppData,
    Hier, PersonaData,
};
use crate::vault::open_model;

verus! {

/// Reserved persona identifier for global/system-level data.
pub const SYSTEM_PERSONA: &'static str = "_system";

/// The abstract model a store implementation exposes: its hierarchy, its
/// well-formedness, and its persona iteration order.
pub trait StoreModel {
    /// The hierarchy held.
    spec fn model_hier(&self) -> Hier;

    /// Well-formedness of the implementation.
    spec fn model_wf(&self) -> bool;

    /// The iteration order over personas.
    spec fn model_order(&self) -> Seq<Seq<char>>;
}

/// Basic read access to the store.
pub trait KVReader: StoreModel {
    /// Retrieves a value for a specific persona, app, and key.
    fn get(&self, persona_id: &str, app_id: &str, key: &str) -> (r: Result<
        serde_json::Value,
        Error,
    >)
        requires
            self.model_wf(),
        ensures
            match r {
                Ok(v) => lookup(self.model_hier(), persona_id@, app_id@, key@) == Some(v),
                Err(e) => lookup(self.model_hier(), persona_id@, app_id@, key@) is None && e
                    == lookup_err(self.model_hier(), persona_id@, app_id@),
            },
    ;
}

/// Basic write and delete access to the store.
pub trait KVWriter: StoreModel {
    /// Stores a value for a specific persona, app, and key.
    fn set(&mut self, persona_id: &str, app_id: &str, key: &str, value: serde_json::Value) -> (r:
        Result<(), Error>)
        requires
            old(self).model_wf(),
        ensures
            final(self).model_wf(),
            r is Ok,
            final(self).model_hier() == hier_insert(
                old(self).model_hier(),
                persona_id@,
                app_id@,
                key@,
                value,
            ),
    ;

    /// Deletes a key from a specific persona and app; absence is not an
    /// error.
    fn delete(&mut self, persona_id: &str, app_id: &str, key: &str) -> (r: Result<(), Error>)
        requires
            old(self).model_wf(),
        ensures
            final(self).model_wf(),
            r is Ok,
            final(self).model_hier() == hier_remove(
                old(self).model_hier(),
                persona_id@,
                app_id@,
                key@,
            ),
    ;
}

/// Discovery of personas and apps within the store.
pub trait AppEnumeration: StoreModel {
    /// Lists all available persona identifiers, each exactly once.
    fn get_personas(&self) -> (r: Result<Vec<String>, Error>)
        requires
            self.model_wf(),
        ensures
            match r {
                Ok(list) => {
                    &&& list@.map_values(|s: String| s@) == self.model_order()
                    &&& self.model_order().to_set() == self.model_hier().dom()
                    &&& forall|i: int, j: int|
                        0 <= i < j < list@.len() ==> (#[trigger] list@[i])@ != (
                        #[trigger] list@[j])@
                },
                Err(_) => false,
            },
    ;

    /// Lists all app identifiers of a persona, each exactly once; an
    /// absent persona gives an empty list.
    fn get_apps(&self, persona_id: &str) -> (r: Result<Vec<String>, Error>)
        requires
            self.model_wf(),
        ensures
            match r {
                Ok(list) => {
                    &&& (if self.model_hier().contains_key(persona_id@) {
                        list@.map_values(|s: String| s@).to_set() == self.model_hier()[persona_id@]
                            .dom()
                    } else {
                        list@.len() == 0
                    })
                    &&& forall|i: int, j: int|
                        0 <= i < j < list@.len() ==> (#[trigger] list@[i])@ != (
                        #[trigger] list@[j])@
                },
                Err(_) => false,
            },
    ;
}

/// Bulk reads of whole app tables.
pub trait BatchExporter: StoreModel {
    /// Returns a copy of the key -> value table of (persona, app).
    fn get_app_store(&self, persona_id: &str, app_id: &str) -> (r: Result<AppData, Error>)
        requires
            self.model_wf(),
        ensures
            match r {
                Ok(d) => self.model_hier().contains_key(persona_id@) && self.model_hier(
                )[persona_id@].contains_key(app_id@) && d.wf() && d@ == self.model_hier(
                )[persona_id@][app_id@],
                Err(e) => !(self.model_hier().contains_key(persona_id@) && self.model_hier(
                )[persona_id@].contains_key(app_id@)) && e == lookup_err(
                    self.model_hier(),
                    persona_id@,
                    app_id@,
                ),
            },
    ;

    /// Returns, for every persona holding the app, a copy of that app's
    /// key -> value table.
    fn dump_app(&self, app_id: &str) -> (r: Result<PersonaData, Error>)
        requires
            self.model_wf(),
        ensures
            match r {
                Ok(d) => persona_wf(d) && persona_model(d) == dump_model(
                    self.model_hier(),
                    app_id@,
                ),
                Err(_) => false,
            },
    ;
}

/// Search for a key across all personas of one app.
pub trait GlobalSearcher: StoreModel {
    /// Finds a key in the given app, scanning personas in iteration order;
    /// the first hit wins.
    fn get_global(&self, app_id: &str, key: &str) -> (r: Result<(serde_json::Value, String), Error>)
        requires
            self.model_wf(),
        ensures
            match r {
                Ok((v, p)) => exists|i: int|
                    {
                        &&& 0 <= i < self.model_order().len()
                        &&& lookup(self.model_hier(), #[trigger] self.model_order()[i], app_id@, key@)
                            == Some(v)
                        &&& p@ == self.model_order()[i]
                        &&& forall|j: int|
                            0 <= j < i ==> lookup(
                                self.model_hier(),
                                #[trigger] self.model_order()[j],
                                app_id@,
                                key@,
                            ) is None
                    },
                Err(e) => e == Error::KeyNotFound && forall|i: int|
                    0 <= i < self.model_order().len() ==> lookup(
                        self.model_hier(),
                        #[trigger] self.model_order()[i],
                        app_id@,
                        key@,
                    ) is None,
            },
    ;
}

/// Higher-level data movement between personas.
pub trait Orchestrator: StoreModel {
    /// Moves a key from one persona to another within the same app; a
    /// failed move leaves the hierarchy unchanged.
    fn move_key(&mut self, src_persona: &str, dst_persona: &str, app_id: &str, key: &str) -> (r:
        Result<(), Error>)
        requires
            old(self).model_wf(),
        ensures
            final(self).model_wf(),
            match r {
                Ok(_) => lookup(old(self).model_hier(), src_persona@, app_id@, key@) is Some
                    && final(self).model_hier() == hier_insert(
                    hier_remove(old(self).model_hier(), src_persona@, app_id@, key@),
                    dst_persona@,
                    app_id@,
                    key@,
                    lookup(old(self).model_hier(), src_persona@, app_id@, key@).unwrap(),
                ),
                Err(e) => lookup(old(self).model_hier(), src_persona@, app_id@, key@) is None && e
                    == lookup_err(old(self).model_hier(), src_persona@, app_id@)
                    && final(self).model_hier() == old(self).model_hier(),
            },
    ;
}

/// The complete store interface: every capability, and scoped views.
pub trait CelerixStore: KVReader + KVWriter + AppEnumeration + BatchExporter + GlobalSearcher + Orchestrator {
    /// A scope pinning the given persona and app.
    fn app(&self, persona_id: &str, app_id: &str) -> (r: MemAppScope)
        ensures
            r.persona_id@ == persona_id@,
            r.app_id@ == app_id@,
    ;
}

/// Access to the store through a pinned (persona, app) pair.
pub trait AppScope {
    /// The pinned persona identifier.
    spec fn scope_persona(&self) -> Seq<char>;

    /// The pinned app identifier.
    spec fn scope_app(&self) -> Seq<char>;

    /// Retrieves a value from the scoped app.
    fn get(&self, store: &MemStore, key: &str) -> (r: Result<serde_json::Value, Error>)
        requires
            store.wf(),
        ensures
            match r {
                Ok(v) => lookup(store.hier(), self.scope_persona(), self.scope_app(), key@) == Some(
                    v,
                ),
                Err(e) => lookup(store.hier(), self.scope_persona(), self.scope_app(), key@)
                    is None && e == lookup_err(store.hier(), self.scope_persona(), self.scope_app()),
            },
    ;

    /// Stores a value in the scoped app.
    fn set(&self, store: &mut MemStore, key: &str, value: serde_json::Value) -> (r: Result<
        (),
        Error,
    >)
        requires
            old(store).wf(),
        ensures
            final(store).wf(),
            r is Ok,
            final(store).hier() == hier_insert(
                old(store).hier(),
                self.scope_persona(),
                self.scope_app(),
                key@,
                value,
            ),
    ;

    /// Deletes a key from the scoped app.
    fn delete(&self, store: &mut MemStore, key: &str) -> (r: Result<(), Error>)
        requires
            old(store).wf(),
        ensures
            final(store).wf(),
            r is Ok,
            final(store).hier() == hier_remove(
                old(store).hier(),
                self.scope_persona(),
                self.scope_app(),
                key@,
            ),
    ;

    /// A vault over this scope using the given master key.
    fn vault(&self, master_key: &[u8]) -> (r: MemVaultScope)
        ensures
            r.persona_id@ == self.scope_persona(),
            r.app_id@ == self.scope_app(),
            r.master_key@ == master_key@,
    ;
}

/// Client-side encrypted access to one (persona, app) pair of a store.
pub trait VaultScope {
    /// The pinned persona identifier.
    spec fn vault_persona(&self) -> Seq<char>;

    /// The pinned app identifier.
    spec fn vault_app(&self) -> Seq<char>;

    /// The symmetric master key.
    spec fn vault_master_key(&self) -> Seq<u8>;

    /// Retrieves and decrypts a value from the scoped app.
    fn get(&self, store: &MemStore, key: &str) -> (r: Result<String, Error>)
        requires
            store.wf(),
        ensures
            match r {
                Ok(p) => {
                    &&& lookup(store.hier(), self.vault_persona(), self.vault_app(), key@) is Some
                    &&& str_content(
                        lookup(store.hier(), self.vault_persona(), self.vault_app(), key@).unwrap(),
                    ) is Some
                    &&& open_model(
                        str_content(
                            lookup(
                                store.hier(),
                                self.vault_persona(),
                                self.vault_app(),
                                key@,
                            ).unwrap(),
                        ).unwrap(),
                        self.vault_master_key(),
                    ) == Some(p@)
                },
                Err(e) => match lookup(store.hier(), self.vault_persona(), self.vault_app(), key@) {
                    None => e == lookup_err(store.hier(), self.vault_persona(), self.vault_app()),
                    Some(v) => (str_content(v) is None || open_model(
                        str_content(v).unwrap(),
                        self.vault_master_key(),
                    ) is None) && e matches Error::Internal(_),
                },
            },
    ;

    /// Encrypts and stores a plaintext string in the scoped app.
    fn set(&self, store: &mut MemStore, key: &str, plaintext: &str) -> (r: Result<(), Error>)
        requires
            old(store).wf(),
        ensures
            final(store).wf(),
            match r {
                Ok(_) => {
                    &&& self.vault_master_key().len() == 32
                    &&& lookup(
                        final(store).hier(),
                        self.vault_persona(),
                        self.vault_app(),
                        key@,
                    ) is Some
                    &&& final(store).hier() == hier_insert(
                        old(store).hier(),
                        self.vault_persona(),
                        self.vault_app(),
                        key@,
                        lookup(
                            final(store).hier(),
                            self.vault_persona(),
                            self.vault_app(),
                            key@,
                        ).unwrap(),
                    )
                    &&& str_content(
                        lookup(
                            final(store).hier(),
                            self.vault_persona(),
                            self.vault_app(),
                            key@,
                        ).unwrap(),
                    ) is Some
                    &&& open_model(
                        str_content(
                            lookup(
                                final(store).hier(),
                                self.vault_persona(),
                                self.vault_app(),
                                key@,
                            ).unwrap(),
                        ).unwrap(),
                        self.vault_master_key(),
                    ) == Some(plaintext@)
                },
                Err(e) => final(store).hier() == old(store).hier() && e matches Error::Internal(_),
            },
            self.vault_master_key().len() != 32 ==> r is Err,
    ;
}

impl StoreModel for MemStore {
    open spec fn model_hier(&self) -> Hier {
        self.hier()
    }

    open spec fn model_wf(&self) -> bool {
        self.wf()
    }

    open spec fn model_order(&self) -> Seq<Seq<char>> {
        self.persona_order()
    }
}

impl KVReader for MemStore {
    fn get(&self, persona_id: &str, app_id: &str, key: &str) -> (r: Result<
        serde_json::Value,
        Error,
    >) {
        MemStore::get(self, persona_id, app_id, key)
    }
}

impl KVWriter for MemStore {
    fn set(&mut self, persona_id: &str, app_id: &str, key: &str, value: serde_json::Value) -> (r:
        Result<(), Error>) {
        MemStore::set(self, persona_id, app_id, key, value)
    }

    fn delete(&mut self, persona_id: &str, app_id: &str, key: &str) -> (r: Result<(), Error>) {
        MemStore::delete(self, persona_id, app_id, key)
    }
}

impl AppEnumeration for MemStore {
    fn get_personas(&self) -> (r: Result<Vec<String>, Error>) {
        MemStore::get_personas(self)
    }

    fn get_apps(&self, persona_id: &str) -> (r: Result<Vec<String>, Error>) {
        MemStore::get_apps(self, persona_id)
    }
}

impl BatchExporter for MemStore {
    fn get_app_store(&self, persona_id: &str, app_id: &str) -> (r: Result<AppData, Error>) {
        MemStore::get_app_store(self, persona_id, app_id)
    }

    fn dump_app(&self, app_id: &str) -> (r: Result<PersonaData, Error>) {
        MemStore::dump_app(self, app_id)
    }
}

impl GlobalSearcher for MemStore {
    fn get_global(&self, app_id: &str, key: &str) -> (r: Result<
        (serde_json::Value, String),
        Error,
    >) {
        MemStore::get_global(self, app_id, key)
    }
}

impl Orchestrator for MemStore {
    fn move_key(&mut self, src_persona: &str, dst_persona: &str, app_id: &str, key: &str) -> (r:
        Result<(), Error>) {
        MemStore::move_key(self, src_persona, dst_persona, app_id, key)
    }
}

impl CelerixStore for MemStore {
    fn app(&self, persona_id: &str, app_id: &str) -> (r: MemAppScope) {
        MemStore::app(self, persona_id, app_id)
    }
}

impl AppScope for MemAppScope {
    open spec fn scope_persona(&self) -> Seq<char> {
        self.persona_id@
    }

    open spec fn scope_app(&self) -> Seq<char> {
        self.app_id@
    }

    fn get(&self, store: &MemStore, key: &str) -> (r: Result<serde_json::Value, Error>) {
        MemAppScope::get(self, store, key)
    }

    fn set(&self, store: &mut MemStore, key: &str, value: serde_json::Value) -> (r: Result<
        (),
        Error,
    >) {
        MemAppScope::set(self, store, key, value)
    }

    fn delete(&self, store: &mut MemStore, key: &str) -> (r: Result<(), Error>) {
        MemAppScope::delete(self, store, key)
    }

    fn vault(&self, master_key: &[u8]) -> (r: MemVaultScope) {
        MemAppScope::vault(self, master_key)
    }
}

impl VaultScope for MemVaultScope {
    open spec fn vault_persona(&self) -> Seq<char> {
        self.persona_id@
    }

    open spec fn vault_app(&self) -> Seq<char> {
        self.app_id@
    }

    open spec fn vault_master_key(&self) -> Seq<u8> {
        self.master_key@
    }

    fn get(&self, store: &MemStore, key: &str) -> (r: Result<String, Error>) {
        MemVaultScope::get(self, store, key)
    }

    fn set(&self, store: &mut MemStore, key: &str, plaintext: &str) -> (r: Result<(), Error>) {
        MemVaultScope::set(self, store, key, plaintext)
    }
}

} // verus!
