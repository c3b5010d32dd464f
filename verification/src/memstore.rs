//! The in-memory engine: the authoritative persona -> app -> key hierarchy.
//! Contracts speak of the hierarchy as a nested `Map` of the key characters
//! to JSON values.

use vstd::prelude::*;

use crate::dict::Dict;
use crate::errors::Error;
use crate::json::{
    clone_value, obj_entries, obj_insert, obj_new, obj_value, obj_view, obj2_view, str_content,
    string_value, value_str,
};
use crate::vault::{decrypt, encrypt, open_model};

verus! {

/// The mathematical model of the whole hierarchy.
pub type Hier = Map<Seq<char>, Map<Seq<char>, Map<Seq<char>, serde_json::Value>>>;

/// One app's key -> value table.
pub type AppData = Dict<serde_json::Value>;

/// One persona's app -> keys tables.
pub type PersonaData = Dict<Dict<serde_json::Value>>;

/// The whole store's persona -> app -> keys tables.
pub type StoreData = Dict<Dict<Dict<serde_json::Value>>>;

/// The model of one persona's data.
pub open spec fn persona_model(p: PersonaData) -> Map<Seq<char>, Map<Seq<char>, serde_json::Value>> {
    p@.map_values(|a: AppData| a@)
}

/// The model of a whole store's data.
pub open spec fn store_model(d: StoreData) -> Hier {
    d@.map_values(|p: PersonaData| persona_model(p))
}

/// Well-formedness of one persona's data: the dictionaries at both levels
/// are well formed.
pub open spec fn persona_wf(p: PersonaData) -> bool {
    &&& p.wf()
    &&& forall|a: Seq<char>| p@.contains_key(a) ==> (#[trigger] p@[a]).wf()
}

/// Well-formedness of a whole store's data.
pub open spec fn store_data_wf(d: StoreData) -> bool {
    &&& d.wf()
    &&& forall|p: Seq<char>| d@.contains_key(p) ==> persona_wf(#[trigger] d@[p])
}

/// The value at (persona, app, key), if all three levels exist.
pub open spec fn lookup(h: Hier, p: Seq<char>, a: Seq<char>, k: Seq<char>) -> Option<
    serde_json::Value,
> {
    if h.contains_key(p) && h[p].contains_key(a) && h[p][a].contains_key(k) {
        Some(h[p][a][k])
    } else {
        None
    }
}

/// The lookup miss reported for (persona, app, key), checked in hierarchy
/// order.
pub open spec fn lookup_err(h: Hier, p: Seq<char>, a: Seq<char>) -> Error {
    if !h.contains_key(p) {
        Error::PersonaNotFound
    } else if !h[p].contains_key(a) {
        Error::AppNotFound
    } else {
        Error::KeyNotFound
    }
}

/// The hierarchy after an upsert at (persona, app, key), creating the
/// intermediate containers as needed.
pub open spec fn hier_insert(
    h: Hier,
    p: Seq<char>,
    a: Seq<char>,
    k: Seq<char>,
    v: serde_json::Value,
) -> Hier {
    let pm = if h.contains_key(p) {
        h[p]
    } else {
        Map::empty()
    };
    let am = if pm.contains_key(a) {
        pm[a]
    } else {
        Map::empty()
    };
    h.insert(p, pm.insert(a, am.insert(k, v)))
}

/// The hierarchy after deleting (persona, app, key); absence at any level
/// leaves it unchanged.
pub open spec fn hier_remove(h: Hier, p: Seq<char>, a: Seq<char>, k: Seq<char>) -> Hier {
    if h.contains_key(p) && h[p].contains_key(a) {
        h.insert(p, h[p].insert(a, h[p][a].remove(k)))
    } else {
        h
    }
}

/// The in-memory store engine.
pub struct MemStore {
    data: StoreData,
}

impl MemStore {
    /// Well-formedness, established by `new` and preserved by every method.
    pub closed spec fn wf(&self) -> bool {
        store_data_wf(self.data)
    }

    /// The hierarchy the store holds.
    pub closed spec fn hier(&self) -> Hier {
        store_model(self.data)
    }

    /// The iteration order over personas.
    pub closed spec fn persona_order(&self) -> Seq<Seq<char>> {
        self.data.key_seq()
    }

    /// A store holding the given initial hierarchy.
    pub fn new(initial_data: StoreData) -> (s: Self)
        requires
            store_data_wf(initial_data),
        ensures
            s.wf(),
            s.hier() == store_model(initial_data),
    {
        MemStore { data: initial_data }
    }

    /// Retrieves the value at (persona, app, key); misses are reported in
    /// hierarchy order.
    pub fn get(&self, persona_id: &str, app_id: &str, key: &str) -> (r: Result<
        serde_json::Value,
        Error,
    >)
        requires
            self.wf(),
        ensures
            match r {
                Ok(v) => lookup(self.hier(), persona_id@, app_id@, key@) == Some(v),
                Err(e) => lookup(self.hier(), persona_id@, app_id@, key@) is None && e
                    == lookup_err(self.hier(), persona_id@, app_id@),
            },
    {
        match self.data.get(persona_id) {
            None => Err(Error::PersonaNotFound),
            Some(persona) => match persona.get(app_id) {
                None => Err(Error::AppNotFound),
                Some(app) => match app.get(key) {
                    None => Err(Error::KeyNotFound),
                    Some(v) => Ok(clone_value(v)),
                },
            },
        }
    }

    /// Upserts the value at (persona, app, key), creating the intermediate
    /// containers as needed.  Always succeeds.
    pub fn set(&mut self, persona_id: &str, app_id: &str, key: &str, value: serde_json::Value) -> (r:
        Result<(), Error>)
        requires
            old(self).wf(),
        ensures
            final(self).wf(),
            r is Ok,
            final(self).hier() == hier_insert(
                old(self).hier(),
                persona_id@,
                app_id@,
                key@,
                value,
            ),
    {
        let mut persona: PersonaData = match self.data.take(persona_id) {
            Some(p) => p,
            None => Dict::new(),
        };
        let mut app: AppData = match persona.take(app_id) {
            Some(a) => a,
            None => Dict::new(),
        };
        app.insert(key.to_owned(), value);
        persona.insert(app_id.to_owned(), app);
        self.data.insert(persona_id.to_owned(), persona);
        proof {
            let h = old(self).hier();
            let d0 = old(self).data@;
            let d1 = self.data@;
            assert(d1 =~= d0.insert(persona_id@, self.data@[persona_id@]));
            assert(final(self).hier() =~~= hier_insert(h, persona_id@, app_id@, key@, value));
        }
        Ok(())
    }

    /// Deletes the key if present; absence at any level is not an error.
    pub fn delete(&mut self, persona_id: &str, app_id: &str, key: &str) -> (r: Result<(), Error>)
        requires
            old(self).wf(),
        ensures
            final(self).wf(),
            r is Ok,
            final(self).hier() == hier_remove(old(self).hier(), persona_id@, app_id@, key@),
    {
        match self.data.take(persona_id) {
            None => {
                proof {
                    assert(self.data@ =~= old(self).data@);
                    assert(final(self).hier() =~~= hier_remove(
                        old(self).hier(),
                        persona_id@,
                        app_id@,
                        key@,
                    ));
                }
                Ok(())
            },
            Some(mut persona) => {
                match persona.take(app_id) {
                    None => {
                        self.data.insert(persona_id.to_owned(), persona);
                        proof {
                            assert(persona@ =~= old(self).data@[persona_id@]@);
                            assert(persona_model(self.data@[persona_id@]) =~~= persona_model(
                                old(self).data@[persona_id@],
                            ));
                            assert(final(self).hier() =~~= hier_remove(
                                old(self).hier(),
                                persona_id@,
                                app_id@,
                                key@,
                            ));
                        }
                        Ok(())
                    },
                    Some(mut app) => {
                        let _ = app.take(key);
                        persona.insert(app_id.to_owned(), app);
                        self.data.insert(persona_id.to_owned(), persona);
                        proof {
                            assert(self.data@ =~= old(self).data@.insert(
                                persona_id@,
                                self.data@[persona_id@],
                            ));
                            assert(final(self).hier() =~~= hier_remove(
                                old(self).hier(),
                                persona_id@,
                                app_id@,
                                key@,
                            ));
                        }
                        Ok(())
                    },
                }
            },
        }
    }

    /// Lists all persona identifiers, in iteration order: each persona of
    /// the hierarchy exactly once.
    pub fn get_personas(&self) -> (r: Result<Vec<String>, Error>)
        requires
            self.wf(),
        ensures
            match r {
                Ok(list) => {
                    &&& list@.map_values(|s: String| s@) == self.persona_order()
                    &&& self.persona_order().to_set() == self.hier().dom()
                    &&& forall|i: int, j: int|
                        0 <= i < j < list@.len() ==> (#[trigger] list@[i])@ != (
                        #[trigger] list@[j])@
                },
                Err(_) => false,
            },
    {
        proof {
            self.data.lemma_key_facts();
            assert(self.hier().dom() =~= self.data@.dom());
        }
        let list = self.data.keys();
        proof {
            assert forall|i: int, j: int| 0 <= i < j < list@.len() implies (#[trigger] list@[i])@
                != (#[trigger] list@[j])@ by {
                assert(list@.map_values(|s: String| s@)[i] == list@[i]@);
                assert(list@.map_values(|s: String| s@)[j] == list@[j]@);
                assert(self.data.key_seq()[i] != self.data.key_seq()[j]);
            }
        }
        Ok(list)
    }

    /// Lists the app identifiers of a persona, each exactly once; an absent
    /// persona gives an empty list, not an error.
    pub fn get_apps(&self, persona_id: &str) -> (r: Result<Vec<String>, Error>)
        requires
            self.wf(),
        ensures
            match r {
                Ok(list) => {
                    &&& (if self.hier().contains_key(persona_id@) {
                        list@.map_values(|s: String| s@).to_set() == self.hier()[persona_id@].dom()
                    } else {
                        list@.len() == 0
                    })
                    &&& forall|i: int, j: int|
                        0 <= i < j < list@.len() ==> (#[trigger] list@[i])@ != (
                        #[trigger] list@[j])@
                },
                Err(_) => false,
            },
    {
        match self.data.get(persona_id) {
            Some(persona) => {
                let keys = persona.keys();
                proof {
                    persona.lemma_key_facts();
                    assert(self.hier()[persona_id@].dom() =~= persona@.dom());
                    assert(keys@.map_values(|s: String| s@).to_set() == persona.key_seq().to_set());
                    assert forall|i: int, j: int| 0 <= i < j < keys@.len() implies (
                    #[trigger] keys@[i])@ != (#[trigger] keys@[j])@ by {
                        assert(keys@.map_values(|s: String| s@)[i] == keys@[i]@);
                        assert(keys@.map_values(|s: String| s@)[j] == keys@[j]@);
                        assert(persona.key_seq()[i] != persona.key_seq()[j]);
                    }
                }
                Ok(keys)
            },
            None => Ok(Vec::new()),
        }
    }

    /// Returns a copy of the key -> value table of (persona, app).
    pub fn get_app_store(&self, persona_id: &str, app_id: &str) -> (r: Result<AppData, Error>)
        requires
            self.wf(),
        ensures
            match r {
                Ok(d) => self.hier().contains_key(persona_id@) && self.hier()[persona_id@]
                    .contains_key(app_id@) && d.wf() && d@ == self.hier()[persona_id@][app_id@],
                Err(e) => !(self.hier().contains_key(persona_id@) && self.hier()[persona_id@]
                    .contains_key(app_id@)) && e == lookup_err(self.hier(), persona_id@, app_id@),
            },
    {
        match self.data.get(persona_id) {
            None => Err(Error::PersonaNotFound),
            Some(persona) => match persona.get(app_id) {
                None => Err(Error::AppNotFound),
                Some(app) => Ok(clone_app(app)),
            },
        }
    }

    /// Returns, for every persona holding the app, a copy of that app's
    /// key -> value table.
    pub fn dump_app(&self, app_id: &str) -> (r: Result<PersonaData, Error>)
        requires
            self.wf(),
        ensures
            match r {
                Ok(d) => persona_wf(d) && persona_model(d) == dump_model(self.hier(), app_id@),
                Err(_) => false,
            },
    {
        let ghost h = self.hier();
        proof {
            self.data.lemma_key_facts();
        }
        let n = self.data.len();
        let mut out: PersonaData = Dict::new();
        let mut i: usize = 0;
        while i < n
            invariant
                self.wf(),
                h == self.hier(),
                n == self.persona_order().len(),
                i <= n,
                self.persona_order().to_set() == self.data@.dom(),
                forall|x: int, y: int|
                    0 <= x < y < n ==> self.persona_order()[x] != self.persona_order()[y],
                forall|x: int|
                    0 <= x < n ==> #[trigger] self.data@.contains_key(self.persona_order()[x]),
                persona_wf(out),
                forall|q: Seq<char>| #[trigger]
                    out@.contains_key(q) ==> h.contains_key(q) && h[q].contains_key(app_id@)
                        && out@[q]@ == h[q][app_id@],
                forall|j: int|
                    0 <= j < i && h[self.persona_order()[j]].contains_key(app_id@)
                        ==> #[trigger] out@.contains_key(self.persona_order()[j]),
            decreases n - i,
        {
            let p = self.data.key_at(i);
            let persona = self.data.val_at(i);
            match persona.get(app_id) {
                Some(app) => {
                    proof {
                        assert(h[p@] == persona_model(self.data@[p@]));
                    }
                    out.insert(p.clone(), clone_app(app));
                },
                None => {
                },
            }
            i = i + 1;
        }
        proof {
            assert forall|q: Seq<char>| #[trigger]
                dump_model(h, app_id@).contains_key(q) implies out@.contains_key(q) by {
                assert(self.data@.contains_key(q));
                assert(self.persona_order().to_set().contains(q));
                let j = choose|j: int|
                    0 <= j < self.persona_order().len() && self.persona_order()[j] == q;
                assert(h[self.persona_order()[j]].contains_key(app_id@));
            }
            assert(persona_model(out) =~~= dump_model(h, app_id@));
        }
        Ok(out)
    }

    /// Finds a key in the given app across all personas, in persona
    /// iteration order; the first hit wins.
    pub fn get_global(&self, app_id: &str, key: &str) -> (r: Result<
        (serde_json::Value, String),
        Error,
    >)
        requires
            self.wf(),
        ensures
            match r {
                Ok((v, p)) => exists|i: int|
                    {
                        &&& 0 <= i < self.persona_order().len()
                        &&& lookup(self.hier(), #[trigger] self.persona_order()[i], app_id@, key@)
                            == Some(v)
                        &&& p@ == self.persona_order()[i]
                        &&& forall|j: int|
                            0 <= j < i ==> lookup(
                                self.hier(),
                                #[trigger] self.persona_order()[j],
                                app_id@,
                                key@,
                            ) is None
                    },
                Err(e) => e == Error::KeyNotFound && forall|i: int|
                    0 <= i < self.persona_order().len() ==> lookup(
                        self.hier(),
                        #[trigger] self.persona_order()[i],
                        app_id@,
                        key@,
                    ) is None,
            },
    {
        let ghost h = self.hier();
        proof {
            self.data.lemma_key_facts();
        }
        let n = self.data.len();
        let mut i: usize = 0;
        while i < n
            invariant
                self.wf(),
                h == self.hier(),
                n == self.persona_order().len(),
                i <= n,
                forall|x: int|
                    0 <= x < n ==> #[trigger] self.data@.contains_key(self.persona_order()[x]),
                forall|j: int|
                    0 <= j < i ==> lookup(
                        h,
                        #[trigger] self.persona_order()[j],
                        app_id@,
                        key@,
                    ) is None,
            decreases n - i,
        {
            let persona = self.data.val_at(i);
            proof {
                assert(h[self.persona_order()[i as int]] == persona_model(
                    self.data@[self.persona_order()[i as int]],
                ));
            }
            match persona.get(app_id) {
                Some(app) => {
                    match app.get(key) {
                        Some(v) => {
                            let p = self.data.key_at(i);
                            return Ok((clone_value(v), p.clone()));
                        },
                        None => {
                        },
                    }
                },
                None => {
                },
            }
            i = i + 1;
        }
        Err(Error::KeyNotFound)
    }

    /// Moves a key from one persona to another within the same app; a
    /// failed move leaves the hierarchy unchanged.
    pub fn move_key(&mut self, src_persona: &str, dst_persona: &str, app_id: &str, key: &str) -> (r:
        Result<(), Error>)
        requires
            old(self).wf(),
        ensures
            final(self).wf(),
            match r {
                Ok(_) => lookup(old(self).hier(), src_persona@, app_id@, key@) is Some
                    && final(self).hier() == hier_insert(
                    hier_remove(old(self).hier(), src_persona@, app_id@, key@),
                    dst_persona@,
                    app_id@,
                    key@,
                    lookup(old(self).hier(), src_persona@, app_id@, key@).unwrap(),
                ),
                Err(e) => lookup(old(self).hier(), src_persona@, app_id@, key@) is None && e
                    == lookup_err(old(self).hier(), src_persona@, app_id@) && final(self).hier()
                    == old(self).hier(),
            },
    {
        let mut persona: PersonaData = match self.data.take(src_persona) {
            Some(p) => p,
            None => {
                proof {
                    assert(self.data@ =~= old(self).data@);
                    assert(final(self).hier() =~~= old(self).hier());
                }
                return Err(Error::PersonaNotFound);
            },
        };
        let mut app: AppData = match persona.take(app_id) {
            Some(a) => a,
            None => {
                self.data.insert(src_persona.to_owned(), persona);
                proof {
                    assert(persona@ =~= old(self).data@[src_persona@]@);
                    assert(persona_model(self.data@[src_persona@]) =~~= persona_model(
                        old(self).data@[src_persona@],
                    ));
                    assert(final(self).hier() =~~= old(self).hier());
                }
                return Err(Error::AppNotFound);
            },
        };
        let value: serde_json::Value = match app.take(key) {
            Some(v) => v,
            None => {
                persona.insert(app_id.to_owned(), app);
                self.data.insert(src_persona.to_owned(), persona);
                proof {
                    let oldpersona = old(self).data@[src_persona@];
                    let oldapp = oldpersona@[app_id@];
                    assert(app@ =~= oldapp@);
                    assert(persona_model(self.data@[src_persona@]) =~~= persona_model(oldpersona));
                    assert(final(self).hier() =~~= old(self).hier());
                }
                return Err(Error::KeyNotFound);
            },
        };
        persona.insert(app_id.to_owned(), app);
        self.data.insert(src_persona.to_owned(), persona);
        proof {
            assert(self.data@ =~= old(self).data@.insert(src_persona@, self.data@[src_persona@]));
            assert(self.hier() =~~= hier_remove(old(self).hier(), src_persona@, app_id@, key@));
        }
        let _ = self.set(dst_persona, app_id, key, value);
        Ok(())
    }

    /// A snapshot of one persona's data, taken for asynchronous
    /// persistence; `None` if the persona is absent.
    pub fn copy_persona_data(&self, persona_id: &str) -> (r: Option<PersonaData>)
        requires
            self.wf(),
        ensures
            match r {
                Some(d) => self.hier().contains_key(persona_id@) && persona_wf(d) && persona_model(
                    d,
                ) == self.hier()[persona_id@],
                None => !self.hier().contains_key(persona_id@),
            },
    {
        match self.data.get(persona_id) {
            Some(persona) => Some(clone_persona(persona)),
            None => None,
        }
    }
}

/// The per-persona view of an app dump: every persona that holds the app,
/// mapped to that app's table.
pub open spec fn dump_model(h: Hier, a: Seq<char>) -> Map<
    Seq<char>,
    Map<Seq<char>, serde_json::Value>,
> {
    Map::new(|p: Seq<char>| h.contains_key(p) && h[p].contains_key(a), |p: Seq<char>| h[p][a])
}

/// A copy of one app's table, equal entry for entry.
pub fn clone_app(d: &AppData) -> (r: AppData)
    requires
        d.wf(),
    ensures
        r.wf(),
        r@ == d@,
{
    proof {
        d.lemma_key_facts();
    }
    let n = d.len();
    let mut r: AppData = Dict::new();
    let mut i: usize = 0;
    while i < n
        invariant
            d.wf(),
            n == d.key_seq().len(),
            i <= n,
            d.key_seq().to_set() == d@.dom(),
            forall|x: int, y: int| 0 <= x < y < n ==> d.key_seq()[x] != d.key_seq()[y],
            forall|x: int| 0 <= x < n ==> #[trigger] d@.contains_key(d.key_seq()[x]),
            r.wf(),
            forall|j: int| 0 <= j < i ==> #[trigger] r@.contains_key(d.key_seq()[j]),
            forall|k: Seq<char>| #[trigger]
                r@.contains_key(k) ==> d@.contains_key(k) && r@[k] == d@[k] && exists|j: int|
                    0 <= j < i && d.key_seq()[j] == k,
        decreases n - i,
    {
        let k = d.key_at(i);
        let v = d.val_at(i);
        r.insert(k.clone(), clone_value(v));
        i = i + 1;
    }
    proof {
        assert forall|k: Seq<char>| #[trigger] d@.contains_key(k) implies r@.contains_key(k) by {
            assert(d.key_seq().to_set().contains(k));
            let j = choose|j: int| 0 <= j < d.key_seq().len() && d.key_seq()[j] == k;
            assert(r@.contains_key(d.key_seq()[j]));
        }
        assert(r@ =~= d@);
    }
    r
}

/// A copy of one persona's data, equal app for app.
pub fn clone_persona(d: &PersonaData) -> (r: PersonaData)
    requires
        persona_wf(*d),
    ensures
        persona_wf(r),
        persona_model(r) == persona_model(*d),
{
    proof {
        d.lemma_key_facts();
    }
    let n = d.len();
    let mut r: PersonaData = Dict::new();
    let mut i: usize = 0;
    while i < n
        invariant
            persona_wf(*d),
            n == d.key_seq().len(),
            i <= n,
            d.key_seq().to_set() == d@.dom(),
            forall|x: int, y: int| 0 <= x < y < n ==> d.key_seq()[x] != d.key_seq()[y],
            forall|x: int| 0 <= x < n ==> #[trigger] d@.contains_key(d.key_seq()[x]),
            persona_wf(r),
            forall|j: int| 0 <= j < i ==> #[trigger] r@.contains_key(d.key_seq()[j]),
            forall|k: Seq<char>| #[trigger]
                r@.contains_key(k) ==> d@.contains_key(k) && r@[k]@ == d@[k]@ && exists|j: int|
                    0 <= j < i && d.key_seq()[j] == k,
        decreases n - i,
    {
        let k = d.key_at(i);
        let v = d.val_at(i);
        r.insert(k.clone(), clone_app(v));
        i = i + 1;
    }
    proof {
        assert forall|k: Seq<char>| #[trigger] d@.contains_key(k) implies r@.contains_key(k) by {
            assert(d.key_seq().to_set().contains(k));
            let j = choose|j: int| 0 <= j < d.key_seq().len() && d.key_seq()[j] == k;
            assert(r@.contains_key(d.key_seq()[j]));
        }
        assert(persona_model(r) =~~= persona_model(*d));
    }
    r
}

/// A view pinning a (persona, app) pair; operations take the store they
/// address.
pub struct MemAppScope {
    /// The pinned persona identifier.
    pub persona_id: String,
    /// The pinned app identifier.
    pub app_id: String,
}

impl MemStore {
    /// A scope pinning the given persona and app.
    pub fn app(&self, persona_id: &str, app_id: &str) -> (r: MemAppScope)
        ensures
            r.persona_id@ == persona_id@,
            r.app_id@ == app_id@,
    {
        MemAppScope { persona_id: persona_id.to_owned(), app_id: app_id.to_owned() }
    }
}

impl MemAppScope {
    /// Retrieves a value from the scoped app.
    pub fn get(&self, store: &MemStore, key: &str) -> (r: Result<serde_json::Value, Error>)
        requires
            store.wf(),
        ensures
            match r {
                Ok(v) => lookup(store.hier(), self.persona_id@, self.app_id@, key@) == Some(v),
                Err(e) => lookup(store.hier(), self.persona_id@, self.app_id@, key@) is None && e
                    == lookup_err(store.hier(), self.persona_id@, self.app_id@),
            },
    {
        store.get(self.persona_id.as_str(), self.app_id.as_str(), key)
    }

    /// Stores a value in the scoped app.
    pub fn set(&self, store: &mut MemStore, key: &str, value: serde_json::Value) -> (r: Result<
        (),
        Error,
    >)
        requires
            old(store).wf(),
        ensures
            final(store).wf(),
            r is Ok,
            final(store).hier() == hier_insert(
                old(store).hier(),
                self.persona_id@,
                self.app_id@,
                key@,
                value,
            ),
    {
        store.set(self.persona_id.as_str(), self.app_id.as_str(), key, value)
    }

    /// Deletes a key from the scoped app.
    pub fn delete(&self, store: &mut MemStore, key: &str) -> (r: Result<(), Error>)
        requires
            old(store).wf(),
        ensures
            final(store).wf(),
            r is Ok,
            final(store).hier() == hier_remove(
                old(store).hier(),
                self.persona_id@,
                self.app_id@,
                key@,
            ),
    {
        store.delete(self.persona_id.as_str(), self.app_id.as_str(), key)
    }

    /// A vault over this scope using the given master key.
    pub fn vault(&self, master_key: &[u8]) -> (r: MemVaultScope)
        ensures
            r.persona_id@ == self.persona_id@,
            r.app_id@ == self.app_id@,
            r.master_key@ == master_key@,
    {
        MemVaultScope {
            persona_id: self.persona_id.clone(),
            app_id: self.app_id.clone(),
            master_key: vstd::slice::slice_to_vec(master_key),
        }
    }
}

/// A scope that seals values before writing and opens them after reading.
pub struct MemVaultScope {
    /// The pinned persona identifier.
    pub persona_id: String,
    /// The pinned app identifier.
    pub app_id: String,
    /// The symmetric master key.
    pub master_key: Vec<u8>,
}

impl MemVaultScope {
    /// Retrieves and decrypts a value from the scoped app.
    pub fn get(&self, store: &MemStore, key: &str) -> (r: Result<String, Error>)
        requires
            store.wf(),
        ensures
            match r {
                Ok(p) => {
                    &&& lookup(store.hier(), self.persona_id@, self.app_id@, key@) is Some
                    &&& str_content(
                        lookup(store.hier(), self.persona_id@, self.app_id@, key@).unwrap(),
                    ) is Some
                    &&& open_model(
                        str_content(
                            lookup(store.hier(), self.persona_id@, self.app_id@, key@).unwrap(),
                        ).unwrap(),
                        self.master_key@,
                    ) == Some(p@)
                },
                Err(e) => match lookup(store.hier(), self.persona_id@, self.app_id@, key@) {
                    None => e == lookup_err(store.hier(), self.persona_id@, self.app_id@),
                    Some(v) => (str_content(v) is None || open_model(
                        str_content(v).unwrap(),
                        self.master_key@,
                    ) is None) && e matches Error::Internal(_),
                },
            },
    {
        let val = match self.scope().get(store, key) {
            Ok(v) => v,
            Err(e) => {
                return Err(e);
            },
        };
        let cipher_hex = match value_str(&val) {
            Some(s) => s,
            None => {
                return Err(Error::Internal("vault data is not a string".to_owned()));
            },
        };
        decrypt(cipher_hex, self.master_key.as_slice())
    }

    /// Encrypts and stores a plaintext string in the scoped app.
    pub fn set(&self, store: &mut MemStore, key: &str, plaintext: &str) -> (r: Result<(), Error>)
        requires
            old(store).wf(),
        ensures
            final(store).wf(),
            match r {
                Ok(_) => {
                    &&& self.master_key@.len() == 32
                    &&& lookup(final(store).hier(), self.persona_id@, self.app_id@, key@) is Some
                    &&& final(store).hier() == hier_insert(
                        old(store).hier(),
                        self.persona_id@,
                        self.app_id@,
                        key@,
                        lookup(final(store).hier(), self.persona_id@, self.app_id@, key@).unwrap(),
                    )
                    &&& str_content(
                        lookup(final(store).hier(), self.persona_id@, self.app_id@, key@).unwrap(),
                    ) is Some
                    &&& open_model(
                        str_content(
                            lookup(
                                final(store).hier(),
                                self.persona_id@,
                                self.app_id@,
                                key@,
                            ).unwrap(),
                        ).unwrap(),
                        self.master_key@,
                    ) == Some(plaintext@)
                },
                Err(e) => final(store).hier() == old(store).hier() && e matches Error::Internal(_),
            },
            self.master_key@.len() != 32 ==> r is Err,
    {
        let cipher_hex = match encrypt(plaintext, self.master_key.as_slice()) {
            Ok(s) => s,
            Err(e) => {
                return Err(e);
            },
        };
        let value = string_value(cipher_hex);
        let r = self.scope().set(store, key, value);
        proof {
            assert(lookup(final(store).hier(), self.persona_id@, self.app_id@, key@) == Some(
                value,
            ));
        }
        r
    }

    fn scope(&self) -> (r: MemAppScope)
        ensures
            r.persona_id@ == self.persona_id@,
            r.app_id@ == self.app_id@,
    {
        MemAppScope { persona_id: self.persona_id.clone(), app_id: self.app_id.clone() }
    }
}

/// A JSON object value holding one app's table.
pub fn app_data_value(d: &AppData) -> (r: serde_json::Value)
    requires
        d.wf(),
    ensures
        obj_view(r) == Some(d@),
{
    proof {
        d.lemma_key_facts();
    }
    let n = d.len();
    let mut m = obj_new();
    let mut i: usize = 0;
    while i < n
        invariant
            d.wf(),
            n == d.key_seq().len(),
            i <= n,
            d.key_seq().to_set() == d@.dom(),
            forall|x: int, y: int| 0 <= x < y < n ==> d.key_seq()[x] != d.key_seq()[y],
            forall|x: int| 0 <= x < n ==> #[trigger] d@.contains_key(d.key_seq()[x]),
            forall|j: int| 0 <= j < i ==> #[trigger] obj_entries(m).contains_key(d.key_seq()[j]),
            forall|k: Seq<char>| #[trigger]
                obj_entries(m).contains_key(k) ==> d@.contains_key(k) && obj_entries(m)[k] == d@[k]
                    && exists|j: int| 0 <= j < i && d.key_seq()[j] == k,
        decreases n - i,
    {
        let k = d.key_at(i);
        let v = d.val_at(i);
        obj_insert(&mut m, k.clone(), clone_value(v));
        i = i + 1;
    }
    proof {
        assert forall|k: Seq<char>| #[trigger] d@.contains_key(k) implies obj_entries(
            m,
        ).contains_key(k) by {
            assert(d.key_seq().to_set().contains(k));
            let j = choose|j: int| 0 <= j < d.key_seq().len() && d.key_seq()[j] == k;
            assert(obj_entries(m).contains_key(d.key_seq()[j]));
        }
        assert(obj_entries(m) =~= d@);
    }
    obj_value(m)
}

/// A JSON object value holding one app's tables across personas, persona by
/// persona.
pub fn persona_data_value(d: &PersonaData) -> (r: serde_json::Value)
    requires
        persona_wf(*d),
    ensures
        obj2_view(r) == Some(persona_model(*d)),
{
    proof {
        d.lemma_key_facts();
    }
    let n = d.len();
    let mut m = obj_new();
    let mut i: usize = 0;
    while i < n
        invariant
            persona_wf(*d),
            n == d.key_seq().len(),
            i <= n,
            d.key_seq().to_set() == d@.dom(),
            forall|x: int, y: int| 0 <= x < y < n ==> d.key_seq()[x] != d.key_seq()[y],
            forall|x: int| 0 <= x < n ==> #[trigger] d@.contains_key(d.key_seq()[x]),
            forall|j: int| 0 <= j < i ==> #[trigger] obj_entries(m).contains_key(d.key_seq()[j]),
            forall|k: Seq<char>| #[trigger]
                obj_entries(m).contains_key(k) ==> d@.contains_key(k) && obj_view(obj_entries(m)[k])
                    == Some(d@[k]@) && exists|j: int| 0 <= j < i && d.key_seq()[j] == k,
        decreases n - i,
    {
        let k = d.key_at(i);
        let v = d.val_at(i);
        obj_insert(&mut m, k.clone(), app_data_value(v));
        i = i + 1;
    }
    proof {
        assert forall|k: Seq<char>| #[trigger] d@.contains_key(k) implies obj_entries(
            m,
        ).contains_key(k) by {
            assert(d.key_seq().to_set().contains(k));
            let j = choose|j: int| 0 <= j < d.key_seq().len() && d.key_seq()[j] == k;
            assert(obj_entries(m).contains_key(d.key_seq()[j]));
        }
    }
    let r = obj_value(m);
    proof {
        let e = obj_entries(m);
        assert(forall|k: Seq<char>| e.contains_key(k) ==> obj_view(#[trigger] e[k]) is Some);
        assert(e.map_values(|x: serde_json::Value| obj_view(x).unwrap()) =~~= persona_model(*d));
    }
    r
}

/// Law: writing then reading the same coordinates returns exactly the
/// value written.
pub proof fn lemma_write_then_read(
    h: Hier,
    p: Seq<char>,
    a: Seq<char>,
    k: Seq<char>,
    v: serde_json::Value,
)
    ensures
        lookup(hier_insert(h, p, a, k, v), p, a, k) == Some(v),
{
}

/// Law: deleting twice is the same as deleting once, and deleting an
/// absent key leaves the hierarchy unchanged.
pub proof fn lemma_delete_idempotent(h: Hier, p: Seq<char>, a: Seq<char>, k: Seq<char>)
    ensures
        hier_remove(hier_remove(h, p, a, k), p, a, k) == hier_remove(h, p, a, k),
        lookup(h, p, a, k) is None ==> hier_remove(h, p, a, k) == h,
{
    let h1 = hier_remove(h, p, a, k);
    if h.contains_key(p) && h[p].contains_key(a) {
        assert(hier_remove(h1, p, a, k) =~~= h1);
        if !h[p][a].contains_key(k) {
            assert(h[p][a].remove(k) =~= h[p][a]);
            assert(h1 =~~= h);
        }
    }
}

/// Law: after a successful move between two distinct personas, the old
/// coordinates report a missing key and the new coordinates hold the
/// original value.
pub proof fn lemma_move_atomic(h: Hier, src: Seq<char>, dst: Seq<char>, a: Seq<char>, k: Seq<char>)
    requires
        lookup(h, src, a, k) is Some,
        src != dst,
    ensures
        lookup(
            hier_insert(hier_remove(h, src, a, k), dst, a, k, lookup(h, src, a, k).unwrap()),
            src,
            a,
            k,
        ) is None,
        lookup_err(
            hier_insert(hier_remove(h, src, a, k), dst, a, k, lookup(h, src, a, k).unwrap()),
            src,
            a,
        ) == Error::KeyNotFound,
        lookup(
            hier_insert(hier_remove(h, src, a, k), dst, a, k, lookup(h, src, a, k).unwrap()),
            dst,
            a,
            k,
        ) == lookup(h, src, a, k),
{
}

} // verus!
