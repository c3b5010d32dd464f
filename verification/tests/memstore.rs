use celerix_store::{Dict, Error, MemStore};
use serde_json::Value;

fn empty_store() -> MemStore {
    MemStore::new(Dict::new())
}

fn sval(s: &str) -> Value {
    Value::String(s.to_string())
}

#[test]
fn test_memstore_get_set() {
    let mut store = empty_store();
    store.set("p1", "app1", "k1", sval("v1")).unwrap();

    let val = store.get("p1", "app1", "k1").unwrap();
    assert_eq!(val, sval("v1"));
}

#[test]
fn test_memstore_delete() {
    let mut store = empty_store();
    store.set("p1", "app1", "k1", sval("v1")).unwrap();
    store.delete("p1", "app1", "k1").unwrap();

    let res = store.get("p1", "app1", "k1");
    assert!(matches!(res, Err(Error::KeyNotFound)));
}

#[test]
fn test_move_key() {
    let mut store = empty_store();
    store.set("p1", "app1", "k1", sval("v1")).unwrap();
    store.move_key("p1", "p2", "app1", "k1").unwrap();

    assert!(matches!(store.get("p1", "app1", "k1"), Err(Error::KeyNotFound)));
    assert_eq!(store.get("p2", "app1", "k1").unwrap(), sval("v1"));
}

#[test]
fn test_app_scope_and_vault() {
    let mut store = empty_store();
    let master_key = b"thisis32byteslongsecretkey123456";

    let scope = store.app("p1", "a1");
    scope.set(&mut store, "secret", sval("hidden")).unwrap();

    let val = scope.get(&store, "secret").unwrap();
    assert_eq!(val, sval("hidden"));

    let v = scope.vault(master_key);
    v.set(&mut store, "password", "topsecret").unwrap();

    let pass = v.get(&store, "password").unwrap();
    assert_eq!(pass, "topsecret");

    // The underlying store must hold ciphertext, not the plaintext.
    let raw = scope.get(&store, "password").unwrap();
    assert_ne!(raw, sval("topsecret"));
    assert!(raw.is_string());
}

#[test]
fn test_delete_is_idempotent() {
    let mut store = empty_store();
    store.set("p1", "app1", "k1", sval("v1")).unwrap();
    store.delete("p1", "app1", "k1").unwrap();
    store.delete("p1", "app1", "k1").unwrap();
    store.delete("absent", "app1", "k1").unwrap();
    store.delete("p1", "absent", "k1").unwrap();
    assert!(matches!(store.get("p1", "app1", "k1"), Err(Error::KeyNotFound)));
}

#[test]
fn test_failed_move_leaves_both_sides_unchanged() {
    let mut store = empty_store();
    store.set("p2", "app1", "k1", sval("kept")).unwrap();
    let res = store.move_key("p1", "p2", "app1", "k1");
    assert!(matches!(res, Err(Error::PersonaNotFound)));
    assert_eq!(store.get("p2", "app1", "k1").unwrap(), sval("kept"));
    assert!(matches!(store.get("p1", "app1", "k1"), Err(Error::PersonaNotFound)));
}

#[test]
fn test_lookup_misses_in_hierarchy_order() {
    let mut store = empty_store();
    store.set("p1", "app1", "k1", sval("v1")).unwrap();
    assert!(matches!(store.get("nope", "app1", "k1"), Err(Error::PersonaNotFound)));
    assert!(matches!(store.get("p1", "nope", "k1"), Err(Error::AppNotFound)));
    assert!(matches!(store.get("p1", "app1", "nope"), Err(Error::KeyNotFound)));
}

#[test]
fn test_enumeration_and_dump() {
    let mut store = empty_store();
    store.set("p1", "app1", "k1", sval("v1")).unwrap();
    store.set("p1", "app2", "k2", sval("v2")).unwrap();
    store.set("p2", "app1", "k3", sval("v3")).unwrap();

    let mut personas = store.get_personas().unwrap();
    personas.sort();
    assert_eq!(personas, vec!["p1".to_string(), "p2".to_string()]);

    let mut apps = store.get_apps("p1").unwrap();
    apps.sort();
    assert_eq!(apps, vec!["app1".to_string(), "app2".to_string()]);
    assert!(store.get_apps("absent").unwrap().is_empty());

    let table = store.get_app_store("p1", "app1").unwrap();
    assert_eq!(table.get("k1"), Some(&sval("v1")));
    assert_eq!(table.len(), 1);

    let dump = store.dump_app("app1").unwrap();
    assert_eq!(dump.len(), 2);
    assert_eq!(dump.get("p1").unwrap().get("k1"), Some(&sval("v1")));
    assert_eq!(dump.get("p2").unwrap().get("k3"), Some(&sval("v3")));
}

#[test]
fn test_get_global_finds_first_persona() {
    let mut store = empty_store();
    store.set("p1", "app1", "k1", sval("v1")).unwrap();
    let (val, persona) = store.get_global("app1", "k1").unwrap();
    assert_eq!(val, sval("v1"));
    assert_eq!(persona, "p1");
    assert!(matches!(store.get_global("app1", "missing"), Err(Error::KeyNotFound)));
}
