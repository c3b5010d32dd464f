use celerix_store::memstore::{AppData, PersonaData};
use celerix_store::persistence::decode_persona;
use celerix_store::Error;
use celerix_store::{Dict, Persistence};
use serde_json::Value;

fn persona_fixture() -> PersonaData {
    let mut app_data: AppData = Dict::new();
    app_data.insert("key1".to_string(), Value::String("value1".to_string()));
    let mut data: PersonaData = Dict::new();
    data.insert("app1".to_string(), app_data);
    data
}

#[test]
fn test_save_and_load_all() {
    let persistence = Persistence::new("data");
    let data = persona_fixture();

    let plan = persistence.save_persona_plan("p1", &data).unwrap();

    let loaded = persistence.load_all(vec![("p1.json".to_string(), plan.bytes)]);
    assert_eq!(loaded.len(), 1);
    assert_eq!(
        loaded.get("p1").unwrap().get("app1").unwrap().get("key1").unwrap(),
        &Value::String("value1".to_string())
    );
}

#[test]
fn test_atomic_rename() {
    let persistence = Persistence::new("data");
    let data = persona_fixture();

    let plan = persistence.save_persona_plan("p1", &data).unwrap();

    // The staging file and the canonical file are distinct paths; only the
    // rename of the first onto the second publishes the data.
    assert_eq!(plan.file_path, "data/p1.json");
    assert_eq!(plan.temp_path, "data/p1.json.tmp");
    assert_ne!(plan.file_path, plan.temp_path);
}

#[test]
fn test_go_compatibility() {
    let go_json = r#"{
  "test_app": {
    "key_0": 0,
    "key_1": "string_val"
  }
}"#;
    let persistence = Persistence::new("data");
    let loaded = persistence.load_all(vec![(
        "go_persona.json".to_string(),
        go_json.as_bytes().to_vec(),
    )]);

    let persona = loaded.get("go_persona").unwrap();
    let app = persona.get("test_app").unwrap();
    assert_eq!(app.get("key_0").unwrap(), &serde_json::from_str::<Value>("0").unwrap());
    assert_eq!(
        app.get("key_1").unwrap(),
        &serde_json::from_str::<Value>("\"string_val\"").unwrap()
    );
}

#[test]
fn test_malformed_file_is_skipped() {
    let persistence = Persistence::new("data");
    let data = persona_fixture();
    let plan = persistence.save_persona_plan("good", &data).unwrap();

    let loaded = persistence.load_all(vec![
        ("bad.json".to_string(), b"{ not json at all".to_vec()),
        ("good.json".to_string(), plan.bytes),
        ("notes.txt".to_string(), b"ignored".to_vec()),
    ]);

    assert_eq!(loaded.len(), 1);
    assert_eq!(
        loaded.get("good").unwrap().get("app1").unwrap().get("key1").unwrap(),
        &Value::String("value1".to_string())
    );
    assert!(loaded.get("bad").is_none());
}

#[test]
fn test_persisted_and_reloaded_equivalence() {
    let persistence = Persistence::new("data");

    let mut app_a: AppData = Dict::new();
    app_a.insert("k1".to_string(), Value::String("v1".to_string()));
    app_a.insert("k2".to_string(), Value::Bool(true));
    let mut p1: PersonaData = Dict::new();
    p1.insert("app1".to_string(), app_a);

    let mut app_b: AppData = Dict::new();
    app_b.insert("k3".to_string(), Value::Null);
    let mut p2: PersonaData = Dict::new();
    p2.insert("app2".to_string(), app_b);

    let plan1 = persistence.save_persona_plan("p1", &p1).unwrap();
    let plan2 = persistence.save_persona_plan("p2", &p2).unwrap();

    let loaded = persistence.load_all(vec![
        ("p1.json".to_string(), plan1.bytes),
        ("p2.json".to_string(), plan2.bytes),
    ]);

    assert_eq!(loaded.len(), 2);
    let q1 = loaded.get("p1").unwrap();
    assert_eq!(q1.get("app1").unwrap().get("k1"), Some(&Value::String("v1".to_string())));
    assert_eq!(q1.get("app1").unwrap().get("k2"), Some(&Value::Bool(true)));
    let q2 = loaded.get("p2").unwrap();
    assert_eq!(q2.get("app2").unwrap().get("k3"), Some(&Value::Null));
}

#[test]
fn test_decode_rejects_wrong_shapes() {
    assert!(matches!(decode_persona(b"{ not json"), Err(Error::Serialization(_))));
    assert!(matches!(decode_persona(b"[1, 2]"), Err(Error::Serialization(_))));
    assert!(matches!(decode_persona(b"{\"app\": 3}"), Err(Error::Serialization(_))));
    assert!(decode_persona(b"{\"app\": {\"k\": 3}}").is_ok());
}
