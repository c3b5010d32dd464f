use celerix_store::client::{
    decode_global_reply, decode_list_reply, decode_value_reply, encode_get, encode_move,
    parse_reply, retry_backoff_ms,
};
use celerix_store::router::touched_personas;
use celerix_store::{handle_line, Dict, LineReply, MemStore};
use serde_json::Value;

fn reply(store: &mut MemStore, line: &str) -> String {
    match handle_line(store, line) {
        LineReply::Reply(s) => s,
        other => panic!("expected a reply line, got {:?}", other),
    }
}

#[test]
fn test_full_protocol_integration() {
    let mut store = MemStore::new(Dict::new());

    assert_eq!(reply(&mut store, "PING\n"), "PONG");
    assert_eq!(reply(&mut store, "SET p1 app1 k1 \"v1\"\n"), "OK");
    assert_eq!(reply(&mut store, "GET p1 app1 k1\n"), "OK \"v1\"");

    let global = reply(&mut store, "GET_GLOBAL app1 k1\n");
    assert!(global.contains("p1"));
    assert!(global.contains("v1"));
}

#[test]
fn test_protocol_scenario() {
    let mut store = MemStore::new(Dict::new());

    assert_eq!(reply(&mut store, "SET p1 app1 k1 \"v1\"\n"), "OK");
    assert_eq!(reply(&mut store, "GET p1 app1 k1\n"), "OK \"v1\"");
    assert_eq!(
        reply(&mut store, "GET_GLOBAL app1 k1\n"),
        "OK {\"persona\":\"p1\",\"value\":\"v1\"}"
    );
    assert_eq!(reply(&mut store, "MOVE p1 p2 app1 k1\n"), "OK");
    assert_eq!(reply(&mut store, "GET p1 app1 k1\n"), "ERR key not found");
    assert_eq!(reply(&mut store, "GET p2 app1 k1\n"), "OK \"v1\"");
}

#[test]
fn test_protocol_edges() {
    let mut store = MemStore::new(Dict::new());

    assert_eq!(handle_line(&mut store, "\n"), LineReply::Silent);
    assert_eq!(handle_line(&mut store, "   \n"), LineReply::Silent);
    assert_eq!(handle_line(&mut store, "QUIT\n"), LineReply::Close);
    assert_eq!(reply(&mut store, "FROB x y\n"), "ERR unknown command");
    assert_eq!(reply(&mut store, "GET p1 app1\n"), "ERR missing arguments");
    assert_eq!(reply(&mut store, "SET p1 app1 k1\n"), "ERR missing arguments");
    assert_eq!(reply(&mut store, "SET p1 app1 k1 not-json\n"), "ERR invalid json value");
    assert_eq!(reply(&mut store, "GET nope app1 k1\n"), "ERR persona not found");
    assert_eq!(reply(&mut store, "get p1 app1 k1\n"), "ERR persona not found");
    assert_eq!(reply(&mut store, "DEL nope app1 k1\n"), "OK");
}

#[test]
fn test_protocol_set_value_keeps_remainder() {
    let mut store = MemStore::new(Dict::new());
    assert_eq!(reply(&mut store, "SET p1 app1 k1 {\"a\": [1, 2]}\n"), "OK");
    assert_eq!(reply(&mut store, "GET p1 app1 k1\n"), "OK {\"a\":[1,2]}");
}

#[test]
fn test_protocol_lists_and_dumps() {
    let mut store = MemStore::new(Dict::new());
    assert_eq!(reply(&mut store, "SET p1 app1 k1 \"v1\"\n"), "OK");
    assert_eq!(reply(&mut store, "SET p2 app1 k2 7\n"), "OK");

    let personas = reply(&mut store, "LIST_PERSONAS\n");
    let mut names = decode_list_reply(&personas).unwrap();
    names.sort();
    assert_eq!(names, vec!["p1".to_string(), "p2".to_string()]);

    assert_eq!(reply(&mut store, "LIST_APPS p1\n"), "OK [\"app1\"]");
    assert_eq!(reply(&mut store, "LIST_APPS absent\n"), "OK []");
    assert_eq!(reply(&mut store, "DUMP p1 app1\n"), "OK {\"k1\":\"v1\"}");
    assert_eq!(reply(&mut store, "DUMP nope app1\n"), "ERR persona not found");
    assert_eq!(
        reply(&mut store, "DUMP_APP app1\n"),
        "OK {\"p1\":{\"k1\":\"v1\"},\"p2\":{\"k2\":7}}"
    );
}

#[test]
fn test_client_codec_round_trip() {
    let mut store = MemStore::new(Dict::new());
    assert_eq!(encode_get("p1", "app1", "k1"), "GET p1 app1 k1");
    assert_eq!(encode_move("p1", "p2", "app1", "k1"), "MOVE p1 p2 app1 k1");

    assert_eq!(reply(&mut store, "SET p1 app1 k1 \"v1\"\n"), "OK");
    let line = reply(&mut store, &encode_get("p1", "app1", "k1"));
    let ok = parse_reply(&line).unwrap();
    assert_eq!(decode_value_reply(&ok).unwrap(), Value::String("v1".to_string()));

    let global_line = reply(&mut store, "GET_GLOBAL app1 k1\n");
    let ok = parse_reply(&global_line).unwrap();
    let (val, persona) = decode_global_reply(&ok).unwrap();
    assert_eq!(val, Value::String("v1".to_string()));
    assert_eq!(persona, "p1");

    let err_line = reply(&mut store, "GET nope app1 k1\n");
    assert!(matches!(parse_reply(&err_line), Err(celerix_store::Error::PersonaNotFound)));

    assert!(matches!(parse_reply("ERR app not found\n"), Err(celerix_store::Error::AppNotFound)));
    assert!(matches!(parse_reply("ERR key not found\n"), Err(celerix_store::Error::KeyNotFound)));

    let other_err = parse_reply("ERR something odd\n");
    match other_err {
        Err(celerix_store::Error::Internal(msg)) => assert_eq!(msg, "something odd"),
        other => panic!("expected an internal error, got {:?}", other),
    }
}

#[test]
fn test_retry_backoff_is_linear() {
    assert_eq!(retry_backoff_ms(0), 200);
    assert_eq!(retry_backoff_ms(1), 400);
    assert_eq!(retry_backoff_ms(2), 600);
}

#[test]
fn test_touched_personas_follow_the_command() {
    assert_eq!(touched_personas("SET p1 app1 k1 \"v\"\n"), vec!["p1".to_string()]);
    assert_eq!(touched_personas("del p1 app1 k1\n"), vec!["p1".to_string()]);
    assert_eq!(
        touched_personas("MOVE p1 p2 app1 k1\n"),
        vec!["p1".to_string(), "p2".to_string()]
    );
    assert!(touched_personas("GET p1 app1 k1\n").is_empty());
    assert!(touched_personas("SET p1 app1\n").is_empty());
    assert!(touched_personas("PING\n").is_empty());
}
