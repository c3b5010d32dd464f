//! The remote client's half of the wire protocol: building command lines,
//! reading response lines, and the retry discipline.  The surrounding
//! process owns the socket and moves these lines across it.

use vstd::prelude::*;

use crate::errors::Error;
use crate::json::{
    json_parse, json_text, obj_entries, object_content, parse_json_text, parse_string_list,
    str_content, string_list_of, to_json_text, value_object, value_str,
};
use crate::router::rest_after;
use crate::strutil::str_eq;

verus! {

/// How many times a request is attempted before a terminal error.
pub const MAX_ATTEMPTS: u64 = 3;

/// The backoff before retrying after the given failed attempt: it grows
/// linearly, 200 ms per attempt already made.
pub fn retry_backoff_ms(attempt: u64) -> (r: u64)
    requires
        attempt < 3,
    ensures
        r == (attempt + 1) * 200,
{
    (attempt + 1) * 200
}

/// What the transport reported while one attempt of a round trip ran.
pub enum NetEvent {
    /// Establishing the connection failed.
    ConnectFailed,
    /// The connection broke while writing or reading (a reset, an error,
    /// or end of stream).
    TransportFailed,
    /// A whole response line arrived.
    LineReceived,
}

/// What the client does next after one attempt.
#[derive(Debug, PartialEq, Eq)]
pub enum RetryAction {
    /// Surface a terminal error: the attempts are exhausted.
    Fail,
    /// Sleep this many milliseconds, then try again without a connection.
    RetryAfter(u64),
    /// Drop the connection and try again at once.
    RetryNow,
    /// Hand the received line to the reply parser; the round trip is over.
    Finish,
}

/// The retry discipline of one round trip: a failed connect backs off
/// linearly and gives up after the last attempt; a broken transport retries
/// at once; a received line ends the loop.  A semantic error line never
/// reaches this decision: it arrives as a received line.
pub fn retry_step(attempt: u64, event: NetEvent) -> (r: RetryAction)
    requires
        attempt < 3,
    ensures
        match event {
            NetEvent::ConnectFailed => {
                if attempt + 1 == 3 {
                    r == RetryAction::Fail
                } else {
                    r matches RetryAction::RetryAfter(ms) && ms == (attempt + 1) * 200
                }
            },
            NetEvent::TransportFailed => r == RetryAction::RetryNow,
            NetEvent::LineReceived => r == RetryAction::Finish,
        },
{
    match event {
        NetEvent::ConnectFailed => {
            if attempt + 1 == MAX_ATTEMPTS {
                RetryAction::Fail
            } else {
                RetryAction::RetryAfter(retry_backoff_ms(attempt))
            }
        },
        NetEvent::TransportFailed => RetryAction::RetryNow,
        NetEvent::LineReceived => RetryAction::Finish,
    }
}

fn join_cmd(head: &str, args: Vec<&str>) -> (r: String)
    ensures
        r@ == head@ + join_args(args@.map_values(|a: &str| a@)),
{
    let mut out: String = head.to_owned();
    let n = args.len();
    let mut i: usize = 0;
    while i < n
        invariant
            i <= n,
            n == args@.len(),
            out@ == head@ + join_args(args@.map_values(|a: &str| a@).take(i as int)),
        decreases n - i,
    {
        out.append(" ");
        out.append(args[i]);
        proof {
            let views = args@.map_values(|a: &str| a@);
            assert(views.take(i + 1).drop_last() =~= views.take(i as int));
            assert(views.take(i + 1).last() == views[i as int]);
        }
        i = i + 1;
    }
    proof {
        assert(args@.map_values(|a: &str| a@).take(n as int) =~= args@.map_values(|a: &str| a@));
    }
    out
}

/// The arguments of a command line, each preceded by one space.
pub open spec fn join_args(args: Seq<Seq<char>>) -> Seq<char>
    decreases args.len(),
{
    if args.len() == 0 {
        Seq::empty()
    } else {
        join_args(args.drop_last()) + " "@ + args.last()
    }
}

/// The `GET` command line for the given coordinates.
pub fn encode_get(persona_id: &str, app_id: &str, key: &str) -> (r: String)
    ensures
        r@ == "GET"@ + join_args(seq![persona_id@, app_id@, key@]),
{
    let args: Vec<&str> = vec![persona_id, app_id, key];
    proof {
        assert(args@.map_values(|a: &str| a@) =~= seq![persona_id@, app_id@, key@]);
    }
    join_cmd("GET", args)
}

/// The `SET` command line.
pub fn encode_set(persona_id: &str, app_id: &str, key: &str, value: &serde_json::Value) -> (r:
    String)
    ensures
        r@ == "SET"@ + join_args(seq![persona_id@, app_id@, key@, json_text(*value)]),
{
    let value_text = to_json_text(value).unwrap();
    let args: Vec<&str> = vec![persona_id, app_id, key, value_text.as_str()];
    proof {
        assert(args@.map_values(|a: &str| a@) =~= seq![
            persona_id@,
            app_id@,
            key@,
            json_text(*value),
        ]);
    }
    join_cmd("SET", args)
}

/// The `DEL` command line.
pub fn encode_del(persona_id: &str, app_id: &str, key: &str) -> (r: String)
    ensures
        r@ == "DEL"@ + join_args(seq![persona_id@, app_id@, key@]),
{
    let args: Vec<&str> = vec![persona_id, app_id, key];
    proof {
        assert(args@.map_values(|a: &str| a@) =~= seq![persona_id@, app_id@, key@]);
    }
    join_cmd("DEL", args)
}

/// The `LIST_APPS` command line.
pub fn encode_list_apps(persona_id: &str) -> (r: String)
    ensures
        r@ == "LIST_APPS"@ + join_args(seq![persona_id@]),
{
    let args: Vec<&str> = vec![persona_id];
    proof {
        assert(args@.map_values(|a: &str| a@) =~= seq![persona_id@]);
    }
    join_cmd("LIST_APPS", args)
}

/// The `DUMP` command line.
pub fn encode_dump(persona_id: &str, app_id: &str) -> (r: String)
    ensures
        r@ == "DUMP"@ + join_args(seq![persona_id@, app_id@]),
{
    let args: Vec<&str> = vec![persona_id, app_id];
    proof {
        assert(args@.map_values(|a: &str| a@) =~= seq![persona_id@, app_id@]);
    }
    join_cmd("DUMP", args)
}

/// The `DUMP_APP` command line.
pub fn encode_dump_app(app_id: &str) -> (r: String)
    ensures
        r@ == "DUMP_APP"@ + join_args(seq![app_id@]),
{
    let args: Vec<&str> = vec![app_id];
    proof {
        assert(args@.map_values(|a: &str| a@) =~= seq![app_id@]);
    }
    join_cmd("DUMP_APP", args)
}

/// The `GET_GLOBAL` command line.
pub fn encode_get_global(app_id: &str, key: &str) -> (r: String)
    ensures
        r@ == "GET_GLOBAL"@ + join_args(seq![app_id@, key@]),
{
    let args: Vec<&str> = vec![app_id, key];
    proof {
        assert(args@.map_values(|a: &str| a@) =~= seq![app_id@, key@]);
    }
    join_cmd("GET_GLOBAL", args)
}

/// The `MOVE` command line.
pub fn encode_move(src_persona: &str, dst_persona: &str, app_id: &str, key: &str) -> (r: String)
    ensures
        r@ == "MOVE"@ + join_args(seq![src_persona@, dst_persona@, app_id@, key@]),
{
    let args: Vec<&str> = vec![src_persona, dst_persona, app_id, key];
    proof {
        assert(args@.map_values(|a: &str| a@) =~= seq![src_persona@, dst_persona@, app_id@, key@]);
    }
    join_cmd("MOVE", args)
}

/// Whether a trimmed response line reports an error.
pub open spec fn is_err_reply(t: Seq<char>) -> bool {
    t.len() >= 3 && t.subrange(0, 3) == "ERR"@
}

/// The reason text after `ERR `, empty when the line is bare.
pub open spec fn err_tail(t: Seq<char>) -> Seq<char> {
    if t.len() >= 4 {
        t.subrange(4, t.len() as int)
    } else {
        Seq::empty()
    }
}

/// The error an `ERR` reason text stands for: the three lookup misses keep
/// their own kinds across the wire, so embedded and remote mode report them
/// alike; any other reason is an internal error carrying the text.
pub open spec fn reason_error(e: Error, tail: Seq<char>) -> bool {
    match e {
        Error::PersonaNotFound => tail == "persona not found"@,
        Error::AppNotFound => tail == "app not found"@,
        Error::KeyNotFound => tail == "key not found"@,
        Error::Internal(m) => m@ == tail && tail != "persona not found"@ && tail
            != "app not found"@ && tail != "key not found"@,
        _ => false,
    }
}

/// Sorts a raw response line: an `ERR` line becomes the error its reason
/// names, anything else is handed on trimmed.
pub fn parse_reply(resp: &str) -> (r: Result<String, Error>)
    ensures
        ({
            let t = rest_after(resp@, 0);
            match r {
                Ok(s) => !is_err_reply(t) && s@ == t,
                Err(e) => is_err_reply(t) && reason_error(e, err_tail(t)),
            }
        }),
{
    let t = crate::router::trim_line(resp);
    let n = t.as_str().unicode_len();
    if n >= 3 && str_eq(t.as_str().substring_char(0, 3), "ERR") {
        if n >= 4 {
            let tail = t.as_str().substring_char(4, n).to_owned();
            proof {
                assert(tail@ == err_tail(t@));
            }
            if str_eq(tail.as_str(), "persona not found") {
                Err(Error::PersonaNotFound)
            } else if str_eq(tail.as_str(), "app not found") {
                Err(Error::AppNotFound)
            } else if str_eq(tail.as_str(), "key not found") {
                Err(Error::KeyNotFound)
            } else {
                Err(Error::Internal(tail))
            }
        } else {
            proof {
                assert(err_tail(t@) =~= Seq::<char>::empty());
                reveal_strlit("persona not found");
                reveal_strlit("app not found");
                reveal_strlit("key not found");
            }
            Err(Error::Internal(String::new()))
        }
    } else {
        Ok(t)
    }
}

/// The payload after `OK `, if the line carries one.
pub open spec fn ok_payload_of(t: Seq<char>) -> Option<Seq<char>> {
    if t.len() >= 3 && t.subrange(0, 3) == "OK "@ {
        Some(t.subrange(3, t.len() as int))
    } else {
        None
    }
}

/// The JSON value of an `OK <json>` reply line (already trimmed and known
/// not to be an `ERR` line).
pub fn decode_value_reply(line: &str) -> (r: Result<serde_json::Value, Error>)
    ensures
        match r {
            Ok(v) => ok_payload_of(line@) is Some && json_parse(ok_payload_of(line@).unwrap())
                == Some(v),
            Err(e) => (ok_payload_of(line@) is None || json_parse(
                ok_payload_of(line@).unwrap(),
            ) is None) && (e matches Error::Internal(_) || e matches Error::Serialization(_)),
        },
{
    let payload = match strip_ok(line) {
        Some(p) => p,
        None => {
            return Err(Error::Internal("invalid response".to_owned()));
        },
    };
    match parse_json_text(payload) {
        Some(v) => Ok(v),
        None => Err(Error::Serialization("invalid json in response".to_owned())),
    }
}

/// The string list of an `OK <json-array>` reply line.
pub fn decode_list_reply(line: &str) -> (r: Result<Vec<String>, Error>)
    ensures
        match r {
            Ok(v) => ok_payload_of(line@) is Some && string_list_of(ok_payload_of(line@).unwrap())
                == Some(v@.map_values(|x: String| x@)),
            Err(e) => (ok_payload_of(line@) is None || string_list_of(
                ok_payload_of(line@).unwrap(),
            ) is None) && (e matches Error::Internal(_) || e matches Error::Serialization(_)),
        },
{
    let payload = match strip_ok(line) {
        Some(p) => p,
        None => {
            return Err(Error::Internal("invalid response".to_owned()));
        },
    };
    match parse_string_list(payload) {
        Some(v) => Ok(v),
        None => Err(Error::Serialization("invalid json in response".to_owned())),
    }
}

/// What a `GET_GLOBAL` reply line denotes: the found value and the persona
/// identifier, or nothing when the line is not `OK <json-object>` with a
/// string `persona` member and a `value` member.
pub open spec fn global_reply_model(line: Seq<char>) -> Option<(serde_json::Value, Seq<char>)> {
    match ok_payload_of(line) {
        None => None,
        Some(payload) => match json_parse(payload) {
            None => None,
            Some(w) => match object_content(w) {
                None => None,
                Some(m) => {
                    let e = obj_entries(m);
                    if e.contains_key("persona"@) && e.contains_key("value"@) {
                        match str_content(e["persona"@]) {
                            Some(p) => Some((e["value"@], p)),
                            None => None,
                        }
                    } else {
                        None
                    }
                },
            },
        },
    }
}

/// The (value, persona) pair of an `OK {"persona":...,"value":...}` reply;
/// fails exactly when the line does not have that shape.
pub fn decode_global_reply(line: &str) -> (r: Result<(serde_json::Value, String), Error>)
    ensures
        match r {
            Ok((v, p)) => global_reply_model(line@) == Some((v, p@)),
            Err(e) => global_reply_model(line@) is None && (e matches Error::Internal(_)
                || e matches Error::Serialization(_)),
        },
{
    let w = match decode_value_reply(line) {
        Ok(w) => w,
        Err(e) => {
            return Err(e);
        },
    };
    let m = match value_object(&w) {
        Some(m) => m,
        None => {
            return Err(Error::Internal("invalid response".to_owned()));
        },
    };
    let pv = match crate::json::obj_get(m, "persona") {
        Some(pv) => pv,
        None => {
            return Err(Error::Internal("missing persona".to_owned()));
        },
    };
    let p = match value_str(pv) {
        Some(s) => s.to_owned(),
        None => {
            return Err(Error::Internal("missing persona".to_owned()));
        },
    };
    let v = match crate::json::obj_get(m, "value") {
        Some(v) => crate::json::clone_value(v),
        None => {
            return Err(Error::Internal("missing value".to_owned()));
        },
    };
    Ok((v, p))
}

/// The payload after a literal `OK ` prefix.
fn strip_ok<'a>(line: &'a str) -> (r: Option<&'a str>)
    ensures
        match r {
            Some(p) => ok_payload_of(line@) == Some(p@),
            None => ok_payload_of(line@) is None,
        },
{
    let n = line.unicode_len();
    if n >= 3 && str_eq(line.substring_char(0, 3), "OK ") {
        Some(line.substring_char(3, n))
    } else {
        None
    }
}

} // verus!
