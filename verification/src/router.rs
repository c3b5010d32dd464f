//! The wire protocol: one command per line, one response line per command.
//! `handle_line` is the whole per-line behaviour of the server; the
//! surrounding process only moves lines between it and a socket.

use vstd::prelude::*;

use crate::errors::{reason_view, Error};
use crate::json::{
    clone_value, json_parse, json_text, json_text_of_list, obj_entries, obj_insert, obj_new,
    obj_value, obj_view, obj2_view, parse_json_text, string_list_text, string_value, to_json_text,
};
use crate::memstore::{
    app_data_value, dump_model, hier_insert, hier_remove, lookup, lookup_err, persona_data_value,
    MemStore,
};

verus! {

/// The whitespace that separates command tokens.
pub open spec fn is_ws(c: char) -> bool {
    c == ' ' || c == '\t' || c == '\r' || c == '\n'
}

/// The first index at or after `i` holding a non-whitespace character.
pub open spec fn skip_ws(s: Seq<char>, i: int) -> int
    decreases s.len() - i,
    when 0 <= i <= s.len()
{
    if i >= s.len() {
        i
    } else if is_ws(s[i]) {
        skip_ws(s, i + 1)
    } else {
        i
    }
}

/// The first index at or after `i` holding whitespace (or the end).
pub open spec fn token_end(s: Seq<char>, i: int) -> int
    decreases s.len() - i,
    when 0 <= i <= s.len()
{
    if i >= s.len() {
        i
    } else if is_ws(s[i]) {
        i
    } else {
        token_end(s, i + 1)
    }
}

/// Bounds of `token_end`.
pub proof fn lemma_token_end(s: Seq<char>, i: int)
    requires
        0 <= i <= s.len(),
    ensures
        i <= token_end(s, i) <= s.len(),
        i < s.len() && !is_ws(s[i]) ==> token_end(s, i) > i,
    decreases s.len() - i,
{
    if i < s.len() && !is_ws(s[i]) {
        lemma_token_end(s, i + 1);
    }
}

/// Bounds of `end_trim`.
pub proof fn lemma_end_trim(s: Seq<char>, i: int)
    requires
        0 <= i <= s.len(),
    ensures
        0 <= end_trim(s, i) <= i,
    decreases i,
{
    if i > 0 && is_ws(s[i - 1]) {
        lemma_end_trim(s, i - 1);
    }
}

/// The next token at or after `i`, with the index just past it.
pub open spec fn spec_next(s: Seq<char>, i: int) -> Option<(Seq<char>, int)> {
    let j = skip_ws(s, i);
    if j >= s.len() {
        None
    } else {
        Some((s.subrange(j, token_end(s, j)), token_end(s, j)))
    }
}

/// ASCII uppercase of one character.
pub open spec fn upper_char(c: char) -> char {
    if 'a' <= c && c <= 'z' {
        ((c as u8) - 32) as char
    } else {
        c
    }
}

/// ASCII uppercase of a character sequence.
pub open spec fn upper_seq(s: Seq<char>) -> Seq<char> {
    s.map_values(|c: char| upper_char(c))
}

/// The index just past the last non-whitespace character at or before `i`.
pub open spec fn end_trim(s: Seq<char>, i: int) -> int
    decreases i,
    when 0 <= i <= s.len()
{
    if i <= 0 {
        0
    } else if is_ws(s[i - 1]) {
        end_trim(s, i - 1)
    } else {
        i
    }
}

/// The remainder of the line after position `from`, trimmed of surrounding
/// whitespace.
pub open spec fn rest_after(s: Seq<char>, from: int) -> Seq<char> {
    let j = skip_ws(s, from);
    let e = end_trim(s, s.len() as int);
    if e > j {
        s.subrange(j, e)
    } else {
        Seq::empty()
    }
}

/// Whether `c` is a whitespace separator.
fn ws_char(c: char) -> (r: bool)
    ensures
        r == is_ws(c),
{
    c == ' ' || c == '\t' || c == '\r' || c == '\n'
}

/// Reads the next token of the line at or after `start`.
fn next_token(line: &str, start: usize) -> (r: Option<(String, usize)>)
    requires
        start as int <= line@.len(),
    ensures
        match r {
            Some(t) => spec_next(line@, start as int) == Some((t.0@, t.1 as int)) && t.1
                <= line@.len() && start < t.1,
            None => spec_next(line@, start as int) is None,
        },
{
    let n = line.unicode_len();
    let mut i: usize = start;
    while i < n && ws_char(line.get_char(i))
        invariant
            start <= i <= n,
            n == line@.len(),
            skip_ws(line@, start as int) == skip_ws(line@, i as int),
        decreases n - i,
    {
        i = i + 1;
    }
    if i >= n {
        return None;
    }
    let mut j: usize = i;
    while j < n && !ws_char(line.get_char(j))
        invariant
            i <= j <= n,
            n == line@.len(),
            token_end(line@, i as int) == token_end(line@, j as int),
        decreases n - j,
    {
        j = j + 1;
    }
    proof {
        lemma_token_end(line@, i as int);
        assert(skip_ws(line@, start as int) == i);
        assert(token_end(line@, i as int) == j);
    }
    let tok = line.substring_char(i, j).to_owned();
    Some((tok, j))
}

/// The trimmed remainder of the line after position `from`.
fn rest_of(line: &str, from: usize) -> (r: String)
    requires
        from as int <= line@.len(),
    ensures
        r@ == rest_after(line@, from as int),
{
    let n = line.unicode_len();
    let mut i: usize = from;
    while i < n && ws_char(line.get_char(i))
        invariant
            from <= i <= n,
            n == line@.len(),
            skip_ws(line@, from as int) == skip_ws(line@, i as int),
        decreases n - i,
    {
        i = i + 1;
    }
    let mut e: usize = n;
    while e > i && ws_char(line.get_char(e - 1))
        invariant
            i <= e <= n,
            n == line@.len(),
            end_trim(line@, n as int) == end_trim(line@, e as int),
        decreases e,
    {
        e = e - 1;
    }
    proof {
        assert(skip_ws(line@, from as int) == i);
        if e > i {
            assert(!is_ws(line@[e - 1]));
            assert(end_trim(line@, e as int) == e);
        } else {
            lemma_end_trim(line@, e as int);
            assert(end_trim(line@, n as int) <= e);
        }
    }
    if e > i {
        line.substring_char(i, e).to_owned()
    } else {
        proof {
            assert(rest_after(line@, from as int) =~= Seq::<char>::empty());
        }
        String::new()
    }
}

/// The line trimmed of surrounding whitespace.
pub fn trim_line(line: &str) -> (r: String)
    ensures
        r@ == rest_after(line@, 0),
{
    rest_of(line, 0)
}

/// ASCII uppercase of one character.
fn upper_char_exec(c: char) -> (r: char)
    ensures
        r == upper_char(c),
{
    if 'a' <= c && c <= 'z' {
        ((c as u8) - 32) as char
    } else {
        c
    }
}

/// Whether the token, ASCII-uppercased, equals the keyword.
fn eq_upper(tok: &str, keyword: &str) -> (r: bool)
    ensures
        r == (upper_seq(tok@) == keyword@),
{
    let n = tok.unicode_len();
    let m = keyword.unicode_len();
    if n != m {
        proof {
            assert(upper_seq(tok@).len() == tok@.len());
        }
        return false;
    }
    let mut i: usize = 0;
    while i < n
        invariant
            i <= n,
            n == tok@.len() == keyword@.len(),
            forall|j: int| 0 <= j < i ==> upper_char(tok@[j]) == keyword@[j],
        decreases n - i,
    {
        if upper_char_exec(tok.get_char(i)) != keyword.get_char(i) {
            proof {
                assert(upper_seq(tok@)[i as int] != keyword@[i as int]);
            }
            return false;
        }
        i = i + 1;
    }
    proof {
        assert(upper_seq(tok@) =~= keyword@);
    }
    true
}

/// A parsed protocol request, at the specification level.
pub enum Request {
    /// A blank line: no response is sent.
    Empty,
    /// A liveness probe.
    Ping,
    /// The client asks to close the connection.
    Quit,
    /// An unrecognized command word.
    Unknown,
    /// A recognized command with too few arguments.
    Missing,
    /// A single-value read.
    Get { persona: Seq<char>, app: Seq<char>, key: Seq<char> },
    /// A single-value upsert (the `SET` command); the value is the JSON
    /// text after the key.
    Put { persona: Seq<char>, app: Seq<char>, key: Seq<char>, value_text: Seq<char> },
    /// A single-value delete.
    Del { persona: Seq<char>, app: Seq<char>, key: Seq<char> },
    /// Enumerate the personas.
    ListPersonas,
    /// Enumerate the apps of a persona.
    ListApps { persona: Seq<char> },
    /// Export one app's table of a persona.
    Dump { persona: Seq<char>, app: Seq<char> },
    /// Export one app's tables across all personas.
    DumpApp { app: Seq<char> },
    /// Find a key in an app across all personas.
    GetGlobal { app: Seq<char>, key: Seq<char> },
    /// Move a key between personas within one app.
    Move { src: Seq<char>, dst: Seq<char>, app: Seq<char>, key: Seq<char> },
}

/// What one line of input asks for.  The command word is read
/// case-insensitively; the arguments are the following tokens.
pub open spec fn parse_request(line: Seq<char>) -> Request {
    match spec_next(line, 0) {
        None => Request::Empty,
        Some((t0, p1)) => {
            let cmd = upper_seq(t0);
            if cmd == "PING"@ {
                Request::Ping
            } else if cmd == "QUIT"@ {
                Request::Quit
            } else if cmd == "GET"@ {
                match spec_next(line, p1) {
                    None => Request::Missing,
                    Some((t1, p2)) => match spec_next(line, p2) {
                        None => Request::Missing,
                        Some((t2, p3)) => match spec_next(line, p3) {
                            None => Request::Missing,
                            Some((t3, _)) => Request::Get { persona: t1, app: t2, key: t3 },
                        },
                    },
                }
            } else if cmd == "SET"@ {
                match spec_next(line, p1) {
                    None => Request::Missing,
                    Some((t1, p2)) => match spec_next(line, p2) {
                        None => Request::Missing,
                        Some((t2, p3)) => match spec_next(line, p3) {
                            None => Request::Missing,
                            Some((t3, p4)) => match spec_next(line, p4) {
                                None => Request::Missing,
                                Some(_) => Request::Put {
                                    persona: t1,
                                    app: t2,
                                    key: t3,
                                    value_text: rest_after(line, p4),
                                },
                            },
                        },
                    },
                }
            } else if cmd == "DEL"@ {
                match spec_next(line, p1) {
                    None => Request::Missing,
                    Some((t1, p2)) => match spec_next(line, p2) {
                        None => Request::Missing,
                        Some((t2, p3)) => match spec_next(line, p3) {
                            None => Request::Missing,
                            Some((t3, _)) => Request::Del { persona: t1, app: t2, key: t3 },
                        },
                    },
                }
            } else if cmd == "LIST_PERSONAS"@ {
                Request::ListPersonas
            } else if cmd == "LIST_APPS"@ {
                match spec_next(line, p1) {
                    None => Request::Missing,
                    Some((t1, _)) => Request::ListApps { persona: t1 },
                }
            } else if cmd == "DUMP"@ {
                match spec_next(line, p1) {
                    None => Request::Missing,
                    Some((t1, p2)) => match spec_next(line, p2) {
                        None => Request::Missing,
                        Some((t2, _)) => Request::Dump { persona: t1, app: t2 },
                    },
                }
            } else if cmd == "DUMP_APP"@ {
                match spec_next(line, p1) {
                    None => Request::Missing,
                    Some((t1, _)) => Request::DumpApp { app: t1 },
                }
            } else if cmd == "GET_GLOBAL"@ {
                match spec_next(line, p1) {
                    None => Request::Missing,
                    Some((t1, p2)) => match spec_next(line, p2) {
                        None => Request::Missing,
                        Some((t2, _)) => Request::GetGlobal { app: t1, key: t2 },
                    },
                }
            } else if cmd == "MOVE"@ {
                match spec_next(line, p1) {
                    None => Request::Missing,
                    Some((t1, p2)) => match spec_next(line, p2) {
                        None => Request::Missing,
                        Some((t2, p3)) => match spec_next(line, p3) {
                            None => Request::Missing,
                            Some((t3, p4)) => match spec_next(line, p4) {
                                None => Request::Missing,
                                Some((t4, _)) => Request::Move {
                                    src: t1,
                                    dst: t2,
                                    app: t3,
                                    key: t4,
                                },
                            },
                        },
                    },
                }
            } else {
                Request::Unknown
            }
        },
    }
}

/// What the server does with one line: reply with a line, stay silent, or
/// close the connection.
#[derive(Debug, PartialEq, Eq)]
pub enum LineReply {
    /// Send this response line.
    Reply(String),
    /// Send nothing and read the next line.
    Silent,
    /// Close the connection without a response.
    Close,
}

fn ok_reply() -> (r: String)
    ensures
        r@ == "OK"@,
{
    "OK".to_owned()
}

fn err_reply(reason: String) -> (r: String)
    ensures
        r@ == "ERR "@ + reason@,
{
    "ERR ".to_owned().concat(reason.as_str())
}

fn payload_reply(payload: String) -> (r: String)
    ensures
        r@ == "OK "@ + payload@,
{
    "OK ".to_owned().concat(payload.as_str())
}

/// The `GET_GLOBAL` success response: some first-hit persona, and a JSON
/// object pairing it with the found value.
pub open spec fn global_ok_reply(
    h0: crate::memstore::Hier,
    ord: Seq<Seq<char>>,
    app: Seq<char>,
    key: Seq<char>,
    s: Seq<char>,
) -> bool {
    exists|i: int, w: serde_json::Value, pv: serde_json::Value|
        #![trigger lookup(h0, ord[i], app, key), obj_view(w), crate::json::str_content(pv)]
        {
            &&& 0 <= i < ord.len()
            &&& lookup(h0, ord[i], app, key) is Some
            &&& forall|j: int| 0 <= j < i ==> lookup(h0, #[trigger] ord[j], app, key) is None
            &&& crate::json::str_content(pv) == Some(ord[i])
            &&& obj_view(w) == Some(
                Map::<Seq<char>, serde_json::Value>::empty().insert("persona"@, pv).insert(
                    "value"@,
                    lookup(h0, ord[i], app, key).unwrap(),
                ),
            )
            &&& s == "OK "@ + json_text(w)
        }
}

/// Handles one protocol line against the store: parses the command,
/// dispatches it, and produces the response line, exactly as the wire
/// grammar prescribes.
pub fn handle_line(store: &mut MemStore, line: &str) -> (r: LineReply)
    requires
        old(store).wf(),
    ensures
        final(store).wf(),
        ({
            let h0 = old(store).hier();
            match parse_request(line@) {
                Request::Empty => r == LineReply::Silent && final(store).hier() == h0,
                Request::Ping => final(store).hier() == h0 && (r matches LineReply::Reply(s)
                    && s@ == "PONG"@),
                Request::Quit => final(store).hier() == h0 && r == LineReply::Close,
                Request::Unknown => final(store).hier() == h0 && (r matches LineReply::Reply(s)
                    && s@ == "ERR unknown command"@),
                Request::Missing => final(store).hier() == h0 && (r matches LineReply::Reply(s)
                    && s@ == "ERR missing arguments"@),
                Request::Get { persona, app, key } => final(store).hier() == h0 && (match lookup(
                    h0,
                    persona,
                    app,
                    key,
                ) {
                    Some(v) => r matches LineReply::Reply(s) && s@ == "OK "@ + json_text(v),
                    None => r matches LineReply::Reply(s) && s@ == "ERR "@ + reason_view(
                        lookup_err(h0, persona, app),
                    ),
                }),
                Request::Put { persona, app, key, value_text } => (match json_parse(value_text) {
                    Some(v) => final(store).hier() == hier_insert(h0, persona, app, key, v) && (
                    r matches LineReply::Reply(s) && s@ == "OK"@),
                    None => final(store).hier() == h0 && (r matches LineReply::Reply(s) && s@
                        == "ERR invalid json value"@),
                }),
                Request::Del { persona, app, key } => final(store).hier() == hier_remove(
                    h0,
                    persona,
                    app,
                    key,
                ) && (r matches LineReply::Reply(s) && s@ == "OK"@),
                Request::ListPersonas => final(store).hier() == h0 && (r matches LineReply::Reply(
                    s,
                ) && s@ == "OK "@ + json_text_of_list(old(store).persona_order())),
                Request::ListApps { persona } => final(store).hier() == h0 && (match r {
                    LineReply::Reply(s) => exists|elems: Seq<Seq<char>>|
                        #![auto]
                        elems.to_set() == (if h0.contains_key(persona) {
                            h0[persona].dom()
                        } else {
                            Set::empty()
                        }) && s@ == "OK "@ + json_text_of_list(elems),
                    _ => false,
                }),
                Request::Dump { persona, app } => final(store).hier() == h0 && (if h0.contains_key(
                    persona,
                ) && h0[persona].contains_key(app) {
                    match r {
                        LineReply::Reply(s) => exists|v: serde_json::Value|
                            #![auto]
                            obj_view(v) == Some(h0[persona][app]) && s@ == "OK "@ + json_text(v),
                        _ => false,
                    }
                } else {
                    r matches LineReply::Reply(s) && s@ == "ERR "@ + reason_view(
                        lookup_err(h0, persona, app),
                    )
                }),
                Request::DumpApp { app } => final(store).hier() == h0 && (match r {
                    LineReply::Reply(s) => exists|v: serde_json::Value|
                        #![auto]
                        obj2_view(v) == Some(dump_model(h0, app)) && s@ == "OK "@ + json_text(v),
                    _ => false,
                }),
                Request::GetGlobal { app, key } => final(store).hier() == h0 && (match r {
                    LineReply::Reply(s) => {
                        ||| global_ok_reply(h0, old(store).persona_order(), app, key, s@)
                        ||| (s@ == "ERR "@ + reason_view(Error::KeyNotFound) && forall|i: int|
                            0 <= i < old(store).persona_order().len() ==> lookup(
                                h0,
                                #[trigger] old(store).persona_order()[i],
                                app,
                                key,
                            ) is None)
                    },
                    _ => false,
                }),
                Request::Move { src, dst, app, key } => (match lookup(h0, src, app, key) {
                    Some(v) => final(store).hier() == hier_insert(
                        hier_remove(h0, src, app, key),
                        dst,
                        app,
                        key,
                        v,
                    ) && (r matches LineReply::Reply(s) && s@ == "OK"@),
                    None => final(store).hier() == h0 && (r matches LineReply::Reply(s) && s@
                        == "ERR "@ + reason_view(lookup_err(h0, src, app))),
                }),
            }
        }),
{
    let (t0, p1) = match next_token(line, 0) {
        None => {
            return LineReply::Silent;
        },
        Some(x) => x,
    };
    if eq_upper(t0.as_str(), "PING") {
        return LineReply::Reply("PONG".to_owned());
    }
    if eq_upper(t0.as_str(), "QUIT") {
        return LineReply::Close;
    }
    if eq_upper(t0.as_str(), "GET") {
        let (t1, p2) = match next_token(line, p1) {
            None => {
                return LineReply::Reply(missing_reply());
            },
            Some(x) => x,
        };
        let (t2, p3) = match next_token(line, p2) {
            None => {
                return LineReply::Reply(missing_reply());
            },
            Some(x) => x,
        };
        let (t3, _p4) = match next_token(line, p3) {
            None => {
                return LineReply::Reply(missing_reply());
            },
            Some(x) => x,
        };
        return match store.get(t1.as_str(), t2.as_str(), t3.as_str()) {
            Ok(v) => LineReply::Reply(payload_reply(to_json_text(&v).unwrap())),
            Err(e) => LineReply::Reply(err_reply(e.reason())),
        };
    }
    if eq_upper(t0.as_str(), "SET") {
        let (t1, p2) = match next_token(line, p1) {
            None => {
                return LineReply::Reply(missing_reply());
            },
            Some(x) => x,
        };
        let (t2, p3) = match next_token(line, p2) {
            None => {
                return LineReply::Reply(missing_reply());
            },
            Some(x) => x,
        };
        let (t3, p4) = match next_token(line, p3) {
            None => {
                return LineReply::Reply(missing_reply());
            },
            Some(x) => x,
        };
        match next_token(line, p4) {
            None => {
                return LineReply::Reply(missing_reply());
            },
            Some(_) => {
            },
        };
        let value_text = rest_of(line, p4);
        return match parse_json_text(value_text.as_str()) {
            Some(v) => {
                let _ = store.set(t1.as_str(), t2.as_str(), t3.as_str(), v);
                LineReply::Reply(ok_reply())
            },
            None => LineReply::Reply("ERR invalid json value".to_owned()),
        };
    }
    if eq_upper(t0.as_str(), "DEL") {
        let (t1, p2) = match next_token(line, p1) {
            None => {
                return LineReply::Reply(missing_reply());
            },
            Some(x) => x,
        };
        let (t2, p3) = match next_token(line, p2) {
            None => {
                return LineReply::Reply(missing_reply());
            },
            Some(x) => x,
        };
        let (t3, _p4) = match next_token(line, p3) {
            None => {
                return LineReply::Reply(missing_reply());
            },
            Some(x) => x,
        };
        let _ = store.delete(t1.as_str(), t2.as_str(), t3.as_str());
        return LineReply::Reply(ok_reply());
    }
    if eq_upper(t0.as_str(), "LIST_PERSONAS") {
        let list = match store.get_personas() {
            Ok(l) => l,
            Err(e) => {
                return LineReply::Reply(err_reply(e.reason()));
            },
        };
        return LineReply::Reply(payload_reply(string_list_text(&list).unwrap()));
    }
    if eq_upper(t0.as_str(), "LIST_APPS") {
        let (t1, _p2) = match next_token(line, p1) {
            None => {
                return LineReply::Reply(missing_reply());
            },
            Some(x) => x,
        };
        let list = match store.get_apps(t1.as_str()) {
            Ok(l) => l,
            Err(e) => {
                return LineReply::Reply(err_reply(e.reason()));
            },
        };
        let js = string_list_text(&list).unwrap();
        proof {
            let elems = list@.map_values(|x: String| x@);
            if !old(store).hier().contains_key(t1@) {
                assert(elems.len() == 0);
                assert(elems.to_set() =~= Set::<Seq<char>>::empty());
            }
            assert(js@ == json_text_of_list(elems));
        }
        return LineReply::Reply(payload_reply(js));
    }
    if eq_upper(t0.as_str(), "DUMP") {
        let (t1, p2) = match next_token(line, p1) {
            None => {
                return LineReply::Reply(missing_reply());
            },
            Some(x) => x,
        };
        let (t2, _p3) = match next_token(line, p2) {
            None => {
                return LineReply::Reply(missing_reply());
            },
            Some(x) => x,
        };
        return match store.get_app_store(t1.as_str(), t2.as_str()) {
            Ok(d) => {
                let v = app_data_value(&d);
                LineReply::Reply(payload_reply(to_json_text(&v).unwrap()))
            },
            Err(e) => LineReply::Reply(err_reply(e.reason())),
        };
    }
    if eq_upper(t0.as_str(), "DUMP_APP") {
        let (t1, _p2) = match next_token(line, p1) {
            None => {
                return LineReply::Reply(missing_reply());
            },
            Some(x) => x,
        };
        return match store.dump_app(t1.as_str()) {
            Ok(d) => {
                let v = persona_data_value(&d);
                LineReply::Reply(payload_reply(to_json_text(&v).unwrap()))
            },
            Err(e) => LineReply::Reply(err_reply(e.reason())),
        };
    }
    if eq_upper(t0.as_str(), "GET_GLOBAL") {
        let (t1, p2) = match next_token(line, p1) {
            None => {
                return LineReply::Reply(missing_reply());
            },
            Some(x) => x,
        };
        let (t2, _p3) = match next_token(line, p2) {
            None => {
                return LineReply::Reply(missing_reply());
            },
            Some(x) => x,
        };
        return match store.get_global(t1.as_str(), t2.as_str()) {
            Ok((v, persona)) => {
                let ghost h0 = old(store).hier();
                let ghost ord = old(store).persona_order();
                let mut m = obj_new();
                let ghost m0 = m;
                let pv = string_value(persona);
                obj_insert(&mut m, "persona".to_owned(), pv);
                obj_insert(&mut m, "value".to_owned(), clone_value(&v));
                let w = obj_value(m);
                proof {
                    assert(obj_entries(m0) =~= Map::<Seq<char>, serde_json::Value>::empty());
                    assert(obj_view(w) == Some(
                        Map::<Seq<char>, serde_json::Value>::empty().insert("persona"@, pv).insert(
                            "value"@,
                            v,
                        ),
                    ));
                }
                let js = to_json_text(&w).unwrap();
                let out = payload_reply(js);
                proof {
                    let i = choose|i: int|
                        {
                            &&& 0 <= i < ord.len()
                            &&& lookup(h0, #[trigger] ord[i], t1@, t2@) == Some(v)
                            &&& persona@ == ord[i]
                            &&& forall|j: int|
                                0 <= j < i ==> lookup(h0, #[trigger] ord[j], t1@, t2@) is None
                        };
                    assert(lookup(h0, ord[i], t1@, t2@) == Some(v));
                    assert(crate::json::str_content(pv) == Some(ord[i]));
                    assert(out@ == "OK "@ + json_text(w));
                    assert(global_ok_reply(h0, ord, t1@, t2@, out@));
                }
                LineReply::Reply(out)
            },
            Err(e) => LineReply::Reply(err_reply(e.reason())),
        };
    }
    if eq_upper(t0.as_str(), "MOVE") {
        let (t1, p2) = match next_token(line, p1) {
            None => {
                return LineReply::Reply(missing_reply());
            },
            Some(x) => x,
        };
        let (t2, p3) = match next_token(line, p2) {
            None => {
                return LineReply::Reply(missing_reply());
            },
            Some(x) => x,
        };
        let (t3, p4) = match next_token(line, p3) {
            None => {
                return LineReply::Reply(missing_reply());
            },
            Some(x) => x,
        };
        let (t4, _p5) = match next_token(line, p4) {
            None => {
                return LineReply::Reply(missing_reply());
            },
            Some(x) => x,
        };
        return match store.move_key(t1.as_str(), t2.as_str(), t3.as_str(), t4.as_str()) {
            Ok(_) => LineReply::Reply(ok_reply()),
            Err(e) => LineReply::Reply(err_reply(e.reason())),
        };
    }
    LineReply::Reply("ERR unknown command".to_owned())
}

fn missing_reply() -> (r: String)
    ensures
        r@ == "ERR missing arguments"@,
{
    "ERR missing arguments".to_owned()
}

/// The personas whose durable snapshot a command line may change: the
/// target of `SET` and `DEL`, both sides of `MOVE`, nothing else.  The
/// caller re-persists these after handling the line.
pub fn touched_personas(line: &str) -> (r: Vec<String>)
    ensures
        ({
            let views = r@.map_values(|s: String| s@);
            match parse_request(line@) {
                Request::Put { persona, app, key, value_text } => views == seq![persona],
                Request::Del { persona, app, key } => views == seq![persona],
                Request::Move { src, dst, app, key } => views == seq![src, dst],
                _ => views.len() == 0,
            }
        }),
{
    let none: Vec<String> = Vec::new();
    let (t0, p1) = match next_token(line, 0) {
        None => {
            return none;
        },
        Some(x) => x,
    };
    if eq_upper(t0.as_str(), "PING") {
        return none;
    }
    if eq_upper(t0.as_str(), "QUIT") {
        return none;
    }
    if eq_upper(t0.as_str(), "GET") {
        return none;
    }
    let is_set = eq_upper(t0.as_str(), "SET");
    let is_del = if is_set {
        false
    } else {
        eq_upper(t0.as_str(), "DEL")
    };
    let is_move = if is_set || is_del {
        false
    } else {
        if eq_upper(t0.as_str(), "LIST_PERSONAS") {
            return none;
        }
        if eq_upper(t0.as_str(), "LIST_APPS") {
            return none;
        }
        if eq_upper(t0.as_str(), "DUMP") {
            return none;
        }
        if eq_upper(t0.as_str(), "DUMP_APP") {
            return none;
        }
        if eq_upper(t0.as_str(), "GET_GLOBAL") {
            return none;
        }
        eq_upper(t0.as_str(), "MOVE")
    };
    if !is_set && !is_del && !is_move {
        return none;
    }
    let (t1, p2) = match next_token(line, p1) {
        None => {
            return none;
        },
        Some(x) => x,
    };
    let (t2, p3) = match next_token(line, p2) {
        None => {
            return none;
        },
        Some(x) => x,
    };
    let (_t3, p4) = match next_token(line, p3) {
        None => {
            return none;
        },
        Some(x) => x,
    };
    if is_set || is_move {
        match next_token(line, p4) {
            None => {
                return none;
            },
            Some(_) => {
            },
        }
    }
    let ghost t1v = t1@;
    let ghost t2v = t2@;
    let mut out: Vec<String> = Vec::new();
    out.push(t1);
    if is_move {
        out.push(t2);
        proof {
            assert(parse_request(line@) matches Request::Move { src, dst, app, key });
            assert(out@.map_values(|s: String| s@) =~= seq![t1v, t2v]);
        }
    } else {
        proof {
            if is_set {
                assert(parse_request(line@) matches Request::Put { persona, app, key, value_text });
            } else {
                assert(parse_request(line@) matches Request::Del { persona, app, key });
            }
            assert(out@.map_values(|s: String| s@) =~= seq![t1v]);
        }
    }
    out
}

} // verus!
