//! What the DevTools-protocol client decides: where a `ws://` URL points, how
//! an incoming message is routed, and how an evaluation's reply reads. The
//! socket, its thread and the HTTP endpoints are run by the caller.
use vstd::prelude::*;
use crate::json::{Json, JsonV, get, oas_str, oget};
use crate::num::Number;
use crate::text::{find_from, find_from_exec, join3, matches_at, to_chars};

verus! {

broadcast use vstd::string::group_string_axioms;

/// The app's remote-debugging port.
pub const PORT: u16 = 9333;

pub open spec fn ws_prefix() -> Seq<char> {
    "ws://"@
}

/// The `host:port` part of a `ws://` URL: what follows `ws://` up to the next `/`.
pub open spec fn ws_authority_of(url: Seq<char>) -> Result<Seq<char>, Seq<char>> {
    if url.len() >= 5 && url.subrange(0, 5) == ws_prefix() {
        let rest = url.skip(5);
        Ok(
            match find_from(rest, "/"@, 0) {
                Some(i) => rest.subrange(0, i),
                None => rest,
            },
        )
    } else {
        Err("ws url must start with ws://"@)
    }
}

pub fn ws_authority(url: &str) -> (r: Result<String, &'static str>)
    ensures
        match ws_authority_of(url@) {
            Ok(a) => r matches Ok(x) && x@ == a,
            Err(e) => r matches Err(x) && x@ == e,
        },
{
    let uv = to_chars(url);
    let pre = to_chars("ws://");
    proof {
        reveal_strlit("ws://");
        reveal_strlit("/");
    }
    if !matches_at(&uv, &pre, 0) {
        return Err("ws url must start with ws://");
    }
    assert(uv@.subrange(0, 5) == ws_prefix());
    let rest = crate::text::slice(&uv, 5, uv.len());
    assert(rest@ =~= url@.skip(5));
    let slash = to_chars("/");
    let end = match find_from_exec(&rest, &slash, 0) {
        Some(i) => i,
        None => rest.len(),
    };
    let a = crate::text::slice(&rest, 0, end);
    assert(end == rest.len() ==> a@ =~= rest@);
    Ok(crate::text::from_chars(a.as_slice()))
}

/// A message from the socket: the reply to request `id` (its result, or its
/// error's code and message), an event with its parameters, or neither.
pub enum Incoming {
    Reply { id: u64, result: Result<Json, (Json, Json)> },
    Event { method: String, params: Json },
    Other,
}

pub enum IncomingV {
    Reply { id: u64, result: Result<JsonV, (JsonV, JsonV)> },
    Event { method: Seq<char>, params: JsonV },
    Other,
}

pub open spec fn incoming_view(m: Incoming) -> IncomingV {
    match m {
        Incoming::Reply { id, result } => IncomingV::Reply {
            id,
            result: match result {
                Ok(j) => Ok(j@),
                Err((c, m)) => Err((c@, m@)),
            },
        },
        Incoming::Event { method, params } => IncomingV::Event { method: method@, params: params@ },
        Incoming::Other => IncomingV::Other,
    }
}

pub open spec fn or_null(v: Option<JsonV>) -> JsonV {
    match v {
        Some(x) => x,
        None => JsonV::Null,
    }
}

/// How a message is routed: one with a non-negative integer `id` answers a
/// request; otherwise one with a string `method` is an event.
pub open spec fn route(msg: JsonV) -> IncomingV {
    match get(msg, "id"@) {
        Some(JsonV::Num(Number::Int(id))) if id >= 0 => IncomingV::Reply {
            id: id as u64,
            result: match get(msg, "error"@) {
                Some(err) => Err((or_null(get(err, "code"@)), or_null(get(err, "message"@)))),
                None => Ok(or_null(get(msg, "result"@))),
            },
        },
        _ => match oas_str(get(msg, "method"@)) {
            Some(m) => IncomingV::Event { method: m, params: or_null(get(msg, "params"@)) },
            None => IncomingV::Other,
        },
    }
}

fn copy_or_null(v: Option<&Json>) -> (r: Json)
    ensures
        r@ == or_null(crate::json::opt_view(v)),
{
    match v {
        Some(x) => x.deep_copy(),
        None => Json::Null,
    }
}

pub fn route_message(msg: &Json) -> (r: Incoming)
    ensures
        incoming_view(r) == route(msg@),
{
    match msg.get("id") {
        Some(Json::Num(Number::Int(id))) => if *id >= 0 {
            let result = match msg.get("error") {
                Some(err) => Err((copy_or_null(err.get("code")), copy_or_null(err.get("message")))),
                None => Ok(copy_or_null(msg.get("result"))),
            };
            return Incoming::Reply { id: *id as u64, result };
        },
        _ => {},
    }
    match msg.get("method") {
        Some(m) => match m.as_str() {
            Some(name) => Incoming::Event { method: name.to_string(), params: copy_or_null(msg.get("params")) },
            None => Incoming::Other,
        },
        None => Incoming::Other,
    }
}

/// The reply to `Runtime.evaluate`: its value (`null` when absent), or, on
/// an exception, the exception's text and description.
pub open spec fn eval_reply(r: JsonV) -> Result<JsonV, (JsonV, Seq<char>)> {
    match get(r, "exceptionDetails"@) {
        Some(e) => Err(
            (
                or_null(get(e, "text"@)),
                match oas_str(oget(get(e, "exception"@), "description"@)) {
                    Some(d) => d,
                    None => Seq::empty(),
                },
            ),
        ),
        None => Ok(or_null(oget(get(r, "result"@), "value"@))),
    }
}

pub fn eval_outcome(r: &Json) -> (out: Result<Json, (Json, String)>)
    ensures
        match eval_reply(r@) {
            Ok(v) => out matches Ok(x) && x@ == v,
            Err((t, d)) => out matches Err((x, y)) && x@ == t && y@ == d,
        },
{
    match r.get("exceptionDetails") {
        Some(e) => {
            let desc = match e.get("exception") {
                Some(x) => match x.get("description") {
                    Some(d) => match d.as_str() {
                        Some(s) => s.to_string(),
                        None => String::new(),
                    },
                    None => String::new(),
                },
                None => String::new(),
            };
            Err((copy_or_null(e.get("text")), desc))
        },
        None => {
            let v = match r.get("result") {
                Some(x) => x.get("value"),
                None => None,
            };
            Ok(copy_or_null(v))
        },
    }
}

/// An expression evaluated in a page runs as a block of its own.
pub fn wrap_block(expr: &str) -> (r: String)
    ensures
        r@ == "{\n"@ + expr@ + "\n}"@,
{
    join3("{\n", expr, "\n}")
}

} // verus!
