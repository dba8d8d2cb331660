//! The shapes of a request and a reply: JSON-RPC 2.0, one request per line.

use crate::json;
use crate::json::{find_member, no_members, signed, text, with, Json, JsonValue};
use crate::text::chars;
use crate::text::chars::same_text;
use crate::text::glue::glue2;
use vstd::prelude::*;

verus! {

pub const PARSE_ERROR: i32 = -32700;

pub const INVALID_REQUEST: i32 = -32600;

pub const METHOD_NOT_FOUND: i32 = -32601;

pub const INVALID_PARAMS: i32 = -32602;

/// The code of every failure of a request that was understood.
pub const FAILURE: i32 = -32000;

pub struct Request {
    pub jsonrpc: String,
    pub id: Json,
    pub method: String,
    pub params: Option<Vec<(String, Json)>>,
}

pub struct Reply {
    pub body: Json,
    /// The daemon stops once the reply is on its way.
    pub shutdown: bool,
}

// ---------------------------------------------------------------------------------------------
// Replies

pub open spec fn ok_json(id: JsonValue, result: JsonValue) -> JsonValue {
    JsonValue::Object(
        seq![("jsonrpc"@, JsonValue::Text("2.0"@)), ("id"@, id), ("result"@, result)],
    )
}

pub open spec fn error_json(id: JsonValue, code: int, message: Seq<char>) -> JsonValue {
    JsonValue::Object(
        seq![
            ("jsonrpc"@, JsonValue::Text("2.0"@)),
            ("id"@, id),
            (
                "error"@,
                JsonValue::Object(
                    seq![
                        ("code"@, JsonValue::Number(code)),
                        ("message"@, JsonValue::Text(message)),
                    ],
                ),
            ),
        ],
    )
}

pub fn rpc_ok(id: Json, result: Json) -> (reply: Reply)
    ensures
        reply.body@ == ok_json(id@, result@),
        !reply.shutdown,
{
    let body = with(no_members(), "jsonrpc", text("2.0"));
    let body = with(body, "id", id);
    let body = with(body, "result", result);
    assert(json::members_view(body@) =~= seq![
        ("jsonrpc"@, JsonValue::Text("2.0"@)),
        ("id"@, id@),
        ("result"@, result@),
    ]);
    Reply { body: Json::Object(body), shutdown: false }
}

pub fn rpc_err(id: Json, code: i32, message: &str) -> (reply: Reply)
    ensures
        reply.body@ == error_json(id@, code as int, message@),
        !reply.shutdown,
{
    let error = with(no_members(), "code", signed(code as i64));
    let error = with(error, "message", text(message));
    assert(json::members_view(error@) =~= seq![
        ("code"@, JsonValue::Number(code as int)),
        ("message"@, JsonValue::Text(message@)),
    ]);
    let body = with(no_members(), "jsonrpc", text("2.0"));
    let body = with(body, "id", id);
    let ghost said = json::members_view(error@);
    let body = with(body, "error", Json::Object(error));
    assert(json::members_view(body@) =~= seq![
        ("jsonrpc"@, JsonValue::Text("2.0"@)),
        ("id"@, id@),
        ("error"@, JsonValue::Object(said)),
    ]);
    Reply { body: Json::Object(body), shutdown: false }
}

pub open spec fn response(id: JsonValue, result: Result<Json, String>) -> JsonValue {
    match result {
        Ok(value) => ok_json(id, value@),
        Err(message) => error_json(id, FAILURE as int, message@),
    }
}

/// The reply to a request that was carried out, or could not be.
pub fn respond(id: Json, result: Result<Json, String>) -> (reply: Reply)
    ensures
        reply.body@ == response(id@, result),
        !reply.shutdown,
{
    match result {
        Ok(value) => rpc_ok(id, value),
        Err(message) => rpc_err(id, FAILURE, message.as_str()),
    }
}

/// The reply to parameters that do not have the shape of what they are for.
pub fn bad_params(id: Json, reason: &str) -> (reply: Reply)
    ensures
        reply.body@ == error_json(id@, INVALID_PARAMS as int, "参数无效: "@ + reason@),
        !reply.shutdown,
{
    rpc_err(id, INVALID_PARAMS, glue2("参数无效: ", reason).as_str())
}

/// `{ "success": true }`.
pub open spec fn success_json() -> JsonValue {
    JsonValue::Object(seq![("success"@, JsonValue::Bool(true))])
}

pub fn success() -> (out: Json)
    ensures
        out@ == success_json(),
{
    let members = with(no_members(), "success", Json::Bool(true));
    assert(json::members_view(members@) =~= seq![("success"@, JsonValue::Bool(true))]);
    Json::Object(members)
}

// ---------------------------------------------------------------------------------------------
// Parameters

pub open spec fn params_view(params: Option<Vec<(String, Json)>>) -> Seq<(Seq<char>, JsonValue)> {
    match params {
        Some(members) => json::members_view(members@),
        None => Seq::empty(),
    }
}

pub open spec fn parameter(params: Seq<(Seq<char>, JsonValue)>, key: Seq<char>) -> Option<
    JsonValue,
> {
    json::member(params, key)
}

pub open spec fn optional(params: Seq<(Seq<char>, JsonValue)>, key: Seq<char>) -> Option<
    Seq<char>,
> {
    match parameter(params, key) {
        Some(value) => json::as_text(value),
        None => None,
    }
}

/// A text that has to be there, or what is missing.
pub open spec fn needed(params: Seq<(Seq<char>, JsonValue)>, key: Seq<char>) -> Result<
    Seq<char>,
    Seq<char>,
> {
    match optional(params, key) {
        Some(value) => Ok(value),
        None => Err("missing parameter: "@ + key),
    }
}

pub open spec fn flag(params: Seq<(Seq<char>, JsonValue)>, key: Seq<char>) -> Option<bool> {
    match parameter(params, key) {
        Some(value) => json::as_bool(value),
        None => None,
    }
}

pub open spec fn number_or_zero(params: Seq<(Seq<char>, JsonValue)>, key: Seq<char>) -> i64 {
    match parameter(params, key) {
        Some(value) => match json::as_signed(value) {
            Some(n) => n,
            None => 0,
        },
        None => 0,
    }
}

pub fn param<'a>(params: &'a Option<Vec<(String, Json)>>, key: &str) -> (value: Option<&'a Json>)
    ensures
        match value {
            Some(value) => parameter(params_view(*params), key@) == Some(value@),
            None => parameter(params_view(*params), key@) is None,
        },
{
    match params {
        Some(members) => find_member(members, key),
        None => None,
    }
}

pub fn param_text<'a>(params: &'a Option<Vec<(String, Json)>>, key: &str) -> (value: Option<
    &'a str,
>)
    ensures
        chars::str_view(value) == optional(params_view(*params), key@),
{
    match param(params, key) {
        Some(value) => value.as_text(),
        None => None,
    }
}

/// A text that has to be there, or what to say where it is not.
pub fn param_str<'a>(params: &'a Option<Vec<(String, Json)>>, key: &str) -> (value: Result<
    &'a str,
    String,
>)
    ensures
        match value {
            Ok(value) => needed(params_view(*params), key@) == Ok::<Seq<char>, Seq<char>>(value@),
            Err(message) => needed(params_view(*params), key@) == Err::<Seq<char>, Seq<char>>(
                message@,
            ),
        },
{
    match param_text(params, key) {
        Some(value) => Ok(value),
        None => Err(glue2("missing parameter: ", key)),
    }
}

pub fn param_flag(params: &Option<Vec<(String, Json)>>, key: &str) -> (value: Option<bool>)
    ensures
        value == flag(params_view(*params), key@),
{
    match param(params, key) {
        Some(value) => value.as_bool(),
        None => None,
    }
}

pub fn param_number(params: &Option<Vec<(String, Json)>>, key: &str) -> (value: i64)
    ensures
        value == number_or_zero(params_view(*params), key@),
{
    match param(params, key) {
        Some(value) => match value.as_signed() {
            Some(n) => n,
            None => 0,
        },
        None => 0,
    }
}

/// The members without those under a key.
pub open spec fn without(members: Seq<(Seq<char>, JsonValue)>, key: Seq<char>) -> Seq<
    (Seq<char>, JsonValue),
>
    decreases members.len(),
{
    if members.len() == 0 {
        Seq::empty()
    } else {
        let before = without(members.drop_last(), key);
        if members.last().0 == key {
            before
        } else {
            before.push(members.last())
        }
    }
}

pub fn drop_member(members: &Vec<(String, Json)>, key: &str) -> (out: Vec<(String, Json)>)
    ensures
        json::members_view(out@) == without(json::members_view(members@), key@),
{
    let ghost all = json::members_view(members@);
    let mut out: Vec<(String, Json)> = no_members();
    let mut i: usize = 0;
    proof {
        json::members_view_members(members@);
    }
    while i < members.len()
        invariant
            i <= members@.len() == all.len(),
            forall|k: int|
                0 <= k < members@.len() ==> all[k] == ((#[trigger] members@[k]).0@, members@[k].1@),
            json::members_view(out@) == without(all.take(i as int), key@),
        decreases members@.len() - i,
    {
        assert(all.take(i + 1).drop_last() =~= all.take(i as int));
        assert(all.take(i + 1).last() == (members@[i as int].0@, members@[i as int].1@));
        if !same_text(members[i].0.as_str(), key) {
            out = with(out, members[i].0.as_str(), members[i].1.copy());
        }
        i += 1;
    }
    assert(all.take(i as int) =~= all);
    out
}

// ---------------------------------------------------------------------------------------------
// What holds of replies

/// Every reply carries the id of its request, whether the request could be carried out or not.
pub proof fn a_reply_names_its_request(id: JsonValue, result: Result<Json, String>)
    ensures
        json::at(response(id, result), "id"@) == id,
{
    reveal_strlit("jsonrpc");
    reveal_strlit("id");
    reveal_strlit("result");
    reveal_strlit("error");
    assert("jsonrpc"@.len() == 7 && "id"@.len() == 2);
    reveal_with_fuel(json::member, 4);
}

/// A reply holds either a result or an error.
pub proof fn a_reply_says_one_thing(id: JsonValue, result: Result<Json, String>)
    ensures
        (json::field(response(id, result), "result"@) is Some) == (result is Ok),
        (json::field(response(id, result), "error"@) is Some) == (result is Err),
{
    reveal_strlit("jsonrpc");
    reveal_strlit("id");
    reveal_strlit("result");
    reveal_strlit("error");
    assert("jsonrpc"@.len() == 7 && "id"@.len() == 2 && "result"@.len() == 6 && "error"@.len()
        == 5);
    reveal_with_fuel(json::member, 4);
}

/// A request that was carried out is answered with its result, and one that could not be with the
/// code -32000 and the reason, always under the id of the request.
pub proof fn an_answer_has_its_shape(id: JsonValue, value: Json, message: String)
    ensures
        json::has_member(response(id, Ok(value)), "jsonrpc"@, JsonValue::Text("2.0"@)),
        json::has_member(response(id, Ok(value)), "id"@, id),
        json::has_member(response(id, Ok(value)), "result"@, value@),
        json::has_member(response(id, Err(message)), "jsonrpc"@, JsonValue::Text("2.0"@)),
        json::has_member(response(id, Err(message)), "id"@, id),
        json::has_member(
            response(id, Err(message)),
            "error"@,
            JsonValue::Object(
                seq![
                    ("code"@, JsonValue::Number(-32000)),
                    ("message"@, JsonValue::Text(message@)),
                ],
            ),
        ),
        json::has_member(success_json(), "success"@, JsonValue::Bool(true)),
        PARSE_ERROR == -32700 && INVALID_REQUEST == -32600 && METHOD_NOT_FOUND == -32601
            && INVALID_PARAMS == -32602,
{
    let good = response(id, Ok(value))->Object_0;
    assert(good[0] == ("jsonrpc"@, JsonValue::Text("2.0"@)));
    assert(good[1] == ("id"@, id));
    assert(good[2] == ("result"@, value@));
    let bad = response(id, Err(message))->Object_0;
    assert(bad[0] == ("jsonrpc"@, JsonValue::Text("2.0"@)));
    assert(bad[1] == ("id"@, id));
    assert(bad[2] == (
        "error"@,
        JsonValue::Object(
            seq![
                ("code"@, JsonValue::Number(-32000)),
                ("message"@, JsonValue::Text(message@)),
            ],
        ),
    ));
    assert(success_json()->Object_0[0] == ("success"@, JsonValue::Bool(true)));
}

/// A parameter is read as what it is: a text as a text, a truth value as one, a whole number as
/// one; what has another shape counts as missing, and a number as zero then.
pub proof fn parameters_are_read_as_what_they_are(
    params: Seq<(Seq<char>, JsonValue)>,
    key: Seq<char>,
)
    ensures
        match json::member(params, key) {
            Some(JsonValue::Text(text)) => optional(params, key) == Some(text) && needed(
                params,
                key,
            ) == Ok::<Seq<char>, Seq<char>>(text) && flag(params, key) is None && number_or_zero(
                params,
                key,
            ) == 0,
            Some(JsonValue::Bool(on)) => flag(params, key) == Some(on) && optional(
                params,
                key,
            ) is None && number_or_zero(params, key) == 0,
            Some(JsonValue::Number(n)) => (i64::MIN <= n <= i64::MAX ==> number_or_zero(params, key)
                == n) && optional(params, key) is None && flag(params, key) is None,
            _ => optional(params, key) is None && flag(params, key) is None && number_or_zero(
                params,
                key,
            ) == 0,
        },
        optional(params, key) is None ==> needed(params, key) == Err::<Seq<char>, Seq<char>>(
            "missing parameter: "@ + key,
        ),
{
}

} // verus!
