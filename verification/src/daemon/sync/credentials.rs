//! Credentials: what is stored and taken away, and what a client hears of it.
//!
//! No reply holds a secret.

use crate::daemon::game_json;
use crate::daemon::game_json::path_value;
use crate::json;
use crate::json::{no_members, number, with, Json, JsonValue};
use crate::path::FsPath;
use crate::text::glue::glue3;
use crate::text::search;
use crate::text::search::trimmed;
use vstd::prelude::*;

verus! {

/// The secrets that there are.
#[derive(Debug, Clone, Copy, PartialEq, Eq, Structural)]
pub enum SecretKey {
    B2KeyId,
    B2AppKey,
    KopiaPassword,
}

/// A step on the store of secrets. `T` is the secret.
pub enum SecretStep<T> {
    Clear(SecretKey),
    Store(SecretKey, T),
}

pub open spec fn step_view(step: SecretStep<String>) -> SecretStep<Seq<char>> {
    match step {
        SecretStep::Clear(key) => SecretStep::Clear(key),
        SecretStep::Store(key, secret) => SecretStep::Store(key, secret@),
    }
}

pub open spec fn steps_view(steps: Seq<SecretStep<String>>) -> Seq<SecretStep<Seq<char>>> {
    steps.map_values(|step: SecretStep<String>| step_view(step))
}

/// What is done to the store, step by step, and what the client hears once all of it is done.
pub struct SecretPlan {
    pub steps: Vec<SecretStep<String>>,
    pub reply: Json,
}

pub open spec fn word_json(word: Seq<char>) -> JsonValue {
    JsonValue::Object(seq![(word, JsonValue::Bool(true))])
}

fn word_value(word: &str) -> (out: Json)
    ensures
        out@ == word_json(word@),
{
    let out = with(no_members(), word, Json::Bool(true));
    assert(json::members_view(out@) =~= seq![(word@, JsonValue::Bool(true))]);
    Json::Object(out)
}

/// The credentials of the storage: both, or none, which takes them away.
pub open spec fn credential_steps(key_id: Seq<char>, app_key: Seq<char>) -> Result<
    (Seq<SecretStep<Seq<char>>>, JsonValue),
    Seq<char>,
> {
    let id = search::trim(key_id);
    let key = search::trim(app_key);
    if id.len() == 0 && key.len() == 0 {
        Ok(
            (
                seq![SecretStep::Clear(SecretKey::B2KeyId), SecretStep::Clear(SecretKey::B2AppKey)],
                word_json("cleared"@),
            ),
        )
    } else if id.len() == 0 || key.len() == 0 {
        Err("key id 和 application key 要一起填"@)
    } else {
        Ok(
            (
                seq![
                    SecretStep::Store(SecretKey::B2KeyId, id),
                    SecretStep::Store(SecretKey::B2AppKey, key),
                ],
                word_json("stored"@),
            ),
        )
    }
}

pub fn plan_credentials(key_id: &str, app_key: &str) -> (out: Result<SecretPlan, String>)
    ensures
        match out {
            Ok(plan) => credential_steps(key_id@, app_key@) == Ok::<
                (Seq<SecretStep<Seq<char>>>, JsonValue),
                Seq<char>,
            >((steps_view(plan.steps@), plan.reply@)),
            Err(message) => credential_steps(key_id@, app_key@) == Err::<
                (Seq<SecretStep<Seq<char>>>, JsonValue),
                Seq<char>,
            >(message@),
        },
{
    let id = trimmed(key_id);
    let key = trimmed(app_key);
    let mut steps: Vec<SecretStep<String>> = Vec::new();
    if id.as_str().is_empty() && key.as_str().is_empty() {
        steps.push(SecretStep::Clear(SecretKey::B2KeyId));
        steps.push(SecretStep::Clear(SecretKey::B2AppKey));
        assert(steps_view(steps@) =~= seq![
            SecretStep::Clear(SecretKey::B2KeyId),
            SecretStep::Clear(SecretKey::B2AppKey),
        ]);
        return Ok(SecretPlan { steps, reply: word_value("cleared") });
    }
    if id.as_str().is_empty() || key.as_str().is_empty() {
        return Err("key id 和 application key 要一起填".to_owned());
    }
    let ghost (own_id, own_key) = (id@, key@);
    steps.push(SecretStep::Store(SecretKey::B2KeyId, id));
    steps.push(SecretStep::Store(SecretKey::B2AppKey, key));
    assert(steps_view(steps@) =~= seq![
        SecretStep::Store(SecretKey::B2KeyId, own_id),
        SecretStep::Store(SecretKey::B2AppKey, own_key),
    ]);
    Ok(SecretPlan { steps, reply: word_value("stored") })
}

pub open spec fn kopia_reply(word: Seq<char>, using_default: bool) -> JsonValue {
    JsonValue::Object(
        seq![(word, JsonValue::Bool(true)), ("using_default"@, JsonValue::Bool(using_default))],
    )
}

/// The password of the kopia repository. A blank one takes it away, and the default is used
/// again, which the client is told: anybody can know that one.
pub open spec fn kopia_steps(password: Seq<char>) -> (Seq<SecretStep<Seq<char>>>, JsonValue) {
    let short = search::trim(password);
    if short.len() == 0 {
        (seq![SecretStep::Clear(SecretKey::KopiaPassword)], kopia_reply("cleared"@, true))
    } else {
        (seq![SecretStep::Store(SecretKey::KopiaPassword, short)], kopia_reply("stored"@, false))
    }
}

pub fn plan_kopia_password(password: &str) -> (plan: SecretPlan)
    ensures
        (steps_view(plan.steps@), plan.reply@) == kopia_steps(password@),
{
    let short = trimmed(password);
    let mut steps: Vec<SecretStep<String>> = Vec::new();
    let clear = short.as_str().is_empty();
    let word = if clear {
        "cleared"
    } else {
        "stored"
    };
    let reply = with(no_members(), word, Json::Bool(true));
    let reply = with(reply, "using_default", Json::Bool(clear));
    assert(json::members_view(reply@) =~= seq![
        (word@, JsonValue::Bool(true)),
        ("using_default"@, JsonValue::Bool(clear)),
    ]);
    let ghost own = short@;
    if clear {
        steps.push(SecretStep::Clear(SecretKey::KopiaPassword));
        assert(steps_view(steps@) =~= seq![SecretStep::Clear(SecretKey::KopiaPassword)]);
    } else {
        steps.push(SecretStep::Store(SecretKey::KopiaPassword, short));
        assert(steps_view(steps@) =~= seq![SecretStep::Store(SecretKey::KopiaPassword, own)]);
    }
    SecretPlan { steps, reply: Json::Object(reply) }
}

/// The reply after the steps were made, or the reason why one could not be.
pub fn finish_plan(plan: SecretPlan, outcome: Result<(), String>) -> (out: Result<Json, String>)
    ensures
        match outcome {
            Ok(_) => out == Ok::<Json, String>(plan.reply),
            Err(message) => out == Err::<Json, String>(message),
        },
{
    match outcome {
        Ok(_) => Ok(plan.reply),
        Err(message) => Err(message),
    }
}

// ---------------------------------------------------------------------------------------------
// The file under a master password

/// Only a file under a master password can be unlocked; `store` says what there is.
pub fn check_unlock(is_encrypted: bool, store: &str) -> (out: Result<(), String>)
    ensures
        match out {
            Ok(_) => is_encrypted,
            Err(message) => !is_encrypted && message@ == "当前不需要解锁（凭据存在"@ + store@
                + "里）"@,
        },
{
    if is_encrypted {
        Ok(())
    } else {
        Err(glue3("当前不需要解锁（凭据存在", store, "里）"))
    }
}

pub fn check_lock(is_encrypted: bool) -> (out: Result<(), String>)
    ensures
        match out {
            Ok(_) => is_encrypted,
            Err(message) => !is_encrypted && message@ == "当前不是主密码凭据文件模式"@,
        },
{
    if is_encrypted {
        Ok(())
    } else {
        Err("当前不是主密码凭据文件模式".to_owned())
    }
}

/// A new master password makes the old one useless, so a client has to mean it.
pub fn check_master_password(present: bool, force: bool) -> (out: Result<(), String>)
    ensures
        out is Ok == (!present || force),
        out is Err ==> out->Err_0@
            == "已经有一个主密码凭据文件了；重设主密码会重新加密它（旧密码立即失效），确认请再点一次"@,
{
    if present && !force {
        Err(
            "已经有一个主密码凭据文件了；重设主密码会重新加密它（旧密码立即失效），确认请再点一次".to_owned(),
        )
    } else {
        Ok(())
    }
}

pub fn check_clear_master(present: bool) -> (out: Result<(), String>)
    ensures
        match out {
            Ok(_) => present,
            Err(message) => !present && message@ == "没有主密码凭据文件"@,
        },
{
    if present {
        Ok(())
    } else {
        Err("没有主密码凭据文件".to_owned())
    }
}

/// `{ "unlocked": true, "store": … }` or `{ "locked": true, "store": … }`.
pub fn lock_reply(locked: bool, store: Json) -> (out: Json)
    ensures
        out@ == JsonValue::Object(
            seq![
                (
                    if locked {
                        "locked"@
                    } else {
                        "unlocked"@
                    },
                    JsonValue::Bool(true),
                ),
                ("store"@, store@),
            ],
        ),
{
    let word = if locked {
        "locked"
    } else {
        "unlocked"
    };
    let out = with(no_members(), word, Json::Bool(true));
    let out = with(out, "store", store);
    assert(json::members_view(out@) =~= seq![
        (word@, JsonValue::Bool(true)),
        ("store"@, store@),
    ]);
    Json::Object(out)
}

pub fn master_reply(file: &FsPath, count: usize) -> (out: Json)
    ensures
        out@ == JsonValue::Object(
            seq![
                ("stored"@, JsonValue::Bool(true)),
                ("path"@, game_json::path_json(file@)),
                ("count"@, JsonValue::Number(count as int)),
            ],
        ),
{
    let out = with(no_members(), "stored", Json::Bool(true));
    let out = with(out, "path", path_value(file));
    let out = with(out, "count", number(count as u64));
    assert(json::members_view(out@) =~= seq![
        ("stored"@, JsonValue::Bool(true)),
        ("path"@, game_json::path_json(file@)),
        ("count"@, JsonValue::Number(count as int)),
    ]);
    Json::Object(out)
}

pub fn removed_reply() -> (out: Json)
    ensures
        out@ == word_json("removed"@),
{
    word_value("removed")
}

/// What a client hears of credentials does not depend on what they are.
pub proof fn no_secret_is_echoed(
    key_id: Seq<char>,
    app_key: Seq<char>,
    other_id: Seq<char>,
    other_key: Seq<char>,
)
    requires
        search::trim(key_id).len() > 0,
        search::trim(app_key).len() > 0,
        search::trim(other_id).len() > 0,
        search::trim(other_key).len() > 0,
    ensures
        credential_steps(key_id, app_key) is Ok,
        credential_steps(other_id, other_key) is Ok,
        credential_steps(key_id, app_key)->Ok_0.1 == credential_steps(other_id, other_key)->Ok_0.1,
        kopia_steps(key_id).1 == kopia_steps(other_id).1,
{
}

/// Two credentials are stored each under its own key, without white space around them; two blank
/// ones are taken away, and one alone is refused.
pub proof fn credentials_come_in_pairs(key_id: Seq<char>, app_key: Seq<char>)
    ensures
        ({
            let (id, key) = (search::trim(key_id), search::trim(app_key));
            &&& id.len() > 0 && key.len() > 0 ==> credential_steps(key_id, app_key) == Ok::<
                (Seq<SecretStep<Seq<char>>>, JsonValue),
                Seq<char>,
            >(
                (
                    seq![
                        SecretStep::Store(SecretKey::B2KeyId, id),
                        SecretStep::Store(SecretKey::B2AppKey, key),
                    ],
                    JsonValue::Object(seq![("stored"@, JsonValue::Bool(true))]),
                ),
            )
            &&& id.len() == 0 && key.len() == 0 ==> credential_steps(key_id, app_key) == Ok::<
                (Seq<SecretStep<Seq<char>>>, JsonValue),
                Seq<char>,
            >(
                (
                    seq![
                        SecretStep::Clear(SecretKey::B2KeyId),
                        SecretStep::Clear(SecretKey::B2AppKey),
                    ],
                    JsonValue::Object(seq![("cleared"@, JsonValue::Bool(true))]),
                ),
            )
            &&& (id.len() == 0) != (key.len() == 0) ==> credential_steps(key_id, app_key) is Err
        }),
{
}

/// A password of the repository is stored without white space around it; a blank one is taken
/// away, and the client is told that the default is used then.
pub proof fn a_blank_password_means_the_default(password: Seq<char>)
    ensures
        search::trim(password).len() > 0 ==> kopia_steps(password).0 == seq![
            SecretStep::Store(SecretKey::KopiaPassword, search::trim(password)),
        ] && json::has_member(kopia_steps(password).1, "stored"@, JsonValue::Bool(true))
            && json::has_member(kopia_steps(password).1, "using_default"@, JsonValue::Bool(false)),
        search::trim(password).len() == 0 ==> kopia_steps(password).0 == seq![
            SecretStep::<Seq<char>>::Clear(SecretKey::KopiaPassword),
        ] && json::has_member(kopia_steps(password).1, "cleared"@, JsonValue::Bool(true))
            && json::has_member(kopia_steps(password).1, "using_default"@, JsonValue::Bool(true)),
{
    let members = kopia_steps(password).1->Object_0;
    assert(members[0].1 == JsonValue::Bool(true));
    assert(members[1].0 == "using_default"@);
    if search::trim(password).len() > 0 {
        assert(members[0] == ("stored"@, JsonValue::Bool(true)));
        assert(members[1] == ("using_default"@, JsonValue::Bool(false)));
    } else {
        assert(members[0] == ("cleared"@, JsonValue::Bool(true)));
        assert(members[1] == ("using_default"@, JsonValue::Bool(true)));
    }
}

} // verus!
