//! Deleting from the cloud: one version, all versions of a game, or the game itself.

use crate::daemon::sync::actions;
use crate::daemon::sync::actions::check_version;
use crate::json;
use crate::json::{no_members, number, text, with, Json, JsonValue};
use crate::text::chars;
use crate::text::chars::same_text;
use crate::text::glue::{glue2, glue3};
use vstd::prelude::*;

verus! {

/// A version in the cloud.
pub struct VersionInfo {
    pub name: String,
    pub size: u64,
}

pub open spec fn version_at(list: Seq<VersionInfo>, version: Seq<char>, from: int) -> Option<int>
    decreases list.len() - from,
{
    if from < 0 || from >= list.len() {
        None
    } else if list[from].name@ == version {
        Some(from)
    } else {
        version_at(list, version, from + 1)
    }
}

/// Which version is deleted: one that is there. A version that is not is an error, and nothing
/// is deleted.
pub open spec fn deletion(list: Seq<VersionInfo>, version: Seq<char>) -> Result<int, Seq<char>> {
    if !actions::names_version(version) {
        Err(actions::bad_version(version))
    } else {
        match version_at(list, version, 0) {
            Some(i) => Ok(i),
            None => Err("云端没有这一版: "@ + version),
        }
    }
}

pub fn find_version(list: &Vec<VersionInfo>, version: &str) -> (out: Result<usize, String>)
    ensures
        match out {
            Ok(i) => i < list@.len() && deletion(list@, version@) == Ok::<int, Seq<char>>(i as int),
            Err(message) => deletion(list@, version@) == Err::<int, Seq<char>>(message@),
        },
{
    match check_version(version) {
        Ok(_) => {},
        Err(message) => {
            return Err(message);
        },
    }
    let mut i: usize = 0;
    while i < list.len()
        invariant
            i <= list@.len(),
            actions::names_version(version@),
            version_at(list@, version@, 0) == version_at(list@, version@, i as int),
        decreases list@.len() - i,
    {
        if same_text(list[i].name.as_str(), version) {
            return Ok(i);
        }
        i += 1;
    }
    Err(glue2("云端没有这一版: ", version))
}

/// What the index says of a game: how many versions there are, the newest one, and its size.
pub struct Left {
    pub versions: usize,
    pub latest: Option<String>,
    pub size: u64,
    /// The cloud does not know the game any more.
    pub gone: bool,
}

pub open spec fn newest(list: Seq<VersionInfo>) -> (Option<Seq<char>>, u64) {
    if list.len() == 0 {
        (None, 0)
    } else {
        (Some(list.last().name@), list.last().size)
    }
}

/// What is left once a version is gone, and the reply to the client.
pub fn after_deletion(list: &Vec<VersionInfo>, at: usize, version: &str) -> (out: (Left, Json))
    requires
        at < list@.len(),
    ensures
        out.0.versions == list@.len() - 1,
        (chars::text_view(out.0.latest), out.0.size) == newest(list@.remove(at as int)),
        !out.0.gone,
        out.1@ == JsonValue::Object(
            seq![
                ("ok"@, JsonValue::Bool(true)),
                ("removed"@, JsonValue::Text(version@)),
                ("left"@, JsonValue::Number(list@.len() - 1)),
            ],
        ),
{
    let total: usize = list.len();
    let ghost rest = list@.remove(at as int);
    let (latest, size): (Option<String>, u64) = if total == 1 {
        assert(rest.len() == 0);
        (None, 0)
    } else if at == total - 1 {
        assert(rest.last() == list@[total - 2]);
        (Some(list[total - 2].name.clone()), list[total - 2].size)
    } else {
        assert(rest.last() == list@[total - 1]);
        (Some(list[total - 1].name.clone()), list[total - 1].size)
    };
    let reply = with(no_members(), "ok", Json::Bool(true));
    let reply = with(reply, "removed", text(version));
    let reply = with(reply, "left", number((total - 1) as u64));
    assert(json::members_view(reply@) =~= seq![
        ("ok"@, JsonValue::Bool(true)),
        ("removed"@, JsonValue::Text(version@)),
        ("left"@, JsonValue::Number(list@.len() - 1)),
    ]);
    (Left { versions: total - 1, latest, size, gone: false }, Json::Object(reply))
}

/// What is left where all versions of a game are gone, and the reply to the client. Its identity
/// stays, so that the next upload goes to the same one, unless it was deleted as well.
pub fn all_deleted(removed: u64, with_identity: bool) -> (out: (Left, Json))
    ensures
        out.0.versions == 0,
        out.0.latest is None,
        out.0.size == 0,
        out.0.gone == with_identity,
        out.1@ == JsonValue::Object(
            seq![("ok"@, JsonValue::Bool(true)), ("removed"@, JsonValue::Number(removed as int))],
        ),
{
    let reply = with(no_members(), "ok", Json::Bool(true));
    let reply = with(reply, "removed", number(removed));
    assert(json::members_view(reply@) =~= seq![
        ("ok"@, JsonValue::Bool(true)),
        ("removed"@, JsonValue::Number(removed as int)),
    ]);
    (Left { versions: 0, latest: None, size: 0, gone: with_identity }, Json::Object(reply))
}

/// The identity of what is to be deleted with everything in it: it has to be known.
pub fn identity_to_delete(known: Option<String>, key: &str) -> (out: Result<String, String>)
    ensures
        match out {
            Ok(cloud_id) => known == Some(cloud_id),
            Err(message) => known is None && message@ == "索引里没有这一款（"@ + key@
                + "）—— 先刷新一次云端清单再来删"@,
        },
{
    match known {
        Some(cloud_id) => Ok(cloud_id),
        None => Err(
            glue3("索引里没有这一款（", key, "）—— 先刷新一次云端清单再来删"),
        ),
    }
}

/// Deleting a version that is not there is an error, not a success.
pub proof fn only_what_is_there_is_deleted(list: Seq<VersionInfo>, version: Seq<char>)
    requires
        forall|i: int| 0 <= i < list.len() ==> (#[trigger] list[i]).name@ != version,
    ensures
        deletion(list, version) is Err,
{
    lemma_not_there(list, version, 0);
}

proof fn lemma_not_there(list: Seq<VersionInfo>, version: Seq<char>, from: int)
    requires
        0 <= from,
        forall|i: int| 0 <= i < list.len() ==> (#[trigger] list[i]).name@ != version,
    ensures
        version_at(list, version, from) is None,
    decreases list.len() - from,
{
    if from < list.len() {
        lemma_not_there(list, version, from + 1);
    }
}

/// A version that is there is deleted: the first of its name.
pub proof fn what_is_there_is_deleted(list: Seq<VersionInfo>, i: int)
    requires
        0 <= i < list.len(),
        actions::names_version(list[i].name@),
        forall|k: int| 0 <= k < i ==> (#[trigger] list[k]).name@ != list[i].name@,
    ensures
        deletion(list, list[i].name@) == Ok::<int, Seq<char>>(i),
{
    lemma_version(list, i, 0);
}

proof fn lemma_version(list: Seq<VersionInfo>, i: int, from: int)
    requires
        0 <= from <= i < list.len(),
        forall|k: int| 0 <= k < i ==> (#[trigger] list[k]).name@ != list[i].name@,
    ensures
        version_at(list, list[i].name@, from) == Some(i),
    decreases i - from,
{
    if from < i {
        assert(list[from].name@ != list[i].name@);
        lemma_version(list, i, from + 1);
    }
}

/// What cannot be the name of a version is refused before it is looked for.
pub proof fn a_bad_name_is_refused(list: Seq<VersionInfo>, version: Seq<char>)
    requires
        !actions::names_version(version),
    ensures
        deletion(list, version) == Err::<int, Seq<char>>(
            "不是合法的版本名: "@ + version + "（形如 20260911T101500Z）"@,
        ),
{
}

/// The newest of the versions that are left is the last one, with its size; without versions there
/// is none.
pub proof fn the_last_version_is_the_newest(list: Seq<VersionInfo>, own: VersionInfo)
    ensures
        newest(list.push(own)) == (Some(own.name@), own.size),
        newest(Seq::empty()) == (None::<Seq<char>>, 0u64),
{
}

/// What is said of a version that cannot be deleted: its name is none, or it is not there.
pub proof fn what_is_said_of_a_missing_version(list: Seq<VersionInfo>, version: Seq<char>)
    ensures
        !actions::names_version(version) ==> deletion(list, version) == Err::<int, Seq<char>>(
            "不是合法的版本名: "@ + version + "（形如 20260911T101500Z）"@,
        ),
        actions::names_version(version) && version_at(list, version, 0) is None ==> deletion(
            list,
            version,
        ) == Err::<int, Seq<char>>("云端没有这一版: "@ + version),
{
}

} // verus!
