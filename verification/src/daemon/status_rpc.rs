//! Requests about the daemon itself: its state, where its configuration lies, and the wine
//! prefix of the machine.

use crate::config::model;
use crate::config::model::{Config, Settings};
use crate::config::paths;
use crate::config::paths::neighbour_of;
use crate::daemon::game_json;
use crate::daemon::game_json::{path_or_null, path_value};
use crate::daemon::protocol;
use crate::daemon::protocol::success;
use crate::daemon::session::Session;
use crate::json;
use crate::json::{
    no_members, number, number_or_null, text, text_or_null, with, Json, JsonValue,
};
use crate::path;
use crate::path::FsPath;
use crate::text::chars;
use crate::text::glue::glue2;
use crate::text::search;
use crate::text::search::trimmed;
use vstd::prelude::*;
use vstd::utf8::*;

verus! {

// ---------------------------------------------------------------------------------------------
// Where the configuration lies

/// The two places that a configuration can come from.
pub struct ConfigSources {
    /// The one beside the program; none where the place of the program is not known.
    pub portable: Option<FsPath>,
    pub default: FsPath,
}

pub open spec fn target_of(
    portable_file: Option<Seq<u8>>,
    default_file: Seq<u8>,
    pinned: bool,
    portable: bool,
) -> Result<Seq<u8>, Seq<char>> {
    if pinned {
        Err("这台机器的配置路径由环境变量 KOTORI_CONFIG 指定，切换来源不会生效"@)
    } else if portable {
        match portable_file {
            Some(file) => Ok(file),
            None => Err("取不到 kotori 自己的位置，没法把配置放到它旁边"@),
        }
    } else {
        Ok(default_file)
    }
}

impl ConfigSources {
    /// Where a switch leads to, or why it cannot be made. `pinned`: the environment says where
    /// the configuration is.
    pub fn target(&self, pinned: bool, portable: bool) -> (out: Result<FsPath, String>)
        ensures
            match out {
                Ok(file) => target_of(
                    model::path_view(self.portable),
                    self.default@,
                    pinned,
                    portable,
                ) == Ok::<Seq<u8>, Seq<char>>(file@),
                Err(message) => target_of(
                    model::path_view(self.portable),
                    self.default@,
                    pinned,
                    portable,
                ) == Err::<Seq<u8>, Seq<char>>(message@),
            },
    {
        if pinned {
            return Err(
                "这台机器的配置路径由环境变量 KOTORI_CONFIG 指定，切换来源不会生效".to_owned(),
            );
        }
        if portable {
            match &self.portable {
                Some(file) => Ok(file.copy()),
                None => Err("取不到 kotori 自己的位置，没法把配置放到它旁边".to_owned()),
            }
        } else {
            Ok(self.default.copy())
        }
    }
}

/// The files that the daemon writes.
pub struct Files {
    pub config: FsPath,
    pub secrets: FsPath,
    pub plain_secrets: FsPath,
}

/// A file that goes to another place, where there is such a file.
pub struct Carried {
    pub from: FsPath,
    pub to: FsPath,
}

pub open spec fn carried_view(list: Seq<Carried>) -> Seq<(Seq<u8>, Seq<u8>)> {
    list.map_values(|one: Carried| (one.from@, one.to@))
}

/// The encrypted credentials that go with a configuration file.
pub open spec fn secrets_beside(config: Seq<u8>) -> Seq<u8> {
    paths::neighbour(config, "secrets.json"@)
}

/// The plain credentials that go with a configuration file.
pub open spec fn plain_secrets_beside(config: Seq<u8>) -> Seq<u8> {
    paths::neighbour(secrets_beside(config), "credentials.json"@)
}

/// The credentials that a switch takes along, with their old and their new places: both files,
/// unless the environment says where they are.
pub open spec fn taken_along(
    secrets: Seq<u8>,
    plain_secrets: Seq<u8>,
    target: Seq<u8>,
    secrets_pinned: bool,
) -> Seq<(Seq<u8>, Seq<u8>)> {
    if secrets_pinned {
        Seq::empty()
    } else {
        seq![
            (secrets, secrets_beside(target)),
            (plain_secrets, plain_secrets_beside(target)),
        ]
    }
}

/// What a switch of the source comes to.
pub enum Switch {
    /// The configuration is there already.
    Stay(Json),
    /// It has to be moved, and the credentials first: where one of them cannot be carried,
    /// nothing is switched. `disable_current`: the file that is left would win at the next
    /// start, and has to step aside.
    Move { target: FsPath, disable_current: bool, carried: Vec<Carried> },
}

pub open spec fn unchanged_json(target: Seq<u8>) -> JsonValue {
    JsonValue::Object(
        seq![("config_path"@, game_json::path_json(target)), ("changed"@, JsonValue::Bool(false))],
    )
}

fn files_to_carry(files: &Files, target: &FsPath, secrets_pinned: bool) -> (out: Vec<Carried>)
    ensures
        carried_view(out@) == taken_along(
            files.secrets@,
            files.plain_secrets@,
            target@,
            secrets_pinned,
        ),
{
    let mut out: Vec<Carried> = Vec::new();
    if !secrets_pinned {
        let secrets = neighbour_of(target, "secrets.json");
        let plain = neighbour_of(&secrets, "credentials.json");
        out.push(Carried { from: files.secrets.copy(), to: secrets });
        out.push(Carried { from: files.plain_secrets.copy(), to: plain });
    }
    assert(carried_view(out@) =~= taken_along(
        files.secrets@,
        files.plain_secrets@,
        target@,
        secrets_pinned,
    ));
    out
}

pub fn plan_switch(
    sources: &ConfigSources,
    files: &Files,
    pinned: bool,
    secrets_pinned: bool,
    portable: bool,
) -> (out: Result<Switch, String>)
    ensures
        match target_of(
            model::path_view(sources.portable),
            sources.default@,
            pinned,
            portable,
        ) {
            Err(message) => out is Err && out->Err_0@ == message,
            Ok(target) => if path::same_path(files.config@, target) {
                out matches Ok(Switch::Stay(reply)) && reply@ == unchanged_json(target)
            } else {
                out matches Ok(Switch::Move { target: own, disable_current, carried }) && own@
                    == target && disable_current == !portable && carried_view(carried@)
                    == taken_along(files.secrets@, files.plain_secrets@, target, secrets_pinned)
            },
        },
{
    match sources.target(pinned, portable) {
        Err(message) => Err(message),
        Ok(target) => {
            if files.config.same(&target) {
                let out = with(no_members(), "config_path", path_value(&target));
                let out = with(out, "changed", Json::Bool(false));
                assert(json::members_view(out@) =~= seq![
                    ("config_path"@, game_json::path_json(target@)),
                    ("changed"@, JsonValue::Bool(false)),
                ]);
                Ok(Switch::Stay(Json::Object(out)))
            } else {
                let carried = files_to_carry(files, &target, secrets_pinned);
                Ok(Switch::Move { target, disable_current: !portable, carried })
            }
        },
    }
}

pub open spec fn switched_json(target: Seq<u8>, moved: Option<Seq<u8>>, portable: bool) -> JsonValue {
    JsonValue::Object(
        seq![
            ("config_path"@, game_json::path_json(target)),
            ("changed"@, JsonValue::Bool(true)),
            ("moved"@, game_json::optional_path(moved)),
            ("portable"@, JsonValue::Bool(portable)),
        ],
    )
}

/// Ends a switch. `outcome` is where the file that stepped aside went, or why the files could
/// not be moved; in that case everything stays where it was. From here on the credentials are
/// looked for where the plan of the switch had them carried.
pub fn finish_switch(
    files: &mut Files,
    target: FsPath,
    portable: bool,
    secrets_pinned: bool,
    outcome: Result<Option<FsPath>, String>,
) -> (out: Result<Json, String>)
    ensures
        match outcome {
            Err(reason) => {
                &&& *final(files) == *old(files)
                &&& out is Err
                &&& out->Err_0@ == "切换配置来源失败: "@ + reason@
            },
            Ok(moved) => {
                &&& out is Ok
                &&& out->Ok_0@ == switched_json(target@, model::path_view(moved), portable)
                &&& final(files).config@ == target@
                &&& final(files).secrets@ == if secrets_pinned {
                    old(files).secrets@
                } else {
                    secrets_beside(target@)
                }
                &&& final(files).plain_secrets@ == if secrets_pinned {
                    old(files).plain_secrets@
                } else {
                    plain_secrets_beside(target@)
                }
            },
        },
{
    match outcome {
        Err(reason) => Err(glue2("切换配置来源失败: ", reason.as_str())),
        Ok(moved) => {
            let out = with(no_members(), "config_path", path_value(&target));
            let out = with(out, "changed", Json::Bool(true));
            let out = with(out, "moved", path_or_null(&moved));
            let out = with(out, "portable", Json::Bool(portable));
            assert(json::members_view(out@) =~= seq![
                ("config_path"@, game_json::path_json(target@)),
                ("changed"@, JsonValue::Bool(true)),
                ("moved"@, game_json::optional_path(model::path_view(moved))),
                ("portable"@, JsonValue::Bool(portable)),
            ]);
            if !secrets_pinned {
                let secrets = neighbour_of(&target, "secrets.json");
                files.plain_secrets = neighbour_of(&secrets, "credentials.json");
                files.secrets = secrets;
            }
            files.config = target;
            Ok(Json::Object(out))
        },
    }
}

// ---------------------------------------------------------------------------------------------
// The state of the daemon

pub open spec fn session_json(session: Session) -> JsonValue {
    JsonValue::Object(
        seq![
            ("session_id"@, JsonValue::Text(session.session_id@)),
            ("game_id"@, json::optional_text(chars::text_view(session.game_id))),
            ("gamescope_pid"@, json::optional_number(session.gamescope_pid)),
            ("process_name"@, json::optional_text(chars::text_view(session.process_name))),
            ("watch_only"@, JsonValue::Bool(session.watch_only)),
            ("elapsed_secs"@, JsonValue::Number(session.elapsed_seconds as int)),
        ],
    )
}

fn session_value(session: &Session) -> (out: Json)
    ensures
        out@ == session_json(*session),
{
    let out = with(no_members(), "session_id", text(session.session_id.as_str()));
    let out = with(out, "game_id", text_or_null(&session.game_id));
    let out = with(out, "gamescope_pid", number_or_null(session.gamescope_pid));
    let out = with(out, "process_name", text_or_null(&session.process_name));
    let out = with(out, "watch_only", Json::Bool(session.watch_only));
    let out = with(out, "elapsed_secs", number(session.elapsed_seconds));
    assert(json::members_view(out@) =~= seq![
        ("session_id"@, JsonValue::Text(session.session_id@)),
        ("game_id"@, json::optional_text(chars::text_view(session.game_id))),
        ("gamescope_pid"@, json::optional_number(session.gamescope_pid)),
        ("process_name"@, json::optional_text(chars::text_view(session.process_name))),
        ("watch_only"@, JsonValue::Bool(session.watch_only)),
        ("elapsed_secs"@, JsonValue::Number(session.elapsed_seconds as int)),
    ]);
    Json::Object(out)
}

pub open spec fn status_members(
    games: nat,
    config_path: Seq<u8>,
    portable: Option<Seq<u8>>,
    pinned: bool,
    sessions: Seq<Session>,
) -> Seq<(Seq<char>, JsonValue)> {
    seq![
        ("running"@, JsonValue::Bool(true)),
        ("games"@, JsonValue::Number(games as int)),
        ("config_path"@, game_json::path_json(config_path)),
        ("config_portable_path"@, game_json::optional_path(portable)),
        ("config_pinned"@, JsonValue::Bool(pinned)),
        (
            "sessions"@,
            JsonValue::List(sessions.map_values(|session: Session| session_json(session))),
        ),
    ]
}

pub fn status(
    config: &Config,
    config_path: &FsPath,
    sources: &ConfigSources,
    pinned: bool,
    sessions: &Vec<Session>,
) -> (out: Json)
    ensures
        out@ == JsonValue::Object(
            status_members(
                config@.games.len(),
                config_path@,
                model::path_view(sources.portable),
                pinned,
                sessions@,
            ),
        ),
{
    let mut items: Vec<Json> = Vec::new();
    let mut i: usize = 0;
    while i < sessions.len()
        invariant
            i <= sessions@.len(),
            items@.len() == i,
            forall|k: int| 0 <= k < i ==> (#[trigger] items@[k])@ == session_json(sessions@[k]),
        decreases sessions@.len() - i,
    {
        items.push(session_value(&sessions[i]));
        i += 1;
    }
    proof {
        json::items_view_items(items@);
        assert(json::items_view(items@) =~= sessions@.map_values(
            |session: Session| session_json(session),
        ));
    }
    assert(config@.games.len() == config.games@.len());
    let out = with(no_members(), "running", Json::Bool(true));
    let out = with(out, "games", number(config.games.len() as u64));
    let out = with(out, "config_path", path_value(config_path));
    let out = with(out, "config_portable_path", path_or_null(&sources.portable));
    let out = with(out, "config_pinned", Json::Bool(pinned));
    let out = with(out, "sessions", Json::List(items));
    assert(json::members_view(out@) =~= status_members(
        config@.games.len(),
        config_path@,
        model::path_view(sources.portable),
        pinned,
        sessions@,
    ));
    Json::Object(out)
}

/// Takes over a configuration that was read from the file, where it could be read.
pub fn reload(memory: &mut Config, loaded: Result<Config, String>) -> (out: Result<Json, String>)
    ensures
        match loaded {
            Ok(config) => out is Ok && out->Ok_0@ == protocol::success_json() && final(memory)@
                == config@,
            Err(message) => out == Err::<Json, String>(message) && final(memory)@ == old(memory)@,
        },
        old(memory).wf() && (loaded matches Ok(config) ==> config.wf()) ==> final(memory).wf(),
{
    match loaded {
        Ok(config) => {
            *memory = config;
            Ok(success())
        },
        Err(message) => Err(message),
    }
}

// ---------------------------------------------------------------------------------------------
// Wine

/// The prefix that a client means: `null` and a blank text mean none.
pub open spec fn meant_prefix(value: JsonValue) -> Result<Option<Seq<u8>>, Seq<char>> {
    match value {
        JsonValue::Null => Ok(None),
        JsonValue::Text(text) => if search::trim(text).len() == 0 {
            Ok(None)
        } else {
            Ok(Some(encode_utf8(search::trim(text))))
        },
        _ => Err("prefix 必须是路径字符串或 null"@),
    }
}

pub fn prefix_of(value: &Json) -> (out: Result<Option<FsPath>, String>)
    ensures
        match out {
            Ok(prefix) => meant_prefix(value@) == Ok::<Option<Seq<u8>>, Seq<char>>(
                model::path_view(prefix),
            ),
            Err(message) => meant_prefix(value@) == Err::<Option<Seq<u8>>, Seq<char>>(message@),
        },
{
    match value {
        Json::Null => Ok(None),
        Json::Text(text) => {
            let short = trimmed(text.as_str());
            if short.as_str().is_empty() {
                Ok(None)
            } else {
                Ok(Some(FsPath::from_text(short.as_str())))
            }
        },
        _ => Err("prefix 必须是路径字符串或 null".to_owned()),
    }
}

/// Sets the prefix of the machine, or takes it away. `exists` and `has_drive` say of the path
/// whether it is there, and whether it holds a `drive_c`: a prefix that is not there yet will
/// be made, but a directory that is none is refused.
pub fn set_wine_prefix(config: &mut Config, value: &Json, exists: bool, has_drive: bool) -> (out:
    Result<Json, String>)
    ensures
        old(config).wf() ==> final(config).wf(),
        match meant_prefix(value@) {
            Err(message) => out is Err && out->Err_0@ == message && final(config)@ == old(config)@,
            Ok(prefix) => if prefix is Some && exists && !has_drive {
                &&& out is Err
                &&& out->Err_0@ == "这不是一个 wine prefix（缺少 drive_c）: "@ + path::lossy_text(
                    prefix.unwrap(),
                )
                &&& final(config)@ == old(config)@
            } else {
                &&& out is Ok
                &&& out->Ok_0@ == JsonValue::Object(
                    seq![("prefix"@, game_json::optional_path(prefix))],
                )
                &&& final(config)@ == (Settings { wine_prefix: prefix, ..old(config)@ })
            },
        },
{
    match prefix_of(value) {
        Err(message) => Err(message),
        Ok(prefix) => {
            match &prefix {
                Some(place) => if exists && !has_drive {
                    return Err(
                        glue2(
                            "这不是一个 wine prefix（缺少 drive_c）: ",
                            place.text().as_str(),
                        ),
                    );
                },
                None => {},
            }
            let out = with(no_members(), "prefix", path_or_null(&prefix));
            assert(json::members_view(out@) =~= seq![
                ("prefix"@, game_json::optional_path(model::path_view(prefix))),
            ]);
            config.wine.prefix = prefix;
            Ok(Json::Object(out))
        },
    }
}

/// The prefix in use and those that were found; `detected` is the list of what was found.
pub fn wine_status(
    config: &Config,
    default_prefix: &FsPath,
    environment: &Option<String>,
    detected: Json,
) -> (out: Json)
    ensures
        out@ == JsonValue::Object(
            seq![
                ("configured"@, game_json::optional_path(config@.wine_prefix)),
                ("default"@, game_json::path_json(default_prefix@)),
                ("environment"@, json::optional_text(chars::text_view(*environment))),
                ("detected"@, detected@),
            ],
        ),
{
    let out = with(no_members(), "configured", path_or_null(&config.wine.prefix));
    let out = with(out, "default", path_value(default_prefix));
    let out = with(out, "environment", text_or_null(environment));
    let out = with(out, "detected", detected);
    assert(json::members_view(out@) =~= seq![
        ("configured"@, game_json::optional_path(config@.wine_prefix)),
        ("default"@, game_json::path_json(default_prefix@)),
        ("environment"@, json::optional_text(chars::text_view(*environment))),
        ("detected"@, detected@),
    ]);
    Json::Object(out)
}

/// A switch to the file beside the program and back leads back to the file of the platform.
pub proof fn switching_back_leads_back(portable_file: Seq<u8>, default_file: Seq<u8>)
    ensures
        target_of(Some(portable_file), default_file, false, true) == Ok::<Seq<u8>, Seq<char>>(
            portable_file,
        ),
        target_of(Some(portable_file), default_file, false, false) == Ok::<Seq<u8>, Seq<char>>(
            default_file,
        ),
{
}

/// The files of a disk, by their paths, after one of them went to another place.
pub open spec fn carry(disk: Map<Seq<u8>, Seq<u8>>, from: Seq<u8>, to: Seq<u8>) -> Map<
    Seq<u8>,
    Seq<u8>,
> {
    if from == to || !disk.dom().contains(from) {
        disk
    } else {
        disk.insert(to, disk[from]).remove(from)
    }
}

/// The files of a disk after all that is in a list went to their new places, in turn.
pub open spec fn carry_all(disk: Map<Seq<u8>, Seq<u8>>, list: Seq<(Seq<u8>, Seq<u8>)>) -> Map<
    Seq<u8>,
    Seq<u8>,
>
    decreases list.len(),
{
    if list.len() == 0 {
        disk
    } else {
        carry(carry_all(disk, list.drop_last()), list.last().0, list.last().1)
    }
}

proof fn lemma_named(p: Seq<u8>, name: Seq<char>)
    requires
        path::is_name(encode_utf8(name)),
    ensures
        path::file_name_of(paths::neighbour(p, name)) == Some(encode_utf8(name)),
{
    let bytes = encode_utf8(name);
    if path::parent_of(p) is Some {
        path::a_neighbour_has_the_same_parent(p, bytes);
    } else {
        path::a_name_is_its_file_name(bytes);
    }
}

/// The two files with credentials are never one file, whichever configurations they go with.
proof fn lemma_credentials_differ(a: Seq<u8>, b: Seq<u8>)
    ensures
        secrets_beside(a) != plain_secrets_beside(b),
{
    reveal_strlit("secrets.json");
    reveal_strlit("credentials.json");
    is_ascii_chars_encode_utf8("secrets.json"@);
    is_ascii_chars_encode_utf8("credentials.json"@);
    let (x, y) = (encode_utf8("secrets.json"@), encode_utf8("credentials.json"@));
    assert(path::is_name(x)) by {
        assert(!x.contains(path::SLASH));
        assert(x.len() == 12);
    }
    assert(path::is_name(y)) by {
        assert(!y.contains(path::SLASH));
        assert(y.len() == 16);
    }
    lemma_named(a, "secrets.json"@);
    lemma_named(secrets_beside(b), "credentials.json"@);
}

/// A switch takes the credentials along: what was in the files beside the old configuration is
/// then in the files beside the new one, where the daemon looks for them from there on. Where the
/// environment says where they are, they stay as they are.
pub proof fn the_credentials_go_along(
    disk: Map<Seq<u8>, Seq<u8>>,
    current: Seq<u8>,
    target: Seq<u8>,
)
    ensures
        ({
            let (secrets, plain) = (secrets_beside(current), plain_secrets_beside(current));
            let after = carry_all(disk, taken_along(secrets, plain, target, false));
            &&& disk.dom().contains(secrets) ==> after.dom().contains(secrets_beside(target))
                && after[secrets_beside(target)] == disk[secrets]
            &&& disk.dom().contains(plain) ==> after.dom().contains(plain_secrets_beside(target))
                && after[plain_secrets_beside(target)] == disk[plain]
            &&& carry_all(disk, taken_along(secrets, plain, target, true)) == disk
        }),
{
    let (secrets, plain) = (secrets_beside(current), plain_secrets_beside(current));
    let list = taken_along(secrets, plain, target, false);
    lemma_credentials_differ(current, current);
    lemma_credentials_differ(target, target);
    lemma_credentials_differ(current, target);
    lemma_credentials_differ(target, current);
    let front = list.drop_last();
    assert(front =~= seq![(secrets, secrets_beside(target))]);
    assert(front.drop_last() =~= Seq::<(Seq<u8>, Seq<u8>)>::empty());
    assert(carry_all(disk, front.drop_last()) == disk);
    assert(carry_all(disk, front) == carry(disk, secrets, secrets_beside(target)));
}

/// A switch and another one back bring the credentials back.
pub proof fn the_credentials_come_back(
    disk: Map<Seq<u8>, Seq<u8>>,
    current: Seq<u8>,
    target: Seq<u8>,
)
    ensures
        ({
            let (secrets, plain) = (secrets_beside(current), plain_secrets_beside(current));
            let there = carry_all(disk, taken_along(secrets, plain, target, false));
            let back = carry_all(
                there,
                taken_along(secrets_beside(target), plain_secrets_beside(target), current, false),
            );
            &&& disk.dom().contains(secrets) ==> back.dom().contains(secrets) && back[secrets]
                == disk[secrets]
            &&& disk.dom().contains(plain) ==> back.dom().contains(plain) && back[plain]
                == disk[plain]
        }),
{
    let (secrets, plain) = (secrets_beside(current), plain_secrets_beside(current));
    let there = carry_all(disk, taken_along(secrets, plain, target, false));
    the_credentials_go_along(disk, current, target);
    the_credentials_go_along(there, target, current);
}

/// What a client hears of a session.
pub proof fn a_session_is_described(session: Session)
    ensures
        json::has_member(session_json(session), "session_id"@, JsonValue::Text(session.session_id@)),
        json::has_member(session_json(session), "game_id"@, json::optional_text(chars::text_view(session.game_id))),
        json::has_member(session_json(session), "gamescope_pid"@, json::optional_number(session.gamescope_pid)),
        json::has_member(session_json(session), "process_name"@, json::optional_text(chars::text_view(session.process_name))),
        json::has_member(session_json(session), "watch_only"@, JsonValue::Bool(session.watch_only)),
        json::has_member(session_json(session), "elapsed_secs"@, JsonValue::Number(session.elapsed_seconds as int)),
{
    let members = session_json(session)->Object_0;
    assert(members[0] == ("session_id"@, JsonValue::Text(session.session_id@)));
    assert(members[1] == ("game_id"@, json::optional_text(chars::text_view(session.game_id))));
    assert(members[2] == ("gamescope_pid"@, json::optional_number(session.gamescope_pid)));
    assert(members[3] == ("process_name"@, json::optional_text(chars::text_view(session.process_name))));
    assert(members[4] == ("watch_only"@, JsonValue::Bool(session.watch_only)));
    assert(members[5] == ("elapsed_secs"@, JsonValue::Number(session.elapsed_seconds as int)));
}

/// What a client hears of the daemon: how many games it knows, where its configuration lies and
/// could lie, and every session.
pub proof fn the_state_of_the_daemon_is_described(games: nat, config_path: Seq<u8>, portable: Option<Seq<u8>>, pinned: bool, sessions: Seq<Session>)
    ensures
        json::has_member(JsonValue::Object(status_members(games, config_path, portable, pinned, sessions)), "running"@, JsonValue::Bool(true)),
        json::has_member(JsonValue::Object(status_members(games, config_path, portable, pinned, sessions)), "games"@, JsonValue::Number(games as int)),
        json::has_member(JsonValue::Object(status_members(games, config_path, portable, pinned, sessions)), "config_path"@, JsonValue::Text(path::lossy_text(config_path))),
        json::has_member(JsonValue::Object(status_members(games, config_path, portable, pinned, sessions)), "config_portable_path"@, match portable {
            Some(place) => JsonValue::Text(path::lossy_text(place)),
            None => JsonValue::Null,
        }),
        json::has_member(JsonValue::Object(status_members(games, config_path, portable, pinned, sessions)), "config_pinned"@, JsonValue::Bool(pinned)),
        json::has_member(JsonValue::Object(status_members(games, config_path, portable, pinned, sessions)), "sessions"@, JsonValue::List(sessions.map_values(|session: Session| session_json(session)))),
{
    let members = status_members(games, config_path, portable, pinned, sessions);
    assert(members[0] == ("running"@, JsonValue::Bool(true)));
    assert(members[1] == ("games"@, JsonValue::Number(games as int)));
    assert(members[2] == ("config_path"@, JsonValue::Text(path::lossy_text(config_path))));
    assert(members[3] == ("config_portable_path"@, match portable {
            Some(place) => JsonValue::Text(path::lossy_text(place)),
            None => JsonValue::Null,
        }));
    assert(members[4] == ("config_pinned"@, JsonValue::Bool(pinned)));
    assert(members[5] == ("sessions"@, JsonValue::List(sessions.map_values(|session: Session| session_json(session)))));
}

/// What a client hears of a switch: where the configuration lies now, that it has changed, and what
/// became of the file before.
pub proof fn a_switch_is_reported(target: Seq<u8>, moved: Seq<u8>, portable: bool)
    ensures
        json::has_member(switched_json(target, Some(moved), portable), "config_path"@, JsonValue::Text(path::lossy_text(target))),
        json::has_member(switched_json(target, Some(moved), portable), "changed"@, JsonValue::Bool(true)),
        json::has_member(switched_json(target, Some(moved), portable), "moved"@, JsonValue::Text(path::lossy_text(moved))),
        json::has_member(switched_json(target, Some(moved), portable), "portable"@, JsonValue::Bool(portable)),
        json::has_member(
            switched_json(target, None, portable),
            "moved"@,
            JsonValue::Null,
        ),
        json::has_member(
            unchanged_json(target),
            "config_path"@,
            JsonValue::Text(path::lossy_text(target)),
        ),
        json::has_member(unchanged_json(target), "changed"@, JsonValue::Bool(false)),
{
    assert(switched_json(target, None, portable)->Object_0[2] == ("moved"@, JsonValue::Null));
    let stay = unchanged_json(target)->Object_0;
    assert(stay[0] == ("config_path"@, JsonValue::Text(path::lossy_text(target))));
    assert(stay[1] == ("changed"@, JsonValue::Bool(false)));
    let members = switched_json(target, Some(moved), portable)->Object_0;
    assert(members[0] == ("config_path"@, JsonValue::Text(path::lossy_text(target))));
    assert(members[1] == ("changed"@, JsonValue::Bool(true)));
    assert(members[2] == ("moved"@, JsonValue::Text(path::lossy_text(moved))));
    assert(members[3] == ("portable"@, JsonValue::Bool(portable)));
}

/// A switch is refused where the environment says where the configuration is, and where the
/// program does not know its own place; else it leads to the file that was asked for.
pub proof fn where_a_switch_leads(
    portable_file: Option<Seq<u8>>,
    default_file: Seq<u8>,
    portable: bool,
)
    ensures
        target_of(portable_file, default_file, true, portable) is Err,
        target_of(portable_file, default_file, false, false) == Ok::<Seq<u8>, Seq<char>>(
            default_file,
        ),
        portable_file is Some ==> target_of(portable_file, default_file, false, true) == Ok::<
            Seq<u8>,
            Seq<char>,
        >(portable_file.unwrap()),
        portable_file is None ==> target_of(portable_file, default_file, false, true) is Err,
{
}

/// Credentials lie next to the configuration file, under their two names.
pub proof fn credentials_lie_beside(config: Seq<u8>)
    requires
        path::parent_of(config) is Some,
    ensures
        secrets_beside(config) == path::join_path(
            path::parent_of(config).unwrap(),
            encode_utf8("secrets.json"@),
        ),
        path::parent_of(secrets_beside(config)) is Some ==> plain_secrets_beside(config)
            == path::join_path(
            path::parent_of(secrets_beside(config)).unwrap(),
            encode_utf8("credentials.json"@),
        ),
{
}

/// A prefix that a client names is taken without white space around it; `null` and a blank text
/// take it away, and everything else is refused.
pub proof fn what_a_client_means_by_a_prefix(text: Seq<char>, value: JsonValue)
    ensures
        meant_prefix(JsonValue::Null) == Ok::<Option<Seq<u8>>, Seq<char>>(None),
        search::trim(text).len() == 0 ==> meant_prefix(JsonValue::Text(text)) == Ok::<
            Option<Seq<u8>>,
            Seq<char>,
        >(None),
        search::trim(text).len() > 0 ==> meant_prefix(JsonValue::Text(text)) == Ok::<
            Option<Seq<u8>>,
            Seq<char>,
        >(Some(encode_utf8(search::trim(text)))),
        value !is Null && value !is Text ==> meant_prefix(value) is Err,
{
}

/// A file that is carried is afterwards at its new place and no longer at its old one, and no
/// other file is concerned.
pub proof fn a_carried_file_is_moved(
    disk: Map<Seq<u8>, Seq<u8>>,
    from: Seq<u8>,
    to: Seq<u8>,
    other: Seq<u8>,
)
    requires
        other != from,
        other != to,
    ensures
        disk.contains_key(from) && from != to ==> carry(disk, from, to).contains_key(to) && carry(
            disk,
            from,
            to,
        )[to] == disk[from] && !carry(disk, from, to).contains_key(from),
        !disk.contains_key(from) ==> carry(disk, from, to) == disk,
        carry(disk, from, from) == disk,
        carry(disk, from, to).contains_key(other) == disk.contains_key(other),
        carry(disk, from, to)[other] == disk[other],
{
}

/// A prefix is a text or nothing; whatever else is given is refused.
pub proof fn a_prefix_is_a_text(value: JsonValue)
    requires
        !(value is Text),
        !(value is Null),
    ensures
        meant_prefix(value) == Err::<Option<Seq<u8>>, Seq<char>>("prefix 必须是路径字符串或 null"@),
{
}

} // verus!
