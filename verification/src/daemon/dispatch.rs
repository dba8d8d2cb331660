//! Which request is which: the names of the methods, and the parameters that each needs.

use crate::daemon::protocol;
use crate::daemon::protocol::{
    drop_member, param, param_flag, param_number, param_str, param_text, rpc_err, rpc_ok, success,
    Reply, Request, INVALID_PARAMS, INVALID_REQUEST, METHOD_NOT_FOUND, PARSE_ERROR,
};
use crate::json;
use crate::json::{copy_members, no_members, Json, JsonValue};
use crate::text::chars;
use crate::text::chars::{list_has, same_text};
use crate::text::glue::glue2;
use vstd::prelude::*;

verus! {

/// What a request asks for. `T` are texts, `V` are JSON values, `P` are the members of a JSON
/// object that is read further where the request is carried out.
pub enum Call<T, V, P> {
    DaemonStatus,
    ConfigReload,
    ConfigSetSource { portable: bool },
    ProcessList,
    WineStatus,
    EnvReport,
    WineSetPrefix { prefix: V },
    MountInfer { path: T },
    GameList,
    GameAdd { directory: T },
    GameRemove { id: T },
    GameCreate { game: P },
    GameUpdate { id: T, patch: P },
    /// `selfcheck`: the client can answer the question that may come before the launch.
    GameLaunch { id: T, selfcheck: bool },
    GameWait { session: T },
    GameStop { session: T },
    ScaleGetStatus { session: T },
    ScaleToggleFsr { session: T },
    ScaleToggleInteger { session: T },
    ScaleAdjustSharpness { session: T, delta: i32 },
    ScaleAction { session: T, action: T },
    SyncStatus,
    SyncSetSettings { settings: P },
    SyncSetCredentials { credentials: P },
    SyncSetKopiaPassword { password: P },
    SyncUnlock { password: P },
    SyncSetMasterPassword { password: P },
    SyncClearMasterPassword,
    SyncLock,
    SyncTest,
    /// Without an id, every game that has save locations.
    SyncNow { only: Option<T> },
    SyncVersions { id: T },
    SyncCloudGames,
    SyncCloudList,
    SyncCloudVersions { key: T },
    /// Which game of the cloud a program is.
    SyncMatch { exe: T },
    SyncDeleteVersion { key: T, gone: T },
    SyncDeleteVersions { key: T },
    SyncDeleteIdentity { key: T },
    SyncResolve { id: T, choice: T, picked_id: Option<T>, picked_key: Option<T> },
    SyncIdentities { id: T },
    SyncPairing,
    SyncPair { id: T, cloud_key: T, cloud_id: T },
    SyncReject { id: T, cloud_id: T },
    /// Without a version, the newest one.
    SyncRestore { id: T, version: Option<T> },
}

pub type Asked = Call<String, Json, Vec<(String, Json)>>;

/// What a call says.
pub open spec fn call_view(call: Call<String, Json, Vec<(String, Json)>>) -> Call<
    Seq<char>,
    JsonValue,
    Seq<(Seq<char>, JsonValue)>,
> {
    match call {
        Call::DaemonStatus => Call::DaemonStatus,
        Call::ConfigReload => Call::ConfigReload,
        Call::ConfigSetSource { portable } => Call::ConfigSetSource { portable },
        Call::ProcessList => Call::ProcessList,
        Call::WineStatus => Call::WineStatus,
        Call::EnvReport => Call::EnvReport,
        Call::WineSetPrefix { prefix } => Call::WineSetPrefix { prefix: prefix@ },
        Call::MountInfer { path } => Call::MountInfer { path: path@ },
        Call::GameList => Call::GameList,
        Call::GameAdd { directory } => Call::GameAdd { directory: directory@ },
        Call::GameRemove { id } => Call::GameRemove { id: id@ },
        Call::GameCreate { game } => Call::GameCreate { game: json::members_view(game@) },
        Call::GameUpdate { id, patch } => Call::GameUpdate {
            id: id@,
            patch: json::members_view(patch@),
        },
        Call::GameLaunch { id, selfcheck } => Call::GameLaunch { id: id@, selfcheck },
        Call::GameWait { session } => Call::GameWait { session: session@ },
        Call::GameStop { session } => Call::GameStop { session: session@ },
        Call::ScaleGetStatus { session } => Call::ScaleGetStatus { session: session@ },
        Call::ScaleToggleFsr { session } => Call::ScaleToggleFsr { session: session@ },
        Call::ScaleToggleInteger { session } => Call::ScaleToggleInteger { session: session@ },
        Call::ScaleAdjustSharpness { session, delta } => Call::ScaleAdjustSharpness {
            session: session@,
            delta,
        },
        Call::ScaleAction { session, action } => Call::ScaleAction {
            session: session@,
            action: action@,
        },
        Call::SyncStatus => Call::SyncStatus,
        Call::SyncSetSettings { settings } => Call::SyncSetSettings {
            settings: json::members_view(settings@),
        },
        Call::SyncSetCredentials { credentials } => Call::SyncSetCredentials {
            credentials: json::members_view(credentials@),
        },
        Call::SyncSetKopiaPassword { password } => Call::SyncSetKopiaPassword {
            password: json::members_view(password@),
        },
        Call::SyncUnlock { password } => Call::SyncUnlock {
            password: json::members_view(password@),
        },
        Call::SyncSetMasterPassword { password } => Call::SyncSetMasterPassword {
            password: json::members_view(password@),
        },
        Call::SyncClearMasterPassword => Call::SyncClearMasterPassword,
        Call::SyncLock => Call::SyncLock,
        Call::SyncTest => Call::SyncTest,
        Call::SyncNow { only } => Call::SyncNow { only: chars::text_view(only) },
        Call::SyncVersions { id } => Call::SyncVersions { id: id@ },
        Call::SyncCloudGames => Call::SyncCloudGames,
        Call::SyncCloudList => Call::SyncCloudList,
        Call::SyncCloudVersions { key } => Call::SyncCloudVersions { key: key@ },
        Call::SyncMatch { exe } => Call::SyncMatch { exe: exe@ },
        Call::SyncDeleteVersion { key, gone } => Call::SyncDeleteVersion { key: key@, gone: gone@ },
        Call::SyncDeleteVersions { key } => Call::SyncDeleteVersions { key: key@ },
        Call::SyncDeleteIdentity { key } => Call::SyncDeleteIdentity { key: key@ },
        Call::SyncResolve { id, choice, picked_id, picked_key } => Call::SyncResolve {
            id: id@,
            choice: choice@,
            picked_id: chars::text_view(picked_id),
            picked_key: chars::text_view(picked_key),
        },
        Call::SyncIdentities { id } => Call::SyncIdentities { id: id@ },
        Call::SyncPairing => Call::SyncPairing,
        Call::SyncPair { id, cloud_key, cloud_id } => Call::SyncPair {
            id: id@,
            cloud_key: cloud_key@,
            cloud_id: cloud_id@,
        },
        Call::SyncReject { id, cloud_id } => Call::SyncReject { id: id@, cloud_id: cloud_id@ },
        Call::SyncRestore { id, version } => Call::SyncRestore { id: id@, version: chars::text_view(version) },
    }
}

/// Why a request is turned down before anything is done.
pub struct Problem {
    pub code: i32,
    pub message: String,
}

/// What `route` says: what is asked for, or the code and the words of the refusal.
pub open spec fn routing_view(
    routing: Result<Call<String, Json, Vec<(String, Json)>>, Problem>,
) -> Result<Call<Seq<char>, JsonValue, Seq<(Seq<char>, JsonValue)>>, (int, Seq<char>)> {
    match routing {
        Ok(call) => Ok(call_view(call)),
        Err(problem) => Err((problem.code as int, problem.message@)),
    }
}

/// The refusal of parameters.
pub open spec fn refused(message: Seq<char>) -> Result<
    Call<Seq<char>, JsonValue, Seq<(Seq<char>, JsonValue)>>,
    (int, Seq<char>),
> {
    Err((INVALID_PARAMS as int, message))
}

// ---------------------------------------------------------------------------------------------
// Requests about the daemon and the machine

pub open spec fn machine_request(
    method: Seq<char>,
    params: Seq<(Seq<char>, JsonValue)>,
) -> Option<Result<Call<Seq<char>, JsonValue, Seq<(Seq<char>, JsonValue)>>, (int, Seq<char>)>> {
    if method == "daemon.status"@ {
        Some(Ok(Call::DaemonStatus))
    } else if method == "config.reload"@ {
        Some(Ok(Call::ConfigReload))
    } else if method == "config.set_source"@ {
        Some(
            match protocol::flag(params, "portable"@) {
                Some(portable) => Ok(Call::ConfigSetSource { portable }),
                None => refused("缺少参数: portable(真假)"@),
            },
        )
    } else if method == "process.list"@ {
        Some(Ok(Call::ProcessList))
    } else if method == "wine.status"@ {
        Some(Ok(Call::WineStatus))
    } else if method == "env.report"@ {
        Some(Ok(Call::EnvReport))
    } else if method == "wine.set_prefix"@ {
        Some(
            match protocol::parameter(params, "prefix"@) {
                Some(prefix) => Ok(Call::WineSetPrefix { prefix }),
                None => refused("缺少参数: prefix"@),
            },
        )
    } else if method == "mount.infer"@ {
        Some(
            match protocol::needed(params, "path"@) {
                Ok(path) => Ok(Call::MountInfer { path }),
                Err(message) => refused(message),
            },
        )
    } else {
        None
    }
}

fn invalid(message: String) -> (out: Result<Asked, Problem>)
    ensures
        routing_view(out) == refused(message@),
{
    Err(Problem { code: INVALID_PARAMS, message })
}

fn route_machine(method: &str, params: &Option<Vec<(String, Json)>>) -> (out: Option<
    Result<Asked, Problem>,
>)
    ensures
        match out {
            Some(routing) => machine_request(method@, protocol::params_view(*params)) == Some(
                routing_view(routing),
            ),
            None => machine_request(method@, protocol::params_view(*params)) is None,
        },
{
    if same_text(method, "daemon.status") {
        Some(Ok(Call::DaemonStatus))
    } else if same_text(method, "config.reload") {
        Some(Ok(Call::ConfigReload))
    } else if same_text(method, "config.set_source") {
        Some(
            match param_flag(params, "portable") {
                Some(portable) => Ok(Call::ConfigSetSource { portable }),
                None => invalid("缺少参数: portable(真假)".to_owned()),
            },
        )
    } else if same_text(method, "process.list") {
        Some(Ok(Call::ProcessList))
    } else if same_text(method, "wine.status") {
        Some(Ok(Call::WineStatus))
    } else if same_text(method, "env.report") {
        Some(Ok(Call::EnvReport))
    } else if same_text(method, "wine.set_prefix") {
        Some(
            match param(params, "prefix") {
                Some(prefix) => Ok(Call::WineSetPrefix { prefix: prefix.copy() }),
                None => invalid("缺少参数: prefix".to_owned()),
            },
        )
    } else if same_text(method, "mount.infer") {
        Some(
            match param_str(params, "path") {
                Ok(path) => Ok(Call::MountInfer { path: path.to_owned() }),
                Err(message) => invalid(message),
            },
        )
    } else {
        None
    }
}

// ---------------------------------------------------------------------------------------------
// Requests about games

pub open spec fn game_request(method: Seq<char>, params: Seq<(Seq<char>, JsonValue)>) -> Option<
    Result<Call<Seq<char>, JsonValue, Seq<(Seq<char>, JsonValue)>>, (int, Seq<char>)>,
> {
    if method == "game.list"@ {
        Some(Ok(Call::GameList))
    } else if method == "game.add"@ {
        Some(
            match protocol::needed(params, "directory"@) {
                Ok(directory) => Ok(Call::GameAdd { directory }),
                Err(message) => refused(message),
            },
        )
    } else if method == "game.remove"@ {
        Some(
            match protocol::needed(params, "id"@) {
                Ok(id) => Ok(Call::GameRemove { id }),
                Err(message) => refused(message),
            },
        )
    } else if method == "game.create"@ {
        Some(Ok(Call::GameCreate { game: params }))
    } else if method == "game.update"@ {
        Some(
            match protocol::needed(params, "id"@) {
                Ok(id) => {
                    let patch = protocol::without(params, "id"@);
                    if patch.len() == 0 {
                        refused("game.update 需要至少一个要修改的字段"@)
                    } else {
                        Ok(Call::GameUpdate { id, patch })
                    }
                },
                Err(message) => refused(message),
            },
        )
    } else if method == "game.launch"@ {
        Some(
            match protocol::needed(params, "id"@) {
                Ok(id) => Ok(
                    Call::GameLaunch {
                        id,
                        selfcheck: protocol::flag(params, "selfcheck"@) == Some(true),
                    },
                ),
                Err(message) => refused(message),
            },
        )
    } else if method == "game.wait"@ {
        Some(
            match protocol::needed(params, "session_id"@) {
                Ok(session) => Ok(Call::GameWait { session }),
                Err(message) => refused(message),
            },
        )
    } else if method == "game.stop"@ {
        Some(
            match protocol::needed(params, "session_id"@) {
                Ok(session) => Ok(Call::GameStop { session }),
                Err(message) => refused(message),
            },
        )
    } else {
        None
    }
}

fn members_of(params: &Option<Vec<(String, Json)>>) -> (out: Vec<(String, Json)>)
    ensures
        json::members_view(out@) == protocol::params_view(*params),
{
    match params {
        Some(members) => copy_members(members),
        None => no_members(),
    }
}

fn route_game(method: &str, params: &Option<Vec<(String, Json)>>) -> (out: Option<
    Result<Asked, Problem>,
>)
    ensures
        match out {
            Some(routing) => game_request(method@, protocol::params_view(*params)) == Some(
                routing_view(routing),
            ),
            None => game_request(method@, protocol::params_view(*params)) is None,
        },
{
    if same_text(method, "game.list") {
        Some(Ok(Call::GameList))
    } else if same_text(method, "game.add") {
        Some(
            match param_str(params, "directory") {
                Ok(directory) => Ok(Call::GameAdd { directory: directory.to_owned() }),
                Err(message) => invalid(message),
            },
        )
    } else if same_text(method, "game.remove") {
        Some(
            match param_str(params, "id") {
                Ok(id) => Ok(Call::GameRemove { id: id.to_owned() }),
                Err(message) => invalid(message),
            },
        )
    } else if same_text(method, "game.create") {
        Some(Ok(Call::GameCreate { game: members_of(params) }))
    } else if same_text(method, "game.update") {
        Some(
            match param_str(params, "id") {
                Ok(id) => {
                    let patch = drop_member(&members_of(params), "id");
                    proof {
                        json::members_view_members(patch@);
                    }
                    if patch.len() == 0 {
                        invalid("game.update 需要至少一个要修改的字段".to_owned())
                    } else {
                        Ok(Call::GameUpdate { id: id.to_owned(), patch })
                    }
                },
                Err(message) => invalid(message),
            },
        )
    } else if same_text(method, "game.launch") {
        Some(
            match param_str(params, "id") {
                Ok(id) => {
                    let selfcheck = match param_flag(params, "selfcheck") {
                        Some(value) => value,
                        None => false,
                    };
                    Ok(Call::GameLaunch { id: id.to_owned(), selfcheck })
                },
                Err(message) => invalid(message),
            },
        )
    } else if same_text(method, "game.wait") {
        Some(
            match param_str(params, "session_id") {
                Ok(session) => Ok(Call::GameWait { session: session.to_owned() }),
                Err(message) => invalid(message),
            },
        )
    } else if same_text(method, "game.stop") {
        Some(
            match param_str(params, "session_id") {
                Ok(session) => Ok(Call::GameStop { session: session.to_owned() }),
                Err(message) => invalid(message),
            },
        )
    } else {
        None
    }
}

// ---------------------------------------------------------------------------------------------
// Requests about a running game

/// `actions` are the ids of the actions that there are.
pub open spec fn scale_request(
    method: Seq<char>,
    params: Seq<(Seq<char>, JsonValue)>,
    actions: Seq<Seq<char>>,
) -> Option<Result<Call<Seq<char>, JsonValue, Seq<(Seq<char>, JsonValue)>>, (int, Seq<char>)>> {
    let session = protocol::needed(params, "session_id"@);
    if method == "scale.get_status"@ {
        Some(
            match session {
                Ok(session) => Ok(Call::ScaleGetStatus { session }),
                Err(message) => refused(message),
            },
        )
    } else if method == "scale.toggle_fsr"@ {
        Some(
            match session {
                Ok(session) => Ok(Call::ScaleToggleFsr { session }),
                Err(message) => refused(message),
            },
        )
    } else if method == "scale.toggle_integer"@ {
        Some(
            match session {
                Ok(session) => Ok(Call::ScaleToggleInteger { session }),
                Err(message) => refused(message),
            },
        )
    } else if method == "scale.adjust_sharpness"@ {
        Some(
            match session {
                Ok(session) => Ok(
                    Call::ScaleAdjustSharpness {
                        session,
                        delta: protocol::number_or_zero(params, "delta"@) as i32,
                    },
                ),
                Err(message) => refused(message),
            },
        )
    } else if method == "scale.action"@ {
        Some(
            match session {
                Ok(session) => match protocol::needed(params, "action"@) {
                    Ok(action) => if actions.contains(action) {
                        Ok(Call::ScaleAction { session, action })
                    } else {
                        refused("未知的缩放动作："@ + action)
                    },
                    Err(message) => refused(message),
                },
                Err(message) => refused(message),
            },
        )
    } else {
        None
    }
}

fn route_scale(
    method: &str,
    params: &Option<Vec<(String, Json)>>,
    actions: &Vec<String>,
) -> (out: Option<Result<Asked, Problem>>)
    ensures
        match out {
            Some(routing) => scale_request(
                method@,
                protocol::params_view(*params),
                chars::texts(actions@),
            ) == Some(routing_view(routing)),
            None => scale_request(
                method@,
                protocol::params_view(*params),
                chars::texts(actions@),
            ) is None,
        },
{
    if same_text(method, "scale.get_status") {
        Some(
            match param_str(params, "session_id") {
                Ok(session) => Ok(Call::ScaleGetStatus { session: session.to_owned() }),
                Err(message) => invalid(message),
            },
        )
    } else if same_text(method, "scale.toggle_fsr") {
        Some(
            match param_str(params, "session_id") {
                Ok(session) => Ok(Call::ScaleToggleFsr { session: session.to_owned() }),
                Err(message) => invalid(message),
            },
        )
    } else if same_text(method, "scale.toggle_integer") {
        Some(
            match param_str(params, "session_id") {
                Ok(session) => Ok(Call::ScaleToggleInteger { session: session.to_owned() }),
                Err(message) => invalid(message),
            },
        )
    } else if same_text(method, "scale.adjust_sharpness") {
        Some(
            match param_str(params, "session_id") {
                Ok(session) => {
                    #[verifier::truncate]
                    let delta: i32 = param_number(params, "delta") as i32;
                    Ok(Call::ScaleAdjustSharpness { session: session.to_owned(), delta })
                },
                Err(message) => invalid(message),
            },
        )
    } else if same_text(method, "scale.action") {
        Some(
            match param_str(params, "session_id") {
                Ok(session) => match param_str(params, "action") {
                    Ok(action) => if list_has(actions, action) {
                        Ok(
                            Call::ScaleAction {
                                session: session.to_owned(),
                                action: action.to_owned(),
                            },
                        )
                    } else {
                        invalid(glue2("未知的缩放动作：", action))
                    },
                    Err(message) => invalid(message),
                },
                Err(message) => invalid(message),
            },
        )
    } else {
        None
    }
}

// ---------------------------------------------------------------------------------------------
// Requests about saves in the cloud

pub open spec fn pair_request(params: Seq<(Seq<char>, JsonValue)>) -> Result<
    Call<Seq<char>, JsonValue, Seq<(Seq<char>, JsonValue)>>,
    (int, Seq<char>),
> {
    match (
        protocol::needed(params, "id"@),
        protocol::needed(params, "cloud_key"@),
        protocol::needed(params, "cloud_id"@),
    ) {
        (Ok(id), Ok(cloud_key), Ok(cloud_id)) => Ok(Call::SyncPair { id, cloud_key, cloud_id }),
        (Err(message), _, _) => refused(message),
        (_, Err(message), _) => refused(message),
        (_, _, Err(message)) => refused(message),
    }
}

/// Requests about what the cloud has, whether this machine has the game or not.
pub open spec fn cloud_request(method: Seq<char>, params: Seq<(Seq<char>, JsonValue)>) -> Option<
    Result<Call<Seq<char>, JsonValue, Seq<(Seq<char>, JsonValue)>>, (int, Seq<char>)>,
> {
    let key = protocol::needed(params, "key"@);
    if method == "sync.cloud_games"@ {
        Some(Ok(Call::SyncCloudGames))
    } else if method == "sync.cloud_list"@ {
        Some(Ok(Call::SyncCloudList))
    } else if method == "sync.cloud_versions"@ {
        Some(
            match key {
                Ok(key) => Ok(Call::SyncCloudVersions { key }),
                Err(message) => refused(message),
            },
        )
    } else if method == "sync.match"@ {
        Some(
            match protocol::needed(params, "exe"@) {
                Ok(exe) => Ok(Call::SyncMatch { exe }),
                Err(message) => refused(message),
            },
        )
    } else if method == "sync.delete_version"@ {
        Some(
            match (key, protocol::needed(params, "version"@)) {
                (Ok(key), Ok(gone)) => Ok(Call::SyncDeleteVersion { key, gone }),
                (Err(message), _) => refused(message),
                (_, Err(message)) => refused(message),
            },
        )
    } else if method == "sync.delete_versions"@ {
        Some(
            match key {
                Ok(key) => Ok(Call::SyncDeleteVersions { key }),
                Err(message) => refused(message),
            },
        )
    } else if method == "sync.delete_identity"@ {
        Some(
            match key {
                Ok(key) => Ok(Call::SyncDeleteIdentity { key }),
                Err(message) => refused(message),
            },
        )
    } else {
        None
    }
}

fn route_cloud(method: &str, params: &Option<Vec<(String, Json)>>) -> (out: Option<
    Result<Asked, Problem>,
>)
    ensures
        match out {
            Some(routing) => cloud_request(method@, protocol::params_view(*params)) == Some(
                routing_view(routing),
            ),
            None => cloud_request(method@, protocol::params_view(*params)) is None,
        },
{
    if same_text(method, "sync.cloud_games") {
        Some(Ok(Call::SyncCloudGames))
    } else if same_text(method, "sync.cloud_list") {
        Some(Ok(Call::SyncCloudList))
    } else if same_text(method, "sync.cloud_versions") {
        Some(
            match param_str(params, "key") {
                Ok(key) => Ok(Call::SyncCloudVersions { key: key.to_owned() }),
                Err(message) => invalid(message),
            },
        )
    } else if same_text(method, "sync.match") {
        Some(
            match param_str(params, "exe") {
                Ok(exe) => Ok(Call::SyncMatch { exe: exe.to_owned() }),
                Err(message) => invalid(message),
            },
        )
    } else if same_text(method, "sync.delete_version") {
        Some(
            match param_str(params, "key") {
                Ok(key) => match param_str(params, "version") {
                    Ok(gone) => Ok(
                        Call::SyncDeleteVersion { key: key.to_owned(), gone: gone.to_owned() },
                    ),
                    Err(message) => invalid(message),
                },
                Err(message) => invalid(message),
            },
        )
    } else if same_text(method, "sync.delete_versions") {
        Some(
            match param_str(params, "key") {
                Ok(key) => Ok(Call::SyncDeleteVersions { key: key.to_owned() }),
                Err(message) => invalid(message),
            },
        )
    } else if same_text(method, "sync.delete_identity") {
        Some(
            match param_str(params, "key") {
                Ok(key) => Ok(Call::SyncDeleteIdentity { key: key.to_owned() }),
                Err(message) => invalid(message),
            },
        )
    } else {
        None
    }
}

pub open spec fn sync_request(method: Seq<char>, params: Seq<(Seq<char>, JsonValue)>) -> Option<
    Result<Call<Seq<char>, JsonValue, Seq<(Seq<char>, JsonValue)>>, (int, Seq<char>)>,
> {
    let id = protocol::needed(params, "id"@);
    if method == "sync.status"@ {
        Some(Ok(Call::SyncStatus))
    } else if method == "sync.set_settings"@ {
        Some(Ok(Call::SyncSetSettings { settings: params }))
    } else if method == "sync.set_credentials"@ {
        Some(Ok(Call::SyncSetCredentials { credentials: params }))
    } else if method == "sync.set_kopia_password"@ {
        Some(Ok(Call::SyncSetKopiaPassword { password: params }))
    } else if method == "sync.unlock"@ {
        Some(Ok(Call::SyncUnlock { password: params }))
    } else if method == "sync.set_master_password"@ {
        Some(Ok(Call::SyncSetMasterPassword { password: params }))
    } else if method == "sync.clear_master_password"@ {
        Some(Ok(Call::SyncClearMasterPassword))
    } else if method == "sync.lock"@ {
        Some(Ok(Call::SyncLock))
    } else if method == "sync.test"@ {
        Some(Ok(Call::SyncTest))
    } else if method == "sync.now"@ {
        Some(Ok(Call::SyncNow { only: protocol::optional(params, "id"@) }))
    } else if method == "sync.versions"@ {
        Some(
            match id {
                Ok(id) => Ok(Call::SyncVersions { id }),
                Err(message) => refused(message),
            },
        )
    } else if method == "sync.resolve"@ {
        Some(
            match id {
                Ok(id) => Ok(
                    Call::SyncResolve {
                        id,
                        choice: json::text_or(protocol::optional(params, "choice"@), ""@),
                        picked_id: protocol::optional(params, "cloud_id"@),
                        picked_key: protocol::optional(params, "cloud_key"@),
                    },
                ),
                Err(message) => refused(message),
            },
        )
    } else if method == "sync.identities"@ {
        Some(
            match id {
                Ok(id) => Ok(Call::SyncIdentities { id }),
                Err(message) => refused(message),
            },
        )
    } else if method == "sync.pairing"@ {
        Some(Ok(Call::SyncPairing))
    } else if method == "sync.pair"@ {
        Some(pair_request(params))
    } else if method == "sync.reject"@ {
        Some(
            match (id, protocol::needed(params, "cloud_id"@)) {
                (Ok(id), Ok(cloud_id)) => Ok(Call::SyncReject { id, cloud_id }),
                (Err(message), _) => refused(message),
                (_, Err(message)) => refused(message),
            },
        )
    } else if method == "sync.restore"@ {
        Some(
            match id {
                Ok(id) => Ok(
                    Call::SyncRestore { id, version: protocol::optional(params, "version"@) },
                ),
                Err(message) => refused(message),
            },
        )
    } else {
        None
    }
}

fn owned_text(params: &Option<Vec<(String, Json)>>, key: &str) -> (out: Option<String>)
    ensures
        chars::text_view(out) == protocol::optional(protocol::params_view(*params), key@),
{
    match param_text(params, key) {
        Some(value) => Some(value.to_owned()),
        None => None,
    }
}

fn route_pair(params: &Option<Vec<(String, Json)>>) -> (out: Result<Asked, Problem>)
    ensures
        routing_view(out) == pair_request(protocol::params_view(*params)),
{
    let id = match param_str(params, "id") {
        Ok(id) => id,
        Err(message) => {
            return invalid(message);
        },
    };
    let cloud_key = match param_str(params, "cloud_key") {
        Ok(cloud_key) => cloud_key,
        Err(message) => {
            return invalid(message);
        },
    };
    match param_str(params, "cloud_id") {
        Ok(cloud_id) => Ok(
            Call::SyncPair {
                id: id.to_owned(),
                cloud_key: cloud_key.to_owned(),
                cloud_id: cloud_id.to_owned(),
            },
        ),
        Err(message) => invalid(message),
    }
}

fn route_sync(method: &str, params: &Option<Vec<(String, Json)>>) -> (out: Option<
    Result<Asked, Problem>,
>)
    ensures
        match out {
            Some(routing) => sync_request(method@, protocol::params_view(*params)) == Some(
                routing_view(routing),
            ),
            None => sync_request(method@, protocol::params_view(*params)) is None,
        },
{
    if same_text(method, "sync.status") {
        Some(Ok(Call::SyncStatus))
    } else if same_text(method, "sync.set_settings") {
        Some(Ok(Call::SyncSetSettings { settings: members_of(params) }))
    } else if same_text(method, "sync.set_credentials") {
        Some(Ok(Call::SyncSetCredentials { credentials: members_of(params) }))
    } else if same_text(method, "sync.set_kopia_password") {
        Some(Ok(Call::SyncSetKopiaPassword { password: members_of(params) }))
    } else if same_text(method, "sync.unlock") {
        Some(Ok(Call::SyncUnlock { password: members_of(params) }))
    } else if same_text(method, "sync.set_master_password") {
        Some(Ok(Call::SyncSetMasterPassword { password: members_of(params) }))
    } else if same_text(method, "sync.clear_master_password") {
        Some(Ok(Call::SyncClearMasterPassword))
    } else if same_text(method, "sync.lock") {
        Some(Ok(Call::SyncLock))
    } else if same_text(method, "sync.test") {
        Some(Ok(Call::SyncTest))
    } else if same_text(method, "sync.now") {
        Some(Ok(Call::SyncNow { only: owned_text(params, "id") }))
    } else if same_text(method, "sync.versions") {
        Some(
            match param_str(params, "id") {
                Ok(id) => Ok(Call::SyncVersions { id: id.to_owned() }),
                Err(message) => invalid(message),
            },
        )
    } else if same_text(method, "sync.resolve") {
        Some(
            match param_str(params, "id") {
                Ok(id) => {
                    let choice = match param_text(params, "choice") {
                        Some(choice) => choice.to_owned(),
                        None => "".to_owned(),
                    };
                    Ok(
                        Call::SyncResolve {
                            id: id.to_owned(),
                            choice,
                            picked_id: owned_text(params, "cloud_id"),
                            picked_key: owned_text(params, "cloud_key"),
                        },
                    )
                },
                Err(message) => invalid(message),
            },
        )
    } else if same_text(method, "sync.identities") {
        Some(
            match param_str(params, "id") {
                Ok(id) => Ok(Call::SyncIdentities { id: id.to_owned() }),
                Err(message) => invalid(message),
            },
        )
    } else if same_text(method, "sync.pairing") {
        Some(Ok(Call::SyncPairing))
    } else if same_text(method, "sync.pair") {
        Some(route_pair(params))
    } else if same_text(method, "sync.reject") {
        Some(
            match param_str(params, "id") {
                Ok(id) => match param_str(params, "cloud_id") {
                    Ok(cloud_id) => Ok(
                        Call::SyncReject { id: id.to_owned(), cloud_id: cloud_id.to_owned() },
                    ),
                    Err(message) => invalid(message),
                },
                Err(message) => invalid(message),
            },
        )
    } else if same_text(method, "sync.restore") {
        Some(
            match param_str(params, "id") {
                Ok(id) => Ok(
                    Call::SyncRestore { id: id.to_owned(), version: owned_text(params, "version") },
                ),
                Err(message) => invalid(message),
            },
        )
    } else {
        None
    }
}

// ---------------------------------------------------------------------------------------------
// Every request

/// What a request asks for: the first of the groups that knows the method decides.
pub open spec fn asked(
    method: Seq<char>,
    params: Seq<(Seq<char>, JsonValue)>,
    actions: Seq<Seq<char>>,
) -> Result<Call<Seq<char>, JsonValue, Seq<(Seq<char>, JsonValue)>>, (int, Seq<char>)> {
    match machine_request(method, params) {
        Some(routing) => routing,
        None => match game_request(method, params) {
            Some(routing) => routing,
            None => match scale_request(method, params, actions) {
                Some(routing) => routing,
                None => match cloud_request(method, params) {
                    Some(routing) => routing,
                    None => match sync_request(method, params) {
                        Some(routing) => routing,
                        None => Err((METHOD_NOT_FOUND as int, "method not found: "@ + method)),
                    },
                },
            },
        },
    }
}

pub fn route(
    method: &str,
    params: &Option<Vec<(String, Json)>>,
    actions: &Vec<String>,
) -> (out: Result<Asked, Problem>)
    ensures
        routing_view(out) == asked(method@, protocol::params_view(*params), chars::texts(actions@)),
{
    match route_machine(method, params) {
        Some(routing) => routing,
        None => match route_game(method, params) {
            Some(routing) => routing,
            None => match route_scale(method, params, actions) {
                Some(routing) => routing,
                None => match route_cloud(method, params) {
                    Some(routing) => routing,
                    None => match route_sync(method, params) {
                        Some(routing) => routing,
                        None => Err(
                            Problem {
                                code: METHOD_NOT_FOUND,
                                message: glue2("method not found: ", method),
                            },
                        ),
                    },
                },
            },
        },
    }
}

/// What `{:?}` prints of a text.
pub uninterp spec fn debug_words(text: Seq<char>) -> Seq<char>;

/// The `Debug` of the standard library on a `str`: quotes around the text, with escapes inside.
/// What it prints depends on the text alone.
#[verifier::external_body]
fn debug_text(text: &str) -> (out: String)
    ensures
        out@ == debug_words(text@),
{
    format!("{text:?}")
}

/// What comes of a line from a client.
pub enum Step {
    /// The reply is known at once.
    Reply(Reply),
    /// The request has to be carried out, and its reply carries the id.
    Perform { id: Json, call: Asked },
}

/// The reply to a line that is no request, to one of another version, and to one that is turned
/// down; the request to stop is answered at once as well. `request` is the request in the line,
/// or what is wrong with the line.
pub fn handle_request(request: Result<Request, String>, actions: &Vec<String>) -> (step: Step)
    ensures
        match request {
            Err(reason) => step matches Step::Reply(reply) && !reply.shutdown && reply.body@
                == protocol::error_json(
                JsonValue::Null,
                PARSE_ERROR as int,
                "parse error: "@ + reason@,
            ),
            Ok(request) => if request.jsonrpc@ != "2.0"@ {
                step matches Step::Reply(reply) && !reply.shutdown && reply.body@
                    == protocol::error_json(
                    request.id@,
                    INVALID_REQUEST as int,
                    "unsupported jsonrpc version: "@ + debug_words(request.jsonrpc@),
                )
            } else if request.method@ == "daemon.shutdown"@ {
                step matches Step::Reply(reply) && reply.shutdown && reply.body@
                    == protocol::ok_json(request.id@, protocol::success_json())
            } else {
                match asked(
                    request.method@,
                    protocol::params_view(request.params),
                    chars::texts(actions@),
                ) {
                    Ok(call) => step matches Step::Perform { id, call: own } && id@ == request.id@
                        && call_view(own) == call,
                    Err((code, message)) => step matches Step::Reply(reply) && !reply.shutdown
                        && reply.body@ == protocol::error_json(request.id@, code, message),
                }
            },
        },
{
    let request = match request {
        Ok(request) => request,
        Err(reason) => {
            return Step::Reply(
                rpc_err(Json::Null, PARSE_ERROR, glue2("parse error: ", reason.as_str()).as_str()),
            );
        },
    };
    if !same_text(request.jsonrpc.as_str(), "2.0") {
        let words = debug_text(request.jsonrpc.as_str());
        return Step::Reply(
            rpc_err(
                request.id,
                INVALID_REQUEST,
                glue2("unsupported jsonrpc version: ", words.as_str()).as_str(),
            ),
        );
    }
    if same_text(request.method.as_str(), "daemon.shutdown") {
        let reply = rpc_ok(request.id, success());
        return Step::Reply(Reply { body: reply.body, shutdown: true });
    }
    match route(request.method.as_str(), &request.params, actions) {
        Ok(call) => Step::Perform { id: request.id, call },
        Err(problem) => Step::Reply(rpc_err(request.id, problem.code, problem.message.as_str())),
    }
}

// ---------------------------------------------------------------------------------------------
// What holds of requests

/// What is asked for, where nothing is wrong with the request.
pub open spec fn granted(call: Call<Seq<char>, JsonValue, Seq<(Seq<char>, JsonValue)>>) -> Result<
    Call<Seq<char>, JsonValue, Seq<(Seq<char>, JsonValue)>>,
    (int, Seq<char>),
> {
    Ok(call)
}

/// What is asked about the daemon and the machine, method by method.
pub proof fn requests_about_the_machine(params: Seq<(Seq<char>, JsonValue)>)
    ensures
        machine_request("daemon.status"@, params) == Some(
            granted(Call::DaemonStatus),
        ),
        machine_request("config.reload"@, params) == Some(
            granted(Call::ConfigReload),
        ),
        match protocol::flag(params, "portable"@) {
            Some(portable) => machine_request("config.set_source"@, params) == Some(
                granted(Call::ConfigSetSource { portable }),
            ),
            None => machine_request("config.set_source"@, params) == Some(
                refused("缺少参数: portable(真假)"@),
            ),
        },
        machine_request("process.list"@, params) == Some(
            granted(Call::ProcessList),
        ),
        machine_request("wine.status"@, params) == Some(
            granted(Call::WineStatus),
        ),
        machine_request("env.report"@, params) == Some(
            granted(Call::EnvReport),
        ),
        match protocol::parameter(params, "prefix"@) {
            Some(prefix) => machine_request("wine.set_prefix"@, params) == Some(
                granted(Call::WineSetPrefix { prefix }),
            ),
            None => machine_request("wine.set_prefix"@, params) == Some(
                refused("缺少参数: prefix"@),
            ),
        },
        match protocol::needed(params, "path"@) {
            Ok(text) => machine_request("mount.infer"@, params) == Some(
                granted(Call::MountInfer { path: text }),
            ),
            Err(message) => machine_request("mount.infer"@, params) == Some(
                refused(message),
            ),
        },
{
    reveal_strlit("daemon.status");
    reveal_strlit("config.reload");
    reveal_strlit("config.set_source");
    reveal_strlit("process.list");
    reveal_strlit("wine.status");
    reveal_strlit("env.report");
    reveal_strlit("wine.set_prefix");
    reveal_strlit("mount.infer");
    assert("daemon.status"@.len() == 13);
    assert("config.reload"@.len() == 13);
    assert("config.set_source"@.len() == 17);
    assert("process.list"@.len() == 12);
    assert("wine.status"@.len() == 11);
    assert("env.report"@.len() == 10);
    assert("wine.set_prefix"@.len() == 15);
    assert("mount.infer"@.len() == 11);
    assert("config.reload"@[0] == 'c');
    assert("daemon.status"@[0] == 'd');
    assert("mount.infer"@[0] == 'm');
    assert("wine.status"@[0] == 'w');
}

/// What is asked about games, method by method.
pub proof fn requests_about_games(params: Seq<(Seq<char>, JsonValue)>)
    ensures
        game_request("game.list"@, params) == Some(
            granted(Call::GameList),
        ),
        match protocol::needed(params, "directory"@) {
            Ok(text) => game_request("game.add"@, params) == Some(
                granted(Call::GameAdd { directory: text }),
            ),
            Err(message) => game_request("game.add"@, params) == Some(
                refused(message),
            ),
        },
        match protocol::needed(params, "id"@) {
            Ok(text) => game_request("game.remove"@, params) == Some(
                granted(Call::GameRemove { id: text }),
            ),
            Err(message) => game_request("game.remove"@, params) == Some(
                refused(message),
            ),
        },
        game_request("game.create"@, params) == Some(
            granted(Call::GameCreate { game: params }),
        ),
        match protocol::needed(params, "id"@) {
            Ok(id) => if protocol::without(params, "id"@).len() == 0 {
                game_request("game.update"@, params) == Some(
                    refused("game.update 需要至少一个要修改的字段"@),
                )
            } else {
                game_request("game.update"@, params) == Some(
                    granted(Call::GameUpdate { id, patch: protocol::without(params, "id"@) }),
                )
            },
            Err(message) => game_request("game.update"@, params) == Some(
                refused(message),
            ),
        },
        match protocol::needed(params, "id"@) {
            Ok(text) => game_request("game.launch"@, params) == Some(
                granted(Call::GameLaunch { id: text, selfcheck: protocol::flag(params, "selfcheck"@) == Some(true) }),
            ),
            Err(message) => game_request("game.launch"@, params) == Some(
                refused(message),
            ),
        },
        match protocol::needed(params, "session_id"@) {
            Ok(text) => game_request("game.wait"@, params) == Some(
                granted(Call::GameWait { session: text }),
            ),
            Err(message) => game_request("game.wait"@, params) == Some(
                refused(message),
            ),
        },
        match protocol::needed(params, "session_id"@) {
            Ok(text) => game_request("game.stop"@, params) == Some(
                granted(Call::GameStop { session: text }),
            ),
            Err(message) => game_request("game.stop"@, params) == Some(
                refused(message),
            ),
        },
{
    reveal_strlit("game.list");
    reveal_strlit("game.add");
    reveal_strlit("game.remove");
    reveal_strlit("game.create");
    reveal_strlit("game.update");
    reveal_strlit("game.launch");
    reveal_strlit("game.wait");
    reveal_strlit("game.stop");
    assert("game.list"@.len() == 9);
    assert("game.add"@.len() == 8);
    assert("game.remove"@.len() == 11);
    assert("game.create"@.len() == 11);
    assert("game.update"@.len() == 11);
    assert("game.launch"@.len() == 11);
    assert("game.wait"@.len() == 9);
    assert("game.stop"@.len() == 9);
    assert("game.create"@[5] == 'c');
    assert("game.launch"@[5] == 'l');
    assert("game.list"@[5] == 'l');
    assert("game.remove"@[5] == 'r');
    assert("game.stop"@[5] == 's');
    assert("game.update"@[5] == 'u');
    assert("game.wait"@[5] == 'w');
}

/// What is asked about a running game, method by method.
pub proof fn requests_about_a_running_game(params: Seq<(Seq<char>, JsonValue)>, actions: Seq<Seq<char>>)
    ensures
        match protocol::needed(params, "session_id"@) {
            Ok(text) => scale_request("scale.get_status"@, params, actions) == Some(
                granted(Call::ScaleGetStatus { session: text }),
            ),
            Err(message) => scale_request("scale.get_status"@, params, actions) == Some(
                refused(message),
            ),
        },
        match protocol::needed(params, "session_id"@) {
            Ok(text) => scale_request("scale.toggle_fsr"@, params, actions) == Some(
                granted(Call::ScaleToggleFsr { session: text }),
            ),
            Err(message) => scale_request("scale.toggle_fsr"@, params, actions) == Some(
                refused(message),
            ),
        },
        match protocol::needed(params, "session_id"@) {
            Ok(text) => scale_request("scale.toggle_integer"@, params, actions) == Some(
                granted(Call::ScaleToggleInteger { session: text }),
            ),
            Err(message) => scale_request("scale.toggle_integer"@, params, actions) == Some(
                refused(message),
            ),
        },
        match protocol::needed(params, "session_id"@) {
            Ok(text) => scale_request("scale.adjust_sharpness"@, params, actions) == Some(
                granted(Call::ScaleAdjustSharpness { session: text, delta: protocol::number_or_zero(params, "delta"@) as i32 }),
            ),
            Err(message) => scale_request("scale.adjust_sharpness"@, params, actions) == Some(
                refused(message),
            ),
        },
        match (protocol::needed(params, "session_id"@), protocol::needed(params, "action"@)) {
            (Ok(session), Ok(action)) => if actions.contains(action) {
                scale_request("scale.action"@, params, actions) == Some(
                    granted(Call::ScaleAction { session, action }),
                )
            } else {
                scale_request("scale.action"@, params, actions) == Some(
                    refused("未知的缩放动作："@ + action),
                )
            },
            (Err(message), _) => scale_request("scale.action"@, params, actions) == Some(
                refused(message),
            ),
            (Ok(_), Err(message)) => scale_request("scale.action"@, params, actions) == Some(
                refused(message),
            ),
        },
{
    reveal_strlit("scale.get_status");
    reveal_strlit("scale.toggle_fsr");
    reveal_strlit("scale.toggle_integer");
    reveal_strlit("scale.adjust_sharpness");
    reveal_strlit("scale.action");
    assert("scale.get_status"@.len() == 16);
    assert("scale.toggle_fsr"@.len() == 16);
    assert("scale.toggle_integer"@.len() == 20);
    assert("scale.adjust_sharpness"@.len() == 22);
    assert("scale.action"@.len() == 12);
    assert("scale.get_status"@[6] == 'g');
    assert("scale.toggle_fsr"@[6] == 't');
}

/// What is asked about the cloud, method by method.
pub proof fn requests_about_the_cloud(params: Seq<(Seq<char>, JsonValue)>)
    ensures
        cloud_request("sync.cloud_games"@, params) == Some(
            granted(Call::SyncCloudGames),
        ),
        cloud_request("sync.cloud_list"@, params) == Some(
            granted(Call::SyncCloudList),
        ),
        match protocol::needed(params, "key"@) {
            Ok(text) => cloud_request("sync.cloud_versions"@, params) == Some(
                granted(Call::SyncCloudVersions { key: text }),
            ),
            Err(message) => cloud_request("sync.cloud_versions"@, params) == Some(
                refused(message),
            ),
        },
        match protocol::needed(params, "exe"@) {
            Ok(text) => cloud_request("sync.match"@, params) == Some(
                granted(Call::SyncMatch { exe: text }),
            ),
            Err(message) => cloud_request("sync.match"@, params) == Some(
                refused(message),
            ),
        },
        match (protocol::needed(params, "key"@), protocol::needed(params, "version"@)) {
            (Ok(one), Ok(other)) => cloud_request("sync.delete_version"@, params) == Some(
                granted(Call::SyncDeleteVersion { key: one, gone: other }),
            ),
            (Err(message), _) => cloud_request("sync.delete_version"@, params) == Some(
                refused(message),
            ),
            (Ok(_), Err(message)) => cloud_request("sync.delete_version"@, params) == Some(
                refused(message),
            ),
        },
        match protocol::needed(params, "key"@) {
            Ok(text) => cloud_request("sync.delete_versions"@, params) == Some(
                granted(Call::SyncDeleteVersions { key: text }),
            ),
            Err(message) => cloud_request("sync.delete_versions"@, params) == Some(
                refused(message),
            ),
        },
        match protocol::needed(params, "key"@) {
            Ok(text) => cloud_request("sync.delete_identity"@, params) == Some(
                granted(Call::SyncDeleteIdentity { key: text }),
            ),
            Err(message) => cloud_request("sync.delete_identity"@, params) == Some(
                refused(message),
            ),
        },
{
    reveal_strlit("sync.cloud_games");
    reveal_strlit("sync.cloud_list");
    reveal_strlit("sync.cloud_versions");
    reveal_strlit("sync.match");
    reveal_strlit("sync.delete_version");
    reveal_strlit("sync.delete_versions");
    reveal_strlit("sync.delete_identity");
    assert("sync.cloud_games"@.len() == 16);
    assert("sync.cloud_list"@.len() == 15);
    assert("sync.cloud_versions"@.len() == 19);
    assert("sync.match"@.len() == 10);
    assert("sync.delete_version"@.len() == 19);
    assert("sync.delete_versions"@.len() == 20);
    assert("sync.delete_identity"@.len() == 20);
    assert("sync.cloud_versions"@[5] == 'c');
    assert("sync.delete_identity"@[12] == 'i');
    assert("sync.delete_version"@[5] == 'd');
    assert("sync.delete_versions"@[12] == 'v');
}

/// What is asked about the saves of games, method by method.
pub proof fn requests_about_saves(params: Seq<(Seq<char>, JsonValue)>)
    ensures
        sync_request("sync.status"@, params) == Some(
            granted(Call::SyncStatus),
        ),
        sync_request("sync.set_settings"@, params) == Some(
            granted(Call::SyncSetSettings { settings: params }),
        ),
        sync_request("sync.set_credentials"@, params) == Some(
            granted(Call::SyncSetCredentials { credentials: params }),
        ),
        sync_request("sync.set_kopia_password"@, params) == Some(
            granted(Call::SyncSetKopiaPassword { password: params }),
        ),
        sync_request("sync.unlock"@, params) == Some(
            granted(Call::SyncUnlock { password: params }),
        ),
        sync_request("sync.set_master_password"@, params) == Some(
            granted(Call::SyncSetMasterPassword { password: params }),
        ),
        sync_request("sync.clear_master_password"@, params) == Some(
            granted(Call::SyncClearMasterPassword),
        ),
        sync_request("sync.lock"@, params) == Some(
            granted(Call::SyncLock),
        ),
        sync_request("sync.test"@, params) == Some(
            granted(Call::SyncTest),
        ),
        sync_request("sync.now"@, params) == Some(
            granted(Call::SyncNow { only: protocol::optional(params, "id"@) }),
        ),
        match protocol::needed(params, "id"@) {
            Ok(text) => sync_request("sync.versions"@, params) == Some(
                granted(Call::SyncVersions { id: text }),
            ),
            Err(message) => sync_request("sync.versions"@, params) == Some(
                refused(message),
            ),
        },
        match protocol::needed(params, "id"@) {
            Ok(id) => sync_request("sync.resolve"@, params) == Some(
                granted(
                    Call::SyncResolve {
                        id,
                        choice: match protocol::optional(params, "choice"@) {
                            Some(choice) => choice,
                            None => ""@,
                        },
                        picked_id: protocol::optional(params, "cloud_id"@),
                        picked_key: protocol::optional(params, "cloud_key"@),
                    },
                ),
            ),
            Err(message) => sync_request("sync.resolve"@, params) == Some(
                refused(message),
            ),
        },
        match protocol::needed(params, "id"@) {
            Ok(text) => sync_request("sync.identities"@, params) == Some(
                granted(Call::SyncIdentities { id: text }),
            ),
            Err(message) => sync_request("sync.identities"@, params) == Some(
                refused(message),
            ),
        },
        sync_request("sync.pairing"@, params) == Some(
            granted(Call::SyncPairing),
        ),
        match (
            protocol::needed(params, "id"@),
            protocol::needed(params, "cloud_key"@),
            protocol::needed(params, "cloud_id"@),
        ) {
            (Ok(id), Ok(cloud_key), Ok(cloud_id)) => sync_request("sync.pair"@, params) == Some(
                granted(Call::SyncPair { id, cloud_key, cloud_id }),
            ),
            (Err(message), _, _) => sync_request("sync.pair"@, params) == Some(
                refused(message),
            ),
            (Ok(_), Err(message), _) => sync_request("sync.pair"@, params) == Some(
                refused(message),
            ),
            (Ok(_), Ok(_), Err(message)) => sync_request("sync.pair"@, params) == Some(
                refused(message),
            ),
        },
        match (protocol::needed(params, "id"@), protocol::needed(params, "cloud_id"@)) {
            (Ok(one), Ok(other)) => sync_request("sync.reject"@, params) == Some(
                granted(Call::SyncReject { id: one, cloud_id: other }),
            ),
            (Err(message), _) => sync_request("sync.reject"@, params) == Some(
                refused(message),
            ),
            (Ok(_), Err(message)) => sync_request("sync.reject"@, params) == Some(
                refused(message),
            ),
        },
        match protocol::needed(params, "id"@) {
            Ok(text) => sync_request("sync.restore"@, params) == Some(
                granted(Call::SyncRestore { id: text, version: protocol::optional(params, "version"@) }),
            ),
            Err(message) => sync_request("sync.restore"@, params) == Some(
                refused(message),
            ),
        },
{
    reveal_strlit("sync.status");
    reveal_strlit("sync.set_settings");
    reveal_strlit("sync.set_credentials");
    reveal_strlit("sync.set_kopia_password");
    reveal_strlit("sync.unlock");
    reveal_strlit("sync.set_master_password");
    reveal_strlit("sync.clear_master_password");
    reveal_strlit("sync.lock");
    reveal_strlit("sync.test");
    reveal_strlit("sync.now");
    reveal_strlit("sync.versions");
    reveal_strlit("sync.resolve");
    reveal_strlit("sync.identities");
    reveal_strlit("sync.pairing");
    reveal_strlit("sync.pair");
    reveal_strlit("sync.reject");
    reveal_strlit("sync.restore");
    assert("sync.status"@.len() == 11);
    assert("sync.set_settings"@.len() == 17);
    assert("sync.set_credentials"@.len() == 20);
    assert("sync.set_kopia_password"@.len() == 23);
    assert("sync.unlock"@.len() == 11);
    assert("sync.set_master_password"@.len() == 24);
    assert("sync.clear_master_password"@.len() == 26);
    assert("sync.lock"@.len() == 9);
    assert("sync.test"@.len() == 9);
    assert("sync.now"@.len() == 8);
    assert("sync.versions"@.len() == 13);
    assert("sync.resolve"@.len() == 12);
    assert("sync.identities"@.len() == 15);
    assert("sync.pairing"@.len() == 12);
    assert("sync.pair"@.len() == 9);
    assert("sync.reject"@.len() == 11);
    assert("sync.restore"@.len() == 12);
    assert("sync.lock"@[5] == 'l');
    assert("sync.pair"@[5] == 'p');
    assert("sync.pairing"@[5] == 'p');
    assert("sync.reject"@[5] == 'r');
    assert("sync.resolve"@[5] == 'r');
    assert("sync.resolve"@[8] == 'o');
    assert("sync.restore"@[5] == 'r');
    assert("sync.restore"@[8] == 't');
    assert("sync.status"@[5] == 's');
    assert("sync.test"@[5] == 't');
    assert("sync.unlock"@[5] == 'u');
}

proof fn lemma_machine_methods(method: Seq<char>, params: Seq<(Seq<char>, JsonValue)>)
    ensures
        machine_request(method, params) is Some ==> method.len() > 1 && method[0] != 'g' && method[0] != 's',
{
    reveal_strlit("daemon.status");
    reveal_strlit("config.reload");
    reveal_strlit("config.set_source");
    reveal_strlit("process.list");
    reveal_strlit("wine.status");
    reveal_strlit("env.report");
    reveal_strlit("wine.set_prefix");
    reveal_strlit("mount.infer");
    assert("daemon.status"@.len() == 13);
    assert("daemon.status"@[0] == 'd');
    assert("config.reload"@.len() == 13);
    assert("config.reload"@[0] == 'c');
    assert("config.set_source"@.len() == 17);
    assert("config.set_source"@[0] == 'c');
    assert("process.list"@.len() == 12);
    assert("process.list"@[0] == 'p');
    assert("wine.status"@.len() == 11);
    assert("wine.status"@[0] == 'w');
    assert("env.report"@.len() == 10);
    assert("env.report"@[0] == 'e');
    assert("wine.set_prefix"@.len() == 15);
    assert("wine.set_prefix"@[0] == 'w');
    assert("mount.infer"@.len() == 11);
    assert("mount.infer"@[0] == 'm');
}

proof fn lemma_game_methods(method: Seq<char>, params: Seq<(Seq<char>, JsonValue)>)
    ensures
        game_request(method, params) is Some ==> method.len() > 1 && method[0] == 'g',
{
    reveal_strlit("game.list");
    reveal_strlit("game.add");
    reveal_strlit("game.remove");
    reveal_strlit("game.create");
    reveal_strlit("game.update");
    reveal_strlit("game.launch");
    reveal_strlit("game.wait");
    reveal_strlit("game.stop");
    assert("game.list"@.len() == 9);
    assert("game.list"@[0] == 'g');
    assert("game.add"@.len() == 8);
    assert("game.add"@[0] == 'g');
    assert("game.remove"@.len() == 11);
    assert("game.remove"@[0] == 'g');
    assert("game.create"@.len() == 11);
    assert("game.create"@[0] == 'g');
    assert("game.update"@.len() == 11);
    assert("game.update"@[0] == 'g');
    assert("game.launch"@.len() == 11);
    assert("game.launch"@[0] == 'g');
    assert("game.wait"@.len() == 9);
    assert("game.wait"@[0] == 'g');
    assert("game.stop"@.len() == 9);
    assert("game.stop"@[0] == 'g');
}

proof fn lemma_scale_methods(method: Seq<char>, params: Seq<(Seq<char>, JsonValue)>, actions: Seq<Seq<char>>)
    ensures
        scale_request(method, params, actions) is Some ==> method.len() > 1 && method[0] == 's' && method[1] == 'c',
{
    reveal_strlit("scale.get_status");
    reveal_strlit("scale.toggle_fsr");
    reveal_strlit("scale.toggle_integer");
    reveal_strlit("scale.adjust_sharpness");
    reveal_strlit("scale.action");
    assert("scale.get_status"@.len() == 16);
    assert("scale.get_status"@[0] == 's');
    assert("scale.get_status"@[1] == 'c');
    assert("scale.toggle_fsr"@.len() == 16);
    assert("scale.toggle_fsr"@[0] == 's');
    assert("scale.toggle_fsr"@[1] == 'c');
    assert("scale.toggle_integer"@.len() == 20);
    assert("scale.toggle_integer"@[0] == 's');
    assert("scale.toggle_integer"@[1] == 'c');
    assert("scale.adjust_sharpness"@.len() == 22);
    assert("scale.adjust_sharpness"@[0] == 's');
    assert("scale.adjust_sharpness"@[1] == 'c');
    assert("scale.action"@.len() == 12);
    assert("scale.action"@[0] == 's');
    assert("scale.action"@[1] == 'c');
}

proof fn lemma_cloud_methods(method: Seq<char>, params: Seq<(Seq<char>, JsonValue)>)
    ensures
        cloud_request(method, params) is Some ==> method.len() > 6 && method[0] == 's' && method[1] == 'y' && (method[5] == 'm' || method[5] == 'd' || (method[5] == 'c' && method[6] == 'l' && method[7] == 'o')),
{
    reveal_strlit("sync.cloud_games");
    reveal_strlit("sync.cloud_list");
    reveal_strlit("sync.cloud_versions");
    reveal_strlit("sync.match");
    reveal_strlit("sync.delete_version");
    reveal_strlit("sync.delete_versions");
    reveal_strlit("sync.delete_identity");
    assert("sync.cloud_games"@.len() == 16);
    assert("sync.cloud_games"@[0] == 's');
    assert("sync.cloud_games"@[1] == 'y');
    assert("sync.cloud_games"@[5] == 'c');
    assert("sync.cloud_games"@[6] == 'l');
    assert("sync.cloud_games"@[7] == 'o');
    assert("sync.cloud_list"@.len() == 15);
    assert("sync.cloud_list"@[0] == 's');
    assert("sync.cloud_list"@[1] == 'y');
    assert("sync.cloud_list"@[5] == 'c');
    assert("sync.cloud_list"@[6] == 'l');
    assert("sync.cloud_list"@[7] == 'o');
    assert("sync.cloud_versions"@.len() == 19);
    assert("sync.cloud_versions"@[0] == 's');
    assert("sync.cloud_versions"@[1] == 'y');
    assert("sync.cloud_versions"@[5] == 'c');
    assert("sync.cloud_versions"@[6] == 'l');
    assert("sync.cloud_versions"@[7] == 'o');
    assert("sync.match"@.len() == 10);
    assert("sync.match"@[0] == 's');
    assert("sync.match"@[1] == 'y');
    assert("sync.match"@[5] == 'm');
    assert("sync.match"@[6] == 'a');
    assert("sync.match"@[7] == 't');
    assert("sync.delete_version"@.len() == 19);
    assert("sync.delete_version"@[0] == 's');
    assert("sync.delete_version"@[1] == 'y');
    assert("sync.delete_version"@[5] == 'd');
    assert("sync.delete_version"@[6] == 'e');
    assert("sync.delete_version"@[7] == 'l');
    assert("sync.delete_versions"@.len() == 20);
    assert("sync.delete_versions"@[0] == 's');
    assert("sync.delete_versions"@[1] == 'y');
    assert("sync.delete_versions"@[5] == 'd');
    assert("sync.delete_versions"@[6] == 'e');
    assert("sync.delete_versions"@[7] == 'l');
    assert("sync.delete_identity"@.len() == 20);
    assert("sync.delete_identity"@[0] == 's');
    assert("sync.delete_identity"@[1] == 'y');
    assert("sync.delete_identity"@[5] == 'd');
    assert("sync.delete_identity"@[6] == 'e');
    assert("sync.delete_identity"@[7] == 'l');
}

proof fn lemma_sync_methods(method: Seq<char>, params: Seq<(Seq<char>, JsonValue)>)
    ensures
        sync_request(method, params) is Some ==> method.len() > 6 && method[0] == 's' && method[1] == 'y' && method[5] != 'm' && method[5] != 'd' && (method[5] == 'c' ==> method[7] == 'e'),
{
    reveal_strlit("sync.status");
    reveal_strlit("sync.set_settings");
    reveal_strlit("sync.set_credentials");
    reveal_strlit("sync.set_kopia_password");
    reveal_strlit("sync.unlock");
    reveal_strlit("sync.set_master_password");
    reveal_strlit("sync.clear_master_password");
    reveal_strlit("sync.lock");
    reveal_strlit("sync.test");
    reveal_strlit("sync.now");
    reveal_strlit("sync.versions");
    reveal_strlit("sync.resolve");
    reveal_strlit("sync.identities");
    reveal_strlit("sync.pairing");
    reveal_strlit("sync.pair");
    reveal_strlit("sync.reject");
    reveal_strlit("sync.restore");
    assert("sync.status"@.len() == 11);
    assert("sync.status"@[0] == 's');
    assert("sync.status"@[1] == 'y');
    assert("sync.status"@[5] == 's');
    assert("sync.status"@[7] == 'a');
    assert("sync.set_settings"@.len() == 17);
    assert("sync.set_settings"@[0] == 's');
    assert("sync.set_settings"@[1] == 'y');
    assert("sync.set_settings"@[5] == 's');
    assert("sync.set_settings"@[7] == 't');
    assert("sync.set_credentials"@.len() == 20);
    assert("sync.set_credentials"@[0] == 's');
    assert("sync.set_credentials"@[1] == 'y');
    assert("sync.set_credentials"@[5] == 's');
    assert("sync.set_credentials"@[7] == 't');
    assert("sync.set_kopia_password"@.len() == 23);
    assert("sync.set_kopia_password"@[0] == 's');
    assert("sync.set_kopia_password"@[1] == 'y');
    assert("sync.set_kopia_password"@[5] == 's');
    assert("sync.set_kopia_password"@[7] == 't');
    assert("sync.unlock"@.len() == 11);
    assert("sync.unlock"@[0] == 's');
    assert("sync.unlock"@[1] == 'y');
    assert("sync.unlock"@[5] == 'u');
    assert("sync.unlock"@[7] == 'l');
    assert("sync.set_master_password"@.len() == 24);
    assert("sync.set_master_password"@[0] == 's');
    assert("sync.set_master_password"@[1] == 'y');
    assert("sync.set_master_password"@[5] == 's');
    assert("sync.set_master_password"@[7] == 't');
    assert("sync.clear_master_password"@.len() == 26);
    assert("sync.clear_master_password"@[0] == 's');
    assert("sync.clear_master_password"@[1] == 'y');
    assert("sync.clear_master_password"@[5] == 'c');
    assert("sync.clear_master_password"@[7] == 'e');
    assert("sync.lock"@.len() == 9);
    assert("sync.lock"@[0] == 's');
    assert("sync.lock"@[1] == 'y');
    assert("sync.lock"@[5] == 'l');
    assert("sync.lock"@[7] == 'c');
    assert("sync.test"@.len() == 9);
    assert("sync.test"@[0] == 's');
    assert("sync.test"@[1] == 'y');
    assert("sync.test"@[5] == 't');
    assert("sync.test"@[7] == 's');
    assert("sync.now"@.len() == 8);
    assert("sync.now"@[0] == 's');
    assert("sync.now"@[1] == 'y');
    assert("sync.now"@[5] == 'n');
    assert("sync.now"@[7] == 'w');
    assert("sync.versions"@.len() == 13);
    assert("sync.versions"@[0] == 's');
    assert("sync.versions"@[1] == 'y');
    assert("sync.versions"@[5] == 'v');
    assert("sync.versions"@[7] == 'r');
    assert("sync.resolve"@.len() == 12);
    assert("sync.resolve"@[0] == 's');
    assert("sync.resolve"@[1] == 'y');
    assert("sync.resolve"@[5] == 'r');
    assert("sync.resolve"@[7] == 's');
    assert("sync.identities"@.len() == 15);
    assert("sync.identities"@[0] == 's');
    assert("sync.identities"@[1] == 'y');
    assert("sync.identities"@[5] == 'i');
    assert("sync.identities"@[7] == 'e');
    assert("sync.pairing"@.len() == 12);
    assert("sync.pairing"@[0] == 's');
    assert("sync.pairing"@[1] == 'y');
    assert("sync.pairing"@[5] == 'p');
    assert("sync.pairing"@[7] == 'i');
    assert("sync.pair"@.len() == 9);
    assert("sync.pair"@[0] == 's');
    assert("sync.pair"@[1] == 'y');
    assert("sync.pair"@[5] == 'p');
    assert("sync.pair"@[7] == 'i');
    assert("sync.reject"@.len() == 11);
    assert("sync.reject"@[0] == 's');
    assert("sync.reject"@[1] == 'y');
    assert("sync.reject"@[5] == 'r');
    assert("sync.reject"@[7] == 'j');
    assert("sync.restore"@.len() == 12);
    assert("sync.restore"@[0] == 's');
    assert("sync.restore"@[1] == 'y');
    assert("sync.restore"@[5] == 'r');
    assert("sync.restore"@[7] == 's');
}

/// A method belongs to one group of requests, and that group decides. A method of no group is not
/// known, and that is what is answered.
#[verifier::rlimit(60)]
pub proof fn a_method_belongs_to_one_group(
    method: Seq<char>,
    params: Seq<(Seq<char>, JsonValue)>,
    actions: Seq<Seq<char>>,
)
    ensures
        machine_request(method, params) is Some ==> machine_request(method, params) == Some(
            asked(method, params, actions),
        ),
        game_request(method, params) is Some ==> game_request(method, params) == Some(
            asked(method, params, actions),
        ),
        scale_request(method, params, actions) is Some ==> scale_request(method, params, actions)
            == Some(asked(method, params, actions)),
        cloud_request(method, params) is Some ==> cloud_request(method, params) == Some(
            asked(method, params, actions),
        ),
        sync_request(method, params) is Some ==> sync_request(method, params) == Some(
            asked(method, params, actions),
        ),
        machine_request(method, params) is None && game_request(method, params) is None
            && scale_request(method, params, actions) is None && cloud_request(
            method,
            params,
        ) is None && sync_request(method, params) is None ==> asked(method, params, actions) == Err::<
            Call<Seq<char>, JsonValue, Seq<(Seq<char>, JsonValue)>>,
            (int, Seq<char>),
        >((-32601, "method not found: "@ + method)),
{
    lemma_machine_methods(method, params);
    lemma_game_methods(method, params);
    lemma_scale_methods(method, params, actions);
    lemma_cloud_methods(method, params);
    lemma_sync_methods(method, params);
}

} // verus!
