//! Where kotori keeps things, and what becomes of the configuration file.
//!
//! What the surroundings are (variables, directories of the platform, files that are there) is
//! given; which path follows from that is worked out here.

use crate::config::model;
use crate::config::model::{Config, Settings};
use crate::path;
use crate::path::{push_bytes, FsPath, Part};
use vstd::prelude::*;
use vstd::string::StringExecFns;
use vstd::utf8::*;

verus! {

/// What the paths depend on.
pub struct Surroundings {
    /// `KOTORI_CONFIG`: the configuration file, pinned.
    pub pinned_config: Option<FsPath>,
    /// `KOTORI_SECRETS_FILE`: the file of credentials, pinned.
    pub pinned_secrets: Option<FsPath>,
    /// `KOTORI_DATA_DIR`: the directory for data, pinned.
    pub pinned_data: Option<FsPath>,
    /// `KOTORI_SOCKET`: the socket, pinned.
    pub pinned_socket: Option<FsPath>,
    /// The program itself.
    pub exe: Option<FsPath>,
    /// A file `config.toml` lies next to the program.
    pub beside_exe: bool,
    /// The directories of the platform.
    pub config_dir: Option<FsPath>,
    pub data_dir: Option<FsPath>,
    pub runtime_dir: Option<FsPath>,
}

/// What the surroundings say.
pub struct Places {
    pub pinned_config: Option<Seq<u8>>,
    pub pinned_secrets: Option<Seq<u8>>,
    pub pinned_data: Option<Seq<u8>>,
    pub pinned_socket: Option<Seq<u8>>,
    pub exe: Option<Seq<u8>>,
    pub beside_exe: bool,
    pub config_dir: Option<Seq<u8>>,
    pub data_dir: Option<Seq<u8>>,
    pub runtime_dir: Option<Seq<u8>>,
}

impl View for Surroundings {
    type V = Places;

    open spec fn view(&self) -> Places {
        Places {
            pinned_config: model::path_view(self.pinned_config),
            pinned_secrets: model::path_view(self.pinned_secrets),
            pinned_data: model::path_view(self.pinned_data),
            pinned_socket: model::path_view(self.pinned_socket),
            exe: model::path_view(self.exe),
            beside_exe: self.beside_exe,
            config_dir: model::path_view(self.config_dir),
            data_dir: model::path_view(self.data_dir),
            runtime_dir: model::path_view(self.runtime_dir),
        }
    }
}

/// A name in a directory.
pub open spec fn entry(dir: Seq<u8>, name: Seq<char>) -> Seq<u8> {
    path::join_path(dir, encode_utf8(name))
}

fn entry_of(dir: &FsPath, name: &str) -> (out: FsPath)
    ensures
        out@ == entry(dir@, name@),
{
    dir.join(&FsPath::from_text(name))
}

/// A name next to a path, and the bare name where the path stands in no directory.
pub open spec fn neighbour(p: Seq<u8>, name: Seq<char>) -> Seq<u8> {
    match path::parent_of(p) {
        Some(dir) => entry(dir, name),
        None => encode_utf8(name),
    }
}

pub fn neighbour_of(p: &FsPath, name: &str) -> (out: FsPath)
    ensures
        out@ == neighbour(p@, name@),
{
    match p.parent() {
        Some(dir) => entry_of(&dir, name),
        None => FsPath::from_text(name),
    }
}

// ---------------------------------------------------------------------------------------------
// The configuration file

/// The configuration file of the platform.
pub open spec fn platform_config(places: Places) -> Seq<u8> {
    let dir = match places.config_dir {
        Some(dir) => dir,
        None => encode_utf8("."@),
    };
    entry(entry(dir, "kotori"@), "config.toml"@)
}

/// The configuration file next to the program. Where the place of the program is not known,
/// there is none.
pub open spec fn portable_config(places: Places) -> Option<Seq<u8>> {
    match places.exe {
        Some(exe) => match path::parent_of(exe) {
            Some(dir) => Some(entry(dir, "config.toml"@)),
            None => None,
        },
        None => None,
    }
}

/// A file next to the program comes first, the one of the platform after it.
pub open spec fn chosen_config(
    exe_dir: Option<Seq<u8>>,
    beside_exe: bool,
    fallback_dir: Seq<u8>,
) -> Seq<u8> {
    match exe_dir {
        Some(dir) => if beside_exe {
            entry(dir, "config.toml"@)
        } else {
            entry(fallback_dir, "config.toml"@)
        },
        None => entry(fallback_dir, "config.toml"@),
    }
}

/// The configuration file in effect.
pub open spec fn effective_config(places: Places) -> Seq<u8> {
    match places.pinned_config {
        Some(pinned) => pinned,
        None => match portable_config(places) {
            Some(portable) => if places.beside_exe {
                portable
            } else {
                platform_config(places)
            },
            None => platform_config(places),
        },
    }
}

/// The file in effect is the one next to the program.
pub open spec fn is_portable(effective: Seq<u8>, portable: Option<Seq<u8>>) -> bool {
    match portable {
        Some(portable) => path::same_path(portable, effective),
        None => false,
    }
}

pub fn choose_config_path(
    exe_dir: Option<&FsPath>,
    beside_exe: bool,
    fallback_dir: &FsPath,
) -> (out: FsPath)
    ensures
        out@ == chosen_config(
            match exe_dir {
                Some(dir) => Some(dir@),
                None => None,
            },
            beside_exe,
            fallback_dir@,
        ),
{
    match exe_dir {
        Some(dir) => if beside_exe {
            return entry_of(dir, "config.toml");
        },
        None => {},
    }
    entry_of(fallback_dir, "config.toml")
}

pub fn config_is_portable(effective: &FsPath, portable: Option<&FsPath>) -> (yes: bool)
    ensures
        yes == is_portable(
            effective@,
            match portable {
                Some(portable) => Some(portable@),
                None => None,
            },
        ),
{
    match portable {
        Some(portable) => portable.same(effective),
        None => false,
    }
}

fn default_config_dir(around: &Surroundings) -> (out: FsPath)
    ensures
        entry(out@, "config.toml"@) == platform_config(around@),
{
    match &around.config_dir {
        Some(dir) => entry_of(dir, "kotori"),
        None => entry_of(&FsPath::from_text("."), "kotori"),
    }
}

/// The configuration file of the platform.
pub fn default_config_path(around: &Surroundings) -> (out: FsPath)
    ensures
        out@ == platform_config(around@),
{
    entry_of(&default_config_dir(around), "config.toml")
}

/// The configuration file next to the program.
pub fn portable_config_path(around: &Surroundings) -> (out: Option<FsPath>)
    ensures
        model::path_view(out) == portable_config(around@),
{
    match &around.exe {
        Some(exe) => match exe.parent() {
            Some(dir) => Some(entry_of(&dir, "config.toml")),
            None => None,
        },
        None => None,
    }
}

/// The configuration file in effect.
pub fn config_path(around: &Surroundings) -> (out: FsPath)
    ensures
        out@ == effective_config(around@),
{
    match &around.pinned_config {
        Some(pinned) => {
            return pinned.copy();
        },
        None => {},
    }
    let dir = match &around.exe {
        Some(exe) => exe.parent(),
        None => None,
    };
    let fallback = default_config_dir(around);
    choose_config_path(dir.as_ref(), around.beside_exe, &fallback)
}

/// The place of the configuration is pinned, so that switching it would change nothing.
pub fn config_path_is_pinned(around: &Surroundings) -> (yes: bool)
    ensures
        yes == around@.pinned_config is Some,
{
    around.pinned_config.is_some()
}

pub fn secrets_path_is_pinned(around: &Surroundings) -> (yes: bool)
    ensures
        yes == around@.pinned_secrets is Some,
{
    around.pinned_secrets.is_some()
}

/// The file in effect is the one next to the program: then the whole directory can be copied,
/// and everything goes with it.
pub fn is_portable_config(around: &Surroundings) -> (yes: bool)
    ensures
        yes == is_portable(effective_config(around@), portable_config(around@)),
{
    let portable = portable_config_path(around);
    config_is_portable(&config_path(around), portable.as_ref())
}

// ---------------------------------------------------------------------------------------------
// What lies next to it

/// The file of credentials under a master password.
pub open spec fn secrets_file(places: Places) -> Seq<u8> {
    match places.pinned_secrets {
        Some(pinned) => pinned,
        None => neighbour(effective_config(places), "secrets.json"@),
    }
}

/// The file of plain credentials.
pub open spec fn plain_secrets_file(places: Places) -> Seq<u8> {
    neighbour(secrets_file(places), "credentials.json"@)
}

pub open spec fn data_directory_for(
    portable: bool,
    config: Seq<u8>,
    platform_default: Seq<u8>,
) -> Seq<u8> {
    match path::parent_of(config) {
        Some(dir) => if portable {
            entry(dir, "data"@)
        } else {
            platform_default
        },
        None => platform_default,
    }
}

/// The directory for data.
pub open spec fn data_directory(places: Places) -> Seq<u8> {
    match places.pinned_data {
        Some(pinned) => pinned,
        None => data_directory_for(
            is_portable(effective_config(places), portable_config(places)),
            effective_config(places),
            entry(
                match places.data_dir {
                    Some(dir) => dir,
                    None => encode_utf8("."@),
                },
                "kotori"@,
            ),
        ),
    }
}

/// The directory for logs: next to the configuration, and with the data where that is nowhere.
pub open spec fn log_directory(places: Places) -> Seq<u8> {
    match path::parent_of(effective_config(places)) {
        Some(dir) => entry(dir, "logs"@),
        None => entry(data_directory(places), "logs"@),
    }
}

pub fn secrets_path(around: &Surroundings) -> (out: FsPath)
    ensures
        out@ == secrets_file(around@),
{
    match &around.pinned_secrets {
        Some(pinned) => pinned.copy(),
        None => neighbour_of(&config_path(around), "secrets.json"),
    }
}

pub fn plain_secrets_path(around: &Surroundings) -> (out: FsPath)
    ensures
        out@ == plain_secrets_file(around@),
{
    neighbour_of(&secrets_path(around), "credentials.json")
}

pub fn data_dir_for(portable: bool, config: &FsPath, platform_default: FsPath) -> (out: FsPath)
    ensures
        out@ == data_directory_for(portable, config@, platform_default@),
{
    if portable {
        match config.parent() {
            Some(dir) => {
                return entry_of(&dir, "data");
            },
            None => {},
        }
    }
    platform_default
}

pub fn data_dir(around: &Surroundings) -> (out: FsPath)
    ensures
        out@ == data_directory(around@),
{
    match &around.pinned_data {
        Some(pinned) => {
            return pinned.copy();
        },
        None => {},
    }
    let platform_default = match &around.data_dir {
        Some(dir) => entry_of(dir, "kotori"),
        None => entry_of(&FsPath::from_text("."), "kotori"),
    };
    data_dir_for(is_portable_config(around), &config_path(around), platform_default)
}

pub fn log_dir(around: &Surroundings) -> (out: FsPath)
    ensures
        out@ == log_directory(around@),
{
    match config_path(around).parent() {
        Some(dir) => entry_of(&dir, "logs"),
        None => entry_of(&data_dir(around), "logs"),
    }
}

/// The socket of the daemon: pinned, else what is configured.
pub fn resolve_socket(around: &Surroundings, config: &Config) -> (out: FsPath)
    ensures
        out@ == match around@.pinned_socket {
            Some(pinned) => pinned,
            None => config@.daemon.socket_path,
        },
{
    match &around.pinned_socket {
        Some(pinned) => pinned.copy(),
        None => config.daemon.socket_path.copy(),
    }
}

/// The socket of the daemon, with the configuration that could be loaded, if any.
pub fn socket_path(around: &Surroundings, loaded: Option<&Config>) -> (out: FsPath)
    ensures
        out@ == match around@.pinned_socket {
            Some(pinned) => pinned,
            None => match loaded {
                Some(config) => config@.daemon.socket_path,
                None => model::default_socket(around@.runtime_dir),
            },
        },
{
    match loaded {
        Some(config) => resolve_socket(around, config),
        None => resolve_socket(around, &Config::default_at(&around.runtime_dir)),
    }
}

// ---------------------------------------------------------------------------------------------
// The lock

/// The lock of a configuration file: `.lock` behind its name.
pub open spec fn lock_file(config: Seq<u8>) -> Seq<u8> {
    let name = match path::file_name_of(config) {
        Some(name) => name,
        None => encode_utf8("config.toml"@),
    };
    path::with_file_name(config, name + encode_utf8(".lock"@))
}

pub fn lock_path_for(config: &FsPath) -> (out: FsPath)
    ensures
        out@ == lock_file(config@),
{
    let mut raw = match config.file_name() {
        Some(name) => name,
        None => FsPath::from_text("config.toml").raw,
    };
    push_bytes(&mut raw, ".lock".as_bytes());
    config.with_file_name(&FsPath { raw })
}

// ---------------------------------------------------------------------------------------------
// Loading

/// What came of reading the configuration file.
pub enum Reading {
    /// There is no file.
    Missing,
    /// The file is there and cannot be read; with the words of the system.
    Unreadable(String),
    /// The file was read and does not make sense.
    Unparsable,
    /// The file was read.
    Parsed(Config),
}

/// What to do after reading.
pub enum Loading {
    Use(Config),
    /// Go on with a fresh configuration, after the file was renamed to the given path.
    UseAfterMoving(Config, FsPath),
    /// Give up, with words for the user.
    Refuse(String),
}

/// Where a file that makes no sense is moved.
pub open spec fn corrupt_backup(config: Seq<u8>) -> Seq<u8> {
    path::with_extension(config, encode_utf8("toml.corrupt"@))
}

/// Where a file is written before it takes the place of the old one.
pub open spec fn temporary_file(config: Seq<u8>) -> Seq<u8> {
    path::with_extension(config, encode_utf8("toml.tmp"@))
}

/// Where a file next to the program is moved when it is no longer to be used.
pub open spec fn portable_backup(config: Seq<u8>) -> Seq<u8> {
    path::with_extension(config, encode_utf8("toml.portable-bak"@))
}

/// The configuration of a machine that has none.
pub open spec fn fresh(runtime_dir: Option<Seq<u8>>) -> Settings {
    Settings {
        daemon: model::DaemonSettings {
            socket_path: model::default_socket(runtime_dir),
            log_level: "info"@,
            auto_watch_migrated: false,
            machine_id: None,
        },
        wine_prefix: None,
        sync: model::default_sync(),
        games: Seq::empty(),
    }
}

/// Decides what follows from reading the configuration file. A file that is missing means a
/// fresh start, and so does one that makes no sense, after it was moved out of the way. A file
/// that cannot be read is an error: it is neither moved nor replaced.
pub fn load_at(config: &FsPath, reading: Reading, runtime_dir: &Option<FsPath>) -> (out: Loading)
    ensures
        match (reading, out) {
            (Reading::Missing, Loading::Use(used)) => used@ == fresh(
                model::path_view(*runtime_dir),
            ),
            (Reading::Unreadable(error), Loading::Refuse(message)) => message@ == "读不了配置文件 "@
                + path::lossy_text(config@) + ": "@ + error@,
            (Reading::Unparsable, Loading::UseAfterMoving(used, backup)) => used@ == fresh(
                model::path_view(*runtime_dir),
            ) && backup@ == corrupt_backup(config@),
            (Reading::Parsed(parsed), Loading::Use(used)) => used@ == model::brought_up_to_date(
                parsed@,
            ),
            _ => false,
        },
        match (reading, out) {
            (Reading::Parsed(parsed), Loading::Use(used)) => parsed.wf() ==> used.wf(),
            (_, Loading::Use(used)) => used.wf(),
            (_, Loading::UseAfterMoving(used, _)) => used.wf(),
            _ => true,
        },
{
    match reading {
        Reading::Missing => Loading::Use(Config::default_at(runtime_dir)),
        Reading::Unreadable(error) => {
            let mut message = "读不了配置文件 ".to_owned();
            message.append(config.text().as_str());
            message.append(": ");
            message.append(error.as_str());
            Loading::Refuse(message)
        },
        Reading::Unparsable => Loading::UseAfterMoving(
            Config::default_at(runtime_dir),
            config.with_extension("toml.corrupt"),
        ),
        Reading::Parsed(parsed) => {
            let mut used = parsed;
            used.normalize();
            Loading::Use(used)
        },
    }
}

/// Where the configuration is written before it takes the place of the old one.
pub fn temporary_path(config: &FsPath) -> (out: FsPath)
    ensures
        out@ == temporary_file(config@),
{
    config.with_extension("toml.tmp")
}

/// Where the file that was in effect goes after the configuration was moved to `target`. It
/// has to go only where it would win again at the next start, and it is renamed, not deleted.
pub open spec fn stepping_aside(
    current: Seq<u8>,
    target: Seq<u8>,
    current_is_file: bool,
    disable_current: bool,
) -> Option<Seq<u8>> {
    if !disable_current || path::same_path(current, target) || !current_is_file {
        None
    } else {
        Some(portable_backup(current))
    }
}

pub fn relocate_config(
    current: &FsPath,
    target: &FsPath,
    current_is_file: bool,
    disable_current: bool,
) -> (backup: Option<FsPath>)
    ensures
        model::path_view(backup) == stepping_aside(
            current@,
            target@,
            current_is_file,
            disable_current,
        ),
{
    if !disable_current || current.same(target) || !current_is_file {
        return None;
    }
    Some(current.with_extension("toml.portable-bak"))
}

// ---------------------------------------------------------------------------------------------
// What holds of the places

/// A portable installation keeps its data next to its configuration, unless the place of the
/// data is pinned.
pub proof fn portable_data_lies_with_the_configuration(places: Places)
    requires
        places.pinned_data is None,
        is_portable(effective_config(places), portable_config(places)),
        path::parent_of(effective_config(places)) is Some,
    ensures
        data_directory(places) == entry(
            path::parent_of(effective_config(places)).unwrap(),
            "data"@,
        ),
{
}

/// Without a file next to the program, or without knowing where the program is, the file of the
/// platform is in effect.
pub proof fn without_a_file_beside_the_platform_decides(places: Places)
    requires
        places.pinned_config is None,
        !places.beside_exe || places.exe is None,
    ensures
        effective_config(places) == platform_config(places),
{
}

/// A pinned configuration is in effect whatever else is there.
pub proof fn a_pinned_configuration_wins(places: Places, pinned: Seq<u8>)
    requires
        places.pinned_config == Some(pinned),
    ensures
        effective_config(places) == pinned,
{
}

/// Switching to the file next to the program never moves the file that was in effect, and
/// neither does switching to where the configuration already is.
pub proof fn only_leaving_moves_a_file(
    current: Seq<u8>,
    target: Seq<u8>,
    current_is_file: bool,
    disable_current: bool,
)
    requires
        !disable_current || path::same_path(current, target),
    ensures
        stepping_aside(current, target, current_is_file, disable_current) is None,
{
}

proof fn lemma_lock_name(name: Seq<u8>)
    requires
        path::is_name(name),
    ensures
        path::is_name(name + encode_utf8(".lock"@)),
        !path::is_absolute(name + encode_utf8(".lock"@)),
        name + encode_utf8(".lock"@) != name,
{
    reveal_strlit(".lock");
    is_ascii_chars_encode_utf8(".lock"@);
    let tail = encode_utf8(".lock"@);
    let whole = name + tail;
    assert(tail.len() == 5);
    assert(whole.len() > 2);
    assert(whole[whole.len() - 1] == tail[4]);
    assert(!whole.contains(path::SLASH)) by {
        if whole.contains(path::SLASH) {
            let k = whole.index_of(path::SLASH);
            if k < name.len() {
                assert(name[k] == path::SLASH);
            } else {
                assert(tail[k - name.len()] == path::SLASH);
            }
        }
    }
    if path::is_absolute(whole) {
        assert(whole.contains(whole[0]));
    }
    assert(whole.len() != name.len());
}

/// The lock lies next to the configuration file and is another file.
pub proof fn the_lock_lies_beside(config: Seq<u8>)
    requires
        path::file_name_of(config) is Some,
    ensures
        path::parent_of(lock_file(config)) == path::parent_of(config),
        path::file_name_of(lock_file(config)) == Some(
            path::file_name_of(config).unwrap() + encode_utf8(".lock"@),
        ),
        !path::same_path(lock_file(config), config),
{
    let name = path::file_name_of(config).unwrap();
    let list = path::parts(config);
    let long = name + encode_utf8(".lock"@);
    path::parts_are_parts(config);
    assert(list[list.len() - 1] == Part::Name(name));
    lemma_lock_name(name);
    path::a_neighbour_has_the_same_parent(config, long);
    if path::same_path(lock_file(config), config) {
        assert(path::file_name_of(lock_file(config)) == Some(name));
    }
}

/// A file `config.toml` that lies next to the program is in effect, unless another one is pinned.
pub proof fn a_file_beside_the_program_wins(places: Places)
    requires
        places.pinned_config is None,
        places.beside_exe,
        places.exe is Some,
        path::parent_of(places.exe.unwrap()) is Some,
    ensures
        effective_config(places) == path::join_path(
            path::parent_of(places.exe.unwrap()).unwrap(),
            encode_utf8("config.toml"@),
        ),
        portable_config(places) == Some(effective_config(places)),
        is_portable(effective_config(places), portable_config(places)),
{
}

/// The file of the platform is `kotori/config.toml` in its directory for configurations, and in
/// the current one where there is no such directory.
pub proof fn the_file_of_the_platform(places: Places)
    ensures
        places.config_dir is Some ==> platform_config(places) == path::join_path(
            path::join_path(places.config_dir.unwrap(), encode_utf8("kotori"@)),
            encode_utf8("config.toml"@),
        ),
        places.config_dir is None ==> platform_config(places) == path::join_path(
            path::join_path(encode_utf8("."@), encode_utf8("kotori"@)),
            encode_utf8("config.toml"@),
        ),
{
}

/// Of two directories the one of the program is taken where the file lies there.
pub proof fn the_directory_with_the_file_is_taken(dir: Seq<u8>, fallback: Seq<u8>)
    ensures
        chosen_config(Some(dir), true, fallback) == path::join_path(
            dir,
            encode_utf8("config.toml"@),
        ),
        chosen_config(Some(dir), false, fallback) == path::join_path(
            fallback,
            encode_utf8("config.toml"@),
        ),
        forall|beside: bool| #[trigger]
            chosen_config(None, beside, fallback) == path::join_path(
                fallback,
                encode_utf8("config.toml"@),
            ),
{
}

/// Credentials lie next to the configuration in effect, unless their file is pinned, and the
/// plain ones lie next to the ones under a password.
pub proof fn credentials_lie_with_the_configuration(places: Places)
    ensures
        places.pinned_secrets is Some ==> secrets_file(places) == places.pinned_secrets.unwrap(),
        places.pinned_secrets is None && path::parent_of(effective_config(places)) is Some
            ==> secrets_file(places) == path::join_path(
            path::parent_of(effective_config(places)).unwrap(),
            encode_utf8("secrets.json"@),
        ),
        path::parent_of(secrets_file(places)) is Some ==> plain_secrets_file(places)
            == path::join_path(
            path::parent_of(secrets_file(places)).unwrap(),
            encode_utf8("credentials.json"@),
        ),
{
}

/// Data lie where they are pinned, else with a portable configuration, else in the directory of
/// the platform; logs lie next to the configuration.
pub proof fn where_data_and_logs_lie(places: Places)
    ensures
        places.pinned_data is Some ==> data_directory(places) == places.pinned_data.unwrap(),
        places.pinned_data is None && !is_portable(
            effective_config(places),
            portable_config(places),
        ) && places.data_dir is Some ==> data_directory(places) == path::join_path(
            places.data_dir.unwrap(),
            encode_utf8("kotori"@),
        ),
        path::parent_of(effective_config(places)) is Some ==> log_directory(places)
            == path::join_path(
            path::parent_of(effective_config(places)).unwrap(),
            encode_utf8("logs"@),
        ),
        path::parent_of(effective_config(places)) is None ==> log_directory(places)
            == path::join_path(data_directory(places), encode_utf8("logs"@)),
{
}

/// A file that is no longer to be used steps aside where it is there and another one takes its
/// place.
pub proof fn a_file_that_would_win_again_steps_aside(current: Seq<u8>, target: Seq<u8>)
    requires
        !path::same_path(current, target),
    ensures
        stepping_aside(current, target, true, true) == Some(
            path::with_extension(current, encode_utf8("toml.portable-bak"@)),
        ),
        stepping_aside(current, target, false, true) is None,
        stepping_aside(current, target, true, false) is None,
{
}

/// What is moved or written beside a file has the name of the file with another ending.
pub proof fn files_beside_have_their_endings(config: Seq<u8>)
    ensures
        corrupt_backup(config) == path::with_extension(config, encode_utf8("toml.corrupt"@)),
        temporary_file(config) == path::with_extension(config, encode_utf8("toml.tmp"@)),
        portable_backup(config) == path::with_extension(
            config,
            encode_utf8("toml.portable-bak"@),
        ),
{
}

/// A fresh configuration has no games, and its sync is off.
pub proof fn a_fresh_start_is_empty(runtime_dir: Option<Seq<u8>>)
    ensures
        fresh(runtime_dir).games.len() == 0,
        !fresh(runtime_dir).sync.enabled,
        fresh(runtime_dir).wine_prefix is None,
        fresh(runtime_dir).daemon.machine_id is None,
        !fresh(runtime_dir).daemon.auto_watch_migrated,
        fresh(runtime_dir).daemon.socket_path == model::default_socket(runtime_dir),
{
}

/// What a machine without a configuration starts with: no games and no prefix, and it tells what
/// is worth knowing.
pub proof fn what_a_fresh_start_holds(runtime_dir: Option<Seq<u8>>)
    ensures
        fresh(runtime_dir).games.len() == 0,
        fresh(runtime_dir).wine_prefix is None,
        fresh(runtime_dir).daemon.log_level == "info"@,
        fresh(runtime_dir).daemon.machine_id is None,
        !fresh(runtime_dir).daemon.auto_watch_migrated,
        fresh(runtime_dir).daemon.socket_path == model::default_socket(runtime_dir),
        fresh(runtime_dir).sync == model::default_sync(),
{
}

/// The files next to the configuration have its name and an ending of their own.
pub proof fn files_next_to_the_configuration_have_their_endings(config: Seq<u8>)
    ensures
        corrupt_backup(config) == path::with_extension(config, encode_utf8("toml.corrupt"@)),
        temporary_file(config) == path::with_extension(config, encode_utf8("toml.tmp"@)),
        portable_backup(config) == path::with_extension(config, encode_utf8("toml.portable-bak"@)),
{
}

} // verus!
