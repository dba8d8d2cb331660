//! What the configuration holds.

use crate::config::profile::{Profile, ScaleProfile};
use crate::mount::table;
use crate::mount::table::{copy_reference, MountPath, Reference};
use crate::path;
use crate::path::FsPath;
use crate::text::chars;
use crate::text::chars::{chars_of, copy_texts, same_text};
use crate::text::search;
use crate::text::search::trimmed;
use crate::text::split;
use crate::text::split::joined;
use vstd::prelude::*;
use vstd::string::StringExecFns;
use vstd::utf8::*;

verus! {

// ---------------------------------------------------------------------------------------------
// Save locations

/// How the path of a save location is read, so that one configuration can be understood on
/// Linux, under wine, and on Windows.
#[derive(Clone, Copy, Debug, PartialEq, Eq, Structural)]
pub enum SavePathKind {
    /// A Windows path inside the wine prefix.
    Windows,
    /// A path from the directory of the game.
    Relative,
    /// A path on this machine.
    Absolute,
}

/// A path that starts with a drive letter.
pub open spec fn has_drive(s: Seq<char>) -> bool {
    s.len() >= 2 && chars::is_ascii_letter(s[0]) && s[1] == ':'
}

/// The kind that a bare path looks like.
pub open spec fn kind_of(path: Seq<char>) -> SavePathKind {
    let s = search::trim(path);
    if s.len() > 0 && (s[0] == '%' || has_drive(s)) {
        SavePathKind::Windows
    } else if s.len() > 0 && (s[0] == '/' || s[0] == '~') {
        SavePathKind::Absolute
    } else {
        SavePathKind::Relative
    }
}

pub open spec fn kind_name(kind: SavePathKind) -> Seq<char> {
    match kind {
        SavePathKind::Windows => "windows"@,
        SavePathKind::Relative => "relative"@,
        SavePathKind::Absolute => "absolute"@,
    }
}

impl SavePathKind {
    /// The kind that a bare path looks like.
    pub fn infer(path: &str) -> (kind: SavePathKind)
        ensures
            kind == kind_of(path@),
    {
        let short = trimmed(path);
        let list = chars_of(short.as_str());
        if list.len() == 0 {
            return SavePathKind::Relative;
        }
        let first = list[0];
        let drive = list.len() >= 2 && (('a' <= first && first <= 'z') || ('A' <= first && first
            <= 'Z')) && list[1] == ':';
        if first == '%' || drive {
            SavePathKind::Windows
        } else if first == '/' || first == '~' {
            SavePathKind::Absolute
        } else {
            SavePathKind::Relative
        }
    }

    /// How the kind is written in the configuration.
    pub fn as_str(self) -> (name: &'static str)
        ensures
            name@ == kind_name(self),
    {
        match self {
            SavePathKind::Windows => "windows",
            SavePathKind::Relative => "relative",
            SavePathKind::Absolute => "absolute",
        }
    }
}

/// A place where a game keeps its saves.
pub struct SavePath {
    pub kind: SavePathKind,
    pub path: String,
    /// Patterns of files that are not synced.
    pub exclude: Vec<String>,
    /// The place on its disk, where that is known.
    pub mount: Option<MountPath>,
}

/// What a save location says.
pub struct SaveLocation {
    pub kind: SavePathKind,
    pub path: Seq<char>,
    pub exclude: Seq<Seq<char>>,
    pub mount: Option<Reference>,
}

impl View for SavePath {
    type V = SaveLocation;

    open spec fn view(&self) -> SaveLocation {
        SaveLocation {
            kind: self.kind,
            path: self.path@,
            exclude: chars::texts(self.exclude@),
            mount: table::reference_view(self.mount),
        }
    }
}

pub open spec fn saves_view(list: Seq<SavePath>) -> Seq<SaveLocation> {
    list.map_values(|save: SavePath| save@)
}

/// The words for a kind.
pub open spec fn kind_words(kind: SavePathKind) -> Seq<char> {
    match kind {
        SavePathKind::Windows => "windows 路径"@,
        SavePathKind::Relative => "相对游戏目录"@,
        SavePathKind::Absolute => "绝对路径（仅本机）"@,
    }
}

/// One line that describes a save location.
pub open spec fn description(save: SaveLocation) -> Seq<char> {
    if save.exclude.len() == 0 {
        save.path + "（"@ + kind_words(save.kind) + "）"@
    } else {
        save.path + "（"@ + kind_words(save.kind) + "，排除 "@ + split::join(save.exclude, ", "@)
            + "）"@
    }
}

impl SavePath {
    pub fn new(kind: SavePathKind, path: String) -> (save: SavePath)
        ensures
            save@ == (SaveLocation { kind, path: path@, exclude: Seq::empty(), mount: None }),
    {
        let save = SavePath { kind, path, exclude: Vec::new(), mount: None };
        assert(save@.exclude =~= Seq::<Seq<char>>::empty());
        save
    }

    /// A location given by its path alone.
    pub fn inferred(path: String) -> (save: SavePath)
        ensures
            save@ == (SaveLocation {
                kind: kind_of(path@),
                path: path@,
                exclude: Seq::empty(),
                mount: None,
            }),
    {
        let kind = SavePathKind::infer(path.as_str());
        SavePath::new(kind, path)
    }

    /// A location with all that can be said of it; the kind goes by the path where it is left out.
    pub fn detailed(kind: Option<SavePathKind>, path: String, exclude: Vec<String>) -> (save:
        SavePath)
        ensures
            save@ == (SaveLocation {
                kind: match kind {
                    Some(kind) => kind,
                    None => kind_of(path@),
                },
                path: path@,
                exclude: chars::texts(exclude@),
                mount: None,
            }),
    {
        let kind = match kind {
            Some(kind) => kind,
            None => SavePathKind::infer(path.as_str()),
        };
        SavePath { kind, path, exclude, mount: None }
    }

    /// One line that describes the location.
    pub fn describe(&self) -> (text: String)
        ensures
            text@ == description(self@),
    {
        let kind = match self.kind {
            SavePathKind::Windows => "windows 路径",
            SavePathKind::Relative => "相对游戏目录",
            SavePathKind::Absolute => "绝对路径（仅本机）",
        };
        assert(self@.exclude.len() == self.exclude@.len());
        let mut text = self.path.clone();
        text.append("（");
        text.append(kind);
        if self.exclude.len() > 0 {
            text.append("，排除 ");
            text.append(joined(&self.exclude, ", ").as_str());
        }
        text.append("）");
        text
    }

    pub fn copy(&self) -> (copy: SavePath)
        ensures
            copy@ == self@,
    {
        SavePath {
            kind: self.kind,
            path: self.path.clone(),
            exclude: copy_texts(&self.exclude),
            mount: copy_reference(&self.mount),
        }
    }
}

pub fn copy_saves(list: &Vec<SavePath>) -> (copy: Vec<SavePath>)
    ensures
        saves_view(copy@) == saves_view(list@),
{
    let mut copy: Vec<SavePath> = Vec::new();
    let mut i: usize = 0;
    while i < list.len()
        invariant
            i <= list@.len(),
            copy@.len() == i,
            forall|k: int| 0 <= k < i ==> (#[trigger] copy@[k])@ == list@[k]@,
        decreases list@.len() - i,
    {
        copy.push(list[i].copy());
        i += 1;
    }
    assert(saves_view(copy@) =~= saves_view(list@));
    copy
}

// ---------------------------------------------------------------------------------------------
// Games

/// One game of the library.
pub struct GameConfig {
    pub name: String,
    /// Where the game is installed: where it is started, and where relative save paths start.
    /// Empty where it is not known, or where the disk below is what counts.
    pub game_dir: FsPath,
    pub game_dir_mount: Option<MountPath>,
    pub exe_path: FsPath,
    pub exe_mount: Option<MountPath>,
    /// What identifies the program itself, so that the same game can be told on two machines.
    pub exe_fingerprint: Option<String>,
    /// Further arguments of the program.
    pub launch_args: Vec<String>,
    /// Where the game keeps its saves.
    pub save_paths: Vec<SavePath>,
    /// The wine prefix of this game; it comes before the one of the machine.
    pub wine_prefix: Option<FsPath>,
    /// A running game is noticed whoever started it.
    pub auto_watch: bool,
    /// The game is started without gamescope.
    pub direct_launch: bool,
    /// The process to look for, where it is not the program itself.
    pub process_name: Option<String>,
    pub scale_profile: ScaleProfile,
    /// When the game was added, as it is written in the file.
    pub created_at: String,
    /// The identity of the game in the cloud, and where its versions lie there.
    pub cloud_id: Option<String>,
    pub cloud_dir: Option<String>,
    /// The identities that the user said are another game.
    pub cloud_rejected: Vec<String>,
    /// The saves of this game are synced by themselves.
    pub sync_enabled: bool,
    /// What was decided about this game and a sync target.
    pub cloud_conclusion: Option<String>,
}

/// What is known of a game.
pub struct Game {
    pub name: Seq<char>,
    pub game_dir: Seq<u8>,
    pub game_dir_mount: Option<Reference>,
    pub exe_path: Seq<u8>,
    pub exe_mount: Option<Reference>,
    pub exe_fingerprint: Option<Seq<char>>,
    pub launch_args: Seq<Seq<char>>,
    pub save_paths: Seq<SaveLocation>,
    pub wine_prefix: Option<Seq<u8>>,
    pub auto_watch: bool,
    pub direct_launch: bool,
    pub process_name: Option<Seq<char>>,
    pub scale_profile: Profile,
    pub created_at: Seq<char>,
    pub cloud_id: Option<Seq<char>>,
    pub cloud_dir: Option<Seq<char>>,
    pub cloud_rejected: Seq<Seq<char>>,
    pub sync_enabled: bool,
    pub cloud_conclusion: Option<Seq<char>>,
}

pub open spec fn path_view(path: Option<FsPath>) -> Option<Seq<u8>> {
    match path {
        Some(path) => Some(path@),
        None => None,
    }
}

impl View for GameConfig {
    type V = Game;

    open spec fn view(&self) -> Game {
        Game {
            name: self.name@,
            game_dir: self.game_dir@,
            game_dir_mount: table::reference_view(self.game_dir_mount),
            exe_path: self.exe_path@,
            exe_mount: table::reference_view(self.exe_mount),
            exe_fingerprint: chars::text_view(self.exe_fingerprint),
            launch_args: chars::texts(self.launch_args@),
            save_paths: saves_view(self.save_paths@),
            wine_prefix: path_view(self.wine_prefix),
            auto_watch: self.auto_watch,
            direct_launch: self.direct_launch,
            process_name: chars::text_view(self.process_name),
            scale_profile: self.scale_profile@,
            created_at: self.created_at@,
            cloud_id: chars::text_view(self.cloud_id),
            cloud_dir: chars::text_view(self.cloud_dir),
            cloud_rejected: chars::texts(self.cloud_rejected@),
            sync_enabled: self.sync_enabled,
            cloud_conclusion: chars::text_view(self.cloud_conclusion),
        }
    }
}

pub fn copy_text(text: &Option<String>) -> (copy: Option<String>)
    ensures
        chars::text_view(copy) == chars::text_view(*text),
{
    match text {
        Some(text) => Some(text.clone()),
        None => None,
    }
}

pub fn copy_path(path: &Option<FsPath>) -> (copy: Option<FsPath>)
    ensures
        path_view(copy) == path_view(*path),
{
    match path {
        Some(path) => Some(path.copy()),
        None => None,
    }
}

/// The game with its directory filled in from the program, where it had none.
pub open spec fn with_directory(game: Game) -> Game {
    match path::parent_of(game.exe_path) {
        Some(parent) => if game.game_dir.len() == 0 {
            Game { game_dir: parent, ..game }
        } else {
            game
        },
        None => game,
    }
}

/// Where a game is started: its directory, else that of the program, else here.
pub open spec fn started_in(game: Game) -> Seq<u8> {
    if game.game_dir.len() > 0 {
        game.game_dir
    } else {
        match path::parent_of(game.exe_path) {
            Some(parent) => parent,
            None => encode_utf8("."@),
        }
    }
}

/// The process to look for: the one that is named, else the program.
pub open spec fn watched_name(game: Game) -> Option<Seq<char>> {
    let named = match game.process_name {
        Some(name) => search::trim(name),
        None => Seq::empty(),
    };
    if named.len() > 0 {
        Some(named)
    } else {
        match path::file_name_of(game.exe_path) {
            Some(name) => {
                let shown = search::trim(path::lossy_text(name));
                if shown.len() > 0 {
                    Some(shown)
                } else {
                    None
                }
            },
            None => None,
        }
    }
}

impl GameConfig {
    pub fn copy(&self) -> (copy: GameConfig)
        ensures
            copy@ == self@,
    {
        GameConfig {
            name: self.name.clone(),
            game_dir: self.game_dir.copy(),
            game_dir_mount: copy_reference(&self.game_dir_mount),
            exe_path: self.exe_path.copy(),
            exe_mount: copy_reference(&self.exe_mount),
            exe_fingerprint: copy_text(&self.exe_fingerprint),
            launch_args: copy_texts(&self.launch_args),
            save_paths: copy_saves(&self.save_paths),
            wine_prefix: copy_path(&self.wine_prefix),
            auto_watch: self.auto_watch,
            direct_launch: self.direct_launch,
            process_name: copy_text(&self.process_name),
            scale_profile: self.scale_profile.copy(),
            created_at: self.created_at.clone(),
            cloud_id: copy_text(&self.cloud_id),
            cloud_dir: copy_text(&self.cloud_dir),
            cloud_rejected: copy_texts(&self.cloud_rejected),
            sync_enabled: self.sync_enabled,
            cloud_conclusion: copy_text(&self.cloud_conclusion),
        }
    }

    /// Fills in the directory of the game where it is missing.
    pub fn normalize(&mut self)
        ensures
            final(self)@ == with_directory(old(self)@),
    {
        if self.game_dir.is_empty() {
            match self.exe_path.parent() {
                Some(parent) => {
                    self.game_dir = parent;
                },
                None => {},
            }
        }
    }

    /// Where the game is started.
    pub fn effective_game_dir(&self) -> (out: FsPath)
        ensures
            out@ == started_in(self@),
    {
        if self.game_dir.is_empty() {
            match self.exe_path.parent() {
                Some(parent) => parent,
                None => FsPath::from_text("."),
            }
        } else {
            self.game_dir.copy()
        }
    }

    /// The process to look for.
    pub fn watch_name(&self) -> (name: Option<String>)
        ensures
            chars::text_view(name) == watched_name(self@),
    {
        match &self.process_name {
            Some(name) => {
                let short = trimmed(name.as_str());
                if !short.as_str().is_empty() {
                    return Some(short);
                }
            },
            None => {},
        }
        match self.exe_path.file_name() {
            Some(name) => {
                let shown = FsPath { raw: name }.text();
                let short = trimmed(shown.as_str());
                if !short.as_str().is_empty() {
                    Some(short)
                } else {
                    None
                }
            },
            None => None,
        }
    }
}

// ---------------------------------------------------------------------------------------------
// Settings

/// What sends the saves to the cloud. One for all games.
#[derive(Clone, Copy, Debug, PartialEq, Eq, Structural)]
pub enum SyncEngine {
    /// rclone, with a zip archive per version.
    Rclone,
    /// A kopia repository.
    Kopia,
}

impl Default for SyncEngine {
    fn default() -> (engine: SyncEngine)
        ensures
            engine == SyncEngine::Rclone,
    {
        SyncEngine::Rclone
    }
}

pub open spec fn engine_label(engine: SyncEngine) -> Seq<char> {
    match engine {
        SyncEngine::Rclone => "rclone(zip)"@,
        SyncEngine::Kopia => "kopia"@,
    }
}

impl SyncEngine {
    /// The name for a user.
    pub fn label(self) -> (label: &'static str)
        ensures
            label@ == engine_label(self),
    {
        match self {
            SyncEngine::Rclone => "rclone(zip)",
            SyncEngine::Kopia => "kopia",
        }
    }
}

/// The settings of the cloud sync. Nothing secret is kept here.
pub struct SyncConfig {
    pub enabled: bool,
    pub engine: SyncEngine,
    /// The address of the storage, where it is not to be found out.
    pub endpoint: String,
    pub bucket: String,
    /// The folder inside the bucket.
    pub prefix: String,
    /// How many versions of a game are kept; 0 keeps all.
    pub keep_versions: u32,
    /// Where the programs are, where they are not to be found out.
    pub rclone_binary: String,
    pub kopia_binary: String,
}

/// What the settings of the cloud sync say.
pub struct SyncSettings {
    pub enabled: bool,
    pub engine: SyncEngine,
    pub endpoint: Seq<char>,
    pub bucket: Seq<char>,
    pub prefix: Seq<char>,
    pub keep_versions: u32,
    pub rclone_binary: Seq<char>,
    pub kopia_binary: Seq<char>,
}

impl View for SyncConfig {
    type V = SyncSettings;

    open spec fn view(&self) -> SyncSettings {
        SyncSettings {
            enabled: self.enabled,
            engine: self.engine,
            endpoint: self.endpoint@,
            bucket: self.bucket@,
            prefix: self.prefix@,
            keep_versions: self.keep_versions,
            rclone_binary: self.rclone_binary@,
            kopia_binary: self.kopia_binary@,
        }
    }
}

/// The settings that nobody has changed: off, with a folder of its own, and every version kept.
pub open spec fn default_sync() -> SyncSettings {
    SyncSettings {
        enabled: false,
        engine: SyncEngine::Rclone,
        endpoint: Seq::empty(),
        bucket: Seq::empty(),
        prefix: "kotori"@,
        keep_versions: 0,
        rclone_binary: Seq::empty(),
        kopia_binary: Seq::empty(),
    }
}

impl Default for SyncConfig {
    fn default() -> (config: SyncConfig)
        ensures
            config@ == default_sync(),
    {
        SyncConfig {
            enabled: false,
            engine: SyncEngine::Rclone,
            endpoint: String::new(),
            bucket: String::new(),
            prefix: "kotori".to_owned(),
            keep_versions: 0,
            rclone_binary: String::new(),
            kopia_binary: String::new(),
        }
    }
}

impl SyncConfig {
    pub fn copy(&self) -> (copy: SyncConfig)
        ensures
            copy@ == self@,
    {
        SyncConfig {
            enabled: self.enabled,
            engine: self.engine,
            endpoint: self.endpoint.clone(),
            bucket: self.bucket.clone(),
            prefix: self.prefix.clone(),
            keep_versions: self.keep_versions,
            rclone_binary: self.rclone_binary.clone(),
            kopia_binary: self.kopia_binary.clone(),
        }
    }
}

/// What concerns the daemon itself.
pub struct DaemonConfig {
    pub socket_path: FsPath,
    pub log_level: String,
    /// The games of an older configuration were switched to being watched, once.
    pub auto_watch_migrated: bool,
    /// The identity of this machine.
    pub machine_id: Option<String>,
}

pub struct DaemonSettings {
    pub socket_path: Seq<u8>,
    pub log_level: Seq<char>,
    pub auto_watch_migrated: bool,
    pub machine_id: Option<Seq<char>>,
}

impl View for DaemonConfig {
    type V = DaemonSettings;

    open spec fn view(&self) -> DaemonSettings {
        DaemonSettings {
            socket_path: self.socket_path@,
            log_level: self.log_level@,
            auto_watch_migrated: self.auto_watch_migrated,
            machine_id: chars::text_view(self.machine_id),
        }
    }
}

impl DaemonConfig {
    /// The settings that nobody has changed, on a machine whose sockets lie in `runtime_dir`.
    pub fn default_at(runtime_dir: &Option<FsPath>) -> (config: DaemonConfig)
        ensures
            config@ == (DaemonSettings {
                socket_path: default_socket(path_view(*runtime_dir)),
                log_level: "info"@,
                auto_watch_migrated: false,
                machine_id: None,
            }),
    {
        DaemonConfig {
            socket_path: default_socket_path(runtime_dir),
            log_level: "info".to_owned(),
            auto_watch_migrated: false,
            machine_id: None,
        }
    }

    pub fn copy(&self) -> (copy: DaemonConfig)
        ensures
            copy@ == self@,
    {
        DaemonConfig {
            socket_path: self.socket_path.copy(),
            log_level: self.log_level.clone(),
            auto_watch_migrated: self.auto_watch_migrated,
            machine_id: copy_text(&self.machine_id),
        }
    }
}

/// The socket of the daemon: in the directory for sockets, and in `/tmp` where there is none.
pub open spec fn default_socket(runtime_dir: Option<Seq<u8>>) -> Seq<u8> {
    match runtime_dir {
        Some(dir) => path::join_path(dir, encode_utf8("kotori.sock"@)),
        None => path::join_path(encode_utf8("/tmp"@), encode_utf8("kotori.sock"@)),
    }
}

pub fn default_socket_path(runtime_dir: &Option<FsPath>) -> (out: FsPath)
    ensures
        out@ == default_socket(path_view(*runtime_dir)),
{
    let name = FsPath::from_text("kotori.sock");
    match runtime_dir {
        Some(dir) => dir.join(&name),
        None => FsPath::from_text("/tmp").join(&name),
    }
}

/// What concerns wine on this machine.
pub struct WineConfig {
    /// The prefix of the games that name none; `None` means it is to be found out.
    pub prefix: Option<FsPath>,
}

impl Default for WineConfig {
    fn default() -> (config: WineConfig)
        ensures
            config.prefix is None,
    {
        WineConfig { prefix: None }
    }
}

// ---------------------------------------------------------------------------------------------
// The whole

/// Everything that is configured.
pub struct Config {
    pub daemon: DaemonConfig,
    pub wine: WineConfig,
    pub sync: SyncConfig,
    /// The games, each under its id.
    pub games: Vec<(String, GameConfig)>,
}

/// What is configured.
pub struct Settings {
    pub daemon: DaemonSettings,
    pub wine_prefix: Option<Seq<u8>>,
    pub sync: SyncSettings,
    pub games: Seq<(Seq<char>, Game)>,
}

pub open spec fn games_view(games: Seq<(String, GameConfig)>) -> Seq<(Seq<char>, Game)> {
    games.map_values(|entry: (String, GameConfig)| (entry.0@, entry.1@))
}

impl View for Config {
    type V = Settings;

    open spec fn view(&self) -> Settings {
        Settings {
            daemon: self.daemon@,
            wine_prefix: path_view(self.wine.prefix),
            sync: self.sync@,
            games: games_view(self.games@),
        }
    }
}

/// No two games have the same id.
pub open spec fn ids_are_distinct(games: Seq<(Seq<char>, Game)>) -> bool {
    forall|i: int, j: int| 0 <= i < j < games.len() ==> (#[trigger] games[i]).0 != (
    #[trigger] games[j]).0
}

impl Config {
    /// Every id is the id of one game.
    pub open spec fn wf(&self) -> bool {
        ids_are_distinct(self@.games)
    }
}

/// The first position from `from` on at which a game has the id.
pub open spec fn position(games: Seq<(Seq<char>, Game)>, id: Seq<char>, from: int) -> Option<int>
    decreases games.len() - from,
{
    if from < 0 || from >= games.len() {
        None
    } else if games[from].0 == id {
        Some(from)
    } else {
        position(games, id, from + 1)
    }
}

/// A game has the id.
pub open spec fn has_game(games: Seq<(Seq<char>, Game)>, id: Seq<char>) -> bool {
    position(games, id, 0) is Some
}

/// The game under an id.
pub open spec fn game_at(games: Seq<(Seq<char>, Game)>, id: Seq<char>) -> Game {
    games[position(games, id, 0).unwrap()].1
}

/// The games with another one under an id that one of them has.
pub open spec fn with_game(games: Seq<(Seq<char>, Game)>, id: Seq<char>, game: Game) -> Seq<
    (Seq<char>, Game),
> {
    games.update(position(games, id, 0).unwrap(), (id, game))
}

/// The position of an id is the first one, from where the search starts, that has it.
pub proof fn position_is_first(games: Seq<(Seq<char>, Game)>, id: Seq<char>, from: int)
    requires
        0 <= from,
    ensures
        match position(games, id, from) {
            Some(i) => from <= i < games.len() && games[i].0 == id && forall|k: int|
                from <= k < i ==> (#[trigger] games[k]).0 != id,
            None => forall|k: int| from <= k < games.len() ==> (#[trigger] games[k]).0 != id,
        },
    decreases games.len() - from,
{
    if from < games.len() && games[from].0 != id {
        position_is_first(games, id, from + 1);
    }
}

/// Every game is watched.
pub open spec fn all_watched(games: Seq<(Seq<char>, Game)>) -> Seq<(Seq<char>, Game)> {
    games.map_values(
        |entry: (Seq<char>, Game)| (entry.0, Game { auto_watch: true, ..entry.1 }),
    )
}

pub open spec fn all_with_directory(games: Seq<(Seq<char>, Game)>) -> Seq<(Seq<char>, Game)> {
    games.map_values(|entry: (Seq<char>, Game)| (entry.0, with_directory(entry.1)))
}

/// The settings with what older ones leave out. Games of a configuration that was never brought
/// up to date are switched to being watched; that happens once, so that switching it off later
/// stays.
pub open spec fn brought_up_to_date(settings: Settings) -> Settings {
    let games = all_with_directory(settings.games);
    if settings.daemon.auto_watch_migrated {
        Settings { games, ..settings }
    } else {
        Settings {
            games: all_watched(games),
            daemon: DaemonSettings { auto_watch_migrated: true, ..settings.daemon },
            ..settings
        }
    }
}

impl Config {
    /// The configuration of a machine that has none.
    pub fn default_at(runtime_dir: &Option<FsPath>) -> (config: Config)
        ensures
            config@ == (Settings {
                daemon: DaemonSettings {
                    socket_path: default_socket(path_view(*runtime_dir)),
                    log_level: "info"@,
                    auto_watch_migrated: false,
                    machine_id: None,
                },
                wine_prefix: None,
                sync: default_sync(),
                games: Seq::empty(),
            }),
            config.wf(),
    {
        let config = Config {
            daemon: DaemonConfig::default_at(runtime_dir),
            wine: WineConfig { prefix: None },
            sync: SyncConfig::default(),
            games: Vec::new(),
        };
        assert(config@.games =~= Seq::<(Seq<char>, Game)>::empty());
        config
    }

    pub fn copy(&self) -> (copy: Config)
        ensures
            copy@ == self@,
            self.wf() ==> copy.wf(),
    {
        let mut games: Vec<(String, GameConfig)> = Vec::new();
        let mut i: usize = 0;
        while i < self.games.len()
            invariant
                i <= self.games@.len(),
                games@.len() == i,
                forall|k: int|
                    0 <= k < i ==> (#[trigger] games@[k]).0@ == self.games@[k].0@ && games@[k].1@
                        == self.games@[k].1@,
            decreases self.games@.len() - i,
        {
            let entry = &self.games[i];
            games.push((entry.0.clone(), entry.1.copy()));
            i += 1;
        }
        assert(games_view(games@) =~= games_view(self.games@));
        Config {
            daemon: self.daemon.copy(),
            wine: WineConfig { prefix: copy_path(&self.wine.prefix) },
            sync: self.sync.copy(),
            games,
        }
    }

    /// The position of a game.
    pub fn find(&self, id: &str) -> (at: Option<usize>)
        ensures
            match at {
                Some(i) => position(self@.games, id@, 0) == Some(i as int) && i
                    < self.games@.len() && self.games@[i as int].0@ == id@,
                None => position(self@.games, id@, 0) is None,
            },
    {
        let mut i: usize = 0;
        while i < self.games.len()
            invariant
                i <= self.games@.len(),
                position(self@.games, id@, 0) == position(self@.games, id@, i as int),
            decreases self.games@.len() - i,
        {
            assert(self@.games[i as int] == (self.games@[i as int].0@, self.games@[i as int].1@));
            if same_text(self.games[i].0.as_str(), id) {
                return Some(i);
            }
            i += 1;
        }
        None
    }

    /// The game under an id.
    pub fn game(&self, id: &str) -> (game: Option<&GameConfig>)
        ensures
            match game {
                Some(game) => has_game(self@.games, id@) && game@ == game_at(self@.games, id@),
                None => !has_game(self@.games, id@),
            },
    {
        match self.find(id) {
            Some(i) => {
                assert(self@.games[i as int] == (
                    self.games@[i as int].0@,
                    self.games@[i as int].1@,
                ));
                Some(&self.games[i].1)
            },
            None => None,
        }
    }

    /// Puts another game in the place of one; its id stays.
    pub fn put_game(&mut self, at: usize, game: GameConfig)
        requires
            at < old(self).games@.len(),
        ensures
            final(self)@ == (Settings {
                games: old(self)@.games.update(at as int, (old(self)@.games[at as int].0, game@)),
                ..old(self)@
            }),
            old(self).wf() ==> final(self).wf(),
    {
        let ghost before = self@;
        self.games[at].1 = game;
        assert(self@.games =~= before.games.update(at as int, (before.games[at as int].0, game@)));
    }

    /// Adds a game behind the others.
    pub fn push_game(&mut self, id: String, game: GameConfig)
        ensures
            final(self)@ == (Settings {
                games: old(self)@.games.push((id@, game@)),
                ..old(self)@
            }),
            old(self).wf() && !has_game(old(self)@.games, id@) ==> final(self).wf(),
    {
        let ghost before = self@;
        self.games.push((id, game));
        assert(self@.games =~= before.games.push((id@, game@)));
        proof {
            position_is_first(before.games, id@, 0);
        }
    }

    /// Fills in what older configurations leave out.
    pub fn normalize(&mut self)
        ensures
            final(self)@ == brought_up_to_date(old(self)@),
            old(self).wf() ==> final(self).wf(),
    {
        let ghost start = self@;
        let watch = !self.daemon.auto_watch_migrated;
        let ghost wanted = brought_up_to_date(start).games;
        let mut i: usize = 0;
        while i < self.games.len()
            invariant
                i <= self.games@.len() == start.games.len() == wanted.len(),
                watch == !start.daemon.auto_watch_migrated,
                wanted == brought_up_to_date(start).games,
                self@.daemon == start.daemon,
                self@.wine_prefix == start.wine_prefix,
                self@.sync == start.sync,
                forall|k: int| 0 <= k < i ==> #[trigger] self@.games[k] == wanted[k],
                forall|k: int|
                    i <= k < start.games.len() ==> #[trigger] self@.games[k] == start.games[k],
            decreases start.games.len() - i,
        {
            let ghost before = self@.games;
            let game = &mut self.games[i].1;
            game.normalize();
            if watch {
                game.auto_watch = true;
            }
            assert(before[i as int] == start.games[i as int]);
            assert(self@.games[i as int] == wanted[i as int]);
            assert(forall|k: int|
                0 <= k < before.len() && k != i ==> #[trigger] self@.games[k] == before[k]);
            i += 1;
        }
        assert(self@.games =~= wanted);
        if watch {
            self.daemon.auto_watch_migrated = true;
        }
        assert(self@.games =~= wanted);
        proof {
            assert forall|k: int| 0 <= k < wanted.len() implies (#[trigger] wanted[k]).0
                == start.games[k].0 by {}
            if ids_are_distinct(start.games) {
                assert forall|a: int, b: int| 0 <= a < b < wanted.len() implies (
                #[trigger] wanted[a]).0 != (#[trigger] wanted[b]).0 by {
                    assert(start.games[a].0 != start.games[b].0);
                }
            }
        }
    }
}

// ---------------------------------------------------------------------------------------------
// What holds of the configuration

/// A configuration that is brought up to date twice is as after the first time.
pub proof fn bringing_up_to_date_is_done_once(settings: Settings)
    ensures
        brought_up_to_date(brought_up_to_date(settings)) == brought_up_to_date(settings),
{
    let once = brought_up_to_date(settings);
    let twice = brought_up_to_date(once);
    assert(once.daemon.auto_watch_migrated);
    assert forall|i: int| 0 <= i < once.games.len() implies #[trigger] twice.games[i]
        == once.games[i] by {
        assert(with_directory(once.games[i].1) == once.games[i].1);
    }
    assert(twice.games =~= once.games);
}

/// The switch to being watched happens once: a game that is switched off afterwards stays off,
/// however often the configuration is brought up to date.
pub proof fn watching_switched_off_stays_off(settings: Settings, i: int)
    requires
        settings.daemon.auto_watch_migrated,
        0 <= i < settings.games.len(),
    ensures
        brought_up_to_date(settings).games[i].1.auto_watch == settings.games[i].1.auto_watch,
{
}

/// Every game of a configuration that was never brought up to date ends up being watched.
pub proof fn older_games_end_up_watched(settings: Settings, i: int)
    requires
        !settings.daemon.auto_watch_migrated,
        0 <= i < settings.games.len(),
    ensures
        brought_up_to_date(settings).games[i].1.auto_watch,
        brought_up_to_date(settings).daemon.auto_watch_migrated,
{
}

/// Where ids are distinct, a game is found under its own id.
pub proof fn a_game_is_found_under_its_id(games: Seq<(Seq<char>, Game)>, i: int)
    requires
        ids_are_distinct(games),
        0 <= i < games.len(),
    ensures
        position(games, games[i].0, 0) == Some(i),
{
    position_is_first(games, games[i].0, 0);
    let k = position(games, games[i].0, 0).unwrap();
    if k < i {
        assert(games[k].0 != games[i].0);
    }
}

/// The game under an id is the one that was put there; the others stay as they are, where they
/// are.
pub proof fn a_game_is_put_in_its_place(
    games: Seq<(Seq<char>, Game)>,
    id: Seq<char>,
    game: Game,
    k: int,
)
    requires
        ids_are_distinct(games),
        has_game(games, id),
        0 <= k < games.len(),
    ensures
        has_game(with_game(games, id, game), id),
        game_at(with_game(games, id, game), id) == game,
        with_game(games, id, game).len() == games.len(),
        ids_are_distinct(with_game(games, id, game)),
        with_game(games, id, game)[k].0 == games[k].0,
        games[k].0 != id ==> with_game(games, id, game)[k] == games[k],
        games[k].0 == id ==> with_game(games, id, game)[k].1 == game && game_at(games, id)
            == games[k].1,
{
    let after = with_game(games, id, game);
    position_is_first(games, id, 0);
    position_is_first(after, id, 0);
    let at = position(games, id, 0).unwrap();
    assert(after[at] == (id, game));
    assert forall|i: int, j: int| 0 <= i < j < after.len() implies (#[trigger] after[i]).0 != (
    #[trigger] after[j]).0 by {
        assert(after[i].0 == games[i].0 && after[j].0 == games[j].0);
        assert(games[i].0 != games[j].0);
    }
    a_game_is_found_under_its_id(after, at);
    a_game_is_found_under_its_id(games, k);
}

/// How a bare path is read, by how it starts once white space is left aside: a percent sign or a
/// drive letter makes it one of Windows, a slash or a tilde one of this machine, and everything
/// else starts at the directory of the game.
pub proof fn a_path_is_read_by_how_it_starts(path: Seq<char>)
    ensures
        ({
            let s = search::trim(path);
            &&& s.len() == 0 ==> kind_of(path) == SavePathKind::Relative
            &&& s.len() > 0 && s[0] == '%' ==> kind_of(path) == SavePathKind::Windows
            &&& s.len() > 1 && ('a' <= s[0] <= 'z' || 'A' <= s[0] <= 'Z') && s[1] == ':' ==> kind_of(
                path,
            ) == SavePathKind::Windows
            &&& s.len() > 0 && (s[0] == '/' || s[0] == '~') ==> kind_of(path)
                == SavePathKind::Absolute
            &&& s.len() > 0 && s[0] != '%' && s[0] != '/' && s[0] != '~' && (s.len() == 1 || s[1]
                != ':') ==> kind_of(path) == SavePathKind::Relative
            &&& s.len() > 0 && s[0] != '%' && s[0] != '/' && s[0] != '~' && !('a' <= s[0] <= 'z')
                && !('A' <= s[0] <= 'Z') ==> kind_of(path) == SavePathKind::Relative
        }),
{
}

/// A kind is written under a name of its own.
pub proof fn kinds_have_names_of_their_own()
    ensures
        kind_name(SavePathKind::Windows) == "windows"@,
        kind_name(SavePathKind::Relative) == "relative"@,
        kind_name(SavePathKind::Absolute) == "absolute"@,
{
}

/// A game without a directory gets the one that its program lies in; nothing else of it changes,
/// and a directory that is there stays.
pub proof fn a_missing_directory_comes_from_the_program(game: Game)
    ensures
        game.game_dir.len() > 0 ==> with_directory(game) == game,
        game.game_dir.len() == 0 && path::parent_of(game.exe_path) is Some ==> with_directory(
            game,
        ).game_dir == path::parent_of(game.exe_path).unwrap(),
        with_directory(game) == (Game { game_dir: with_directory(game).game_dir, ..game }),
        game.game_dir.len() > 0 ==> started_in(game) == game.game_dir,
        game.game_dir.len() == 0 && path::parent_of(game.exe_path) is Some ==> started_in(game)
            == path::parent_of(game.exe_path).unwrap(),
        game.game_dir.len() == 0 && path::parent_of(game.exe_path) is None ==> started_in(game)
            == encode_utf8("."@),
{
}

/// The process that is looked for is the one that is named, without white space around it; where
/// none is named it is the program itself.
pub proof fn a_named_process_is_looked_for(game: Game)
    ensures
        game.process_name is Some && search::trim(game.process_name.unwrap()).len() > 0
            ==> watched_name(game) == Some(search::trim(game.process_name.unwrap())),
        (game.process_name is None || search::trim(game.process_name.unwrap()).len() == 0) && (
        path::file_name_of(game.exe_path) is Some && search::trim(
            path::lossy_text(path::file_name_of(game.exe_path).unwrap()),
        ).len() > 0) ==> watched_name(game) == Some(
            search::trim(path::lossy_text(path::file_name_of(game.exe_path).unwrap())),
        ),
        (game.process_name is None || search::trim(game.process_name.unwrap()).len() == 0)
            && path::file_name_of(game.exe_path) is None ==> watched_name(game) is None,
        watched_name(game) is Some ==> watched_name(game).unwrap().len() > 0,
{
}

/// The socket lies in the directory for sockets, and in `/tmp` where there is none.
pub proof fn the_socket_has_its_name(runtime_dir: Seq<u8>)
    ensures
        default_socket(Some(runtime_dir)) == path::join_path(
            runtime_dir,
            encode_utf8("kotori.sock"@),
        ),
        default_socket(None) == path::join_path(
            encode_utf8("/tmp"@),
            encode_utf8("kotori.sock"@),
        ),
{
}

/// The sync of a new configuration is off, keeps every version, and has a folder of its own.
pub proof fn sync_starts_switched_off()
    ensures
        !default_sync().enabled,
        default_sync().engine == SyncEngine::Rclone,
        default_sync().keep_versions == 0,
        default_sync().prefix == "kotori"@,
        default_sync().bucket.len() == 0 && default_sync().endpoint.len() == 0,
        default_sync().rclone_binary.len() == 0 && default_sync().kopia_binary.len() == 0,
{
}

/// Bringing a configuration up to date touches nothing of a game but whether it is watched and a
/// directory that was missing, and nothing else of the settings but the note that it was done.
pub proof fn bringing_up_to_date_keeps_the_rest(settings: Settings, i: int)
    requires
        0 <= i < settings.games.len(),
    ensures
        ({
            let after = brought_up_to_date(settings);
            let (was, is) = (settings.games[i], after.games[i]);
            &&& after.games.len() == settings.games.len()
            &&& is.0 == was.0
            &&& is.1 == (Game { auto_watch: is.1.auto_watch, game_dir: is.1.game_dir, ..was.1 })
            &&& was.1.game_dir.len() > 0 ==> is.1.game_dir == was.1.game_dir
            &&& was.1.game_dir.len() == 0 && path::parent_of(was.1.exe_path) is Some
                ==> is.1.game_dir == path::parent_of(was.1.exe_path).unwrap()
            &&& after.sync == settings.sync && after.wine_prefix == settings.wine_prefix
            &&& after.daemon == (DaemonSettings { auto_watch_migrated: true, ..settings.daemon })
        }),
{
    assert(brought_up_to_date(settings).daemon =~= DaemonSettings {
        auto_watch_migrated: true,
        ..settings.daemon
    });
}

/// One line about a save location has its path, its kind and what is left out.
pub proof fn a_save_location_is_described(save: SaveLocation)
    ensures
        save.exclude.len() == 0 ==> description(save) == save.path + "（"@ + kind_words(save.kind)
            + "）"@,
        save.exclude.len() > 0 ==> description(save) == save.path + "（"@ + kind_words(save.kind)
            + "，排除 "@ + split::join(save.exclude, ", "@) + "）"@,
        kind_words(SavePathKind::Windows) == "windows 路径"@,
        kind_words(SavePathKind::Relative) == "相对游戏目录"@,
        kind_words(SavePathKind::Absolute) == "绝对路径（仅本机）"@,
{
}

} // verus!
