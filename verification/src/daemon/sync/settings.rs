//! The settings of the sync: cleaning what a client sends, and storing it.

use crate::config::model::{Config, Settings, SyncConfig, SyncEngine, SyncSettings};
use crate::daemon::game_json;
use crate::daemon::game_json::sync_value;
use crate::json;
use crate::json::{no_members, with, Json, JsonValue};
use crate::text::chars;
use crate::text::chars::{chars_of, is_whitespace, text_of_range};
use crate::text::glue::{glue3, glue5};
use crate::text::number;
use crate::text::number::number_text;
use crate::text::search;
use crate::text::search::{has_char, has_text, trimmed};
use vstd::prelude::*;

verus! {

/// The most versions that can be kept; 0 keeps all of them.
pub const MAX_KEEP_VERSIONS: u32 = 100;

/// What a client wants changed.
pub struct SettingsPatch {
    pub enabled: Option<bool>,
    pub engine: Option<SyncEngine>,
    pub endpoint: Option<String>,
    pub bucket: Option<String>,
    pub prefix: Option<String>,
    pub keep_versions: Option<u32>,
    /// Where the programs are; empty means that they are to be found out.
    pub rclone_binary: Option<String>,
    pub kopia_binary: Option<String>,
}

// ---------------------------------------------------------------------------------------------
// Cleaning

pub open spec fn has_space(s: Seq<char>) -> bool {
    exists|i: int| 0 <= i < s.len() && chars::is_space(#[trigger] s[i])
}

/// The name of a bucket: it cannot be a path, nor hold white space.
pub open spec fn cleaned_bucket(value: Seq<char>) -> Result<Seq<char>, Seq<char>> {
    let short = search::trim(value);
    if short.contains('/') || has_space(short) {
        Err("bucket 名里不能有斜杠或空格（当前 "@ + short + "）"@)
    } else {
        Ok(short)
    }
}

pub open spec fn without_slashes_before(s: Seq<char>) -> Seq<char>
    decreases s.len(),
{
    if s.len() > 0 && s[0] == '/' {
        without_slashes_before(s.skip(1))
    } else {
        s
    }
}

pub open spec fn without_slashes_behind(s: Seq<char>) -> Seq<char>
    decreases s.len(),
{
    if s.len() > 0 && s.last() == '/' {
        without_slashes_behind(s.drop_last())
    } else {
        s
    }
}

/// A text without the slashes at its two ends.
pub open spec fn without_slashes(s: Seq<char>) -> Seq<char> {
    without_slashes_behind(without_slashes_before(s))
}

/// The folder inside the bucket: it has to be one, and it cannot lead anywhere else.
pub open spec fn cleaned_prefix(value: Seq<char>) -> Result<Seq<char>, Seq<char>> {
    let short = without_slashes(search::trim(value));
    if short.len() == 0 {
        Err("prefix 不能为空（它是 kotori 在 bucket 里独占的目录）"@)
    } else if search::contains(short, ".."@) {
        Err("prefix 里不能有 .."@)
    } else if short.contains('\\') || short.contains(':') {
        Err("prefix 用 / 分隔，不要用 \\ 或 :"@)
    } else {
        Ok(short)
    }
}

pub open spec fn text_outcome(out: Result<String, String>) -> Result<Seq<char>, Seq<char>> {
    match out {
        Ok(text) => Ok(text@),
        Err(message) => Err(message@),
    }
}

fn holds_space(text: &str) -> (yes: bool)
    ensures
        yes == has_space(text@),
{
    let list = chars_of(text);
    let mut i: usize = 0;
    while i < list.len()
        invariant
            i <= list@.len(),
            list@ == text@,
            forall|k: int| 0 <= k < i ==> !chars::is_space(#[trigger] text@[k]),
        decreases list@.len() - i,
    {
        if is_whitespace(list[i]) {
            assert(chars::is_space(text@[i as int]));
            return true;
        }
        i += 1;
    }
    false
}

pub fn clean_bucket(value: &str) -> (out: Result<String, String>)
    ensures
        text_outcome(out) == cleaned_bucket(value@),
{
    let short = trimmed(value);
    if has_char(short.as_str(), '/') || holds_space(short.as_str()) {
        return Err(glue3("bucket 名里不能有斜杠或空格（当前 ", short.as_str(), "）"));
    }
    Ok(short)
}

fn strip_slashes(text: &str) -> (out: String)
    ensures
        out@ == without_slashes(text@),
{
    let chars = chars_of(text);
    let mut from: usize = 0;
    assert(text@.skip(0) =~= text@);
    while from < chars.len() && chars[from] == '/'
        invariant
            from <= chars@.len(),
            chars@ == text@,
            without_slashes_before(text@) == without_slashes_before(text@.skip(from as int)),
        decreases chars@.len() - from,
    {
        assert(text@.skip(from as int).skip(1) =~= text@.skip(from + 1));
        from += 1;
    }
    let ghost rest = text@.skip(from as int);
    let mut to: usize = chars.len();
    assert(rest.take(to - from) =~= rest);
    while from < to && chars[to - 1] == '/'
        invariant
            from <= to <= chars@.len(),
            chars@ == text@,
            rest == text@.skip(from as int),
            without_slashes_behind(rest) == without_slashes_behind(rest.take(to - from)),
        decreases to - from,
    {
        assert(rest.take(to - from).drop_last() =~= rest.take(to - from - 1));
        assert(rest.take(to - from).last() == text@[to - 1]);
        to -= 1;
    }
    assert(rest.take(to - from) =~= text@.subrange(from as int, to as int));
    text_of_range(chars.as_slice(), from, to)
}

pub fn clean_prefix(value: &str) -> (out: Result<String, String>)
    ensures
        text_outcome(out) == cleaned_prefix(value@),
{
    let short = strip_slashes(trimmed(value).as_str());
    if short.as_str().is_empty() {
        return Err("prefix 不能为空（它是 kotori 在 bucket 里独占的目录）".to_owned());
    }
    if has_text(short.as_str(), "..") {
        return Err("prefix 里不能有 ..".to_owned());
    }
    if has_char(short.as_str(), '\\') || has_char(short.as_str(), ':') {
        return Err("prefix 用 / 分隔，不要用 \\ 或 :".to_owned());
    }
    Ok(short)
}

// ---------------------------------------------------------------------------------------------
// Changing the settings

pub open spec fn patched_endpoint(
    settings: SyncSettings,
    patch: SettingsPatch,
    endpoint_problem: Option<String>,
) -> Result<Seq<char>, Seq<char>> {
    match patch.endpoint {
        None => Ok(settings.endpoint),
        Some(value) => match chars::text_view(endpoint_problem) {
            Some(message) => Err(message),
            None => Ok(search::trim(value@)),
        },
    }
}

pub open spec fn patched_bucket(settings: SyncSettings, patch: SettingsPatch) -> Result<
    Seq<char>,
    Seq<char>,
> {
    match patch.bucket {
        None => Ok(settings.bucket),
        Some(value) => cleaned_bucket(value@),
    }
}

pub open spec fn patched_prefix(settings: SyncSettings, patch: SettingsPatch) -> Result<
    Seq<char>,
    Seq<char>,
> {
    match patch.prefix {
        None => Ok(settings.prefix),
        Some(value) => cleaned_prefix(value@),
    }
}

pub open spec fn patched_keep(settings: SyncSettings, patch: SettingsPatch) -> Result<
    u32,
    Seq<char>,
> {
    match patch.keep_versions {
        None => Ok(settings.keep_versions),
        Some(keep) => if keep > MAX_KEEP_VERSIONS {
            Err("保留版本数最多 "@ + number::decimal(100) + "（当前 "@ + number::decimal(keep as nat) + "）"@)
        } else {
            Ok(keep)
        },
    }
}

/// The settings after a patch, or the first thing that is wrong with it. `endpoint_problem` is
/// what is wrong with the address of the storage in it.
pub open spec fn patched(
    settings: SyncSettings,
    patch: SettingsPatch,
    endpoint_problem: Option<String>,
) -> Result<SyncSettings, Seq<char>> {
    match patched_endpoint(settings, patch, endpoint_problem) {
        Err(message) => Err(message),
        Ok(endpoint) => match patched_bucket(settings, patch) {
            Err(message) => Err(message),
            Ok(bucket) => match patched_prefix(settings, patch) {
                Err(message) => Err(message),
                Ok(prefix) => match patched_keep(settings, patch) {
                    Err(message) => Err(message),
                    Ok(keep_versions) => Ok(
                        SyncSettings {
                            enabled: match patch.enabled {
                                Some(on) => on,
                                None => settings.enabled,
                            },
                            engine: match patch.engine {
                                Some(engine) => engine,
                                None => settings.engine,
                            },
                            endpoint,
                            bucket,
                            prefix,
                            keep_versions,
                            rclone_binary: match patch.rclone_binary {
                                Some(value) => search::trim(value@),
                                None => settings.rclone_binary,
                            },
                            kopia_binary: match patch.kopia_binary {
                                Some(value) => search::trim(value@),
                                None => settings.kopia_binary,
                            },
                        },
                    ),
                },
            },
        },
    }
}

pub open spec fn settings_outcome(out: Result<SyncConfig, String>) -> Result<
    SyncSettings,
    Seq<char>,
> {
    match out {
        Ok(settings) => Ok(settings@),
        Err(message) => Err(message@),
    }
}

/// The settings that a patch leads to.
pub fn patch_settings(
    settings: &SyncConfig,
    patch: &SettingsPatch,
    endpoint_problem: &Option<String>,
) -> (out: Result<SyncConfig, String>)
    ensures
        settings_outcome(out) == patched(settings@, *patch, *endpoint_problem),
{
    let mut candidate = settings.copy();
    match patch.enabled {
        Some(on) => {
            candidate.enabled = on;
        },
        None => {},
    }
    match patch.engine {
        Some(engine) => {
            candidate.engine = engine;
        },
        None => {},
    }
    match &patch.endpoint {
        Some(value) => {
            match endpoint_problem {
                Some(message) => {
                    return Err(message.clone());
                },
                None => {},
            }
            candidate.endpoint = trimmed(value.as_str());
        },
        None => {},
    }
    match &patch.bucket {
        Some(value) => match clean_bucket(value.as_str()) {
            Ok(bucket) => {
                candidate.bucket = bucket;
            },
            Err(message) => {
                return Err(message);
            },
        },
        None => {},
    }
    match &patch.prefix {
        Some(value) => match clean_prefix(value.as_str()) {
            Ok(prefix) => {
                candidate.prefix = prefix;
            },
            Err(message) => {
                return Err(message);
            },
        },
        None => {},
    }
    match patch.keep_versions {
        Some(keep) => {
            if keep > MAX_KEEP_VERSIONS {
                return Err(
                    glue5(
                        "保留版本数最多 ",
                        number_text(100).as_str(),
                        "（当前 ",
                        number_text(keep as u64).as_str(),
                        "）",
                    ),
                );
            }
            candidate.keep_versions = keep;
        },
        None => {},
    }
    match &patch.rclone_binary {
        Some(value) => {
            candidate.rclone_binary = trimmed(value.as_str());
        },
        None => {},
    }
    match &patch.kopia_binary {
        Some(value) => {
            candidate.kopia_binary = trimmed(value.as_str());
        },
        None => {},
    }
    Ok(candidate)
}

pub open spec fn stored_json(settings: SyncSettings, engine_changed: bool) -> JsonValue {
    JsonValue::Object(
        seq![
            ("settings"@, JsonValue::Object(game_json::sync_members(settings))),
            ("engine_changed"@, JsonValue::Bool(engine_changed)),
        ],
    )
}

/// Stores the settings that a patch led to. `problem` is what keeps them from working; that
/// counts only while the sync is on. The client hears where the engine has changed: what the
/// other one wrote is still there, but is not seen any more.
pub fn store_settings(config: &mut Config, candidate: SyncConfig, problem: &Option<String>) -> (out:
    Result<Json, String>)
    ensures
        old(config).wf() ==> final(config).wf(),
        match chars::text_view(*problem) {
            Some(message) => if candidate@.enabled {
                &&& out is Err
                &&& out->Err_0@ == message
                &&& final(config)@ == old(config)@
            } else {
                &&& out is Ok
                &&& out->Ok_0@ == stored_json(
                    candidate@,
                    candidate@.engine != old(config)@.sync.engine,
                )
                &&& final(config)@ == (Settings { sync: candidate@, ..old(config)@ })
            },
            None => {
                &&& out is Ok
                &&& out->Ok_0@ == stored_json(
                    candidate@,
                    candidate@.engine != old(config)@.sync.engine,
                )
                &&& final(config)@ == (Settings { sync: candidate@, ..old(config)@ })
            },
        },
{
    match problem {
        Some(message) => if candidate.enabled {
            return Err(message.clone());
        },
        None => {},
    }
    let engine_changed = candidate.engine != config.sync.engine;
    let out = with(no_members(), "settings", sync_value(&candidate));
    let out = with(out, "engine_changed", Json::Bool(engine_changed));
    assert(json::members_view(out@) =~= seq![
        ("settings"@, JsonValue::Object(game_json::sync_members(candidate@))),
        ("engine_changed"@, JsonValue::Bool(engine_changed)),
    ]);
    config.sync = candidate;
    Ok(Json::Object(out))
}

/// A patch changes where the saves go, so that what is known of the cloud has to be read anew.
pub open spec fn concerns_target(patch: SettingsPatch) -> bool {
    patch.enabled is Some || patch.engine is Some || patch.endpoint is Some || patch.bucket is Some
        || patch.prefix is Some
}

pub fn touches_target(patch: &SettingsPatch) -> (yes: bool)
    ensures
        yes == concerns_target(*patch),
{
    patch.enabled.is_some() || patch.engine.is_some() || patch.endpoint.is_some()
        || patch.bucket.is_some() || patch.prefix.is_some()
}

// ---------------------------------------------------------------------------------------------
// What stands in the way

pub open spec fn no_program(engine: SyncEngine) -> Seq<char> {
    match engine {
        SyncEngine::Rclone =>
            "找不到 rclone：在设置页填上它的位置（目录或完整路径都行），或者 Arch: sudo pacman -S rclone"@,
        SyncEngine::Kopia =>
            "找不到 kopia：在设置页填上它的位置（目录或完整路径都行），或者 Arch: sudo pacman -S archlinuxcn/kopia"@,
    }
}

/// Why the sync cannot work, the most basic thing first: the settings, the credentials, a place
/// of the program that leads nowhere, and a program that is not there.
pub open spec fn not_ready(
    engine: SyncEngine,
    settings_problem: Option<Seq<char>>,
    secrets_problem: Option<Seq<char>>,
    misplaced: Option<Seq<char>>,
    found: bool,
) -> Option<Seq<char>> {
    if settings_problem is Some {
        settings_problem
    } else if secrets_problem is Some {
        secrets_problem
    } else if misplaced is Some {
        misplaced
    } else if !found {
        Some(no_program(engine))
    } else {
        None
    }
}

pub fn readiness_problem(
    engine: SyncEngine,
    settings_problem: &Option<String>,
    secrets_problem: &Option<String>,
    misplaced: &Option<String>,
    found: bool,
) -> (problem: Option<String>)
    ensures
        chars::text_view(problem) == not_ready(
            engine,
            chars::text_view(*settings_problem),
            chars::text_view(*secrets_problem),
            chars::text_view(*misplaced),
            found,
        ),
{
    match settings_problem {
        Some(message) => {
            return Some(message.clone());
        },
        None => {},
    }
    match secrets_problem {
        Some(message) => {
            return Some(message.clone());
        },
        None => {},
    }
    match misplaced {
        Some(message) => {
            return Some(message.clone());
        },
        None => {},
    }
    if found {
        return None;
    }
    match engine {
        SyncEngine::Rclone => Some(
            "找不到 rclone：在设置页填上它的位置（目录或完整路径都行），或者 Arch: sudo pacman -S rclone".to_owned(),
        ),
        SyncEngine::Kopia => Some(
            "找不到 kopia：在设置页填上它的位置（目录或完整路径都行），或者 Arch: sudo pacman -S archlinuxcn/kopia".to_owned(),
        ),
    }
}

// ---------------------------------------------------------------------------------------------
// What holds of the settings

/// A stored folder never leads out of the bucket.
pub proof fn a_prefix_stays_inside(
    settings: SyncSettings,
    patch: SettingsPatch,
    endpoint_problem: Option<String>,
)
    requires
        patch.prefix is Some,
        patched(settings, patch, endpoint_problem) is Ok,
    ensures
        ({
            let prefix = patched(settings, patch, endpoint_problem)->Ok_0.prefix;
            &&& prefix.len() > 0
            &&& !search::contains(prefix, ".."@)
            &&& !prefix.contains('\\')
            &&& !prefix.contains(':')
        }),
{
}

/// A stored bucket is never a path.
pub proof fn a_bucket_is_a_name(
    settings: SyncSettings,
    patch: SettingsPatch,
    endpoint_problem: Option<String>,
)
    requires
        patch.bucket is Some,
        patched(settings, patch, endpoint_problem) is Ok,
    ensures
        !patched(settings, patch, endpoint_problem)->Ok_0.bucket.contains('/'),
        !has_space(patched(settings, patch, endpoint_problem)->Ok_0.bucket),
{
}

/// No more than a hundred versions can be asked for.
pub proof fn the_window_is_bounded(
    settings: SyncSettings,
    patch: SettingsPatch,
    endpoint_problem: Option<String>,
)
    requires
        settings.keep_versions <= MAX_KEEP_VERSIONS,
        patched(settings, patch, endpoint_problem) is Ok,
    ensures
        patched(settings, patch, endpoint_problem)->Ok_0.keep_versions <= MAX_KEEP_VERSIONS,
{
}

/// A patch sets what it mentions, in clean form, and leaves everything else as it was.
pub proof fn a_patch_sets_what_it_mentions(
    settings: SyncSettings,
    patch: SettingsPatch,
    endpoint_problem: Option<String>,
)
    requires
        patched(settings, patch, endpoint_problem) is Ok,
    ensures
        ({
            let after = patched(settings, patch, endpoint_problem)->Ok_0;
            &&& after.enabled == if patch.enabled is Some {
                patch.enabled.unwrap()
            } else {
                settings.enabled
            }
            &&& after.engine == if patch.engine is Some {
                patch.engine.unwrap()
            } else {
                settings.engine
            }
            &&& after.endpoint == if patch.endpoint is Some {
                search::trim(patch.endpoint.unwrap()@)
            } else {
                settings.endpoint
            }
            &&& after.bucket == if patch.bucket is Some {
                search::trim(patch.bucket.unwrap()@)
            } else {
                settings.bucket
            }
            &&& after.prefix == if patch.prefix is Some {
                without_slashes(search::trim(patch.prefix.unwrap()@))
            } else {
                settings.prefix
            }
            &&& after.keep_versions == if patch.keep_versions is Some {
                patch.keep_versions.unwrap()
            } else {
                settings.keep_versions
            }
            &&& after.rclone_binary == if patch.rclone_binary is Some {
                search::trim(patch.rclone_binary.unwrap()@)
            } else {
                settings.rclone_binary
            }
            &&& after.kopia_binary == if patch.kopia_binary is Some {
                search::trim(patch.kopia_binary.unwrap()@)
            } else {
                settings.kopia_binary
            }
        }),
{
}

/// A patch is taken exactly where the address in it is a good one, the bucket is a name, the folder
/// is one inside the bucket, and at most a hundred versions are to be kept.
pub proof fn when_a_patch_is_taken(
    settings: SyncSettings,
    patch: SettingsPatch,
    endpoint_problem: Option<String>,
)
    ensures
        patched(settings, patch, endpoint_problem) is Ok <==> {
            &&& patch.endpoint is Some ==> endpoint_problem is None
            &&& patch.bucket is Some ==> {
                let short = search::trim(patch.bucket.unwrap()@);
                !short.contains('/') && forall|i: int|
                    0 <= i < short.len() ==> !chars::is_space(#[trigger] short[i])
            }
            &&& patch.prefix is Some ==> {
                let short = without_slashes(search::trim(patch.prefix.unwrap()@));
                short.len() > 0 && !search::contains(short, ".."@) && !short.contains('\\')
                    && !short.contains(':')
            }
            &&& patch.keep_versions is Some ==> patch.keep_versions.unwrap() <= 100
        },
{
}

/// The slashes at both ends of a folder are taken away, and nothing else.
pub proof fn slashes_at_the_ends_are_taken_away(s: Seq<char>)
    ensures
        without_slashes(s).len() > 0 ==> without_slashes(s)[0] != '/' && without_slashes(s).last()
            != '/',
        exists|i: int|
            0 <= i && i + without_slashes(s).len() <= s.len() && without_slashes(s)
                == #[trigger] s.subrange(i, i + without_slashes(s).len()) && (forall|k: int|
                0 <= k < i ==> #[trigger] s[k] == '/') && (forall|k: int|
                i + without_slashes(s).len() <= k < s.len() ==> #[trigger] s[k] == '/'),
{
    let middle = without_slashes_before(s);
    lemma_slashes_before(s);
    lemma_slashes_behind(middle);
    let i = s.len() - middle.len();
    let own = without_slashes(s);
    assert(own =~= s.subrange(i, i + own.len()));
    if own.len() > 0 {
        assert(own[0] == middle[0]);
    }
    assert forall|k: int| i + own.len() <= k < s.len() implies #[trigger] s[k] == '/' by {
        assert(middle[k - i] == s[k]);
    }
}

proof fn lemma_slashes_before(s: Seq<char>)
    ensures
        without_slashes_before(s).len() <= s.len(),
        without_slashes_before(s) == s.skip(s.len() - without_slashes_before(s).len()),
        without_slashes_before(s).len() > 0 ==> without_slashes_before(s)[0] != '/',
        forall|k: int|
            0 <= k < s.len() - without_slashes_before(s).len() ==> #[trigger] s[k] == '/',
    decreases s.len(),
{
    if s.len() > 0 && s[0] == '/' {
        let rest = s.skip(1);
        lemma_slashes_before(rest);
        let n = without_slashes_before(s).len();
        assert(rest.skip(rest.len() - n) =~= s.skip(s.len() - n));
        assert forall|k: int| 0 <= k < s.len() - n implies #[trigger] s[k] == '/' by {
            if k > 0 {
                assert(rest[k - 1] == s[k]);
            }
        }
    } else {
        assert(s.skip(0) =~= s);
    }
}

proof fn lemma_slashes_behind(s: Seq<char>)
    ensures
        without_slashes_behind(s).len() <= s.len(),
        without_slashes_behind(s) == s.take(without_slashes_behind(s).len() as int),
        without_slashes_behind(s).len() > 0 ==> without_slashes_behind(s).last() != '/',
        forall|k: int| without_slashes_behind(s).len() <= k < s.len() ==> #[trigger] s[k] == '/',
    decreases s.len(),
{
    if s.len() > 0 && s.last() == '/' {
        let front = s.drop_last();
        lemma_slashes_behind(front);
        let n = without_slashes_behind(s).len() as int;
        assert(front.take(n) =~= s.take(n));
        assert forall|k: int| n <= k < s.len() implies #[trigger] s[k] == '/' by {
            if k < front.len() {
                assert(front[k] == s[k]);
            }
        }
    } else {
        assert(s.take(s.len() as int) =~= s);
    }
}

/// What is known of the cloud has to be read anew exactly where the patch is about where the saves
/// go, and not for what is only about how many are kept or where programs are.
pub proof fn when_the_cloud_is_read_anew(patch: SettingsPatch)
    ensures
        concerns_target(patch) <==> !(patch.enabled is None && patch.engine is None
            && patch.endpoint is None && patch.bucket is None && patch.prefix is None),
{
}

/// What stands in the way is said, the settings before the credentials, these before the place of
/// the program, and that before a program that is missing; nothing does where all is well.
pub proof fn the_most_basic_problem_comes_first(
    engine: SyncEngine,
    a: Seq<char>,
    b: Option<Seq<char>>,
    c: Option<Seq<char>>,
    found: bool,
)
    ensures
        not_ready(engine, Some(a), b, c, found) == Some(a),
        not_ready(engine, None, Some(a), c, found) == Some(a),
        not_ready(engine, None, None, Some(a), found) == Some(a),
        not_ready(engine, None, None, None, false) is Some,
        not_ready(engine, None, None, None, true) is None,
{
}

/// What is stored is reported, and whether the engine is another one than before.
pub proof fn what_is_stored_is_reported(settings: SyncSettings, engine_changed: bool)
    ensures
        json::has_member(
            stored_json(settings, engine_changed),
            "settings"@,
            JsonValue::Object(game_json::sync_members(settings)),
        ),
        json::has_member(
            stored_json(settings, engine_changed),
            "engine_changed"@,
            JsonValue::Bool(engine_changed),
        ),
{
    let members = stored_json(settings, engine_changed)->Object_0;
    assert(members[0].0 == "settings"@);
    assert(members[1] == ("engine_changed"@, JsonValue::Bool(engine_changed)));
}

/// What is said of settings that cannot be taken, and of a program that is not there.
pub proof fn problems_are_said_in_words(value: Seq<char>)
    ensures
        ({
            let short = search::trim(value);
            &&& cleaned_bucket(value) == if short.contains('/') || exists|i: int|
                0 <= i < short.len() && chars::is_space(#[trigger] short[i]) {
                Err::<Seq<char>, Seq<char>>(
                    "bucket 名里不能有斜杠或空格（当前 "@ + short + "）"@,
                )
            } else {
                Ok(short)
            }
        }),
        ({
            let inner = without_slashes(search::trim(value));
            &&& inner.len() == 0 ==> cleaned_prefix(value) == Err::<Seq<char>, Seq<char>>(
                "prefix 不能为空（它是 kotori 在 bucket 里独占的目录）"@,
            )
            &&& inner.len() > 0 && search::contains(inner, ".."@) ==> cleaned_prefix(value) == Err::<
                Seq<char>,
                Seq<char>,
            >("prefix 里不能有 .."@)
            &&& inner.len() > 0 && !search::contains(inner, ".."@) && (inner.contains('\\')
                || inner.contains(':')) ==> cleaned_prefix(value) == Err::<Seq<char>, Seq<char>>(
                "prefix 用 / 分隔，不要用 \\ 或 :"@,
            )
            &&& inner.len() > 0 && !search::contains(inner, ".."@) && !inner.contains('\\')
                && !inner.contains(':') ==> cleaned_prefix(value) == Ok::<Seq<char>, Seq<char>>(
                inner,
            )
        }),
        no_program(SyncEngine::Rclone)
            == "找不到 rclone：在设置页填上它的位置（目录或完整路径都行），或者 Arch: sudo pacman -S rclone"@,
        no_program(SyncEngine::Kopia)
            == "找不到 kopia：在设置页填上它的位置（目录或完整路径都行），或者 Arch: sudo pacman -S archlinuxcn/kopia"@,
{
}

} // verus!
