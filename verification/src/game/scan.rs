//! Finding the program of a game in a directory.

use crate::clock;
use crate::clock::moment;
use crate::config::model;
use crate::config::model::{Game, GameConfig};
use crate::config::profile;
use crate::config::profile::ScaleProfile;
use crate::path;
use crate::path::{extension_of, same_bytes, stem_of, FsPath};
use crate::text::chars;
use crate::text::chars::{chars_of, is_letter_or_digit, lowercase, same_text, to_lower};
use crate::text::order;
use crate::text::order::comes_before;
use crate::text::search;
use crate::text::search::{has_text, starts_with};
use vstd::prelude::*;
use vstd::string::StringExecFns;
use vstd::utf8::*;

verus! {

// ---------------------------------------------------------------------------------------------
// Programs that are not the game

pub open spec fn strs(list: Seq<&'static str>) -> Seq<Seq<char>> {
    list.map_values(|text: &'static str| text@)
}

/// Names of installers and tools.
pub open spec fn helper_names() -> Seq<Seq<char>> {
    seq![
        "uninstall"@,
        "uninst"@,
        "setup"@,
        "settings"@,
        "startuptool"@,
        "authtool"@,
        "autoupdate"@,
        "filechk"@,
        "resetconfig"@,
        "opentsalpha"@,
        "config"@,
        "envcheck"@,
        "bootmenu"@,
        "sigluscounter"@,
        "dosbox"@,
        "launcher"@,
        "注册表恢复"@,
        "注册表修复"@,
        "安装"@,
        "卸载"@,
        "工具"@,
        "设置"@,
    ]
}

/// How names of installers and tools start.
pub open spec fn helper_prefixes() -> Seq<Seq<char>> {
    seq![
        "unins"@,
        "setup"@,
        "install"@,
        "config"@,
        "filechk"@,
        "bootmenu"@,
        "autoupdate"@,
        "startuptool"@,
        "opentsalpha"@,
        "sigluscounter"@,
        "dosbox"@,
    ]
}

/// What occurs in names of tools, and of patches, which are not the game either.
pub open spec fn helper_words() -> Seq<Seq<char>> {
    seq![
        "unitycrash"@,
        "game_manager"@,
        "修改工具"@,
        "修复器"@,
        "manager"@,
        "opensavefolder"@,
        "savefolder"@,
        "readme"@,
        "补丁"@,
        "patch"@,
        "crack"@,
        "免cd"@,
        "破解"@,
        "激活"@,
    ]
}

/// A program with this name is something other than the game.
pub open spec fn names_helper(stem: Seq<char>) -> bool {
    ||| helper_names().contains(stem)
    ||| exists|i: int|
        0 <= i < helper_prefixes().len() && (#[trigger] helper_prefixes()[i]).is_prefix_of(stem)
    ||| exists|i: int|
        0 <= i < helper_words().len() && search::contains(stem, #[trigger] helper_words()[i])
}

fn helper_name_list() -> (list: Vec<&'static str>)
    ensures
        strs(list@) == helper_names(),
{
    let list: Vec<&'static str> = vec![
        "uninstall",
        "uninst",
        "setup",
        "settings",
        "startuptool",
        "authtool",
        "autoupdate",
        "filechk",
        "resetconfig",
        "opentsalpha",
        "config",
        "envcheck",
        "bootmenu",
        "sigluscounter",
        "dosbox",
        "launcher",
        "注册表恢复",
        "注册表修复",
        "安装",
        "卸载",
        "工具",
        "设置",
    ];
    assert(strs(list@) =~= helper_names());
    list
}

fn helper_prefix_list() -> (list: Vec<&'static str>)
    ensures
        strs(list@) == helper_prefixes(),
{
    let list: Vec<&'static str> = vec![
        "unins",
        "setup",
        "install",
        "config",
        "filechk",
        "bootmenu",
        "autoupdate",
        "startuptool",
        "opentsalpha",
        "sigluscounter",
        "dosbox",
    ];
    assert(strs(list@) =~= helper_prefixes());
    list
}

fn helper_word_list() -> (list: Vec<&'static str>)
    ensures
        strs(list@) == helper_words(),
{
    let list: Vec<&'static str> = vec![
        "unitycrash",
        "game_manager",
        "修改工具",
        "修复器",
        "manager",
        "opensavefolder",
        "savefolder",
        "readme",
        "补丁",
        "patch",
        "crack",
        "免cd",
        "破解",
        "激活",
    ];
    assert(strs(list@) =~= helper_words());
    list
}

/// Whether a program with this name, in lower case and without its extension, is something
/// other than the game.
pub fn is_helper(stem: &str) -> (yes: bool)
    ensures
        yes == names_helper(stem@),
{
    let names = helper_name_list();
    let mut i: usize = 0;
    while i < names.len()
        invariant
            i <= names@.len(),
            strs(names@) == helper_names(),
            forall|k: int| 0 <= k < i ==> helper_names()[k] != stem@,
        decreases names@.len() - i,
    {
        assert(strs(names@)[i as int] == names@[i as int]@);
        if same_text(names[i], stem) {
            assert(helper_names().contains(helper_names()[i as int]));
            return true;
        }
        i += 1;
    }
    let prefixes = helper_prefix_list();
    let mut i: usize = 0;
    while i < prefixes.len()
        invariant
            i <= prefixes@.len(),
            strs(prefixes@) == helper_prefixes(),
            forall|k: int| 0 <= k < i ==> !(#[trigger] helper_prefixes()[k]).is_prefix_of(stem@),
        decreases prefixes@.len() - i,
    {
        assert(strs(prefixes@)[i as int] == prefixes@[i as int]@);
        if starts_with(stem, prefixes[i]) {
            assert(helper_prefixes()[i as int].is_prefix_of(stem@));
            return true;
        }
        i += 1;
    }
    let words = helper_word_list();
    let mut i: usize = 0;
    while i < words.len()
        invariant
            i <= words@.len(),
            strs(words@) == helper_words(),
            forall|k: int|
                0 <= k < i ==> !search::contains(stem@, #[trigger] helper_words()[k]),
        decreases words@.len() - i,
    {
        assert(strs(words@)[i as int] == words@[i as int]@);
        if has_text(stem, words[i]) {
            assert(search::contains(stem@, helper_words()[i as int]));
            return true;
        }
        i += 1;
    }
    assert(strs(names@).len() == names@.len());
    assert(strs(prefixes@).len() == prefixes@.len());
    assert(strs(words@).len() == words@.len());
    false
}

// ---------------------------------------------------------------------------------------------
// Names that look alike

/// A name in lower case, with nothing but its letters and digits.
pub open spec fn plain_name(s: Seq<char>) -> Seq<char>
    decreases s.len(),
{
    if s.len() == 0 {
        Seq::empty()
    } else {
        let before = plain_name(s.drop_last());
        if chars::is_alnum(s.last()) {
            before + chars::lower_char(s.last())
        } else {
            before
        }
    }
}

/// How many characters two names share at their start.
pub open spec fn shared_start(a: Seq<char>, b: Seq<char>) -> nat
    decreases a.len(),
{
    if a.len() == 0 || b.len() == 0 || a[0] != b[0] {
        0
    } else {
        1 + shared_start(a.skip(1), b.skip(1))
    }
}

/// How much a program looks like the directory it lies in: a little for a common start, more
/// for the same name. Very short names say nothing.
pub open spec fn likeness(hint: Seq<char>, stem: Seq<char>) -> int {
    let name = plain_name(stem);
    if name.len() < 4 {
        0
    } else if name == hint {
        4
    } else if shared_start(hint, name) >= 4 {
        3
    } else {
        0
    }
}

pub fn normalize(name: &str) -> (out: String)
    ensures
        out@ == plain_name(name@),
{
    let list = chars_of(name);
    let mut out = String::new();
    let mut i: usize = 0;
    while i < list.len()
        invariant
            i <= list@.len(),
            list@ == name@,
            out@ == plain_name(name@.take(i as int)),
        decreases list@.len() - i,
    {
        let c = list[i];
        assert(name@.take(i + 1).drop_last() =~= name@.take(i as int));
        if is_letter_or_digit(c) {
            let lower = to_lower(c);
            let ghost before = out@;
            let mut k: usize = 0;
            while k < lower.len()
                invariant
                    k <= lower@.len(),
                    out@ == before + lower@.take(k as int),
                decreases lower@.len() - k,
            {
                out.push(lower[k]);
                assert(lower@.take(k + 1) =~= lower@.take(k as int).push(lower@[k as int]));
                k += 1;
            }
            assert(lower@.take(k as int) =~= lower@);
        }
        i += 1;
    }
    assert(name@.take(i as int) =~= name@);
    out
}

pub fn affinity(hint: &str, stem: &str) -> (score: i32)
    ensures
        score == likeness(hint@, stem@),
{
    let name = normalize(stem);
    let own = chars_of(name.as_str());
    if own.len() < 4 {
        return 0;
    }
    if same_text(name.as_str(), hint) {
        return 4;
    }
    let other = chars_of(hint);
    let mut i: usize = 0;
    assert(hint@.skip(0) =~= hint@);
    assert(name@.skip(0) =~= name@);
    while i < own.len() && i < other.len() && own[i] == other[i]
        invariant
            i <= own@.len(),
            i <= other@.len(),
            own@ == name@,
            other@ == hint@,
            shared_start(hint@, name@) == i + shared_start(hint@.skip(i as int), name@.skip(i as int)),
        decreases own@.len() - i,
    {
        assert(hint@.skip(i as int).skip(1) =~= hint@.skip(i + 1));
        assert(name@.skip(i as int).skip(1) =~= name@.skip(i + 1));
        i += 1;
    }
    if i >= 4 {
        3
    } else {
        0
    }
}

// ---------------------------------------------------------------------------------------------
// Which program is the game

/// A file of a directory.
pub struct DirEntry {
    pub path: FsPath,
    pub size: u64,
}

/// A program: its name in lower case and without its extension, its size, and where it is.
pub struct Program {
    pub stem: Seq<char>,
    pub size: u64,
    pub path: Seq<u8>,
}

/// The program that a file is, where it is one.
pub open spec fn program_of(entry: DirEntry) -> Option<Program> {
    match path::file_name_of(entry.path@) {
        Some(name) => if path::extension(name) == Some(encode_utf8("exe"@)) {
            Some(
                Program {
                    stem: chars::lower_text(path::lossy_text(path::stem(name))),
                    size: entry.size,
                    path: entry.path@,
                },
            )
        } else {
            None
        },
        None => None,
    }
}

/// The programs among the files of a directory.
pub open spec fn programs(entries: Seq<DirEntry>) -> Seq<Program>
    decreases entries.len(),
{
    if entries.len() == 0 {
        Seq::empty()
    } else {
        let before = programs(entries.drop_last());
        match program_of(entries.last()) {
            Some(program) => before.push(program),
            None => before,
        }
    }
}

/// The name says that the program is a Chinese build.
pub open spec fn is_localised(stem: Seq<char>) -> bool {
    search::contains(stem, "chs"@) || search::contains(stem, "chinese"@) || search::contains(
        stem,
        "_cn"@,
    ) || stem == "cn"@ || search::contains(stem, "汉化"@) || search::contains(stem, "中文"@)
}

/// How plausible it is that a program is the game, between builds for the same language.
pub open spec fn score(hint: Seq<char>, stem: Seq<char>) -> int {
    (if search::contains(stem, "game"@) || search::contains(stem, "启动"@) {
        2int
    } else {
        0int
    }) + (if stem == "main"@ {
        1int
    } else {
        0int
    }) + likeness(hint, stem)
}

/// A localised build comes first, whatever the names look like; then the more plausible program,
/// then the larger one, then the one whose name comes first.
pub open spec fn is_likelier(hint: Seq<char>, a: Program, b: Program) -> bool {
    let (x, y) = (score(hint, a.stem), score(hint, b.stem));
    if is_localised(a.stem) != is_localised(b.stem) {
        is_localised(a.stem)
    } else {
        x > y || (x == y && (a.size > b.size || (a.size == b.size && order::text_before(
            a.stem,
            b.stem,
        ))))
    }
}

/// The likeliest of the programs that are not helpers; of equal ones the first.
pub open spec fn likeliest(hint: Seq<char>, list: Seq<Program>) -> Option<Program>
    decreases list.len(),
{
    if list.len() == 0 {
        None
    } else {
        let before = likeliest(hint, list.drop_last());
        let own = list.last();
        if names_helper(own.stem) {
            before
        } else {
            match before {
                None => Some(own),
                Some(kept) => if is_likelier(hint, own, kept) {
                    Some(own)
                } else {
                    Some(kept)
                },
            }
        }
    }
}

/// The program whose name comes first; of equal names the first.
pub open spec fn first_by_name(list: Seq<Program>) -> Option<Program>
    decreases list.len(),
{
    if list.len() == 0 {
        None
    } else {
        let own = list.last();
        match first_by_name(list.drop_last()) {
            None => Some(own),
            Some(kept) => if order::text_before(own.stem, kept.stem) {
                Some(own)
            } else {
                Some(kept)
            },
        }
    }
}

/// What the name of a directory says of the game in it.
pub open spec fn hint_of(dir: Seq<u8>) -> Seq<char> {
    plain_name(
        path::lossy_text(
            match path::file_name_of(dir) {
                Some(name) => name,
                None => Seq::empty(),
            },
        ),
    )
}

/// The program of the game in a directory: the likeliest one, and where all of them look like
/// helpers the first by name, because a game may well be nothing but an emulator.
pub open spec fn game_program(dir: Seq<u8>, entries: Seq<DirEntry>) -> Option<Seq<u8>> {
    let list = programs(entries);
    match likeliest(hint_of(dir), list) {
        Some(program) => Some(program.path),
        None => match first_by_name(list) {
            Some(program) => Some(program.path),
            None => None,
        },
    }
}

/// Every file of the one listing is in the other, with the same size.
pub open spec fn lists_all_of(a: Seq<DirEntry>, b: Seq<DirEntry>) -> bool {
    forall|i: int|
        0 <= i < b.len() ==> exists|k: int|
            0 <= k < a.len() && (#[trigger] a[k]).path@ == (#[trigger] b[i]).path@ && a[k].size
                == b[i].size
}

/// The two listings are of the same files, in whatever order.
pub open spec fn same_files(a: Seq<DirEntry>, b: Seq<DirEntry>) -> bool {
    lists_all_of(a, b) && lists_all_of(b, a)
}

/// No two programs of a listing have the same name, in whatever case it is written.
pub open spec fn names_differ(entries: Seq<DirEntry>) -> bool {
    forall|i: int, k: int|
        0 <= i < programs(entries).len() && 0 <= k < programs(entries).len() && (
        #[trigger] programs(entries)[i]).stem == (#[trigger] programs(entries)[k]).stem
            ==> programs(entries)[i] == programs(entries)[k]
}

fn localised(stem: &str) -> (yes: bool)
    ensures
        yes == is_localised(stem@),
{
    has_text(stem, "chs") || has_text(stem, "chinese") || has_text(stem, "_cn") || same_text(
        stem,
        "cn",
    ) || has_text(stem, "汉化") || has_text(stem, "中文")
}

fn score_of(hint: &str, stem: &str) -> (out: i32)
    ensures
        out == score(hint@, stem@),
{
    let mut out: i32 = 0;
    if has_text(stem, "game") || has_text(stem, "启动") {
        out += 2;
    }
    if same_text(stem, "main") {
        out += 1;
    }
    out + affinity(hint, stem)
}

/// The name of a program, in lower case and without its extension.
fn stem_of_program(entry: &DirEntry) -> (stem: Option<String>)
    ensures
        match stem {
            Some(stem) => program_of(*entry) == Some(
                Program { stem: stem@, size: entry.size, path: entry.path@ },
            ),
            None => program_of(*entry) is None,
        },
{
    let name = match entry.path.file_name() {
        Some(name) => name,
        None => {
            return None;
        },
    };
    match extension_of(name.as_slice()) {
        Some(own) => if !same_bytes(own.as_slice(), "exe".as_bytes()) {
            return None;
        },
        None => {
            return None;
        },
    }
    let stem = FsPath { raw: stem_of(name.as_slice()) }.text();
    Some(lowercase(stem.as_str()))
}

/// The program of the game in a directory. There is one as soon as some file is a program, and
/// another order of the same files leads to the same one.
pub fn pick_game_exe(dir: &FsPath, entries: &Vec<DirEntry>) -> (out: Option<FsPath>)
    ensures
        model::path_view(out) == game_program(dir@, entries@),
        out is None <==> forall|i: int|
            0 <= i < entries@.len() ==> program_of(#[trigger] entries@[i]) is None,
        names_differ(entries@) ==> forall|other: Seq<DirEntry>|
            same_files(entries@, other) ==> #[trigger] game_program(dir@, other)
                == model::path_view(out),
{
    let name = match dir.file_name() {
        Some(name) => FsPath { raw: name },
        None => FsPath::empty(),
    };
    let hint = normalize(name.text().as_str());
    let ghost wanted = hint_of(dir@);
    // The likeliest program so far, by its position, whether it is localised, its score and its
    // name; and the first one by name.
    let mut best: Option<(usize, bool, i32, String)> = None;
    let mut first: Option<(usize, String)> = None;
    let mut i: usize = 0;
    while i < entries.len()
        invariant
            i <= entries@.len(),
            hint@ == wanted,
            match best {
                Some((k, chinese, points, stem)) => k < entries@.len() && chinese == is_localised(
                    stem@,
                ) && points == score(wanted, stem@) && likeliest(wanted, programs(entries@.take(i as int))) == Some(
                    Program {
                        stem: stem@,
                        size: entries@[k as int].size,
                        path: entries@[k as int].path@,
                    },
                ),
                None => likeliest(wanted, programs(entries@.take(i as int))) is None,
            },
            match first {
                Some((k, stem)) => k < entries@.len() && first_by_name(
                    programs(entries@.take(i as int)),
                ) == Some(
                    Program {
                        stem: stem@,
                        size: entries@[k as int].size,
                        path: entries@[k as int].path@,
                    },
                ),
                None => first_by_name(programs(entries@.take(i as int))) is None,
            },
        decreases entries@.len() - i,
    {
        let ghost now = programs(entries@.take(i as int));
        assert(entries@.take(i + 1).drop_last() =~= entries@.take(i as int));
        match stem_of_program(&entries[i]) {
            Some(stem) => {
                let ghost own = Program {
                    stem: stem@,
                    size: entries@[i as int].size,
                    path: entries@[i as int].path@,
                };
                assert(programs(entries@.take(i + 1)) == now.push(own));
                assert(now.push(own).drop_last() =~= now);
                assert(now.push(own).last() == own);
                let earlier = match &first {
                    None => true,
                    Some((_, kept)) => comes_before(stem.as_str(), kept.as_str()),
                };
                if earlier {
                    first = Some((i, stem.clone()));
                }
                if !is_helper(stem.as_str()) {
                    let chinese = localised(stem.as_str());
                    let points = score_of(hint.as_str(), stem.as_str());
                    let better = match &best {
                        None => true,
                        Some((k, kept_chinese, kept_points, kept)) => if chinese != *kept_chinese {
                            chinese
                        } else {
                            let size = entries[i].size;
                            let kept_size = entries[*k].size;
                            points > *kept_points || (points == *kept_points && (size > kept_size
                                || (size == kept_size && comes_before(
                                stem.as_str(),
                                kept.as_str(),
                            ))))
                        },
                    };
                    if better {
                        best = Some((i, chinese, points, stem));
                    }
                }
            },
            None => {},
        }
        i += 1;
    }
    assert(entries@.take(i as int) =~= entries@);
    proof {
        a_program_makes_a_game(dir@, entries@);
        if names_differ(entries@) {
            assert forall|other: Seq<DirEntry>| same_files(entries@, other) implies #[trigger]
                game_program(dir@, other) == game_program(dir@, entries@) by {
                the_order_of_a_listing_does_not_matter(dir@, entries@, other);
            }
        }
    }
    match best {
        Some((k, _, _, _)) => Some(entries[k].path.copy()),
        None => match first {
            Some((k, _)) => Some(entries[k].path.copy()),
            None => None,
        },
    }
}

// ---------------------------------------------------------------------------------------------
// Games in directories

/// A directory and the files in it.
pub struct Listing {
    pub dir: FsPath,
    pub entries: Vec<DirEntry>,
}

/// A directory and the program of the game in it.
pub struct Find {
    pub dir: FsPath,
    pub exe: FsPath,
}

pub open spec fn finds_view(list: Seq<Find>) -> Seq<(Seq<u8>, Seq<u8>)> {
    list.map_values(|find: Find| (find.dir@, find.exe@))
}

/// The directories with a game in them. Each has one at most.
pub open spec fn finds(listings: Seq<Listing>) -> Seq<(Seq<u8>, Seq<u8>)>
    decreases listings.len(),
{
    if listings.len() == 0 {
        Seq::empty()
    } else {
        let before = finds(listings.drop_last());
        let own = listings.last();
        match game_program(own.dir@, own.entries@) {
            Some(exe) => before.push((own.dir@, exe)),
            None => before,
        }
    }
}

/// The games in a directory: in the directory itself, and in each of those in it. `listings`
/// starts with the directory; a directory that does not exist is an error.
pub fn scan(directory: &FsPath, exists: bool, listings: &Vec<Listing>) -> (out: Result<
    Vec<Find>,
    String,
>)
    ensures
        match out {
            Ok(found) => exists && finds_view(found@) == finds(listings@),
            Err(message) => !exists && message@ == "目录不存在: "@ + path::lossy_text(directory@),
        },
{
    if !exists {
        let mut message = "目录不存在: ".to_owned();
        message.append(directory.text().as_str());
        return Err(message);
    }
    let mut found: Vec<Find> = Vec::new();
    let mut i: usize = 0;
    assert(finds_view(found@) =~= finds(listings@.take(0)));
    while i < listings.len()
        invariant
            i <= listings@.len(),
            finds_view(found@) == finds(listings@.take(i as int)),
        decreases listings@.len() - i,
    {
        assert(listings@.take(i + 1).drop_last() =~= listings@.take(i as int));
        let ghost before = found@;
        match pick_game_exe(&listings[i].dir, &listings[i].entries) {
            Some(exe) => {
                let find = Find { dir: listings[i].dir.copy(), exe };
                found.push(find);
                assert(finds_view(found@) =~= finds_view(before).push((find.dir@, find.exe@)));
            },
            None => {},
        }
        i += 1;
    }
    assert(listings@.take(i as int) =~= listings@);
    Ok(found)
}

/// The game that a directory and its program make: named after the directory, watched, synced
/// by itself, and with the profile of a new game.
pub open spec fn new_game(
    dir: Seq<u8>,
    exe: Seq<u8>,
    fingerprint: Option<Seq<char>>,
    created_at: Seq<char>,
) -> Game {
    Game {
        name: path::lossy_text(
            match path::file_name_of(dir) {
                Some(name) => name,
                None => Seq::empty(),
            },
        ),
        game_dir: match path::parent_of(exe) {
            Some(parent) => parent,
            None => dir,
        },
        game_dir_mount: None,
        exe_path: exe,
        exe_mount: None,
        exe_fingerprint: fingerprint,
        launch_args: Seq::empty(),
        save_paths: Seq::empty(),
        wine_prefix: None,
        auto_watch: true,
        direct_launch: false,
        process_name: None,
        scale_profile: profile::default_profile(),
        created_at,
        cloud_id: None,
        cloud_dir: None,
        cloud_rejected: Seq::empty(),
        sync_enabled: true,
        cloud_conclusion: None,
    }
}

/// The game that a find becomes, as of a moment.
pub fn game_entry_at(
    dir: &FsPath,
    exe: FsPath,
    fingerprint: Option<String>,
    created_at: String,
) -> (game: GameConfig)
    ensures
        game@ == new_game(dir@, exe@, chars::text_view(fingerprint), created_at@),
{
    let name = match dir.file_name() {
        Some(name) => FsPath { raw: name }.text(),
        None => FsPath::empty().text(),
    };
    let game_dir = match exe.parent() {
        Some(parent) => parent,
        None => dir.copy(),
    };
    let game = GameConfig {
        name,
        game_dir,
        game_dir_mount: None,
        exe_path: exe,
        exe_mount: None,
        exe_fingerprint: fingerprint,
        launch_args: Vec::new(),
        save_paths: Vec::new(),
        wine_prefix: None,
        auto_watch: true,
        direct_launch: false,
        process_name: None,
        scale_profile: ScaleProfile::default_for(),
        created_at,
        cloud_id: None,
        cloud_dir: None,
        cloud_rejected: Vec::new(),
        sync_enabled: true,
        cloud_conclusion: None,
    };
    assert(game@.launch_args =~= Seq::<Seq<char>>::empty());
    assert(game@.save_paths =~= Seq::empty());
    assert(game@.cloud_rejected =~= Seq::<Seq<char>>::empty());
    game
}

/// The game that a find becomes, as of now.
pub fn game_entry(dir: &FsPath, exe: FsPath, fingerprint: Option<String>) -> (game: GameConfig)
    ensures
        game@ == new_game(dir@, exe@, chars::text_view(fingerprint), game@.created_at),
        clock::is_moment(game@.created_at),
{
    game_entry_at(dir, exe, fingerprint, moment())
}

// ---------------------------------------------------------------------------------------------
// What holds of the choice

/// What is likelier than a program is likelier than everything behind it, and of two programs
/// with different names exactly one is likelier.
proof fn lemma_likelier_is_an_order(hint: Seq<char>, a: Program, b: Program, c: Program)
    ensures
        is_likelier(hint, a, b) && is_likelier(hint, b, c) ==> is_likelier(hint, a, c),
        a.stem != b.stem ==> is_likelier(hint, a, b) != is_likelier(hint, b, a),
        !is_likelier(hint, a, a),
{
    order::text_order_is_total(a.stem, b.stem);
    order::text_order_is_total(a.stem, a.stem);
    if order::text_before(a.stem, b.stem) && order::text_before(b.stem, c.stem) {
        order::text_order_is_transitive(a.stem, b.stem, c.stem);
    }
}

/// The likeliest program is one of those that are not helpers, and none of these is likelier.
proof fn lemma_likeliest(hint: Seq<char>, list: Seq<Program>)
    ensures
        match likeliest(hint, list) {
            Some(program) => {
                &&& list.contains(program)
                &&& !names_helper(program.stem)
                &&& forall|i: int|
                    0 <= i < list.len() && !names_helper((#[trigger] list[i]).stem)
                        ==> !is_likelier(hint, list[i], program)
            },
            None => forall|i: int| 0 <= i < list.len() ==> names_helper((#[trigger] list[i]).stem),
        },
    decreases list.len(),
{
    if list.len() > 0 {
        let front = list.drop_last();
        let own = list.last();
        lemma_likeliest(hint, front);
        assert(list[list.len() - 1] == own);
        match likeliest(hint, front) {
            Some(kept) => {
                let k = front.index_of(kept);
                assert(list[k] == kept);
                let best = likeliest(hint, list).unwrap();
                assert forall|i: int|
                    0 <= i < list.len() && !names_helper(
                        (#[trigger] list[i]).stem,
                    ) implies !is_likelier(hint, list[i], best) by {
                    lemma_likelier_is_an_order(hint, list[i], own, kept);
                    lemma_likelier_is_an_order(hint, own, own, kept);
                    if i < front.len() {
                        assert(front[i] == list[i]);
                    }
                }
            },
            None => {
                lemma_likelier_is_an_order(hint, own, own, own);
                assert forall|i: int| 0 <= i < front.len() implies names_helper(
                    (#[trigger] list[i]).stem,
                ) by {
                    assert(front[i] == list[i]);
                }
            },
        }
    }
}

/// The first program by name is one of them, and no name comes before its name.
proof fn lemma_first_by_name(list: Seq<Program>)
    ensures
        match first_by_name(list) {
            Some(program) => list.contains(program) && forall|i: int|
                0 <= i < list.len() ==> !order::text_before(
                    (#[trigger] list[i]).stem,
                    program.stem,
                ),
            None => list.len() == 0,
        },
    decreases list.len(),
{
    if list.len() > 0 {
        let front = list.drop_last();
        let own = list.last();
        lemma_first_by_name(front);
        order::text_order_is_total(own.stem, own.stem);
        assert(list[list.len() - 1] == own);
        match first_by_name(front) {
            Some(kept) => {
                let k = front.index_of(kept);
                assert(list[k] == kept);
                let first = first_by_name(list).unwrap();
                assert forall|i: int| 0 <= i < list.len() implies !order::text_before(
                    (#[trigger] list[i]).stem,
                    first.stem,
                ) by {
                    if i < front.len() {
                        assert(front[i] == list[i]);
                        if order::text_before(list[i].stem, own.stem) && order::text_before(
                            own.stem,
                            kept.stem,
                        ) {
                            order::text_order_is_transitive(list[i].stem, own.stem, kept.stem);
                        }
                    }
                }
            },
            None => {},
        }
    }
}

/// The programs are what the files are.
proof fn lemma_programs(entries: Seq<DirEntry>, program: Program)
    ensures
        programs(entries).contains(program) <==> exists|i: int|
            0 <= i < entries.len() && program_of(#[trigger] entries[i]) == Some(program),
    decreases entries.len(),
{
    if entries.len() > 0 {
        let front = entries.drop_last();
        let before = programs(front);
        lemma_programs(front, program);
        if programs(entries).contains(program) {
            if before.contains(program) {
                let i = choose|i: int|
                    0 <= i < front.len() && program_of(#[trigger] front[i]) == Some(program);
                assert(entries[i] == front[i]);
            } else {
                assert(entries[entries.len() - 1] == entries.last());
            }
        }
        if exists|i: int|
            0 <= i < entries.len() && program_of(#[trigger] entries[i]) == Some(program) {
            let i = choose|i: int|
                0 <= i < entries.len() && program_of(#[trigger] entries[i]) == Some(program);
            if i < front.len() {
                assert(front[i] == entries[i]);
                let k = before.index_of(program);
                assert(programs(entries)[k] == program);
            } else {
                assert(before.push(program).last() == program);
                assert(programs(entries)[before.len() as int] == program);
            }
        }
    }
}

/// A helper is picked only where every program of the directory is one.
pub proof fn a_helper_is_the_last_resort(hint: Seq<char>, list: Seq<Program>, i: int)
    requires
        0 <= i < list.len(),
        !names_helper(list[i].stem),
    ensures
        match likeliest(hint, list) {
            Some(program) => list.contains(program) && !names_helper(program.stem),
            None => false,
        },
{
    lemma_likeliest(hint, list);
}

/// Localised builds come first: where one of the programs that are not helpers is localised, a
/// localised one is picked, however much another looks like the directory or like a game.
pub proof fn a_localised_build_comes_first(hint: Seq<char>, list: Seq<Program>, i: int)
    requires
        0 <= i < list.len(),
        !names_helper(list[i].stem),
        is_localised(list[i].stem),
    ensures
        match likeliest(hint, list) {
            Some(program) => list.contains(program) && !names_helper(program.stem) && is_localised(
                program.stem,
            ),
            None => false,
        },
{
    lemma_likeliest(hint, list);
}

/// All of the programs are helpers.
pub open spec fn every_helper(list: Seq<Program>) -> bool {
    forall|i: int| 0 <= i < list.len() ==> names_helper((#[trigger] list[i]).stem)
}

/// Where some program is no helper this is none and no other one that is none is likelier; else
/// no name of a program comes before its name.
pub open spec fn is_best(hint: Seq<char>, list: Seq<Program>, program: Program) -> bool {
    if every_helper(list) {
        forall|i: int|
            0 <= i < list.len() ==> !order::text_before((#[trigger] list[i]).stem, program.stem)
    } else {
        !names_helper(program.stem) && forall|i: int|
            0 <= i < list.len() && !names_helper((#[trigger] list[i]).stem) ==> !is_likelier(
                hint,
                list[i],
                program,
            )
    }
}

/// What is picked is the best program of the directory. Nothing is picked only where no file is
/// a program.
pub proof fn the_best_program_is_picked(dir: Seq<u8>, entries: Seq<DirEntry>)
    ensures
        match game_program(dir, entries) {
            Some(path) => exists|program: Program| #[trigger]
                programs(entries).contains(program) && program.path == path && is_best(
                    hint_of(dir),
                    programs(entries),
                    program,
                ),
            None => forall|i: int|
                0 <= i < entries.len() ==> program_of(#[trigger] entries[i]) is None,
        },
{
    let list = programs(entries);
    let hint = hint_of(dir);
    lemma_likeliest(hint, list);
    lemma_first_by_name(list);
    match likeliest(hint, list) {
        Some(program) => {
            assert(list.contains(program));
            let k = list.index_of(program);
            assert(!names_helper(list[k].stem));
        },
        None => match first_by_name(list) {
            Some(program) => {
                assert(list.contains(program));
            },
            None => {
                assert forall|i: int| 0 <= i < entries.len() implies program_of(
                    #[trigger] entries[i],
                ) is None by {
                    if program_of(entries[i]) is Some {
                        lemma_programs(entries, program_of(entries[i]).unwrap());
                    }
                }
            },
        },
    }
}

proof fn lemma_same_programs(a: Seq<DirEntry>, b: Seq<DirEntry>, program: Program)
    requires
        lists_all_of(a, b),
        programs(b).contains(program),
    ensures
        programs(a).contains(program),
{
    lemma_programs(a, program);
    lemma_programs(b, program);
    let i = choose|i: int| 0 <= i < b.len() && program_of(#[trigger] b[i]) == Some(program);
    let k = choose|k: int|
        0 <= k < a.len() && (#[trigger] a[k]).path@ == b[i].path@ && a[k].size == b[i].size;
    assert(program_of(a[k]) == Some(program));
}

/// What `pick_game_exe` gives does not depend on the order in which the files of the directory are
/// listed. It is nothing only where no file is a program. Where all programs are helpers it is
/// the one whose name comes before all other names, and else it is no helper.
pub proof fn the_order_of_a_listing_does_not_matter(
    dir: Seq<u8>,
    a: Seq<DirEntry>,
    b: Seq<DirEntry>,
)
    requires
        same_files(a, b),
        names_differ(a),
    ensures
        game_program(dir, a) == game_program(dir, b),
        match game_program(dir, a) {
            Some(path) => exists|program: Program| #[trigger]
                programs(a).contains(program) && program.path == path && if every_helper(programs(a)) {
                    forall|i: int|
                        0 <= i < programs(a).len() ==> #[trigger] programs(a)[i] == program
                            || order::text_before(program.stem, programs(a)[i].stem)
                } else {
                    !names_helper(program.stem)
                },
            None => forall|i: int| 0 <= i < a.len() ==> program_of(#[trigger] a[i]) is None,
        },
{
    let hint = hint_of(dir);
    let (x, y) = (programs(a), programs(b));
    the_best_program_is_picked(dir, a);
    if game_program(dir, a) is Some {
        let path = game_program(dir, a).unwrap();
        let program = choose|program: Program| #[trigger]
            x.contains(program) && program.path == path && is_best(hint, x, program);
        assert forall|i: int| 0 <= i < x.len() && every_helper(x) implies #[trigger] x[i] == program
            || order::text_before(program.stem, x[i].stem) by {
            order::text_order_is_total(program.stem, x[i].stem);
            assert(x[x.index_of(program)] == program);
        }
    }
    lemma_likeliest(hint, x);
    lemma_likeliest(hint, y);
    lemma_first_by_name(x);
    lemma_first_by_name(y);
    assert forall|program: Program| x.contains(program) == y.contains(program) by {
        if x.contains(program) {
            lemma_same_programs(b, a, program);
        }
        if y.contains(program) {
            lemma_same_programs(a, b, program);
        }
    }
    assert(x.len() == 0 <==> y.len() == 0) by {
        if x.len() > 0 {
            assert(x.contains(x[0]));
            assert(y.contains(x[0]));
        }
        if y.len() > 0 {
            assert(y.contains(y[0]));
            assert(x.contains(y[0]));
        }
    }
    match (likeliest(hint, x), likeliest(hint, y)) {
        (Some(p), Some(q)) => {
            lemma_likelier_is_an_order(hint, p, q, q);
            assert(y.contains(p));
            assert(x.contains(q));
            assert(x[x.index_of(p)] == p && x[x.index_of(q)] == q);
            assert(y[y.index_of(p)] == p);
        },
        (Some(p), None) => {
            assert(y.contains(p));
            assert(y[y.index_of(p)] == p);
        },
        (None, Some(q)) => {
            assert(x.contains(q));
            assert(x[x.index_of(q)] == q);
        },
        (None, None) => {
            if x.len() > 0 {
                let p = first_by_name(x).unwrap();
                let q = first_by_name(y).unwrap();
                order::text_order_is_total(p.stem, q.stem);
                assert(y.contains(p));
                assert(x.contains(q));
                assert(x[x.index_of(p)] == p && x[x.index_of(q)] == q);
                assert(y[y.index_of(p)] == p);
            }
        },
    }
}

/// A directory with a program in it has a game, and one without has none.
pub proof fn a_program_makes_a_game(dir: Seq<u8>, entries: Seq<DirEntry>)
    ensures
        game_program(dir, entries) is None <==> forall|i: int|
            0 <= i < entries.len() ==> program_of(#[trigger] entries[i]) is None,
{
    the_best_program_is_picked(dir, entries);
    if game_program(dir, entries) is Some {
        let program = choose|program: Program| #[trigger]
            programs(entries).contains(program) && program.path == game_program(
                dir,
                entries,
            ).unwrap();
        lemma_programs(entries, program);
    }
}

/// No directory contributes more than one game.
pub proof fn a_directory_has_one_game_at_most(listings: Seq<Listing>)
    ensures
        finds(listings).len() <= listings.len(),
    decreases listings.len(),
{
    if listings.len() > 0 {
        a_directory_has_one_game_at_most(listings.drop_last());
    }
}

/// A name with `chs`, `chinese`, `_cn`, `汉化` or `中文` in it, or that is `cn`, wins over every name
/// that has none of these: where a program of the directory has such a name and is no helper,
/// the program that is picked has such a name and is no helper.
pub proof fn a_chinese_build_wins(dir: Seq<u8>, entries: Seq<DirEntry>, i: int)
    requires
        0 <= i < entries.len(),
        program_of(entries[i]) is Some,
        ({
            let stem = program_of(entries[i]).unwrap().stem;
            &&& !names_helper(stem)
            &&& (search::contains(stem, "chs"@) || search::contains(stem, "chinese"@) || search::contains(stem, "_cn"@)
                || stem == "cn"@ || search::contains(stem, "汉化"@) || search::contains(stem, "中文"@))
        }),
    ensures
        exists|k: int|
            0 <= k < entries.len() && game_program(dir, entries) == Some(entries[k].path@) && match (
            #[trigger] program_of(entries[k])) {
                Some(program) => !names_helper(program.stem) && (search::contains(program.stem, "chs"@) || search::contains(program.stem, "chinese"@) || search::contains(program.stem, "_cn"@)
                || program.stem == "cn"@ || search::contains(program.stem, "汉化"@) || search::contains(program.stem, "中文"@)),
                None => false,
            },
{
    let list = programs(entries);
    let own = program_of(entries[i]).unwrap();
    lemma_programs(entries, own);
    let at = list.index_of(own);
    a_localised_build_comes_first(hint_of(dir), list, at);
    let best = likeliest(hint_of(dir), list).unwrap();
    lemma_programs(entries, best);
    let k = choose|k: int| 0 <= k < entries.len() && program_of(#[trigger] entries[k]) == Some(best);
    assert(program_of(entries[k]) == Some(best));
}

/// Of two programs that are no helpers the one with the Chinese name is the likelier one,
/// whatever their sizes are and whatever else their names say.
pub proof fn a_chinese_name_decides(hint: Seq<char>, a: Program, b: Program)
    requires
        (search::contains(a.stem, "chs"@) || search::contains(a.stem, "chinese"@) || search::contains(a.stem, "_cn"@)
                || a.stem == "cn"@ || search::contains(a.stem, "汉化"@) || search::contains(a.stem, "中文"@)),
        !(search::contains(b.stem, "chs"@) || search::contains(b.stem, "chinese"@) || search::contains(b.stem, "_cn"@)
                || b.stem == "cn"@ || search::contains(b.stem, "汉化"@) || search::contains(b.stem, "中文"@)),
    ensures
        is_likelier(hint, a, b),
        !is_likelier(hint, b, a),
{
}

/// The names of installers, tools and patches, one by one.
pub proof fn installers_and_tools_are_helpers(stem: Seq<char>)
    ensures
        names_helper(stem) <==> {
            ||| stem == "uninstall"@
            ||| stem == "uninst"@
            ||| stem == "setup"@
            ||| stem == "settings"@
            ||| stem == "startuptool"@
            ||| stem == "authtool"@
            ||| stem == "autoupdate"@
            ||| stem == "filechk"@
            ||| stem == "resetconfig"@
            ||| stem == "opentsalpha"@
            ||| stem == "config"@
            ||| stem == "envcheck"@
            ||| stem == "bootmenu"@
            ||| stem == "sigluscounter"@
            ||| stem == "dosbox"@
            ||| stem == "launcher"@
            ||| stem == "注册表恢复"@
            ||| stem == "注册表修复"@
            ||| stem == "安装"@
            ||| stem == "卸载"@
            ||| stem == "工具"@
            ||| stem == "设置"@
            ||| "unins"@.is_prefix_of(stem)
            ||| "setup"@.is_prefix_of(stem)
            ||| "install"@.is_prefix_of(stem)
            ||| "config"@.is_prefix_of(stem)
            ||| "filechk"@.is_prefix_of(stem)
            ||| "bootmenu"@.is_prefix_of(stem)
            ||| "autoupdate"@.is_prefix_of(stem)
            ||| "startuptool"@.is_prefix_of(stem)
            ||| "opentsalpha"@.is_prefix_of(stem)
            ||| "sigluscounter"@.is_prefix_of(stem)
            ||| "dosbox"@.is_prefix_of(stem)
            ||| search::contains(stem, "unitycrash"@)
            ||| search::contains(stem, "game_manager"@)
            ||| search::contains(stem, "修改工具"@)
            ||| search::contains(stem, "修复器"@)
            ||| search::contains(stem, "manager"@)
            ||| search::contains(stem, "opensavefolder"@)
            ||| search::contains(stem, "savefolder"@)
            ||| search::contains(stem, "readme"@)
            ||| search::contains(stem, "补丁"@)
            ||| search::contains(stem, "patch"@)
            ||| search::contains(stem, "crack"@)
            ||| search::contains(stem, "免cd"@)
            ||| search::contains(stem, "破解"@)
            ||| search::contains(stem, "激活"@)
        },
{
    assert(helper_names()[0] == "uninstall"@);
    assert(helper_names()[1] == "uninst"@);
    assert(helper_names()[2] == "setup"@);
    assert(helper_names()[3] == "settings"@);
    assert(helper_names()[4] == "startuptool"@);
    assert(helper_names()[5] == "authtool"@);
    assert(helper_names()[6] == "autoupdate"@);
    assert(helper_names()[7] == "filechk"@);
    assert(helper_names()[8] == "resetconfig"@);
    assert(helper_names()[9] == "opentsalpha"@);
    assert(helper_names()[10] == "config"@);
    assert(helper_names()[11] == "envcheck"@);
    assert(helper_names()[12] == "bootmenu"@);
    assert(helper_names()[13] == "sigluscounter"@);
    assert(helper_names()[14] == "dosbox"@);
    assert(helper_names()[15] == "launcher"@);
    assert(helper_names()[16] == "注册表恢复"@);
    assert(helper_names()[17] == "注册表修复"@);
    assert(helper_names()[18] == "安装"@);
    assert(helper_names()[19] == "卸载"@);
    assert(helper_names()[20] == "工具"@);
    assert(helper_names()[21] == "设置"@);
    assert(helper_prefixes()[0] == "unins"@);
    assert(helper_prefixes()[1] == "setup"@);
    assert(helper_prefixes()[2] == "install"@);
    assert(helper_prefixes()[3] == "config"@);
    assert(helper_prefixes()[4] == "filechk"@);
    assert(helper_prefixes()[5] == "bootmenu"@);
    assert(helper_prefixes()[6] == "autoupdate"@);
    assert(helper_prefixes()[7] == "startuptool"@);
    assert(helper_prefixes()[8] == "opentsalpha"@);
    assert(helper_prefixes()[9] == "sigluscounter"@);
    assert(helper_prefixes()[10] == "dosbox"@);
    assert(helper_words()[0] == "unitycrash"@);
    assert(helper_words()[1] == "game_manager"@);
    assert(helper_words()[2] == "修改工具"@);
    assert(helper_words()[3] == "修复器"@);
    assert(helper_words()[4] == "manager"@);
    assert(helper_words()[5] == "opensavefolder"@);
    assert(helper_words()[6] == "savefolder"@);
    assert(helper_words()[7] == "readme"@);
    assert(helper_words()[8] == "补丁"@);
    assert(helper_words()[9] == "patch"@);
    assert(helper_words()[10] == "crack"@);
    assert(helper_words()[11] == "免cd"@);
    assert(helper_words()[12] == "破解"@);
    assert(helper_words()[13] == "激活"@);
    if helper_names().contains(stem) {
        let i = helper_names().index_of(stem);
        assert(helper_names()[i] == stem);
    }
}

/// How many characters two names share at their start: they agree up to there, and not further.
pub proof fn a_shared_start_is_shared(a: Seq<char>, b: Seq<char>, n: nat)
    ensures
        shared_start(a, b) >= n <==> a.len() >= n && b.len() >= n && a.take(n as int) == b.take(
            n as int,
        ),
    decreases a.len(),
{
    if n == 0 {
        assert(a.take(0) =~= b.take(0));
    } else if a.len() > 0 && b.len() > 0 {
        if a[0] == b[0] {
            let (x, y) = (a.skip(1), b.skip(1));
            let m = (n - 1) as nat;
            a_shared_start_is_shared(x, y, m);
            if a.len() >= n && b.len() >= n {
                if a.take(n as int) == b.take(n as int) {
                    assert forall|i: int| 0 <= i < m implies x.take(m as int)[i] == y.take(m as int)[i] by {
                        assert(a.take(n as int)[i + 1] == b.take(n as int)[i + 1]);
                    }
                    assert(x.take(m as int) =~= y.take(m as int));
                }
                if x.take(m as int) == y.take(m as int) {
                    assert forall|i: int| 0 <= i < n implies a.take(n as int)[i] == b.take(n as int)[i] by {
                        if i > 0 {
                            assert(x.take(m as int)[i - 1] == y.take(m as int)[i - 1]);
                        }
                    }
                    assert(a.take(n as int) =~= b.take(n as int));
                }
            }
        } else if a.len() >= n && b.len() >= n {
            assert(a.take(n as int)[0] != b.take(n as int)[0]);
        }
    }
}

/// A program looks most like its directory where it has the same plain name, less where the two
/// agree in their first four characters, and else not at all. Names with fewer than four plain
/// characters say nothing.
pub proof fn a_program_may_look_like_its_directory(hint: Seq<char>, stem: Seq<char>)
    ensures
        plain_name(stem).len() < 4 ==> likeness(hint, stem) == 0,
        plain_name(stem).len() >= 4 && plain_name(stem) == hint ==> likeness(hint, stem) == 4,
        plain_name(stem).len() >= 4 && plain_name(stem) != hint && hint.len() >= 4 && hint.take(4)
            == plain_name(stem).take(4) ==> likeness(hint, stem) == 3,
        plain_name(stem).len() >= 4 && plain_name(stem) != hint && (hint.len() < 4 || hint.take(4)
            != plain_name(stem).take(4)) ==> likeness(hint, stem) == 0,
{
    a_shared_start_is_shared(hint, plain_name(stem), 4);
}

/// Between builds for the same language the name decides: `game` or `启动` in it counts two, the
/// whole name `main` one, and the likeness to the directory is added. Then the larger program
/// wins, and then the one whose name comes first.
pub proof fn names_then_sizes_then_order(hint: Seq<char>, a: Program, b: Program)
    requires
        is_localised(a.stem) == is_localised(b.stem),
    ensures
        ({
            let points = |stem: Seq<char>|
                likeness(hint, stem) + (if stem == "main"@ {
                    1int
                } else {
                    0
                }) + (if search::contains(stem, "启动"@) || search::contains(stem, "game"@) {
                    2int
                } else {
                    0
                });
            &&& points(a.stem) > points(b.stem) ==> is_likelier(hint, a, b)
            &&& points(a.stem) < points(b.stem) ==> !is_likelier(hint, a, b)
            &&& points(a.stem) == points(b.stem) && a.size > b.size ==> is_likelier(hint, a, b)
            &&& points(a.stem) == points(b.stem) && a.size < b.size ==> !is_likelier(hint, a, b)
            &&& points(a.stem) == points(b.stem) && a.size == b.size ==> (is_likelier(hint, a, b)
                <==> order::text_before(a.stem, b.stem))
        }),
{
}

/// A plain name is made character by character: what is neither a letter nor a digit is left out,
/// and everything else is in lower case.
pub proof fn a_plain_name_is_made_piece_by_piece(a: Seq<char>, b: Seq<char>, c: char)
    ensures
        plain_name(a + b) == plain_name(a) + plain_name(b),
        chars::is_alnum(c) ==> plain_name(seq![c]) == chars::lower_char(c),
        !chars::is_alnum(c) ==> plain_name(seq![c]).len() == 0,
    decreases b.len(),
{
    let one = seq![c];
    assert(one.drop_last() =~= Seq::<char>::empty());
    assert(plain_name(one.drop_last()) =~= Seq::<char>::empty());
    assert(plain_name(one) =~= if chars::is_alnum(c) {
        chars::lower_char(c)
    } else {
        Seq::empty()
    });
    if b.len() == 0 {
        assert(a + b =~= a);
        assert(plain_name(a + b) =~= plain_name(a) + plain_name(b));
    } else {
        a_plain_name_is_made_piece_by_piece(a, b.drop_last(), c);
        assert((a + b).drop_last() =~= a + b.drop_last());
        assert(plain_name(a + b) =~= plain_name(a) + plain_name(b));
    }
}

/// A file is a program exactly where its name is something, a dot and `exe`; it is then known
/// under that something in lower case, with the size and the path of the file.
pub proof fn a_program_is_a_file_that_ends_in_exe(entry: DirEntry, name: Seq<u8>)
    requires
        name.len() > 0,
        path::file_name_of(entry.path@) == Some(name.push(path::DOT) + encode_utf8("exe"@)),
    ensures
        program_of(entry) == Some(
            Program {
                stem: chars::lower_text(path::lossy_text(name)),
                size: entry.size,
                path: entry.path@,
            },
        ),
{
    let ext = encode_utf8("exe"@);
    reveal_strlit("exe");
    lemma_exe();
    path::an_extension_follows_the_last_dot(name, ext);
}

proof fn lemma_exe()
    ensures
        !encode_utf8("exe"@).contains(path::DOT),
{
    reveal_strlit("exe");
    let text = "exe"@;
    assert(is_ascii_chars(text));
    is_ascii_chars_encode_utf8(text);
    assert(encode_utf8(text) =~= seq![0x65u8, 0x78u8, 0x65u8]);
}

/// What a directory is called tells how its game may be called.
pub proof fn the_name_of_the_directory_is_the_hint(dir: Seq<u8>)
    ensures
        match path::file_name_of(dir) {
            Some(name) => hint_of(dir) == plain_name(path::lossy_text(name)),
            None => hint_of(dir) == plain_name(path::lossy_text(Seq::empty())),
        },
{
}

/// A scan finds exactly the directories with a program in them, in their order, each with the
/// program that is picked there.
pub proof fn every_directory_with_a_program_is_found(listings: Seq<Listing>, more: Listing)
    ensures
        forall|i: int|
            0 <= i < listings.len() ==> match game_program(
                (#[trigger] listings[i]).dir@,
                listings[i].entries@,
            ) {
                Some(exe) => finds(listings).contains((listings[i].dir@, exe)),
                None => true,
            },
        forall|k: int|
            0 <= k < finds(listings).len() ==> exists|i: int|
                0 <= i < listings.len() && (#[trigger] listings[i]).dir@ == (
                #[trigger] finds(listings)[k]).0 && game_program(
                    listings[i].dir@,
                    listings[i].entries@,
                ) == Some(finds(listings)[k].1),
        match game_program(more.dir@, more.entries@) {
            Some(exe) => finds(listings.push(more)) == finds(listings).push((more.dir@, exe)),
            None => finds(listings.push(more)) == finds(listings),
        },
    decreases listings.len(),
{
    assert(listings.push(more).drop_last() =~= listings);
    if listings.len() > 0 {
        let front = listings.drop_last();
        every_directory_with_a_program_is_found(front, more);
        let before = finds(front);
        let all = finds(listings);
        assert forall|i: int| 0 <= i < listings.len() implies match game_program(
            (#[trigger] listings[i]).dir@,
            listings[i].entries@,
        ) {
            Some(exe) => all.contains((listings[i].dir@, exe)),
            None => true,
        } by {
            match game_program(listings[i].dir@, listings[i].entries@) {
                Some(exe) => {
                    let own = (listings[i].dir@, exe);
                    if i < front.len() {
                        assert(front[i] == listings[i]);
                        let k = before.index_of(own);
                        assert(all[k] == own);
                    } else {
                        assert(all[all.len() - 1] == own);
                    }
                },
                None => {},
            }
        }
        assert forall|k: int| 0 <= k < all.len() implies exists|i: int|
            0 <= i < listings.len() && (#[trigger] listings[i]).dir@ == (#[trigger] all[k]).0
                && game_program(listings[i].dir@, listings[i].entries@) == Some(all[k].1) by {
            if k < before.len() {
                assert(before[k] == all[k]);
                let i = choose|i: int|
                    0 <= i < front.len() && (#[trigger] front[i]).dir@ == before[k].0
                        && game_program(front[i].dir@, front[i].entries@) == Some(before[k].1);
                assert(listings[i] == front[i]);
            } else {
                assert(listings[listings.len() - 1] == listings.last());
            }
        }
    }
}

/// A game that a scan found is named after its directory, lies where its program lies, is watched
/// and synced by itself, and starts without arguments, save locations, references or an identity
/// in the cloud.
pub proof fn a_found_game_starts_afresh(
    dir: Seq<u8>,
    exe: Seq<u8>,
    fingerprint: Option<Seq<char>>,
    created_at: Seq<char>,
)
    requires
        path::file_name_of(dir) is Some,
        path::parent_of(exe) is Some,
    ensures
        ({
            let game = new_game(dir, exe, fingerprint, created_at);
            &&& game.name == path::lossy_text(path::file_name_of(dir).unwrap())
            &&& game.game_dir == path::parent_of(exe).unwrap()
            &&& game.exe_path == exe
            &&& game.exe_fingerprint == fingerprint
            &&& game.created_at == created_at
            &&& game.auto_watch && game.sync_enabled && !game.direct_launch
            &&& game.launch_args.len() == 0 && game.save_paths.len() == 0
            &&& game.exe_mount is None && game.game_dir_mount is None
            &&& game.wine_prefix is None && game.process_name is None
            &&& game.cloud_id is None && game.cloud_dir is None && game.cloud_rejected.len() == 0
            &&& game.cloud_conclusion is None
            &&& game.scale_profile == profile::default_profile()
        }),
{
}

} // verus!
