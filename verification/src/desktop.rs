//! Talking to the desktop: which one it is, and the scripts that have KWin size a window.

use crate::path;
use crate::path::FsPath;
use crate::text::chars;
use crate::text::chars::ascii_lowercase;
use crate::text::glue::{glue2, glue3, glue4, glue5};
use crate::text::number;
use crate::text::number::{number_text, signed_text};
use crate::text::search;
use crate::text::search::has_text;
use vstd::prelude::*;
use vstd::utf8::*;

verus! {

pub const SERVICE: &'static str = "org.kde.KWin";

pub const SCRIPTING_INTERFACE: &'static str = "org.kde.kwin.Scripting";

pub const SCRIPTING_PATH: &'static str = "/Scripting";

pub const SCRIPT_INTERFACE: &'static str = "org.kde.kwin.Script";

/// The names under which scripts are loaded: one for each purpose, so that a new script takes
/// the place of the one before it.
pub const RESIZE_PLUGIN: &'static str = "kotori-scale";

pub const FULLSCREEN_PLUGIN: &'static str = "kotori-fullscreen";

pub open spec fn names_kde(desktop: Option<&str>) -> bool {
    match desktop {
        Some(desktop) => search::contains(chars::ascii_lower_text(desktop@), "kde"@),
        None => false,
    }
}

/// Whether the desktop is KDE Plasma, by the name that it goes by.
pub fn is_kde(desktop: Option<&str>) -> (yes: bool)
    ensures
        yes == names_kde(desktop),
{
    match desktop {
        Some(desktop) => has_text(ascii_lowercase(desktop).as_str(), "kde"),
        None => false,
    }
}

// ---------------------------------------------------------------------------------------------
// Scripts

pub const RESIZE_BODY: &'static str = ";
    let target = null;
    for (const w of workspace.windowList()) {
        if (w.pid === pid) { target = w; break; }
    }
    if (target === null) {
        print(\"kotori: 没有 pid 为 \" + pid + \" 的窗口\");
        return;
    }
    const out = target.output;
    const dpr = out ? out.devicePixelRatio : 1.0;
    const screen = out ? out.geometry : null;
    let q = Object.assign({}, target.frameGeometry);
    q.width = wantW / dpr;
    q.height = wantH / dpr;
    if (screen) {
        // Never larger than the screen, never pushed off it: the two ways a
        // rescale could otherwise make a game unreachable.
        q.width = Math.min(q.width, screen.width);
        q.height = Math.min(q.height, screen.height);
        q.x = Math.max(screen.x, Math.min(q.x, screen.x + screen.width - q.width));
        q.y = Math.max(screen.y, Math.min(q.y, screen.y + screen.height - q.height));
    }
    target.frameGeometry = q;
    print(\"kotori: pid \" + pid + \" → \" + Math.round(q.width) + \"x\" + Math.round(q.height)
        + \" 逻辑像素（\" + wantW + \"x\" + wantH + \" 物理像素，dpr \" + dpr + \"）\");
})();
";

pub const FULLSCREEN_BODY: &'static str = ";
    for (const w of workspace.windowList()) {
        if (w.pid === pid) {
            w.fullScreen = !w.fullScreen;
            print(\"kotori: pid \" + pid + \" 全屏 → \" + w.fullScreen);
            return;
        }
    }
    print(\"kotori: 没有 pid 为 \" + pid + \" 的窗口\");
})();
";

/// How every script starts: with the process whose window it is about.
pub open spec fn script_start(pid: u32) -> Seq<char> {
    "\n(() => {\n    const pid = "@ + number::decimal(pid as nat)
}

/// The script that gives a window a size. The size is in pixels of the screen; the script
/// turns it into the desktop's own units, and keeps the window on the screen.
pub open spec fn resize_words(pid: u32, width: u32, height: u32) -> Seq<char> {
    script_start(pid) + ";\n    const wantW = "@ + number::decimal(width as nat)
        + ";\n    const wantH = "@ + number::decimal(height as nat) + RESIZE_BODY@
}

/// The script that turns a window to full screen and back.
pub open spec fn fullscreen_words(pid: u32) -> Seq<char> {
    script_start(pid) + FULLSCREEN_BODY@
}

pub fn resize_script(pid: u32, width: u32, height: u32) -> (script: String)
    ensures
        script@ == resize_words(pid, width, height),
{
    let start = glue2("\n(() => {\n    const pid = ", number_text(pid as u64).as_str());
    let sizes = glue5(
        start.as_str(),
        ";\n    const wantW = ",
        number_text(width as u64).as_str(),
        ";\n    const wantH = ",
        number_text(height as u64).as_str(),
    );
    glue2(sizes.as_str(), RESIZE_BODY)
}

pub fn fullscreen_script(pid: u32) -> (script: String)
    ensures
        script@ == fullscreen_words(pid),
{
    glue3("\n(() => {\n    const pid = ", number_text(pid as u64).as_str(), FULLSCREEN_BODY)
}

/// Where a script is kept.
pub fn script_path(data_dir: &FsPath, plugin: &str) -> (file: FsPath)
    ensures
        file@ == path::join_path(
            path::join_path(data_dir@, encode_utf8("kwin"@)),
            encode_utf8(plugin@ + ".js"@),
        ),
{
    let name = glue2(plugin, ".js");
    data_dir.join(&FsPath::from_text("kwin")).join(&FsPath::from_text(name.as_str()))
}

/// The object under which KWin runs the script with this number.
pub fn script_object(id: i32) -> (object: String)
    ensures
        object@ == "/Scripting/Script"@ + number::signed_decimal(id as int),
{
    glue2("/Scripting/Script", signed_text(id as i64).as_str())
}

// ---------------------------------------------------------------------------------------------
// What can go wrong

/// What keeps KWin from doing what it was asked.
pub enum KdeError {
    Dbus(String),
    Io { plugin: String, source: String },
    Refused { plugin: String, message: String },
}

impl KdeError {
    pub open spec fn words(&self) -> Seq<char> {
        match *self {
            KdeError::Dbus(source) => "KWin 的 D-Bus 接口不可用（不是 KDE 会话？）："@ + source@,
            KdeError::Io { plugin, source } => "KWin 脚本 "@ + plugin@ + " 写不进去："@ + source@,
            KdeError::Refused { plugin, message } => "KWin 拒绝了脚本 "@ + plugin@ + "："@
                + message@,
        }
    }

    pub fn describe(&self) -> (text: String)
        ensures
            text@ == self.words(),
    {
        match self {
            KdeError::Dbus(source) => glue2(
                "KWin 的 D-Bus 接口不可用（不是 KDE 会话？）：",
                source.as_str(),
            ),
            KdeError::Io { plugin, source } => glue4(
                "KWin 脚本 ",
                plugin.as_str(),
                " 写不进去：",
                source.as_str(),
            ),
            KdeError::Refused { plugin, message } => glue4(
                "KWin 拒绝了脚本 ",
                plugin.as_str(),
                "：",
                message.as_str(),
            ),
        }
    }
}

// ---------------------------------------------------------------------------------------------
// What holds of the desktop

/// A desktop is KDE where its name has `kde` in it, in capitals or not; one without a name is not.
pub proof fn which_desktop_is_kde(name: &str)
    ensures
        names_kde(Some(name)) <==> search::contains(chars::ascii_lower_text(name@), "kde"@),
        !names_kde(None),
{
}

/// A script names its process first, and one that sizes a window then the width and the height.
pub proof fn a_script_names_its_numbers(pid: u32, width: u32, height: u32)
    ensures
        resize_words(pid, width, height) == "\n(() => {\n    const pid = "@ + number::decimal(
            pid as nat,
        ) + ";\n    const wantW = "@ + number::decimal(width as nat) + ";\n    const wantH = "@
            + number::decimal(height as nat) + RESIZE_BODY@,
        fullscreen_words(pid) == "\n(() => {\n    const pid = "@ + number::decimal(pid as nat)
            + FULLSCREEN_BODY@,
{
}

/// What went wrong is told with the words it came with.
pub proof fn problems_are_told_in_full(plugin: String, words: String)
    ensures
        KdeError::Dbus(words).words() == "KWin 的 D-Bus 接口不可用（不是 KDE 会话？）："@ + words@,
        (KdeError::Io { plugin, source: words }).words() == "KWin 脚本 "@ + plugin@ + " 写不进去："@
            + words@,
        (KdeError::Refused { plugin, message: words }).words() == "KWin 拒绝了脚本 "@ + plugin@ + "："@
            + words@,
{
}

} // verus!
