//! Talking to the window manager of KDE.

use kotori::desktop::{
    fullscreen_script, is_kde, resize_script, script_object, script_path, KdeError,
    FULLSCREEN_PLUGIN, RESIZE_PLUGIN,
};
use kotori::path::FsPath;

#[test]
fn a_script_names_its_window_and_its_size() {
    let script = resize_script(4_242_424, 1600, 900);
    assert!(script.contains("const pid = 4242424;"));
    assert!(script.contains("const wantW = 1600;"));
    assert!(script.contains("const wantH = 900;"));
    assert!(script.contains("frameGeometry"));
    let script = fullscreen_script(17);
    assert!(script.contains("const pid = 17;"));
    assert!(script.contains("fullScreen"));
    assert_ne!(RESIZE_PLUGIN, FULLSCREEN_PLUGIN);
}

#[test]
fn scripts_lie_with_the_data() {
    let file = script_path(&FsPath::from_text("/home/u/.local/share/kotori"), RESIZE_PLUGIN);
    assert_eq!(file.text(), "/home/u/.local/share/kotori/kwin/kotori-scale.js");
    assert_eq!(script_object(3), "/Scripting/Script3");
    assert_eq!(script_object(-1), "/Scripting/Script-1");
}

#[test]
fn the_desktop_is_told_by_its_name() {
    assert!(is_kde(Some("KDE")));
    assert!(is_kde(Some("ubuntu:kde")));
    assert!(!is_kde(Some("niri")));
    assert!(!is_kde(None));
}

#[test]
fn a_problem_is_put_into_words() {
    assert!(KdeError::Dbus("x".to_string()).describe().contains("D-Bus"));
    let io = KdeError::Io { plugin: "p".to_string(), source: "disk".to_string() };
    assert_eq!(io.describe(), "KWin 脚本 p 写不进去：disk");
    let refused = KdeError::Refused { plugin: "p".to_string(), message: "no".to_string() };
    assert_eq!(refused.describe(), "KWin 拒绝了脚本 p：no");
}
