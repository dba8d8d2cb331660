//! What a file dialog hands back.

use kotori::path::FsPath;
use kotori::picker::{percent_decode, uri_to_path, Request, Want};

fn path_of(uri: &str) -> Option<String> {
    uri_to_path(uri).map(|path| path.text())
}

#[test]
fn a_plain_file_uri_becomes_the_path_behind_it() {
    assert_eq!(
        path_of("file:///games/demo/game.exe").as_deref(),
        Some("/games/demo/game.exe")
    );
}

#[test]
fn a_localhost_host_is_not_part_of_the_path() {
    assert_eq!(path_of("file://localhost/games/demo").as_deref(), Some("/games/demo"));
}

#[test]
fn non_ascii_names_come_back_readable() {
    let uri = "file:///games/%E5%B5%8C%E5%85%A5%E7%9A%84%E5%AD%A6%E5%9B%AD/save";
    assert_eq!(path_of(uri).as_deref(), Some("/games/嵌入的学园/save"));
}

#[test]
fn anything_that_is_not_a_local_file_is_refused() {
    assert_eq!(path_of("https://example.com/x"), None);
    assert_eq!(path_of("file:///bad%2"), None);
    assert_eq!(path_of("file:///%FF%FE"), None);
}

#[test]
fn a_request_says_what_it_wants() {
    let folder = Request::folder("挑游戏根目录".to_string(), Some(FsPath::from_text("/games")));
    assert_eq!(folder.want, Want::Folder);
    assert_eq!(folder.start.unwrap().text(), "/games");
    assert!(Request::exe("挑 exe".to_string(), None).start.is_none());
    assert_eq!(Request::exe("挑 exe".to_string(), None).want, Want::Exe);
}

#[test]
fn percent_signs_need_two_digits() {
    assert_eq!(percent_decode("a%20b").as_deref(), Some("a b"));
    assert_eq!(percent_decode("a%2Fb%25").as_deref(), Some("a/b%"));
    assert_eq!(percent_decode("plain").as_deref(), Some("plain"));
    assert_eq!(percent_decode("%zz"), None);
    assert_eq!(percent_decode("%"), None);
}

fn escaped(text: &str, capitals: bool) -> String {
    let mut out = String::new();
    for byte in text.as_bytes() {
        out += &if capitals { format!("%{byte:02X}") } else { format!("%{byte:02x}") };
    }
    out
}

#[test]
fn every_escaped_byte_is_read_back() {
    for text in ["", "a b", "100%", "游戏/目录", "é😀"] {
        assert_eq!(percent_decode(&escaped(text, true)).as_deref(), Some(text));
        assert_eq!(percent_decode(&escaped(text, false)).as_deref(), Some(text));
    }
    assert_eq!(percent_decode("plain/é").as_deref(), Some("plain/é"));
    // Piece by piece.
    assert_eq!(percent_decode("a%20b%2").as_deref(), None);
    assert_eq!(percent_decode("%E6%B8%B8x%20").as_deref(), Some("游x "));
}
