//! Texts and JSON values: against what the standard library does with the same texts.

use std::path::{Path, PathBuf};

use kotori::json::{no_members, number, signed, text, with, Json};
use kotori::path::FsPath;
use kotori::text::chars::{
    ascii_lowercase, is_letter_or_digit, is_whitespace, lowercase, same_ignoring_ascii_case,
    to_lower,
};
use kotori::text::keyed::Keyed;
use kotori::text::number::{number_text, parse_u32, parse_u64, signed_text, wide_number_text};
use kotori::text::order::{comes_before, sort_positions, SortKey};
use kotori::text::search::{
    cut_once, has_char, has_text, is_blank, starts_with, trimmed, trimmed_start, without_prefix,
};
use kotori::text::split::{joined, lines_of, split_at_char, words_of};

const SAMPLES: [&str; 12] = [
    "",
    " ",
    "a",
    "  a b  ",
    "\u{3000}中文\u{3000}",
    "x=y=z",
    "one\r\ntwo\n\nthree",
    "tail\n",
    "\tA-b_C\u{85}",
    "İstanbul ß ΑΣ",
    "a--b",
    "=",
];

#[test]
fn texts_are_searched_as_the_standard_library_does() {
    for sample in SAMPLES {
        assert_eq!(trimmed(sample), sample.trim());
        assert_eq!(trimmed_start(sample), sample.trim_start());
        assert_eq!(is_blank(sample), sample.trim().is_empty());
        for needle in SAMPLES {
            assert_eq!(has_text(sample, needle), sample.contains(needle));
            assert_eq!(starts_with(sample, needle), sample.starts_with(needle));
            assert_eq!(without_prefix(sample, needle).as_deref(), sample.strip_prefix(needle));
            assert_eq!(comes_before(sample, needle), sample < needle);
            if !needle.is_empty() {
                let cut = sample.split_once(needle).map(|(a, b)| (a.to_string(), b.to_string()));
                assert_eq!(cut_once(sample, needle), cut);
            }
        }
        assert_eq!(has_char(sample, '='), sample.contains('='));
    }
}

#[test]
fn texts_are_split_as_the_standard_library_does() {
    for sample in SAMPLES {
        assert_eq!(split_at_char(sample, '='), sample.split('=').collect::<Vec<_>>());
        assert_eq!(split_at_char(sample, '-'), sample.split('-').collect::<Vec<_>>());
        assert_eq!(words_of(sample), sample.split_whitespace().collect::<Vec<_>>());
        assert_eq!(lines_of(sample), sample.lines().collect::<Vec<_>>());
        assert_eq!(joined(&split_at_char(sample, '-'), "-"), sample);
    }
}

#[test]
fn letters_are_those_of_unicode() {
    for sample in SAMPLES {
        assert_eq!(lowercase(sample), sample.to_lowercase());
        assert_eq!(ascii_lowercase(sample), sample.to_ascii_lowercase());
        for c in sample.chars() {
            assert_eq!(is_letter_or_digit(c), c.is_alphanumeric());
            assert_eq!(is_whitespace(c), c.is_whitespace());
            assert_eq!(to_lower(c), c.to_lowercase().collect::<Vec<_>>());
        }
    }
    assert!(same_ignoring_ascii_case("None", "nONE"));
    assert!(!same_ignoring_ascii_case("ä", "Ä"));
}

#[test]
fn numbers_are_written_and_read() {
    for n in [0, 7, 10, 4096, u64::MAX] {
        assert_eq!(number_text(n), n.to_string());
        assert_eq!(parse_u64(&n.to_string()), Some(n));
    }
    assert_eq!(wide_number_text(u128::MAX), u128::MAX.to_string());
    assert_eq!(signed_text(i64::MIN), i64::MIN.to_string());
    assert_eq!(signed_text(-5), "-5");
    for sample in ["", "+", "-1", "+12", "007", "1 ", "18446744073709551616", "4294967296", "x"] {
        assert_eq!(parse_u64(sample), sample.parse::<u64>().ok(), "{sample}");
        assert_eq!(parse_u32(sample), sample.parse::<u32>().ok(), "{sample}");
    }
}

#[test]
fn positions_are_sorted_by_both_keys() {
    let key = |first: &str, second: &str| SortKey {
        first: first.to_string(),
        second: second.to_string(),
    };
    let keys = vec![key("b", "1"), key("a", "2"), key("a", "1"), key("b", "1")];
    assert_eq!(sort_positions(&keys), vec![2, 1, 0, 3]);
}

#[test]
fn a_key_has_one_value() {
    let mut table: Keyed<u32> = Keyed::new();
    table.insert("a", 1);
    table.insert("b", 2);
    table.insert("a", 3);
    assert_eq!(table.get("a"), Some(&3));
    table.keep(&vec!["a".to_string()]);
    assert_eq!(table.get("b"), None);
    table.remove("a");
    assert!(table.get("a").is_none());
}

#[test]
fn json_is_read() {
    let value = Json::parse(r#"{"a": [1, -2, 1.5, null, true, "x"], "b": {"c": 18446744073709551615}}"#);
    let value = value.unwrap();
    let list = value.list_at("a").unwrap();
    assert_eq!(list[0].as_unsigned(), Some(1));
    assert_eq!(list[1].as_signed(), Some(-2));
    assert_eq!(list[1].as_unsigned(), None);
    assert!(list[2].as_signed().is_none() && matches!(&list[2], Json::Real(text) if text == "1.5"));
    assert!(list[3].is_null());
    assert_eq!(list[4].as_bool(), Some(true));
    assert_eq!(list[5].as_text(), Some("x"));
    assert_eq!(value.get("b").unwrap().number_at("c"), u64::MAX);
    assert!(value.get("missing").is_none());
    assert!(Json::parse("{").is_none());
}

#[test]
fn json_is_built_member_by_member() {
    let members = with(no_members(), "name", text("n"));
    let members = with(members, "size", number(3));
    let value = Json::Object(with(members, "delta", signed(-3)));
    assert_eq!(value.text_at("name"), Some("n"));
    assert_eq!(value.number_at("size"), 3);
    assert_eq!(value.get("delta").unwrap().as_signed(), Some(-3));
    assert_eq!(value.copy().text_at_or("other", "-"), "-");
}

#[test]
fn paths_are_taken_apart_as_the_standard_library_does() {
    for sample in [
        "", "/", "//", ".", "./", "..", "a", "a/", "a//b/c", "/a", "//a", "/a//b.toml", "./a", "a/.",
        "a/./b", "a//./b//", "/..", "../a", "a/..", "/.", "/./a", "a.b/./.", ".hidden", "a.", "a/b.c.d/",
        "..a", "a/..b", "//a//b//./c.exe//.",
    ] {
        let path = FsPath::from_text(sample);
        let own = Path::new(sample);
        let shown = |path: &Path| path.display().to_string();
        assert_eq!(path.parent().map(|dir| dir.text()), own.parent().map(shown), "{sample}");
        let name = path.file_name().map(|name| FsPath::from_bytes(name).text());
        assert_eq!(name.as_deref(), own.file_name().map(|name| name.to_str().unwrap()), "{sample}");
        // Behind two dots the standard library puts no extension.
        let odd = name.is_some_and(|name| name.starts_with(".."));
        for ext in ["bak", "", "toml.portable-bak"].iter().filter(|_| !odd) {
            let wanted = shown(&own.with_extension(ext));
            assert_eq!(path.with_extension(ext).text(), wanted, "{sample}");
        }
        let wanted = shown(&own.with_file_name("x.lock"));
        assert_eq!(path.with_file_name(&FsPath::from_text("x.lock")).text(), wanted, "{sample}");
        let wanted = shown(&own.join("x/y"));
        assert_eq!(path.join(&FsPath::from_text("x/y")).text(), wanted, "{sample}");
        for n in 0..=own.components().count() {
            let front: PathBuf = own.components().take(n).collect();
            let wanted = shown(own.strip_prefix(&front).unwrap());
            assert_eq!(path.remainder(n).text(), wanted, "{sample} behind {n}");
        }
    }
}
