use music_core::ident::{album_id, idify, strip, track_id};
use music_core::text::{decimal_string, same_text, starts_with, to_ascii_lowercase, to_chars};

fn is_hex_id(id: &str) -> bool {
    id.len() == 32 && id.chars().all(|c| c.is_ascii_digit() || ('a'..='f').contains(&c))
}

#[test]
fn the_beatles_has_its_golden_id() {
    assert_eq!(idify("The Beatles"), "ff9f90893603fffc16cffa8d11c8292c");
}

#[test]
fn id_of_the_empty_name_is_the_digest_of_nothing() {
    assert_eq!(idify(""), "d41d8cd98f00b204e9800998ecf8427e");
    assert_eq!(idify("!?"), "d41d8cd98f00b204e9800998ecf8427e");
}

#[test]
fn ids_are_32_lowercase_hex_characters() {
    for name in ["", "The Beatles", "AC/DC", "Sigur R\u{f3}s", "  ", "a-b-c", "\u{1F3B5}"] {
        assert!(is_hex_id(&idify(name)), "{name}");
    }
    assert!(is_hex_id(&album_id("Abbey Road", &idify("The Beatles"))));
    assert!(is_hex_id(&track_id("Come Together", &idify("The Beatles"), &idify("x"))));
}

#[test]
fn ids_ignore_case_and_stripped_characters() {
    assert_eq!(idify("THE BEATLES"), idify("the beatles"));
    assert_eq!(idify("The Beatles!"), idify("The Beatles"));
    assert_eq!(idify("AC/DC"), idify("acdc"));
    assert_eq!(idify("Bj\u{f6}rk"), idify("bjrk"));
    assert_eq!(idify("a_b"), idify("ab"));
}

#[test]
fn ids_keep_spaces_hyphens_and_digits() {
    assert_ne!(idify("a b"), idify("ab"));
    assert_ne!(idify("a-b"), idify("ab"));
    assert_ne!(idify("track 1"), idify("track 2"));
    assert_ne!(idify("The Beatles"), idify("The Beetles"));
}

#[test]
fn ids_lowercase_by_the_unicode_rules() {
    // The Kelvin sign lowercases to a plain `k`, which is kept.
    assert_eq!(idify("\u{212A}"), idify("k"));
    assert_eq!(idify("\u{212A}"), "8ce4b16b22b58894aa86c421e8759df3");
    // A capital I with a dot above lowercases to `i` and a combining dot.
    assert_eq!(idify("\u{130}"), idify("i"));
}

#[test]
fn strip_keeps_only_plain_characters() {
    assert_eq!(strip("the beatles"), "the beatles");
    assert_eq!(strip("The Beatles"), "he eatles");
    assert_eq!(strip("a_b.c-d 9!"), "abc-d 9");
    assert_eq!(strip(""), "");
    assert_eq!(strip("\u{e9}\u{1F3B5}"), "");
}

#[test]
fn album_id_is_the_id_of_name_hyphen_artist_id() {
    let artist = idify("Artist");
    assert_eq!(artist, "0441f9e2d94c39a70e21b83829259aa4");
    let album = album_id("Album", &artist);
    assert_eq!(album, "d6320b2e732a1a940c896e8a6afa4d6d");
    assert_eq!(album, idify(&format!("Album-{artist}")));
}

#[test]
fn track_id_is_the_id_of_title_artist_id_album_id() {
    let artist = idify("Artist");
    let album = album_id("Album", &artist);
    let track = track_id("Hey", &artist, &album);
    assert_eq!(track, "4e85a18bdca0492a339c246ba7c8ac5b");
    assert_eq!(track, idify(&format!("Hey-{artist}-{album}")));
    assert_eq!(track_id("Jude", &artist, &album), "f44fd8559e1f3f3a7a3d83e2c555cefc");
}

#[test]
fn decimal_string_writes_numbers_as_usual() {
    assert_eq!(decimal_string(0), "0");
    assert_eq!(decimal_string(7), "7");
    assert_eq!(decimal_string(10), "10");
    assert_eq!(decimal_string(1000), "1000");
    assert_eq!(decimal_string(1_024_000), "1024000");
    assert_eq!(decimal_string(u64::MAX), "18446744073709551615");
}

#[test]
fn ascii_lowercase_leaves_other_characters_alone() {
    assert_eq!(to_ascii_lowercase("MP3"), "mp3");
    assert_eq!(to_ascii_lowercase("CoVeR"), "cover");
    assert_eq!(to_ascii_lowercase("az AZ @[`{"), "az az @[`{");
    assert_eq!(to_ascii_lowercase("\u{c9}T\u{c9}"), "\u{c9}t\u{c9}");
}

#[test]
fn text_helpers_compare_by_characters() {
    assert!(same_text("abc", "abc"));
    assert!(!same_text("abc", "abd"));
    assert!(!same_text("abc", "ab"));
    assert!(same_text("", ""));
    assert!(starts_with("._file", "._"));
    assert!(starts_with("abc", ""));
    assert!(!starts_with(".", "._"));
    assert!(!starts_with("a._", "._"));
    assert_eq!(to_chars("h\u{e9}!"), vec!['h', '\u{e9}', '!']);
}
