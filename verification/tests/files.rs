use music_core::paths::{
    directory_name_of, extension, file_stem, in_same_directory, is_animated_cover_file,
    is_audio_file, is_cover_file, is_hidden_file, split_name, upper_directory_name_of,
};
use std::path::Path;
use music_core::scan::{entry_step, link_step, progress_due, EntryStep};

#[test]
fn resource_forks_are_hidden() {
    assert!(is_hidden_file("/music/._track.mp3"));
    assert!(is_hidden_file("._cover.jpg"));
    assert!(!is_hidden_file("/music/track.mp3"));
    assert!(!is_hidden_file("/music/.hidden.mp3"));
    assert!(!is_hidden_file("/music/_.mp3"));
    // Only the final component counts.
    assert!(!is_hidden_file("/music/._dir/track.mp3"));
}

#[test]
fn audio_files_go_by_extension() {
    for ext in ["wav", "wave", "mp3", "m4a", "aac", "ogg", "flac", "webm", "caf"] {
        assert!(is_audio_file(&format!("/music/a.{ext}")), "{ext}");
    }
    for ext in ["txt", "jpg", "mp4", "mov", "mp", "mp33", "opus"] {
        assert!(!is_audio_file(&format!("/music/a.{ext}")), "{ext}");
    }
    assert!(!is_audio_file("/music/mp3"));
    assert!(!is_audio_file("/music/.mp3"));
    assert!(!is_audio_file("/music.mp3/readme"));
}

#[test]
fn audio_extensions_match_in_any_case() {
    assert!(is_audio_file("/music/a.MP3"));
    assert!(is_audio_file("/music/a.Flac"));
    assert!(is_audio_file("/music/a.WAVE"));
}

#[test]
fn cover_files_are_named_cover() {
    for name in ["cover.jpg", "cover.jpeg", "cover.png", "cover.gif", "Cover.JPG", "COVER.Png"] {
        assert!(is_cover_file(&format!("/music/album/{name}")), "{name}");
    }
    for name in ["cover.bmp", "cover", "covers.jpg", "front.jpg", "cover.jpg.txt", "anim.mp4"] {
        assert!(!is_cover_file(&format!("/music/album/{name}")), "{name}");
    }
}

#[test]
fn animated_covers_are_named_anim() {
    for name in ["anim.mp4", "anim.webm", "anim.mov", "ANIM.MOV", "Anim.Mp4"] {
        assert!(is_animated_cover_file(&format!("/music/album/{name}")), "{name}");
    }
    for name in ["anim.gif", "anim", "animation.mp4", "cover.mp4", "anim.mp3"] {
        assert!(!is_animated_cover_file(&format!("/music/album/{name}")), "{name}");
    }
}

#[test]
fn files_of_one_directory_lie_together() {
    assert!(in_same_directory("/a/b/cover.png", "/a/b/01.mp3"));
    assert!(!in_same_directory("/a/b/cover.png", "/a/c/01.mp3"));
    assert!(!in_same_directory("/a/b/cover.png", "/a/b/c/01.mp3"));
    assert!(in_same_directory("cover.png", "01.mp3"));
    assert!(!in_same_directory("/", "/"));
}

#[test]
fn directory_names_come_from_the_path() {
    assert_eq!(directory_name_of("/roots/Alpha/Beta/x.flac"), Some("Beta".to_string()));
    assert_eq!(upper_directory_name_of("/roots/Alpha/Beta/x.flac"), Some("Alpha".to_string()));
    assert_eq!(directory_name_of("/x.flac"), None);
    assert_eq!(upper_directory_name_of("/Beta/x.flac"), None);
    assert_eq!(directory_name_of("x.flac"), None);
    assert_eq!(directory_name_of("/a/Vol. 1/x.flac"), Some("Vol. 1".to_string()));
}

#[test]
fn directory_entries_are_walked_included_or_followed() {
    assert_eq!(entry_step(true, false, false), EntryStep::Descend);
    assert_eq!(entry_step(false, true, false), EntryStep::Include);
    assert_eq!(entry_step(false, false, true), EntryStep::FollowLink);
    assert_eq!(entry_step(false, false, false), EntryStep::Skip);
    assert_eq!(entry_step(true, true, true), EntryStep::Descend);
    assert_eq!(entry_step(false, true, true), EntryStep::Include);
}

#[test]
fn link_targets_are_walked_or_included() {
    assert_eq!(link_step(true), EntryStep::Descend);
    assert_eq!(link_step(false), EntryStep::Include);
}

#[test]
fn progress_is_due_after_more_than_a_hundredth() {
    // One file of a hundred is exactly a hundredth: not more.
    assert!(!progress_due(1, 0, 100));
    assert!(progress_due(2, 0, 100));
    assert!(progress_due(1, 0, 99));
    assert!(progress_due(1, 0, 1));
    assert!(!progress_due(10, 0, 1000));
    assert!(progress_due(11, 0, 1000));
    assert!(!progress_due(20, 10, 1000));
    assert!(progress_due(21, 10, 1000));
}

#[test]
fn progress_is_never_due_without_progress() {
    assert!(!progress_due(0, 0, 10));
    assert!(!progress_due(5, 5, 10));
    assert!(!progress_due(3, 5, 10));
    assert!(!progress_due(0, 0, 0));
    assert!(progress_due(u64::MAX, 0, u64::MAX));
}

#[test]
fn names_split_at_the_last_dot() {
    assert_eq!(split_name("track.mp3"), ("track".to_string(), Some("mp3".to_string())));
    assert_eq!(split_name("a.tar.gz"), ("a.tar".to_string(), Some("gz".to_string())));
    assert_eq!(split_name("track."), ("track".to_string(), Some(String::new())));
    assert_eq!(split_name("a..b"), ("a.".to_string(), Some("b".to_string())));
    assert_eq!(split_name("\u{e9}t\u{e9}.flac"), ("\u{e9}t\u{e9}".to_string(), Some("flac".to_string())));
}

#[test]
fn names_without_an_inner_dot_do_not_split() {
    assert_eq!(split_name("track"), ("track".to_string(), None));
    assert_eq!(split_name(".hidden"), (".hidden".to_string(), None));
    assert_eq!(split_name(".."), ("..".to_string(), None));
    assert_eq!(split_name("."), (".".to_string(), None));
    assert_eq!(split_name(""), (String::new(), None));
}

#[test]
fn dotted_names_with_an_inner_dot_split() {
    assert_eq!(split_name("..."), ("..".to_string(), Some(String::new())));
    assert_eq!(split_name(".a.b"), (".a".to_string(), Some("b".to_string())));
    assert_eq!(split_name("..a"), (".".to_string(), Some("a".to_string())));
}

#[test]
fn stem_and_extension_agree_with_the_platform() {
    let paths = [
        "/music/track.mp3",
        "/music/a.tar.gz",
        "/music/.hidden",
        "/music/.hidden.mp3",
        "/music/track",
        "/music/track.",
        "/music/a..b",
        "/music/...",
        "/music/..a",
        "/music/dir.d/track",
        "/music/dir/",
        "/music/..",
        "/music/.",
        "track.flac",
        "",
        "/",
        "/music//track.ogg",
        "/music/./track.ogg",
        "/mus\u{ef}c/\u{e9}t\u{e9}.flac",
        "C:\\music\\track.mp3",
    ];
    for path in paths {
        let p = Path::new(path);
        assert_eq!(
            file_stem(path),
            p.file_stem().map(|s| s.to_str().unwrap().to_string()),
            "{path}"
        );
        assert_eq!(
            extension(path),
            p.extension().map(|s| s.to_str().unwrap().to_string()),
            "{path}"
        );
    }
}
