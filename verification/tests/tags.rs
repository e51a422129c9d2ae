use music_core::metadata::{
    parse_metadata_tags, parse_year, AlbumArt, Metadata, MetadataError, Picture, TagFields,
};

fn no_fields() -> TagFields {
    TagFields {
        title: None,
        artist: None,
        album_artist: None,
        album: None,
        genre: None,
        date: None,
        track: None,
        track_total: None,
        disc: None,
        disc_total: None,
        pictures: vec![],
    }
}

fn text(s: &str) -> Option<String> {
    Some(s.to_string())
}

#[test]
fn untagged_file_takes_its_names_from_the_path() {
    let m = parse_metadata_tags(None, "/roots/Alpha/Beta/x.flac", 12).unwrap();
    assert_eq!(
        m,
        Metadata {
            title: "x".to_string(),
            artist: "Alpha".to_string(),
            album_artist: "Alpha".to_string(),
            album: "Beta".to_string(),
            album_art: None,
            duration: 12,
            genres: vec![],
            track_num: 1,
            total_tracks: 1,
            disc_num: 1,
            total_discs: 1,
            year: None,
        }
    );
}

#[test]
fn empty_tag_takes_every_fallback() {
    let m = parse_metadata_tags(Some(no_fields()), "/roots/Alpha/Beta/x.flac", 3).unwrap();
    assert_eq!(m.title, "x");
    assert_eq!(m.album, "Beta");
    assert_eq!(m.artist, "Alpha");
    assert_eq!(m.album_artist, "Alpha");
    assert_eq!(m.album_art, None);
    assert_eq!(m.genres, Vec::<String>::new());
    assert_eq!((m.track_num, m.total_tracks, m.disc_num, m.total_discs), (1, 1, 1, 1));
    assert_eq!(m.year, None);
    assert_eq!(m.duration, 3);
}

#[test]
fn shallow_paths_have_unknown_album_and_artist() {
    let m = parse_metadata_tags(None, "/x.mp3", 0).unwrap();
    assert_eq!(m.title, "x");
    assert_eq!(m.album, "Unknown Album");
    assert_eq!(m.artist, "Unknown Artist");
    assert_eq!(m.album_artist, "Unknown Artist");

    let m = parse_metadata_tags(None, "/Beta/x.mp3", 0).unwrap();
    assert_eq!(m.album, "Beta");
    assert_eq!(m.artist, "Unknown Artist");
}

#[test]
fn title_fallback_is_the_stem() {
    let m = parse_metadata_tags(None, "/a/b/01 - Intro.live.mp3", 0).unwrap();
    assert_eq!(m.title, "01 - Intro.live");
}

#[test]
fn tag_fields_win_over_fallbacks() {
    let tag = TagFields {
        title: text("Hey"),
        artist: text("Artist"),
        album_artist: text("Various"),
        album: text("Album"),
        genre: text("Rock"),
        date: text("1968-08-26"),
        track: Some(3),
        track_total: Some(12),
        disc: Some(2),
        disc_total: Some(4),
        pictures: vec![],
    };
    let m = parse_metadata_tags(Some(tag), "/roots/Alpha/Beta/x.flac", 431).unwrap();
    assert_eq!(
        m,
        Metadata {
            title: "Hey".to_string(),
            artist: "Artist".to_string(),
            album_artist: "Various".to_string(),
            album: "Album".to_string(),
            album_art: None,
            duration: 431,
            genres: vec!["Rock".to_string()],
            track_num: 3,
            total_tracks: 12,
            disc_num: 2,
            total_discs: 4,
            year: Some(1968),
        }
    );
}

#[test]
fn album_artist_falls_back_to_the_artist_tag() {
    let tag = TagFields { artist: text("Artist"), ..no_fields() };
    let m = parse_metadata_tags(Some(tag), "/roots/Alpha/Beta/x.flac", 0).unwrap();
    assert_eq!(m.artist, "Artist");
    assert_eq!(m.album_artist, "Artist");

    let tag = TagFields { album_artist: text("Various"), ..no_fields() };
    let m = parse_metadata_tags(Some(tag), "/roots/Alpha/Beta/x.flac", 0).unwrap();
    assert_eq!(m.artist, "Alpha");
    assert_eq!(m.album_artist, "Various");
}

#[test]
fn first_picture_becomes_the_album_art() {
    let tag = TagFields {
        pictures: vec![
            Picture { mime_type: text("image/png"), data: vec![1, 2, 3] },
            Picture { mime_type: text("image/gif"), data: vec![4] },
        ],
        ..no_fields()
    };
    let m = parse_metadata_tags(Some(tag), "/a/b/c.mp3", 0).unwrap();
    assert_eq!(
        m.album_art,
        Some(AlbumArt { data: vec![1, 2, 3], mime_type: "image/png".to_string() })
    );
}

#[test]
fn picture_without_media_type_counts_as_jpeg() {
    let tag =
        TagFields { pictures: vec![Picture { mime_type: None, data: vec![9] }], ..no_fields() };
    let m = parse_metadata_tags(Some(tag), "/a/b/c.mp3", 0).unwrap();
    assert_eq!(m.album_art, Some(AlbumArt { data: vec![9], mime_type: "image/jpeg".to_string() }));
}

#[test]
fn path_without_a_stem_gives_no_metadata() {
    assert_eq!(parse_metadata_tags(None, "/a/b/..", 0), Err(MetadataError::NoFileStem));
    assert_eq!(parse_metadata_tags(None, "/", 0), Err(MetadataError::NoFileStem));
    assert_eq!(parse_metadata_tags(Some(no_fields()), "", 0), Err(MetadataError::NoFileStem));
}

#[test]
fn year_is_the_part_before_the_first_hyphen() {
    assert_eq!(parse_year("1983"), Some(1983));
    assert_eq!(parse_year("1983-01-02"), Some(1983));
    assert_eq!(parse_year("1983-01-02T10:24:08Z"), Some(1983));
    assert_eq!(parse_year("83-01"), Some(83));
    assert_eq!(parse_year("0"), Some(0));
    assert_eq!(parse_year("007"), Some(7));
    assert_eq!(parse_year("2024-"), Some(2024));
    assert_eq!(parse_year("19830102"), Some(19830102));
}

#[test]
fn year_that_is_no_number_is_none() {
    assert_eq!(parse_year(""), None);
    assert_eq!(parse_year("-1983"), None);
    assert_eq!(parse_year("abcd"), None);
    assert_eq!(parse_year("19a3-01"), None);
    assert_eq!(parse_year(" 1983"), None);
    assert_eq!(parse_year("1983 -01"), None);
    assert_eq!(parse_year("+1983"), None);
    assert_eq!(parse_year("1983/01/02"), None);
}

#[test]
fn year_must_fit_in_32_bits() {
    assert_eq!(parse_year("4294967295"), Some(u32::MAX));
    assert_eq!(parse_year("4294967296"), None);
    assert_eq!(parse_year("99999999999999999999999999-01"), None);
    assert_eq!(parse_year("00000000000000000000004294967295"), Some(u32::MAX));
}

#[test]
fn unparseable_date_leaves_the_year_out() {
    let tag = TagFields { date: text("sometime"), ..no_fields() };
    let m = parse_metadata_tags(Some(tag), "/a/b/c.mp3", 0).unwrap();
    assert_eq!(m.year, None);
}
