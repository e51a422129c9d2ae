//! Track metadata: what a tag reader found in a file, and what the indexer
//! makes of it when fields are missing.

use vstd::prelude::*;
use vstd::string::*;
use crate::paths::{
    directory_name,
    directory_name_of,
    file_stem,
    path_extension,
    path_file_stem,
    upper_directory_name,
    upper_directory_name_of,
};
use crate::text::to_chars;

verus! {

/// A picture embedded in a file's tag.
#[derive(Clone, Debug, PartialEq, Eq)]
pub struct Picture {
    pub mime_type: Option<String>,
    pub data: Vec<u8>,
}

/// A `Picture` as specifications see it: strings and vectors by their contents.
pub struct PictureView {
    pub mime_type: Option<Seq<char>>,
    pub data: Seq<u8>,
}

impl DeepView for Picture {
    type V = PictureView;

    open spec fn deep_view(&self) -> PictureView {
        PictureView { mime_type: self.mime_type.deep_view(), data: self.data@ }
    }
}

/// The fields of a file's primary tag, each as the tag reader found it.
#[derive(Clone, Debug, PartialEq, Eq)]
pub struct TagFields {
    pub title: Option<String>,
    pub artist: Option<String>,
    pub album_artist: Option<String>,
    pub album: Option<String>,
    pub genre: Option<String>,
    /// The release date, or failing that the recording date, as written.
    pub date: Option<String>,
    pub track: Option<u32>,
    pub track_total: Option<u32>,
    pub disc: Option<u32>,
    pub disc_total: Option<u32>,
    pub pictures: Vec<Picture>,
}

/// A `TagFields` as specifications see it: strings and vectors by their contents.
pub struct TagFieldsView {
    pub title: Option<Seq<char>>,
    pub artist: Option<Seq<char>>,
    pub album_artist: Option<Seq<char>>,
    pub album: Option<Seq<char>>,
    pub genre: Option<Seq<char>>,
    pub date: Option<Seq<char>>,
    pub track: Option<u32>,
    pub track_total: Option<u32>,
    pub disc: Option<u32>,
    pub disc_total: Option<u32>,
    pub pictures: Seq<PictureView>,
}

impl DeepView for TagFields {
    type V = TagFieldsView;

    open spec fn deep_view(&self) -> TagFieldsView {
        TagFieldsView {
            title: self.title.deep_view(),
            artist: self.artist.deep_view(),
            album_artist: self.album_artist.deep_view(),
            album: self.album.deep_view(),
            genre: self.genre.deep_view(),
            date: self.date.deep_view(),
            track: self.track,
            track_total: self.track_total,
            disc: self.disc,
            disc_total: self.disc_total,
            pictures: self.pictures.deep_view(),
        }
    }
}

/// Cover art taken from a tag: the image bytes and their media type.
#[derive(Clone, Debug, PartialEq, Eq)]
pub struct AlbumArt {
    pub data: Vec<u8>,
    pub mime_type: String,
}

/// An `AlbumArt` as specifications see it: strings and vectors by their contents.
pub struct AlbumArtView {
    pub data: Seq<u8>,
    pub mime_type: Seq<char>,
}

impl DeepView for AlbumArt {
    type V = AlbumArtView;

    open spec fn deep_view(&self) -> AlbumArtView {
        AlbumArtView { data: self.data@, mime_type: self.mime_type@ }
    }
}

/// The metadata of one track, complete: every field that the tag lacked has
/// its fallback.
#[derive(Clone, Debug, PartialEq, Eq)]
pub struct Metadata {
    pub title: String,
    pub artist: String,
    pub album_artist: String,
    pub album: String,
    pub album_art: Option<AlbumArt>,
    pub duration: u64,
    pub genres: Vec<String>,
    pub track_num: u32,
    pub total_tracks: u32,
    pub disc_num: u32,
    pub total_discs: u32,
    pub year: Option<u32>,
}

/// A `Metadata` as specifications see it: strings and vectors by their contents.
pub struct MetadataView {
    pub title: Seq<char>,
    pub artist: Seq<char>,
    pub album_artist: Seq<char>,
    pub album: Seq<char>,
    pub album_art: Option<AlbumArtView>,
    pub duration: u64,
    pub genres: Seq<Seq<char>>,
    pub track_num: u32,
    pub total_tracks: u32,
    pub disc_num: u32,
    pub total_discs: u32,
    pub year: Option<u32>,
}

impl DeepView for Metadata {
    type V = MetadataView;

    open spec fn deep_view(&self) -> MetadataView {
        MetadataView {
            title: self.title@,
            artist: self.artist@,
            album_artist: self.album_artist@,
            album: self.album@,
            album_art: self.album_art.deep_view(),
            duration: self.duration,
            genres: self.genres.deep_view(),
            track_num: self.track_num,
            total_tracks: self.total_tracks,
            disc_num: self.disc_num,
            total_discs: self.total_discs,
            year: self.year,
        }
    }
}

/// Why no metadata could be made for a file.
#[derive(Clone, Copy, Debug, PartialEq, Eq)]
pub enum MetadataError {
    /// The path has no final component to take a title from.
    NoFileStem,
}

/// `value` if there is one, else `fallback`.
pub open spec fn or_fallback<T>(value: Option<T>, fallback: T) -> T {
    match value {
        Some(v) => v,
        None => fallback,
    }
}

/// The length of the part of `s` before its first hyphen.
pub open spec fn head_len(s: Seq<char>) -> nat
    decreases s.len(),
{
    if s.len() == 0 || s[0] == '-' {
        0
    } else {
        1 + head_len(s.drop_first())
    }
}

/// Whether `c` is a decimal digit.
pub open spec fn is_digit(c: char) -> bool {
    '0' <= c && c <= '9'
}

/// Whether `s` is a non-empty run of decimal digits.
pub open spec fn is_numeral(s: Seq<char>) -> bool {
    s.len() > 0 && forall|i: int| 0 <= i < s.len() ==> is_digit(#[trigger] s[i])
}

/// The number that the decimal numeral `s` denotes.
pub open spec fn numeral_value(s: Seq<char>) -> nat
    decreases s.len(),
{
    if s.len() == 0 {
        0
    } else {
        (numeral_value(s.drop_last()) * 10 + (s.last() as u8 - '0' as u8)) as nat
    }
}

/// The year that a date gives: its part before the first hyphen, where that
/// is a decimal numeral that fits in 32 bits.
pub open spec fn year_of(date: Seq<char>) -> Option<u32> {
    let head = date.take(head_len(date) as int);
    if is_numeral(head) && numeral_value(head) <= u32::MAX {
        Some(numeral_value(head) as u32)
    } else {
        None
    }
}

/// The cover art that a tag offers: its first picture, taken for a JPEG where
/// it names no media type.
pub open spec fn embedded_art(pictures: Seq<PictureView>) -> Option<AlbumArtView> {
    if pictures.len() == 0 {
        None
    } else {
        Some(
            AlbumArtView {
                data: pictures[0].data,
                mime_type: or_fallback(pictures[0].mime_type, "image/jpeg"@),
            },
        )
    }
}

/// The genre list of a track: the tag's genre alone, or nothing.
pub open spec fn genres_of(genre: Option<Seq<char>>) -> Seq<Seq<char>> {
    match genre {
        Some(g) => seq![g],
        None => Seq::empty(),
    }
}

/// The metadata of the file at `file` whose stem is `stem`, given its tag
/// and its duration in seconds.
pub open spec fn metadata_of(
    tag: Option<TagFieldsView>,
    file: Seq<char>,
    stem: Seq<char>,
    duration: u64,
) -> MetadataView {
    let album = or_fallback(directory_name(file), "Unknown Album"@);
    let artist = or_fallback(upper_directory_name(file), "Unknown Artist"@);
    match tag {
        Some(t) => MetadataView {
            title: or_fallback(t.title, stem),
            artist: or_fallback(t.artist, artist),
            album_artist: or_fallback(t.album_artist, or_fallback(t.artist, artist)),
            album: or_fallback(t.album, album),
            album_art: embedded_art(t.pictures),
            duration,
            genres: genres_of(t.genre),
            track_num: or_fallback(t.track, 1),
            total_tracks: or_fallback(t.track_total, 1),
            disc_num: or_fallback(t.disc, 1),
            total_discs: or_fallback(t.disc_total, 1),
            year: match t.date {
                Some(d) => year_of(d),
                None => None,
            },
        },
        None => MetadataView {
            title: stem,
            artist,
            album_artist: artist,
            album,
            album_art: None,
            duration,
            genres: Seq::empty(),
            track_num: 1,
            total_tracks: 1,
            disc_num: 1,
            total_discs: 1,
            year: None,
        },
    }
}

/// What `parse_metadata_tags` returns for a file.
pub open spec fn parsed_metadata(tag: Option<TagFieldsView>, file: Seq<char>, duration: u64)
    -> Result<MetadataView, MetadataError> {
    match path_file_stem(file) {
        Some(stem) => Ok(metadata_of(tag, file, stem, duration)),
        None => Err(MetadataError::NoFileStem),
    }
}

/// The outcome of a parse with the metadata taken by its view.
pub open spec fn outcome_view(r: Result<Metadata, MetadataError>) -> Result<
    MetadataView,
    MetadataError,
> {
    match r {
        Ok(m) => Ok(m.deep_view()),
        Err(e) => Err(e),
    }
}

proof fn lemma_head_len(s: Seq<char>, n: int)
    requires
        0 <= n <= s.len(),
        forall|j: int| 0 <= j < n ==> s[j] != '-',
        n == s.len() || s[n] == '-',
    ensures
        head_len(s) == n,
    decreases n,
{
    if n > 0 {
        let rest = s.drop_first();
        assert forall|j: int| 0 <= j < n - 1 implies rest[j] != '-' by {
            assert(rest[j] == s[j + 1]);
        }
        lemma_head_len(rest, n - 1);
    }
}

/// Reads the year off a date: the part before the first hyphen, as a number.
pub fn parse_year(date: &str) -> (year: Option<u32>)
    ensures
        year == year_of(date@),
{
    let chars = to_chars(date);
    let mut i: usize = 0;
    let mut value: u64 = 0;
    let mut digits_only = true;
    let mut fits = true;
    while i < chars.len() && chars[i] != '-'
        invariant
            chars@ == date@,
            i <= chars.len(),
            forall|j: int| 0 <= j < i ==> chars@[j] != '-',
            digits_only == forall|j: int| 0 <= j < i ==> is_digit(#[trigger] chars@[j]),
            fits ==> value <= u32::MAX,
            digits_only && fits ==> value == numeral_value(chars@.take(i as int)),
            digits_only && !fits ==> numeral_value(chars@.take(i as int)) > u32::MAX,
        decreases chars.len() - i,
    {
        let c = chars[i];
        proof {
            let next = chars@.take(i + 1);
            assert(next.drop_last() == chars@.take(i as int));
            assert(next.last() == c);
        }
        if '0' <= c && c <= '9' {
            if fits {
                let d: u64 = (c as u8 - '0' as u8) as u64;
                value = value * 10 + d;
                if value > 0xffff_ffff {
                    fits = false;
                }
            }
        } else {
            digits_only = false;
        }
        i += 1;
    }
    proof {
        lemma_head_len(chars@, i as int);
        let head = chars@.take(i as int);
        assert(forall|j: int| 0 <= j < i ==> head[j] == chars@[j]);
        if !digits_only {
            let j = choose|j: int| 0 <= j < i && !is_digit(#[trigger] chars@[j]);
            assert(!is_digit(head[j]));
        }
    }
    if i > 0 && digits_only && fits {
        Some(value as u32)
    } else {
        None
    }
}

fn take_or(value: Option<String>, fallback: &str) -> (r: String)
    ensures
        r@ == or_fallback(value.deep_view(), fallback@),
{
    match value {
        Some(v) => v,
        None => String::from_str(fallback),
    }
}

fn number_or_one(value: Option<u32>) -> (r: u32)
    ensures
        r == or_fallback(value, 1),
{
    match value {
        Some(v) => v,
        None => 1,
    }
}

fn first_picture(pictures: Vec<Picture>) -> (r: Option<AlbumArt>)
    ensures
        r.deep_view() == embedded_art(pictures.deep_view()),
{
    let mut pictures = pictures;
    if pictures.len() == 0 {
        return None;
    }
    let ghost before = pictures.deep_view();
    let picture = pictures.swap_remove(0);
    assert(picture.deep_view() == before[0]);
    let Picture { mime_type, data } = picture;
    Some(AlbumArt { data, mime_type: take_or(mime_type, "image/jpeg") })
}

/// Completes the tag of the file at `file` into the metadata of a track.
///
/// A field that the tag lacks, or every field where there is no tag, takes its
/// fallback: the title is the file's stem, the album the name of the directory
/// that holds the file, the artist the name of the directory above it. Fails
/// only where the path has no stem.
pub fn parse_metadata_tags(tag: Option<TagFields>, file: &str, duration: u64) -> (r: Result<
    Metadata,
    MetadataError,
>)
    ensures
        outcome_view(r) == parsed_metadata(tag.deep_view(), file@, duration),
{
    let stem = match file_stem(file) {
        Some(stem) => stem,
        None => {
            return Err(MetadataError::NoFileStem);
        },
    };
    let album = take_or(directory_name_of(file), "Unknown Album");
    let artist = take_or(upper_directory_name_of(file), "Unknown Artist");
    match tag {
        Some(tag) => {
            let TagFields {
                title,
                artist: tag_artist,
                album_artist,
                album: tag_album,
                genre,
                date,
                track,
                track_total,
                disc,
                disc_total,
                pictures,
            } = tag;
            let artist = take_or(tag_artist, artist.as_str());
            let mut genres: Vec<String> = Vec::new();
            match genre {
                Some(g) => {
                    genres.push(g);
                },
                None => {},
            }
            assert(genres.deep_view() =~= genres_of(genre.deep_view()));
            let year = match date {
                Some(d) => parse_year(d.as_str()),
                None => None,
            };
            Ok(
                Metadata {
                    title: take_or(title, stem.as_str()),
                    album_artist: take_or(album_artist, artist.as_str()),
                    artist,
                    album: take_or(tag_album, album.as_str()),
                    album_art: first_picture(pictures),
                    duration,
                    genres,
                    track_num: number_or_one(track),
                    total_tracks: number_or_one(track_total),
                    disc_num: number_or_one(disc),
                    total_discs: number_or_one(disc_total),
                    year,
                },
            )
        },
        None => {
            let genres: Vec<String> = Vec::new();
            assert(genres.deep_view() =~= Seq::<Seq<char>>::empty());
            Ok(
            Metadata {
                title: stem,
                album_artist: artist.clone(),
                artist,
                album,
                album_art: None,
                duration,
                genres,
                track_num: 1,
                total_tracks: 1,
                disc_num: 1,
                total_discs: 1,
                year: None,
            },
        )
        },
    }
}

/// Metadata can be made for every file that has an extension, whatever its
/// tag holds: such a file has a stem to fall back on.
pub proof fn file_with_extension_has_metadata(
    tag: Option<TagFieldsView>,
    file: Seq<char>,
    duration: u64,
)
    requires
        path_extension(file) is Some,
    ensures
        parsed_metadata(tag, file, duration) is Ok,
{
}

} // verus!
