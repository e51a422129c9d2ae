//! The library snapshot: tracks, albums and artists that refer to one another
//! by identifier, and what it means for a snapshot to be consistent.

use vstd::prelude::*;
use vstd::string::*;
use crate::text::same_text;

verus! {

/// A point in time: nanoseconds since the Unix epoch, and the offset from UTC,
/// in seconds, that it is written with.
#[derive(Clone, Copy, Debug, PartialEq, Eq)]
pub struct Timestamp {
    pub unix_nanos: i128,
    pub offset_seconds: i32,
}

/// One audio file of the library.
#[derive(Clone, Debug, PartialEq, Eq)]
pub struct Track {
    pub id: String,
    /// The path of the file, as it was found on disk.
    pub location: String,
    /// Where the track comes from, such as `local`.
    pub kind: Option<String>,
    pub title: String,
    pub artist_id: String,
    pub album_id: String,
    pub album_art: Option<String>,
    pub animated_album_art: Option<String>,
    pub genres: Vec<String>,
    /// The playing time in seconds.
    pub duration: u64,
    pub track_num: u32,
    pub total_tracks: u32,
    pub disc_num: u32,
    pub total_discs: u32,
    pub created_at: Timestamp,
    pub last_played_at: Timestamp,
}

/// A `Track` as specifications see it: strings and vectors by their contents.
pub struct TrackView {
    pub id: Seq<char>,
    pub location: Seq<char>,
    pub kind: Option<Seq<char>>,
    pub title: Seq<char>,
    pub artist_id: Seq<char>,
    pub album_id: Seq<char>,
    pub album_art: Option<Seq<char>>,
    pub animated_album_art: Option<Seq<char>>,
    pub genres: Seq<Seq<char>>,
    pub duration: u64,
    pub track_num: u32,
    pub total_tracks: u32,
    pub disc_num: u32,
    pub total_discs: u32,
    pub created_at: Timestamp,
    pub last_played_at: Timestamp,
}

impl DeepView for Track {
    type V = TrackView;

    open spec fn deep_view(&self) -> TrackView {
        TrackView {
            id: self.id@,
            location: self.location@,
            kind: self.kind.deep_view(),
            title: self.title@,
            artist_id: self.artist_id@,
            album_id: self.album_id@,
            album_art: self.album_art.deep_view(),
            animated_album_art: self.animated_album_art.deep_view(),
            genres: self.genres.deep_view(),
            duration: self.duration,
            track_num: self.track_num,
            total_tracks: self.total_tracks,
            disc_num: self.disc_num,
            total_discs: self.total_discs,
            created_at: self.created_at,
            last_played_at: self.last_played_at,
        }
    }
}

/// An album. Its `artist_id` is that of the album artist, which need not be
/// the artist of any of its tracks.
#[derive(Clone, Debug, PartialEq, Eq)]
pub struct Album {
    pub id: String,
    pub name: String,
    pub genres: Vec<String>,
    pub artist_id: String,
    pub album_art: Option<String>,
    pub animated_album_art: Option<String>,
    pub created_at: Timestamp,
    pub year: Option<u32>,
}

/// An `Album` as specifications see it: strings and vectors by their contents.
pub struct AlbumView {
    pub id: Seq<char>,
    pub name: Seq<char>,
    pub genres: Seq<Seq<char>>,
    pub artist_id: Seq<char>,
    pub album_art: Option<Seq<char>>,
    pub animated_album_art: Option<Seq<char>>,
    pub created_at: Timestamp,
    pub year: Option<u32>,
}

impl DeepView for Album {
    type V = AlbumView;

    open spec fn deep_view(&self) -> AlbumView {
        AlbumView {
            id: self.id@,
            name: self.name@,
            genres: self.genres.deep_view(),
            artist_id: self.artist_id@,
            album_art: self.album_art.deep_view(),
            animated_album_art: self.animated_album_art.deep_view(),
            created_at: self.created_at,
            year: self.year,
        }
    }
}

/// An artist.
#[derive(Clone, Debug, PartialEq, Eq)]
pub struct Artist {
    pub id: String,
    pub name: String,
    pub genres: Vec<String>,
    pub created_at: Timestamp,
}

/// An `Artist` as specifications see it: strings and vectors by their contents.
pub struct ArtistView {
    pub id: Seq<char>,
    pub name: Seq<char>,
    pub genres: Seq<Seq<char>>,
    pub created_at: Timestamp,
}

impl DeepView for Artist {
    type V = ArtistView;

    open spec fn deep_view(&self) -> ArtistView {
        ArtistView {
            id: self.id@,
            name: self.name@,
            genres: self.genres.deep_view(),
            created_at: self.created_at,
        }
    }
}

/// A snapshot of the whole library.
#[derive(Clone, Debug, PartialEq, Eq)]
pub struct Library {
    pub tracks: Vec<Track>,
    pub albums: Vec<Album>,
    pub artists: Vec<Artist>,
}

/// A `Library` as specifications see it: strings and vectors by their contents.
pub struct LibraryView {
    pub tracks: Seq<TrackView>,
    pub albums: Seq<AlbumView>,
    pub artists: Seq<ArtistView>,
}

impl DeepView for Library {
    type V = LibraryView;

    open spec fn deep_view(&self) -> LibraryView {
        LibraryView {
            tracks: self.tracks.deep_view(),
            albums: self.albums.deep_view(),
            artists: self.artists.deep_view(),
        }
    }
}

/// Some artist of `artists` has the identifier `id`.
pub open spec fn has_artist(artists: Seq<ArtistView>, id: Seq<char>) -> bool {
    exists|i: int| 0 <= i < artists.len() && (#[trigger] artists[i]).id == id
}

/// Some album of `albums` has the identifier `id`.
pub open spec fn has_album(albums: Seq<AlbumView>, id: Seq<char>) -> bool {
    exists|i: int| 0 <= i < albums.len() && (#[trigger] albums[i]).id == id
}

/// Some track of `tracks` has the identifier `id` and lies on the album
/// `album_id`.
pub open spec fn has_track(tracks: Seq<TrackView>, id: Seq<char>, album_id: Seq<char>) -> bool {
    exists|i: int|
        0 <= i < tracks.len() && (#[trigger] tracks[i]).id == id && tracks[i].album_id == album_id
}

/// Some track of `tracks` is the file at `location`.
pub open spec fn has_location(tracks: Seq<TrackView>, location: Seq<char>) -> bool {
    exists|i: int| 0 <= i < tracks.len() && (#[trigger] tracks[i]).location == location
}

/// Some track of `tracks` lies on the album `album_id`.
pub open spec fn album_in_use(tracks: Seq<TrackView>, album_id: Seq<char>) -> bool {
    exists|i: int| 0 <= i < tracks.len() && (#[trigger] tracks[i]).album_id == album_id
}

/// Some track of `tracks` is by the artist `artist_id`.
pub open spec fn artist_in_use(tracks: Seq<TrackView>, artist_id: Seq<char>) -> bool {
    exists|i: int| 0 <= i < tracks.len() && (#[trigger] tracks[i]).artist_id == artist_id
}

/// Every track's artist and album are in the library.
pub open spec fn tracks_resolve(lib: LibraryView) -> bool {
    forall|i: int|
        0 <= i < lib.tracks.len() ==> has_artist(lib.artists, (#[trigger] lib.tracks[i]).artist_id)
            && has_album(lib.albums, lib.tracks[i].album_id)
}

/// Every album's artist is in the library.
pub open spec fn albums_resolve(lib: LibraryView) -> bool {
    forall|i: int|
        0 <= i < lib.albums.len() ==> has_artist(lib.artists, (#[trigger] lib.albums[i]).artist_id)
}

/// Every album and every artist is mentioned by some track.
pub open spec fn nothing_unused(lib: LibraryView) -> bool {
    &&& forall|i: int|
        0 <= i < lib.albums.len() ==> album_in_use(lib.tracks, (#[trigger] lib.albums[i]).id)
    &&& forall|i: int|
        0 <= i < lib.artists.len() ==> artist_in_use(lib.tracks, (#[trigger] lib.artists[i]).id)
}

/// No two tracks are the same file.
pub open spec fn locations_distinct(tracks: Seq<TrackView>) -> bool {
    forall|i: int, j: int|
        0 <= i < j < tracks.len() ==> (#[trigger] tracks[i]).location != (
        #[trigger] tracks[j]).location
}

/// The library is consistent: every track has its artist and its album in
/// the library, and no file is two tracks.
pub open spec fn consistent(lib: LibraryView) -> bool {
    tracks_resolve(lib) && locations_distinct(lib.tracks)
}

/// The empty library.
pub open spec fn empty_library() -> LibraryView {
    LibraryView { tracks: Seq::empty(), albums: Seq::empty(), artists: Seq::empty() }
}

impl Library {
    /// The library is consistent: every track has its artist and its album
    /// in it, and no file is two tracks.
    pub open spec fn well_formed(&self) -> bool {
        consistent(self.deep_view())
    }

    /// The empty library.
    pub fn new() -> (library: Library)
        ensures
            library.deep_view() == empty_library(),
            library.well_formed(),
            nothing_unused(library.deep_view()),
    {
        let library = Library { tracks: Vec::new(), albums: Vec::new(), artists: Vec::new() };
        assert(library.tracks.deep_view() =~= Seq::<TrackView>::empty());
        assert(library.albums.deep_view() =~= Seq::<AlbumView>::empty());
        assert(library.artists.deep_view() =~= Seq::<ArtistView>::empty());
        library
    }
}

/// Pushing onto a vector pushes the element's view onto the vector's view.
pub(crate) proof fn lemma_deep_view_push<T: DeepView>(before: Vec<T>, after: Vec<T>, x: T)
    requires
        after@ == before@.push(x),
    ensures
        after.deep_view() == before.deep_view().push(x.deep_view()),
{
    assert(after.deep_view() =~= before.deep_view().push(x.deep_view()));
}

pub(crate) fn knows_artist(artists: &Vec<Artist>, id: &str) -> (r: bool)
    ensures
        r == has_artist(artists.deep_view(), id@),
{
    let mut i: usize = 0;
    while i < artists.len()
        invariant
            i <= artists.len(),
            forall|j: int| 0 <= j < i ==> (#[trigger] artists.deep_view()[j]).id != id@,
        decreases artists.len() - i,
    {
        if same_text(artists[i].id.as_str(), id) {
            assert(artists.deep_view()[i as int].id == id@);
            return true;
        }
        i += 1;
    }
    false
}

pub(crate) fn knows_album(albums: &Vec<Album>, id: &str) -> (r: bool)
    ensures
        r == has_album(albums.deep_view(), id@),
{
    let mut i: usize = 0;
    while i < albums.len()
        invariant
            i <= albums.len(),
            forall|j: int| 0 <= j < i ==> (#[trigger] albums.deep_view()[j]).id != id@,
        decreases albums.len() - i,
    {
        if same_text(albums[i].id.as_str(), id) {
            assert(albums.deep_view()[i as int].id == id@);
            return true;
        }
        i += 1;
    }
    false
}

pub(crate) fn knows_track(tracks: &Vec<Track>, id: &str, album_id: &str) -> (r: bool)
    ensures
        r == has_track(tracks.deep_view(), id@, album_id@),
{
    let mut i: usize = 0;
    while i < tracks.len()
        invariant
            i <= tracks.len(),
            forall|j: int|
                0 <= j < i ==> !((#[trigger] tracks.deep_view()[j]).id == id@
                    && tracks.deep_view()[j].album_id == album_id@),
        decreases tracks.len() - i,
    {
        if same_text(tracks[i].id.as_str(), id) && same_text(
            tracks[i].album_id.as_str(),
            album_id,
        ) {
            assert(tracks.deep_view()[i as int].id == id@);
            return true;
        }
        i += 1;
    }
    false
}

pub(crate) fn knows_location(tracks: &Vec<Track>, location: &str) -> (r: bool)
    ensures
        r == has_location(tracks.deep_view(), location@),
{
    let mut i: usize = 0;
    while i < tracks.len()
        invariant
            i <= tracks.len(),
            forall|j: int| 0 <= j < i ==> (#[trigger] tracks.deep_view()[j]).location != location@,
        decreases tracks.len() - i,
    {
        if same_text(tracks[i].location.as_str(), location) {
            assert(tracks.deep_view()[i as int].location == location@);
            return true;
        }
        i += 1;
    }
    false
}

pub(crate) fn uses_album(tracks: &Vec<Track>, album_id: &str) -> (r: bool)
    ensures
        r == album_in_use(tracks.deep_view(), album_id@),
{
    let mut i: usize = 0;
    while i < tracks.len()
        invariant
            i <= tracks.len(),
            forall|j: int| 0 <= j < i ==> (#[trigger] tracks.deep_view()[j]).album_id != album_id@,
        decreases tracks.len() - i,
    {
        if same_text(tracks[i].album_id.as_str(), album_id) {
            assert(tracks.deep_view()[i as int].album_id == album_id@);
            return true;
        }
        i += 1;
    }
    false
}

pub(crate) fn uses_artist(tracks: &Vec<Track>, artist_id: &str) -> (r: bool)
    ensures
        r == artist_in_use(tracks.deep_view(), artist_id@),
{
    let mut i: usize = 0;
    while i < tracks.len()
        invariant
            i <= tracks.len(),
            forall|j: int|
                0 <= j < i ==> (#[trigger] tracks.deep_view()[j]).artist_id != artist_id@,
        decreases tracks.len() - i,
    {
        if same_text(tracks[i].artist_id.as_str(), artist_id) {
            assert(tracks.deep_view()[i as int].artist_id == artist_id@);
            return true;
        }
        i += 1;
    }
    false
}

} // verus!
