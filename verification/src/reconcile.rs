//! One pass of the indexer: new files become tracks, with the albums and
//! artists they mention, and what is gone from disk leaves the library.

use vstd::prelude::*;
use vstd::string::*;
use crate::covers::{
    animated_cover_files,
    art_file_name,
    art_file_name_for,
    cover_files,
    find_animated_cover_files,
    find_beside,
    find_cover_files,
    first_beside,
    ArtWrite,
    ArtWriteView,
};
use crate::ident::{album_id, album_id_of, id_of, idify, track_id, track_id_of};
use crate::invariants::{
    adding_keeps_library_consistent,
    all_present,
    pass_drops_missing_files,
    pass_keeps_locations_distinct,
    pass_keeps_tracks_resolved,
    pass_leaves_nothing_unused,
    pruning_keeps_library_consistent,
    recording_art_keeps_library_consistent,
};
use crate::library::{
    album_in_use,
    artist_in_use,
    empty_library,
    has_album,
    has_artist,
    has_location,
    has_track,
    knows_album,
    knows_artist,
    knows_location,
    knows_track,
    lemma_deep_view_push,
    locations_distinct,
    nothing_unused,
    tracks_resolve,
    uses_album,
    uses_artist,
    Album,
    AlbumView,
    Artist,
    ArtistView,
    Library,
    LibraryView,
    Timestamp,
    Track,
    TrackView,
};
use crate::metadata::{
    parse_metadata_tags,
    parsed_metadata,
    AlbumArt,
    Metadata,
    MetadataView,
    TagFields,
    TagFieldsView,
};
use crate::paths::{is_audio, is_audio_file, is_hidden, is_hidden_file};
use crate::text::same_text;

verus! {

/// A new file as the tag reader saw it: its path, its primary tag if it has
/// one, and its playing time in seconds.
#[derive(Clone, Debug, PartialEq, Eq)]
pub struct Scan {
    pub file: String,
    pub tag: Option<TagFields>,
    pub duration: u64,
}

/// A `Scan` as specifications see it: strings and vectors by their contents.
pub struct ScanView {
    pub file: Seq<char>,
    pub tag: Option<TagFieldsView>,
    pub duration: u64,
}

impl DeepView for Scan {
    type V = ScanView;

    open spec fn deep_view(&self) -> ScanView {
        ScanView { file: self.file@, tag: self.tag.deep_view(), duration: self.duration }
    }
}

/// The file at `location` was found on disk and is no resource fork.
pub open spec fn is_present(all_files: Seq<Seq<char>>, location: Seq<char>) -> bool {
    all_files.contains(location) && !is_hidden(location)
}

/// The file is an audio file on disk that no track of `tracks` stands for.
pub open spec fn is_new_file(
    tracks: Seq<TrackView>,
    all_files: Seq<Seq<char>>,
    file: Seq<char>,
) -> bool {
    is_present(all_files, file) && is_audio(file) && !has_location(tracks, file)
}

/// The audio files on disk that the library has no track for, in the order
/// in which they were found.
pub open spec fn new_files_of(tracks: Seq<TrackView>, all_files: Seq<Seq<char>>) -> Seq<
    Seq<char>,
> {
    all_files.filter(|p: Seq<char>| !is_hidden(p) && is_audio(p) && !has_location(tracks, p))
}

/// `artists`, with an artist of the given identifier and name appended unless
/// one with that identifier is there.
pub open spec fn with_artist(
    artists: Seq<ArtistView>,
    id: Seq<char>,
    name: Seq<char>,
    now: Timestamp,
) -> Seq<ArtistView> {
    if has_artist(artists, id) {
        artists
    } else {
        artists.push(ArtistView { id, name, genres: Seq::empty(), created_at: now })
    }
}

/// The identifier of the album that a track's metadata names.
pub open spec fn album_id_for(m: MetadataView) -> Seq<char> {
    album_id_of(m.album, id_of(m.album_artist))
}

/// The identifier of the track that the metadata describes.
pub open spec fn track_id_for(m: MetadataView) -> Seq<char> {
    track_id_of(m.title, id_of(m.artist), album_id_for(m))
}

/// The album that a track's metadata describes.
pub open spec fn album_from(
    m: MetadataView,
    album_art: Option<Seq<char>>,
    animated_album_art: Option<Seq<char>>,
    now: Timestamp,
) -> AlbumView {
    AlbumView {
        id: album_id_for(m),
        name: m.album,
        genres: m.genres,
        artist_id: id_of(m.album_artist),
        album_art,
        animated_album_art,
        created_at: now,
        year: m.year,
    }
}

/// The track for the file at `file` with metadata `m`.
pub open spec fn track_from(file: Seq<char>, m: MetadataView, now: Timestamp) -> TrackView {
    TrackView {
        id: track_id_for(m),
        location: file,
        kind: Some("local"@),
        title: m.title,
        artist_id: id_of(m.artist),
        album_id: album_id_for(m),
        album_art: None,
        animated_album_art: None,
        genres: m.genres,
        duration: m.duration,
        track_num: m.track_num,
        total_tracks: m.total_tracks,
        disc_num: m.disc_num,
        total_discs: m.total_discs,
        created_at: now,
        last_played_at: now,
    }
}

/// The library after the file at `file`, with metadata `m`, has been taken
/// in: the album artist, the artist, the album and the track are appended, in
/// that order, each unless the library holds it already.
pub open spec fn added(
    lib: LibraryView,
    file: Seq<char>,
    m: MetadataView,
    covers: Seq<Seq<char>>,
    animated_covers: Seq<Seq<char>>,
    now: Timestamp,
) -> LibraryView {
    let track = track_from(file, m, now);
    let album = album_from(m, first_beside(covers, file), first_beside(animated_covers, file), now);
    LibraryView {
        artists: with_artist(
            with_artist(lib.artists, album.artist_id, m.album_artist, now),
            track.artist_id,
            m.artist,
            now,
        ),
        albums: if has_album(lib.albums, album.id) {
            lib.albums
        } else {
            lib.albums.push(album)
        },
        tracks: if has_track(lib.tracks, track.id, track.album_id) {
            lib.tracks
        } else {
            lib.tracks.push(track)
        },
    }
}

/// The picture to cache when the file at `file` is taken in: the one embedded
/// in it, where its album is new to the library and no cover image lies
/// beside the file.
pub open spec fn art_request(
    lib: LibraryView,
    file: Seq<char>,
    m: MetadataView,
    covers: Seq<Seq<char>>,
) -> Option<ArtWriteView> {
    let id = album_id_for(m);
    if !has_album(lib.albums, id) && first_beside(covers, file) is None && m.album_art is Some {
        Some(
            ArtWriteView {
                album_id: id,
                file_name: art_file_name(id, m.album_art->0.mime_type),
                data: m.album_art->0.data,
            },
        )
    } else {
        None
    }
}

/// A library in the middle of a pass, and the pictures to cache so far.
pub struct PassView {
    pub library: LibraryView,
    pub writes: Seq<ArtWriteView>,
}

/// The pass after one scan: a scan of a new file with a usable path is taken
/// in, any other is ignored.
pub open spec fn ingested(
    pass: PassView,
    scan: ScanView,
    all_files: Seq<Seq<char>>,
    now: Timestamp,
) -> PassView {
    if is_new_file(pass.library.tracks, all_files, scan.file) {
        match parsed_metadata(scan.tag, scan.file, scan.duration) {
            Ok(m) => PassView {
                library: added(
                    pass.library,
                    scan.file,
                    m,
                    cover_files(all_files),
                    animated_cover_files(all_files),
                    now,
                ),
                writes: match art_request(pass.library, scan.file, m, cover_files(all_files)) {
                    Some(w) => pass.writes.push(w),
                    None => pass.writes,
                },
            },
            Err(_) => pass,
        }
    } else {
        pass
    }
}

/// The pass after all of `scans`, in order.
pub open spec fn ingested_all(
    pass: PassView,
    scans: Seq<ScanView>,
    all_files: Seq<Seq<char>>,
    now: Timestamp,
) -> PassView
    decreases scans.len(),
{
    if scans.len() == 0 {
        pass
    } else {
        ingested(ingested_all(pass, scans.drop_last(), all_files, now), scans.last(), all_files, now)
    }
}

/// The library without the tracks whose files are gone, and without the
/// albums and artists that no remaining track mentions.
pub open spec fn pruned(lib: LibraryView, all_files: Seq<Seq<char>>) -> LibraryView {
    let tracks = lib.tracks.filter(|t: TrackView| is_present(all_files, t.location));
    LibraryView {
        tracks,
        albums: lib.albums.filter(|a: AlbumView| album_in_use(tracks, a.id)),
        artists: lib.artists.filter(|a: ArtistView| artist_in_use(tracks, a.id)),
    }
}

/// The outcome of a whole pass at time `now`: with no music directory
/// configured the library is reset; otherwise the scans are taken in and the
/// result is pruned against the files found.
pub open spec fn reconciled(
    lib: LibraryView,
    music_directories: Seq<Seq<char>>,
    all_files: Seq<Seq<char>>,
    scans: Seq<ScanView>,
    now: Timestamp,
) -> PassView {
    if music_directories.len() == 0 {
        PassView { library: empty_library(), writes: Seq::empty() }
    } else {
        let pass = ingested_all(
            PassView { library: lib, writes: Seq::empty() },
            scans,
            all_files,
            now,
        );
        PassView { library: pruned(pass.library, all_files), writes: pass.writes }
    }
}

fn contains_text(texts: &Vec<String>, needle: &str) -> (r: bool)
    ensures
        r == texts.deep_view().contains(needle@),
{
    let mut i: usize = 0;
    while i < texts.len()
        invariant
            i <= texts.len(),
            forall|j: int| 0 <= j < i ==> texts.deep_view()[j] != needle@,
        decreases texts.len() - i,
    {
        if same_text(texts[i].as_str(), needle) {
            assert(texts.deep_view()[i as int] == needle@);
            return true;
        }
        i += 1;
    }
    false
}

fn copy_texts(texts: &Vec<String>) -> (r: Vec<String>)
    ensures
        r.deep_view() == texts.deep_view(),
{
    let mut out: Vec<String> = Vec::new();
    let mut i: usize = 0;
    while i < texts.len()
        invariant
            i <= texts.len(),
            out.len() == i,
            forall|j: int| 0 <= j < i ==> out@[j]@ == texts@[j]@,
        decreases texts.len() - i,
    {
        out.push(texts[i].clone());
        i += 1;
    }
    assert(out.deep_view() =~= texts.deep_view());
    out
}

/// Whether the file at `location` was found on disk and is no resource fork.
pub fn present(all_files: &Vec<String>, location: &str) -> (r: bool)
    ensures
        r == is_present(all_files.deep_view(), location@),
{
    contains_text(all_files, location) && !is_hidden_file(location)
}

/// The audio files among `all_files` that `library` has no track for: the
/// files to read tags from in this pass.
pub fn new_files(library: &Library, all_files: &Vec<String>) -> (files: Vec<String>)
    ensures
        files.deep_view() == new_files_of(library.deep_view().tracks, all_files.deep_view()),
{
    let ghost all = all_files.deep_view();
    let ghost tracks = library.deep_view().tracks;
    let ghost keep = |p: Seq<char>| !is_hidden(p) && is_audio(p) && !has_location(tracks, p);
    let mut files: Vec<String> = Vec::new();
    let mut i: usize = 0;
    proof {
        reveal(Seq::filter);
        assert(files.deep_view() =~= all.take(0).filter(keep));
    }
    while i < all_files.len()
        invariant
            all == all_files.deep_view(),
            tracks == library.deep_view().tracks,
            keep == |p: Seq<char>| !is_hidden(p) && is_audio(p) && !has_location(tracks, p),
            i <= all_files.len(),
            files.deep_view() == all.take(i as int).filter(keep),
        decreases all_files.len() - i,
    {
        let path = &all_files[i];
        proof {
            reveal(Seq::filter);
            let next = all.take(i + 1);
            assert(next.drop_last() == all.take(i as int));
            assert(next.last() == path@);
        }
        if !is_hidden_file(path.as_str()) && is_audio_file(path.as_str()) && !knows_location(
            &library.tracks,
            path.as_str(),
        ) {
            let ghost before = files;
            let copy = path.clone();
            files.push(copy);
            proof {
                lemma_deep_view_push(before, files, copy);
            }
        }
        i += 1;
    }
    assert(all.take(all.len() as int) == all);
    files
}

fn add_artist(artists: &mut Vec<Artist>, id: &str, name: String, now: Timestamp)
    ensures
        final(artists).deep_view() == with_artist(old(artists).deep_view(), id@, name@, now),
{
    if !knows_artist(artists, id) {
        let ghost before = *artists;
        let artist = Artist {
            id: String::from_str(id),
            name,
            genres: Vec::new(),
            created_at: now,
        };
        assert(artist.genres.deep_view() =~= Seq::<Seq<char>>::empty());
        artists.push(artist);
        proof {
            lemma_deep_view_push(before, *artists, artist);
        }
    }
}

/// Takes the file at `file`, with metadata `metadata`, into the library.
///
/// The album artist, the artist, the album and the track are appended, in
/// that order, each unless the library holds one with the same identifier
/// (for the track: the same identifier on the same album). A new album takes
/// its cover from the first of `covers` beside the file; where there is none
/// and the file has a picture embedded, that picture is returned to be cached.
pub fn add_file(
    library: &mut Library,
    file: &str,
    metadata: Metadata,
    covers: &Vec<String>,
    animated_covers: &Vec<String>,
    now: Timestamp,
) -> (request: Option<ArtWrite>)
    ensures
        final(library).deep_view() == added(
            old(library).deep_view(),
            file@,
            metadata.deep_view(),
            covers.deep_view(),
            animated_covers.deep_view(),
            now,
        ),
        request.deep_view() == art_request(
            old(library).deep_view(),
            file@,
            metadata.deep_view(),
            covers.deep_view(),
        ),
        tracks_resolve(old(library).deep_view()) ==> tracks_resolve(final(library).deep_view()),
        old(library).well_formed() && !has_location(old(library).deep_view().tracks, file@)
            ==> final(library).well_formed(),
{
    proof {
        adding_keeps_library_consistent(
            library.deep_view(),
            file@,
            metadata.deep_view(),
            covers.deep_view(),
            animated_covers.deep_view(),
            now,
        );
    }
    let Metadata {
        title,
        artist,
        album_artist,
        album,
        album_art,
        duration,
        genres,
        track_num,
        total_tracks,
        disc_num,
        total_discs,
        year,
    } = metadata;
    let album_artist_id = idify(album_artist.as_str());
    let artist_id = idify(artist.as_str());
    let album_id = album_id(album.as_str(), album_artist_id.as_str());
    let id = track_id(title.as_str(), artist_id.as_str(), album_id.as_str());

    add_artist(&mut library.artists, album_artist_id.as_str(), album_artist, now);
    add_artist(&mut library.artists, artist_id.as_str(), artist, now);

    let mut request: Option<ArtWrite> = None;
    if !knows_album(&library.albums, album_id.as_str()) {
        let cover = find_beside(covers, file);
        match cover {
            Some(_) => {},
            None => match album_art {
                Some(art) => {
                    let AlbumArt { data, mime_type } = art;
                    request = Some(
                        ArtWrite {
                            album_id: album_id.clone(),
                            file_name: art_file_name_for(album_id.as_str(), mime_type.as_str()),
                            data,
                        },
                    );
                },
                None => {},
            },
        }
        let ghost before = library.albums;
        let entry = Album {
            id: album_id.clone(),
            name: album,
            genres: copy_texts(&genres),
            artist_id: album_artist_id,
            album_art: cover,
            animated_album_art: find_beside(animated_covers, file),
            created_at: now,
            year,
        };
        library.albums.push(entry);
        proof {
            lemma_deep_view_push(before, library.albums, entry);
        }
    }
    if !knows_track(&library.tracks, id.as_str(), album_id.as_str()) {
        let ghost before = library.tracks;
        let entry = Track {
            id,
            location: String::from_str(file),
            kind: Some(String::from_str("local")),
            title,
            artist_id,
            album_id,
            album_art: None,
            animated_album_art: None,
            genres,
            duration,
            track_num,
            total_tracks,
            disc_num,
            total_discs,
            created_at: now,
            last_played_at: now,
        };
        library.tracks.push(entry);
        proof {
            lemma_deep_view_push(before, library.tracks, entry);
        }
    }
    request
}

/// The view of a pass in progress.
pub open spec fn pass_view(library: Library, writes: Vec<ArtWrite>) -> PassView {
    PassView { library: library.deep_view(), writes: writes.deep_view() }
}

fn ingest(
    library: &mut Library,
    writes: &mut Vec<ArtWrite>,
    scan: Scan,
    all_files: &Vec<String>,
    covers: &Vec<String>,
    animated_covers: &Vec<String>,
    now: Timestamp,
)
    requires
        covers.deep_view() == cover_files(all_files.deep_view()),
        animated_covers.deep_view() == animated_cover_files(all_files.deep_view()),
    ensures
        pass_view(*final(library), *final(writes)) == ingested(
            pass_view(*old(library), *old(writes)),
            scan.deep_view(),
            all_files.deep_view(),
            now,
        ),
{
    let Scan { file, tag, duration } = scan;
    if !present(all_files, file.as_str()) || !is_audio_file(file.as_str()) || knows_location(
        &library.tracks,
        file.as_str(),
    ) {
        return ;
    }
    match parse_metadata_tags(tag, file.as_str(), duration) {
        Ok(metadata) => {
            let request = add_file(library, file.as_str(), metadata, covers, animated_covers, now);
            match request {
                Some(write) => {
                    let ghost before = *writes;
                    writes.push(write);
                    proof {
                        lemma_deep_view_push(before, *writes, write);
                    }
                },
                None => {},
            }
        },
        Err(_) => {},
    }
}

/// Removes the tracks whose files are not among `all_files`, resource forks
/// not counted, then the albums and the artists that no remaining track
/// mentions. What stays keeps its order.
pub fn prune(library: &mut Library, all_files: &Vec<String>)
    ensures
        final(library).deep_view() == pruned(old(library).deep_view(), all_files.deep_view()),
        nothing_unused(final(library).deep_view()),
        all_present(final(library).deep_view().tracks, all_files.deep_view()),
        old(library).well_formed() ==> final(library).well_formed(),
{
    let ghost files = all_files.deep_view();
    proof {
        pruning_keeps_library_consistent(library.deep_view(), files);
    }

    let mut old_tracks: Vec<Track> = Vec::new();
    std::mem::swap(&mut old_tracks, &mut library.tracks);
    let ghost all_tracks = old_tracks.deep_view();
    let ghost keep_track = |t: TrackView| is_present(files, t.location);
    let mut tracks: Vec<Track> = Vec::new();
    proof {
        reveal(Seq::filter);
        assert(tracks.deep_view() =~= all_tracks.take(0).filter(keep_track));
    }
    for track in iter: old_tracks
        invariant
            files == all_files.deep_view(),
            keep_track == |t: TrackView| is_present(files, t.location),
            iter.seq().len() == all_tracks.len(),
            forall|j: int|
                0 <= j < all_tracks.len() ==> (#[trigger] iter.seq()[j]).deep_view()
                    == all_tracks[j],
            tracks.deep_view() == all_tracks.take(iter.index()).filter(keep_track),
    {
        proof {
            reveal(Seq::filter);
            let next = all_tracks.take(iter.index() + 1);
            assert(next.drop_last() == all_tracks.take(iter.index()));
            assert(next.last() == track.deep_view());
        }
        if present(all_files, track.location.as_str()) {
            let ghost before = tracks;
            tracks.push(track);
            proof {
                lemma_deep_view_push(before, tracks, track);
            }
        }
    }
    assert(all_tracks.take(all_tracks.len() as int) == all_tracks);

    let mut old_albums: Vec<Album> = Vec::new();
    std::mem::swap(&mut old_albums, &mut library.albums);
    let ghost all_albums = old_albums.deep_view();
    let ghost kept_tracks = tracks.deep_view();
    let ghost keep_album = |a: AlbumView| album_in_use(kept_tracks, a.id);
    let mut albums: Vec<Album> = Vec::new();
    proof {
        reveal(Seq::filter);
        assert(albums.deep_view() =~= all_albums.take(0).filter(keep_album));
    }
    for album in iter: old_albums
        invariant
            kept_tracks == tracks.deep_view(),
            keep_album == |a: AlbumView| album_in_use(kept_tracks, a.id),
            iter.seq().len() == all_albums.len(),
            forall|j: int|
                0 <= j < all_albums.len() ==> (#[trigger] iter.seq()[j]).deep_view()
                    == all_albums[j],
            albums.deep_view() == all_albums.take(iter.index()).filter(keep_album),
    {
        proof {
            reveal(Seq::filter);
            let next = all_albums.take(iter.index() + 1);
            assert(next.drop_last() == all_albums.take(iter.index()));
            assert(next.last() == album.deep_view());
        }
        if uses_album(&tracks, album.id.as_str()) {
            let ghost before = albums;
            albums.push(album);
            proof {
                lemma_deep_view_push(before, albums, album);
            }
        }
    }
    assert(all_albums.take(all_albums.len() as int) == all_albums);

    let mut old_artists: Vec<Artist> = Vec::new();
    std::mem::swap(&mut old_artists, &mut library.artists);
    let ghost all_artists = old_artists.deep_view();
    let ghost keep_artist = |a: ArtistView| artist_in_use(kept_tracks, a.id);
    let mut artists: Vec<Artist> = Vec::new();
    proof {
        reveal(Seq::filter);
        assert(artists.deep_view() =~= all_artists.take(0).filter(keep_artist));
    }
    for artist in iter: old_artists
        invariant
            kept_tracks == tracks.deep_view(),
            keep_artist == |a: ArtistView| artist_in_use(kept_tracks, a.id),
            iter.seq().len() == all_artists.len(),
            forall|j: int|
                0 <= j < all_artists.len() ==> (#[trigger] iter.seq()[j]).deep_view()
                    == all_artists[j],
            artists.deep_view() == all_artists.take(iter.index()).filter(keep_artist),
    {
        proof {
            reveal(Seq::filter);
            let next = all_artists.take(iter.index() + 1);
            assert(next.drop_last() == all_artists.take(iter.index()));
            assert(next.last() == artist.deep_view());
        }
        if uses_artist(&tracks, artist.id.as_str()) {
            let ghost before = artists;
            artists.push(artist);
            proof {
                lemma_deep_view_push(before, artists, artist);
            }
        }
    }
    assert(all_artists.take(all_artists.len() as int) == all_artists);

    library.tracks = tracks;
    library.albums = albums;
    library.artists = artists;
}

/// Brings `library` up to date with the files found on disk, at time `now`.
///
/// With no music directory configured the result is the empty library.
/// Otherwise each of `scans` that is of an audio file on disk not yet in the
/// library is taken in, in order, and the result is pruned against
/// `all_files`. The pictures to cache come back beside the library.
pub fn reconcile(
    library: Library,
    music_directories: &Vec<String>,
    all_files: &Vec<String>,
    scans: Vec<Scan>,
    now: Timestamp,
) -> (r: (Library, Vec<ArtWrite>))
    ensures
        pass_view(r.0, r.1) == reconciled(
            library.deep_view(),
            music_directories.deep_view(),
            all_files.deep_view(),
            scans.deep_view(),
            now,
        ),
        nothing_unused(r.0.deep_view()),
        all_present(r.0.deep_view().tracks, all_files.deep_view()),
        tracks_resolve(library.deep_view()) ==> tracks_resolve(r.0.deep_view()),
        locations_distinct(library.deep_view().tracks) ==> locations_distinct(
            r.0.deep_view().tracks,
        ),
        library.well_formed() ==> r.0.well_formed(),
{
    proof {
        let lib = library.deep_view();
        let dirs = music_directories.deep_view();
        let files = all_files.deep_view();
        pass_leaves_nothing_unused(lib, dirs, files, scans.deep_view(), now);
        pass_drops_missing_files(lib, dirs, files, scans.deep_view(), now, Seq::empty());
        if tracks_resolve(lib) {
            pass_keeps_tracks_resolved(lib, dirs, files, scans.deep_view(), now);
        }
        if locations_distinct(lib.tracks) {
            pass_keeps_locations_distinct(lib, dirs, files, scans.deep_view(), now);
        }
    }
    if music_directories.len() == 0 {
        let empty = Library { tracks: Vec::new(), albums: Vec::new(), artists: Vec::new() };
        let writes: Vec<ArtWrite> = Vec::new();
        assert(empty.tracks.deep_view() =~= Seq::<TrackView>::empty());
        assert(empty.albums.deep_view() =~= Seq::<AlbumView>::empty());
        assert(empty.artists.deep_view() =~= Seq::<ArtistView>::empty());
        assert(pass_view(empty, writes).writes =~= Seq::<ArtWriteView>::empty());
        return (empty, writes);
    }
    let covers = find_cover_files(all_files);
    let animated_covers = find_animated_cover_files(all_files);
    let mut library = library;
    let mut writes: Vec<ArtWrite> = Vec::new();
    let ghost start = pass_view(library, writes);
    let ghost files = all_files.deep_view();
    let ghost all_scans = scans.deep_view();
    assert(start.writes =~= Seq::<ArtWriteView>::empty());
    for scan in iter: scans
        invariant
            files == all_files.deep_view(),
            covers.deep_view() == cover_files(files),
            animated_covers.deep_view() == animated_cover_files(files),
            iter.seq().len() == all_scans.len(),
            forall|j: int|
                0 <= j < all_scans.len() ==> (#[trigger] iter.seq()[j]).deep_view() == all_scans[j],
            pass_view(library, writes) == ingested_all(
                start,
                all_scans.take(iter.index()),
                files,
                now,
            ),
    {
        proof {
            let next = all_scans.take(iter.index() + 1);
            assert(next.drop_last() == all_scans.take(iter.index()));
            assert(next.last() == scan.deep_view());
        }
        ingest(&mut library, &mut writes, scan, all_files, &covers, &animated_covers, now);
    }
    assert(all_scans.take(all_scans.len() as int) == all_scans);
    prune(&mut library, all_files);
    (library, writes)
}

/// The current time.
///
/// Trusted: calls `time::OffsetDateTime::now_utc` and takes the result apart
/// with `unix_timestamp_nanos` and `offset`. Nothing is claimed of the value.
#[verifier::external_body]
fn now_utc() -> Timestamp {
    let now = time::OffsetDateTime::now_utc();
    Timestamp {
        unix_nanos: now.unix_timestamp_nanos(),
        offset_seconds: now.offset().whole_seconds(),
    }
}

/// Brings `library` up to date with the files found on disk.
///
/// `all_files` is every file found under the music directories and `scans`
/// is what the tag reader made of the new ones among them. The result is that
/// of `reconcile` at the time of the call.
pub fn update_library(
    library: Library,
    music_directories: &Vec<String>,
    all_files: &Vec<String>,
    scans: Vec<Scan>,
) -> (r: (Library, Vec<ArtWrite>))
    ensures
        exists|now: Timestamp|
            pass_view(r.0, r.1) == #[trigger] reconciled(
                library.deep_view(),
                music_directories.deep_view(),
                all_files.deep_view(),
                scans.deep_view(),
                now,
            ),
        nothing_unused(r.0.deep_view()),
        all_present(r.0.deep_view().tracks, all_files.deep_view()),
        tracks_resolve(library.deep_view()) ==> tracks_resolve(r.0.deep_view()),
        locations_distinct(library.deep_view().tracks) ==> locations_distinct(
            r.0.deep_view().tracks,
        ),
        library.well_formed() ==> r.0.well_formed(),
{
    let now = now_utc();
    reconcile(library, music_directories, all_files, scans, now)
}

/// The albums, with `path` as the cover of each one whose identifier is
/// `album_id`.
pub open spec fn with_album_art(albums: Seq<AlbumView>, album_id: Seq<char>, path: Seq<char>)
    -> Seq<AlbumView> {
    albums.map_values(
        |a: AlbumView|
            if a.id == album_id {
                AlbumView { album_art: Some(path), ..a }
            } else {
                a
            },
    )
}

/// Records that the picture of the album `album_id` was written to `path`.
pub fn record_album_art(library: &mut Library, album_id: &str, path: &str)
    ensures
        final(library).deep_view().albums == with_album_art(
            old(library).deep_view().albums,
            album_id@,
            path@,
        ),
        final(library).deep_view().tracks == old(library).deep_view().tracks,
        final(library).deep_view().artists == old(library).deep_view().artists,
        old(library).well_formed() ==> final(library).well_formed(),
        nothing_unused(old(library).deep_view()) ==> nothing_unused(final(library).deep_view()),
{
    proof {
        recording_art_keeps_library_consistent(library.deep_view(), album_id@, path@);
    }
    let mut old_albums: Vec<Album> = Vec::new();
    std::mem::swap(&mut old_albums, &mut library.albums);
    let ghost before = old_albums.deep_view();
    let ghost after = with_album_art(before, album_id@, path@);
    let mut albums: Vec<Album> = Vec::new();
    assert(albums.deep_view() =~= after.take(0));
    for album in iter: old_albums
        invariant
            after == with_album_art(before, album_id@, path@),
            iter.seq().len() == before.len(),
            forall|j: int|
                0 <= j < before.len() ==> (#[trigger] iter.seq()[j]).deep_view() == before[j],
            albums.deep_view() == after.take(iter.index()),
    {
        let mut album = album;
        if same_text(album.id.as_str(), album_id) {
            album.album_art = Some(String::from_str(path));
        }
        let ghost so_far = albums;
        albums.push(album);
        proof {
            lemma_deep_view_push(so_far, albums, album);
            assert(after.take(iter.index() + 1) =~= after.take(iter.index()).push(
                album.deep_view(),
            ));
        }
    }
    assert(after.take(after.len() as int) == after);
    library.albums = albums;
}

} // verus!
