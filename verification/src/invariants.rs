//! What holds of a library after a pass of the indexer.

use vstd::prelude::*;
use crate::covers::{animated_cover_files, cover_files, first_beside, ArtWriteView};
use crate::ident::id_of;
use crate::library::{
    album_in_use,
    albums_resolve,
    artist_in_use,
    empty_library,
    has_album,
    has_artist,
    has_location,
    has_track,
    locations_distinct,
    nothing_unused,
    tracks_resolve,
    AlbumView,
    ArtistView,
    LibraryView,
    Timestamp,
    TrackView,
};
use crate::metadata::{file_with_extension_has_metadata, parsed_metadata, MetadataView};
use crate::paths::{is_audio, is_hidden};
use crate::reconcile::{
    added,
    album_from,
    album_id_for,
    ingested,
    ingested_all,
    is_new_file,
    is_present,
    new_files_of,
    pruned,
    reconciled,
    track_from,
    track_id_for,
    with_album_art,
    with_artist,
    PassView,
    ScanView,
};

verus! {

/// Every track's file was found on disk.
pub open spec fn all_present(tracks: Seq<TrackView>, all_files: Seq<Seq<char>>) -> bool {
    forall|i: int| 0 <= i < tracks.len() ==> is_present(all_files, (#[trigger] tracks[i]).location)
}

proof fn lemma_prefix_has_artist(shorter: Seq<ArtistView>, longer: Seq<ArtistView>, id: Seq<char>)
    requires
        shorter.is_prefix_of(longer),
        has_artist(shorter, id),
    ensures
        has_artist(longer, id),
{
    let i = choose|i: int| 0 <= i < shorter.len() && (#[trigger] shorter[i]).id == id;
    assert(longer[i] == shorter[i]);
}

proof fn lemma_prefix_has_album(shorter: Seq<AlbumView>, longer: Seq<AlbumView>, id: Seq<char>)
    requires
        shorter.is_prefix_of(longer),
        has_album(shorter, id),
    ensures
        has_album(longer, id),
{
    let i = choose|i: int| 0 <= i < shorter.len() && (#[trigger] shorter[i]).id == id;
    assert(longer[i] == shorter[i]);
}

proof fn lemma_with_artist(artists: Seq<ArtistView>, id: Seq<char>, name: Seq<char>, now: Timestamp)
    ensures
        artists.is_prefix_of(with_artist(artists, id, name, now)),
        has_artist(with_artist(artists, id, name, now), id),
{
    let r = with_artist(artists, id, name, now);
    if !has_artist(artists, id) {
        assert(r[artists.len() as int].id == id);
    }
}

/// What taking in one file does to a library: each list grows at its end, by
/// one entry at most, and the file's artist and album are there afterwards.
proof fn lemma_added(
    lib: LibraryView,
    file: Seq<char>,
    m: MetadataView,
    covers: Seq<Seq<char>>,
    animated_covers: Seq<Seq<char>>,
    now: Timestamp,
)
    ensures
        ({
            let after = added(lib, file, m, covers, animated_covers, now);
            let track = track_from(file, m, now);
            &&& lib.artists.is_prefix_of(after.artists)
            &&& lib.albums.is_prefix_of(after.albums)
            &&& lib.tracks.is_prefix_of(after.tracks)
            &&& has_artist(after.artists, track.artist_id)
            &&& has_album(after.albums, track.album_id)
            &&& has_track(after.tracks, track.id, track.album_id)
            &&& after.tracks == lib.tracks || after.tracks == lib.tracks.push(track)
            &&& after.albums.len() > lib.albums.len() ==> has_artist(
                after.artists,
                after.albums.last().artist_id,
            ) && after.albums == lib.albums.push(after.albums.last())
        }),
{
    let after = added(lib, file, m, covers, animated_covers, now);
    let track = track_from(file, m, now);
    let album = album_from(m, first_beside(covers, file), first_beside(animated_covers, file), now);
    let first = with_artist(lib.artists, album.artist_id, m.album_artist, now);
    lemma_with_artist(lib.artists, album.artist_id, m.album_artist, now);
    lemma_with_artist(first, track.artist_id, m.artist, now);
    lemma_prefix_has_artist(first, after.artists, album.artist_id);
    if !has_album(lib.albums, album.id) {
        assert(after.albums[lib.albums.len() as int].id == album.id);
        assert(after.albums.last() == album);
    }
    if !has_track(lib.tracks, track.id, track.album_id) {
        assert(after.tracks[lib.tracks.len() as int] == track);
    }
}

/// Taking a file in keeps the library consistent: the tracks still have
/// their artists and albums in the library, and, where the file was no track
/// before, still no file is two tracks.
pub proof fn adding_keeps_library_consistent(
    lib: LibraryView,
    file: Seq<char>,
    m: MetadataView,
    covers: Seq<Seq<char>>,
    animated_covers: Seq<Seq<char>>,
    now: Timestamp,
)
    ensures
        tracks_resolve(lib) ==> tracks_resolve(added(lib, file, m, covers, animated_covers, now)),
        albums_resolve(lib) ==> albums_resolve(added(lib, file, m, covers, animated_covers, now)),
        locations_distinct(lib.tracks) && !has_location(lib.tracks, file) ==> locations_distinct(
            added(lib, file, m, covers, animated_covers, now).tracks,
        ),
{
    let after = added(lib, file, m, covers, animated_covers, now);
    lemma_added(lib, file, m, covers, animated_covers, now);
    if tracks_resolve(lib) {
        assert forall|i: int| 0 <= i < after.tracks.len() implies has_artist(
            after.artists,
            (#[trigger] after.tracks[i]).artist_id,
        ) && has_album(after.albums, after.tracks[i].album_id) by {
            if i < lib.tracks.len() {
                assert(after.tracks[i] == lib.tracks[i]);
                lemma_prefix_has_artist(lib.artists, after.artists, lib.tracks[i].artist_id);
                lemma_prefix_has_album(lib.albums, after.albums, lib.tracks[i].album_id);
            }
        }
    }
    if albums_resolve(lib) {
        assert forall|i: int| 0 <= i < after.albums.len() implies has_artist(
            after.artists,
            (#[trigger] after.albums[i]).artist_id,
        ) by {
            if i < lib.albums.len() {
                assert(after.albums[i] == lib.albums[i]);
                lemma_prefix_has_artist(lib.artists, after.artists, lib.albums[i].artist_id);
            }
        }
    }
    if locations_distinct(lib.tracks) && !has_location(lib.tracks, file) {
        assert forall|i: int, j: int| 0 <= i < j < after.tracks.len() implies (
        #[trigger] after.tracks[i]).location != (#[trigger] after.tracks[j]).location by {
            assert(after.tracks[i] == lib.tracks[i]);
            if j < lib.tracks.len() {
                assert(after.tracks[j] == lib.tracks[j]);
            }
        }
    }
}

proof fn lemma_ingested(pass: PassView, scan: ScanView, all_files: Seq<Seq<char>>, now: Timestamp)
    ensures
        ({
            let after = ingested(pass, scan, all_files, now);
            &&& pass.library.artists.is_prefix_of(after.library.artists)
            &&& pass.library.albums.is_prefix_of(after.library.albums)
            &&& pass.library.tracks.is_prefix_of(after.library.tracks)
            &&& tracks_resolve(pass.library) ==> tracks_resolve(after.library)
            &&& albums_resolve(pass.library) ==> albums_resolve(after.library)
            &&& locations_distinct(pass.library.tracks) ==> locations_distinct(
                after.library.tracks,
            )
        }),
{
    let lib = pass.library;
    if is_new_file(lib.tracks, all_files, scan.file) {
        match parsed_metadata(scan.tag, scan.file, scan.duration) {
            Ok(m) => {
                let covers = cover_files(all_files);
                let animated = animated_cover_files(all_files);
                lemma_added(lib, scan.file, m, covers, animated, now);
                adding_keeps_library_consistent(lib, scan.file, m, covers, animated, now);
            },
            Err(_) => {},
        }
    }
}

/// Taking in scans only ever appends to a library, and keeps it consistent.
proof fn lemma_ingested_all(
    pass: PassView,
    scans: Seq<ScanView>,
    all_files: Seq<Seq<char>>,
    now: Timestamp,
)
    ensures
        ({
            let after = ingested_all(pass, scans, all_files, now);
            &&& pass.library.artists.is_prefix_of(after.library.artists)
            &&& pass.library.albums.is_prefix_of(after.library.albums)
            &&& pass.library.tracks.is_prefix_of(after.library.tracks)
            &&& tracks_resolve(pass.library) ==> tracks_resolve(after.library)
            &&& albums_resolve(pass.library) ==> albums_resolve(after.library)
            &&& locations_distinct(pass.library.tracks) ==> locations_distinct(
                after.library.tracks,
            )
        }),
    decreases scans.len(),
{
    if scans.len() > 0 {
        let before = ingested_all(pass, scans.drop_last(), all_files, now);
        lemma_ingested_all(pass, scans.drop_last(), all_files, now);
        lemma_ingested(before, scans.last(), all_files, now);
    }
}

/// What a filtered sequence holds: only items of the sequence that meet the
/// condition, and every one of those.
proof fn lemma_filter<T>(s: Seq<T>, keep: spec_fn(T) -> bool)
    ensures
        forall|i: int|
            0 <= i < s.filter(keep).len() ==> keep(#[trigger] s.filter(keep)[i]) && s.contains(
                s.filter(keep)[i],
            ),
        forall|i: int| 0 <= i < s.len() && keep(s[i]) ==> s.filter(keep).contains(#[trigger] s[i]),
{
    assert forall|i: int| 0 <= i < s.filter(keep).len() implies keep(
        #[trigger] s.filter(keep)[i],
    ) && s.contains(s.filter(keep)[i]) by {
        s.lemma_filter_pred(keep, i);
        assert(s.filter(keep).contains(s.filter(keep)[i]));
        s.lemma_filter_contains_rev(keep, s.filter(keep)[i]);
    }
    assert forall|i: int| 0 <= i < s.len() && keep(s[i]) implies s.filter(keep).contains(
        #[trigger] s[i],
    ) by {
        s.lemma_filter_contains(keep, i);
    }
}

/// Filtering a sequence whose items all meet the condition changes nothing.
proof fn lemma_filter_all<T>(s: Seq<T>, keep: spec_fn(T) -> bool)
    requires
        forall|i: int| 0 <= i < s.len() ==> keep(#[trigger] s[i]),
    ensures
        s.filter(keep) == s,
    decreases s.len(),
{
    reveal(Seq::filter);
    if s.len() > 0 {
        let init = s.drop_last();
        assert forall|i: int| 0 <= i < init.len() implies keep(#[trigger] init[i]) by {
            assert(init[i] == s[i]);
        }
        lemma_filter_all(init, keep);
        assert(init.push(s.last()) =~= s);
    }
}

/// Filtering a sequence none of whose items meets the condition leaves
/// nothing.
proof fn lemma_filter_none<T>(s: Seq<T>, keep: spec_fn(T) -> bool)
    requires
        forall|i: int| 0 <= i < s.len() ==> !keep(#[trigger] s[i]),
    ensures
        s.filter(keep) == Seq::<T>::empty(),
    decreases s.len(),
{
    reveal(Seq::filter);
    if s.len() > 0 {
        let init = s.drop_last();
        assert forall|i: int| 0 <= i < init.len() implies !keep(#[trigger] init[i]) by {
            assert(init[i] == s[i]);
        }
        lemma_filter_none(init, keep);
    }
}

proof fn lemma_filter_distinct(tracks: Seq<TrackView>, keep: spec_fn(TrackView) -> bool)
    requires
        locations_distinct(tracks),
    ensures
        locations_distinct(tracks.filter(keep)),
    decreases tracks.len(),
{
    reveal(Seq::filter);
    if tracks.len() > 0 {
        let init = tracks.drop_last();
        let last = tracks.last();
        assert forall|i: int, j: int| 0 <= i < j < init.len() implies (#[trigger] init[i]).location
            != (#[trigger] init[j]).location by {
            assert(init[i] == tracks[i] && init[j] == tracks[j]);
        }
        lemma_filter_distinct(init, keep);
        lemma_filter(init, keep);
        let kept = init.filter(keep);
        if keep(last) {
            let all = kept.push(last);
            assert forall|i: int, j: int| 0 <= i < j < all.len() implies (#[trigger] all[i]).location
                != (#[trigger] all[j]).location by {
                if j == kept.len() {
                    assert(init.contains(kept[i]));
                    let k = choose|k: int| 0 <= k < init.len() && init[k] == kept[i];
                    assert(tracks[k] == kept[i]);
                    assert(tracks[tracks.len() - 1] == last);
                } else {
                    assert(all[i] == kept[i] && all[j] == kept[j]);
                }
            }
        }
    }
}

/// Pruning tidies and keeps consistent: afterwards every track's file is on
/// disk and no album or artist is without a track; tracks that had their
/// artists and albums in the library still have them, and distinct locations
/// stay distinct.
pub proof fn pruning_keeps_library_consistent(lib: LibraryView, all_files: Seq<Seq<char>>)
    ensures
        all_present(pruned(lib, all_files).tracks, all_files),
        nothing_unused(pruned(lib, all_files)),
        tracks_resolve(lib) ==> tracks_resolve(pruned(lib, all_files)),
        locations_distinct(lib.tracks) ==> locations_distinct(pruned(lib, all_files).tracks),
{
    let after = pruned(lib, all_files);
    let keep_track = |t: TrackView| is_present(all_files, t.location);
    let keep_album = |a: AlbumView| album_in_use(after.tracks, a.id);
    let keep_artist = |a: ArtistView| artist_in_use(after.tracks, a.id);
    assert(after.tracks == lib.tracks.filter(keep_track));
    assert(after.albums == lib.albums.filter(keep_album));
    assert(after.artists == lib.artists.filter(keep_artist));
    lemma_filter(lib.tracks, keep_track);
    lemma_filter(lib.albums, keep_album);
    lemma_filter(lib.artists, keep_artist);
    if locations_distinct(lib.tracks) {
        lemma_filter_distinct(lib.tracks, keep_track);
    }
    if tracks_resolve(lib) {
        assert forall|i: int| 0 <= i < after.tracks.len() implies has_artist(
            after.artists,
            (#[trigger] after.tracks[i]).artist_id,
        ) && has_album(after.albums, after.tracks[i].album_id) by {
            let t = after.tracks[i];
            assert(lib.tracks.contains(t));
            let k = choose|k: int| 0 <= k < lib.tracks.len() && lib.tracks[k] == t;
            assert(has_artist(lib.artists, lib.tracks[k].artist_id));
            let a = choose|a: int|
                0 <= a < lib.artists.len() && (#[trigger] lib.artists[a]).id == t.artist_id;
            assert(keep_artist(lib.artists[a]));
            assert(after.artists.contains(lib.artists[a]));
            let b = choose|b: int| 0 <= b < after.artists.len() && after.artists[b] == lib.artists[a];
            assert(after.artists[b].id == t.artist_id);
            assert(has_album(lib.albums, lib.tracks[k].album_id));
            let c = choose|c: int|
                0 <= c < lib.albums.len() && (#[trigger] lib.albums[c]).id == t.album_id;
            assert(keep_album(lib.albums[c]));
            assert(after.albums.contains(lib.albums[c]));
            let d = choose|d: int| 0 <= d < after.albums.len() && after.albums[d] == lib.albums[c];
            assert(after.albums[d].id == t.album_id);
        }
    }
}

/// Recording a cover changes no identifier, so the library stays as
/// consistent and as tidy as it was.
pub proof fn recording_art_keeps_library_consistent(
    lib: LibraryView,
    album_id: Seq<char>,
    path: Seq<char>,
)
    ensures
        ({
            let after = LibraryView { albums: with_album_art(lib.albums, album_id, path), ..lib };
            &&& tracks_resolve(lib) ==> tracks_resolve(after)
            &&& albums_resolve(lib) ==> albums_resolve(after)
            &&& nothing_unused(lib) ==> nothing_unused(after)
        }),
{
    let after = LibraryView { albums: with_album_art(lib.albums, album_id, path), ..lib };
    assert forall|i: int| 0 <= i < lib.albums.len() implies (#[trigger] after.albums[i]).id
        == lib.albums[i].id && after.albums[i].artist_id == lib.albums[i].artist_id by {}
    if tracks_resolve(lib) {
        assert forall|i: int| 0 <= i < after.tracks.len() implies has_artist(
            after.artists,
            (#[trigger] after.tracks[i]).artist_id,
        ) && has_album(after.albums, after.tracks[i].album_id) by {
            assert(has_album(lib.albums, lib.tracks[i].album_id));
            let k = choose|k: int|
                0 <= k < lib.albums.len() && (#[trigger] lib.albums[k]).id
                    == lib.tracks[i].album_id;
            assert(after.albums[k].id == lib.tracks[i].album_id);
        }
    }
    if albums_resolve(lib) {
        assert forall|i: int| 0 <= i < after.albums.len() implies has_artist(
            after.artists,
            (#[trigger] after.albums[i]).artist_id,
        ) by {
            assert(has_artist(lib.artists, lib.albums[i].artist_id));
        }
    }
    if nothing_unused(lib) {
        assert forall|i: int| 0 <= i < after.albums.len() implies album_in_use(
            after.tracks,
            (#[trigger] after.albums[i]).id,
        ) by {
            assert(album_in_use(lib.tracks, lib.albums[i].id));
        }
    }
}

/// The files to read in a pass are exactly the new files: the audio files
/// found on disk that no track of the library stands for.
pub proof fn new_files_are_the_new_files(
    tracks: Seq<TrackView>,
    all_files: Seq<Seq<char>>,
    file: Seq<char>,
)
    ensures
        new_files_of(tracks, all_files).contains(file) <==> is_new_file(tracks, all_files, file),
{
    let keep = |p: Seq<char>| !is_hidden(p) && is_audio(p) && !has_location(tracks, p);
    lemma_filter(all_files, keep);
    if new_files_of(tracks, all_files).contains(file) {
        let i = choose|i: int|
            0 <= i < all_files.filter(keep).len() && all_files.filter(keep)[i] == file;
        assert(keep(all_files.filter(keep)[i]));
    }
    if is_new_file(tracks, all_files, file) {
        let i = choose|i: int| 0 <= i < all_files.len() && all_files[i] == file;
        assert(keep(all_files[i]));
    }
}

/// A scan of a new file never goes unheard: after it the library holds the
/// track that its metadata describes, on the album that it names.
pub proof fn new_file_is_taken_in(
    pass: PassView,
    scan: ScanView,
    all_files: Seq<Seq<char>>,
    now: Timestamp,
)
    requires
        is_new_file(pass.library.tracks, all_files, scan.file),
    ensures
        parsed_metadata(scan.tag, scan.file, scan.duration) is Ok,
        ({
            let m = parsed_metadata(scan.tag, scan.file, scan.duration)->Ok_0;
            let after = ingested(pass, scan, all_files, now).library;
            &&& has_track(after.tracks, track_id_for(m), album_id_for(m))
            &&& has_album(after.albums, album_id_for(m))
            &&& has_artist(after.artists, id_of(m.artist))
        }),
{
    file_with_extension_has_metadata(scan.tag, scan.file, scan.duration);
    let m = parsed_metadata(scan.tag, scan.file, scan.duration)->Ok_0;
    lemma_added(
        pass.library,
        scan.file,
        m,
        cover_files(all_files),
        animated_cover_files(all_files),
        now,
    );
}

/// The library has been through a pass over `all_files`: its tracks are on
/// disk, their artists and albums are in it, and it holds nothing else.
pub open spec fn settled(lib: LibraryView, all_files: Seq<Seq<char>>) -> bool {
    tracks_resolve(lib) && nothing_unused(lib) && all_present(lib.tracks, all_files)
}

/// A pass over `lib` would make nothing new of the scan: either it is of no
/// new file, or its path is unusable, or `lib` holds its track already.
pub open spec fn scan_known(lib: LibraryView, scan: ScanView, all_files: Seq<Seq<char>>) -> bool {
    is_new_file(lib.tracks, all_files, scan.file) ==> (parsed_metadata(
        scan.tag,
        scan.file,
        scan.duration,
    ) matches Ok(m) ==> has_track(lib.tracks, track_id_for(m), album_id_for(m)))
}

/// A pass over `lib` would make nothing new of any of the scans.
pub open spec fn all_known(lib: LibraryView, scans: Seq<ScanView>, all_files: Seq<Seq<char>>)
    -> bool {
    forall|i: int| 0 <= i < scans.len() ==> scan_known(lib, #[trigger] scans[i], all_files)
}

/// Artists beyond the first `known` of `artists` have identifiers that none
/// of the first `known` has.
spec fn extras_unknown(artists: Seq<ArtistView>, known: Seq<ArtistView>) -> bool {
    &&& known.is_prefix_of(artists)
    &&& forall|k: int|
        known.len() <= k < artists.len() ==> !has_artist(known, (#[trigger] artists[k]).id)
}

proof fn lemma_with_artist_extras(
    artists: Seq<ArtistView>,
    known: Seq<ArtistView>,
    id: Seq<char>,
    name: Seq<char>,
    now: Timestamp,
)
    requires
        extras_unknown(artists, known),
    ensures
        extras_unknown(with_artist(artists, id, name, now), known),
{
    let r = with_artist(artists, id, name, now);
    if !has_artist(artists, id) {
        if has_artist(known, id) {
            lemma_prefix_has_artist(known, artists, id);
        }
        assert forall|k: int| known.len() <= k < r.len() implies !has_artist(
            known,
            (#[trigger] r[k]).id,
        ) by {
            if k < artists.len() {
                assert(r[k] == artists[k]);
            }
        }
    }
}

proof fn lemma_known_scans_add_nothing(
    lib: LibraryView,
    scans: Seq<ScanView>,
    all_files: Seq<Seq<char>>,
    now: Timestamp,
)
    requires
        tracks_resolve(lib),
        all_known(lib, scans, all_files),
    ensures
        ({
            let after = ingested_all(
                PassView { library: lib, writes: Seq::empty() },
                scans,
                all_files,
                now,
            );
            &&& after.library.tracks == lib.tracks
            &&& after.library.albums == lib.albums
            &&& after.writes == Seq::<ArtWriteView>::empty()
            &&& extras_unknown(after.library.artists, lib.artists)
        }),
    decreases scans.len(),
{
    let start = PassView { library: lib, writes: Seq::empty() };
    if scans.len() > 0 {
        let init = scans.drop_last();
        let scan = scans.last();
        assert forall|i: int| 0 <= i < init.len() implies scan_known(
            lib,
            #[trigger] init[i],
            all_files,
        ) by {
            assert(init[i] == scans[i]);
        }
        lemma_known_scans_add_nothing(lib, init, all_files, now);
        let before = ingested_all(start, init, all_files, now);
        assert(scan_known(lib, scans[scans.len() - 1], all_files));
        if is_new_file(lib.tracks, all_files, scan.file) {
            match parsed_metadata(scan.tag, scan.file, scan.duration) {
                Ok(m) => {
                    let i = choose|i: int|
                        0 <= i < lib.tracks.len() && (#[trigger] lib.tracks[i]).id == track_id_for(
                            m,
                        ) && lib.tracks[i].album_id == album_id_for(m);
                    assert(has_album(lib.albums, lib.tracks[i].album_id));
                    let first = with_artist(
                        before.library.artists,
                        id_of(m.album_artist),
                        m.album_artist,
                        now,
                    );
                    lemma_with_artist_extras(
                        before.library.artists,
                        lib.artists,
                        id_of(m.album_artist),
                        m.album_artist,
                        now,
                    );
                    lemma_with_artist_extras(
                        first,
                        lib.artists,
                        id_of(m.artist),
                        m.artist,
                        now,
                    );
                },
                Err(_) => {},
            }
        }
    }
}

/// A pass over a settled library that finds no track that is new to it
/// returns the library as it was, and asks for no picture to be cached.
pub proof fn settled_library_is_unchanged(
    lib: LibraryView,
    music_directories: Seq<Seq<char>>,
    all_files: Seq<Seq<char>>,
    scans: Seq<ScanView>,
    now: Timestamp,
)
    requires
        music_directories.len() > 0,
        settled(lib, all_files),
        all_known(lib, scans, all_files),
    ensures
        reconciled(lib, music_directories, all_files, scans, now).library == lib,
        reconciled(lib, music_directories, all_files, scans, now).writes == Seq::<
            ArtWriteView,
        >::empty(),
{
    let start = PassView { library: lib, writes: Seq::empty() };
    let mid = ingested_all(start, scans, all_files, now).library;
    let after = pruned(mid, all_files);
    lemma_known_scans_add_nothing(lib, scans, all_files, now);
    let keep_track = |t: TrackView| is_present(all_files, t.location);
    let keep_album = |a: AlbumView| album_in_use(after.tracks, a.id);
    let keep_artist = |a: ArtistView| artist_in_use(after.tracks, a.id);
    lemma_filter_all(lib.tracks, keep_track);
    assert(after.tracks == lib.tracks);
    lemma_filter_all(lib.albums, keep_album);
    assert(after.albums == lib.albums);
    let extra = mid.artists.skip(lib.artists.len() as int);
    assert(mid.artists =~= lib.artists + extra);
    Seq::filter_distributes_over_add(lib.artists, extra, keep_artist);
    lemma_filter_all(lib.artists, keep_artist);
    assert forall|k: int| 0 <= k < extra.len() implies !keep_artist(#[trigger] extra[k]) by {
        let artist = mid.artists[lib.artists.len() + k];
        assert(extra[k] == artist);
        if artist_in_use(lib.tracks, artist.id) {
            let i = choose|i: int|
                0 <= i < lib.tracks.len() && (#[trigger] lib.tracks[i]).artist_id == artist.id;
            assert(has_artist(lib.artists, lib.tracks[i].artist_id));
        }
    }
    lemma_filter_none(extra, keep_artist);
    assert(after.artists =~= lib.artists);
}

/// References stay whole: if every track of the library before a pass has its
/// artist and its album in the library, the same holds after the pass.
pub proof fn pass_keeps_tracks_resolved(
    lib: LibraryView,
    music_directories: Seq<Seq<char>>,
    all_files: Seq<Seq<char>>,
    scans: Seq<ScanView>,
    now: Timestamp,
)
    requires
        tracks_resolve(lib),
    ensures
        tracks_resolve(reconciled(lib, music_directories, all_files, scans, now).library),
{
    if music_directories.len() > 0 {
        let start = PassView { library: lib, writes: Seq::empty() };
        lemma_ingested_all(start, scans, all_files, now);
        pruning_keeps_library_consistent(ingested_all(start, scans, all_files, now).library, all_files);
    }
}

/// After a pass no album and no artist is left without a track, whatever the
/// library was before.
pub proof fn pass_leaves_nothing_unused(
    lib: LibraryView,
    music_directories: Seq<Seq<char>>,
    all_files: Seq<Seq<char>>,
    scans: Seq<ScanView>,
    now: Timestamp,
)
    ensures
        nothing_unused(reconciled(lib, music_directories, all_files, scans, now).library),
{
    if music_directories.len() > 0 {
        let start = PassView { library: lib, writes: Seq::empty() };
        pruning_keeps_library_consistent(ingested_all(start, scans, all_files, now).library, all_files);
    }
}

/// After a pass every track's file is among the files found: a track whose
/// file was removed from disk is gone. With no music directory configured
/// the library is empty.
pub proof fn pass_drops_missing_files(
    lib: LibraryView,
    music_directories: Seq<Seq<char>>,
    all_files: Seq<Seq<char>>,
    scans: Seq<ScanView>,
    now: Timestamp,
    location: Seq<char>,
)
    ensures
        all_present(reconciled(lib, music_directories, all_files, scans, now).library.tracks, all_files),
        !is_present(all_files, location) ==> !has_location(
            reconciled(lib, music_directories, all_files, scans, now).library.tracks,
            location,
        ),
        music_directories.len() == 0 ==> reconciled(
            lib,
            music_directories,
            all_files,
            scans,
            now,
        ).library == empty_library(),
{
    if music_directories.len() > 0 {
        let start = PassView { library: lib, writes: Seq::empty() };
        pruning_keeps_library_consistent(ingested_all(start, scans, all_files, now).library, all_files);
    }
}

/// No file becomes two tracks: if the tracks of the library before a pass
/// have distinct locations, so have those after it.
pub proof fn pass_keeps_locations_distinct(
    lib: LibraryView,
    music_directories: Seq<Seq<char>>,
    all_files: Seq<Seq<char>>,
    scans: Seq<ScanView>,
    now: Timestamp,
)
    requires
        locations_distinct(lib.tracks),
    ensures
        locations_distinct(
            reconciled(lib, music_directories, all_files, scans, now).library.tracks,
        ),
{
    if music_directories.len() > 0 {
        let start = PassView { library: lib, writes: Seq::empty() };
        lemma_ingested_all(start, scans, all_files, now);
        pruning_keeps_library_consistent(ingested_all(start, scans, all_files, now).library, all_files);
    }
}

/// Album artists stay in the library where they are artists of tracks too:
/// if every track of the library before a pass has its artist and its album
/// in the library, and every album left after the pass is by an artist of
/// some track left, then every album's artist is in the library after it.
///
/// An album by an artist who has no track of their own is left without its
/// artist, who is pruned.
pub proof fn pass_keeps_albums_resolved(
    lib: LibraryView,
    music_directories: Seq<Seq<char>>,
    all_files: Seq<Seq<char>>,
    scans: Seq<ScanView>,
    now: Timestamp,
)
    requires
        tracks_resolve(lib),
        forall|i: int|
            0 <= i < reconciled(lib, music_directories, all_files, scans, now).library.albums.len()
                ==> artist_in_use(
                reconciled(lib, music_directories, all_files, scans, now).library.tracks,
                (#[trigger] reconciled(
                    lib,
                    music_directories,
                    all_files,
                    scans,
                    now,
                ).library.albums[i]).artist_id,
            ),
    ensures
        albums_resolve(reconciled(lib, music_directories, all_files, scans, now).library),
{
    let after = reconciled(lib, music_directories, all_files, scans, now).library;
    pass_keeps_tracks_resolved(lib, music_directories, all_files, scans, now);
    pass_leaves_nothing_unused(lib, music_directories, all_files, scans, now);
    assert forall|i: int| 0 <= i < after.albums.len() implies has_artist(
        after.artists,
        (#[trigger] after.albums[i]).artist_id,
    ) by {
        album_artist_kept_iff_track_artist(after, i);
    }
}

/// In a library whose tracks resolve and that holds nothing unused, an
/// album's artist is in the library exactly if that artist is also the artist
/// of some track.
pub proof fn album_artist_kept_iff_track_artist(lib: LibraryView, i: int)
    requires
        tracks_resolve(lib),
        nothing_unused(lib),
        0 <= i < lib.albums.len(),
    ensures
        has_artist(lib.artists, lib.albums[i].artist_id) <==> artist_in_use(
            lib.tracks,
            lib.albums[i].artist_id,
        ),
{
    let id = lib.albums[i].artist_id;
    if artist_in_use(lib.tracks, id) {
        let t = choose|t: int| 0 <= t < lib.tracks.len() && (#[trigger] lib.tracks[t]).artist_id == id;
        assert(has_artist(lib.artists, lib.tracks[t].artist_id));
    }
    if has_artist(lib.artists, id) {
        let a = choose|a: int| 0 <= a < lib.artists.len() && (#[trigger] lib.artists[a]).id == id;
        assert(artist_in_use(lib.tracks, lib.artists[a].id));
    }
}

/// Rows are carried over: what the library held before a pass and still
/// holds after it comes first, unchanged and in its order. These are the
/// tracks whose files are still on disk, and the albums and artists that a
/// track still mentions.
pub proof fn pass_carries_rows_over(
    lib: LibraryView,
    music_directories: Seq<Seq<char>>,
    all_files: Seq<Seq<char>>,
    scans: Seq<ScanView>,
    now: Timestamp,
)
    requires
        music_directories.len() > 0,
    ensures
        ({
            let after = reconciled(lib, music_directories, all_files, scans, now).library;
            &&& lib.tracks.filter(|t: TrackView| is_present(all_files, t.location)).is_prefix_of(
                after.tracks,
            )
            &&& lib.albums.filter(|a: AlbumView| album_in_use(after.tracks, a.id)).is_prefix_of(
                after.albums,
            )
            &&& lib.artists.filter(|a: ArtistView| artist_in_use(after.tracks, a.id)).is_prefix_of(
                after.artists,
            )
        }),
{
    let start = PassView { library: lib, writes: Seq::empty() };
    let mid = ingested_all(start, scans, all_files, now).library;
    let after = pruned(mid, all_files);
    lemma_ingested_all(start, scans, all_files, now);
    let keep_track = |t: TrackView| is_present(all_files, t.location);
    let more_tracks = mid.tracks.skip(lib.tracks.len() as int);
    assert(mid.tracks =~= lib.tracks + more_tracks);
    Seq::filter_distributes_over_add(lib.tracks, more_tracks, keep_track);
    let keep_album = |a: AlbumView| album_in_use(after.tracks, a.id);
    let more_albums = mid.albums.skip(lib.albums.len() as int);
    assert(mid.albums =~= lib.albums + more_albums);
    Seq::filter_distributes_over_add(lib.albums, more_albums, keep_album);
    let keep_artist = |a: ArtistView| artist_in_use(after.tracks, a.id);
    let more_artists = mid.artists.skip(lib.artists.len() as int);
    assert(mid.artists =~= lib.artists + more_artists);
    Seq::filter_distributes_over_add(lib.artists, more_artists, keep_artist);
}

/// Running the pass again changes nothing: after a pass over a library whose
/// tracks resolve, a second pass over the same files, in which every file that
/// is still new is a track the library already holds, returns the library of
/// the first pass and asks for no picture.
pub proof fn second_pass_changes_nothing(
    lib: LibraryView,
    music_directories: Seq<Seq<char>>,
    all_files: Seq<Seq<char>>,
    first_scans: Seq<ScanView>,
    first_now: Timestamp,
    second_scans: Seq<ScanView>,
    second_now: Timestamp,
)
    requires
        music_directories.len() > 0,
        tracks_resolve(lib),
        all_known(
            reconciled(lib, music_directories, all_files, first_scans, first_now).library,
            second_scans,
            all_files,
        ),
    ensures
        reconciled(
            reconciled(lib, music_directories, all_files, first_scans, first_now).library,
            music_directories,
            all_files,
            second_scans,
            second_now,
        ).library == reconciled(lib, music_directories, all_files, first_scans, first_now).library,
        reconciled(
            reconciled(lib, music_directories, all_files, first_scans, first_now).library,
            music_directories,
            all_files,
            second_scans,
            second_now,
        ).writes == Seq::<ArtWriteView>::empty(),
{
    let first = reconciled(lib, music_directories, all_files, first_scans, first_now).library;
    pass_keeps_tracks_resolved(lib, music_directories, all_files, first_scans, first_now);
    pass_leaves_nothing_unused(lib, music_directories, all_files, first_scans, first_now);
    pass_drops_missing_files(lib, music_directories, all_files, first_scans, first_now, Seq::empty());
    settled_library_is_unchanged(first, music_directories, all_files, second_scans, second_now);
}

} // verus!
