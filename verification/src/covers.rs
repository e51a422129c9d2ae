//! Cover art of an album: a picture file beside its tracks, or failing that
//! the picture embedded in a track, to be written into the cache directory.

use vstd::prelude::*;
use vstd::string::*;
use crate::library::lemma_deep_view_push;
use crate::paths::{
    in_same_directory,
    is_animated_cover,
    is_animated_cover_file,
    is_cover,
    is_cover_file,
    is_hidden,
    is_hidden_file,
    same_directory,
};
use crate::text::{push_char, same_text};

verus! {

/// A picture to be written into the cache directory, for the album
/// `album_id`, under the name `file_name`.
#[derive(Clone, Debug, PartialEq, Eq)]
pub struct ArtWrite {
    pub album_id: String,
    pub file_name: String,
    pub data: Vec<u8>,
}

/// An `ArtWrite` as specifications see it: strings and vectors by their contents.
pub struct ArtWriteView {
    pub album_id: Seq<char>,
    pub file_name: Seq<char>,
    pub data: Seq<u8>,
}

impl DeepView for ArtWrite {
    type V = ArtWriteView;

    open spec fn deep_view(&self) -> ArtWriteView {
        ArtWriteView { album_id: self.album_id@, file_name: self.file_name@, data: self.data@ }
    }
}

/// The file extension for a picture of the given media type: `png` and `gif`
/// for those two, `jpg` for JPEG and for anything else.
pub open spec fn art_extension(mime_type: Seq<char>) -> Seq<char> {
    if mime_type == "image/png"@ {
        "png"@
    } else if mime_type == "image/gif"@ {
        "gif"@
    } else {
        "jpg"@
    }
}

/// The name of the cached picture of an album: its identifier, a dot and the
/// extension for the media type.
pub open spec fn art_file_name(album_id: Seq<char>, mime_type: Seq<char>) -> Seq<char> {
    album_id + seq!['.'] + art_extension(mime_type)
}

/// The name under which the picture of the album `album_id` is cached.
pub fn art_file_name_for(album_id: &str, mime_type: &str) -> (name: String)
    ensures
        name@ == art_file_name(album_id@, mime_type@),
{
    let mut name = String::from_str(album_id);
    push_char(&mut name, '.');
    if same_text(mime_type, "image/png") {
        name.append("png");
    } else if same_text(mime_type, "image/gif") {
        name.append("gif");
    } else {
        name.append("jpg");
    }
    assert(name@ =~= art_file_name(album_id@, mime_type@));
    name
}

/// The first of `candidates` that lies in the same directory as `file`.
pub open spec fn first_beside(candidates: Seq<Seq<char>>, file: Seq<char>) -> Option<Seq<char>>
    decreases candidates.len(),
{
    if candidates.len() == 0 {
        None
    } else if same_directory(candidates[0], file) {
        Some(candidates[0])
    } else {
        first_beside(candidates.drop_first(), file)
    }
}

/// Finds the first of `candidates` that lies in the same directory as `file`.
pub fn find_beside(candidates: &Vec<String>, file: &str) -> (found: Option<String>)
    ensures
        found.deep_view() == first_beside(candidates.deep_view(), file@),
{
    let ghost all = candidates.deep_view();
    let mut i: usize = 0;
    assert(all.skip(0) == all);
    while i < candidates.len()
        invariant
            all == candidates.deep_view(),
            i <= candidates.len(),
            first_beside(all, file@) == first_beside(all.skip(i as int), file@),
        decreases candidates.len() - i,
    {
        assert(all.skip(i as int)[0] == candidates[i as int]@);
        if in_same_directory(candidates[i].as_str(), file) {
            return Some(candidates[i].clone());
        }
        assert(all.skip(i as int).drop_first() == all.skip(i + 1));
        i += 1;
    }
    None
}

/// The still cover images among the files found, resource forks left out.
pub open spec fn cover_files(all_files: Seq<Seq<char>>) -> Seq<Seq<char>> {
    all_files.filter(|p: Seq<char>| !is_hidden(p) && is_cover(p))
}

/// The animated covers among the files found, resource forks left out.
pub open spec fn animated_cover_files(all_files: Seq<Seq<char>>) -> Seq<Seq<char>> {
    all_files.filter(|p: Seq<char>| !is_hidden(p) && is_animated_cover(p))
}

/// Picks the still cover images out of the files found.
pub fn find_cover_files(all_files: &Vec<String>) -> (covers: Vec<String>)
    ensures
        covers.deep_view() == cover_files(all_files.deep_view()),
{
    let ghost all = all_files.deep_view();
    let ghost keep = |p: Seq<char>| !is_hidden(p) && is_cover(p);
    let mut covers: Vec<String> = Vec::new();
    let mut i: usize = 0;
    proof {
        reveal(Seq::filter);
        assert(covers.deep_view() =~= all.take(0).filter(keep));
    }
    while i < all_files.len()
        invariant
            all == all_files.deep_view(),
            keep == |p: Seq<char>| !is_hidden(p) && is_cover(p),
            i <= all_files.len(),
            covers.deep_view() == all.take(i as int).filter(keep),
        decreases all_files.len() - i,
    {
        let path = &all_files[i];
        proof {
            reveal(Seq::filter);
            let next = all.take(i + 1);
            assert(next.drop_last() == all.take(i as int));
            assert(next.last() == path@);
        }
        if !is_hidden_file(path.as_str()) && is_cover_file(path.as_str()) {
            let ghost before = covers;
            let copy = path.clone();
            covers.push(copy);
            proof {
                lemma_deep_view_push(before, covers, copy);
            }
        }
        i += 1;
    }
    assert(all.take(all.len() as int) == all);
    covers
}

/// Picks the animated covers out of the files found.
pub fn find_animated_cover_files(all_files: &Vec<String>) -> (covers: Vec<String>)
    ensures
        covers.deep_view() == animated_cover_files(all_files.deep_view()),
{
    let ghost all = all_files.deep_view();
    let ghost keep = |p: Seq<char>| !is_hidden(p) && is_animated_cover(p);
    let mut covers: Vec<String> = Vec::new();
    let mut i: usize = 0;
    proof {
        reveal(Seq::filter);
        assert(covers.deep_view() =~= all.take(0).filter(keep));
    }
    while i < all_files.len()
        invariant
            all == all_files.deep_view(),
            keep == |p: Seq<char>| !is_hidden(p) && is_animated_cover(p),
            i <= all_files.len(),
            covers.deep_view() == all.take(i as int).filter(keep),
        decreases all_files.len() - i,
    {
        let path = &all_files[i];
        proof {
            reveal(Seq::filter);
            let next = all.take(i + 1);
            assert(next.drop_last() == all.take(i as int));
            assert(next.last() == path@);
        }
        if !is_hidden_file(path.as_str()) && is_animated_cover_file(path.as_str()) {
            let ghost before = covers;
            let copy = path.clone();
            covers.push(copy);
            proof {
                lemma_deep_view_push(before, covers, copy);
            }
        }
        i += 1;
    }
    assert(all.take(all.len() as int) == all);
    covers
}

} // verus!
