//! Classification of file paths by their final component.
//!
//! Paths are taken apart by `std::path::Path`, as the platform the library
//! is built for reads them. The final component of a path and its parent are
//! named here as `Path` gives them; stem and extension are read off the final
//! component, and the rules of the indexer are stated over these.

use vstd::prelude::*;
use vstd::string::*;
use crate::text::{
    ascii_lowercase,
    has_prefix,
    push_char,
    same_text,
    starts_with,
    to_ascii_lowercase,
    to_chars,
};

verus! {

/// The final component of the path, as `Path::file_name` gives it on the
/// platform the library is built for.
pub uninterp spec fn path_file_name(path: Seq<char>) -> Option<Seq<char>>;

/// The path without its final component, as `Path::parent` gives it on the
/// platform the library is built for.
pub uninterp spec fn path_parent(path: Seq<char>) -> Option<Seq<char>>;

/// The final component of `path`.
///
/// Trusted: calls `Path::file_name`. The path is valid UTF-8, so is every
/// component of it, and the conversion back to a string loses nothing.
#[verifier::external_body]
pub(crate) fn file_name(path: &str) -> (r: Option<String>)
    ensures
        r.deep_view() == path_file_name(path@),
{
    std::path::Path::new(path).file_name().and_then(|n| n.to_str()).map(|n| n.to_string())
}

/// `path` without its final component.
///
/// Trusted: calls `Path::parent`.
#[verifier::external_body]
pub(crate) fn parent(path: &str) -> (r: Option<String>)
    ensures
        r.deep_view() == path_parent(path@),
{
    std::path::Path::new(path).parent().and_then(|n| n.to_str()).map(|n| n.to_string())
}

/// The position of the last dot in `name`, or -1 where it has none.
pub open spec fn last_dot(name: Seq<char>) -> int
    decreases name.len(),
{
    if name.len() == 0 {
        -1
    } else if name.last() == '.' {
        name.len() - 1
    } else {
        last_dot(name.drop_last())
    }
}

/// The name splits into a stem and an extension: it has a dot after its
/// first character, and is not `..`.
pub open spec fn splits(name: Seq<char>) -> bool {
    last_dot(name) > 0 && name != seq!['.', '.']
}

/// The name without its extension: what stands before the last dot, or the
/// whole name where it does not split.
pub open spec fn stem_of(name: Seq<char>) -> Seq<char> {
    if splits(name) {
        name.take(last_dot(name))
    } else {
        name
    }
}

/// The extension of the name: what stands after the last dot, if the name
/// splits.
pub open spec fn extension_of(name: Seq<char>) -> Option<Seq<char>> {
    if splits(name) {
        Some(name.skip(last_dot(name) + 1))
    } else {
        None
    }
}

/// The final component of the path without its extension.
pub open spec fn path_file_stem(path: Seq<char>) -> Option<Seq<char>> {
    match path_file_name(path) {
        Some(name) => Some(stem_of(name)),
        None => None,
    }
}

/// The extension of the final component of the path.
pub open spec fn path_extension(path: Seq<char>) -> Option<Seq<char>> {
    match path_file_name(path) {
        Some(name) => extension_of(name),
        None => None,
    }
}

proof fn lemma_last_dot(name: Seq<char>, after: int)
    requires
        0 <= after <= name.len(),
        after == 0 || name[after - 1] == '.',
        forall|j: int| after <= j < name.len() ==> name[j] != '.',
    ensures
        last_dot(name) == after - 1,
    decreases name.len() - after,
{
    if after < name.len() {
        let init = name.drop_last();
        assert(after == 0 || init[after - 1] == name[after - 1]);
        assert forall|j: int| after <= j < init.len() implies init[j] != '.' by {
            assert(init[j] == name[j]);
        }
        lemma_last_dot(init, after);
    } else if after == 0 {
    } else {
        assert(name.last() == name[after - 1]);
    }
}

fn text_between(chars: &Vec<char>, from: usize, to: usize) -> (text: String)
    requires
        from <= to <= chars.len(),
    ensures
        text@ == chars@.subrange(from as int, to as int),
{
    let mut text = String::new();
    let mut i: usize = from;
    while i < to
        invariant
            from <= i <= to <= chars.len(),
            text@ == chars@.subrange(from as int, i as int),
        decreases to - i,
    {
        push_char(&mut text, chars[i]);
        assert(chars@.subrange(from as int, i + 1) == chars@.subrange(from as int, i as int).push(
            chars@[i as int],
        ));
        i += 1;
    }
    text
}

/// Splits a file name into its stem and its extension, at the last dot.
/// A name without a dot, one whose only dot comes first, and `..` have no
/// extension and are their own stem.
pub fn split_name(name: &str) -> (parts: (String, Option<String>))
    ensures
        parts.0@ == stem_of(name@),
        parts.1.deep_view() == extension_of(name@),
{
    let chars = to_chars(name);
    let mut after: usize = chars.len();
    while after > 0 && chars[after - 1] != '.'
        invariant
            after <= chars.len(),
            forall|j: int| after <= j < chars.len() ==> chars@[j] != '.',
        decreases after,
    {
        after -= 1;
    }
    proof {
        lemma_last_dot(chars@, after as int);
    }
    let is_dots = chars.len() == 2 && chars[0] == '.' && chars[1] == '.';
    assert(is_dots == (name@ == seq!['.', '.'])) by {
        if is_dots {
            assert(name@ =~= seq!['.', '.']);
        }
    }
    if after <= 1 || is_dots {
        return (String::from_str(name), None);
    }
    let stem = text_between(&chars, 0, after - 1);
    let extension = text_between(&chars, after, chars.len());
    (stem, Some(extension))
}

/// The final component of `path` without its extension, if the path has a
/// final component.
pub fn file_stem(path: &str) -> (r: Option<String>)
    ensures
        r.deep_view() == path_file_stem(path@),
{
    match file_name(path) {
        Some(name) => Some(split_name(name.as_str()).0),
        None => None,
    }
}

/// The extension of the final component of `path`, without the dot.
pub fn extension(path: &str) -> (r: Option<String>)
    ensures
        r.deep_view() == path_extension(path@),
{
    match file_name(path) {
        Some(name) => split_name(name.as_str()).1,
        None => None,
    }
}

/// A path with an extension has a stem.
pub proof fn extension_implies_stem(path: Seq<char>)
    ensures
        path_extension(path) is Some ==> path_file_stem(path) is Some,
{
}

/// Extensions of the audio formats the indexer takes in.
pub open spec fn is_audio_extension(e: Seq<char>) -> bool {
    e == "wav"@ || e == "wave"@ || e == "mp3"@ || e == "m4a"@ || e == "aac"@ || e == "ogg"@ || e
        == "flac"@ || e == "webm"@ || e == "caf"@
}

/// Extensions of still cover images.
pub open spec fn is_cover_extension(e: Seq<char>) -> bool {
    e == "jpg"@ || e == "jpeg"@ || e == "png"@ || e == "gif"@
}

/// Extensions of animated covers.
pub open spec fn is_animated_cover_extension(e: Seq<char>) -> bool {
    e == "mp4"@ || e == "webm"@ || e == "mov"@
}

/// A resource fork or similar: the final component begins with `._`.
pub open spec fn is_hidden(path: Seq<char>) -> bool {
    path_file_name(path) matches Some(name) && has_prefix(name, "._"@)
}

/// The extension of the path, case-folded, is an audio extension.
pub open spec fn is_audio(path: Seq<char>) -> bool {
    path_extension(path) matches Some(e) && is_audio_extension(ascii_lowercase(e))
}

/// The extension of the path, case-folded, satisfies `allowed`, and its stem,
/// case-folded, is `stem`.
pub open spec fn is_named(
    path: Seq<char>,
    stem: Seq<char>,
    allowed: spec_fn(Seq<char>) -> bool,
) -> bool {
    &&& path_file_stem(path) matches Some(s) && ascii_lowercase(s) == stem
    &&& path_extension(path) matches Some(e) && allowed(ascii_lowercase(e))
}

/// A still cover image: `cover.jpg`, `cover.jpeg`, `cover.png` or `cover.gif`
/// in any letter case.
pub open spec fn is_cover(path: Seq<char>) -> bool {
    is_named(path, "cover"@, |e: Seq<char>| is_cover_extension(e))
}

/// An animated cover: `anim.mp4`, `anim.webm` or `anim.mov` in any letter
/// case.
pub open spec fn is_animated_cover(path: Seq<char>) -> bool {
    is_named(path, "anim"@, |e: Seq<char>| is_animated_cover_extension(e))
}

/// The two paths lie in the same directory.
pub open spec fn same_directory(a: Seq<char>, b: Seq<char>) -> bool {
    path_parent(a) is Some && path_parent(a) == path_parent(b)
}

/// The name of the directory that holds `path`.
pub open spec fn directory_name(path: Seq<char>) -> Option<Seq<char>> {
    match path_parent(path) {
        Some(dir) => path_file_name(dir),
        None => None,
    }
}

/// The name of the directory above the one that holds `path`.
pub open spec fn upper_directory_name(path: Seq<char>) -> Option<Seq<char>> {
    match path_parent(path) {
        Some(dir) => directory_name(dir),
        None => None,
    }
}

fn audio_extension(e: &str) -> (r: bool)
    ensures
        r == is_audio_extension(e@),
{
    same_text(e, "wav") || same_text(e, "wave") || same_text(e, "mp3") || same_text(e, "m4a")
        || same_text(e, "aac") || same_text(e, "ogg") || same_text(e, "flac") || same_text(
        e,
        "webm",
    ) || same_text(e, "caf")
}

fn cover_extension(e: &str) -> (r: bool)
    ensures
        r == is_cover_extension(e@),
{
    same_text(e, "jpg") || same_text(e, "jpeg") || same_text(e, "png") || same_text(e, "gif")
}

fn animated_cover_extension(e: &str) -> (r: bool)
    ensures
        r == is_animated_cover_extension(e@),
{
    same_text(e, "mp4") || same_text(e, "webm") || same_text(e, "mov")
}

/// Whether the final component of `path` begins with `._`.
pub fn is_hidden_file(path: &str) -> (r: bool)
    ensures
        r == is_hidden(path@),
{
    match file_name(path) {
        Some(name) => starts_with(name.as_str(), "._"),
        None => false,
    }
}

/// Whether `path` has an audio extension, in any letter case.
pub fn is_audio_file(path: &str) -> (r: bool)
    ensures
        r == is_audio(path@),
{
    match extension(path) {
        Some(e) => {
            let folded = to_ascii_lowercase(e.as_str());
            audio_extension(folded.as_str())
        },
        None => false,
    }
}

/// Whether `path` names a still cover image.
pub fn is_cover_file(path: &str) -> (r: bool)
    ensures
        r == is_cover(path@),
{
    match file_stem(path) {
        Some(s) => {
            let stem = to_ascii_lowercase(s.as_str());
            if !same_text(stem.as_str(), "cover") {
                return false;
            }
        },
        None => {
            return false;
        },
    }
    match extension(path) {
        Some(e) => {
            let folded = to_ascii_lowercase(e.as_str());
            cover_extension(folded.as_str())
        },
        None => false,
    }
}

/// Whether `path` names an animated cover.
pub fn is_animated_cover_file(path: &str) -> (r: bool)
    ensures
        r == is_animated_cover(path@),
{
    match file_stem(path) {
        Some(s) => {
            let stem = to_ascii_lowercase(s.as_str());
            if !same_text(stem.as_str(), "anim") {
                return false;
            }
        },
        None => {
            return false;
        },
    }
    match extension(path) {
        Some(e) => {
            let folded = to_ascii_lowercase(e.as_str());
            animated_cover_extension(folded.as_str())
        },
        None => false,
    }
}

/// Whether `a` and `b` lie in the same directory.
pub fn in_same_directory(a: &str, b: &str) -> (r: bool)
    ensures
        r == same_directory(a@, b@),
{
    match parent(a) {
        Some(x) => match parent(b) {
            Some(y) => same_text(x.as_str(), y.as_str()),
            None => false,
        },
        None => false,
    }
}

/// The name of the directory that holds `path`, if it has one.
pub fn directory_name_of(path: &str) -> (r: Option<String>)
    ensures
        r.deep_view() == directory_name(path@),
{
    match parent(path) {
        Some(dir) => file_name(dir.as_str()),
        None => None,
    }
}

/// The name of the directory above the one that holds `path`, if it has one.
pub fn upper_directory_name_of(path: &str) -> (r: Option<String>)
    ensures
        r.deep_view() == upper_directory_name(path@),
{
    match parent(path) {
        Some(dir) => directory_name_of(dir.as_str()),
        None => None,
    }
}

} // verus!
