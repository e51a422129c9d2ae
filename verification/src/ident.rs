//! Stable identifiers derived from the textual metadata of a track.
//!
//! An identifier is the MD5 digest, in lowercase hexadecimal, of a name after
//! it has been lowercased and stripped of every character outside
//! `[a-z0-9 -]`. Album and track identifiers are derived from composite names
//! so that they are reproducible from metadata alone.

use vstd::prelude::*;
use vstd::string::*;
use vstd::utf8::*;
use crate::text::push_char;

verus! {

/// The result of `str::to_lowercase` on a string with the given characters.
pub uninterp spec fn lowercase(s: Seq<char>) -> Seq<char>;

/// The lowercase hexadecimal rendering of the MD5 digest of `data`.
pub uninterp spec fn md5_hex(data: Seq<u8>) -> Seq<char>;

/// Lowercases `s` by the Unicode rules.
///
/// Trusted: calls `str::to_lowercase`, whose result depends on the characters
/// of `s` alone.
#[verifier::external_body]
fn to_lowercase(s: &str) -> (r: String)
    ensures
        r@ == lowercase(s@),
{
    s.to_lowercase()
}

/// The MD5 digest of `data` in lowercase hexadecimal.
///
/// Trusted: calls `md5::compute` and formats the digest with `{:x}`. The
/// digest has sixteen bytes and each is written as two lowercase hexadecimal
/// digits, so the result has thirty-two of them.
#[verifier::external_body]
fn md5_digest_hex(data: &[u8]) -> (r: String)
    ensures
        r@ == md5_hex(data@),
        is_hex_id(r@),
{
    format!("{:x}", md5::compute(data))
}

/// Whether `c` is a decimal digit or one of the letters `a` to `f`.
pub open spec fn is_lower_hex(c: char) -> bool {
    ('0' <= c && c <= '9') || ('a' <= c && c <= 'f')
}

/// Whether `s` has the shape of an identifier: thirty-two lowercase
/// hexadecimal digits.
pub open spec fn is_hex_id(s: Seq<char>) -> bool {
    s.len() == 32 && forall|i: int| 0 <= i < s.len() ==> is_lower_hex(#[trigger] s[i])
}

/// Whether `c` survives the stripping step: a small letter, a digit, a space
/// or a hyphen.
pub open spec fn is_id_char(c: char) -> bool {
    ('a' <= c && c <= 'z') || ('0' <= c && c <= '9') || c == ' ' || c == '-'
}

/// The characters of `s` that identifiers are computed from.
pub open spec fn significant(s: Seq<char>) -> Seq<char> {
    lowercase(s).filter(|c: char| is_id_char(c))
}

/// The identifier of `name`.
pub open spec fn id_of(name: Seq<char>) -> Seq<char> {
    md5_hex(encode_utf8(significant(name)))
}

/// The name an album identifier is computed from.
pub open spec fn album_key(album: Seq<char>, album_artist_id: Seq<char>) -> Seq<char> {
    album + seq!['-'] + album_artist_id
}

/// The name a track identifier is computed from.
pub open spec fn track_key(title: Seq<char>, artist_id: Seq<char>, album_id: Seq<char>) -> Seq<
    char,
> {
    title + seq!['-'] + artist_id + seq!['-'] + album_id
}

/// The identifier of the album `album` by the artist with identifier
/// `album_artist_id`.
pub open spec fn album_id_of(album: Seq<char>, album_artist_id: Seq<char>) -> Seq<char> {
    id_of(album_key(album, album_artist_id))
}

/// The identifier of the track `title` by artist `artist_id` on album
/// `album_id`.
pub open spec fn track_id_of(title: Seq<char>, artist_id: Seq<char>, album_id: Seq<char>) -> Seq<
    char,
> {
    id_of(track_key(title, artist_id, album_id))
}

fn keep_id_char(c: char) -> (r: bool)
    ensures
        r == is_id_char(c),
{
    ('a' <= c && c <= 'z') || ('0' <= c && c <= '9') || c == ' ' || c == '-'
}

/// Removes from `s` every character outside `[a-z0-9 -]`.
pub fn strip(s: &str) -> (r: String)
    ensures
        r@ == s@.filter(|c: char| is_id_char(c)),
{
    let mut out = String::new();
    proof {
        reveal(Seq::filter);
    }
    for c in iter: s.chars()
        invariant
            iter.seq() == s@,
            out@ == s@.take(iter.index()).filter(|c: char| is_id_char(c)),
    {
        proof {
            reveal(Seq::filter);
            let next = s@.take(iter.index() + 1);
            assert(next.drop_last() == s@.take(iter.index()));
            assert(next.last() == c);
        }
        if keep_id_char(c) {
            push_char(&mut out, c);
        }
    }
    assert(s@.take(s@.len() as int) == s@);
    out
}

/// Derives the identifier of `name`.
pub fn idify(name: &str) -> (id: String)
    ensures
        id@ == id_of(name@),
        is_hex_id(id@),
{
    let lowered = to_lowercase(name);
    let stripped = strip(lowered.as_str());
    md5_digest_hex(stripped.as_str().as_bytes())
}

/// Derives the identifier of an album from its name and the identifier of its
/// album artist.
pub fn album_id(album: &str, album_artist_id: &str) -> (id: String)
    ensures
        id@ == album_id_of(album@, album_artist_id@),
        is_hex_id(id@),
{
    let mut key = String::from_str(album);
    push_char(&mut key, '-');
    key.append(album_artist_id);
    assert(key@ =~= album_key(album@, album_artist_id@));
    idify(key.as_str())
}

/// Derives the identifier of a track from its title and the identifiers of
/// its artist and album.
pub fn track_id(title: &str, artist_id: &str, album_id: &str) -> (id: String)
    ensures
        id@ == track_id_of(title@, artist_id@, album_id@),
        is_hex_id(id@),
{
    let mut key = String::from_str(title);
    push_char(&mut key, '-');
    key.append(artist_id);
    push_char(&mut key, '-');
    key.append(album_id);
    assert(key@ =~= track_key(title@, artist_id@, album_id@));
    idify(key.as_str())
}

/// An identifier depends only on the characters of the lowercased name that
/// lie in `[a-z0-9 -]`: names that agree on them have the same identifier.
pub proof fn id_depends_on_significant_characters(a: Seq<char>, b: Seq<char>)
    requires
        significant(a) == significant(b),
    ensures
        id_of(a) == id_of(b),
{
}

/// Every character that an identifier is computed from lies in `[a-z0-9 -]`.
pub proof fn significant_characters_are_plain(name: Seq<char>)
    ensures
        forall|i: int|
            0 <= i < significant(name).len() ==> is_id_char(#[trigger] significant(name)[i]),
{
    let pred = |c: char| is_id_char(c);
    assert forall|i: int| 0 <= i < significant(name).len() implies is_id_char(
        #[trigger] significant(name)[i],
    ) by {
        lowercase(name).lemma_filter_pred(pred, i);
    }
}

} // verus!
