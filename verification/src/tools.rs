//! Choices about the programs that the player calls on: the downloader that
//! resolves a track's URL, and the file manager that shows a file.

use vstd::prelude::*;
use vstd::string::*;
use crate::paths::{parent, path_parent};
use crate::text::to_chars;

verus! {

/// The downloader to call, given which of the two are installed: `yt-dlp`
/// before `youtube-dl`.
pub open spec fn downloader_for(yt_dlp: bool, youtube_dl: bool) -> Option<Seq<char>> {
    if yt_dlp {
        Some("yt-dlp"@)
    } else if youtube_dl {
        Some("youtube-dl"@)
    } else {
        None
    }
}

/// Picks the downloader to call. `None` where neither is installed.
pub fn pick_downloader(yt_dlp: bool, youtube_dl: bool) -> (name: Option<String>)
    ensures
        name.deep_view() == downloader_for(yt_dlp, youtube_dl),
{
    if yt_dlp {
        Some(String::from_str("yt-dlp"))
    } else if youtube_dl {
        Some(String::from_str("youtube-dl"))
    } else {
        None
    }
}

/// The arguments that make the downloader print the URL of the best M4A
/// audio stream of a track.
pub open spec fn url_query(track_url: Seq<char>) -> Seq<Seq<char>> {
    seq![
        "-f"@,
        "bestaudio[ext=m4a]"@,
        "--get-url"@,
        "--extractor-args"@,
        "youtube:player-client=web"@,
        "--socket-timeout"@,
        "10"@,
        track_url,
    ]
}

/// The arguments to call the downloader with for `track_url`.
pub fn downloader_arguments(track_url: &str) -> (arguments: Vec<String>)
    ensures
        arguments.deep_view() == url_query(track_url@),
{
    let mut arguments: Vec<String> = Vec::new();
    arguments.push(String::from_str("-f"));
    arguments.push(String::from_str("bestaudio[ext=m4a]"));
    arguments.push(String::from_str("--get-url"));
    arguments.push(String::from_str("--extractor-args"));
    arguments.push(String::from_str("youtube:player-client=web"));
    arguments.push(String::from_str("--socket-timeout"));
    arguments.push(String::from_str("10"));
    arguments.push(String::from_str(track_url));
    assert(arguments.deep_view() =~= url_query(track_url@));
    arguments
}

/// The file manager can be asked over the session bus to show the file:
/// there is a bus, and the path holds no comma, which the bus would take for
/// a separator.
pub open spec fn shown_by_file_manager(has_session_bus: bool, path: Seq<char>) -> bool {
    has_session_bus && !path.contains(',')
}

/// Whether to ask the file manager to show the file. Where not, its folder
/// is opened instead.
pub fn ask_file_manager(has_session_bus: bool, path: &str) -> (ask: bool)
    ensures
        ask == shown_by_file_manager(has_session_bus, path@),
{
    if !has_session_bus {
        return false;
    }
    let chars = to_chars(path);
    let mut i: usize = 0;
    while i < chars.len()
        invariant
            chars@ == path@,
            i <= chars.len(),
            forall|j: int| 0 <= j < i ==> chars@[j] != ',',
        decreases chars.len() - i,
    {
        if chars[i] == ',' {
            assert(path@[i as int] == ',');
            return false;
        }
        i += 1;
    }
    true
}

/// The folder to open for a path: the path itself where it is a directory,
/// else the directory that holds it, or the path as it is where it has none.
pub open spec fn folder_of(path: Seq<char>, is_dir: bool) -> Seq<char> {
    if is_dir {
        path
    } else {
        match path_parent(path) {
            Some(dir) => dir,
            None => path,
        }
    }
}

/// The folder to open in order to show the file at `path`.
pub fn folder_to_open(path: &str, is_dir: bool) -> (folder: String)
    ensures
        folder@ == folder_of(path@, is_dir),
{
    if is_dir {
        return String::from_str(path);
    }
    match parent(path) {
        Some(dir) => dir,
        None => String::from_str(path),
    }
}

} // verus!
