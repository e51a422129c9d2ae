use music_core::tools::{ask_file_manager, downloader_arguments, folder_to_open, pick_downloader};

#[test]
fn yt_dlp_is_preferred() {
    assert_eq!(pick_downloader(true, true), Some("yt-dlp".to_string()));
    assert_eq!(pick_downloader(true, false), Some("yt-dlp".to_string()));
    assert_eq!(pick_downloader(false, true), Some("youtube-dl".to_string()));
    assert_eq!(pick_downloader(false, false), None);
}

#[test]
fn downloader_is_asked_for_the_url_of_the_m4a_stream() {
    assert_eq!(
        downloader_arguments("https://example.org/watch?v=1"),
        vec![
            "-f",
            "bestaudio[ext=m4a]",
            "--get-url",
            "--extractor-args",
            "youtube:player-client=web",
            "--socket-timeout",
            "10",
            "https://example.org/watch?v=1",
        ]
    );
}

#[test]
fn file_manager_is_asked_unless_the_path_has_a_comma() {
    assert!(ask_file_manager(true, "/music/a.mp3"));
    assert!(!ask_file_manager(true, "/music/a, b.mp3"));
    assert!(!ask_file_manager(true, ","));
    assert!(!ask_file_manager(false, "/music/a.mp3"));
    assert!(ask_file_manager(true, ""));
}

#[test]
fn folder_of_a_file_is_its_directory() {
    assert_eq!(folder_to_open("/music/album/a.mp3", false), "/music/album");
    assert_eq!(folder_to_open("/music/album", true), "/music/album");
    assert_eq!(folder_to_open("/music/album", false), "/music");
    assert_eq!(folder_to_open("/", false), "/");
    assert_eq!(folder_to_open("a.mp3", false), "");
}
