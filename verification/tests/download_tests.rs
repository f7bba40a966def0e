use squid_downloader::download::{
    cover_extension, is_png_extension, extension_for, fetch_plan, is_mp4_mime, join_path_text, needs_flac_conversion,
    DirMode, DownloadJob, DownloadManager, FetchPlan,
};
use squid_downloader::error::DownloadError;
use squid_downloader::types::{AudioQuality, DownloadManifest, TrackInfo};

fn track(title: &str, album: Option<&str>) -> TrackInfo {
    TrackInfo {
        id: 1,
        title: title.to_string(),
        artist: "Kate Bush".to_string(),
        album: album.map(|a| a.to_string()),
        duration: None,
        quality: None,
        cover_url: None,
        isrc: None,
        spotify_id: None,
        album_id: None,
    }
}

fn manifest(mime: Option<&str>, quality: AudioQuality) -> DownloadManifest {
    DownloadManifest {
        url: Some("https://cdn.example/a".to_string()),
        segment_urls: None,
        quality,
        bit_depth: None,
        sample_rate: None,
        mime_type: mime.map(|m| m.to_string()),
    }
}

#[test]
fn manager_defaults() {
    let m = DownloadManager::new("downloads");
    assert_eq!(m.output_dir, "downloads");
    assert!(m.album.is_none());
    assert!(m.playlist.is_none());
    assert_eq!(m.dir_mode, DirMode::Playlist);
    assert!(m.embed_cover);
    let m = m.with_embed_cover(false).with_album(Some("A")).with_playlist(Some("P")).with_dir_mode(DirMode::Flat);
    assert!(!m.embed_cover);
    assert_eq!(m.album.as_deref(), Some("A"));
    assert_eq!(m.playlist.as_deref(), Some("P"));
    assert_eq!(m.dir_mode, DirMode::Flat);
}

#[test]
fn playlist_mode_without_playlist() {
    let m = DownloadManager::new("downloads");
    assert_eq!(
        m.generate_filename(&track("Levels", None), "flac"),
        "downloads/Unknown Playlist/Levels.flac"
    );
}

#[test]
fn playlist_mode_with_playlist() {
    let m = DownloadManager::new("downloads").with_playlist(Some("Favorite Songs"));
    assert_eq!(
        m.generate_filename(&track("Levels", None), "m4a"),
        "downloads/Favorite Songs/Levels.m4a"
    );
}

#[test]
fn unsafe_characters_are_removed_from_names() {
    let m = DownloadManager::new("downloads").with_dir_mode(DirMode::Flat);
    assert_eq!(
        m.generate_filename(&track("AC/DC: Live?", None), "flac"),
        "downloads/ACDC Live.flac"
    );
}

#[test]
fn artist_and_album_modes() {
    let m = DownloadManager::new("out").with_dir_mode(DirMode::Artist);
    assert_eq!(m.generate_filename(&track("Cloudbusting", None), "flac"), "out/Kate Bush/Cloudbusting.flac");
    let m = DownloadManager::new("out").with_dir_mode(DirMode::Album).with_album(Some("Fallback"));
    assert_eq!(
        m.generate_filename(&track("Cloudbusting", Some("Hounds Of Love")), "flac"),
        "out/Hounds Of Love/Cloudbusting.flac"
    );
    assert_eq!(m.generate_filename(&track("Cloudbusting", None), "flac"), "out/Fallback/Cloudbusting.flac");
    let m = DownloadManager::new("out").with_dir_mode(DirMode::Album);
    assert_eq!(m.generate_filename(&track("X", None), "mp3"), "out/Unknown Album/X.mp3");
}

#[test]
fn path_from_parts_uses_fallback_names() {
    let m = DownloadManager::new("out/").with_dir_mode(DirMode::Artist);
    assert_eq!(m.path_from_parts("T", "", "flac"), "out/Unknown Artist/T.flac");
}

#[test]
fn joining_paths() {
    assert_eq!(join_path_text("downloads", "a"), "downloads/a");
    assert_eq!(join_path_text("downloads/", "a"), "downloads/a");
    assert_eq!(join_path_text("", "a"), "a");
    assert_eq!(join_path_text("x", "/abs"), "/abs");
    assert_eq!(
        join_path_text("downloads", "a"),
        std::path::Path::new("downloads").join("a").to_string_lossy()
    );
}

#[test]
fn mp4_mime_types() {
    assert!(is_mp4_mime("audio/mp4"));
    assert!(is_mp4_mime("audio/x-m4a"));
    assert!(is_mp4_mime("audio/aac"));
    assert!(!is_mp4_mime("audio/flac"));
}

#[test]
fn extension_follows_mime_then_quality() {
    assert_eq!(extension_for(&manifest(Some("audio/mp4"), AudioQuality::Lossless)), "flac");
    assert_eq!(extension_for(&manifest(Some("audio/mp4"), AudioQuality::High)), "m4a");
    assert_eq!(extension_for(&manifest(Some("audio/flac"), AudioQuality::High)), "flac");
    assert_eq!(extension_for(&manifest(Some("audio/mpeg"), AudioQuality::Mp3_320)), "mp3");
    assert_eq!(extension_for(&manifest(None, AudioQuality::Low)), "m4a");
}

#[test]
fn lossless_mp4_needs_conversion() {
    assert!(needs_flac_conversion(&manifest(Some("audio/mp4"), AudioQuality::HiResLossless)));
    assert!(!needs_flac_conversion(&manifest(Some("audio/mp4"), AudioQuality::High)));
    assert!(!needs_flac_conversion(&manifest(Some("audio/flac"), AudioQuality::Lossless)));
    assert!(!needs_flac_conversion(&manifest(None, AudioQuality::Lossless)));
}

#[test]
fn fetch_plans() {
    let m = manifest(None, AudioQuality::High);
    match fetch_plan(&m) {
        Ok(FetchPlan::Single(u)) => assert_eq!(u, "https://cdn.example/a"),
        _ => panic!("expected a single URL"),
    }
    let mut m = manifest(None, AudioQuality::High);
    m.url = None;
    m.segment_urls = Some(vec!["s1".to_string(), "s2".to_string()]);
    match fetch_plan(&m) {
        Ok(FetchPlan::Segments(v)) => assert_eq!(v, vec!["s1".to_string(), "s2".to_string()]),
        _ => panic!("expected segments"),
    }
    m.segment_urls = None;
    assert!(matches!(fetch_plan(&m), Err(DownloadError::NoDownloadUrl)));
}

#[test]
fn cover_extensions() {
    assert_eq!(cover_extension("https://resources.tidal.com/images/a/b/1280x1280.jpg"), "jpg");
    assert_eq!(cover_extension("https://x.org/img.png?size=1"), "png");
    assert_eq!(cover_extension("noext"), "noext");
}

#[test]
fn download_job_retries() {
    let t = track("A", None);
    let j = DownloadJob::first_try(&t, &Some("Al".to_string()), &None, DirMode::Album);
    assert_eq!(j.retry_count, 0);
    assert_eq!(j.max_retries, 5);
    assert!(j.last_error.is_none());
    let j = j.retried("boom".to_string());
    assert_eq!(j.retry_count, 1);
    assert_eq!(j.last_error.as_deref(), Some("boom"));
    assert_eq!(j.album.as_deref(), Some("Al"));
    assert_eq!(j.dir_mode, DirMode::Album);
}

#[test]
fn png_covers_in_any_case() {
    assert!(is_png_extension("png"));
    assert!(is_png_extension("PNG"));
    assert!(is_png_extension("pNg"));
    assert!(!is_png_extension("jpg"));
    assert!(!is_png_extension("pngx"));
    assert!(!is_png_extension(""));
}

#[test]
fn track_album_wins_over_manager_album() {
    let m = DownloadManager::new("/music").with_dir_mode(DirMode::Album).with_album(Some("Fallback"));
    assert_eq!(m.generate_filename(&track("Levels", Some("True")), "flac"), "/music/True/Levels.flac");
}

#[test]
fn default_manager_uses_unknown_playlist_folder() {
    let m = DownloadManager::new("/music");
    assert_eq!(m.generate_filename(&track("Levels", Some("True")), "flac"), "/music/Unknown Playlist/Levels.flac");
}
