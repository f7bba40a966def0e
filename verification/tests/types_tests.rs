use squid_downloader::types::{AudioQuality, Service, TrackInfo};

fn track(duration: Option<u32>) -> TrackInfo {
    TrackInfo {
        id: 48717877,
        title: "Levels".to_string(),
        artist: "Avicii".to_string(),
        album: Some("Levels".to_string()),
        duration,
        quality: Some(AudioQuality::Lossless),
        cover_url: None,
        isrc: None,
        spotify_id: None,
        album_id: None,
    }
}

#[test]
fn quality_codes() {
    assert_eq!(AudioQuality::HiResLossless.as_str(), "HI_RES_LOSSLESS");
    assert_eq!(AudioQuality::Lossless.as_str(), "LOSSLESS");
    assert_eq!(AudioQuality::High.as_str(), "HIGH");
    assert_eq!(AudioQuality::Low.as_str(), "LOW");
    assert_eq!(AudioQuality::Mp3_320.as_str(), "MP3_320");
    assert_eq!(AudioQuality::Auto.as_str(), "AUTO");
}

#[test]
fn quality_descriptions() {
    assert_eq!(AudioQuality::HiResLossless.description(), "24-bit/192kHz FLAC (Hi-Res)");
    assert_eq!(AudioQuality::Lossless.description(), "16-bit/44.1kHz FLAC (CD Quality)");
    assert_eq!(AudioQuality::High.description(), "320kbps AAC");
    assert_eq!(AudioQuality::Low.description(), "96kbps AAC");
    assert_eq!(AudioQuality::Mp3_320.description(), "320kbps MP3");
    assert_eq!(AudioQuality::Auto.description(), "Best available");
}

#[test]
fn quality_display_is_description() {
    assert_eq!(AudioQuality::High.to_display_string(), "320kbps AAC");
    assert_eq!(AudioQuality::Auto.to_display_string(), "Best available");
}

#[test]
fn quality_extensions() {
    assert_eq!(AudioQuality::HiResLossless.file_extension(), "flac");
    assert_eq!(AudioQuality::Lossless.file_extension(), "flac");
    assert_eq!(AudioQuality::High.file_extension(), "m4a");
    assert_eq!(AudioQuality::Low.file_extension(), "m4a");
    assert_eq!(AudioQuality::Mp3_320.file_extension(), "mp3");
    assert_eq!(AudioQuality::Auto.file_extension(), "flac");
}

#[test]
fn quality_lossless_levels() {
    assert!(AudioQuality::HiResLossless.lossless());
    assert!(AudioQuality::Lossless.lossless());
    assert!(!AudioQuality::High.lossless());
    assert!(!AudioQuality::Auto.lossless());
}

#[test]
fn quality_all_lists_four_levels() {
    assert_eq!(
        AudioQuality::all(),
        vec![
            AudioQuality::HiResLossless,
            AudioQuality::Lossless,
            AudioQuality::High,
            AudioQuality::Low
        ]
    );
}

#[test]
fn quality_default_is_auto() {
    assert_eq!(AudioQuality::default(), AudioQuality::Auto);
}

#[test]
fn quality_names_ignore_case() {
    assert_eq!(AudioQuality::from_name("hires"), Ok(AudioQuality::HiResLossless));
    assert_eq!(AudioQuality::from_name("Hi-Res"), Ok(AudioQuality::HiResLossless));
    assert_eq!(AudioQuality::from_name("master"), Ok(AudioQuality::HiResLossless));
    assert_eq!(AudioQuality::from_name("Flac"), Ok(AudioQuality::Lossless));
    assert_eq!(AudioQuality::from_name("cd"), Ok(AudioQuality::Lossless));
    assert_eq!(AudioQuality::from_name("320"), Ok(AudioQuality::High));
    assert_eq!(AudioQuality::from_name("aac96"), Ok(AudioQuality::Low));
    assert_eq!(AudioQuality::from_name("mp3"), Ok(AudioQuality::Mp3_320));
    assert_eq!(AudioQuality::from_name("auto"), Ok(AudioQuality::Auto));
}

#[test]
fn quality_unknown_name_is_reported() {
    assert_eq!(
        AudioQuality::from_name("bogus"),
        Err("Unknown quality: bogus".to_string())
    );
    assert_eq!(AudioQuality::from_name(""), Err("Unknown quality: ".to_string()));
}

#[test]
fn quality_parses_through_from_str() {
    let q: Result<AudioQuality, String> = "lossless".parse();
    assert_eq!(q, Ok(AudioQuality::Lossless));
}

#[test]
fn quality_code_reads_back() {
    for q in [
        AudioQuality::HiResLossless,
        AudioQuality::Lossless,
        AudioQuality::High,
        AudioQuality::Low,
        AudioQuality::Mp3_320,
        AudioQuality::Auto,
    ] {
        assert_eq!(AudioQuality::from_name(q.as_str()), Ok(q));
    }
}

#[test]
fn service_codes_and_names() {
    assert_eq!(Service::Tidal.as_str(), "tidal");
    assert_eq!(Service::AmazonMusic.as_str(), "amazon");
    assert_eq!(Service::SoundCloud.as_str(), "soundcloud");
    assert_eq!(Service::KHInsider.as_str(), "khinsider");
    assert_eq!(Service::Tidal.display_name(), "Tidal");
    assert_eq!(Service::AmazonMusic.display_name(), "Amazon Music");
    assert_eq!(Service::SoundCloud.display_name(), "SoundCloud");
    assert_eq!(Service::KHInsider.display_name(), "KHInsider");
    assert_eq!(Service::AmazonMusic.to_display_string(), "Amazon Music");
}

#[test]
fn service_all_lists_four() {
    assert_eq!(
        Service::all(),
        vec![
            Service::Tidal,
            Service::AmazonMusic,
            Service::SoundCloud,
            Service::KHInsider
        ]
    );
}

#[test]
fn service_names_ignore_case() {
    assert_eq!(Service::from_name("TIDAL"), Ok(Service::Tidal));
    assert_eq!(Service::from_name("tdl"), Ok(Service::Tidal));
    assert_eq!(Service::from_name("AmazonMusic"), Ok(Service::AmazonMusic));
    assert_eq!(Service::from_name("amz"), Ok(Service::AmazonMusic));
    assert_eq!(Service::from_name("SC"), Ok(Service::SoundCloud));
    assert_eq!(Service::from_name("Kh"), Ok(Service::KHInsider));
    assert_eq!(Service::from_name("khi"), Ok(Service::KHInsider));
    let s: Result<Service, String> = "soundcloud".parse();
    assert_eq!(s, Ok(Service::SoundCloud));
}

#[test]
fn service_unknown_name_is_reported() {
    assert_eq!(
        Service::from_name("spotify"),
        Err("Unknown service: spotify".to_string())
    );
}

#[test]
fn service_code_reads_back() {
    for v in Service::all() {
        assert_eq!(Service::from_name(v.as_str()), Ok(v));
    }
}

#[test]
fn duration_is_minutes_and_seconds() {
    assert_eq!(track(Some(245)).format_duration(), "04:05");
    assert_eq!(track(Some(0)).format_duration(), "00:00");
    assert_eq!(track(Some(59)).format_duration(), "00:59");
    assert_eq!(track(Some(3600)).format_duration(), "60:00");
    assert_eq!(track(Some(6001)).format_duration(), "100:01");
}

#[test]
fn missing_duration_shows_dashes() {
    assert_eq!(track(None).format_duration(), "--:--");
}

#[test]
fn track_clone_keeps_fields() {
    let t = track(Some(1));
    let c = t.clone();
    assert_eq!(c.id, t.id);
    assert_eq!(c.title, t.title);
    assert_eq!(c.album, t.album);
}

#[test]
fn names_after_case_mapping() {
    assert_eq!(AudioQuality::from_upper_name("HI-RES"), Some(AudioQuality::HiResLossless));
    assert_eq!(AudioQuality::from_upper_name("hires"), None);
    assert_eq!(Service::from_lower_name("amazonmusic"), Some(Service::AmazonMusic));
    assert_eq!(Service::from_lower_name("Tidal"), None);
}
