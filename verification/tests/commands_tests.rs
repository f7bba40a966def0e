use squid_downloader::commands::{
    catalogue_id, clean_track_name, parse_dir_mode, parse_id, parse_quality, parse_service, SelectionStep, TrackRow, Ui,
};
use squid_downloader::download::DirMode;
use squid_downloader::types::{AudioQuality, Service, TrackInfo};

#[test]
fn quality_options() {
    assert_eq!(parse_quality(Some("hires")), AudioQuality::HiResLossless);
    assert_eq!(parse_quality(Some("lossless")), AudioQuality::Lossless);
    assert_eq!(parse_quality(Some("high")), AudioQuality::High);
    assert_eq!(parse_quality(Some("low")), AudioQuality::Low);
    assert_eq!(parse_quality(Some("mp3")), AudioQuality::Mp3_320);
    assert_eq!(parse_quality(Some("LOSSLESS")), AudioQuality::HiResLossless);
    assert_eq!(parse_quality(None), AudioQuality::HiResLossless);
}

#[test]
fn service_options() {
    assert_eq!(parse_service(Some("tidal")), Service::Tidal);
    assert_eq!(parse_service(Some("amazon")), Service::AmazonMusic);
    assert_eq!(parse_service(Some("soundcloud")), Service::SoundCloud);
    assert_eq!(parse_service(Some("khinsider")), Service::KHInsider);
    assert_eq!(parse_service(Some("deezer")), Service::Tidal);
    assert_eq!(parse_service(None), Service::Tidal);
}

#[test]
fn dir_mode_options() {
    assert_eq!(parse_dir_mode(Some("playlist")), DirMode::Playlist);
    assert_eq!(parse_dir_mode(Some("album")), DirMode::Album);
    assert_eq!(parse_dir_mode(Some("artist")), DirMode::Artist);
    assert_eq!(parse_dir_mode(Some("flat")), DirMode::Flat);
    assert_eq!(parse_dir_mode(Some("other")), DirMode::Playlist);
    assert_eq!(parse_dir_mode(None), DirMode::Playlist);
}

#[test]
fn ids_are_decimal_numbers() {
    assert_eq!(parse_id("48717877"), Some(48717877));
    assert_eq!(parse_id("+12"), Some(12));
    assert_eq!(parse_id("18446744073709551615"), Some(u64::MAX));
    assert_eq!(parse_id("18446744073709551616"), None);
    assert_eq!(parse_id("Levels"), None);
    assert_eq!(parse_id(""), None);
    assert_eq!(parse_id("+"), None);
    assert_eq!(parse_id(" 1"), None);
    for s in ["0", "007", "123456789", "+0"] {
        assert_eq!(parse_id(s), s.parse::<u64>().ok());
    }
}

#[test]
fn track_names_are_cleaned() {
    assert_eq!(clean_track_name("Levels (Radio Edit)"), "Levels Radio Edit");
    assert_eq!(clean_track_name("  Hello,   World!  "), "Hello World");
    assert_eq!(clean_track_name("Don't Stop - Remix"), "Dont Stop - Remix");
    assert_eq!(clean_track_name("Café del Mar"), "Café del Mar");
    assert_eq!(clean_track_name("!!!"), "");
}

#[test]
fn yes_answers() {
    assert!(Ui::is_yes("y"));
    assert!(Ui::is_yes(" Yes \n"));
    assert!(Ui::is_yes("YES"));
    assert!(!Ui::is_yes("no"));
    assert!(!Ui::is_yes(""));
    assert!(!Ui::is_yes("yess"));
}

#[test]
fn selections_are_one_based() {
    assert_eq!(Ui::parse_selection("2", 3), Some(1));
    assert_eq!(Ui::parse_selection(" 3 \n", 3), Some(2));
    assert_eq!(Ui::parse_selection("0", 3), None);
    assert_eq!(Ui::parse_selection("4", 3), None);
    assert_eq!(Ui::parse_selection("x", 3), None);
    assert_eq!(Ui::parse_selection("", 3), None);
}

#[test]
fn search_rows_are_numbered_and_limited() {
    let t = |id: u64, album: Option<&str>, d: Option<u32>| TrackInfo {
        id,
        title: format!("T{}", id),
        artist: "A".to_string(),
        album: album.map(|a| a.to_string()),
        duration: d,
        quality: None,
        cover_url: None,
        isrc: None,
        spotify_id: None,
        album_id: None,
    };
    let tracks = vec![t(1, Some("Al"), Some(61)), t(2, None, None), t(3, None, None)];
    let rows: Vec<TrackRow> = Ui::search_rows(&tracks, 2);
    assert_eq!(rows.len(), 2);
    assert_eq!(rows[0].index, 1);
    assert_eq!(rows[0].title, "T1");
    assert_eq!(rows[0].album, "Al");
    assert_eq!(rows[0].duration, "01:01");
    assert_eq!(rows[1].index, 2);
    assert_eq!(rows[1].album, "-");
    assert_eq!(rows[1].duration, "--:--");
    assert_eq!(Ui::search_rows(&tracks, 10).len(), 3);
}

#[test]
fn yes_words() {
    assert!(Ui::is_yes_word("y"));
    assert!(Ui::is_yes_word("yes"));
    assert!(!Ui::is_yes_word("Yes"));
    assert!(!Ui::is_yes_word(" y"));
}

#[test]
fn catalogue_ids_from_numbers_and_urls() {
    assert_eq!(catalogue_id("12345678"), Some(12345678));
    assert_eq!(catalogue_id("https://tidal.com/browse/playlist/12345678"), Some(12345678));
    assert_eq!(catalogue_id("https://tidal.com/browse/album/123/?u=1"), Some(123));
    assert_eq!(catalogue_id("https://tidal.com/browse/playlist/abc"), None);
    assert_eq!(catalogue_id("abc"), None);
    assert_eq!(catalogue_id(""), None);
}

#[test]
fn cleaned_names_keep_letters_digits_spaces_and_hyphens() {
    assert_eq!(clean_track_name("Don't Stop Me Now - 2011 Remaster"), "Dont Stop Me Now - 2011 Remaster");
    let r = clean_track_name("  [Live]  at   Wembley (1986) -- Queen!  ");
    assert!(r.chars().all(|c| c.is_alphanumeric() || c == ' ' || c == '-'));
    assert_eq!(r.trim(), r);
    assert!(!r.contains("  "));
}

#[test]
fn track_prompt_steps() {
    assert_eq!(Ui::selection_step(0), SelectionStep::NothingToPick);
    assert_eq!(Ui::selection_step(1), SelectionStep::TakeOnly);
    assert_eq!(Ui::selection_step(2), SelectionStep::Ask);
}
