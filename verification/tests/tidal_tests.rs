use base64::Engine;
use squid_downloader::error::DownloadError;
use squid_downloader::tidal::{
    body_from_text, first_capture, listed_urls, media_urls, quality_of_code, segments_from_matches,
    template_urls, reply_step, round_step, ReplyEvent, ReplyStep, RoundStep, delivered, album_from_record, decode_manifest, format_cover_url, get_api_base, id_endpoint,
    manifest_endpoint, manifest_from_json, map_track_to_info, map_tracks, next_api_index,
    parse_mpd_manifest, parse_quality, playlist_from_record, search_endpoint, search_query,
    AlbumData, ManifestBody, ManifestJson, PlaylistData, TidalAlbum, TidalArtist, TidalCreator,
    TidalTrack, TrackManifestData, API_BASE, API_COUNT,
};
use squid_downloader::types::AudioQuality;

const TEMPLATE_MPD: &str = r#"<?xml version="1.0"?><MPD xmlns="urn:mpeg:dash:schema:mpd:2011"><Period><AdaptationSet mimeType="audio/mp4"><Representation id="FLAC"><BaseURL>https://cdn.example/</BaseURL><SegmentTemplate timescale="44100" initialization="init.mp4" media="seg-$Number$.mp4" startNumber="1"><SegmentTimeline><S d="1000" r="2"/><S d="500"/></SegmentTimeline></SegmentTemplate></Representation></AdaptationSet></Period></MPD>"#;

fn tidal_track() -> TidalTrack {
    TidalTrack {
        id: 48717877,
        title: "Levels".to_string(),
        artist: Some(TidalArtist { name: "Avicii".to_string() }),
        album: Some(TidalAlbum { title: "Levels".to_string(), cover: Some("ab-cd-ef".to_string()) }),
        duration: Some(202),
        audio_quality: Some("lossless".to_string()),
        cover: None,
        isrc: Some("SE1234".to_string()),
        spotify_id: None,
        album_id: Some(7),
    }
}

#[test]
fn api_hosts_rotate() {
    assert_eq!(get_api_base(0), API_BASE);
    assert_eq!(get_api_base(0), "https://hund.qqdl.site");
    assert_eq!(get_api_base(1), "https://katze.qqdl.site");
    assert_eq!(get_api_base(4), "https://wolf.qqdl.site");
    assert_eq!(get_api_base(9), "https://hund.qqdl.site");
    assert_eq!(next_api_index(0), 1);
    assert_eq!(next_api_index(API_COUNT - 1), 0);
}

#[test]
fn service_quality_codes() {
    assert_eq!(parse_quality("HI_RES_LOSSLESS"), AudioQuality::HiResLossless);
    assert_eq!(parse_quality("hi_res"), AudioQuality::HiResLossless);
    assert_eq!(parse_quality("Lossless"), AudioQuality::Lossless);
    assert_eq!(parse_quality("HIGH"), AudioQuality::High);
    assert_eq!(parse_quality("low"), AudioQuality::Low);
    assert_eq!(parse_quality("DOLBY_ATMOS"), AudioQuality::Auto);
}

#[test]
fn cover_urls() {
    assert_eq!(
        format_cover_url(Some("ab-cd-ef".to_string())).as_deref(),
        Some("https://resources.tidal.com/images/ab/cd/ef/1280x1280.jpg")
    );
    assert_eq!(format_cover_url(None), None);
}

#[test]
fn track_record_maps_to_track() {
    let t = map_track_to_info(tidal_track());
    assert_eq!(t.id, 48717877);
    assert_eq!(t.title, "Levels");
    assert_eq!(t.artist, "Avicii");
    assert_eq!(t.album.as_deref(), Some("Levels"));
    assert_eq!(t.duration, Some(202));
    assert_eq!(t.quality, Some(AudioQuality::Lossless));
    assert_eq!(t.cover_url.as_deref(), Some("https://resources.tidal.com/images/ab/cd/ef/1280x1280.jpg"));
    assert_eq!(t.isrc.as_deref(), Some("SE1234"));
    assert_eq!(t.album_id, Some(7));
}

#[test]
fn track_cover_wins_over_album_cover_and_missing_artist_is_empty() {
    let mut r = tidal_track();
    r.cover = Some("11-22".to_string());
    r.artist = None;
    r.audio_quality = None;
    let t = map_track_to_info(r);
    assert_eq!(t.cover_url.as_deref(), Some("https://resources.tidal.com/images/11/22/1280x1280.jpg"));
    assert_eq!(t.artist, "");
    assert_eq!(t.quality, None);
    let ts = map_tracks(vec![tidal_track(), tidal_track()]);
    assert_eq!(ts.len(), 2);
}

#[test]
fn album_and_playlist_records() {
    let a = album_from_record(AlbumData {
        id: 3,
        title: "Stories".to_string(),
        artist: Some(TidalArtist { name: "Avicii".to_string() }),
        number_of_tracks: None,
        cover: Some("x-y".to_string()),
    });
    assert_eq!(a.id, 3);
    assert_eq!(a.artist, "Avicii");
    assert_eq!(a.track_count, 0);
    assert_eq!(a.year, None);
    assert_eq!(a.cover_url.as_deref(), Some("https://resources.tidal.com/images/x/y/1280x1280.jpg"));
    let p = playlist_from_record(PlaylistData {
        id: 9,
        title: "Mix".to_string(),
        creator: Some(TidalCreator { name: "me".to_string() }),
        number_of_tracks: Some(12),
    });
    assert_eq!(p.creator, "me");
    assert_eq!(p.track_count, 12);
    assert!(p.cover_url.is_none());
}

#[test]
fn endpoints() {
    assert_eq!(search_query("Levels", Some("Avicii")), "Levels Avicii");
    assert_eq!(search_query("Levels", None), "Levels");
    assert_eq!(search_endpoint("Waiting For Love"), "/search/?s=Waiting+For+Love");
    assert_eq!(search_endpoint("AC/DC é"), "/search/?s=AC%2FDC+%C3%A9");
    assert_eq!(id_endpoint("/album/", 12345678), "/album/?id=12345678");
    assert_eq!(
        manifest_endpoint(48717877, AudioQuality::HiResLossless),
        "/track/?id=48717877&audioquality=HI_RES_LOSSLESS"
    );
}

#[test]
fn template_manifest_lists_init_and_numbered_segments() {
    let (segs, mime) = parse_mpd_manifest(TEMPLATE_MPD).expect("parses");
    assert_eq!(
        segs,
        vec![
            "https://cdn.example/init.mp4",
            "https://cdn.example/seg-1.mp4",
            "https://cdn.example/seg-2.mp4",
            "https://cdn.example/seg-3.mp4",
            "https://cdn.example/seg-4.mp4",
        ]
    );
    assert_eq!(mime.as_deref(), Some("audio/mp4"));
}

#[test]
fn segment_list_manifest_without_base() {
    let mpd = r#"<MPD><SegmentList><SegmentURL media="a.mp4"/><SegmentURL media="b.mp4"/></SegmentList></MPD>"#;
    let (segs, mime) = parse_mpd_manifest(mpd).expect("parses");
    assert_eq!(segs, vec!["a.mp4", "b.mp4"]);
    assert!(mime.is_none());
}

#[test]
fn manifest_without_segments_is_an_xml_error() {
    assert!(matches!(parse_mpd_manifest("<MPD></MPD>"), Err(DownloadError::XmlParseError(_))));
}

#[test]
fn dash_manifest_is_decoded() {
    let b64 = base64::engine::general_purpose::STANDARD.encode(TEMPLATE_MPD);
    let data = TrackManifestData {
        manifest: Some(b64),
        bit_depth: Some(24),
        sample_rate: Some(96000),
        audio_quality: Some("HI_RES_LOSSLESS".to_string()),
    };
    match decode_manifest(data, AudioQuality::Lossless) {
        Ok(ManifestBody::Dash(m)) => {
            assert!(m.url.is_none());
            assert_eq!(m.segment_urls.map(|s| s.len()), Some(5));
            assert_eq!(m.quality, AudioQuality::HiResLossless);
            assert_eq!(m.bit_depth, Some(24));
            assert_eq!(m.sample_rate, Some(96000));
            assert_eq!(m.mime_type.as_deref(), Some("audio/mp4"));
        }
        _ => panic!("expected a DASH manifest"),
    }
}

#[test]
fn json_manifest_is_handed_on() {
    let json = r#"{"mimeType":"audio/flac","urls":["https://x/a.flac"]}"#;
    let b64 = base64::engine::general_purpose::STANDARD.encode(json);
    let data = TrackManifestData { manifest: Some(b64), bit_depth: None, sample_rate: None, audio_quality: None };
    match decode_manifest(data, AudioQuality::High) {
        Ok(ManifestBody::Json(t)) => assert_eq!(t, json),
        _ => panic!("expected JSON text"),
    }
}

#[test]
fn manifest_errors() {
    let none = TrackManifestData { manifest: None, bit_depth: None, sample_rate: None, audio_quality: None };
    assert!(matches!(decode_manifest(none, AudioQuality::High), Err(DownloadError::NoDownloadUrl)));
    let bad = TrackManifestData { manifest: Some("!!!".to_string()), bit_depth: None, sample_rate: None, audio_quality: None };
    assert!(matches!(decode_manifest(bad, AudioQuality::High), Err(DownloadError::Base64DecodeError(_))));
}

#[test]
fn json_manifest_takes_its_first_url() {
    let m = manifest_from_json(
        ManifestJson { urls: vec!["u1".to_string(), "u2".to_string()], mime_type: Some("audio/flac".to_string()) },
        AudioQuality::Lossless,
        Some(16),
        Some(44100),
    )
    .expect("has a URL");
    assert_eq!(m.url.as_deref(), Some("u1"));
    assert!(m.segment_urls.is_none());
    assert_eq!(m.mime_type.as_deref(), Some("audio/flac"));
    assert_eq!(m.sample_rate, Some(44100));
    assert!(matches!(
        manifest_from_json(ManifestJson { urls: vec![], mime_type: None }, AudioQuality::Low, None, None),
        Err(DownloadError::NoDownloadUrl)
    ));
}

#[test]
fn reply_steps() {
    assert_eq!(reply_step(ReplyEvent::Status(429)), ReplyStep::RateLimited);
    assert_eq!(reply_step(ReplyEvent::Status(200)), ReplyStep::ReadBody);
    assert_eq!(reply_step(ReplyEvent::Status(204)), ReplyStep::ReadBody);
    assert_eq!(reply_step(ReplyEvent::Status(404)), ReplyStep::NextHost);
    assert_eq!(reply_step(ReplyEvent::Status(503)), ReplyStep::NextHost);
    assert_eq!(reply_step(ReplyEvent::NetworkFailed), ReplyStep::NextHost);
    assert_eq!(reply_step(ReplyEvent::Unreadable), ReplyStep::NextHost);
    assert_eq!(reply_step(ReplyEvent::Parsed), ReplyStep::Done);
}

#[test]
fn rotation_returns_after_every_host() {
    let mut i = 2;
    let mut seen = vec![];
    for _ in 0..API_COUNT {
        i = next_api_index(i);
        seen.push(i);
    }
    assert_eq!(seen, vec![3, 4, 0, 1, 2]);
}

#[test]
fn delivered_quality_prefers_the_reported_one() {
    assert_eq!(delivered(&Some("LOW".to_string()), AudioQuality::Lossless), AudioQuality::Low);
    assert_eq!(delivered(&None, AudioQuality::Lossless), AudioQuality::Lossless);
}

fn caps(groups: &[Option<&str>]) -> Vec<Option<String>> {
    groups.iter().map(|g| g.map(|t| t.to_string())).collect()
}

#[test]
fn template_urls_count_the_timeline() {
    let base = Some("https://cdn.example".to_string());
    let template = caps(&[Some("whole"), Some("init.mp4"), Some("s$Number$.m4s"), Some("7")]);
    let timeline = vec![caps(&[Some("<S d=\"1\" r=\"1\"/>"), Some("1")]), caps(&[Some("<S d=\"1\"/>"), None])];
    assert_eq!(
        template_urls(&base, &template, &timeline),
        vec![
            "https://cdn.example/init.mp4",
            "https://cdn.example/s7.m4s",
            "https://cdn.example/s8.m4s",
            "https://cdn.example/s9.m4s",
        ]
    );
    let bad_start = caps(&[Some("whole"), Some("i"), Some("$Number$"), Some("x")]);
    assert_eq!(template_urls(&None, &bad_start, &vec![caps(&[Some("s"), None])]), vec!["i", "1"]);
}

#[test]
fn media_and_listed_urls() {
    let media = vec![caps(&[Some("m"), Some("a.mp4")]), caps(&[Some("m"), Some("t$Number$")]), caps(&[Some("m"), Some("b.mp4")])];
    assert_eq!(media_urls(&Some("https://x/".to_string()), &media), vec!["https://x/a.mp4", "https://x/b.mp4"]);
    assert_eq!(listed_urls(&media), vec!["a.mp4", "t$Number$", "b.mp4"]);
}

#[test]
fn segments_prefer_templates_then_media_then_list() {
    let none: Vec<Vec<Option<String>>> = vec![];
    let template = vec![caps(&[Some("w"), Some("init"), Some("n$Number$"), Some("1")])];
    let media = vec![caps(&[Some("m"), Some("a")])];
    let listed = vec![caps(&[Some("l"), Some("z")])];
    assert_eq!(segments_from_matches(&None, &template, &none, &media, &listed), Some(vec!["init".to_string()]));
    assert_eq!(segments_from_matches(&None, &none, &none, &media, &listed), Some(vec!["a".to_string()]));
    assert_eq!(segments_from_matches(&None, &none, &none, &none, &listed), Some(vec!["z".to_string()]));
    assert_eq!(segments_from_matches(&None, &none, &none, &none, &none), None);
    assert_eq!(first_capture(&listed).as_deref(), Some("z"));
    assert_eq!(first_capture(&none), None);
}

#[test]
fn manifest_text_bodies() {
    match body_from_text("{\"urls\":[]}".to_string(), AudioQuality::Low, None, None) {
        Ok(ManifestBody::Json(t)) => assert_eq!(t, "{\"urls\":[]}"),
        _ => panic!("expected JSON"),
    }
    match body_from_text(TEMPLATE_MPD.to_string(), AudioQuality::High, Some(16), None) {
        Ok(ManifestBody::Dash(m)) => {
            assert_eq!(m.quality, AudioQuality::High);
            assert_eq!(m.bit_depth, Some(16));
            assert_eq!(m.segment_urls.map(|s| s.len()), Some(5));
        }
        _ => panic!("expected DASH"),
    }
    match body_from_text("<MPD><BaseURL>x</BaseURL></MPD>".to_string(), AudioQuality::High, None, None) {
        Err(DownloadError::XmlParseError(_)) => {}
        _ => panic!("expected an XML error"),
    }
    match body_from_text("<MPD><SegmentURL media=\"a\"/></MPD>".to_string(), AudioQuality::High, None, None) {
        Ok(ManifestBody::Dash(m)) => assert_eq!(m.mime_type.as_deref(), Some("application/dash+xml")),
        _ => panic!("expected DASH"),
    }
}

#[test]
fn upper_case_quality_codes() {
    assert_eq!(quality_of_code("HI_RES"), AudioQuality::HiResLossless);
    assert_eq!(quality_of_code("LOSSLESS"), AudioQuality::Lossless);
    assert_eq!(quality_of_code("lossless"), AudioQuality::Auto);
}

#[test]
fn request_rounds_stop_on_rate_limit_and_after_every_host() {
    assert_eq!(round_step(1, ReplyEvent::Status(429)), RoundStep::RateLimited);
    assert_eq!(round_step(API_COUNT, ReplyEvent::Status(429)), RoundStep::RateLimited);
    assert_eq!(round_step(1, ReplyEvent::Status(404)), RoundStep::NextHost);
    assert_eq!(round_step(API_COUNT, ReplyEvent::Status(404)), RoundStep::GiveUp);
    assert_eq!(round_step(2, ReplyEvent::NetworkFailed), RoundStep::NextHost);
    assert_eq!(round_step(API_COUNT, ReplyEvent::Unreadable), RoundStep::GiveUp);
    assert_eq!(round_step(3, ReplyEvent::Status(200)), RoundStep::ReadBody);
    assert_eq!(round_step(3, ReplyEvent::Parsed), RoundStep::Return);
    assert_eq!(API_COUNT, 5);
}
