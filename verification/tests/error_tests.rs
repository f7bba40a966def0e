use base64::Engine;
use squid_downloader::error::DownloadError;

fn all_but_network() -> Vec<(DownloadError, &'static str, bool)> {
    let json = serde_json::from_str::<u8>("x").unwrap_err();
    let b64 = base64::engine::general_purpose::STANDARD.decode("!!!").unwrap_err();
    let io = std::io::Error::new(std::io::ErrorKind::Other, "disk");
    vec![
        (DownloadError::JsonParseError(json), "Parse Error", false),
        (DownloadError::Base64DecodeError(b64), "Decode Error", false),
        (DownloadError::XmlParseError("x".to_string()), "XML Error", false),
        (DownloadError::TrackNotFound("x".to_string()), "Not Found", false),
        (DownloadError::AlbumNotFound("x".to_string()), "Not Found", false),
        (DownloadError::ArtistNotFound("x".to_string()), "Not Found", false),
        (DownloadError::PlaylistNotFound("x".to_string()), "Not Found", false),
        (DownloadError::NoDownloadUrl, "Download Error", false),
        (DownloadError::RateLimited, "Rate Limit", true),
        (DownloadError::IoError(io), "IO Error", false),
        (DownloadError::DownloadFailed("x".to_string()), "Download Error", true),
        (DownloadError::SegmentDownloadFailed("x".to_string()), "Download Error", true),
        (DownloadError::CsvError("x".to_string()), "CSV Error", false),
        (DownloadError::ServiceUnavailable("x".to_string()), "Service Error", true),
    ]
}

#[test]
fn error_labels() {
    for (e, label, _) in all_but_network() {
        assert_eq!(e.kind_label(), label);
    }
}

#[test]
fn retryable_errors() {
    for (e, _, retryable) in all_but_network() {
        assert_eq!(e.is_retryable(), retryable, "{:?}", e);
    }
}

#[test]
fn error_messages() {
    assert_eq!(DownloadError::TrackNotFound("42".to_string()).message(), "Track not found: 42");
    assert_eq!(
        DownloadError::NoDownloadUrl.message(),
        "No download URL available for the requested quality"
    );
    assert_eq!(
        DownloadError::RateLimited.message(),
        "Rate limited. Please wait before making more requests"
    );
    assert_eq!(DownloadError::CsvError("bad row".to_string()).message(), "CSV parsing error: bad row");
    let json = serde_json::from_str::<u8>("x").unwrap_err();
    let text = json.to_string();
    assert_eq!(
        DownloadError::JsonParseError(json).message(),
        format!("Failed to parse JSON response: {}", text)
    );
    let io = std::io::Error::new(std::io::ErrorKind::Other, "disk full");
    assert_eq!(DownloadError::IoError(io).message(), "IO error: disk full");
}
