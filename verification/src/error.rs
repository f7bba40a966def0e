use vstd::prelude::*;

verus! {

#[verifier::external_type_specification]
#[verifier::external_body]
pub struct ExReqwestError(reqwest::Error);

#[verifier::external_type_specification]
#[verifier::external_body]
pub struct ExJsonError(serde_json::Error);

#[verifier::external_type_specification]
#[verifier::external_body]
pub struct ExBase64DecodeError(base64::DecodeError);

#[verifier::external_type_specification]
#[verifier::external_body]
pub struct ExIoError(std::io::Error);

/// Everything that can go wrong while searching for or fetching music.
#[derive(Debug)]
pub enum DownloadError {
    NetworkError(reqwest::Error),
    JsonParseError(serde_json::Error),
    Base64DecodeError(base64::DecodeError),
    XmlParseError(String),
    TrackNotFound(String),
    AlbumNotFound(String),
    ArtistNotFound(String),
    PlaylistNotFound(String),
    NoDownloadUrl,
    RateLimited,
    IoError(std::io::Error),
    DownloadFailed(String),
    SegmentDownloadFailed(String),
    CsvError(String),
    ServiceUnavailable(String),
}

/// The result type of the fallible operations.
pub type Result<T> = std::result::Result<T, DownloadError>;

impl DownloadError {
    /// Errors that may go away when the same request is made again later:
    /// rate limiting, network trouble, failed downloads and an unavailable
    /// service.
    pub open spec fn retryable(&self) -> bool {
        ||| self is RateLimited
        ||| self is NetworkError
        ||| self is DownloadFailed
        ||| self is SegmentDownloadFailed
        ||| self is ServiceUnavailable
    }

    pub fn is_retryable(&self) -> (r: bool)
        ensures
            r == self.retryable(),
    {
        match self {
            DownloadError::RateLimited | DownloadError::NetworkError(_)
            | DownloadError::DownloadFailed(_) | DownloadError::SegmentDownloadFailed(_)
            | DownloadError::ServiceUnavailable(_) => true,
            _ => false,
        }
    }

    /// The heading an error is reported under.
    pub open spec fn label(&self) -> Seq<char> {
        match self {
            DownloadError::NetworkError(_) => "Network Error"@,
            DownloadError::JsonParseError(_) => "Parse Error"@,
            DownloadError::Base64DecodeError(_) => "Decode Error"@,
            DownloadError::XmlParseError(_) => "XML Error"@,
            DownloadError::TrackNotFound(_) => "Not Found"@,
            DownloadError::AlbumNotFound(_) => "Not Found"@,
            DownloadError::ArtistNotFound(_) => "Not Found"@,
            DownloadError::PlaylistNotFound(_) => "Not Found"@,
            DownloadError::NoDownloadUrl => "Download Error"@,
            DownloadError::RateLimited => "Rate Limit"@,
            DownloadError::IoError(_) => "IO Error"@,
            DownloadError::DownloadFailed(_) => "Download Error"@,
            DownloadError::SegmentDownloadFailed(_) => "Download Error"@,
            DownloadError::CsvError(_) => "CSV Error"@,
            DownloadError::ServiceUnavailable(_) => "Service Error"@,
        }
    }

    /// The heading this error is reported under.
    pub fn kind_label(&self) -> (r: &'static str)
        ensures
            r@ == self.label(),
    {
        match self {
            DownloadError::NetworkError(_) => "Network Error",
            DownloadError::JsonParseError(_) => "Parse Error",
            DownloadError::Base64DecodeError(_) => "Decode Error",
            DownloadError::XmlParseError(_) => "XML Error",
            DownloadError::TrackNotFound(_) => "Not Found",
            DownloadError::AlbumNotFound(_) => "Not Found",
            DownloadError::ArtistNotFound(_) => "Not Found",
            DownloadError::PlaylistNotFound(_) => "Not Found",
            DownloadError::NoDownloadUrl => "Download Error",
            DownloadError::RateLimited => "Rate Limit",
            DownloadError::IoError(_) => "IO Error",
            DownloadError::DownloadFailed(_) => "Download Error",
            DownloadError::SegmentDownloadFailed(_) => "Download Error",
            DownloadError::CsvError(_) => "CSV Error",
            DownloadError::ServiceUnavailable(_) => "Service Error",
        }
    }

    /// The text an error is reported with, up to its detail.
    pub open spec fn message_prefix(&self) -> Seq<char> {
        match self {
            DownloadError::NetworkError(_) => "Network request failed: "@,
            DownloadError::JsonParseError(_) => "Failed to parse JSON response: "@,
            DownloadError::Base64DecodeError(_) => "Failed to decode base64 manifest: "@,
            DownloadError::XmlParseError(_) => "Failed to parse XML manifest: "@,
            DownloadError::TrackNotFound(_) => "Track not found: "@,
            DownloadError::AlbumNotFound(_) => "Album not found: "@,
            DownloadError::ArtistNotFound(_) => "Artist not found: "@,
            DownloadError::PlaylistNotFound(_) => "Playlist not found: "@,
            DownloadError::NoDownloadUrl => "No download URL available for the requested quality"@,
            DownloadError::RateLimited => "Rate limited. Please wait before making more requests"@,
            DownloadError::IoError(_) => "IO error: "@,
            DownloadError::DownloadFailed(_) => "Download failed: "@,
            DownloadError::SegmentDownloadFailed(_) => "Segment download failed: "@,
            DownloadError::CsvError(_) => "CSV parsing error: "@,
            DownloadError::ServiceUnavailable(_) => "Service unavailable: "@,
        }
    }

    /// The detail text a variant carries, for the variants that carry text.
    pub open spec fn text_detail(&self) -> Option<Seq<char>> {
        match self {
            DownloadError::XmlParseError(s) => Some(s@),
            DownloadError::TrackNotFound(s) => Some(s@),
            DownloadError::AlbumNotFound(s) => Some(s@),
            DownloadError::ArtistNotFound(s) => Some(s@),
            DownloadError::PlaylistNotFound(s) => Some(s@),
            DownloadError::DownloadFailed(s) => Some(s@),
            DownloadError::SegmentDownloadFailed(s) => Some(s@),
            DownloadError::CsvError(s) => Some(s@),
            DownloadError::ServiceUnavailable(s) => Some(s@),
            DownloadError::NoDownloadUrl => Some(Seq::<char>::empty()),
            DownloadError::RateLimited => Some(Seq::<char>::empty()),
            _ => None,
        }
    }

    /// The message of this error: its prefix, then its detail. The detail of
    /// an error of another crate is that error's own display text.
    pub fn message(&self) -> (r: String)
        ensures
            match self.text_detail() {
                Some(d) => r@ == self.message_prefix() + d,
                None => exists|d: Seq<char>| r@ == self.message_prefix() + d,
            },
    {
        let (prefix, detail): (&str, String) = match self {
            DownloadError::NetworkError(e) => ("Network request failed: ", e.to_string()),
            DownloadError::JsonParseError(e) => ("Failed to parse JSON response: ", e.to_string()),
            DownloadError::Base64DecodeError(e) => ("Failed to decode base64 manifest: ", e.to_string()),
            DownloadError::XmlParseError(s) => ("Failed to parse XML manifest: ", s.clone()),
            DownloadError::TrackNotFound(s) => ("Track not found: ", s.clone()),
            DownloadError::AlbumNotFound(s) => ("Album not found: ", s.clone()),
            DownloadError::ArtistNotFound(s) => ("Artist not found: ", s.clone()),
            DownloadError::PlaylistNotFound(s) => ("Playlist not found: ", s.clone()),
            DownloadError::NoDownloadUrl => (
                "No download URL available for the requested quality",
                String::new(),
            ),
            DownloadError::RateLimited => (
                "Rate limited. Please wait before making more requests",
                String::new(),
            ),
            DownloadError::IoError(e) => ("IO error: ", e.to_string()),
            DownloadError::DownloadFailed(s) => ("Download failed: ", s.clone()),
            DownloadError::SegmentDownloadFailed(s) => ("Segment download failed: ", s.clone()),
            DownloadError::CsvError(s) => ("CSV parsing error: ", s.clone()),
            DownloadError::ServiceUnavailable(s) => ("Service unavailable: ", s.clone()),
        };
        let mut out = crate::text::owned(prefix);
        out.append(detail.as_str());
        assert(out@ == prefix@ + detail@);
        assert(prefix@ == self.message_prefix());
        assert(self.text_detail() is Some ==> detail@ == self.text_detail()->0);
        out
    }
}

/// The errors worth another try are exactly a rate limit, a network error, a
/// failed download, a failed segment and an unavailable service; a missing
/// track, album, artist or playlist, a missing URL, a parse or decode error,
/// a file error and a CSV error end the attempt for good.
pub proof fn law_retryable_errors(e: DownloadError)
    ensures
        e is RateLimited ==> e.retryable(),
        e is NetworkError ==> e.retryable(),
        e is DownloadFailed ==> e.retryable(),
        e is SegmentDownloadFailed ==> e.retryable(),
        e is ServiceUnavailable ==> e.retryable(),
        e is JsonParseError || e is Base64DecodeError || e is XmlParseError || e is TrackNotFound
            || e is AlbumNotFound || e is ArtistNotFound || e is PlaylistNotFound || e is NoDownloadUrl
            || e is IoError || e is CsvError ==> !e.retryable(),
{
}

} // verus!
