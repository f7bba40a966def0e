use vstd::prelude::*;

use crate::text::{owned, same_text, string_from_chars, to_lower, to_upper, two_digit_chars};

verus! {

broadcast use vstd::string::group_string_axioms;

/// The audio quality levels a stream can be requested or delivered in.
#[derive(Debug, Clone, Copy, PartialEq, Eq, Structural)]
pub enum AudioQuality {
    HiResLossless,
    Lossless,
    High,
    Low,
    Mp3_320,
    Auto,
}

impl AudioQuality {
    /// The code the service uses for this quality.
    pub open spec fn code(self) -> Seq<char> {
        match self {
            AudioQuality::HiResLossless => "HI_RES_LOSSLESS"@,
            AudioQuality::Lossless => "LOSSLESS"@,
            AudioQuality::High => "HIGH"@,
            AudioQuality::Low => "LOW"@,
            AudioQuality::Mp3_320 => "MP3_320"@,
            AudioQuality::Auto => "AUTO"@,
        }
    }

    /// The human description of this quality.
    pub open spec fn describe(self) -> Seq<char> {
        match self {
            AudioQuality::HiResLossless => "24-bit/192kHz FLAC (Hi-Res)"@,
            AudioQuality::Lossless => "16-bit/44.1kHz FLAC (CD Quality)"@,
            AudioQuality::High => "320kbps AAC"@,
            AudioQuality::Low => "96kbps AAC"@,
            AudioQuality::Mp3_320 => "320kbps MP3"@,
            AudioQuality::Auto => "Best available"@,
        }
    }

    /// The file extension audio of this quality is stored under.
    pub open spec fn extension(self) -> Seq<char> {
        match self {
            AudioQuality::HiResLossless | AudioQuality::Lossless => "flac"@,
            AudioQuality::High | AudioQuality::Low => "m4a"@,
            AudioQuality::Mp3_320 => "mp3"@,
            AudioQuality::Auto => "flac"@,
        }
    }

    /// Whether this quality is one of the two lossless FLAC levels.
    pub open spec fn is_lossless(self) -> bool {
        self == AudioQuality::HiResLossless || self == AudioQuality::Lossless
    }

    pub fn as_str(&self) -> (r: &'static str)
        ensures
            r@ == self.code(),
    {
        match self {
            AudioQuality::HiResLossless => "HI_RES_LOSSLESS",
            AudioQuality::Lossless => "LOSSLESS",
            AudioQuality::High => "HIGH",
            AudioQuality::Low => "LOW",
            AudioQuality::Mp3_320 => "MP3_320",
            AudioQuality::Auto => "AUTO",
        }
    }

    pub fn description(&self) -> (r: &'static str)
        ensures
            r@ == self.describe(),
    {
        match self {
            AudioQuality::HiResLossless => "24-bit/192kHz FLAC (Hi-Res)",
            AudioQuality::Lossless => "16-bit/44.1kHz FLAC (CD Quality)",
            AudioQuality::High => "320kbps AAC",
            AudioQuality::Low => "96kbps AAC",
            AudioQuality::Mp3_320 => "320kbps MP3",
            AudioQuality::Auto => "Best available",
        }
    }

    pub fn file_extension(&self) -> (r: &'static str)
        ensures
            r@ == self.extension(),
    {
        match self {
            AudioQuality::HiResLossless | AudioQuality::Lossless => "flac",
            AudioQuality::High | AudioQuality::Low => "m4a",
            AudioQuality::Mp3_320 => "mp3",
            AudioQuality::Auto => "flac",
        }
    }

    /// Whether this quality is lossless FLAC.
    pub fn lossless(&self) -> (r: bool)
        ensures
            r == self.is_lossless(),
    {
        match self {
            AudioQuality::HiResLossless | AudioQuality::Lossless => true,
            _ => false,
        }
    }

    /// The qualities offered for selection, best first.
    pub fn all() -> (r: Vec<Self>)
        ensures
            r@ == seq![
                AudioQuality::HiResLossless,
                AudioQuality::Lossless,
                AudioQuality::High,
                AudioQuality::Low,
            ],
    {
        let mut v = Vec::new();
        v.push(AudioQuality::HiResLossless);
        v.push(AudioQuality::Lossless);
        v.push(AudioQuality::High);
        v.push(AudioQuality::Low);
        v
    }

    /// The text this quality is displayed as: its description.
    pub fn to_display_string(&self) -> (r: String)
        ensures
            r@ == self.describe(),
    {
        owned(self.description())
    }

    /// The quality an upper-cased name stands for, if any.
    pub open spec fn named(u: Seq<char>) -> Option<AudioQuality> {
        if u == "HI_RES_LOSSLESS"@ || u == "HIRES"@ || u == "HI-RES"@ || u == "MASTER"@ {
            Some(AudioQuality::HiResLossless)
        } else if u == "LOSSLESS"@ || u == "FLAC"@ || u == "CD"@ {
            Some(AudioQuality::Lossless)
        } else if u == "HIGH"@ || u == "AAC320"@ || u == "320"@ {
            Some(AudioQuality::High)
        } else if u == "LOW"@ || u == "AAC96"@ || u == "96"@ {
            Some(AudioQuality::Low)
        } else if u == "MP3_320"@ || u == "MP3"@ {
            Some(AudioQuality::Mp3_320)
        } else if u == "AUTO"@ {
            Some(AudioQuality::Auto)
        } else {
            None
        }
    }

    /// Reads a quality name, ignoring case: the name is upper-cased and looked
    /// up among the accepted spellings; an unknown name gives the message
    /// `Unknown quality: <name>`.
    pub fn from_name(s: &str) -> (r: Result<AudioQuality, String>)
        ensures
            match Self::named(crate::text::uppercase(s@)) {
                Some(q) => r == Ok::<AudioQuality, String>(q),
                None => r is Err && r->Err_0@ == "Unknown quality: "@ + s@,
            },
            crate::text::upper_stable(s@) ==> match Self::named(s@) {
                Some(q) => r == Ok::<AudioQuality, String>(q),
                None => r is Err,
            },
    {
        let up = to_upper(s);
        match Self::from_upper_name(up.as_str()) {
            Some(q) => Ok(q),
            None => {
                let mut msg = owned("Unknown quality: ");
                msg.append(s);
                Err(msg)
            },
        }
    }

    /// The quality an upper-cased name stands for, if any.
    pub fn from_upper_name(u: &str) -> (r: Option<AudioQuality>)
        ensures
            r == Self::named(u@),
    {
        if same_text(u, "HI_RES_LOSSLESS") || same_text(u, "HIRES") || same_text(u, "HI-RES")
            || same_text(u, "MASTER") {
            Some(AudioQuality::HiResLossless)
        } else if same_text(u, "LOSSLESS") || same_text(u, "FLAC") || same_text(u, "CD") {
            Some(AudioQuality::Lossless)
        } else if same_text(u, "HIGH") || same_text(u, "AAC320") || same_text(u, "320") {
            Some(AudioQuality::High)
        } else if same_text(u, "LOW") || same_text(u, "AAC96") || same_text(u, "96") {
            Some(AudioQuality::Low)
        } else if same_text(u, "MP3_320") || same_text(u, "MP3") {
            Some(AudioQuality::Mp3_320)
        } else if same_text(u, "AUTO") {
            Some(AudioQuality::Auto)
        } else {
            None
        }
    }
}

impl Default for AudioQuality {
    fn default() -> (r: Self)
        ensures
            r == AudioQuality::Auto,
    {
        AudioQuality::Auto
    }
}

impl std::str::FromStr for AudioQuality {
    type Err = String;

    fn from_str(s: &str) -> (r: Result<Self, String>)
        ensures
            match Self::named(crate::text::uppercase(s@)) {
                Some(q) => r == Ok::<AudioQuality, String>(q),
                None => r is Err && r->Err_0@ == "Unknown quality: "@ + s@,
            },
            crate::text::upper_stable(s@) ==> match Self::named(s@) {
                Some(q) => r == Ok::<AudioQuality, String>(q),
                None => r is Err,
            },
    {
        AudioQuality::from_name(s)
    }
}

/// The streaming services the tool knows of.
#[derive(Debug, Clone, Copy, PartialEq, Eq, Structural)]
pub enum Service {
    Tidal,
    AmazonMusic,
    SoundCloud,
    KHInsider,
}

impl Service {
    /// The short code of the service.
    pub open spec fn code(self) -> Seq<char> {
        match self {
            Service::Tidal => "tidal"@,
            Service::AmazonMusic => "amazon"@,
            Service::SoundCloud => "soundcloud"@,
            Service::KHInsider => "khinsider"@,
        }
    }

    /// The name the service is shown under.
    pub open spec fn shown_name(self) -> Seq<char> {
        match self {
            Service::Tidal => "Tidal"@,
            Service::AmazonMusic => "Amazon Music"@,
            Service::SoundCloud => "SoundCloud"@,
            Service::KHInsider => "KHInsider"@,
        }
    }

    pub fn as_str(&self) -> (r: &'static str)
        ensures
            r@ == self.code(),
    {
        match self {
            Service::Tidal => "tidal",
            Service::AmazonMusic => "amazon",
            Service::SoundCloud => "soundcloud",
            Service::KHInsider => "khinsider",
        }
    }

    pub fn display_name(&self) -> (r: &'static str)
        ensures
            r@ == self.shown_name(),
    {
        match self {
            Service::Tidal => "Tidal",
            Service::AmazonMusic => "Amazon Music",
            Service::SoundCloud => "SoundCloud",
            Service::KHInsider => "KHInsider",
        }
    }

    /// Every service, in a fixed order.
    pub fn all() -> (r: Vec<Self>)
        ensures
            r@ == seq![Service::Tidal, Service::AmazonMusic, Service::SoundCloud, Service::KHInsider],
    {
        let mut v = Vec::new();
        v.push(Service::Tidal);
        v.push(Service::AmazonMusic);
        v.push(Service::SoundCloud);
        v.push(Service::KHInsider);
        v
    }

    /// The text this service is displayed as: its display name.
    pub fn to_display_string(&self) -> (r: String)
        ensures
            r@ == self.shown_name(),
    {
        owned(self.display_name())
    }

    /// The service a lower-cased name stands for, if any.
    pub open spec fn named(l: Seq<char>) -> Option<Service> {
        if l == "tidal"@ || l == "tdl"@ {
            Some(Service::Tidal)
        } else if l == "amazon"@ || l == "amazonmusic"@ || l == "amz"@ {
            Some(Service::AmazonMusic)
        } else if l == "soundcloud"@ || l == "sc"@ {
            Some(Service::SoundCloud)
        } else if l == "khinsider"@ || l == "khi"@ || l == "kh"@ {
            Some(Service::KHInsider)
        } else {
            None
        }
    }

    /// Reads a service name, ignoring case; an unknown name gives the message
    /// `Unknown service: <name>`.
    pub fn from_name(s: &str) -> (r: Result<Service, String>)
        ensures
            match Self::named(crate::text::lowercase(s@)) {
                Some(v) => r == Ok::<Service, String>(v),
                None => r is Err && r->Err_0@ == "Unknown service: "@ + s@,
            },
            crate::text::lower_stable(s@) ==> match Self::named(s@) {
                Some(v) => r == Ok::<Service, String>(v),
                None => r is Err,
            },
    {
        let low = to_lower(s);
        match Self::from_lower_name(low.as_str()) {
            Some(v) => Ok(v),
            None => {
                let mut msg = owned("Unknown service: ");
                msg.append(s);
                Err(msg)
            },
        }
    }

    /// The service a lower-cased name stands for, if any.
    pub fn from_lower_name(l: &str) -> (r: Option<Service>)
        ensures
            r == Self::named(l@),
    {
        if same_text(l, "tidal") || same_text(l, "tdl") {
            Some(Service::Tidal)
        } else if same_text(l, "amazon") || same_text(l, "amazonmusic") || same_text(l, "amz") {
            Some(Service::AmazonMusic)
        } else if same_text(l, "soundcloud") || same_text(l, "sc") {
            Some(Service::SoundCloud)
        } else if same_text(l, "khinsider") || same_text(l, "khi") || same_text(l, "kh") {
            Some(Service::KHInsider)
        } else {
            None
        }
    }
}

impl std::str::FromStr for Service {
    type Err = String;

    fn from_str(s: &str) -> (r: Result<Self, String>)
        ensures
            match Self::named(crate::text::lowercase(s@)) {
                Some(v) => r == Ok::<Service, String>(v),
                None => r is Err && r->Err_0@ == "Unknown service: "@ + s@,
            },
            crate::text::lower_stable(s@) ==> match Self::named(s@) {
                Some(v) => r == Ok::<Service, String>(v),
                None => r is Err,
            },
    {
        Service::from_name(s)
    }
}

/// A copy of an optional text.
pub fn copy_opt_text(o: &Option<String>) -> (r: Option<String>)
    ensures
        r == *o,
{
    match o {
        Some(s) => Some(s.clone()),
        None => None,
    }
}

/// A track of the catalogue.
#[derive(Debug)]
pub struct TrackInfo {
    pub id: u64,
    pub title: String,
    pub artist: String,
    pub album: Option<String>,
    pub duration: Option<u32>,
    pub quality: Option<AudioQuality>,
    pub cover_url: Option<String>,
    pub isrc: Option<String>,
    pub spotify_id: Option<String>,
    pub album_id: Option<u64>,
}

/// The `mm:ss` text of a length in seconds, or `--:--` when it is unknown.
pub open spec fn duration_text(duration: Option<u32>) -> Seq<char> {
    match duration {
        Some(d) => crate::text::two_digits((d / 60) as nat) + seq![':'] + crate::text::two_digits(
            (d % 60) as nat,
        ),
        None => seq!['-', '-', ':', '-', '-'],
    }
}

impl TrackInfo {
    /// The length of the track as minutes and seconds, each padded to two
    /// digits (`--:--` when unknown).
    pub fn format_duration(&self) -> (r: String)
        ensures
            r@ == duration_text(self.duration),
    {
        match self.duration {
            Some(d) => {
                let mut v = two_digit_chars((d / 60) as u64);
                v.push(':');
                let s = two_digit_chars((d % 60) as u64);
                let ghost before = v@;
                let n = s.len();
                for i in 0..n
                    invariant
                        n == s@.len(),
                        v@ == before + s@.take(i as int),
                {
                    v.push(s[i]);
                    assert(s@.take(i + 1) =~= s@.take(i as int).push(s@[i as int]));
                    assert(v@ =~= before + s@.take(i + 1));
                }
                assert(s@.take(n as int) =~= s@);
                string_from_chars(&v)
            },
            None => {
                let mut v: Vec<char> = Vec::new();
                v.push('-');
                v.push('-');
                v.push(':');
                v.push('-');
                v.push('-');
                assert(v@ =~= seq!['-', '-', ':', '-', '-']);
                string_from_chars(&v)
            },
        }
    }
}

impl Clone for TrackInfo {
    fn clone(&self) -> (r: Self)
        ensures
            r == *self,
    {
        TrackInfo {
            id: self.id,
            title: self.title.clone(),
            artist: self.artist.clone(),
            album: copy_opt_text(&self.album),
            duration: self.duration,
            quality: self.quality,
            cover_url: copy_opt_text(&self.cover_url),
            isrc: copy_opt_text(&self.isrc),
            spotify_id: copy_opt_text(&self.spotify_id),
            album_id: self.album_id,
        }
    }
}

/// An album of the catalogue.
#[derive(Debug)]
pub struct AlbumInfo {
    pub id: u64,
    pub title: String,
    pub artist: String,
    pub track_count: u32,
    pub year: Option<u32>,
    pub cover_url: Option<String>,
}

/// A playlist of the catalogue.
#[derive(Debug)]
pub struct PlaylistInfo {
    pub id: u64,
    pub title: String,
    pub creator: String,
    pub track_count: u32,
    pub cover_url: Option<String>,
}

/// The tracks a search found.
#[derive(Debug)]
pub struct SearchResults {
    pub tracks: Vec<TrackInfo>,
}

/// Where and how the audio of a track can be fetched: one URL, or a list of
/// segment URLs to be fetched in order and concatenated.
#[derive(Debug)]
pub struct DownloadManifest {
    pub url: Option<String>,
    pub segment_urls: Option<Vec<String>>,
    pub quality: AudioQuality,
    pub bit_depth: Option<u8>,
    pub sample_rate: Option<u32>,
    pub mime_type: Option<String>,
}

/// Every quality code reads back as its quality: the code of a quality is
/// one of the names `from_name` accepts for it, and upper casing leaves it as
/// it is.
pub proof fn law_quality_code_reads_back(q: AudioQuality)
    ensures
        crate::text::upper_stable(q.code()),
        AudioQuality::named(q.code()) == Some(q),
{
    reveal_strlit("HI_RES_LOSSLESS");
    assert("HI_RES_LOSSLESS"@.len() == 15);
    reveal_strlit("HIRES");
    assert("HIRES"@.len() == 5);
    reveal_strlit("HI-RES");
    assert("HI-RES"@.len() == 6);
    reveal_strlit("MASTER");
    assert("MASTER"@.len() == 6);
    reveal_strlit("LOSSLESS");
    assert("LOSSLESS"@.len() == 8);
    reveal_strlit("FLAC");
    assert("FLAC"@.len() == 4);
    reveal_strlit("CD");
    assert("CD"@.len() == 2);
    reveal_strlit("HIGH");
    assert("HIGH"@.len() == 4);
    reveal_strlit("AAC320");
    assert("AAC320"@.len() == 6);
    reveal_strlit("320");
    assert("320"@.len() == 3);
    reveal_strlit("LOW");
    assert("LOW"@.len() == 3);
    reveal_strlit("AAC96");
    assert("AAC96"@.len() == 5);
    reveal_strlit("96");
    assert("96"@.len() == 2);
    reveal_strlit("MP3_320");
    assert("MP3_320"@.len() == 7);
    reveal_strlit("MP3");
    assert("MP3"@.len() == 3);
    reveal_strlit("AUTO");
    assert("AUTO"@.len() == 4);
    match q {
        AudioQuality::High => {
            assert("HIGH"@[0] != "FLAC"@[0]);
        },
        AudioQuality::Low => {
            assert("LOW"@[0] != "320"@[0]);
        },
        AudioQuality::Auto => {
            assert("AUTO"@[0] != "FLAC"@[0]);
            assert("AUTO"@[0] != "HIGH"@[0]);
        },
        _ => {},
    }
}

/// Every service code reads back as its service: the code of a service is
/// one of the names `from_name` accepts for it, and lower casing leaves it as
/// it is.
pub proof fn law_service_code_reads_back(v: Service)
    ensures
        crate::text::lower_stable(v.code()),
        Service::named(v.code()) == Some(v),
{
    reveal_strlit("tidal");
    assert("tidal"@.len() == 5);
    reveal_strlit("tdl");
    assert("tdl"@.len() == 3);
    reveal_strlit("amazon");
    assert("amazon"@.len() == 6);
    reveal_strlit("amazonmusic");
    assert("amazonmusic"@.len() == 11);
    reveal_strlit("amz");
    assert("amz"@.len() == 3);
    reveal_strlit("soundcloud");
    assert("soundcloud"@.len() == 10);
    reveal_strlit("sc");
    assert("sc"@.len() == 2);
    reveal_strlit("khinsider");
    assert("khinsider"@.len() == 9);
    reveal_strlit("khi");
    assert("khi"@.len() == 3);
    reveal_strlit("kh");
    assert("kh"@.len() == 2);
    match v {
        Service::Tidal => {},
        Service::AmazonMusic => {},
        Service::SoundCloud => {},
        Service::KHInsider => {},
    }
}

} // verus!
