use base64::Engine;
use vstd::prelude::*;

use crate::error::DownloadError;
use crate::text::{
    chars_of, decimal_chars, extend_chars, owned, parse_u32, replace_chars, same_text,
    string_from_chars, text_contains, to_upper,
};
use crate::types::{copy_opt_text, AlbumInfo, AudioQuality, DownloadManifest, PlaylistInfo, TrackInfo};

verus! {

broadcast use vstd::string::group_string_axioms;

// ---------------------------------------------------------------------------
// The API hosts
// ---------------------------------------------------------------------------

/// The number of API hosts: the main one and four fallbacks.
pub const API_COUNT: usize = 5;

/// The host asked first.
pub const API_BASE: &'static str = "https://hund.qqdl.site";

/// The host used at position `index` of the rotation: the main host at 0,
/// the fallbacks at 1 to 4, and the main host again for any other position.
pub open spec fn api_host(index: usize) -> Seq<char> {
    if index == 1 {
        "https://katze.qqdl.site"@
    } else if index == 2 {
        "https://maus.qqdl.site"@
    } else if index == 3 {
        "https://vogel.qqdl.site"@
    } else if index == 4 {
        "https://wolf.qqdl.site"@
    } else {
        API_BASE@
    }
}

/// The API host for rotation position `index`.
pub fn get_api_base(index: usize) -> (r: &'static str)
    ensures
        r@ == api_host(index),
{
    if index == 1 {
        "https://katze.qqdl.site"
    } else if index == 2 {
        "https://maus.qqdl.site"
    } else if index == 3 {
        "https://vogel.qqdl.site"
    } else if index == 4 {
        "https://wolf.qqdl.site"
    } else {
        API_BASE
    }
}

/// The rotation position to move to after a request to position `current`
/// failed: the next host, wrapping round after the last.
pub fn next_api_index(current: usize) -> (r: usize)
    requires
        current < usize::MAX,
    ensures
        r == (current + 1) % (API_COUNT as int),
        r < API_COUNT,
{
    (current + 1) % API_COUNT
}

/// What one step of a request to an API host came to.
#[derive(Debug, Clone, Copy, PartialEq, Eq, Structural)]
pub enum ReplyEvent {
    /// The request could not be sent, or the body of the answer not read.
    NetworkFailed,
    /// The host answered with this HTTP status.
    Status(u16),
    /// The body was read but is not the JSON expected.
    Unreadable,
    /// The body was read and is the JSON expected.
    Parsed,
}

/// What a request does next.
#[derive(Debug, Clone, Copy, PartialEq, Eq, Structural)]
pub enum ReplyStep {
    /// Stop: the service asks for fewer requests.
    RateLimited,
    /// Move the rotation on and ask the next host.
    NextHost,
    /// Read and parse the body of the answer.
    ReadBody,
    /// The answer is here.
    Done,
}

/// The step after an event: status 429 ends the request as rate limited, a
/// status from 200 to 299 leads to reading the body, and any other status, a
/// network failure or a body that does not parse sends the request on to the
/// next host.
pub open spec fn step_after_reply(event: ReplyEvent) -> ReplyStep {
    match event {
        ReplyEvent::NetworkFailed => ReplyStep::NextHost,
        ReplyEvent::Status(code) => if code == 429 {
            ReplyStep::RateLimited
        } else if 200 <= code && code <= 299 {
            ReplyStep::ReadBody
        } else {
            ReplyStep::NextHost
        },
        ReplyEvent::Unreadable => ReplyStep::NextHost,
        ReplyEvent::Parsed => ReplyStep::Done,
    }
}

/// Decides what a request to the API does after `event`.
pub fn reply_step(event: ReplyEvent) -> (r: ReplyStep)
    ensures
        r == step_after_reply(event),
{
    match event {
        ReplyEvent::NetworkFailed => ReplyStep::NextHost,
        ReplyEvent::Status(code) => if code == 429 {
            ReplyStep::RateLimited
        } else if 200 <= code && code <= 299 {
            ReplyStep::ReadBody
        } else {
            ReplyStep::NextHost
        },
        ReplyEvent::Unreadable => ReplyStep::NextHost,
        ReplyEvent::Parsed => ReplyStep::Done,
    }
}

/// What a request to the API does after the last event of its try number
/// `tries` (counted from one).
#[derive(Debug, Clone, Copy, PartialEq, Eq, Structural)]
pub enum RoundStep {
    /// Read and parse the body of the answer: the try goes on.
    ReadBody,
    /// Hand back the answer.
    Return,
    /// Stop at once with the rate-limit error, the rotation left as it is.
    RateLimited,
    /// Move the rotation on and try the next host.
    NextHost,
    /// Move the rotation on and stop with the last error: every host was
    /// tried.
    GiveUp,
}

/// The step of a request after an event of its try number `tries`: the
/// step `step_after_reply` gives, where a move to the next host after the
/// `API_COUNT`-th try ends the request instead.
pub open spec fn round_step_after(tries: int, event: ReplyEvent) -> RoundStep {
    match step_after_reply(event) {
        ReplyStep::ReadBody => RoundStep::ReadBody,
        ReplyStep::Done => RoundStep::Return,
        ReplyStep::RateLimited => RoundStep::RateLimited,
        ReplyStep::NextHost => if tries < API_COUNT {
            RoundStep::NextHost
        } else {
            RoundStep::GiveUp
        },
    }
}

/// Decides what a request does after an event of its try number `tries`.
pub fn round_step(tries: usize, event: ReplyEvent) -> (r: RoundStep)
    requires
        1 <= tries <= API_COUNT,
    ensures
        r == round_step_after(tries as int, event),
{
    match reply_step(event) {
        ReplyStep::ReadBody => RoundStep::ReadBody,
        ReplyStep::Done => RoundStep::Return,
        ReplyStep::RateLimited => RoundStep::RateLimited,
        ReplyStep::NextHost => if tries < API_COUNT {
            RoundStep::NextHost
        } else {
            RoundStep::GiveUp
        },
    }
}

/// The tries made and the moves of the rotation in a request whose try
/// number `i + 1` ends with the event `ends[i]`, from try `i + 1` on.
pub open spec fn round_run(ends: Seq<ReplyEvent>, i: nat) -> (nat, nat)
    decreases ends.len() - i,
{
    if i >= ends.len() {
        (0, 0)
    } else {
        match round_step_after((i + 1) as int, ends[i as int]) {
            RoundStep::NextHost => {
                let rest = round_run(ends, i + 1);
                (rest.0 + 1, rest.1 + 1)
            },
            RoundStep::GiveUp => (1, 1),
            _ => (1, 0),
        }
    }
}

proof fn lemma_round_run_bounded(ends: Seq<ReplyEvent>, i: nat)
    requires
        i < API_COUNT,
    ensures
        round_run(ends, i).0 <= API_COUNT - i,
        round_run(ends, i).1 <= round_run(ends, i).0,
    decreases ends.len() - i,
{
    if i < ends.len() {
        if round_step_after((i + 1) as int, ends[i as int]) == RoundStep::NextHost {
            lemma_round_run_bounded(ends, i + 1);
        }
    }
}

/// However its tries end, a request to the API makes at most `API_COUNT`
/// tries, and moves the rotation at most once per try; a try answered with
/// status 429 ends the request at once, without moving the rotation for it.
pub proof fn law_request_round_bounded(ends: Seq<ReplyEvent>, k: nat)
    ensures
        round_run(ends, 0).0 <= API_COUNT,
        round_run(ends, 0).1 <= round_run(ends, 0).0,
        k < ends.len() && k < API_COUNT && ends[k as int] == ReplyEvent::Status(429) ==> round_run(
            ends,
            k,
        ) == (1nat, 0nat),
{
    lemma_round_run_bounded(ends, 0);
}

/// Each of the `API_COUNT` hosts is asked once when every request fails: from
/// any position, moving the rotation on `API_COUNT` times comes back to it,
/// and no earlier.
pub proof fn law_rotation_visits_every_host(start: int, k: int)
    requires
        0 <= start < API_COUNT,
        0 < k <= API_COUNT,
    ensures
        ((start + k) % (API_COUNT as int) == start) <==> (k == API_COUNT),
{
}

// ---------------------------------------------------------------------------
// Values as the service sends them
// ---------------------------------------------------------------------------

/// An artist as the service describes it.
#[derive(Debug)]
pub struct TidalArtist {
    pub name: String,
}

/// An album as a track record describes it.
#[derive(Debug)]
pub struct TidalAlbum {
    pub title: String,
    pub cover: Option<String>,
}

/// A track record of the service (search results, album and playlist lists,
/// and track details all use this shape).
#[derive(Debug)]
pub struct TidalTrack {
    pub id: u64,
    pub title: String,
    pub artist: Option<TidalArtist>,
    pub album: Option<TidalAlbum>,
    pub duration: Option<u32>,
    pub audio_quality: Option<String>,
    pub cover: Option<String>,
    pub isrc: Option<String>,
    pub spotify_id: Option<String>,
    pub album_id: Option<u64>,
}

/// An album record of the service.
#[derive(Debug)]
pub struct AlbumData {
    pub id: u64,
    pub title: String,
    pub artist: Option<TidalArtist>,
    pub number_of_tracks: Option<u32>,
    pub cover: Option<String>,
}

/// The creator of a playlist.
#[derive(Debug)]
pub struct TidalCreator {
    pub name: String,
}

/// A playlist record of the service.
#[derive(Debug)]
pub struct PlaylistData {
    pub id: u64,
    pub title: String,
    pub creator: Option<TidalCreator>,
    pub number_of_tracks: Option<u32>,
}

/// What the service answers when asked for the stream of a track.
#[derive(Debug)]
pub struct TrackManifestData {
    pub manifest: Option<String>,
    pub bit_depth: Option<u8>,
    pub sample_rate: Option<u32>,
    pub audio_quality: Option<String>,
}

/// The JSON form of a stream manifest.
#[derive(Debug)]
pub struct ManifestJson {
    pub urls: Vec<String>,
    pub mime_type: Option<String>,
}

// ---------------------------------------------------------------------------
// Mapping service values to catalogue values
// ---------------------------------------------------------------------------

/// The quality an upper-cased quality code of the service stands for; an
/// unknown code means `Auto`.
pub open spec fn service_quality(u: Seq<char>) -> AudioQuality {
    if u == "HI_RES_LOSSLESS"@ || u == "HI_RES"@ {
        AudioQuality::HiResLossless
    } else if u == "LOSSLESS"@ {
        AudioQuality::Lossless
    } else if u == "HIGH"@ {
        AudioQuality::High
    } else if u == "LOW"@ {
        AudioQuality::Low
    } else {
        AudioQuality::Auto
    }
}

/// The quality an upper-cased quality code of the service stands for.
pub fn quality_of_code(u: &str) -> (r: AudioQuality)
    ensures
        r == service_quality(u@),
{
    if same_text(u, "HI_RES_LOSSLESS") || same_text(u, "HI_RES") {
        AudioQuality::HiResLossless
    } else if same_text(u, "LOSSLESS") {
        AudioQuality::Lossless
    } else if same_text(u, "HIGH") {
        AudioQuality::High
    } else if same_text(u, "LOW") {
        AudioQuality::Low
    } else {
        AudioQuality::Auto
    }
}

/// Reads a quality code of the service, ignoring case.
pub fn parse_quality(quality_str: &str) -> (r: AudioQuality)
    ensures
        r == service_quality(crate::text::uppercase(quality_str@)),
{
    let up = to_upper(quality_str);
    quality_of_code(up.as_str())
}

/// The URL of the 1280x1280 image of a cover id: the dashes of the id
/// become path separators.
pub open spec fn cover_url_of(id: Seq<char>) -> Seq<char> {
    "https://resources.tidal.com/images/"@ + crate::text::replace_all(id, seq!['-'], seq!['/'])
        + "/1280x1280.jpg"@
}

/// The image URL for an optional cover id.
pub fn format_cover_url(uuid: Option<String>) -> (r: Option<String>)
    ensures
        match uuid {
            Some(id) => r is Some && r->0@ == cover_url_of(id@),
            None => r is None,
        },
{
    match uuid {
        Some(id) => {
            let v = chars_of(id.as_str());
            let mut from: Vec<char> = Vec::new();
            from.push('-');
            let mut to: Vec<char> = Vec::new();
            to.push('/');
            assert(from@ =~= seq!['-']);
            assert(to@ =~= seq!['/']);
            let replaced = replace_chars(&v, &from, &to);
            let mut out = chars_of("https://resources.tidal.com/images/");
            extend_chars(&mut out, &replaced);
            let tail = chars_of("/1280x1280.jpg");
            extend_chars(&mut out, &tail);
            Some(string_from_chars(&out))
        },
        None => None,
    }
}

/// The cover id of a track: its own, else its album's.
pub open spec fn track_cover(t: TidalTrack) -> Option<String> {
    match t.cover {
        Some(c) => Some(c),
        None => match t.album {
            Some(a) => a.cover,
            None => None,
        },
    }
}

/// The catalogue track for a track record of the service: the artist's name
/// (empty when there is none), the album's title, the quality read from its
/// code, and the image URL of the track's cover (else the album's).
pub open spec fn track_from_record(t: TidalTrack, r: TrackInfo) -> bool {
    &&& r.id == t.id
    &&& r.title == t.title
    &&& r.artist@ == (match t.artist {
        Some(a) => a.name@,
        None => Seq::<char>::empty(),
    })
    &&& r.album == (match t.album {
        Some(a) => Some(a.title),
        None => None::<String>,
    })
    &&& r.duration == t.duration
    &&& r.quality == (match t.audio_quality {
        Some(q) => Some(service_quality(crate::text::uppercase(q@))),
        None => None::<AudioQuality>,
    })
    &&& (match track_cover(t) {
        Some(c) => r.cover_url is Some && r.cover_url->0@ == cover_url_of(c@),
        None => r.cover_url is None,
    })
    &&& r.isrc == t.isrc
    &&& r.spotify_id == t.spotify_id
    &&& r.album_id == t.album_id
}

/// The catalogue track for a track record of the service.
pub fn map_track_to_info(track: TidalTrack) -> (r: TrackInfo)
    ensures
        track_from_record(track, r),
{
    let cover = match &track.cover {
        Some(c) => Some(c.clone()),
        None => match &track.album {
            Some(a) => copy_opt_text(&a.cover),
            None => None,
        },
    };
    let quality = match &track.audio_quality {
        Some(q) => Some(parse_quality(q.as_str())),
        None => None,
    };
    let artist = match track.artist {
        Some(a) => a.name,
        None => String::new(),
    };
    let album = match &track.album {
        Some(a) => Some(a.title.clone()),
        None => None,
    };
    TrackInfo {
        id: track.id,
        title: track.title,
        artist,
        album,
        duration: track.duration,
        quality,
        cover_url: format_cover_url(cover),
        isrc: track.isrc,
        spotify_id: track.spotify_id,
        album_id: track.album_id,
    }
}

/// The catalogue tracks for a list of track records, in order.
pub fn map_tracks(items: Vec<TidalTrack>) -> (r: Vec<TrackInfo>)
    ensures
        r@.len() == items@.len(),
        forall|i: int| 0 <= i < items@.len() ==> track_from_record(items@[i], #[trigger] r@[i]),
{
    let mut out: Vec<TrackInfo> = Vec::new();
    let mut rest = items;
    let ghost all = rest@;
    let mut remaining = rest.len();
    let mut reversed: Vec<TidalTrack> = Vec::new();
    while remaining > 0
        invariant
            remaining == rest@.len(),
            rest@ == all.take(remaining as int),
            reversed@.len() == all.len() - remaining,
            forall|k: int| 0 <= k < reversed@.len() ==> reversed@[k] == all[all.len() - 1 - k],
            remaining <= all.len(),
        decreases remaining,
    {
        let t = rest.pop().unwrap();
        reversed.push(t);
        remaining = remaining - 1;
        assert(rest@ =~= all.take(remaining as int));
    }
    let n = reversed.len();
    while reversed.len() > 0
        invariant
            n == all.len(),
            out@.len() + reversed@.len() == n,
            forall|k: int| 0 <= k < reversed@.len() ==> reversed@[k] == all[n - 1 - k],
            forall|i: int| 0 <= i < out@.len() ==> track_from_record(all[i], #[trigger] out@[i]),
        decreases reversed@.len(),
    {
        let t = reversed.pop().unwrap();
        let info = map_track_to_info(t);
        out.push(info);
    }
    out
}

/// The catalogue album for an album record: the artist's name (empty when
/// there is none), the track count (0 when unknown), no year, and the cover
/// image URL.
pub fn album_from_record(data: AlbumData) -> (r: AlbumInfo)
    ensures
        r.id == data.id,
        r.title == data.title,
        r.artist@ == (match data.artist {
            Some(a) => a.name@,
            None => Seq::<char>::empty(),
        }),
        r.track_count == (match data.number_of_tracks {
            Some(n) => n,
            None => 0,
        }),
        r.year is None,
        match data.cover {
            Some(c) => r.cover_url is Some && r.cover_url->0@ == cover_url_of(c@),
            None => r.cover_url is None,
        },
{
    AlbumInfo {
        id: data.id,
        title: data.title,
        artist: match data.artist {
            Some(a) => a.name,
            None => String::new(),
        },
        track_count: match data.number_of_tracks {
            Some(n) => n,
            None => 0,
        },
        year: None,
        cover_url: format_cover_url(data.cover),
    }
}

/// The catalogue playlist for a playlist record: the creator's name (empty
/// when there is none), the track count (0 when unknown), and no cover.
pub fn playlist_from_record(data: PlaylistData) -> (r: PlaylistInfo)
    ensures
        r.id == data.id,
        r.title == data.title,
        r.creator@ == (match data.creator {
            Some(c) => c.name@,
            None => Seq::<char>::empty(),
        }),
        r.track_count == (match data.number_of_tracks {
            Some(n) => n,
            None => 0,
        }),
        r.cover_url is None,
{
    PlaylistInfo {
        id: data.id,
        title: data.title,
        creator: match data.creator {
            Some(c) => c.name,
            None => String::new(),
        },
        track_count: match data.number_of_tracks {
            Some(n) => n,
            None => 0,
        },
        cover_url: None,
    }
}

// ---------------------------------------------------------------------------
// Requests
// ---------------------------------------------------------------------------

/// The characters `application/x-www-form-urlencoded` keeps as they are.
pub open spec fn form_unreserved(b: u8) -> bool {
    ||| b == 0x2a
    ||| b == 0x2d
    ||| b == 0x2e
    ||| b == 0x5f
    ||| (0x30 <= b && b <= 0x39)
    ||| (0x41 <= b && b <= 0x5a)
    ||| (0x61 <= b && b <= 0x7a)
}

/// The upper-case hexadecimal digit for `d < 16`.
pub open spec fn hex_digit(d: u8) -> char {
    seq!['0', '1', '2', '3', '4', '5', '6', '7', '8', '9', 'A', 'B', 'C', 'D', 'E', 'F'][d as int]
}

/// The `application/x-www-form-urlencoded` form of some bytes: the bytes
/// above stay, a space becomes `+`, and every other byte becomes `%` and two
/// upper-case hexadecimal digits.
pub open spec fn form_encoded(b: Seq<u8>) -> Seq<char>
    decreases b.len(),
{
    if b.len() == 0 {
        Seq::<char>::empty()
    } else {
        let c = b.last();
        let piece = if form_unreserved(c) {
            seq![c as char]
        } else if c == 0x20 {
            seq!['+']
        } else {
            seq!['%', hex_digit(c / 16), hex_digit(c % 16)]
        };
        form_encoded(b.drop_last()) + piece
    }
}

/// `url::form_urlencoded::byte_serialize` over the UTF-8 bytes of `s`,
/// collected into a `String`.
#[verifier::external_body]
fn form_urlencode(s: &str) -> (r: String)
    ensures
        r@ == form_encoded(vstd::utf8::encode_utf8(s@)),
{
    url::form_urlencoded::byte_serialize(s.as_bytes()).collect()
}

/// The text searched for: the query, followed by a space and the artist when
/// one is given.
pub open spec fn search_text(query: Seq<char>, artist: Option<Seq<char>>) -> Seq<char> {
    match artist {
        Some(a) => query + seq![' '] + a,
        None => query,
    }
}

/// The search query for `query` and an optional artist.
pub fn search_query(query: &str, artist: Option<&str>) -> (r: String)
    ensures
        r@ == search_text(query@, crate::progress::opt_str(artist)),
{
    match artist {
        Some(a) => {
            let mut s = owned(query);
            s.append(" ");
            s.append(a);
            proof {
                reveal_strlit(" ");
            }
            s
        },
        None => owned(query),
    }
}

/// The search endpoint for a search text.
pub fn search_endpoint(search_query: &str) -> (r: String)
    ensures
        r@ == "/search/?s="@ + form_encoded(vstd::utf8::encode_utf8(search_query@)),
{
    let encoded = form_urlencode(search_query);
    let mut e = owned("/search/?s=");
    e.append(encoded.as_str());
    e
}

/// An endpoint that takes one id: `<path>?id=<id>`.
pub fn id_endpoint(path: &str, id: u64) -> (r: String)
    ensures
        r@ == path@ + "?id="@ + crate::text::decimal(id as nat),
{
    let mut e = owned(path);
    e.append("?id=");
    let digits = crate::text::decimal_text(id);
    e.append(digits.as_str());
    e
}

/// The endpoint for the stream of a track in a quality:
/// `/track/?id=<id>&audioquality=<code>`.
pub fn manifest_endpoint(track_id: u64, quality: AudioQuality) -> (r: String)
    ensures
        r@ == "/track/?id="@ + crate::text::decimal(track_id as nat) + "&audioquality="@
            + quality.code(),
{
    let mut e = owned("/track/?id=");
    let digits = crate::text::decimal_text(track_id);
    e.append(digits.as_str());
    e.append("&audioquality=");
    e.append(quality.as_str());
    e
}

// ---------------------------------------------------------------------------
// Stream manifests
// ---------------------------------------------------------------------------

/// What decoding `s` with the standard base64 alphabet and padding gives
/// (`base64::engine::general_purpose::STANDARD`), or `None` when it is not
/// valid base64.
pub uninterp spec fn base64_standard_decoded(s: Seq<u8>) -> Option<Seq<u8>>;

/// `STANDARD.decode` from the `base64` crate; the result is named by
/// `base64_standard_decoded`.
#[verifier::external_body]
fn decode_base64(s: &str) -> (r: Result<Vec<u8>, base64::DecodeError>)
    ensures
        (r is Ok) == (base64_standard_decoded(vstd::utf8::encode_utf8(s@)) is Some),
        r matches Ok(v) ==> Some(v@) == base64_standard_decoded(vstd::utf8::encode_utf8(s@)),
{
    base64::engine::general_purpose::STANDARD.decode(s)
}

/// The text `String::from_utf8_lossy` reads from some bytes (invalid
/// sequences replaced by U+FFFD).
pub uninterp spec fn utf8_lossy(b: Seq<u8>) -> Seq<char>;

/// `String::from_utf8_lossy`, as an owned `String`.
#[verifier::external_body]
fn text_from_utf8_lossy(b: &Vec<u8>) -> (r: String)
    ensures
        r@ == utf8_lossy(b@),
{
    String::from_utf8_lossy(b.as_slice()).into_owned()
}

/// For a pattern and a text, what `regex::Regex::new(pattern)` and then
/// `captures_iter(text)` give: `None` when the pattern does not compile, else
/// the matches in order, each as the texts of its groups (group 0 is the whole
/// match; `None` for a group that took no part).
pub uninterp spec fn regex_captures(pattern: Seq<char>, text: Seq<char>) -> Option<
    Seq<Seq<Option<Seq<char>>>>,
>;

/// `Regex::new(pattern)` and `captures_iter(text)` of the `regex` crate, with
/// every match turned into the owned texts of its groups; named by
/// `regex_captures`.
#[verifier::external_body]
pub(crate) fn captures_all(pattern: &str, text: &str) -> (r: Option<Vec<Vec<Option<String>>>>)
    ensures
        r.deep_view() == regex_captures(pattern@, text@),
{
    let re = regex::Regex::new(pattern).ok()?;
    Some(
        re.captures_iter(text).map(
            |c| c.iter().map(|m| m.map(|m| m.as_str().to_string())).collect(),
        ).collect(),
    )
}

/// The matches of a pattern in a text (none when the pattern does not
/// compile).
pub open spec fn matches_of(pattern: Seq<char>, text: Seq<char>) -> Seq<Seq<Option<Seq<char>>>> {
    match regex_captures(pattern, text) {
        Some(m) => m,
        None => Seq::empty(),
    }
}

/// Group `k` of a match as text; a group that took no part reads as empty
/// (the groups read here are never optional in their patterns).
pub open spec fn group_text(m: Seq<Option<Seq<char>>>, k: int) -> Seq<char> {
    if 0 <= k < m.len() {
        match m[k] {
            Some(t) => t,
            None => Seq::empty(),
        }
    } else {
        Seq::empty()
    }
}

/// Group 1 of the first of some matches, if there is one.
pub open spec fn first_group_of(ms: Seq<Seq<Option<Seq<char>>>>) -> Option<Seq<char>> {
    if ms.len() > 0 {
        Some(group_text(ms[0], 1))
    } else {
        None
    }
}

/// Group 1 of the first match of a pattern in a text, if there is a match.
pub open spec fn first_group(pattern: Seq<char>, text: Seq<char>) -> Option<Seq<char>> {
    first_group_of(matches_of(pattern, text))
}

pub const MIME_PATTERN: &'static str = "mimeType=\"([^\"]+)\"";

pub const BASE_URL_PATTERN: &'static str = "<BaseURL>([^<]+)</BaseURL>";

pub const TEMPLATE_PATTERN: &'static str = "<SegmentTemplate[^>]*initialization=\"([^\"]+)\"[^>]*media=\"([^\"]+)\"[^>]*startNumber=\"([^\"]+)\"";

pub const TIMELINE_PATTERN: &'static str = "<S\\s+d=\"[^\"]+\"(?:\\s+r=\"([^\"]+)\")?\\s*/>";

pub const MEDIA_PATTERN: &'static str = "media=\"([^\"]+)\"";

pub const SEGMENT_URL_PATTERN: &'static str = "<SegmentURL[^>]*media=\"([^\"]+)\"";

/// A URL of the manifest resolved against its base URL, if it has one: the
/// two are joined with one `/` unless the base already ends in one.
pub open spec fn with_base(base: Option<Seq<char>>, s: Seq<char>) -> Seq<char> {
    match base {
        Some(b) => if b.len() > 0 && b.last() == '/' {
            b + s
        } else {
            b + seq!['/'] + s
        },
        None => s,
    }
}

/// The value of the repeat attribute of a timeline entry: `r` read as a
/// number, 0 when absent or unreadable.
pub open spec fn repeat_count(m: Seq<Option<Seq<char>>>) -> u32 {
    if m.len() > 1 {
        match m[1] {
            Some(t) => match crate::text::parsed_u32(t) {
                Some(v) => v,
                None => 0,
            },
            None => 0,
        }
    } else {
        0
    }
}

/// The number of segments a timeline lists: each entry stands for itself
/// and its repeats. The sum wraps round at 2^32 as `u32` addition does in a
/// release build.
pub open spec fn timeline_total(ms: Seq<Seq<Option<Seq<char>>>>) -> u32
    decreases ms.len(),
{
    if ms.len() == 0 {
        0
    } else {
        ((timeline_total(ms.drop_last()) as int + 1 + repeat_count(ms.last()) as int)
            % 0x1_0000_0000) as u32
    }
}

/// The URL of segment `i` of a template: `$Number$` in the media template
/// replaced by the start number plus `i` (wrapping at 2^32), resolved against
/// the base URL.
pub open spec fn template_segment(
    base: Option<Seq<char>>,
    media: Seq<char>,
    start: u32,
    i: int,
) -> Seq<char> {
    with_base(
        base,
        crate::text::replace_all(
            media,
            "$Number$"@,
            crate::text::decimal(((start as int + i) % 0x1_0000_0000) as nat),
        ),
    )
}

/// The segment URLs of a manifest with a segment template: the
/// initialization segment, then one URL per segment the timeline counts.
pub open spec fn template_segments(
    base: Option<Seq<char>>,
    m: Seq<Option<Seq<char>>>,
    total: u32,
) -> Seq<Seq<char>> {
    let start = match crate::text::parsed_u32(group_text(m, 3)) {
        Some(v) => v,
        None => 1,
    };
    seq![with_base(base, group_text(m, 1))] + Seq::new(
        total as nat,
        |i: int| template_segment(base, group_text(m, 2), start, i),
    )
}

/// The segment URLs named by `media` attributes, skipping templates (those
/// holding `$Number$`), resolved against the base URL.
pub open spec fn media_segments(base: Option<Seq<char>>, ms: Seq<Seq<Option<Seq<char>>>>) -> Seq<
    Seq<char>,
>
    decreases ms.len(),
{
    if ms.len() == 0 {
        Seq::empty()
    } else {
        let pre = media_segments(base, ms.drop_last());
        let t = group_text(ms.last(), 1);
        if crate::text::has_substring(t, "$Number$"@) {
            pre
        } else {
            pre.push(with_base(base, t))
        }
    }
}

/// The `media` attributes of `SegmentURL` elements, as they are.
pub open spec fn segment_url_list(ms: Seq<Seq<Option<Seq<char>>>>) -> Seq<Seq<char>>
    decreases ms.len(),
{
    if ms.len() == 0 {
        Seq::empty()
    } else {
        segment_url_list(ms.drop_last()).push(group_text(ms.last(), 1))
    }
}

/// The segment URLs given by the matches found in an MPD manifest (its base
/// URL, segment templates, timeline entries, `media` attributes and
/// `SegmentURL` elements): from the first segment template when there is one,
/// else from the `media` attributes, else from the `SegmentURL` elements;
/// `None` when none is found.
pub open spec fn segments_of(
    base: Option<Seq<char>>,
    templates: Seq<Seq<Option<Seq<char>>>>,
    timeline: Seq<Seq<Option<Seq<char>>>>,
    media: Seq<Seq<Option<Seq<char>>>>,
    listed: Seq<Seq<Option<Seq<char>>>>,
) -> Option<Seq<Seq<char>>> {
    if templates.len() > 0 {
        Some(template_segments(base, templates[0], timeline_total(timeline)))
    } else {
        let from_media = media_segments(base, media);
        if from_media.len() > 0 {
            Some(from_media)
        } else {
            let from_list = segment_url_list(listed);
            if from_list.len() > 0 {
                Some(from_list)
            } else {
                None
            }
        }
    }
}

/// The segment URLs of an MPD manifest, read through the patterns above.
pub open spec fn mpd_segments(xml: Seq<char>) -> Option<Seq<Seq<char>>> {
    segments_of(
        first_group(BASE_URL_PATTERN@, xml),
        matches_of(TEMPLATE_PATTERN@, xml),
        matches_of(TIMELINE_PATTERN@, xml),
        matches_of(MEDIA_PATTERN@, xml),
        matches_of(SEGMENT_URL_PATTERN@, xml),
    )
}

fn matches_or_none(pattern: &str, text: &str) -> (r: Vec<Vec<Option<String>>>)
    ensures
        r.deep_view() == matches_of(pattern@, text@),
{
    match captures_all(pattern, text) {
        Some(v) => v,
        None => Vec::new(),
    }
}

fn group_of(m: &Vec<Option<String>>, k: usize) -> (r: String)
    ensures
        r@ == group_text(m.deep_view(), k as int),
{
    if k < m.len() {
        match &m[k] {
            Some(t) => t.clone(),
            None => String::new(),
        }
    } else {
        String::new()
    }
}

fn resolve(base: &Option<String>, s: &str) -> (r: String)
    ensures
        r@ == with_base(crate::progress::opt_text(*base), s@),
{
    match base {
        Some(b) => {
            let bv = chars_of(b.as_str());
            let mut out = chars_of(b.as_str());
            if !(bv.len() > 0 && bv[bv.len() - 1] == '/') {
                out.push('/');
            }
            let sv = chars_of(s);
            extend_chars(&mut out, &sv);
            string_from_chars(&out)
        },
        None => owned(s),
    }
}

fn repeat_of(m: &Vec<Option<String>>) -> (r: u32)
    ensures
        r == repeat_count(m.deep_view()),
{
    if m.len() > 1 {
        match &m[1] {
            Some(t) => match parse_u32(t.as_str()) {
                Some(v) => v,
                None => 0,
            },
            None => 0,
        }
    } else {
        0
    }
}

/// Group 1 of the first of some matches, if there is one.
pub fn first_capture(ms: &Vec<Vec<Option<String>>>) -> (r: Option<String>)
    ensures
        crate::progress::opt_text(r) == first_group_of(ms.deep_view()),
{
    if ms.len() > 0 {
        Some(group_of(&ms[0], 1))
    } else {
        None
    }
}

/// The URLs of a segment template: the initialization segment, then one URL
/// per segment the timeline counts, numbered from the template's start
/// number (1 when it does not read as a number).
pub fn template_urls(
    base_url: &Option<String>,
    template: &Vec<Option<String>>,
    timeline: &Vec<Vec<Option<String>>>,
) -> (r: Vec<String>)
    ensures
        r.deep_view() == template_segments(
            crate::progress::opt_text(*base_url),
            template.deep_view(),
            timeline_total(timeline.deep_view()),
        ),
{
    let ghost base = crate::progress::opt_text(*base_url);
    let init_url = group_of(template, 1);
    let media_url = group_of(template, 2);
    let start_number = match parse_u32(group_of(template, 3).as_str()) {
        Some(v) => v,
        None => 1,
    };
    let mut segment_urls: Vec<String> = Vec::new();
    segment_urls.push(resolve(base_url, init_url.as_str()));
    let mut total: u32 = 0;
    let tn = timeline.len();
    for j in 0..tn
        invariant
            tn == timeline.deep_view().len(),
            total == timeline_total(timeline.deep_view().take(j as int)),
    {
        assert(timeline.deep_view().take(j + 1).drop_last() =~= timeline.deep_view().take(j as int));
        let r = repeat_of(&timeline[j]);
        total = total.wrapping_add(1u32.wrapping_add(r));
        proof {
            assert(timeline.deep_view()[j as int] == timeline@[j as int].deep_view());
        }
    }
    assert(timeline.deep_view().take(tn as int) =~= timeline.deep_view());
    let media_v = chars_of(media_url.as_str());
    let pattern = chars_of("$Number$");
    let ghost m = template.deep_view();
    let ghost start = start_number;
    for i in 0..total
        invariant
            segment_urls.deep_view().len() == 1 + i,
            segment_urls.deep_view()[0] == with_base(base, group_text(m, 1)),
            forall|k: int|
                1 <= k < 1 + i ==> #[trigger] segment_urls.deep_view()[k] == template_segment(
                    base,
                    group_text(m, 2),
                    start,
                    k - 1,
                ),
            media_v@ == group_text(m, 2),
            pattern@ == "$Number$"@,
            crate::progress::opt_text(*base_url) == base,
            start == start_number,
    {
        let num = start_number.wrapping_add(i);
        let digits = decimal_chars(num as u64);
        proof {
            reveal_strlit("$Number$");
        }
        let seg = replace_chars(&media_v, &pattern, &digits);
        let seg_text = string_from_chars(&seg);
        let full = resolve(base_url, seg_text.as_str());
        let ghost before = segment_urls.deep_view();
        segment_urls.push(full);
        assert(segment_urls.deep_view() =~= before.push(full@));
    }
    proof {
        let want = template_segments(base, m, total);
        assert(segment_urls.deep_view() =~= want);
    }
    segment_urls
}

/// The URLs named by `media` attributes, skipping templates, resolved
/// against the base URL.
pub fn media_urls(base_url: &Option<String>, media: &Vec<Vec<Option<String>>>) -> (r: Vec<String>)
    ensures
        r.deep_view() == media_segments(crate::progress::opt_text(*base_url), media.deep_view()),
{
    let ghost base = crate::progress::opt_text(*base_url);
    let mut segment_urls: Vec<String> = Vec::new();
    let mn = media.len();
    for j in 0..mn
        invariant
            mn == media.deep_view().len(),
            segment_urls.deep_view() == media_segments(base, media.deep_view().take(j as int)),
            crate::progress::opt_text(*base_url) == base,
    {
        assert(media.deep_view().take(j + 1).drop_last() =~= media.deep_view().take(j as int));
        let seg = group_of(&media[j], 1);
        if !text_contains(seg.as_str(), "$Number$") {
            let full = resolve(base_url, seg.as_str());
            let ghost before = segment_urls.deep_view();
            segment_urls.push(full);
            assert(segment_urls.deep_view() =~= before.push(full@));
        }
    }
    assert(media.deep_view().take(mn as int) =~= media.deep_view());
    segment_urls
}

/// The `media` attributes of `SegmentURL` elements, as they are.
pub fn listed_urls(listed: &Vec<Vec<Option<String>>>) -> (r: Vec<String>)
    ensures
        r.deep_view() == segment_url_list(listed.deep_view()),
{
    let mut segment_urls: Vec<String> = Vec::new();
    let ln = listed.len();
    for j in 0..ln
        invariant
            ln == listed.deep_view().len(),
            segment_urls.deep_view() == segment_url_list(listed.deep_view().take(j as int)),
    {
        assert(listed.deep_view().take(j + 1).drop_last() =~= listed.deep_view().take(j as int));
        let seg = group_of(&listed[j], 1);
        let ghost before = segment_urls.deep_view();
        segment_urls.push(seg);
        assert(segment_urls.deep_view() =~= before.push(group_text(listed.deep_view()[j as int], 1)));
    }
    assert(listed.deep_view().take(ln as int) =~= listed.deep_view());
    segment_urls
}

/// The segment URLs given by the matches found in a manifest; see
/// `segments_of`.
pub fn segments_from_matches(
    base_url: &Option<String>,
    templates: &Vec<Vec<Option<String>>>,
    timeline: &Vec<Vec<Option<String>>>,
    media: &Vec<Vec<Option<String>>>,
    listed: &Vec<Vec<Option<String>>>,
) -> (r: Option<Vec<String>>)
    ensures
        r.deep_view() == segments_of(
            crate::progress::opt_text(*base_url),
            templates.deep_view(),
            timeline.deep_view(),
            media.deep_view(),
            listed.deep_view(),
        ),
{
    if templates.len() > 0 {
        proof {
            assert(templates.deep_view()[0] == templates@[0].deep_view());
        }
        return Some(template_urls(base_url, &templates[0], timeline));
    }
    let from_media = media_urls(base_url, media);
    if from_media.len() > 0 {
        return Some(from_media);
    }
    let from_list = listed_urls(listed);
    if from_list.len() > 0 {
        Some(from_list)
    } else {
        None
    }
}

/// Parses an MPD (DASH) manifest into its segment URLs and its MIME type.
pub fn parse_mpd_manifest(mpd_xml: &str) -> (r: Result<(Vec<String>, Option<String>), DownloadError>)
    ensures
        match mpd_segments(mpd_xml@) {
            Some(segs) => r matches Ok((v, mime)) && v.deep_view() == segs
                && crate::progress::opt_text(mime) == first_group(MIME_PATTERN@, mpd_xml@),
            None => r matches Err(DownloadError::XmlParseError(_)),
        },
{
    let mime_type = first_capture(&matches_or_none(MIME_PATTERN, mpd_xml));
    let base_url = first_capture(&matches_or_none(BASE_URL_PATTERN, mpd_xml));
    let templates = matches_or_none(TEMPLATE_PATTERN, mpd_xml);
    let timeline = matches_or_none(TIMELINE_PATTERN, mpd_xml);
    let media = matches_or_none(MEDIA_PATTERN, mpd_xml);
    let listed = matches_or_none(SEGMENT_URL_PATTERN, mpd_xml);
    match segments_from_matches(&base_url, &templates, &timeline, &media, &listed) {
        Some(segment_urls) => Ok((segment_urls, mime_type)),
        None => Err(
            DownloadError::XmlParseError(owned("Could not parse segment URLs from MPD manifest")),
        ),
    }
}

/// A decoded stream manifest: either a DASH manifest already read, or JSON
/// text still to be parsed.
#[derive(Debug)]
pub enum ManifestBody {
    Dash(DownloadManifest),
    Json(String),
}

/// The manifest text holds a DASH manifest.
pub open spec fn is_dash(text: Seq<char>) -> bool {
    crate::text::has_substring(text, "application/dash+xml"@) || crate::text::has_substring(
        text,
        "<MPD"@,
    )
}

/// The quality actually delivered: the one the service reports, else the one
/// asked for.
pub open spec fn delivered_quality(reported: Option<String>, requested: AudioQuality) -> AudioQuality {
    match reported {
        Some(q) => service_quality(crate::text::uppercase(q@)),
        None => requested,
    }
}

/// The quality a stream answer is delivered in: the one the service
/// reports, else the one requested.
pub fn delivered(reported: &Option<String>, requested: AudioQuality) -> (r: AudioQuality)
    ensures
        r == delivered_quality(*reported, requested),
{
    match reported {
        Some(q) => parse_quality(q.as_str()),
        None => requested,
    }
}

/// What the decoded text of a stream manifest gives: DASH text (one that
/// names the DASH MIME type or holds an `<MPD` element) is read into its
/// segment URLs, in the quality delivered and with the MIME type it states
/// (else the DASH MIME type); any other text is JSON, handed back as it is.
pub open spec fn body_of_text(
    text: Seq<char>,
    quality: AudioQuality,
    bit_depth: Option<u8>,
    sample_rate: Option<u32>,
    r: Result<ManifestBody, DownloadError>,
) -> bool {
    if is_dash(text) {
        match mpd_segments(text) {
            None => r matches Err(DownloadError::XmlParseError(_)),
            Some(segs) => r matches Ok(ManifestBody::Dash(m)) && m.url is None
                && m.segment_urls is Some && m.segment_urls->0.deep_view() == segs
                && m.quality == quality && m.bit_depth == bit_depth && m.sample_rate == sample_rate
                && crate::progress::opt_text(m.mime_type) == Some(
                match first_group(MIME_PATTERN@, text) {
                    Some(t) => t,
                    None => "application/dash+xml"@,
                },
            ),
        }
    } else {
        r matches Ok(ManifestBody::Json(t)) && t@ == text
    }
}

/// Reads the decoded text of a stream manifest delivered in `quality`.
pub fn body_from_text(
    text: String,
    quality: AudioQuality,
    bit_depth: Option<u8>,
    sample_rate: Option<u32>,
) -> (r: Result<ManifestBody, DownloadError>)
    ensures
        body_of_text(text@, quality, bit_depth, sample_rate, r),
{
    if text_contains(text.as_str(), "application/dash+xml") || text_contains(text.as_str(), "<MPD") {
        let (segments, mime) = parse_mpd_manifest(text.as_str())?;
        let mime_type = match mime {
            Some(m) => m,
            None => owned("application/dash+xml"),
        };
        Ok(
            ManifestBody::Dash(
                DownloadManifest {
                    url: None,
                    segment_urls: Some(segments),
                    quality,
                    bit_depth,
                    sample_rate,
                    mime_type: Some(mime_type),
                },
            ),
        )
    } else {
        Ok(ManifestBody::Json(text))
    }
}

/// Reads the stream answer for a track requested in `quality`: the manifest
/// must be there (else there is nothing to download), is base64-decoded and
/// read as UTF-8 text, and the text is read by `body_from_text` in the
/// quality delivered.
pub fn decode_manifest(data: TrackManifestData, quality: AudioQuality) -> (r: Result<
    ManifestBody,
    DownloadError,
>)
    ensures
        match data.manifest {
            None => r matches Err(DownloadError::NoDownloadUrl),
            Some(b64) => match base64_standard_decoded(vstd::utf8::encode_utf8(b64@)) {
                None => r matches Err(DownloadError::Base64DecodeError(_)),
                Some(bytes) => body_of_text(
                    utf8_lossy(bytes),
                    delivered_quality(data.audio_quality, quality),
                    data.bit_depth,
                    data.sample_rate,
                    r,
                ),
            },
        },
{
    let b64 = match &data.manifest {
        Some(b) => b,
        None => return Err(DownloadError::NoDownloadUrl),
    };
    let decoded = match decode_base64(b64.as_str()) {
        Ok(d) => d,
        Err(e) => return Err(DownloadError::Base64DecodeError(e)),
    };
    let text = text_from_utf8_lossy(&decoded);
    let actual_quality = delivered(&data.audio_quality, quality);
    body_from_text(text, actual_quality, data.bit_depth, data.sample_rate)
}

/// The manifest for a JSON stream manifest: its first URL (none means nothing
/// to download) and its MIME type.
pub fn manifest_from_json(
    json: ManifestJson,
    quality: AudioQuality,
    bit_depth: Option<u8>,
    sample_rate: Option<u32>,
) -> (r: Result<DownloadManifest, DownloadError>)
    ensures
        json.urls@.len() == 0 ==> r matches Err(DownloadError::NoDownloadUrl),
        json.urls@.len() > 0 ==> (r matches Ok(m) && m.url == Some(json.urls@[0]) && m.segment_urls is None
            && m.quality == quality && m.bit_depth == bit_depth && m.sample_rate == sample_rate
            && m.mime_type == json.mime_type),
{
    let mut urls = json.urls;
    if urls.len() == 0 {
        return Err(DownloadError::NoDownloadUrl);
    }
    let first = urls.swap_remove(0);
    Ok(
        DownloadManifest {
            url: Some(first),
            segment_urls: None,
            quality,
            bit_depth,
            sample_rate,
            mime_type: json.mime_type,
        },
    )
}

} // verus!
