use vstd::prelude::*;

use crate::error::DownloadError;
use crate::text::{chars_of, extend_chars, owned, string_from_chars, text_contains};
use crate::types::{copy_opt_text, AudioQuality, DownloadManifest, TrackInfo};

verus! {

broadcast use vstd::string::group_string_axioms;

/// How downloaded files are sorted into directories.
#[derive(Debug, Clone, Copy, PartialEq, Eq, Structural)]
pub enum DirMode {
    Playlist,
    Album,
    Artist,
    Flat,
}

/// The characters `sanitize_filename` removes on every platform: the ones
/// file systems reserve (`/ ? < > \ : * | "`) and the control characters
/// (U+0000 to U+001F and U+0080 to U+009F).
pub open spec fn unsafe_in_file_name(c: char) -> bool {
    ||| c == '/'
    ||| c == '?'
    ||| c == '<'
    ||| c == '>'
    ||| c == '\\'
    ||| c == ':'
    ||| c == '*'
    ||| c == '|'
    ||| c == '"'
    ||| c <= '\u{1f}'
    ||| ('\u{80}' <= c && c <= '\u{9f}')
}

/// A text `sanitize_filename::sanitize` can return: none of the characters it
/// always removes.
pub open spec fn clean_file_name(s: Seq<char>) -> bool {
    forall|i: int| 0 <= i < s.len() ==> !unsafe_in_file_name(#[trigger] s[i])
}

/// `r` is `s` with some characters deleted (the rest kept, in order).
pub open spec fn deleted_from(r: Seq<char>, s: Seq<char>) -> bool
    decreases s.len(),
{
    if r.len() == 0 {
        true
    } else if s.len() == 0 {
        false
    } else if r.last() == s.last() {
        deleted_from(r.drop_last(), s.drop_last())
    } else {
        deleted_from(r, s.drop_last())
    }
}

/// Every character of `s` is a dot.
pub open spec fn all_dots(s: Seq<char>) -> bool {
    forall|i: int| 0 <= i < s.len() ==> s[i] == '.'
}

/// `c` is the ASCII letter `lower` in either case.
pub open spec fn letter_is(c: char, lower: char) -> bool {
    c == lower || (c as u32) + 32 == (lower as u32)
}

/// `s` starts with the three letters `a`, `b`, `c`, in any ASCII case.
pub open spec fn starts_with_letters(s: Seq<char>, a: char, b: char, c: char) -> bool {
    s.len() >= 3 && letter_is(s[0], a) && letter_is(s[1], b) && letter_is(s[2], c)
}

/// A name Windows reserves for a device (`con`, `prn`, `aux`, `nul`, `com0`
/// to `com9`, `lpt0` to `lpt9`, in any case, alone or followed by a `.` and
/// more).
pub open spec fn windows_reserved(s: Seq<char>) -> bool {
    ||| ((starts_with_letters(s, 'c', 'o', 'n') || starts_with_letters(s, 'p', 'r', 'n')
        || starts_with_letters(s, 'a', 'u', 'x') || starts_with_letters(s, 'n', 'u', 'l')) && (
    s.len() == 3 || s[3] == '.'))
    ||| ((starts_with_letters(s, 'c', 'o', 'm') || starts_with_letters(s, 'l', 'p', 't'))
        && s.len() >= 4 && '0' <= s[3] <= '9' && (s.len() == 4 || s[4] == '.'))
}

/// A name `sanitize_filename::sanitize` leaves as it is on every platform:
/// none of the characters it removes, not made of dots alone, at most 255
/// bytes of UTF-8, not ending in a dot or a space, and not a name Windows
/// reserves.
pub open spec fn kept_by_sanitize(s: Seq<char>) -> bool {
    &&& clean_file_name(s)
    &&& !(s.len() > 0 && all_dots(s))
    &&& vstd::utf8::encode_utf8(s).len() <= 255
    &&& !(s.len() > 0 && (s.last() == '.' || s.last() == ' '))
    &&& !windows_reserved(s)
}

/// A text takes at most four bytes of UTF-8 per character.
pub proof fn lemma_utf8_at_most_four_bytes(s: Seq<char>)
    ensures
        vstd::utf8::encode_utf8(s).len() <= 4 * s.len(),
    decreases s.len(),
{
    if s.len() > 0 {
        lemma_utf8_at_most_four_bytes(s.drop_first());
    }
}

/// `r` is what sanitizing `name` can give, on any platform: `name` with
/// characters deleted, none of those it always removes left, and `name`
/// itself when it is kept as it is.
pub open spec fn sanitized_from(r: Seq<char>, name: Seq<char>) -> bool {
    &&& clean_file_name(r)
    &&& deleted_from(r, name)
    &&& (kept_by_sanitize(name) ==> r == name)
}

/// `sanitize_filename::sanitize` with its default options. Every step of it
/// deletes characters (the reserved and control characters, a name of dots
/// alone, what passes 255 bytes, and on Windows a reserved name and trailing
/// dots and spaces), and none of them touches a name that `kept_by_sanitize`
/// holds of. Which characters go from other names depends on the platform it
/// was built for (Windows adds rules), so that is not stated.
#[verifier::external_body]
fn sanitize(name: &str) -> (r: String)
    ensures
        sanitized_from(r@, name@),
{
    sanitize_filename::sanitize(name)
}

/// `base` joined with `part` as `Path::join` does on Unix: an absolute `part`
/// replaces `base`, otherwise a `/` is put between them unless `base` is empty
/// or already ends in `/`.
pub open spec fn join_path(base: Seq<char>, part: Seq<char>) -> Seq<char> {
    if part.len() > 0 && part[0] == '/' {
        part
    } else if base.len() == 0 || base.last() == '/' {
        base + part
    } else {
        base + seq!['/'] + part
    }
}

/// Joins `part` onto the path text `base`.
pub fn join_path_text(base: &str, part: &str) -> (r: String)
    ensures
        r@ == join_path(base@, part@),
{
    let b = chars_of(base);
    let p = chars_of(part);
    if p.len() > 0 && p[0] == '/' {
        return string_from_chars(&p);
    }
    let mut out = b;
    if out.len() > 0 && out[out.len() - 1] != '/' {
        out.push('/');
    }
    extend_chars(&mut out, &p);
    string_from_chars(&out)
}

/// The directory a file goes in, given the sanitized name that mode takes it
/// from (empty when there is none): a name that sanitizes to nothing is
/// replaced by `Unknown Playlist`, `Unknown Album` or `Unknown Artist`; the
/// flat mode uses no directory.
pub open spec fn sub_dir_name(mode: DirMode, sanitized: Seq<char>) -> Seq<char> {
    match mode {
        DirMode::Playlist => if sanitized.len() == 0 {
            "Unknown Playlist"@
        } else {
            sanitized
        },
        DirMode::Artist => if sanitized.len() == 0 {
            "Unknown Artist"@
        } else {
            sanitized
        },
        DirMode::Album => if sanitized.len() == 0 {
            "Unknown Album"@
        } else {
            sanitized
        },
        DirMode::Flat => Seq::<char>::empty(),
    }
}

/// The path of a file named `file_name` under `output_dir`, inside the
/// directory `sub_dir` unless that is empty.
pub open spec fn file_path(output_dir: Seq<char>, sub_dir: Seq<char>, file_name: Seq<char>) -> Seq<
    char,
> {
    if sub_dir.len() == 0 {
        join_path(output_dir, file_name)
    } else {
        join_path(join_path(output_dir, sub_dir), file_name)
    }
}

proof fn lemma_join_keeps_ends(base: Seq<char>, part: Seq<char>)
    requires
        part.len() == 0 || part[0] != '/',
    ensures
        join_path(base, part).len() >= base.len() + part.len(),
        join_path(base, part).subrange(0, base.len() as int) == base,
        join_path(base, part).subrange(
            join_path(base, part).len() - part.len(),
            join_path(base, part).len() as int,
        ) == part,
{
    let j = join_path(base, part);
    assert(j.subrange(0, base.len() as int) =~= base);
    assert(j.subrange(j.len() - part.len(), j.len() as int) =~= part);
}

/// A file is always saved inside the output directory and under the
/// extension asked for: whatever the mode and the (sanitized) names, the
/// path starts with the output directory and ends with `.` and the
/// extension.
pub proof fn law_file_stays_in_output_dir(
    output_dir: Seq<char>,
    mode: DirMode,
    title_part: Seq<char>,
    dir_part: Seq<char>,
    extension: Seq<char>,
)
    requires
        clean_file_name(title_part),
        clean_file_name(dir_part),
    ensures
        ({
            let p = file_path(
                output_dir,
                sub_dir_name(mode, dir_part),
                title_part + seq!['.'] + extension,
            );
            &&& p.len() >= output_dir.len() + extension.len() + 1
            &&& p.subrange(0, output_dir.len() as int) == output_dir
            &&& p.subrange(p.len() - extension.len() - 1, p.len() as int) == seq!['.'] + extension
        }),
{
    reveal_strlit("Unknown Playlist");
    reveal_strlit("Unknown Artist");
    reveal_strlit("Unknown Album");
    let name = title_part + seq!['.'] + extension;
    if title_part.len() > 0 {
        assert(name[0] == title_part[0]);
        assert(!unsafe_in_file_name(title_part[0]));
    } else {
        assert(name[0] == '.');
    }
    let sub = sub_dir_name(mode, dir_part);
    if sub.len() > 0 && sub == dir_part {
        assert(!unsafe_in_file_name(dir_part[0]));
    }
    let ext_part = seq!['.'] + extension;
    assert(name.subrange(name.len() - ext_part.len(), name.len() as int) =~= ext_part);
    if sub.len() == 0 {
        lemma_join_keeps_ends(output_dir, name);
        let p = join_path(output_dir, name);
        assert(p.subrange(p.len() - ext_part.len(), p.len() as int) =~= p.subrange(
            p.len() - name.len(),
            p.len() as int,
        ).subrange(name.len() - ext_part.len(), name.len() as int));
    } else {
        lemma_join_keeps_ends(output_dir, sub);
        let d = join_path(output_dir, sub);
        lemma_join_keeps_ends(d, name);
        let p = join_path(d, name);
        assert(p.subrange(0, output_dir.len() as int) =~= p.subrange(0, d.len() as int).subrange(
            0,
            output_dir.len() as int,
        ));
        assert(p.subrange(p.len() - ext_part.len(), p.len() as int) =~= p.subrange(
            p.len() - name.len(),
            p.len() as int,
        ).subrange(name.len() - ext_part.len(), name.len() as int));
    }
}

/// Where a track is saved and how its directory is chosen.
#[derive(Debug)]
pub struct DownloadManager {
    pub output_dir: String,
    pub album: Option<String>,
    pub playlist: Option<String>,
    pub dir_mode: DirMode,
    pub embed_cover: bool,
}

impl DownloadManager {
    /// Saves under `output_dir`, by playlist, embedding cover art.
    pub fn new(output_dir: &str) -> (r: Self)
        ensures
            r.output_dir@ == output_dir@,
            r.album is None,
            r.playlist is None,
            r.dir_mode == DirMode::Playlist,
            r.embed_cover,
    {
        DownloadManager {
            output_dir: owned(output_dir),
            album: None,
            playlist: None,
            dir_mode: DirMode::Playlist,
            embed_cover: true,
        }
    }

    pub fn with_embed_cover(self, embed_cover: bool) -> (r: Self)
        ensures
            r == (DownloadManager { embed_cover, ..self }),
    {
        DownloadManager { embed_cover, ..self }
    }

    /// Sets the album name used when a track names none.
    pub fn with_album(self, album: Option<&str>) -> (r: Self)
        ensures
            r.output_dir == self.output_dir,
            crate::progress::opt_text(r.album) == crate::progress::opt_str(album),
            r.playlist == self.playlist,
            r.dir_mode == self.dir_mode,
            r.embed_cover == self.embed_cover,
    {
        DownloadManager { album: crate::progress::own_opt(album), ..self }
    }

    pub fn with_playlist(self, playlist: Option<&str>) -> (r: Self)
        ensures
            r.output_dir == self.output_dir,
            r.album == self.album,
            crate::progress::opt_text(r.playlist) == crate::progress::opt_str(playlist),
            r.dir_mode == self.dir_mode,
            r.embed_cover == self.embed_cover,
    {
        DownloadManager { playlist: crate::progress::own_opt(playlist), ..self }
    }

    pub fn with_dir_mode(self, mode: DirMode) -> (r: Self)
        ensures
            r == (DownloadManager { dir_mode: mode, ..self }),
    {
        DownloadManager { dir_mode: mode, ..self }
    }

    /// Whether the directory for `track` is named after some text in this
    /// mode, and which: the playlist, the artist, or the track's album (else
    /// the album given to the manager).
    pub open spec fn dir_source(&self, track: TrackInfo) -> Option<Seq<char>> {
        match self.dir_mode {
            DirMode::Playlist => crate::progress::opt_text(self.playlist),
            DirMode::Artist => Some(track.artist@),
            DirMode::Album => match track.album {
                Some(a) => Some(a@),
                None => crate::progress::opt_text(self.album),
            },
            DirMode::Flat => None,
        }
    }

    /// The path a track is saved at, given the sanitized title and the
    /// sanitized directory name (empty when the mode names the directory after
    /// nothing): `<title>.<extension>` in the directory of the mode.
    pub fn path_from_parts(&self, title_part: &str, dir_part: &str, extension: &str) -> (r: String)
        ensures
            r@ == file_path(
                self.output_dir@,
                sub_dir_name(self.dir_mode, dir_part@),
                title_part@ + seq!['.'] + extension@,
            ),
    {
        let mut name = owned(title_part);
        name.append(".");
        name.append(extension);
        let sub = match self.dir_mode {
            DirMode::Playlist => if dir_part.is_empty() {
                owned("Unknown Playlist")
            } else {
                owned(dir_part)
            },
            DirMode::Artist => if dir_part.is_empty() {
                owned("Unknown Artist")
            } else {
                owned(dir_part)
            },
            DirMode::Album => if dir_part.is_empty() {
                owned("Unknown Album")
            } else {
                owned(dir_part)
            },
            DirMode::Flat => owned(""),
        };
        proof {
            reveal_strlit("");
            reveal_strlit(".");
            reveal_strlit("Unknown Playlist");
            reveal_strlit("Unknown Artist");
            reveal_strlit("Unknown Album");
        }
        if sub.as_str().is_empty() {
            join_path_text(self.output_dir.as_str(), name.as_str())
        } else {
            let dir = join_path_text(self.output_dir.as_str(), sub.as_str());
            join_path_text(dir.as_str(), name.as_str())
        }
    }

    /// The path `track` is saved at: its title, sanitized, with `extension`
    /// added, in the directory the mode picks (see `dir_source` and
    /// `sub_dir_name`), all under the output directory.
    pub fn generate_filename(&self, track: &TrackInfo, extension: &str) -> (r: String)
        ensures
            exists|title_part: Seq<char>, dir_part: Seq<char>|
                {
                    &&& sanitized_from(title_part, track.title@)
                    &&& match self.dir_source(*track) {
                        Some(d) => sanitized_from(dir_part, d),
                        None => dir_part.len() == 0,
                    }
                    &&& r@ == file_path(
                        self.output_dir@,
                        sub_dir_name(self.dir_mode, dir_part),
                        title_part + seq!['.'] + extension@,
                    )
                },
    {
        let title = sanitize(track.title.as_str());
        let dir = match self.dir_mode {
            DirMode::Playlist => match &self.playlist {
                Some(p) => sanitize(p.as_str()),
                None => String::new(),
            },
            DirMode::Artist => sanitize(track.artist.as_str()),
            DirMode::Album => match &track.album {
                Some(a) => sanitize(a.as_str()),
                None => match &self.album {
                    Some(a) => sanitize(a.as_str()),
                    None => String::new(),
                },
            },
            DirMode::Flat => String::new(),
        };
        assert(clean_file_name(dir@));
        let r = self.path_from_parts(title.as_str(), dir.as_str(), extension);
        assert(clean_file_name(title@));
        r
    }
}

// ---------------------------------------------------------------------------
// Reading a manifest
// ---------------------------------------------------------------------------

/// The MIME type names an MP4 container (`mp4`, `m4a` or `aac` occurs in it).
pub open spec fn mime_is_mp4(mime: Seq<char>) -> bool {
    crate::text::has_substring(mime, "mp4"@) || crate::text::has_substring(mime, "m4a"@)
        || crate::text::has_substring(mime, "aac"@)
}

/// The file extension for a manifest: lossless audio in MP4 is saved as
/// FLAC (it is converted), other MP4 audio as `m4a`, a FLAC MIME type as
/// `flac`, and otherwise the extension of the quality.
pub open spec fn manifest_extension(mime: Option<Seq<char>>, quality: AudioQuality) -> Seq<char> {
    match mime {
        Some(m) => if mime_is_mp4(m) {
            if quality.is_lossless() {
                "flac"@
            } else {
                "m4a"@
            }
        } else if crate::text::has_substring(m, "flac"@) {
            "flac"@
        } else {
            quality.extension()
        },
        None => quality.extension(),
    }
}

/// Whether the MIME type of a manifest names an MP4 container.
pub fn is_mp4_mime(mime: &str) -> (r: bool)
    ensures
        r == mime_is_mp4(mime@),
{
    text_contains(mime, "mp4") || text_contains(mime, "m4a") || text_contains(mime, "aac")
}

/// The extension of a manifest's audio, for a MIME type naming an MP4
/// container (it holds `mp4`, `m4a` or `aac`): `flac` for both lossless
/// qualities, whose MP4 audio is converted to FLAC, and `m4a` for the lossy
/// ones.
pub proof fn law_mp4_extension(m: Seq<char>, q: AudioQuality)
    requires
        crate::text::has_substring(m, "mp4"@) || crate::text::has_substring(m, "m4a"@)
            || crate::text::has_substring(m, "aac"@),
    ensures
        q == AudioQuality::HiResLossless ==> manifest_extension(Some(m), q) == "flac"@,
        q == AudioQuality::Lossless ==> manifest_extension(Some(m), q) == "flac"@,
        q != AudioQuality::HiResLossless && q != AudioQuality::Lossless ==> manifest_extension(
            Some(m),
            q,
        ) == "m4a"@,
{
}

/// The extension of a manifest's audio when the MIME type names no MP4
/// container: `flac` for a FLAC MIME type, and otherwise (no MIME type, or
/// another one) the extension of the quality: `flac` for the lossless
/// qualities and `Auto`, `m4a` for `High` and `Low`, `mp3` for `Mp3_320`.
pub proof fn law_other_extensions(mime: Option<Seq<char>>, q: AudioQuality)
    requires
        match mime {
            Some(m) => !crate::text::has_substring(m, "mp4"@) && !crate::text::has_substring(m, "m4a"@)
                && !crate::text::has_substring(m, "aac"@),
            None => true,
        },
    ensures
        (match mime {
            Some(m) => crate::text::has_substring(m, "flac"@),
            None => false,
        }) ==> manifest_extension(mime, q) == "flac"@,
        !(match mime {
            Some(m) => crate::text::has_substring(m, "flac"@),
            None => false,
        }) ==> manifest_extension(mime, q) == (if q == AudioQuality::High || q == AudioQuality::Low {
            "m4a"@
        } else if q == AudioQuality::Mp3_320 {
            "mp3"@
        } else {
            "flac"@
        }),
{
}

/// Audio that is converted to FLAC is saved under the extension `flac`.
pub proof fn law_converted_audio_saved_as_flac(mime: Option<Seq<char>>, q: AudioQuality)
    requires
        match mime {
            Some(m) => mime_is_mp4(m),
            None => false,
        },
        q == AudioQuality::HiResLossless || q == AudioQuality::Lossless,
    ensures
        manifest_extension(mime, q) == "flac"@,
{
}

/// The extension the audio of `manifest` is saved under.
pub fn extension_for(manifest: &DownloadManifest) -> (r: &'static str)
    ensures
        r@ == manifest_extension(crate::progress::opt_text(manifest.mime_type), manifest.quality),
{
    match &manifest.mime_type {
        Some(m) => {
            if is_mp4_mime(m.as_str()) {
                if manifest.quality.lossless() {
                    "flac"
                } else {
                    "m4a"
                }
            } else if text_contains(m.as_str(), "flac") {
                "flac"
            } else {
                manifest.quality.file_extension()
            }
        },
        None => manifest.quality.file_extension(),
    }
}

/// Whether the downloaded audio has to be converted to FLAC: lossless audio
/// delivered in an MP4 container.
pub fn needs_flac_conversion(manifest: &DownloadManifest) -> (r: bool)
    ensures
        r == (match crate::progress::opt_text(manifest.mime_type) {
            Some(m) => mime_is_mp4(m),
            None => false,
        } && manifest.quality.is_lossless()),
{
    let mp4 = match &manifest.mime_type {
        Some(m) => is_mp4_mime(m.as_str()),
        None => false,
    };
    mp4 && manifest.quality.lossless()
}

/// How the audio of a manifest is fetched.
#[derive(Debug)]
pub enum FetchPlan {
    /// One request for the whole file.
    Single(String),
    /// Requests for these segments, in order, appended to one file.
    Segments(Vec<String>),
}

/// How to fetch the audio of `manifest`: its URL if it has one, else its
/// segments; a manifest with neither has nothing to download.
pub fn fetch_plan(manifest: &DownloadManifest) -> (r: Result<FetchPlan, DownloadError>)
    ensures
        match manifest.url {
            Some(u) => r matches Ok(FetchPlan::Single(v)) && v == u,
            None => match manifest.segment_urls {
                Some(s) => r matches Ok(FetchPlan::Segments(v)) && v@ == s@,
                None => r matches Err(DownloadError::NoDownloadUrl),
            },
        },
{
    match &manifest.url {
        Some(u) => Ok(FetchPlan::Single(u.clone())),
        None => match &manifest.segment_urls {
            Some(s) => {
                let mut v: Vec<String> = Vec::new();
                let n = s.len();
                for i in 0..n
                    invariant
                        n == s@.len(),
                        v@ == s@.take(i as int),
                {
                    v.push(s[i].clone());
                    assert(v@ =~= s@.take(i + 1));
                }
                assert(s@.take(n as int) =~= s@);
                Ok(FetchPlan::Segments(v))
            },
            None => Err(DownloadError::NoDownloadUrl),
        },
    }
}

/// The text after the last `.` of `s` (all of `s` when it has none), as
/// `s.rsplit('.').next()` gives it.
pub open spec fn after_last_dot(s: Seq<char>) -> Seq<char>
    decreases s.len(),
{
    if s.len() == 0 {
        s
    } else if s.last() == '.' {
        Seq::<char>::empty()
    } else {
        after_last_dot(s.drop_last()).push(s.last())
    }
}

/// The text before the first `?` of `s` (all of `s` when it has none), as
/// `s.split('?').next()` gives it.
pub open spec fn before_question_mark(s: Seq<char>) -> Seq<char>
    decreases s.len(),
{
    if s.len() == 0 {
        s
    } else if s[0] == '?' {
        Seq::<char>::empty()
    } else {
        seq![s[0]] + before_question_mark(s.drop_first())
    }
}

/// The extension of a cover image URL: what follows its last `.`, up to a
/// `?` that starts a query.
pub open spec fn cover_ext(url: Seq<char>) -> Seq<char> {
    before_question_mark(after_last_dot(url))
}

/// The cover file extension names a PNG image: `png` in any mix of ASCII
/// case.
pub open spec fn png_extension(ext: Seq<char>) -> bool {
    &&& ext.len() == 3
    &&& (ext[0] == 'p' || ext[0] == 'P')
    &&& (ext[1] == 'n' || ext[1] == 'N')
    &&& (ext[2] == 'g' || ext[2] == 'G')
}

/// Whether a cover file with extension `ext` is a PNG image (compared without
/// regard to ASCII case, as `eq_ignore_ascii_case` does); other covers are
/// taken as JPEG.
pub fn is_png_extension(ext: &str) -> (r: bool)
    ensures
        r == png_extension(ext@),
{
    let v = chars_of(ext);
    if v.len() != 3 {
        return false;
    }
    let a = v[0];
    let b = v[1];
    let c = v[2];
    (a == 'p' || a == 'P') && (b == 'n' || b == 'N') && (c == 'g' || c == 'G')
}

/// The extension the cover image at `url` is saved under.
pub fn cover_extension(url: &str) -> (r: String)
    ensures
        r@ == cover_ext(url@),
{
    let v = chars_of(url);
    let n = v.len();
    let mut start: usize = n;
    assert(v@.take(n as int) =~= v@);
    assert(v@.subrange(n as int, n as int) =~= Seq::<char>::empty());
    assert(after_last_dot(v@) =~= after_last_dot(v@.take(n as int)) + v@.subrange(n as int, n as int));
    while start > 0 && v[start - 1] != '.'
        invariant
            start <= n == v@.len(),
            after_last_dot(v@) == after_last_dot(v@.take(start as int)) + v@.subrange(
                start as int,
                n as int,
            ),
        decreases start,
    {
        let ghost pre = v@.take(start as int);
        assert(pre.drop_last() =~= v@.take(start - 1));
        assert(v@.subrange(start - 1, n as int) =~= seq![v@[start - 1]] + v@.subrange(
            start as int,
            n as int,
        ));
        assert(after_last_dot(v@.take(start - 1)).push(v@[start - 1]) + v@.subrange(
            start as int,
            n as int,
        ) =~= after_last_dot(v@.take(start - 1)) + v@.subrange(start - 1, n as int));
        start = start - 1;
    }
    assert(after_last_dot(v@.take(start as int)) =~= Seq::<char>::empty()) by {
        if start > 0 {
            assert(v@.take(start as int).last() == '.');
        } else {
            assert(v@.take(0) =~= Seq::<char>::empty());
        }
    }
    assert(after_last_dot(v@) =~= v@.subrange(start as int, n as int));
    let mut out: Vec<char> = Vec::new();
    let mut i = start;
    while i < n && v[i] != '?'
        invariant
            start <= i <= n == v@.len(),
            before_question_mark(v@.subrange(start as int, n as int)) == out@
                + before_question_mark(v@.subrange(i as int, n as int)),
        decreases n - i,
    {
        assert(v@.subrange(i as int, n as int).drop_first() =~= v@.subrange(i + 1, n as int));
        out.push(v[i]);
        i = i + 1;
        assert(out@.drop_last() + (seq![v@[i - 1]] + before_question_mark(
            v@.subrange(i as int, n as int),
        )) =~= out@ + before_question_mark(v@.subrange(i as int, n as int)));
    }
    assert(before_question_mark(v@.subrange(i as int, n as int)) =~= Seq::<char>::empty());
    assert(out@ + Seq::<char>::empty() =~= out@);
    string_from_chars(&out)
}

// ---------------------------------------------------------------------------
// The download queue
// ---------------------------------------------------------------------------

/// A track waiting in the download queue, with the tries made so far.
#[derive(Debug)]
pub struct DownloadJob {
    pub track: TrackInfo,
    pub album: Option<String>,
    pub playlist: Option<String>,
    pub dir_mode: DirMode,
    pub retry_count: usize,
    pub max_retries: usize,
    pub last_error: Option<String>,
}

impl DownloadJob {
    /// The job for another try after a failure with `error`: the same track
    /// and placement, one more retry counted, the error remembered.
    pub fn retried(self, error: String) -> (r: Self)
        requires
            self.retry_count < usize::MAX,
        ensures
            r.track == self.track,
            r.album == self.album,
            r.playlist == self.playlist,
            r.dir_mode == self.dir_mode,
            r.retry_count == self.retry_count + 1,
            r.max_retries == self.max_retries,
            r.last_error == Some(error),
    {
        DownloadJob {
            track: self.track,
            album: self.album,
            playlist: self.playlist,
            dir_mode: self.dir_mode,
            retry_count: self.retry_count + 1,
            max_retries: self.max_retries,
            last_error: Some(error),
        }
    }

    /// A first try for `track`, placed by `album`, `playlist` and `dir_mode`,
    /// with at most five tries.
    pub fn first_try(
        track: &TrackInfo,
        album: &Option<String>,
        playlist: &Option<String>,
        dir_mode: DirMode,
    ) -> (r: Self)
        ensures
            r.track == *track,
            r.album == *album,
            r.playlist == *playlist,
            r.dir_mode == dir_mode,
            r.retry_count == 0,
            r.max_retries == 5,
            r.last_error is None,
    {
        DownloadJob {
            track: track.clone(),
            album: copy_opt_text(album),
            playlist: copy_opt_text(playlist),
            dir_mode,
            retry_count: 0,
            max_retries: 5,
            last_error: None,
        }
    }
}

} // verus!
