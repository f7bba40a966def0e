use vstd::prelude::*;

use crate::download::DirMode;
use crate::text::{
    slice_chars, char_is_alphanumeric, chars_of, owned, parse_u64, same_text, squeeze_space_chars,
    string_from_chars, to_lower, trim_text,
};
use crate::types::{AudioQuality, Service, TrackInfo};

verus! {

broadcast use vstd::string::group_string_axioms;

/// The quality chosen on the command line: `hires`, `lossless`, `high`,
/// `low` or `mp3`; anything else, or nothing, means Hi-Res.
pub open spec fn quality_option(q: Option<Seq<char>>) -> AudioQuality {
    match q {
        Some(s) => if s == "lossless"@ {
            AudioQuality::Lossless
        } else if s == "high"@ {
            AudioQuality::High
        } else if s == "low"@ {
            AudioQuality::Low
        } else if s == "mp3"@ {
            AudioQuality::Mp3_320
        } else {
            AudioQuality::HiResLossless
        },
        None => AudioQuality::HiResLossless,
    }
}

pub fn parse_quality(quality: Option<&str>) -> (r: AudioQuality)
    ensures
        r == quality_option(crate::progress::opt_str(quality)),
{
    match quality {
        Some(s) => if same_text(s, "lossless") {
            AudioQuality::Lossless
        } else if same_text(s, "high") {
            AudioQuality::High
        } else if same_text(s, "low") {
            AudioQuality::Low
        } else if same_text(s, "mp3") {
            AudioQuality::Mp3_320
        } else {
            AudioQuality::HiResLossless
        },
        None => AudioQuality::HiResLossless,
    }
}

/// The service chosen on the command line: `amazon`, `soundcloud` or
/// `khinsider`; anything else, or nothing, means Tidal.
pub open spec fn service_option(s: Option<Seq<char>>) -> Service {
    match s {
        Some(t) => if t == "amazon"@ {
            Service::AmazonMusic
        } else if t == "soundcloud"@ {
            Service::SoundCloud
        } else if t == "khinsider"@ {
            Service::KHInsider
        } else {
            Service::Tidal
        },
        None => Service::Tidal,
    }
}

pub fn parse_service(service: Option<&str>) -> (r: Service)
    ensures
        r == service_option(crate::progress::opt_str(service)),
{
    match service {
        Some(s) => if same_text(s, "amazon") {
            Service::AmazonMusic
        } else if same_text(s, "soundcloud") {
            Service::SoundCloud
        } else if same_text(s, "khinsider") {
            Service::KHInsider
        } else {
            Service::Tidal
        },
        None => Service::Tidal,
    }
}

/// The directory mode chosen on the command line: `album`, `artist` or
/// `flat`; anything else, or nothing, means by playlist.
pub open spec fn dir_mode_option(d: Option<Seq<char>>) -> DirMode {
    match d {
        Some(t) => if t == "album"@ {
            DirMode::Album
        } else if t == "artist"@ {
            DirMode::Artist
        } else if t == "flat"@ {
            DirMode::Flat
        } else {
            DirMode::Playlist
        },
        None => DirMode::Playlist,
    }
}

pub fn parse_dir_mode(dir_mode: Option<&str>) -> (r: DirMode)
    ensures
        r == dir_mode_option(crate::progress::opt_str(dir_mode)),
{
    match dir_mode {
        Some(s) => if same_text(s, "album") {
            DirMode::Album
        } else if same_text(s, "artist") {
            DirMode::Artist
        } else if same_text(s, "flat") {
            DirMode::Flat
        } else {
            DirMode::Playlist
        },
        None => DirMode::Playlist,
    }
}

/// The id a command argument names, when it is a number: a track, album or
/// playlist is given by id when its argument parses as a `u64`, and is
/// searched for otherwise.
pub fn parse_id(input: &str) -> (r: Option<u64>)
    ensures
        r == crate::text::parsed_u64(input@),
{
    parse_u64(input)
}

/// The text after the last `/` of `s` (all of `s` when it has none).
pub open spec fn after_last_slash(s: Seq<char>) -> Seq<char>
    decreases s.len(),
{
    if s.len() == 0 {
        s
    } else if s.last() == '/' {
        Seq::<char>::empty()
    } else {
        after_last_slash(s.drop_last()).push(s.last())
    }
}

/// `s` without one `/` at its end.
pub open spec fn without_trailing_slash(s: Seq<char>) -> Seq<char> {
    if s.len() > 0 && s.last() == '/' {
        s.drop_last()
    } else {
        s
    }
}

/// The catalogue id an input names: the input read as a number, else the
/// last path segment of the input read as a URL (its query and a trailing `/`
/// left out), read as a number.
pub open spec fn catalogue_id_of(input: Seq<char>) -> Option<u64> {
    match crate::text::parsed_u64(input) {
        Some(id) => Some(id),
        None => crate::text::parsed_u64(
            after_last_slash(without_trailing_slash(crate::download::before_question_mark(input))),
        ),
    }
}

/// The catalogue id in an input that is an id or a catalogue URL, such as
/// `https://tidal.com/browse/playlist/12345678`.
pub fn catalogue_id(input: &str) -> (r: Option<u64>)
    ensures
        r == catalogue_id_of(input@),
{
    if let Some(id) = parse_u64(input) {
        return Some(id);
    }
    let v = chars_of(input);
    let n = v.len();
    let mut i: usize = 0;
    assert(v@.subrange(0, 0) =~= Seq::<char>::empty());
    assert(v@.subrange(0, n as int) =~= v@);
    while i < n && v[i] != '?'
        invariant
            i <= n == v@.len(),
            crate::download::before_question_mark(v@) == v@.subrange(0, i as int)
                + crate::download::before_question_mark(v@.subrange(i as int, n as int)),
        decreases n - i,
    {
        assert(v@.subrange(i as int, n as int).drop_first() =~= v@.subrange(i + 1, n as int));
        assert(v@.subrange(0, i + 1) =~= v@.subrange(0, i as int).push(v@[i as int]));
        assert(v@.subrange(0, i as int) + (seq![v@[i as int]] + crate::download::before_question_mark(
            v@.subrange(i + 1, n as int),
        )) =~= v@.subrange(0, i + 1) + crate::download::before_question_mark(
            v@.subrange(i + 1, n as int),
        ));
        i = i + 1;
    }
    assert(crate::download::before_question_mark(v@.subrange(i as int, n as int)) =~= Seq::<char>::empty());
    assert(crate::download::before_question_mark(v@) =~= v@.subrange(0, i as int));
    let mut end = i;
    if end > 0 && v[end - 1] == '/' {
        end = end - 1;
        assert(v@.subrange(0, i as int).drop_last() =~= v@.subrange(0, end as int));
    }
    let ghost path = v@.subrange(0, end as int);
    assert(path == without_trailing_slash(v@.subrange(0, i as int)));
    let mut start: usize = end;
    assert(path.subrange(end as int, end as int) =~= Seq::<char>::empty());
    assert(v@.subrange(0, end as int) =~= path);
    assert(after_last_slash(path) =~= after_last_slash(v@.subrange(0, end as int)) + v@.subrange(
        end as int,
        end as int,
    ));
    while start > 0 && v[start - 1] != '/'
        invariant
            start <= end <= n == v@.len(),
            path == v@.subrange(0, end as int),
            after_last_slash(path) == after_last_slash(v@.subrange(0, start as int)) + v@.subrange(
                start as int,
                end as int,
            ),
        decreases start,
    {
        assert(v@.subrange(0, start as int).drop_last() =~= v@.subrange(0, start - 1));
        assert(v@.subrange(start - 1, end as int) =~= seq![v@[start - 1]] + v@.subrange(
            start as int,
            end as int,
        ));
        assert(after_last_slash(v@.subrange(0, start - 1)).push(v@[start - 1]) + v@.subrange(
            start as int,
            end as int,
        ) =~= after_last_slash(v@.subrange(0, start - 1)) + v@.subrange(start - 1, end as int));
        start = start - 1;
    }
    assert(after_last_slash(v@.subrange(0, start as int)) =~= Seq::<char>::empty()) by {
        if start > 0 {
            assert(v@.subrange(0, start as int).last() == '/');
        }
    }
    assert(after_last_slash(path) =~= v@.subrange(start as int, end as int));
    let seg = slice_chars(&v, start, end);
    let text = string_from_chars(&seg);
    parse_u64(text.as_str())
}

/// For a pattern, a text and a replacement, what `regex::Regex::new(pattern)`
/// and `replace_all(text, replacement)` give: `None` when the pattern does
/// not compile.
pub uninterp spec fn regex_replaced(pattern: Seq<char>, text: Seq<char>, replacement: Seq<char>) -> Option<
    Seq<char>,
>;

/// The text holds neither `(` nor `[`.
pub open spec fn no_opening_bracket(t: Seq<char>) -> bool {
    forall|i: int| 0 <= i < t.len() ==> #[trigger] t[i] != '(' && t[i] != '['
}

/// `Regex::new(pattern)` and `replace_all` of the `regex` crate; named by
/// `regex_replaced`. Every match of `BRACKETED_PATTERN` holds a `(` or a `[`,
/// the pattern compiles, and `replace_all` hands the text back unchanged when
/// nothing matches: so on a text with neither, the text comes back.
#[verifier::external_body]
fn regex_replace_all(pattern: &str, text: &str, replacement: &str) -> (r: Option<String>)
    ensures
        r.deep_view() == regex_replaced(pattern@, text@, replacement@),
        pattern@ == BRACKETED_PATTERN@ && no_opening_bracket(text@) ==> r.deep_view() == Some(text@),
{
    let re = regex::Regex::new(pattern).ok()?;
    Some(re.replace_all(text, replacement).into_owned())
}

/// The pattern of a bracketed part of a title, with the spaces round it.
pub const BRACKETED_PATTERN: &'static str = "\\s*[\\(\\[][^)\\]]*[\\)\\]]\\s*";

/// The characters kept by the cleaning of a title: letters and digits,
/// spaces and hyphens.
pub open spec fn kept_in_title(c: char) -> bool {
    crate::text::is_alphanumeric(c) || c == ' ' || c == '-'
}

/// The characters of `s` that are kept, in order.
pub open spec fn keep_title_chars(s: Seq<char>) -> Seq<char>
    decreases s.len(),
{
    if s.len() == 0 {
        s
    } else if kept_in_title(s.last()) {
        keep_title_chars(s.drop_last()).push(s.last())
    } else {
        keep_title_chars(s.drop_last())
    }
}

/// A title cleaned for a second search: only letters, digits, spaces and
/// hyphens kept, runs of white space squeezed to one space, bracketed parts
/// replaced by a space, and white space trimmed from both ends.
pub open spec fn cleaned_title(name: Seq<char>) -> Seq<char> {
    let squeezed = crate::text::squeeze_spaces(keep_title_chars(name));
    match regex_replaced(BRACKETED_PATTERN@, squeezed, " "@) {
        Some(t) => crate::text::trimmed(t),
        None => crate::text::trimmed(squeezed),
    }
}

/// The title with only its letters, digits, spaces and hyphens kept and its
/// white space squeezed to single spaces between words.
pub open spec fn plain_title(name: Seq<char>) -> Seq<char> {
    crate::text::squeeze_spaces(keep_title_chars(name))
}

proof fn lemma_kept_chars(s: Seq<char>)
    ensures
        forall|i: int|
            0 <= i < keep_title_chars(s).len() ==> kept_in_title(#[trigger] keep_title_chars(s)[i]),
    decreases s.len(),
{
    if s.len() > 0 {
        lemma_kept_chars(s.drop_last());
        let pre = keep_title_chars(s.drop_last());
        let k = keep_title_chars(s);
        assert forall|i: int| 0 <= i < k.len() implies kept_in_title(#[trigger] k[i]) by {
            if i < pre.len() {
                assert(k[i] == pre[i]);
            }
        }
    }
}

/// A cleaned-up title is single-spaced words of letters, digits and
/// hyphens: every character is a letter, a digit, a space or a hyphen, it
/// neither starts nor ends with white space, and no space follows a space.
pub proof fn law_plain_title_shape(name: Seq<char>)
    ensures
        crate::text::spaced_words(plain_title(name), |c: char| kept_in_title(c)),
{
    let k = keep_title_chars(name);
    lemma_kept_chars(name);
    assert forall|i: int| 0 <= i < k.len() implies (|c: char| kept_in_title(c))(#[trigger] k[i]) by {}
    crate::text::lemma_squeeze_shape(k, |c: char| kept_in_title(c));
}

/// Cleans a track title for a second search (see `cleaned_title`). As the
/// cleaning keeps no bracket, no bracketed part is left to cut, and the
/// result is the plain title: single-spaced words of letters, digits and
/// hyphens.
pub fn clean_track_name(name: &str) -> (r: String)
    ensures
        r@ == cleaned_title(name@),
        r@ == plain_title(name@),
        crate::text::spaced_words(r@, |c: char| kept_in_title(c)),
{
    let v = chars_of(name);
    let mut kept: Vec<char> = Vec::new();
    let n = v.len();
    for i in 0..n
        invariant
            n == v@.len(),
            kept@ == keep_title_chars(v@.take(i as int)),
            no_opening_bracket(kept@),
    {
        assert(v@.take(i + 1).drop_last() =~= v@.take(i as int));
        let c = v[i];
        if char_is_alphanumeric(c) || c == ' ' || c == '-' {
            kept.push(c);
        }
    }
    assert(v@.take(n as int) =~= v@);
    let squeezed_chars = squeeze_space_chars(&kept);
    let squeezed = string_from_chars(&squeezed_chars);
    proof {
        let q = |c: char| c != '(' && c != '[';
        assert forall|i: int| 0 <= i < kept@.len() implies q(#[trigger] kept@[i]) by {}
        crate::text::lemma_squeeze_shape(kept@, q);
        assert(no_opening_bracket(squeezed@)) by {
            assert forall|i: int| 0 <= i < squeezed@.len() implies #[trigger] squeezed@[i] != '('
                && squeezed@[i] != '[' by {
                assert(squeezed@[i] == ' ' || q(squeezed@[i]));
            }
        }
        law_plain_title_shape(name@);
        crate::text::lemma_trimmed_when_no_outer_space(squeezed@);
    }
    match regex_replace_all(BRACKETED_PATTERN, squeezed.as_str(), " ") {
        Some(t) => trim_text(t.as_str()),
        None => trim_text(squeezed.as_str()),
    }
}

// ---------------------------------------------------------------------------
// Answers typed at the prompts
// ---------------------------------------------------------------------------

/// A cleaned track name neither starts nor ends with white space.
pub proof fn law_cleaned_title_is_trimmed(name: Seq<char>)
    ensures
        cleaned_title(name).len() > 0 ==> !crate::text::is_space(cleaned_title(name)[0])
            && !crate::text::is_space(cleaned_title(name).last()),
{
    let squeezed = crate::text::squeeze_spaces(keep_title_chars(name));
    match regex_replaced(BRACKETED_PATTERN@, squeezed, " "@) {
        Some(t) => crate::text::law_trimmed_has_no_outer_space(t),
        None => crate::text::law_trimmed_has_no_outer_space(squeezed),
    }
}

/// What the track prompt does.
#[derive(Debug, Clone, Copy, PartialEq, Eq, Structural)]
pub enum SelectionStep {
    /// There is no track: warn and pick none.
    NothingToPick,
    /// There is one track: pick it without asking.
    TakeOnly,
    /// Show the tracks and ask for a number.
    Ask,
}

/// The prompts of the terminal interface, as far as they decide anything.
pub struct Ui;

/// A row of the table of search results.
#[derive(Debug)]
pub struct TrackRow {
    pub index: usize,
    pub title: String,
    pub artist: String,
    pub album: String,
    pub duration: String,
}

impl Ui {
    /// An answer to a yes/no prompt means yes: trimmed and lower-cased it is
    /// `y` or `yes`.
    pub open spec fn means_yes(answer: Seq<char>) -> bool {
        let l = crate::text::lowercase(crate::text::trimmed(answer));
        l == "y"@ || l == "yes"@
    }

    /// Whether an answer to a yes/no prompt means yes.
    pub fn is_yes(answer: &str) -> (r: bool)
        ensures
            r == Self::means_yes(answer@),
    {
        let t = trim_text(answer);
        let l = to_lower(t.as_str());
        Self::is_yes_word(l.as_str())
    }

    /// Whether a trimmed, lower-cased answer is `y` or `yes`.
    pub fn is_yes_word(l: &str) -> (r: bool)
        ensures
            r == (l@ == "y"@ || l@ == "yes"@),
    {
        same_text(l, "y") || same_text(l, "yes")
    }

    /// The list position an answer to the track prompt picks among `count`
    /// tracks: the trimmed answer read as a number from 1 to `count`.
    pub open spec fn selection(answer: Seq<char>, count: usize) -> Option<usize> {
        match crate::text::parsed_u64(crate::text::trimmed(answer)) {
            Some(n) => if 1 <= n && n <= count {
                Some((n - 1) as usize)
            } else {
                None
            },
            None => None,
        }
    }

    /// What the track prompt does for a list of `count` tracks: nothing to
    /// pick from an empty list, the only track of a list of one, and a
    /// question otherwise.
    pub fn selection_step(count: usize) -> (r: SelectionStep)
        ensures
            r == (if count == 0 {
                SelectionStep::NothingToPick
            } else if count == 1 {
                SelectionStep::TakeOnly
            } else {
                SelectionStep::Ask
            }),
    {
        if count == 0 {
            SelectionStep::NothingToPick
        } else if count == 1 {
            SelectionStep::TakeOnly
        } else {
            SelectionStep::Ask
        }
    }

    /// Reads the answer to the track prompt.
    pub fn parse_selection(answer: &str, count: usize) -> (r: Option<usize>)
        ensures
            r == Self::selection(answer@, count),
    {
        let t = trim_text(answer);
        match parse_u64(t.as_str()) {
            Some(n) => if 1 <= n && n <= count as u64 {
                Some((n - 1) as usize)
            } else {
                None
            },
            None => None,
        }
    }

    /// The rows of the results table: at most `limit` tracks, numbered from
    /// 1, an album shown as `-` when unknown, and the length as `mm:ss`.
    pub fn search_rows(tracks: &Vec<TrackInfo>, limit: usize) -> (r: Vec<TrackRow>)
        ensures
            r@.len() == (if limit < tracks@.len() {
                limit as int
            } else {
                tracks@.len() as int
            }),
            forall|i: int|
                0 <= i < r@.len() ==> {
                    let row = #[trigger] r@[i];
                    let t = tracks@[i];
                    &&& row.index == i + 1
                    &&& row.title == t.title
                    &&& row.artist == t.artist
                    &&& row.album@ == (match t.album {
                        Some(a) => a@,
                        None => seq!['-'],
                    })
                    &&& row.duration@ == crate::types::duration_text(t.duration)
                },
    {
        let n = if limit < tracks.len() {
            limit
        } else {
            tracks.len()
        };
        let mut rows: Vec<TrackRow> = Vec::new();
        for i in 0..n
            invariant
                n <= tracks@.len(),
                n == (if limit < tracks@.len() {
                    limit as int
                } else {
                    tracks@.len() as int
                }),
                rows@.len() == i,
                forall|k: int|
                    0 <= k < i ==> {
                        let row = #[trigger] rows@[k];
                        let t = tracks@[k];
                        &&& row.index == k + 1
                        &&& row.title == t.title
                        &&& row.artist == t.artist
                        &&& row.album@ == (match t.album {
                            Some(a) => a@,
                            None => seq!['-'],
                        })
                        &&& row.duration@ == crate::types::duration_text(t.duration)
                    },
        {
            let t = &tracks[i];
            let album = match &t.album {
                Some(a) => a.clone(),
                None => {
                    let mut d: Vec<char> = Vec::new();
                    d.push('-');
                    assert(d@ =~= seq!['-']);
                    string_from_chars(&d)
                },
            };
            rows.push(
                TrackRow {
                    index: i + 1,
                    title: t.title.clone(),
                    artist: t.artist.clone(),
                    album,
                    duration: t.format_duration(),
                },
            );
        }
        rows
    }
}

} // verus!
