use vstd::prelude::*;

use crate::text::{
    chars_of, owned, same_text, split_on_chars, string_from_chars, text_contains, to_lower,
    trim_chars, trim_text,
};
use crate::error::DownloadError;
use crate::types::{copy_opt_text, TrackInfo};

verus! {

broadcast use vstd::string::group_string_axioms, crate::views::lemma_chars_deep_view;

/// A row of a playlist export: the track and the artist names, and what else
/// the export knows of the track.
#[derive(Debug)]
pub struct CsvTrack {
    pub track_name: String,
    pub artist_name: String,
    pub album: Option<String>,
    pub playlist_name: Option<String>,
    pub track_type: Option<String>,
    pub isrc: Option<String>,
    pub spotify_id: Option<String>,
}

/// The characters that separate several artists in one artist field.
pub open spec fn artist_separators() -> Seq<char> {
    seq![',', '&', '/', ';']
}

/// The trimmed pieces of a list of texts.
pub open spec fn trim_all(p: Seq<Seq<char>>) -> Seq<Seq<char>> {
    p.map_values(|x: Seq<char>| crate::text::trimmed(x))
}

/// The artists an artist field names: the field split at `,`, `&`, `/` and
/// `;`, each piece trimmed, empty pieces dropped; when nothing is left, the
/// field as it is.
pub open spec fn artist_names(field: Seq<char>) -> Seq<Seq<char>> {
    let names = crate::text::nonempty_pieces(
        trim_all(crate::text::split_by(field, |c: char| artist_separators().contains(c))),
    );
    if names.len() == 0 {
        seq![field]
    } else {
        names
    }
}

proof fn lemma_nonempty_pieces(p: Seq<Seq<char>>)
    ensures
        forall|i: int|
            0 <= i < crate::text::nonempty_pieces(p).len() ==> (#[trigger] crate::text::nonempty_pieces(p)[i]).len() > 0
                && p.contains(crate::text::nonempty_pieces(p)[i]),
    decreases p.len(),
{
    if p.len() > 0 {
        lemma_nonempty_pieces(p.drop_last());
        assert forall|i: int| 0 <= i < crate::text::nonempty_pieces(p).len() implies (#[trigger] crate::text::nonempty_pieces(p)[i]).len() > 0
            && p.contains(crate::text::nonempty_pieces(p)[i]) by {
            let pre = crate::text::nonempty_pieces(p.drop_last());
            if i < pre.len() {
                let k = choose|k: int| 0 <= k < p.drop_last().len() && p.drop_last()[k] == pre[i];
                assert(p[k] == pre[i]);
            } else {
                assert(p[p.len() - 1] == p.last());
            }
        }
    }
}

/// Every row is searched under at least one artist: the artist field gives
/// at least one name, and when the separators split off any names, each is
/// non-empty and without surrounding white space; otherwise the whole field
/// is the one name.
pub proof fn law_artist_names_nonempty(field: Seq<char>)
    ensures
        artist_names(field).len() > 0,
        artist_names(field) == seq![field] || forall|i: int|
            0 <= i < artist_names(field).len() ==> {
                let a = #[trigger] artist_names(field)[i];
                &&& a.len() > 0
                &&& !crate::text::is_space(a[0])
                &&& !crate::text::is_space(a.last())
            },
{
    let p = trim_all(crate::text::split_by(field, |c: char| artist_separators().contains(c)));
    lemma_nonempty_pieces(p);
    if crate::text::nonempty_pieces(p).len() > 0 {
        assert forall|i: int| 0 <= i < artist_names(field).len() implies {
            let a = #[trigger] artist_names(field)[i];
            &&& a.len() > 0
            &&& !crate::text::is_space(a[0])
            &&& !crate::text::is_space(a.last())
        } by {
            let a = artist_names(field)[i];
            assert(crate::text::nonempty_pieces(p)[i] == a);
            let k = choose|k: int| 0 <= k < p.len() && p[k] == a;
            let raw = crate::text::split_by(field, |c: char| artist_separators().contains(c));
            assert(p[k] == crate::text::trimmed(raw[k]));
            crate::text::law_trimmed_has_no_outer_space(raw[k]);
        }
    }
}

impl Clone for CsvTrack {
    fn clone(&self) -> (r: Self)
        ensures
            r == *self,
    {
        CsvTrack {
            track_name: self.track_name.clone(),
            artist_name: self.artist_name.clone(),
            album: copy_opt_text(&self.album),
            playlist_name: copy_opt_text(&self.playlist_name),
            track_type: copy_opt_text(&self.track_type),
            isrc: copy_opt_text(&self.isrc),
            spotify_id: copy_opt_text(&self.spotify_id),
        }
    }
}

impl CsvTrack {
    /// The artists this row names (see `artist_names`).
    pub fn parse_artists(&self) -> (r: Vec<String>)
        ensures
            r.deep_view() == artist_names(self.artist_name@),
    {
        let v = chars_of(self.artist_name.as_str());
        let mut seps: Vec<char> = Vec::new();
        seps.push(',');
        seps.push('&');
        seps.push('/');
        seps.push(';');
        assert(seps@ =~= artist_separators());
        let pieces = split_on_chars(&v, &seps);
        let ghost sp = |c: char| seps@.contains(c);
        let ghost ap = |c: char| artist_separators().contains(c);
        assert(sp =~= ap);
        let ghost all = pieces.deep_view();
        let mut out: Vec<String> = Vec::new();
        let n = pieces.len();
        for i in 0..n
            invariant
                n == all.len(),
                all == pieces.deep_view(),
                out.deep_view() == crate::text::nonempty_pieces(trim_all(all.take(i as int))),
        {
            let t = trim_chars(&pieces[i]);
            assert(pieces@[i as int].deep_view() == all[i as int]);
            assert(trim_all(all.take(i + 1)) =~= trim_all(all.take(i as int)).push(
                crate::text::trimmed(all[i as int]),
            ));
            assert(trim_all(all.take(i + 1)).drop_last() =~= trim_all(all.take(i as int)));
            if t.len() > 0 {
                let s = string_from_chars(&t);
                let ghost before = out.deep_view();
                out.push(s);
                assert(out.deep_view() =~= before.push(s@));
            }
        }
        assert(all.take(n as int) =~= all);
        if out.len() == 0 {
            let mut whole: Vec<String> = Vec::new();
            whole.push(self.artist_name.clone());
            assert(whole.deep_view() =~= seq![self.artist_name@]);
            whole
        } else {
            out
        }
    }
}

// ---------------------------------------------------------------------------
// Candidate lists
// ---------------------------------------------------------------------------

/// `t` is the first track of `s` with its id.
pub open spec fn first_of_id(s: Seq<TrackInfo>, t: TrackInfo) -> bool {
    exists|k: int|
        0 <= k < s.len() && s[k] == t && forall|j: int| 0 <= j < k ==> (#[trigger] s[j]).id != t.id
}

/// The ids of `r` increase strictly.
pub open spec fn ids_increasing(r: Seq<TrackInfo>) -> bool {
    forall|i: int, j: int| 0 <= i < j < r.len() ==> (#[trigger] r[i]).id < (#[trigger] r[j]).id
}

/// Some track of `r` has id `id`.
pub open spec fn has_id(r: Seq<TrackInfo>, id: u64) -> bool {
    exists|i: int| 0 <= i < r.len() && (#[trigger] r[i]).id == id
}

/// Every track of `r` is the first track of `s` with its id.
pub open spec fn all_first(s: Seq<TrackInfo>, r: Seq<TrackInfo>) -> bool {
    forall|i: int| 0 <= i < r.len() ==> first_of_id(s, #[trigger] r[i])
}

/// Every id of `s` occurs in `r`.
pub open spec fn covers(s: Seq<TrackInfo>, r: Seq<TrackInfo>) -> bool {
    forall|k: int| 0 <= k < s.len() ==> has_id(r, (#[trigger] s[k]).id)
}

/// `r` holds, in increasing order of id, the first track of `s` with each id
/// that occurs in `s` (what a stable sort by id followed by dropping repeated
/// ids gives).
pub open spec fn deduped_by_id(s: Seq<TrackInfo>, r: Seq<TrackInfo>) -> bool {
    &&& ids_increasing(r)
    &&& all_first(s, r)
    &&& covers(s, r)
}

/// The candidates sorted by id with repeated ids dropped, keeping the first
/// candidate seen with each id.
pub fn dedup_by_id(candidates: &Vec<TrackInfo>) -> (r: Vec<TrackInfo>)
    ensures
        deduped_by_id(candidates@, r@),
{
    let mut out: Vec<TrackInfo> = Vec::new();
    let n = candidates.len();
    for i in 0..n
        invariant
            n == candidates@.len(),
            deduped_by_id(candidates@.take(i as int), out@),
    {
        let ghost s = candidates@.take(i as int);
        let ghost s1 = candidates@.take(i + 1);
        assert(s1 =~= s.push(candidates@[i as int]));
        let id = candidates[i].id;
        // find the insertion point
        let m = out.len();
        let mut pos: usize = 0;
        while pos < m && out[pos].id < id
            invariant
                m == out@.len(),
                pos <= m,
                forall|q: int| 0 <= q < pos ==> (#[trigger] out@[q]).id < id,
            decreases m - pos,
        {
            pos = pos + 1;
        }
        if pos < m && out[pos].id == id {
            proof {
                lemma_dedup_keep(s, candidates@[i as int], out@, pos as int);
            }
        } else {
            proof {
                lemma_dedup_absent(s, out@, pos as int, id);
            }
            let t = candidates[i].clone();
            let ghost before = out@;
            out.insert(pos, t);
            proof {
                lemma_dedup_insert(s, candidates@[i as int], before, pos as int, out@);
            }
        }
    }
    assert(candidates@.take(n as int) =~= candidates@);
    out
}

proof fn lemma_first_extends(s: Seq<TrackInfo>, t: TrackInfo, w: TrackInfo)
    requires
        first_of_id(s, w),
    ensures
        first_of_id(s.push(t), w),
{
    let s1 = s.push(t);
    let k = choose|k: int|
        0 <= k < s.len() && s[k] == w && forall|j: int| 0 <= j < k ==> (#[trigger] s[j]).id != w.id;
    assert(s1[k] == w);
    assert forall|j: int| 0 <= j < k implies (#[trigger] s1[j]).id != w.id by {
        assert(s1[j] == s[j]);
    }
}

proof fn lemma_dedup_keep(s: Seq<TrackInfo>, t: TrackInfo, out: Seq<TrackInfo>, pos: int)
    requires
        deduped_by_id(s, out),
        0 <= pos < out.len(),
        out[pos].id == t.id,
    ensures
        deduped_by_id(s.push(t), out),
{
    let s1 = s.push(t);
    assert forall|q: int| 0 <= q < out.len() implies first_of_id(s1, #[trigger] out[q]) by {
        lemma_first_extends(s, t, out[q]);
    }
    assert forall|k: int| 0 <= k < s1.len() implies has_id(out, (#[trigger] s1[k]).id) by {
        if k < s.len() {
            assert(s1[k] == s[k]);
        } else {
            assert(out[pos].id == s1[k].id);
        }
    }
}

proof fn lemma_dedup_absent(s: Seq<TrackInfo>, out: Seq<TrackInfo>, pos: int, id: u64)
    requires
        deduped_by_id(s, out),
        0 <= pos <= out.len(),
        forall|q: int| 0 <= q < pos ==> (#[trigger] out[q]).id < id,
        !(pos < out.len() && out[pos].id == id),
        pos < out.len() ==> out[pos].id >= id,
    ensures
        forall|j: int| 0 <= j < s.len() ==> (#[trigger] s[j]).id != id,
        pos < out.len() ==> out[pos].id > id,
{
    assert forall|j: int| 0 <= j < s.len() implies (#[trigger] s[j]).id != id by {
        if s[j].id == id {
            assert(has_id(out, s[j].id));
            let q = choose|q: int| 0 <= q < out.len() && (#[trigger] out[q]).id == s[j].id;
            if q > pos {
                assert(out[pos].id < out[q].id);
            }
        }
    }
}

proof fn lemma_insert_increasing(before: Seq<TrackInfo>, pos: int, t: TrackInfo)
    requires
        ids_increasing(before),
        0 <= pos <= before.len(),
        forall|q: int| 0 <= q < pos ==> (#[trigger] before[q]).id < t.id,
        pos < before.len() ==> before[pos].id > t.id,
    ensures
        ids_increasing(before.insert(pos, t)),
{
    let after = before.insert(pos, t);
    assert forall|a: int, b: int| 0 <= a < b < after.len() implies (#[trigger] after[a]).id < (
    #[trigger] after[b]).id by {
        if a < pos && b == pos {
            assert(after[a] == before[a]);
        } else if a == pos {
            assert(after[b] == before[b - 1]);
            if b - 1 > pos {
                assert(before[pos].id < before[b - 1].id);
            }
        } else if a < pos && b < pos {
            assert(after[a] == before[a]);
            assert(after[b] == before[b]);
        } else if a < pos {
            assert(after[a] == before[a]);
            assert(after[b] == before[b - 1]);
        } else {
            assert(after[a] == before[a - 1]);
            assert(after[b] == before[b - 1]);
        }
    }
}

proof fn lemma_dedup_insert(
    s: Seq<TrackInfo>,
    t: TrackInfo,
    before: Seq<TrackInfo>,
    pos: int,
    after: Seq<TrackInfo>,
)
    requires
        deduped_by_id(s, before),
        0 <= pos <= before.len(),
        forall|q: int| 0 <= q < pos ==> (#[trigger] before[q]).id < t.id,
        pos < before.len() ==> before[pos].id > t.id,
        forall|j: int| 0 <= j < s.len() ==> (#[trigger] s[j]).id != t.id,
        after == before.insert(pos, t),
    ensures
        deduped_by_id(s.push(t), after),
{
    let s1 = s.push(t);
    lemma_insert_increasing(before, pos, t);
    assert forall|q: int| 0 <= q < after.len() implies first_of_id(s1, #[trigger] after[q]) by {
        if q == pos {
            assert(s1[s.len() as int] == after[q]);
            assert forall|j: int| 0 <= j < s.len() implies (#[trigger] s1[j]).id != after[q].id by {
                assert(s1[j] == s[j]);
            }
        } else if q < pos {
            assert(after[q] == before[q]);
            lemma_first_extends(s, t, before[q]);
        } else {
            assert(after[q] == before[q - 1]);
            lemma_first_extends(s, t, before[q - 1]);
        }
    }
    assert forall|k: int| 0 <= k < s1.len() implies has_id(after, (#[trigger] s1[k]).id) by {
        if k < s.len() {
            assert(s1[k] == s[k]);
            assert(has_id(before, s[k].id));
            let q = choose|q: int| 0 <= q < before.len() && (#[trigger] before[q]).id == s[k].id;
            if q < pos {
                assert(after[q] == before[q]);
            } else {
                assert(after[q + 1] == before[q]);
            }
        } else {
            assert(after[pos].id == s1[k].id);
        }
    }
}

/// The texts in a candidate title or album that mark a podcast episode or an
/// interview rather than music.
pub open spec fn looks_like_talk(title_lower: Seq<char>, album_lower: Seq<char>) -> bool {
    crate::text::has_substring(title_lower, "podcast"@) || crate::text::has_substring(
        title_lower,
        "episode"@,
    ) || crate::text::has_substring(title_lower, "interview"@) || crate::text::has_substring(
        album_lower,
        "podcast"@,
    )
}

/// The searched title asks for a podcast, an episode or an interview.
pub open spec fn asks_for_talk(csv_title_lower: Seq<char>) -> bool {
    crate::text::has_substring(csv_title_lower, "podcast"@) || crate::text::has_substring(
        csv_title_lower,
        "episode"@,
    ) || crate::text::has_substring(csv_title_lower, "interview"@)
}

/// The lower-cased album of a track (the lower case of the empty text when
/// it has none).
pub open spec fn album_lower_of(t: TrackInfo) -> Seq<char> {
    crate::text::lowercase(
        match t.album {
            Some(a) => a@,
            None => Seq::<char>::empty(),
        },
    )
}

/// A candidate is left out as not being music: it looks like talk and the
/// searched title does not ask for talk.
pub open spec fn excluded_as_talk(t: TrackInfo, csv_title_lower: Seq<char>) -> bool {
    looks_like_talk(crate::text::lowercase(t.title@), album_lower_of(t)) && !asks_for_talk(
        csv_title_lower,
    )
}

/// The candidates that are not left out as talk, in order.
pub open spec fn music_only(s: Seq<TrackInfo>, csv_title_lower: Seq<char>) -> Seq<TrackInfo>
    decreases s.len(),
{
    if s.len() == 0 {
        s
    } else {
        let pre = music_only(s.drop_last(), csv_title_lower);
        if excluded_as_talk(s.last(), csv_title_lower) {
            pre
        } else {
            pre.push(s.last())
        }
    }
}

/// Whether a candidate is left out as not being music.
pub fn is_excluded_as_talk(t: &TrackInfo, csv_title_lower: &str) -> (r: bool)
    ensures
        r == excluded_as_talk(*t, csv_title_lower@),
{
    let title_lower = to_lower(t.title.as_str());
    let album_lower = match &t.album {
        Some(a) => to_lower(a.as_str()),
        None => to_lower(""),
    };
    proof {
        reveal_strlit("");
        assert(""@ =~= Seq::<char>::empty());
    }
    talk_excluded(title_lower.as_str(), album_lower.as_str(), csv_title_lower)
}

/// Whether a candidate with this lower-cased title and album is left out as
/// talk, for a searched title (lower-cased) that may ask for talk.
pub fn talk_excluded(title_lower: &str, album_lower: &str, csv_title_lower: &str) -> (r: bool)
    ensures
        r == (looks_like_talk(title_lower@, album_lower@) && !asks_for_talk(csv_title_lower@)),
{
    let talk = text_contains(title_lower, "podcast") || text_contains(title_lower, "episode")
        || text_contains(title_lower, "interview") || text_contains(album_lower, "podcast");
    let asks = text_contains(csv_title_lower, "podcast") || text_contains(
        csv_title_lower,
        "episode",
    ) || text_contains(csv_title_lower, "interview");
    talk && !asks
}

/// Drops the candidates that look like talk when the searched title (given
/// lower-cased) does not ask for talk.
pub fn filter_music(candidates: &Vec<TrackInfo>, csv_title_lower: &str) -> (r: Vec<TrackInfo>)
    ensures
        r@ == music_only(candidates@, csv_title_lower@),
{
    let mut out: Vec<TrackInfo> = Vec::new();
    let n = candidates.len();
    for i in 0..n
        invariant
            n == candidates@.len(),
            out@ == music_only(candidates@.take(i as int), csv_title_lower@),
    {
        assert(candidates@.take(i + 1).drop_last() =~= candidates@.take(i as int));
        if !is_excluded_as_talk(&candidates[i], csv_title_lower) {
            out.push(candidates[i].clone());
        }
    }
    assert(candidates@.take(n as int) =~= candidates@);
    out
}

/// The candidate pool of a search round: the tracks found by identifier when
/// there are any, else the tracks found by title and artist; sorted by id
/// without repeats.
pub fn merge_candidates(general: &Vec<TrackInfo>, by_identifier: &Vec<TrackInfo>) -> (r: Vec<
    TrackInfo,
>)
    ensures
        by_identifier@.len() > 0 ==> deduped_by_id(by_identifier@, r@),
        by_identifier@.len() == 0 ==> deduped_by_id(general@, r@),
{
    if by_identifier.len() > 0 {
        dedup_by_id(by_identifier)
    } else {
        dedup_by_id(general)
    }
}

// ---------------------------------------------------------------------------
// Searches made for a row
// ---------------------------------------------------------------------------

/// The description of a search by title and artist: `'<title>' by '<artist>'`.
pub fn attempt_with_artist(track_name: &str, artist: &str) -> (r: String)
    ensures
        r@ == seq!['\''] + track_name@ + "' by '"@ + artist@ + seq!['\''],
{
    let mut s = owned("'");
    s.append(track_name);
    s.append("' by '");
    s.append(artist);
    s.append("'");
    proof {
        reveal_strlit("'");
    }
    s
}

/// The description of a search by title alone: `'<title>' (track only)`.
pub fn attempt_track_only(track_name: &str) -> (r: String)
    ensures
        r@ == seq!['\''] + track_name@ + "' (track only)"@,
{
    let mut s = owned("'");
    s.append(track_name);
    s.append("' (track only)");
    proof {
        reveal_strlit("'");
    }
    s
}

/// The identifier to search for, if the row has one that is not blank (it is
/// searched for as it stands, untrimmed).
pub fn identifier_query(id: &Option<String>) -> (r: Option<String>)
    ensures
        match id {
            Some(s) => if crate::text::trimmed(s@).len() > 0 {
                r == Some(*s)
            } else {
                r is None
            },
            None => r is None,
        },
{
    match id {
        Some(s) => {
            let t = trim_text(s.as_str());
            if t.as_str().is_empty() {
                None
            } else {
                Some(s.clone())
            }
        },
        None => None,
    }
}

/// The query of the second matching round: the cleaned title, a space and
/// the artist field.
pub fn retry_query(cleaned_name: &str, artist_name: &str) -> (r: String)
    ensures
        r@ == cleaned_name@ + seq![' '] + artist_name@,
{
    let mut s = owned(cleaned_name);
    s.append(" ");
    s.append(artist_name);
    proof {
        reveal_strlit(" ");
    }
    s
}

// ---------------------------------------------------------------------------
// The searches of a match
// ---------------------------------------------------------------------------

/// A search by title made for a row: the query, the artist it is narrowed
/// to (if any), and how the search is described in the match report.
pub struct SearchRequest {
    pub query: String,
    pub artist: Option<String>,
    pub attempt: String,
}

/// A search by title as plain text.
pub struct PlannedSearch {
    pub query: Seq<char>,
    pub artist: Option<Seq<char>>,
    pub attempt: Seq<char>,
}

impl View for SearchRequest {
    type V = PlannedSearch;

    open spec fn view(&self) -> PlannedSearch {
        PlannedSearch {
            query: self.query@,
            artist: crate::progress::opt_text(self.artist),
            attempt: self.attempt@,
        }
    }
}

/// The search for `name` by `artist`.
pub open spec fn with_artist(name: Seq<char>, artist: Seq<char>) -> PlannedSearch {
    PlannedSearch {
        query: name,
        artist: Some(artist),
        attempt: seq!['\''] + name + "' by '"@ + artist + seq!['\''],
    }
}

/// The search for `name` alone.
pub open spec fn track_only(name: Seq<char>) -> PlannedSearch {
    PlannedSearch { query: name, artist: None, attempt: seq!['\''] + name + "' (track only)"@ }
}

/// The searches by title made for a row, in order: one for each artist the
/// row names, then one for the title alone.
pub open spec fn title_searches(row: CsvTrack) -> Seq<PlannedSearch> {
    artist_names(row.artist_name@).map_values(|a: Seq<char>| with_artist(row.track_name@, a)).push(
        track_only(row.track_name@),
    )
}

/// The searches by title for `row` (see `title_searches`).
pub fn planned_searches(row: &CsvTrack) -> (r: Vec<SearchRequest>)
    ensures
        r@.len() == title_searches(*row).len(),
        forall|i: int| 0 <= i < r@.len() ==> (#[trigger] r@[i])@ == title_searches(*row)[i],
{
    let artists = row.parse_artists();
    let ghost names = artist_names(row.artist_name@);
    let n = artists.len();
    let mut out: Vec<SearchRequest> = Vec::new();
    for i in 0..n
        invariant
            n == names.len(),
            names == artists.deep_view(),
            names == artist_names(row.artist_name@),
            out@.len() == i,
            forall|k: int| 0 <= k < i ==> (#[trigger] out@[k])@ == with_artist(row.track_name@, names[k]),
    {
        assert(artists.deep_view()[i as int] == artists@[i as int]@);
        let req = SearchRequest {
            query: row.track_name.clone(),
            artist: Some(artists[i].clone()),
            attempt: attempt_with_artist(row.track_name.as_str(), artists[i].as_str()),
        };
        out.push(req);
    }
    let last = SearchRequest {
        query: row.track_name.clone(),
        artist: None,
        attempt: attempt_track_only(row.track_name.as_str()),
    };
    out.push(last);
    assert forall|i: int| 0 <= i < out@.len() implies (#[trigger] out@[i])@ == title_searches(*row)[i] by {
        if i < n {
            assert(title_searches(*row)[i] == with_artist(row.track_name@, names[i]));
        }
    }
    out
}

/// Adds what a search found to `into`. A rate limit stops the matching: it
/// comes back as the error. Any other failed search is passed over.
pub fn absorb_search(found: Result<Vec<TrackInfo>, DownloadError>, into: &mut Vec<TrackInfo>) -> (r:
    Result<(), DownloadError>)
    ensures
        match found {
            Ok(v) => r is Ok && final(into)@ == old(into)@ + v@,
            Err(e) => if e is RateLimited {
                r matches Err(DownloadError::RateLimited) && final(into)@ == old(into)@
            } else {
                r is Ok && final(into)@ == old(into)@
            },
        },
{
    match found {
        Ok(v) => {
            let mut v = v;
            into.append(&mut v);
            Ok(())
        },
        Err(DownloadError::RateLimited) => Err(DownloadError::RateLimited),
        Err(_) => Ok(()),
    }
}

/// Which search of a match comes next: the title search at a position of
/// `planned_searches`, the search by ISRC, the search by Spotify id, or none.
#[derive(Debug, Clone, Copy, PartialEq, Eq, Structural)]
pub enum SearchStage {
    Title(usize),
    Isrc,
    Spotify,
    Done,
}

/// The stage after `stage`, for a row with `titles` title searches, with an
/// ISRC and a Spotify id to search for or not, when the searches by
/// identifier have found `id_found` tracks so far. The title searches come in
/// order, then the ISRC search, then the Spotify search, made only while
/// nothing has been found by identifier.
pub open spec fn stage_after(
    stage: SearchStage,
    titles: nat,
    has_isrc: bool,
    has_spotify: bool,
    id_found: nat,
) -> SearchStage {
    let spotify_or_done = if has_spotify && id_found == 0 {
        SearchStage::Spotify
    } else {
        SearchStage::Done
    };
    match stage {
        SearchStage::Title(i) => if i + 1 < titles {
            SearchStage::Title((i + 1) as usize)
        } else if has_isrc {
            SearchStage::Isrc
        } else {
            spotify_or_done
        },
        SearchStage::Isrc => spotify_or_done,
        SearchStage::Spotify => SearchStage::Done,
        SearchStage::Done => SearchStage::Done,
    }
}

/// Decides which search of a match comes next (see `stage_after`).
pub fn next_stage(
    stage: SearchStage,
    titles: usize,
    has_isrc: bool,
    has_spotify: bool,
    id_found: usize,
) -> (r: SearchStage)
    ensures
        r == stage_after(stage, titles as nat, has_isrc, has_spotify, id_found as nat),
{
    let spotify_or_done = if has_spotify && id_found == 0 {
        SearchStage::Spotify
    } else {
        SearchStage::Done
    };
    match stage {
        SearchStage::Title(i) => if titles > 0 && i < titles - 1 {
            SearchStage::Title(i + 1)
        } else if has_isrc {
            SearchStage::Isrc
        } else {
            spotify_or_done
        },
        SearchStage::Isrc => spotify_or_done,
        SearchStage::Spotify => SearchStage::Done,
        SearchStage::Done => SearchStage::Done,
    }
}

/// The stage reached after `k` steps from the first title search.
pub open spec fn stage_at(
    k: nat,
    titles: nat,
    has_isrc: bool,
    has_spotify: bool,
    id_found: nat,
) -> SearchStage
    decreases k,
{
    if k == 0 {
        SearchStage::Title(0)
    } else {
        stage_after(stage_at((k - 1) as nat, titles, has_isrc, has_spotify, id_found), titles, has_isrc, has_spotify, id_found)
    }
}

/// The searches of a match, in order: every title search, then the ISRC
/// search if the row has an ISRC, then the Spotify search if the row has a
/// Spotify id and the ISRC search found nothing.
pub open spec fn search_order(
    titles: nat,
    has_isrc: bool,
    has_spotify: bool,
    id_found: nat,
) -> Seq<SearchStage> {
    Seq::new(titles, |i: int| SearchStage::Title(i as usize)) + (if has_isrc {
        seq![SearchStage::Isrc]
    } else {
        Seq::<SearchStage>::empty()
    }) + (if has_spotify && id_found == 0 {
        seq![SearchStage::Spotify]
    } else {
        Seq::<SearchStage>::empty()
    })
}

proof fn lemma_title_stages(k: nat, titles: nat, has_isrc: bool, has_spotify: bool, id_found: nat)
    requires
        k < titles <= usize::MAX,
    ensures
        stage_at(k, titles, has_isrc, has_spotify, id_found) == SearchStage::Title(k as usize),
    decreases k,
{
    if k > 0 {
        lemma_title_stages((k - 1) as nat, titles, has_isrc, has_spotify, id_found);
    }
}

/// The order of the searches of a match: starting from the first title
/// search and stepping with `stage_after`, the stages met are exactly
/// `search_order`, and then the match is done. `id_found` is what the ISRC
/// search found (none when the row has no ISRC).
pub proof fn law_search_order(titles: nat, has_isrc: bool, has_spotify: bool, id_found: nat)
    requires
        1 <= titles <= usize::MAX,
        !has_isrc ==> id_found == 0,
    ensures
        ({
            let order = search_order(titles, has_isrc, has_spotify, id_found);
            &&& forall|k: nat| k < order.len() ==> #[trigger] stage_at(k, titles, has_isrc, has_spotify, id_found) == order[k as int]
            &&& stage_at(order.len(), titles, has_isrc, has_spotify, id_found) == SearchStage::Done
        }),
{
    let order = search_order(titles, has_isrc, has_spotify, id_found);
    assert forall|k: nat| k < titles implies #[trigger] stage_at(k, titles, has_isrc, has_spotify, id_found) == order[k as int] by {
        lemma_title_stages(k, titles, has_isrc, has_spotify, id_found);
    }
    lemma_title_stages((titles - 1) as nat, titles, has_isrc, has_spotify, id_found);
    let after = stage_at(titles, titles, has_isrc, has_spotify, id_found);
    let after2 = stage_at(titles + 1, titles, has_isrc, has_spotify, id_found);
    let after3 = stage_at(titles + 2, titles, has_isrc, has_spotify, id_found);
    assert(after == stage_after(SearchStage::Title((titles - 1) as usize), titles, has_isrc, has_spotify, id_found));
    assert(after2 == stage_after(after, titles, has_isrc, has_spotify, id_found));
    assert(after3 == stage_after(after2, titles, has_isrc, has_spotify, id_found));
}

/// The track a match keeps for the chosen candidate: the full record the
/// detailed lookup gave, or the candidate as the search found it when the
/// lookup failed.
pub fn kept_after_lookup(chosen: TrackInfo, lookup: Result<TrackInfo, DownloadError>) -> (r: TrackInfo)
    ensures
        match lookup {
            Ok(full) => r == full,
            Err(_) => r == chosen,
        },
{
    match lookup {
        Ok(full) => full,
        Err(_) => chosen,
    }
}

// ---------------------------------------------------------------------------
// Scoring features
// ---------------------------------------------------------------------------

/// How a candidate text compares with the searched text.
#[derive(Debug, Clone, Copy, PartialEq, Eq, Structural)]
pub enum TextMatch {
    /// The two are equal.
    Exact,
    /// One occurs in the other.
    Contained,
    /// Neither: the similarity has to be measured.
    Fuzzy,
}

/// How candidate text `a` compares with searched text `b`.
pub open spec fn text_match(a: Seq<char>, b: Seq<char>) -> TextMatch {
    if a == b {
        TextMatch::Exact
    } else if crate::text::has_substring(a, b) || crate::text::has_substring(b, a) {
        TextMatch::Contained
    } else {
        TextMatch::Fuzzy
    }
}

/// Compares two texts.
pub fn compare_texts(a: &str, b: &str) -> (r: TextMatch)
    ensures
        r == text_match(a@, b@),
{
    if same_text(a, b) {
        TextMatch::Exact
    } else if text_contains(a, b) || text_contains(b, a) {
        TextMatch::Contained
    } else {
        TextMatch::Fuzzy
    }
}

/// The larger of two penalties.
pub open spec fn max_u32(a: u32, b: u32) -> u32 {
    if a >= b {
        a
    } else {
        b
    }
}

/// The penalty, in hundredths, for a candidate title that names another
/// version of a song than the searched title: talk 1.50 (0.25 when talk is
/// searched for), live recordings 0.25, remixes 0.20 (unless a remix or mix
/// is searched for), radio edits 0.15, demos and alternates 0.20; the largest
/// that applies.
pub open spec fn version_penalty(title_lower: Seq<char>, csv_title_lower: Seq<char>) -> u32 {
    let talk = crate::text::has_substring(title_lower, "podcast"@) || crate::text::has_substring(
        title_lower,
        "interview"@,
    ) || crate::text::has_substring(title_lower, "commentary"@) || crate::text::has_substring(
        title_lower,
        "speech"@,
    ) || crate::text::has_substring(title_lower, "talk"@);
    let p0: u32 = if talk {
        if asks_for_talk(csv_title_lower) {
            25
        } else {
            150
        }
    } else {
        0
    };
    let live = crate::text::has_substring(title_lower, "live"@) || crate::text::has_substring(
        title_lower,
        "concert"@,
    ) || crate::text::has_substring(title_lower, "tour"@) || crate::text::has_substring(
        title_lower,
        "performance"@,
    );
    let p1 = if live {
        max_u32(p0, 25)
    } else {
        p0
    };
    let remix = (crate::text::has_substring(title_lower, "remix"@) || crate::text::has_substring(
        title_lower,
        " mix"@,
    )) && !crate::text::has_substring(csv_title_lower, "remix"@) && !crate::text::has_substring(
        csv_title_lower,
        "mix"@,
    );
    let p2 = if remix {
        max_u32(p1, 20)
    } else {
        p1
    };
    let radio = crate::text::has_substring(title_lower, "radio edit"@)
        || crate::text::has_substring(title_lower, "radio version"@);
    let p3 = if radio {
        max_u32(p2, 15)
    } else {
        p2
    };
    let demo = crate::text::has_substring(title_lower, "demo"@) || crate::text::has_substring(
        title_lower,
        "alternate"@,
    ) || crate::text::has_substring(title_lower, "alternative"@) || crate::text::has_substring(
        title_lower,
        "unreleased"@,
    );
    if demo {
        max_u32(p3, 20)
    } else {
        p3
    }
}

/// The version penalty of a candidate title `t` (lower-cased) for a searched
/// title `c` (lower-cased), rule by rule: talk not asked for costs at least
/// 150 hundredths and talk asked for at least 25; a live recording at least
/// 25; a remix or mix not searched for at least 20; a radio edit at least 15;
/// a demo or alternate take at least 20. The penalty is the largest of the
/// rules that apply, so it is one of those amounts, and 0 when none applies.
pub proof fn law_version_penalty_rules(t: Seq<char>, c: Seq<char>)
    ensures
        ({
            let p = version_penalty(t, c);
            let talk = crate::text::has_substring(t, "podcast"@) || crate::text::has_substring(t, "interview"@)
                || crate::text::has_substring(t, "commentary"@) || crate::text::has_substring(t, "speech"@)
                || crate::text::has_substring(t, "talk"@);
            let asked = crate::text::has_substring(c, "podcast"@) || crate::text::has_substring(c, "episode"@)
                || crate::text::has_substring(c, "interview"@);
            let live = crate::text::has_substring(t, "live"@) || crate::text::has_substring(t, "concert"@)
                || crate::text::has_substring(t, "tour"@) || crate::text::has_substring(t, "performance"@);
            let mix = (crate::text::has_substring(t, "remix"@) || crate::text::has_substring(t, " mix"@))
                && !crate::text::has_substring(c, "remix"@) && !crate::text::has_substring(c, "mix"@);
            let radio = crate::text::has_substring(t, "radio edit"@) || crate::text::has_substring(
                t,
                "radio version"@,
            );
            let demo = crate::text::has_substring(t, "demo"@) || crate::text::has_substring(t, "alternate"@)
                || crate::text::has_substring(t, "alternative"@) || crate::text::has_substring(t, "unreleased"@);
            &&& talk && !asked ==> p >= 150
            &&& talk ==> p >= 25
            &&& live ==> p >= 25
            &&& mix ==> p >= 20
            &&& radio ==> p >= 15
            &&& demo ==> p >= 20
            &&& !talk && !live && !mix && !radio && !demo ==> p == 0
            &&& !talk ==> p <= 25
            &&& p == 0 || (p == 15 && radio) || (p == 20 && (mix || demo)) || (p == 25 && (talk || live))
                || (p == 150 && talk && !asked)
        }),
{
}

fn larger(a: u32, b: u32) -> (r: u32)
    ensures
        r == max_u32(a, b),
{
    if a >= b {
        a
    } else {
        b
    }
}

/// The version penalty of a candidate title, in hundredths.
pub fn version_penalty_hundredths(title_lower: &str, csv_title_lower: &str) -> (r: u32)
    ensures
        r == version_penalty(title_lower@, csv_title_lower@),
{
    let t = title_lower;
    let c = csv_title_lower;
    let talk = text_contains(t, "podcast") || text_contains(t, "interview") || text_contains(
        t,
        "commentary",
    ) || text_contains(t, "speech") || text_contains(t, "talk");
    let asks = text_contains(c, "podcast") || text_contains(c, "episode") || text_contains(
        c,
        "interview",
    );
    let p0: u32 = if talk {
        if asks {
            25
        } else {
            150
        }
    } else {
        0
    };
    let live = text_contains(t, "live") || text_contains(t, "concert") || text_contains(t, "tour")
        || text_contains(t, "performance");
    let p1 = if live {
        larger(p0, 25)
    } else {
        p0
    };
    let remix = (text_contains(t, "remix") || text_contains(t, " mix")) && !text_contains(
        c,
        "remix",
    ) && !text_contains(c, "mix");
    let p2 = if remix {
        larger(p1, 20)
    } else {
        p1
    };
    let radio = text_contains(t, "radio edit") || text_contains(t, "radio version");
    let p3 = if radio {
        larger(p2, 15)
    } else {
        p2
    };
    let demo = text_contains(t, "demo") || text_contains(t, "alternate") || text_contains(
        t,
        "alternative",
    ) || text_contains(t, "unreleased");
    if demo {
        larger(p3, 20)
    } else {
        p3
    }
}

/// A candidate album is a compilation: greatest hits, best of, compilation,
/// anthology, collection or essential(s).
pub open spec fn is_compilation(album_lower: Seq<char>) -> bool {
    crate::text::has_substring(album_lower, "greatest hits"@) || crate::text::has_substring(
        album_lower,
        "best of"@,
    ) || crate::text::has_substring(album_lower, "compilation"@) || crate::text::has_substring(
        album_lower,
        "anthology"@,
    ) || crate::text::has_substring(album_lower, "collection"@) || crate::text::has_substring(
        album_lower,
        "essential"@,
    )
}

/// What the album of a candidate tells, when it has one.
#[derive(Debug)]
pub struct AlbumFeatures {
    /// The album, lower-cased.
    pub album_lower: String,
    /// A compilation album costs 0.10.
    pub compilation: bool,
    /// The searched album, lower-cased, when the row names one.
    pub csv_album_lower: Option<String>,
    /// How it compares with the searched album, when the row names one.
    pub csv_album_match: Option<TextMatch>,
    /// A podcast or episode found for an album search that asks for no
    /// podcast costs 0.80.
    pub talk_penalty: bool,
}

/// The facts a candidate's score is computed from; only the similarities of
/// texts marked `Fuzzy` are left to be measured.
#[derive(Debug)]
pub struct CandidateFeatures {
    /// The candidate title, lower-cased.
    pub title_lower: String,
    /// The searched title, lower-cased.
    pub csv_title_lower: String,
    pub title_match: TextMatch,
    /// The version penalty, in hundredths.
    pub version_penalty: u32,
    /// A remaster that was not searched for earns 0.05.
    pub remaster_bonus: bool,
    /// The candidate artist, lower-cased.
    pub artist_lower: String,
    /// The artist is compared only when the candidate names one.
    pub artist_compared: bool,
    /// The searched artists, lower-cased.
    pub csv_artists_lower: Vec<String>,
    /// For each searched artist: it and the candidate artist occur one in the
    /// other (similarity 1.0).
    pub artist_contained: Vec<bool>,
    pub album: Option<AlbumFeatures>,
    /// A search for "Taylor's Version" that found a Taylor title earns 0.15.
    pub taylor_bonus: bool,
    /// With an identifier in the row, an exact title earns 0.35 ...
    pub identifier_title_bonus: bool,
    /// ... and an artist that contains a searched artist earns 0.35.
    pub identifier_artist_bonus: bool,
}

/// The row gives an identifier (an ISRC or a Spotify id) that is not blank.
pub open spec fn has_identifier(row: CsvTrack) -> bool {
    (match row.isrc {
        Some(s) => crate::text::trimmed(s@).len() > 0,
        None => false,
    }) || (match row.spotify_id {
        Some(s) => crate::text::trimmed(s@).len() > 0,
        None => false,
    })
}

/// The facts `f` are those of candidate `t` for row `row`.
pub open spec fn features_of(t: TrackInfo, row: CsvTrack, f: CandidateFeatures) -> bool {
    let tl = crate::text::lowercase(t.title@);
    let cl = crate::text::lowercase(row.track_name@);
    let al = crate::text::lowercase(t.artist@);
    let artists = artist_names(row.artist_name@);
    &&& f.title_lower@ == tl
    &&& f.csv_title_lower@ == cl
    &&& f.title_match == text_match(tl, cl)
    &&& f.version_penalty == version_penalty(tl, cl)
    &&& f.remaster_bonus == (crate::text::has_substring(tl, "remaster"@)
        && !crate::text::has_substring(cl, "remaster"@))
    &&& f.artist_lower@ == al
    &&& f.csv_artists_lower.deep_view() == artists.map_values(
        |a: Seq<char>| crate::text::lowercase(a),
    )
    &&& f.artist_compared == (t.artist@.len() > 0)
    &&& f.artist_contained@.len() == artists.len()
    &&& forall|i: int|
        0 <= i < artists.len() ==> #[trigger] f.artist_contained@[i] == (
        crate::text::has_substring(al, crate::text::lowercase(artists[i]))
            || crate::text::has_substring(crate::text::lowercase(artists[i]), al))
    &&& match t.album {
        None => f.album is None,
        Some(a) => f.album matches Some(fa) && {
            let bl = crate::text::lowercase(a@);
            &&& fa.album_lower@ == bl
            &&& fa.compilation == is_compilation(bl)
            &&& match row.album {
                None => fa.csv_album_lower is None && fa.csv_album_match is None && !fa.talk_penalty,
                Some(ca) => {
                    let cal = crate::text::lowercase(ca@);
                    &&& fa.csv_album_lower is Some && fa.csv_album_lower->0@ == cal
                    &&& fa.csv_album_match == Some(text_match(bl, cal))
                    &&& fa.talk_penalty == ((crate::text::has_substring(tl, "podcast"@)
                        || crate::text::has_substring(tl, "episode"@))
                        && !crate::text::has_substring(cl, "podcast"@)
                        && !crate::text::has_substring(cal, "podcast"@))
                },
            }
        },
    }
    &&& f.taylor_bonus == (crate::text::has_substring(cl, "taylor"@) && crate::text::has_substring(
        cl,
        "version"@,
    ) && crate::text::has_substring(tl, "taylor"@))
    &&& f.identifier_title_bonus == (has_identifier(row) && tl == cl)
    &&& f.identifier_artist_bonus == (has_identifier(row) && t.artist@.len() > 0 && exists|i: int|
        0 <= i < artists.len() && crate::text::has_substring(
            al,
            crate::text::lowercase(#[trigger] artists[i]),
        ))
}

fn blank_or_missing(o: &Option<String>) -> (r: bool)
    ensures
        r == !(match o {
            Some(s) => crate::text::trimmed(s@).len() > 0,
            None => false,
        }),
{
    match o {
        Some(s) => {
            let t = trim_text(s.as_str());
            t.as_str().is_empty()
        },
        None => true,
    }
}

/// The facts a candidate is scored on, against a row.
pub fn candidate_features(candidate: &TrackInfo, row: &CsvTrack) -> (r: CandidateFeatures)
    ensures
        features_of(*candidate, *row, r),
{
    let title_lower = to_lower(candidate.title.as_str());
    let csv_title_lower = to_lower(row.track_name.as_str());
    let t = title_lower.as_str();
    let c = csv_title_lower.as_str();
    let title_match = compare_texts(t, c);
    let version_penalty = version_penalty_hundredths(t, c);
    let remaster_bonus = text_contains(t, "remaster") && !text_contains(c, "remaster");
    let artist_lower = to_lower(candidate.artist.as_str());
    let artists = row.parse_artists();
    let ghost names = artist_names(row.artist_name@);
    let mut csv_artists_lower: Vec<String> = Vec::new();
    let mut artist_contained: Vec<bool> = Vec::new();
    let mut any_contains = false;
    let n = artists.len();
    for i in 0..n
        invariant
            n == names.len(),
            artists.deep_view() == names,
            artist_lower@ == crate::text::lowercase(candidate.artist@),
            csv_artists_lower.deep_view() == names.take(i as int).map_values(
                |a: Seq<char>| crate::text::lowercase(a),
            ),
            artist_contained@.len() == i,
            forall|k: int|
                0 <= k < i ==> #[trigger] artist_contained@[k] == (crate::text::has_substring(
                    artist_lower@,
                    crate::text::lowercase(names[k]),
                ) || crate::text::has_substring(crate::text::lowercase(names[k]), artist_lower@)),
            any_contains == exists|k: int|
                0 <= k < i && crate::text::has_substring(
                    artist_lower@,
                    crate::text::lowercase(#[trigger] names[k]),
                ),
    {
        let a = to_lower(artists[i].as_str());
        assert(artists@[i as int]@ == names[i as int]);
        let fwd = text_contains(artist_lower.as_str(), a.as_str());
        let back = text_contains(a.as_str(), artist_lower.as_str());
        artist_contained.push(fwd || back);
        if fwd {
            any_contains = true;
        }
        let ghost before = csv_artists_lower.deep_view();
        csv_artists_lower.push(a);
        assert(names.take(i + 1).map_values(|x: Seq<char>| crate::text::lowercase(x)) =~= before.push(
            crate::text::lowercase(names[i as int]),
        ));
        assert(csv_artists_lower.deep_view() =~= before.push(crate::text::lowercase(names[i as int])));
    }
    assert(names.take(n as int) =~= names);
    let album = match &candidate.album {
        None => None,
        Some(a) => {
            let album_lower = to_lower(a.as_str());
            let bl = album_lower.as_str();
            let compilation = text_contains(bl, "greatest hits") || text_contains(bl, "best of")
                || text_contains(bl, "compilation") || text_contains(bl, "anthology")
                || text_contains(bl, "collection") || text_contains(bl, "essential");
            let (csv_album_lower, csv_album_match, talk_penalty) = match &row.album {
                None => (None, None, false),
                Some(ca) => {
                    let cal = to_lower(ca.as_str());
                    let m = compare_texts(bl, cal.as_str());
                    let tp = (text_contains(t, "podcast") || text_contains(t, "episode"))
                        && !text_contains(c, "podcast") && !text_contains(cal.as_str(), "podcast");
                    (Some(cal), Some(m), tp)
                },
            };
            Some(
                AlbumFeatures { album_lower, compilation, csv_album_lower, csv_album_match, talk_penalty },
            )
        },
    };
    let taylor_bonus = text_contains(c, "taylor") && text_contains(c, "version") && text_contains(
        t,
        "taylor",
    );
    let identifier = !blank_or_missing(&row.isrc) || !blank_or_missing(&row.spotify_id);
    let identifier_title_bonus = identifier && same_text(t, c);
    let artist_named = !candidate.artist.as_str().is_empty();
    let identifier_artist_bonus = identifier && artist_named && any_contains;
    CandidateFeatures {
        title_lower,
        csv_title_lower,
        title_match,
        version_penalty,
        remaster_bonus,
        artist_lower,
        artist_compared: artist_named,
        csv_artists_lower,
        artist_contained,
        album,
        taylor_bonus,
        identifier_title_bonus,
        identifier_artist_bonus,
    }
}

} // verus!
