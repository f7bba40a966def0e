use vstd::prelude::*;

use crate::text::{owned, same_opt_text, same_text};
use crate::matching::CsvTrack;
use crate::types::{copy_opt_text, TrackInfo};

verus! {

broadcast use vstd::string::group_string_axioms;

/// The text of an optional string.
pub open spec fn opt_text(o: Option<String>) -> Option<Seq<char>> {
    match o {
        Some(s) => Some(s@),
        None => None,
    }
}

/// The text of an optional string slice.
pub open spec fn opt_str(o: Option<&str>) -> Option<Seq<char>> {
    match o {
        Some(s) => Some(s@),
        None => None,
    }
}

/// An owned copy of an optional string slice.
pub fn own_opt(o: Option<&str>) -> (r: Option<String>)
    ensures
        opt_text(r) == opt_str(o),
{
    match o {
        Some(s) => Some(owned(s)),
        None => None,
    }
}

/// A CSV row that was matched to a catalogue track. The confidence of the
/// match is kept as the bit pattern of its `f64` value (`f64::to_bits`).
#[derive(Debug)]
pub struct MatchedTrack {
    pub track_id: u64,
    pub track_title: String,
    pub track_artist: String,
    pub album: Option<String>,
    pub cover_url: Option<String>,
    pub confidence_bits: u64,
    pub csv_index: usize,
    pub csv_track_name: String,
    pub csv_artist_name: String,
    pub csv_album: Option<String>,
    pub playlist_name: Option<String>,
}

impl MatchedTrack {
    /// The catalogue track a saved match stands for, as a resumed import
    /// rebuilds it: the id, title, artist and album the record keeps, and
    /// nothing else (no length, quality, cover or identifiers).
    pub fn restored_track(&self) -> (r: TrackInfo)
        ensures
            r.id == self.track_id,
            r.title == self.track_title,
            r.artist == self.track_artist,
            r.album == self.album,
            r.duration is None,
            r.quality is None,
            r.cover_url is None,
            r.isrc is None,
            r.spotify_id is None,
            r.album_id is None,
    {
        TrackInfo {
            id: self.track_id,
            title: self.track_title.clone(),
            artist: self.track_artist.clone(),
            album: copy_opt_text(&self.album),
            duration: None,
            quality: None,
            cover_url: None,
            isrc: None,
            spotify_id: None,
            album_id: None,
        }
    }

    /// The CSV row a saved match was made for, as a resumed import rebuilds
    /// it: name, artist, album and playlist, without type or identifiers.
    pub fn restored_row(&self) -> (r: CsvTrack)
        ensures
            r.track_name == self.csv_track_name,
            r.artist_name == self.csv_artist_name,
            r.album == self.csv_album,
            r.playlist_name == self.playlist_name,
            r.track_type is None,
            r.isrc is None,
            r.spotify_id is None,
    {
        CsvTrack {
            track_name: self.csv_track_name.clone(),
            artist_name: self.csv_artist_name.clone(),
            album: copy_opt_text(&self.csv_album),
            playlist_name: copy_opt_text(&self.playlist_name),
            track_type: None,
            isrc: None,
            spotify_id: None,
        }
    }
}

/// A CSV row no catalogue track was found for.
#[derive(Debug)]
pub struct FailedMatch {
    pub track_name: String,
    pub artist: Option<String>,
    pub album: Option<String>,
    pub search_attempts: Vec<String>,
    pub attempts: usize,
}

/// What a CSV row said of a track.
#[derive(Debug)]
pub struct CsvTrackInfo {
    pub track_name: String,
    pub artist: Option<String>,
    pub album: Option<String>,
    pub isrc: Option<String>,
    pub spotify_id: Option<String>,
    pub cover_url: Option<String>,
}

/// A track whose download failed for good.
#[derive(Debug)]
pub struct FailedDownload {
    pub track_id: u64,
    pub track_title: String,
    pub track_artist: String,
    pub album: Option<String>,
    pub error: String,
    pub attempts: usize,
}

/// The resumable record of a CSV import: what was matched, what was
/// downloaded and what failed.
#[derive(Debug)]
pub struct DownloadProgress {
    pub source: String,
    pub total: usize,
    pub successful: usize,
    pub failed: Vec<FailedDownload>,
    pub started_at: String,
    pub completed_at: Option<String>,
    pub failed_matches: Vec<FailedMatch>,
    pub total_matched: usize,
    pub total_downloaded: usize,
    pub completed_track_ids: Vec<u64>,
    pub matched_csv_indices: Vec<usize>,
    pub matched_tracks: Vec<MatchedTrack>,
}

/// A UTC time stamp in RFC 3339 form, as far as its shape goes whatever the
/// time: at least 25 characters (a date of at least four year digits, `T`, a
/// time to the second), ending in the offset `+00:00`.
pub open spec fn utc_stamp(s: Seq<char>) -> bool {
    s.len() >= 25 && s.subrange(s.len() - 6, s.len() as int) == "+00:00"@
}

/// `chrono::Utc::now().to_rfc3339()`: the current time as RFC 3339 text.
/// chrono writes the date, `T`, the time to the second (with a fraction when
/// it is not zero) and then the offset, which for UTC is `+00:00`. Which time
/// it is depends on the clock, so only that shape is claimed.
#[verifier::external_body]
fn utc_now_rfc3339() -> (r: String)
    ensures
        utc_stamp(r@),
{
    chrono::Utc::now().to_rfc3339()
}

/// The failed match records `m` and the key (`name`, `artist`, `album`) agree.
pub open spec fn same_key(
    m: FailedMatch,
    name: Seq<char>,
    artist: Option<Seq<char>>,
    album: Option<Seq<char>>,
) -> bool {
    m.track_name@ == name && opt_text(m.artist) == artist && opt_text(m.album) == album
}

/// Two failed match records have the same key.
pub open spec fn keys_equal(a: FailedMatch, b: FailedMatch) -> bool {
    a.track_name@ == b.track_name@ && opt_text(a.artist) == opt_text(b.artist) && opt_text(
        a.album,
    ) == opt_text(b.album)
}

/// The attempts of a list of failed downloads, added up.
pub open spec fn sum_attempts(s: Seq<FailedDownload>) -> nat
    decreases s.len(),
{
    if s.len() == 0 {
        0
    } else {
        sum_attempts(s.drop_last()) + s.last().attempts as nat
    }
}

impl DownloadProgress {
    /// The lists that act as sets hold nothing twice, and no two failed match
    /// records share a key.
    pub open spec fn wf(&self) -> bool {
        &&& self.completed_track_ids@.no_duplicates()
        &&& self.matched_csv_indices@.no_duplicates()
        &&& forall|i: int, j: int|
            0 <= i < j < self.failed_matches@.len() ==> !keys_equal(
                #[trigger] self.failed_matches@[i],
                #[trigger] self.failed_matches@[j],
            )
    }

    /// The two records agree on the source, the totals and the times.
    pub open spec fn same_totals(&self, other: &Self) -> bool {
        &&& self.source == other.source
        &&& self.total == other.total
        &&& self.started_at == other.started_at
        &&& self.completed_at == other.completed_at
        &&& self.total_matched == other.total_matched
        &&& self.total_downloaded == other.total_downloaded
    }

    /// The record as it stands at the start, everything but its start time.
    pub open spec fn fresh(&self, source: Seq<char>, total: usize) -> bool {
        &&& self.source@ == source
        &&& self.total == total
        &&& self.successful == 0
        &&& self.failed@.len() == 0
        &&& self.completed_at is None
        &&& self.failed_matches@.len() == 0
        &&& self.total_matched == 0
        &&& self.total_downloaded == 0
        &&& self.completed_track_ids@.len() == 0
        &&& self.matched_csv_indices@.len() == 0
        &&& self.matched_tracks@.len() == 0
    }

    /// An empty record for `total` rows read from `source`, stamped with the
    /// current time.
    pub fn new(source: &str, total: usize) -> (r: Self)
        ensures
            r.fresh(source@, total),
            r.wf(),
            utc_stamp(r.started_at@),
    {
        let started_at = utc_now_rfc3339();
        Self::starting_at(source, total, started_at)
    }

    /// An empty record for `total` rows read from `source`, started at
    /// `started_at`.
    pub fn starting_at(source: &str, total: usize, started_at: String) -> (r: Self)
        ensures
            r.fresh(source@, total),
            r.started_at == started_at,
            r.wf(),
    {
        DownloadProgress {
            source: owned(source),
            total,
            successful: 0,
            failed: Vec::new(),
            started_at,
            completed_at: None,
            failed_matches: Vec::new(),
            total_matched: 0,
            total_downloaded: 0,
            completed_track_ids: Vec::new(),
            matched_csv_indices: Vec::new(),
            matched_tracks: Vec::new(),
        }
    }

    /// Records that `track_id` was downloaded; an id already recorded is not
    /// recorded twice.
    pub fn mark_completed(&mut self, track_id: u64)
        ensures
            final(self).completed_track_ids@ == with_member(old(self).completed_track_ids@, track_id),
            final(self).matched_csv_indices == old(self).matched_csv_indices,
            final(self).matched_tracks == old(self).matched_tracks,
            final(self).failed == old(self).failed,
            final(self).failed_matches == old(self).failed_matches,
            final(self).successful == old(self).successful,
            final(self).source == old(self).source,
            final(self).same_totals(&*old(self)),
            old(self).wf() ==> final(self).wf(),
    {
        if !self.is_completed(track_id) {
            self.completed_track_ids.push(track_id);
        }
    }

    /// Whether `track_id` was recorded as downloaded.
    pub fn is_completed(&self, track_id: u64) -> (r: bool)
        ensures
            r == self.completed_track_ids@.contains(track_id),
    {
        let n = self.completed_track_ids.len();
        for i in 0..n
            invariant
                n == self.completed_track_ids@.len(),
                forall|k: int| 0 <= k < i ==> self.completed_track_ids@[k] != track_id,
        {
            if self.completed_track_ids[i] == track_id {
                return true;
            }
        }
        false
    }

    /// The number of tracks recorded as downloaded.
    pub fn get_completed_count(&self) -> (r: usize)
        ensures
            r == self.completed_track_ids@.len(),
    {
        self.completed_track_ids.len()
    }

    /// Records that CSV row `index` was matched; a row already recorded is not
    /// recorded twice.
    pub fn mark_csv_matched(&mut self, index: usize)
        ensures
            final(self).matched_csv_indices@ == with_member(old(self).matched_csv_indices@, index),
            final(self).completed_track_ids == old(self).completed_track_ids,
            final(self).matched_tracks == old(self).matched_tracks,
            final(self).failed == old(self).failed,
            final(self).failed_matches == old(self).failed_matches,
            final(self).successful == old(self).successful,
            final(self).source == old(self).source,
            final(self).same_totals(&*old(self)),
            old(self).wf() ==> final(self).wf(),
    {
        if !self.is_csv_matched(index) {
            self.matched_csv_indices.push(index);
        }
    }

    /// Whether CSV row `index` was recorded as matched.
    pub fn is_csv_matched(&self, index: usize) -> (r: bool)
        ensures
            r == self.matched_csv_indices@.contains(index),
    {
        let n = self.matched_csv_indices.len();
        for i in 0..n
            invariant
                n == self.matched_csv_indices@.len(),
                forall|k: int| 0 <= k < i ==> self.matched_csv_indices@[k] != index,
        {
            if self.matched_csv_indices[i] == index {
                return true;
            }
        }
        false
    }

    /// The record of a match of CSV row `csv_index` to `track`.
    pub open spec fn matched_record(
        m: MatchedTrack,
        csv_index: usize,
        track: TrackInfo,
        confidence_bits: u64,
        csv_track_name: Seq<char>,
        csv_artist: Seq<char>,
        csv_album: Option<Seq<char>>,
        playlist: Option<Seq<char>>,
    ) -> bool {
        &&& m.track_id == track.id
        &&& m.track_title == track.title
        &&& m.track_artist == track.artist
        &&& m.album == track.album
        &&& m.cover_url == track.cover_url
        &&& m.confidence_bits == confidence_bits
        &&& m.csv_index == csv_index
        &&& m.csv_track_name@ == csv_track_name
        &&& m.csv_artist_name@ == csv_artist
        &&& opt_text(m.csv_album) == csv_album
        &&& opt_text(m.playlist_name) == playlist
    }

    /// Records that CSV row `csv_index` was matched to `track` with the given
    /// confidence (as `f64` bits), and marks the row as matched.
    pub fn add_matched_track(
        &mut self,
        csv_index: usize,
        track: &TrackInfo,
        confidence_bits: u64,
        csv_track_name: &str,
        csv_artist: &str,
        csv_album: Option<&str>,
        playlist: Option<&str>,
    )
        ensures
            final(self).matched_tracks@.len() == old(self).matched_tracks@.len() + 1,
            final(self).matched_tracks@.drop_last() == old(self).matched_tracks@,
            Self::matched_record(
                final(self).matched_tracks@.last(),
                csv_index,
                *track,
                confidence_bits,
                csv_track_name@,
                csv_artist@,
                opt_str(csv_album),
                opt_str(playlist),
            ),
            final(self).matched_csv_indices@ == with_member(old(self).matched_csv_indices@, csv_index),
            final(self).completed_track_ids == old(self).completed_track_ids,
            final(self).failed == old(self).failed,
            final(self).failed_matches == old(self).failed_matches,
            final(self).successful == old(self).successful,
            final(self).same_totals(&*old(self)),
            old(self).wf() ==> final(self).wf(),
    {
        let m = MatchedTrack {
            track_id: track.id,
            track_title: track.title.clone(),
            track_artist: track.artist.clone(),
            album: copy_opt_text(&track.album),
            cover_url: copy_opt_text(&track.cover_url),
            confidence_bits,
            csv_index,
            csv_track_name: owned(csv_track_name),
            csv_artist_name: owned(csv_artist),
            csv_album: own_opt(csv_album),
            playlist_name: own_opt(playlist),
        };
        let ghost before = self.matched_tracks@;
        self.matched_tracks.push(m);
        assert(self.matched_tracks@.drop_last() =~= before);
        self.mark_csv_matched(csv_index);
    }

    /// The first match recorded for CSV row `csv_index`, if any.
    pub fn get_matched_track(&self, csv_index: usize) -> (r: Option<&MatchedTrack>)
        ensures
            match r {
                Some(m) => exists|i: int|
                    is_first_match(self.matched_tracks@, i, csv_index) && #[trigger] self.matched_tracks@[i] == *m,
                None => no_match(self.matched_tracks@, csv_index),
            },
    {
        let n = self.matched_tracks.len();
        for i in 0..n
            invariant
                n == self.matched_tracks@.len(),
                forall|j: int|
                    0 <= j < i ==> (#[trigger] self.matched_tracks@[j]).csv_index != csv_index,
        {
            if self.matched_tracks[i].csv_index == csv_index {
                return Some(&self.matched_tracks[i]);
            }
        }
        None
    }

    /// Counts one more successful download.
    pub fn add_success(&mut self)
        requires
            old(self).successful < usize::MAX,
        ensures
            final(self).successful == old(self).successful + 1,
            final(self).failed == old(self).failed,
            final(self).completed_track_ids == old(self).completed_track_ids,
            final(self).matched_csv_indices == old(self).matched_csv_indices,
            final(self).failed_matches == old(self).failed_matches,
            final(self).matched_tracks == old(self).matched_tracks,
            final(self).same_totals(&*old(self)),
            old(self).wf() ==> final(self).wf(),
    {
        self.successful = self.successful + 1;
    }

    /// Records that downloading `track` failed for good with `error`, after
    /// one attempt.
    pub fn add_failure(&mut self, track: &TrackInfo, album: Option<&str>, error: String)
        ensures
            final(self).failed@.len() == old(self).failed@.len() + 1,
            final(self).failed@.drop_last() == old(self).failed@,
            ({
                let f = final(self).failed@.last();
                &&& f.track_id == track.id
                &&& f.track_title == track.title
                &&& f.track_artist == track.artist
                &&& opt_text(f.album) == opt_str(album)
                &&& f.error == error
                &&& f.attempts == 1
            }),
            sum_attempts(final(self).failed@) == sum_attempts(old(self).failed@) + 1,
            final(self).completed_track_ids == old(self).completed_track_ids,
            final(self).matched_csv_indices == old(self).matched_csv_indices,
            final(self).failed_matches == old(self).failed_matches,
            final(self).successful == old(self).successful,
            final(self).matched_tracks == old(self).matched_tracks,
            final(self).same_totals(&*old(self)),
            old(self).wf() ==> final(self).wf(),
    {
        let f = FailedDownload {
            track_id: track.id,
            track_title: track.title.clone(),
            track_artist: track.artist.clone(),
            album: own_opt(album),
            error,
            attempts: 1,
        };
        let ghost before = self.failed@;
        self.failed.push(f);
        assert(self.failed@.drop_last() =~= before);
    }

    /// Records that no track was found for the CSV row with this name, artist
    /// and album: a row already recorded gets one more attempt counted, a new
    /// one is added with one attempt.
    pub fn add_failed_match(&mut self, track_name: &str, artist: Option<&str>, album: Option<&str>)
        requires
            forall|i: int|
                0 <= i < old(self).failed_matches@.len() ==> (#[trigger] old(
                    self,
                ).failed_matches@[i]).attempts < usize::MAX,
        ensures
            match first_with_key(old(self).failed_matches@, track_name@, opt_str(artist), opt_str(album)) {
                Some(k) => {
                    &&& final(self).failed_matches@.len() == old(self).failed_matches@.len()
                    &&& forall|i: int|
                        0 <= i < old(self).failed_matches@.len() && i != k
                            ==> #[trigger] final(self).failed_matches@[i] == old(
                            self,
                        ).failed_matches@[i]
                    &&& final(self).failed_matches@[k].attempts == old(self).failed_matches@[k].attempts + 1
                    &&& final(self).failed_matches@[k].track_name == old(self).failed_matches@[k].track_name
                    &&& final(self).failed_matches@[k].artist == old(self).failed_matches@[k].artist
                    &&& final(self).failed_matches@[k].album == old(self).failed_matches@[k].album
                    &&& final(self).failed_matches@[k].search_attempts == old(self).failed_matches@[k].search_attempts
                },
                None => {
                    &&& final(self).failed_matches@.drop_last() == old(self).failed_matches@
                    &&& final(self).failed_matches@.len() == old(self).failed_matches@.len() + 1
                    &&& same_key(final(self).failed_matches@.last(), track_name@, opt_str(artist), opt_str(album))
                    &&& final(self).failed_matches@.last().attempts == 1
                    &&& final(self).failed_matches@.last().search_attempts@.len() == 0
                },
            },
            match_attempts(final(self).failed_matches@) == match_attempts(old(self).failed_matches@) + 1,
            final(self).failed == old(self).failed,
            final(self).completed_track_ids == old(self).completed_track_ids,
            final(self).matched_csv_indices == old(self).matched_csv_indices,
            final(self).matched_tracks == old(self).matched_tracks,
            final(self).successful == old(self).successful,
            final(self).same_totals(&*old(self)),
            old(self).wf() ==> final(self).wf(),
    {
        let found = self.find_failed_match(track_name, artist, album);
        match found {
            Some(k) => {
                assert(first_with_key(self.failed_matches@, track_name@, opt_str(artist), opt_str(album)) == Some(k as int)) by {
                    lemma_first_with_key(self.failed_matches@, track_name@, opt_str(artist), opt_str(album), k as int);
                }
                let ghost before = self.failed_matches@;
                let mut m = self.failed_matches.remove(k);
                m.attempts = m.attempts + 1;
                self.failed_matches.insert(k, m);
                proof {
                    assert forall|i: int| 0 <= i < before.len() && i != k implies #[trigger] self.failed_matches@[i] == before[i] by {}
                    lemma_match_attempts_bump(before, self.failed_matches@, k as int);
                    assert forall|i: int, j: int|
                        0 <= i < j < self.failed_matches@.len() && !keys_equal(before[i], before[j])
                            implies !keys_equal(
                            #[trigger] self.failed_matches@[i],
                            #[trigger] self.failed_matches@[j],
                        ) by {
                        assert(keys_equal(self.failed_matches@[i], before[i]));
                        assert(keys_equal(self.failed_matches@[j], before[j]));
                    }
                }
            },
            None => {
                assert(first_with_key(self.failed_matches@, track_name@, opt_str(artist), opt_str(album)) is None) by {
                    lemma_no_key(self.failed_matches@, track_name@, opt_str(artist), opt_str(album));
                }
                let ghost before = self.failed_matches@;
                let fm = FailedMatch {
                    track_name: owned(track_name),
                    artist: own_opt(artist),
                    album: own_opt(album),
                    search_attempts: Vec::new(),
                    attempts: 1,
                };
                self.failed_matches.push(fm);
                assert(self.failed_matches@.drop_last() =~= before);
                proof {
                    assert forall|i: int, j: int|
                        0 <= i < j < self.failed_matches@.len() && (j < before.len() ==> !keys_equal(before[i], before[j]))
                            implies !keys_equal(
                            #[trigger] self.failed_matches@[i],
                            #[trigger] self.failed_matches@[j],
                        ) by {
                        if j == before.len() {
                            assert(!same_key(before[i], track_name@, opt_str(artist), opt_str(album)));
                        }
                    }
                }
            },
        }
    }

    /// The position of the first failed match record with this key.
    fn find_failed_match(&self, track_name: &str, artist: Option<&str>, album: Option<&str>) -> (r: Option<usize>)
        ensures
            match r {
                Some(k) => {
                    &&& k < self.failed_matches@.len()
                    &&& same_key(self.failed_matches@[k as int], track_name@, opt_str(artist), opt_str(album))
                    &&& forall|j: int| 0 <= j < k ==> !same_key(#[trigger] self.failed_matches@[j], track_name@, opt_str(artist), opt_str(album))
                },
                None => forall|j: int| 0 <= j < self.failed_matches@.len() ==> !same_key(#[trigger] self.failed_matches@[j], track_name@, opt_str(artist), opt_str(album)),
            },
    {
        let n = self.failed_matches.len();
        for i in 0..n
            invariant
                n == self.failed_matches@.len(),
                forall|j: int|
                    0 <= j < i ==> !same_key(
                        #[trigger] self.failed_matches@[j],
                        track_name@,
                        opt_str(artist),
                        opt_str(album),
                    ),
        {
            let m = &self.failed_matches[i];
            if same_text(m.track_name.as_str(), track_name) && same_opt_text(&m.artist, artist)
                && same_opt_text(&m.album, album) {
                return Some(i);
            }
        }
        None
    }

    /// The positions in `track_ids` of the tracks not yet recorded as
    /// downloaded, in order: the downloads a resumed import still has to do.
    pub fn pending_positions(&self, track_ids: &Vec<u64>) -> (r: Vec<usize>)
        ensures
            r@ == pending(track_ids@, self.completed_track_ids@),
    {
        let n = track_ids.len();
        let mut out: Vec<usize> = Vec::new();
        for i in 0..n
            invariant
                n == track_ids@.len(),
                out@ == pending(track_ids@.take(i as int), self.completed_track_ids@),
        {
            assert(track_ids@.take(i + 1).drop_last() =~= track_ids@.take(i as int));
            if !self.is_completed(track_ids[i]) {
                out.push(i);
            }
        }
        assert(track_ids@.take(n as int) =~= track_ids@);
        out
    }

    /// For each CSV row of a resumed import, the saved match that restores
    /// it: none for a row `found` again in this run, else the position of the
    /// first saved match for the row, if there is one.
    pub fn restore_plan(&self, found: &Vec<bool>) -> (r: Vec<Option<usize>>)
        requires
            forall|j: int|
                0 <= j < self.matched_tracks@.len() ==> (#[trigger] self.matched_tracks@[j]).csv_index
                    < found@.len(),
        ensures
            r@.len() == found@.len(),
            forall|k: int|
                0 <= k < found@.len() ==> match #[trigger] r@[k] {
                    Some(j) => !found@[k] && is_first_match(self.matched_tracks@, j as int, k as usize),
                    None => found@[k] || no_match(self.matched_tracks@, k as usize),
                },
    {
        let n = found.len();
        let mut out: Vec<Option<usize>> = Vec::new();
        let mut filled: Vec<bool> = Vec::new();
        for k in 0..n
            invariant
                n == found@.len(),
                out@.len() == k,
                filled@.len() == k,
                forall|x: int| 0 <= x < k ==> #[trigger] out@[x] is None && filled@[x] == found@[x],
        {
            out.push(None);
            filled.push(found[k]);
        }
        let ghost s = self.matched_tracks@;
        let m = self.matched_tracks.len();
        let mut j: usize = 0;
        while j < m
            invariant
                j <= m,
                n == found@.len(),
                m == s.len(),
                s == self.matched_tracks@,
                forall|x: int| 0 <= x < m ==> (#[trigger] s[x]).csv_index < n,
                out@.len() == n,
                filled@.len() == n,
                forall|k: int|
                    0 <= k < n ==> {
                        &&& #[trigger] filled@[k] == (found@[k] || !no_match(s.take(j as int), k as usize))
                        &&& match out@[k] {
                            Some(x) => !found@[k] && is_first_match(s.take(j as int), x as int, k as usize),
                            None => found@[k] || no_match(s.take(j as int), k as usize),
                        }
                    },
            decreases m - j,
        {
            let c = self.matched_tracks[j].csv_index;
            let ghost before = s.take(j as int);
            let ghost after = s.take(j + 1);
            assert(after =~= before.push(s[j as int]));
            proof {
                assert forall|k: int| 0 <= k < n && k != c implies #[trigger] no_match(after, k as usize) == no_match(before, k as usize) by {
                    if no_match(before, k as usize) {
                        assert forall|y: int| 0 <= y < after.len() implies (#[trigger] after[y]).csv_index != k as usize by {
                            if y < before.len() {
                                assert(after[y] == before[y]);
                            }
                        }
                    } else {
                        let y = choose|y: int| 0 <= y < before.len() && (#[trigger] before[y]).csv_index == k as usize;
                        assert(after[y] == before[y]);
                    }
                }
                assert forall|k: int, x: int| 0 <= k < n && #[trigger] is_first_match(before, x, k as usize) implies is_first_match(after, x, k as usize) by {
                    assert(after[x] == before[x]);
                    assert forall|y: int| 0 <= y < x implies (#[trigger] after[y]).csv_index != k as usize by {
                        assert(after[y] == before[y]);
                    }
                }
                assert(after[j as int] == s[j as int]);
                assert(after[j as int].csv_index == c);
                assert(!no_match(after, c));
            }
            let ghost old_out = out@;
            let ghost old_filled = filled@;
            if !filled[c] {
                proof {
                    assert(no_match(before, c));
                    assert forall|y: int| 0 <= y < j implies (#[trigger] after[y]).csv_index != c by {
                        assert(after[y] == before[y]);
                    }
                    assert(is_first_match(after, j as int, c));
                }
                out.set(c, Some(j));
                filled.set(c, true);
            }
            assert forall|k: int| 0 <= k < n implies {
                &&& #[trigger] filled@[k] == (found@[k] || !no_match(after, k as usize))
                &&& match out@[k] {
                    Some(x) => !found@[k] && is_first_match(after, x as int, k as usize),
                    None => found@[k] || no_match(after, k as usize),
                }
            } by {
                if k != c as int {
                    assert(out@[k] == old_out[k] && filled@[k] == old_filled[k]);
                    assert(no_match(after, k as usize) == no_match(before, k as usize));
                    if let Some(x) = out@[k] {
                        assert(is_first_match(before, x as int, k as usize));
                    }
                } else if old_filled[k] {
                    assert(out@[k] == old_out[k]);
                    if let Some(x) = out@[k] {
                        assert(is_first_match(before, x as int, k as usize));
                    }
                }
            }
            assert(after == s.take(j + 1));
            assert forall|k: int| 0 <= k < n implies {
                &&& #[trigger] filled@[k] == (found@[k] || !no_match(s.take(j + 1), k as usize))
                &&& match out@[k] {
                    Some(x) => !found@[k] && is_first_match(s.take(j + 1), x as int, k as usize),
                    None => found@[k] || no_match(s.take(j + 1), k as usize),
                }
            } by {
                assert(filled@[k] == (found@[k] || !no_match(after, k as usize)));
            }
            j = j + 1;
        }
        assert(s.take(m as int) =~= s);
        assert forall|k: int| 0 <= k < found@.len() implies match #[trigger] out@[k] {
            Some(j) => !found@[k] && is_first_match(self.matched_tracks@, j as int, k as usize),
            None => found@[k] || no_match(self.matched_tracks@, k as usize),
        } by {
            assert(filled@[k] == (found@[k] || !no_match(s.take(m as int), k as usize)));
        }
        out
    }

    /// The CSV rows no track was found for.
    pub fn get_failed_matches(&self) -> (r: &[FailedMatch])
        ensures
            r@ == self.failed_matches@,
    {
        self.failed_matches.as_slice()
    }

    /// The failures of both kinds: rows not matched and downloads failed.
    pub fn total_failed(&self) -> (r: usize)
        requires
            self.failed_matches@.len() + self.failed@.len() <= usize::MAX,
        ensures
            r == self.failed_matches@.len() + self.failed@.len(),
    {
        self.failed_matches.len() + self.failed.len()
    }

    /// Whether any download failed for good.
    pub fn has_failures(&self) -> (r: bool)
        ensures
            r == (self.failed@.len() > 0),
    {
        !self.failed.is_empty()
    }

    /// The attempts made at the downloads that failed, added up.
    pub fn retry_count(&self) -> (r: usize)
        requires
            sum_attempts(self.failed@) <= usize::MAX,
        ensures
            r == sum_attempts(self.failed@),
    {
        let n = self.failed.len();
        let mut total: usize = 0;
        for i in 0..n
            invariant
                n == self.failed@.len(),
                sum_attempts(self.failed@) <= usize::MAX,
                total == sum_attempts(self.failed@.take(i as int)),
        {
            assert(self.failed@.take(i + 1).drop_last() =~= self.failed@.take(i as int));
            proof {
                lemma_sum_attempts_prefix(self.failed@, i + 1);
            }
            total = total + self.failed[i].attempts;
        }
        assert(self.failed@.take(n as int) =~= self.failed@);
        total
    }
}

/// The positions of the ids of `ids` that `done` does not hold, in order.
pub open spec fn pending(ids: Seq<u64>, done: Seq<u64>) -> Seq<usize>
    decreases ids.len(),
{
    if ids.len() == 0 {
        Seq::empty()
    } else {
        let pre = pending(ids.drop_last(), done);
        if done.contains(ids.last()) {
            pre
        } else {
            pre.push((ids.len() - 1) as usize)
        }
    }
}

/// The downloads still to do are exactly the tracks not yet downloaded: the
/// positions listed are those, and only those, whose track id is not
/// recorded as completed, in increasing order.
pub proof fn law_pending_lists_exactly_the_missing(ids: Seq<u64>, done: Seq<u64>)
    requires
        ids.len() <= usize::MAX,
    ensures
        forall|k: int|
            0 <= k < pending(ids, done).len() ==> #[trigger] pending(ids, done)[k] < ids.len()
                && !done.contains(ids[pending(ids, done)[k] as int]),
        forall|i: int|
            0 <= i < ids.len() && !done.contains(#[trigger] ids[i]) ==> pending(ids, done).contains(
                i as usize,
            ),
        forall|a: int, b: int|
            0 <= a < b < pending(ids, done).len() ==> pending(ids, done)[a] < pending(ids, done)[b],
    decreases ids.len(),
{
    if ids.len() > 0 {
        let pre = ids.drop_last();
        law_pending_lists_exactly_the_missing(pre, done);
        let p = pending(ids, done);
        let q = pending(pre, done);
        assert forall|k: int| 0 <= k < p.len() implies #[trigger] p[k] < ids.len() && !done.contains(
            ids[p[k] as int],
        ) by {
            if k < q.len() {
                assert(p[k] == q[k]);
                assert(pre[q[k] as int] == ids[q[k] as int]);
            }
        }
        assert forall|i: int| 0 <= i < ids.len() && !done.contains(#[trigger] ids[i]) implies p.contains(
            i as usize,
        ) by {
            if i < ids.len() - 1 {
                assert(pre[i] == ids[i]);
                let k = choose|k: int| 0 <= k < q.len() && q[k] == i as usize;
                assert(p[k] == i as usize);
            } else {
                assert(p[p.len() - 1] == i as usize);
            }
        }
        assert forall|a: int, b: int| 0 <= a < b < p.len() implies p[a] < p[b] by {
            if b < q.len() {
                assert(p[a] == q[a] && p[b] == q[b]);
            } else {
                assert(p[a] == q[a]);
            }
        }
    }
}

/// `s` with `x` added at its end, unless `x` is already in it.
pub open spec fn with_member<T>(s: Seq<T>, x: T) -> Seq<T> {
    if s.contains(x) {
        s
    } else {
        s.push(x)
    }
}

/// `i` is the position of the first record of `s` for CSV row `csv_index`.
pub open spec fn is_first_match(s: Seq<MatchedTrack>, i: int, csv_index: usize) -> bool {
    &&& 0 <= i < s.len()
    &&& s[i].csv_index == csv_index
    &&& forall|j: int| 0 <= j < i ==> (#[trigger] s[j]).csv_index != csv_index
}

/// No record of `s` is for CSV row `csv_index`.
pub open spec fn no_match(s: Seq<MatchedTrack>, csv_index: usize) -> bool {
    forall|j: int| 0 <= j < s.len() ==> (#[trigger] s[j]).csv_index != csv_index
}

/// The attempts of a list of failed match records, added up.
pub open spec fn match_attempts(s: Seq<FailedMatch>) -> nat
    decreases s.len(),
{
    if s.len() == 0 {
        0
    } else {
        match_attempts(s.drop_last()) + s.last().attempts as nat
    }
}

proof fn lemma_match_attempts_bump(a: Seq<FailedMatch>, b: Seq<FailedMatch>, k: int)
    requires
        a.len() == b.len(),
        0 <= k < a.len(),
        b[k].attempts == a[k].attempts + 1,
        forall|i: int| 0 <= i < a.len() && i != k ==> #[trigger] b[i] == a[i],
    ensures
        match_attempts(b) == match_attempts(a) + 1,
    decreases a.len(),
{
    if k < a.len() - 1 {
        let a2 = a.drop_last();
        let b2 = b.drop_last();
        assert forall|i: int| 0 <= i < a2.len() && i != k implies #[trigger] b2[i] == a2[i] by {
            assert(b2[i] == b[i]);
        }
        lemma_match_attempts_bump(a2, b2, k);
        assert(b.last() == a.last());
    } else {
        assert(a.drop_last() =~= b.drop_last()) by {
            assert forall|i: int| 0 <= i < a.drop_last().len() implies b.drop_last()[i] == a.drop_last()[i] by {
                assert(b[i] == a[i]);
            }
        }
    }
}

/// Marking a value as seen (a downloaded track, a matched CSV row): the value
/// is found afterwards, and marking it a second time changes nothing.
pub proof fn law_marked_is_found<T>(s: Seq<T>, x: T)
    ensures
        with_member(s, x).contains(x),
        with_member(with_member(s, x), x) == with_member(s, x),
{
    if !s.contains(x) {
        assert(s.push(x)[s.len() as int] == x);
    }
}

/// Marking a value keeps every value marked before and marks nothing else;
/// a list that held nothing twice still holds nothing twice.
pub proof fn law_marking_keeps_others<T>(s: Seq<T>, x: T, y: T)
    ensures
        s.contains(y) ==> with_member(s, x).contains(y),
        with_member(s, x).contains(y) ==> s.contains(y) || y == x,
        s.no_duplicates() ==> with_member(s, x).no_duplicates(),
        with_member(s, x).len() <= s.len() + 1,
{
    if !s.contains(x) {
        if s.contains(y) {
            let i = choose|i: int| 0 <= i < s.len() && s[i] == y;
            assert(s.push(x)[i] == y);
        }
        if s.push(x).contains(y) && y != x {
            let i = choose|i: int| 0 <= i < s.push(x).len() && s.push(x)[i] == y;
            assert(s[i] == y);
        }
        if s.no_duplicates() {
            assert forall|i: int, j: int| 0 <= i < s.push(x).len() && 0 <= j < s.push(x).len() && i != j
                implies s.push(x)[i] != s.push(x)[j] by {
                if i < s.len() && j < s.len() {
                } else if i < s.len() {
                    assert(s[i] == s.push(x)[i]);
                } else {
                    assert(s[j] == s.push(x)[j]);
                }
            }
        }
    }
}

/// Reading back a match after it was recorded: where the CSV row had no
/// match before, the new record is the one found; where it had one, that
/// earlier record is still the one found. No row has two first matches.
pub proof fn law_match_read_after_add(s: Seq<MatchedTrack>, m: MatchedTrack, c: usize, i: int, j: int)
    ensures
        no_match(s, m.csv_index) ==> is_first_match(s.push(m), s.len() as int, m.csv_index),
        is_first_match(s, i, c) ==> is_first_match(s.push(m), i, c),
        no_match(s, c) && c != m.csv_index ==> no_match(s.push(m), c),
        is_first_match(s, i, c) && is_first_match(s, j, c) ==> i == j,
{
    if no_match(s, m.csv_index) {
        assert forall|k: int| 0 <= k < s.len() implies (#[trigger] s.push(m)[k]).csv_index != m.csv_index by {
            assert(s.push(m)[k] == s[k]);
        }
    }
    if is_first_match(s, i, c) {
        assert forall|k: int| 0 <= k < i implies (#[trigger] s.push(m)[k]).csv_index != c by {
            assert(s.push(m)[k] == s[k]);
        }
        assert(s.push(m)[i] == s[i]);
    }
    if no_match(s, c) && c != m.csv_index {
        assert forall|k: int| 0 <= k < s.push(m).len() implies (#[trigger] s.push(m)[k]).csv_index != c by {
            if k < s.len() {
                assert(s.push(m)[k] == s[k]);
            }
        }
    }
    if is_first_match(s, i, c) && is_first_match(s, j, c) {
        if i < j {
            assert(s[i].csv_index != c);
        } else if j < i {
            assert(s[j].csv_index != c);
        }
    }
}

/// The position of the first record with the given key, if any.
pub open spec fn first_with_key(
    s: Seq<FailedMatch>,
    name: Seq<char>,
    artist: Option<Seq<char>>,
    album: Option<Seq<char>>,
) -> Option<int>
    decreases s.len(),
{
    if s.len() == 0 {
        None
    } else {
        match first_with_key(s.drop_last(), name, artist, album) {
            Some(k) => Some(k),
            None => if same_key(s.last(), name, artist, album) {
                Some(s.len() - 1)
            } else {
                None
            },
        }
    }
}

proof fn lemma_first_with_key(
    s: Seq<FailedMatch>,
    name: Seq<char>,
    artist: Option<Seq<char>>,
    album: Option<Seq<char>>,
    k: int,
)
    requires
        0 <= k < s.len(),
        same_key(s[k], name, artist, album),
        forall|j: int| 0 <= j < k ==> !same_key(#[trigger] s[j], name, artist, album),
    ensures
        first_with_key(s, name, artist, album) == Some(k),
    decreases s.len(),
{
    if k < s.len() - 1 {
        lemma_first_with_key(s.drop_last(), name, artist, album, k);
    } else {
        lemma_no_key(s.drop_last(), name, artist, album);
    }
}

proof fn lemma_no_key(
    s: Seq<FailedMatch>,
    name: Seq<char>,
    artist: Option<Seq<char>>,
    album: Option<Seq<char>>,
)
    requires
        forall|j: int| 0 <= j < s.len() ==> !same_key(#[trigger] s[j], name, artist, album),
    ensures
        first_with_key(s, name, artist, album) is None,
    decreases s.len(),
{
    if s.len() > 0 {
        lemma_no_key(s.drop_last(), name, artist, album);
    }
}

proof fn lemma_sum_attempts_prefix(s: Seq<FailedDownload>, i: int)
    requires
        0 <= i <= s.len(),
    ensures
        sum_attempts(s.take(i)) <= sum_attempts(s),
    decreases s.len() - i,
{
    if i < s.len() {
        lemma_sum_attempts_prefix(s, i + 1);
        assert(s.take(i + 1).drop_last() =~= s.take(i));
    } else {
        assert(s.take(i) =~= s);
    }
}

} // verus!
