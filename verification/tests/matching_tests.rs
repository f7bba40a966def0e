use squid_downloader::matching::{
    attempt_track_only, attempt_with_artist, candidate_features, compare_texts, dedup_by_id,
    filter_music, identifier_query, is_excluded_as_talk, talk_excluded, merge_candidates, retry_query,
    version_penalty_hundredths, absorb_search, kept_after_lookup, next_stage, planned_searches,
    CsvTrack, SearchStage, TextMatch,
};
use squid_downloader::error::DownloadError;
use squid_downloader::types::TrackInfo;

fn row(name: &str, artist: &str) -> CsvTrack {
    CsvTrack {
        track_name: name.to_string(),
        artist_name: artist.to_string(),
        album: None,
        playlist_name: None,
        track_type: None,
        isrc: None,
        spotify_id: None,
    }
}

fn cand(id: u64, title: &str, artist: &str, album: Option<&str>) -> TrackInfo {
    TrackInfo {
        id,
        title: title.to_string(),
        artist: artist.to_string(),
        album: album.map(|a| a.to_string()),
        duration: None,
        quality: None,
        cover_url: None,
        isrc: None,
        spotify_id: None,
        album_id: None,
    }
}

#[test]
fn artists_split_on_separators() {
    assert_eq!(row("x", "Avicii, Aloe Blacc").parse_artists(), vec!["Avicii", "Aloe Blacc"]);
    assert_eq!(
        row("x", "Simon & Garfunkel/Paul Simon; Art").parse_artists(),
        vec!["Simon", "Garfunkel", "Paul Simon", "Art"]
    );
    assert_eq!(row("x", "Kate Bush").parse_artists(), vec!["Kate Bush"]);
}

#[test]
fn artists_without_names_keep_the_field() {
    assert_eq!(row("x", " , & ").parse_artists(), vec![" , & "]);
    assert_eq!(row("x", "").parse_artists(), vec![""]);
    assert_eq!(row("x", "A,,B").parse_artists(), vec!["A", "B"]);
}

#[test]
fn dedup_sorts_by_id_and_keeps_first() {
    let v = vec![
        cand(5, "first five", "a", None),
        cand(2, "two", "a", None),
        cand(5, "second five", "a", None),
        cand(9, "nine", "a", None),
    ];
    let d = dedup_by_id(&v);
    let ids: Vec<u64> = d.iter().map(|t| t.id).collect();
    assert_eq!(ids, vec![2, 5, 9]);
    assert_eq!(d[1].title, "first five");
}

#[test]
fn merge_prefers_identifier_results() {
    let general = vec![cand(3, "g", "a", None), cand(1, "g", "a", None)];
    let by_id = vec![cand(8, "i", "a", None), cand(8, "j", "a", None)];
    let m = merge_candidates(&general, &by_id);
    assert_eq!(m.len(), 1);
    assert_eq!(m[0].title, "i");
    let m = merge_candidates(&general, &vec![]);
    let ids: Vec<u64> = m.iter().map(|t| t.id).collect();
    assert_eq!(ids, vec![1, 3]);
}

#[test]
fn talk_is_left_out_unless_asked_for() {
    let podcast = cand(1, "The Podcast Episode 4", "x", Some("Shows"));
    let song = cand(2, "Levels", "Avicii", Some("Levels"));
    let in_album = cand(3, "Chapter 1", "x", Some("Some Podcast"));
    assert!(is_excluded_as_talk(&podcast, "levels"));
    assert!(!is_excluded_as_talk(&podcast, "podcast episode"));
    assert!(is_excluded_as_talk(&in_album, "levels"));
    let kept = filter_music(&vec![podcast, song, in_album], "levels");
    assert_eq!(kept.len(), 1);
    assert_eq!(kept[0].id, 2);
}

#[test]
fn search_attempt_texts() {
    assert_eq!(attempt_with_artist("Levels", "Avicii"), "'Levels' by 'Avicii'");
    assert_eq!(attempt_track_only("Levels"), "'Levels' (track only)");
    assert_eq!(retry_query("Levels", "Avicii"), "Levels Avicii");
}

#[test]
fn identifier_queries_skip_blank_ids() {
    assert_eq!(identifier_query(&Some("GBCNR8500002".to_string())).as_deref(), Some("GBCNR8500002"));
    assert_eq!(identifier_query(&Some("   ".to_string())), None);
    assert_eq!(identifier_query(&None), None);
}

#[test]
fn text_comparisons() {
    assert_eq!(compare_texts("levels", "levels"), TextMatch::Exact);
    assert_eq!(compare_texts("levels (radio edit)", "levels"), TextMatch::Contained);
    assert_eq!(compare_texts("lev", "levels"), TextMatch::Contained);
    assert_eq!(compare_texts("wake me up", "levels"), TextMatch::Fuzzy);
}

#[test]
fn version_penalties_in_hundredths() {
    assert_eq!(version_penalty_hundredths("levels", "levels"), 0);
    assert_eq!(version_penalty_hundredths("levels - live at ultra", "levels"), 25);
    assert_eq!(version_penalty_hundredths("levels - remix", "levels"), 20);
    assert_eq!(version_penalty_hundredths("levels - remix", "levels remix"), 0);
    assert_eq!(version_penalty_hundredths("levels - radio edit", "levels"), 15);
    assert_eq!(version_penalty_hundredths("levels (demo)", "levels"), 20);
    assert_eq!(version_penalty_hundredths("an interview", "levels"), 150);
    assert_eq!(version_penalty_hundredths("an interview", "the interview"), 25);
}

#[test]
fn features_of_an_exact_candidate() {
    let mut r = row("Levels", "Avicii & Friend");
    r.album = Some("Levels".to_string());
    r.isrc = Some("SE123".to_string());
    let f = candidate_features(&cand(1, "Levels", "Avicii", Some("Greatest Hits")), &r);
    assert_eq!(f.title_lower, "levels");
    assert_eq!(f.csv_title_lower, "levels");
    assert_eq!(f.title_match, TextMatch::Exact);
    assert_eq!(f.version_penalty, 0);
    assert!(!f.remaster_bonus);
    assert_eq!(f.artist_lower, "avicii");
    assert!(f.artist_compared);
    assert_eq!(f.csv_artists_lower, vec!["avicii", "friend"]);
    assert_eq!(f.artist_contained, vec![true, false]);
    let a = f.album.expect("the candidate has an album");
    assert_eq!(a.album_lower, "greatest hits");
    assert!(a.compilation);
    assert_eq!(a.csv_album_match, Some(TextMatch::Fuzzy));
    assert!(!a.talk_penalty);
    assert!(!f.taylor_bonus);
    assert!(f.identifier_title_bonus);
    assert!(f.identifier_artist_bonus);
}

#[test]
fn features_of_a_remaster_without_identifier() {
    let f = candidate_features(&cand(1, "Levels - Remastered 2021", "", None), &row("Love Story (Taylor's Version)", "Taylor Swift"));
    assert!(f.remaster_bonus);
    assert!(!f.artist_compared);
    assert!(f.album.is_none());
    assert!(!f.taylor_bonus);
    assert!(!f.identifier_title_bonus);
    assert!(!f.identifier_artist_bonus);
}

#[test]
fn searched_album_is_kept_lower_cased() {
    let mut r = row("Levels", "Avicii");
    r.album = Some("True (Deluxe)".to_string());
    let f = candidate_features(&cand(1, "Levels", "Avicii", Some("True")), &r);
    let a = f.album.expect("the candidate has an album");
    assert_eq!(a.csv_album_lower.as_deref(), Some("true (deluxe)"));
    assert_eq!(a.csv_album_match, Some(TextMatch::Contained));
}

#[test]
fn talk_from_lower_cased_texts() {
    assert!(talk_excluded("my podcast", "", "song"));
    assert!(talk_excluded("chapter", "a podcast", "song"));
    assert!(!talk_excluded("chapter", "a podcast", "the episode"));
    assert!(!talk_excluded("song", "album", "song"));
}

#[test]
fn title_searches_go_artist_by_artist_then_title_alone() {
    let r = planned_searches(&row("Levels", "Avicii & Nicky Romero"));
    assert_eq!(r.len(), 3);
    assert_eq!(r[0].query, "Levels");
    assert_eq!(r[0].artist.as_deref(), Some("Avicii"));
    assert_eq!(r[0].attempt, "'Levels' by 'Avicii'");
    assert_eq!(r[1].artist.as_deref(), Some("Nicky Romero"));
    assert_eq!(r[1].attempt, "'Levels' by 'Nicky Romero'");
    assert_eq!(r[2].query, "Levels");
    assert!(r[2].artist.is_none());
    assert_eq!(r[2].attempt, "'Levels' (track only)");
}

#[test]
fn search_results_are_kept_and_failures_sorted() {
    let mut pool = vec![cand(1, "A", "X", None)];
    assert!(absorb_search(Ok(vec![cand(2, "B", "X", None), cand(3, "C", "X", None)]), &mut pool).is_ok());
    assert_eq!(pool.iter().map(|t| t.id).collect::<Vec<_>>(), vec![1, 2, 3]);
    assert!(absorb_search(Err(DownloadError::TrackNotFound("x".to_string())), &mut pool).is_ok());
    assert_eq!(pool.len(), 3);
    assert!(matches!(absorb_search(Err(DownloadError::RateLimited), &mut pool), Err(DownloadError::RateLimited)));
    assert_eq!(pool.len(), 3);
}

#[test]
fn search_stages_in_order() {
    // Two title searches, an ISRC and a Spotify id; the ISRC search finds nothing.
    let mut s = SearchStage::Title(0);
    let mut seen = vec![s];
    while s != SearchStage::Done {
        s = next_stage(s, 2, true, true, 0);
        seen.push(s);
    }
    assert_eq!(
        seen,
        vec![SearchStage::Title(0), SearchStage::Title(1), SearchStage::Isrc, SearchStage::Spotify, SearchStage::Done]
    );
    // The ISRC search found a track: no Spotify search.
    assert_eq!(next_stage(SearchStage::Isrc, 2, true, true, 1), SearchStage::Done);
    // No ISRC: the Spotify search follows the title searches.
    assert_eq!(next_stage(SearchStage::Title(1), 2, false, true, 0), SearchStage::Spotify);
    assert_eq!(next_stage(SearchStage::Title(0), 1, false, false, 0), SearchStage::Done);
}

#[test]
fn failed_lookup_keeps_the_search_result() {
    let found = cand(7, "Levels", "Avicii", None);
    let full = cand(7, "Levels", "Avicii", Some("True"));
    assert_eq!(kept_after_lookup(found.clone(), Ok(full)).album.as_deref(), Some("True"));
    assert!(kept_after_lookup(found, Err(DownloadError::RateLimited)).album.is_none());
}
