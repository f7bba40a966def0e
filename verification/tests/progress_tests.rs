use squid_downloader::progress::{DownloadProgress, FailedMatch};
use squid_downloader::types::{AudioQuality, TrackInfo};

fn track(id: u64, title: &str) -> TrackInfo {
    TrackInfo {
        id,
        title: title.to_string(),
        artist: "Kate Bush".to_string(),
        album: Some("Hounds Of Love".to_string()),
        duration: Some(300),
        quality: Some(AudioQuality::Lossless),
        cover_url: Some("https://example.org/c.jpg".to_string()),
        isrc: None,
        spotify_id: None,
        album_id: None,
    }
}

fn fresh() -> DownloadProgress {
    DownloadProgress::starting_at("tracks.csv", 3, "2024-01-01T00:00:00+00:00".to_string())
}

#[test]
fn new_record_is_empty() {
    let p = DownloadProgress::new("tracks.csv", 7);
    assert_eq!(p.source, "tracks.csv");
    assert_eq!(p.total, 7);
    assert_eq!(p.successful, 0);
    assert!(p.failed.is_empty());
    assert!(p.completed_at.is_none());
    assert!(p.failed_matches.is_empty());
    assert_eq!(p.get_completed_count(), 0);
    assert!(!p.has_failures());
    assert_eq!(p.total_failed(), 0);
    assert_eq!(p.retry_count(), 0);
    assert!(!p.started_at.is_empty());
}

#[test]
fn starting_at_keeps_the_start_time() {
    let p = fresh();
    assert_eq!(p.started_at, "2024-01-01T00:00:00+00:00");
    assert_eq!(p.total, 3);
}

#[test]
fn marked_track_is_completed_once() {
    let mut p = fresh();
    assert!(!p.is_completed(42));
    p.mark_completed(42);
    assert!(p.is_completed(42));
    p.mark_completed(42);
    assert_eq!(p.get_completed_count(), 1);
    p.mark_completed(7);
    assert_eq!(p.completed_track_ids, vec![42, 7]);
    assert!(!p.is_completed(8));
}

#[test]
fn matched_row_is_marked_once() {
    let mut p = fresh();
    p.mark_csv_matched(2);
    p.mark_csv_matched(2);
    assert!(p.is_csv_matched(2));
    assert!(!p.is_csv_matched(0));
    assert_eq!(p.matched_csv_indices, vec![2]);
}

#[test]
fn added_match_is_read_back() {
    let mut p = fresh();
    let t = track(11, "Running Up That Hill");
    let conf = 0.93f64;
    p.add_matched_track(1, &t, conf.to_bits(), "Running Up That Hill", "Kate Bush", Some("Hounds Of Love"), Some("Favorite Songs"));
    assert!(p.is_csv_matched(1));
    let m = p.get_matched_track(1).expect("the match is recorded");
    assert_eq!(m.track_id, 11);
    assert_eq!(m.track_title, "Running Up That Hill");
    assert_eq!(m.track_artist, "Kate Bush");
    assert_eq!(m.album.as_deref(), Some("Hounds Of Love"));
    assert_eq!(m.cover_url.as_deref(), Some("https://example.org/c.jpg"));
    assert_eq!(f64::from_bits(m.confidence_bits), 0.93);
    assert_eq!(m.csv_index, 1);
    assert_eq!(m.csv_track_name, "Running Up That Hill");
    assert_eq!(m.csv_artist_name, "Kate Bush");
    assert_eq!(m.csv_album.as_deref(), Some("Hounds Of Love"));
    assert_eq!(m.playlist_name.as_deref(), Some("Favorite Songs"));
    assert!(p.get_matched_track(0).is_none());
}

#[test]
fn first_match_of_a_row_stays_the_one_found() {
    let mut p = fresh();
    p.add_matched_track(0, &track(1, "A"), 0, "A", "X", None, None);
    p.add_matched_track(0, &track(2, "B"), 0, "B", "X", None, None);
    assert_eq!(p.matched_tracks.len(), 2);
    assert_eq!(p.matched_csv_indices, vec![0]);
    assert_eq!(p.get_matched_track(0).map(|m| m.track_id), Some(1));
}

#[test]
fn successes_are_counted() {
    let mut p = fresh();
    p.add_success();
    p.add_success();
    assert_eq!(p.successful, 2);
}

#[test]
fn failure_is_recorded_with_one_attempt() {
    let mut p = fresh();
    p.add_failure(&track(5, "Bleed"), Some("Bleed"), "timeout".to_string());
    assert!(p.has_failures());
    assert_eq!(p.failed.len(), 1);
    let f = &p.failed[0];
    assert_eq!(f.track_id, 5);
    assert_eq!(f.track_title, "Bleed");
    assert_eq!(f.track_artist, "Kate Bush");
    assert_eq!(f.album.as_deref(), Some("Bleed"));
    assert_eq!(f.error, "timeout");
    assert_eq!(f.attempts, 1);
    assert_eq!(p.retry_count(), 1);
    p.add_failure(&track(6, "Other"), None, "gone".to_string());
    assert_eq!(p.retry_count(), 2);
    assert_eq!(p.total_failed(), 2);
}

#[test]
fn repeated_failed_match_counts_attempts() {
    let mut p = fresh();
    p.add_failed_match("Bleed", Some("Connor Kauffman"), Some("Bleed"));
    p.add_failed_match("Bleed", Some("Connor Kauffman"), Some("Bleed"));
    p.add_failed_match("Bleed", Some("Connor Kauffman"), None);
    let fm: &[FailedMatch] = p.get_failed_matches();
    assert_eq!(fm.len(), 2);
    assert_eq!(fm[0].track_name, "Bleed");
    assert_eq!(fm[0].artist.as_deref(), Some("Connor Kauffman"));
    assert_eq!(fm[0].album.as_deref(), Some("Bleed"));
    assert_eq!(fm[0].attempts, 2);
    assert!(fm[0].search_attempts.is_empty());
    assert_eq!(fm[1].album, None);
    assert_eq!(fm[1].attempts, 1);
    assert_eq!(p.total_failed(), 2);
    assert!(!p.has_failures());
}

#[test]
fn total_failed_counts_both_kinds() {
    let mut p = fresh();
    p.add_failed_match("A", None, None);
    p.add_failure(&track(1, "B"), None, "e".to_string());
    assert_eq!(p.total_failed(), 2);
}

#[test]
fn saved_match_restores_track_and_row() {
    let mut p = fresh();
    p.add_matched_track(4, &track(77, "Cloudbusting"), 0, "Cloudbusting", "Kate Bush", None, Some("Mix"));
    let m = p.get_matched_track(4).expect("recorded");
    let t = m.restored_track();
    assert_eq!(t.id, 77);
    assert_eq!(t.title, "Cloudbusting");
    assert_eq!(t.artist, "Kate Bush");
    assert_eq!(t.album.as_deref(), Some("Hounds Of Love"));
    assert!(t.cover_url.is_none());
    assert!(t.duration.is_none());
    let r = m.restored_row();
    assert_eq!(r.track_name, "Cloudbusting");
    assert_eq!(r.artist_name, "Kate Bush");
    assert!(r.album.is_none());
    assert_eq!(r.playlist_name.as_deref(), Some("Mix"));
    assert!(r.isrc.is_none());
}

#[test]
fn pending_downloads_skip_completed_tracks() {
    let mut p = fresh();
    p.mark_completed(20);
    assert_eq!(p.pending_positions(&vec![10, 20, 30, 20]), vec![0, 2]);
    assert_eq!(p.pending_positions(&vec![]), Vec::<usize>::new());
}

#[test]
fn resumed_rows_restore_their_first_saved_match() {
    let mut p = fresh();
    p.add_matched_track(2, &track(5, "E"), 0, "E", "X", None, None);
    p.add_matched_track(0, &track(1, "A"), 0, "A", "X", None, None);
    p.add_matched_track(0, &track(2, "B"), 0, "B", "X", None, None);
    let plan = p.restore_plan(&vec![false, false, false]);
    assert_eq!(plan, vec![Some(1), None, Some(0)]);
    let plan = p.restore_plan(&vec![true, false, false, false]);
    assert_eq!(plan, vec![None, None, Some(0), None]);
}

#[test]
fn new_record_is_stamped_in_utc() {
    let p = DownloadProgress::new("tracks.csv", 1);
    assert!(p.started_at.len() >= 25);
    assert!(p.started_at.ends_with("+00:00"));
    assert_eq!(p.started_at.as_bytes()[10], b'T');
}
