use espot::{
    cover_file_name, select_cover_image, spotify_uri_valid, trim_string, APILoginError,
    CacheHandler, SpotifyWorker, TrackInfo, TrackRecord, WorkerError, PREFERRED_COVER_SIZE,
};
use nanorand::WyRand;

fn uri(n: u32) -> String {
    format!("spotify:track:{:0>22}", n)
}

fn record(id: &str) -> TrackRecord {
    TrackRecord {
        id: Some(id.to_string()),
        name: format!("Name of {}", id),
        duration_ms: 200_000,
        artists: vec!["X".to_string(), "Y".to_string()],
        album_id: Some("spotify:album:0000000000000000000001".to_string()),
        album_name: "Album".to_string(),
        album_images: vec![(Some(640), "big".to_string()), (None, "unsized".to_string())],
    }
}

fn logged_in() -> SpotifyWorker {
    let mut w = SpotifyWorker::new(CacheHandler::new());
    w.complete_login(true);
    w
}

#[test]
fn track_info_from_record() {
    let t = TrackInfo::new(record("spotify:track:abc")).unwrap();
    assert_eq!(t.id, "spotify:track:abc");
    assert_eq!(t.name, "Name of spotify:track:abc");
    assert_eq!(t.duration_ms, 200_000);
    assert_eq!(t.artists, vec!["X".to_string(), "Y".to_string()]);
    assert_eq!(t.album_id, "spotify:album:0000000000000000000001");
    assert_eq!(t.album_images, vec![(640, "big".to_string()), (0, "unsized".to_string())]);
}

#[test]
fn track_info_needs_both_ids() {
    let mut r = record("spotify:track:abc");
    r.id = None;
    assert!(TrackInfo::new(r).is_none());
    let mut r = record("spotify:track:abc");
    r.album_id = None;
    assert!(TrackInfo::new(r).is_none());
}

#[test]
fn cache_round_trip() {
    let mut cache = CacheHandler::new();
    assert!(!cache.is_dirty());
    let t = TrackInfo::new(record(&uri(1))).unwrap();
    cache.store(t.clone());
    assert!(cache.is_dirty());
    assert_eq!(cache.get_track_info(&uri(1)), Some(t));
    assert_eq!(cache.get_track_info(&uri(2)), None);
    cache.mark_saved();
    assert!(!cache.is_dirty());
}

#[test]
fn cache_store_replaces_same_id() {
    let mut cache = CacheHandler::new();
    let mut a = TrackInfo::new(record(&uri(1))).unwrap();
    cache.store(a.clone());
    a.name = "Renamed".to_string();
    cache.store(a.clone());
    assert_eq!(cache.entries().len(), 1);
    assert_eq!(cache.get_track_info(&uri(1)).unwrap().name, "Renamed");
}

#[test]
fn cache_track_info_skips_incomplete_record() {
    let mut cache = CacheHandler::new();
    let mut r = record(&uri(1));
    r.album_id = None;
    assert!(cache.cache_track_info(r).is_none());
    assert!(!cache.is_dirty());
    assert!(cache.cache_track_info(record(&uri(2))).is_some());
    assert!(cache.contains(&uri(2)));
}

#[test]
fn cover_choice_prefers_unsized_or_preferred() {
    let images = vec![
        (640, "a".to_string()),
        (300, "b".to_string()),
        (0, "c".to_string()),
    ];
    assert_eq!(select_cover_image(&images, PREFERRED_COVER_SIZE), Some(1));
    assert_eq!(select_cover_image(&images, 64), Some(2));
    assert_eq!(select_cover_image(&vec![(640, "a".to_string())], 300), None);
    assert_eq!(select_cover_image(&vec![], 300), None);
}

#[test]
fn cover_file_is_named_after_id() {
    assert_eq!(cover_file_name("spotify:album:xyz"), "cover-spotify:album:xyz");
}

#[test]
fn one_hundred_twenty_ids_make_three_batches() {
    let w = logged_in();
    let ids: Vec<String> = (0..120).map(uri).collect();
    let plan = w.plan_track_fetch(&ids).unwrap();
    assert_eq!(plan.uris, ids);
    let sizes: Vec<usize> = plan.batches.iter().map(|b| b.len()).collect();
    assert_eq!(sizes, vec![50, 50, 20]);
    assert_eq!(plan.batches[2][19], uri(119));
}

#[test]
fn second_fetch_needs_no_lookup() {
    let mut w = logged_in();
    let ids: Vec<String> = (0..60).map(uri).collect();
    let plan = w.plan_track_fetch(&ids).unwrap();
    let fetched: Vec<TrackRecord> =
        plan.batches.iter().flatten().map(|id| record(id)).collect();
    let tracks = w.complete_track_fetch(&plan, fetched);
    assert_eq!(tracks.len(), 60);
    assert!(w.cache().is_dirty());
    let again = w.plan_track_fetch(&ids).unwrap();
    assert!(again.batches.is_empty());
    let tracks2 = w.complete_track_fetch(&again, vec![]);
    assert_eq!(tracks, tracks2);
}

#[test]
fn fetch_keeps_original_order_with_hits_interleaved() {
    let mut w = logged_in();
    let first = w.plan_track_fetch(&vec![uri(2)]).unwrap();
    w.complete_track_fetch(&first, vec![record(&uri(2))]);
    w.mark_cache_saved();
    let ids = vec![uri(1), uri(2), uri(3)];
    let plan = w.plan_track_fetch(&ids).unwrap();
    assert_eq!(plan.batches, vec![vec![uri(1), uri(3)]]);
    let tracks = w.complete_track_fetch(&plan, vec![record(&uri(3)), record(&uri(1))]);
    let got: Vec<String> = tracks.iter().map(|t| t.id.clone()).collect();
    assert_eq!(got, ids);
}

#[test]
fn fetch_canonicalises_and_drops_invalid_ids() {
    let w = logged_in();
    let ids = vec![
        "spotify/track/abc".to_string(),
        "spotify:album:abc".to_string(),
        "nonsense".to_string(),
        "spotify:track:a-b".to_string(),
        "spotify:track:xyz".to_string(),
    ];
    let plan = w.plan_track_fetch(&ids).unwrap();
    assert_eq!(plan.uris, vec!["spotify:track:abc".to_string(), "spotify:track:xyz".to_string()]);
}

#[test]
fn fetch_without_client_fails() {
    let w = SpotifyWorker::new(CacheHandler::new());
    assert_eq!(w.plan_track_fetch(&vec![]).unwrap_err(), WorkerError::NoAPIClient);
}

#[test]
fn recommendation_seeds_are_at_most_five_valid_ids() {
    let w = logged_in();
    let mut rng = WyRand::new_seed(21);
    let mut ids: Vec<String> = (0..12).map(uri).collect();
    ids.push("bad".to_string());
    let seeds = w.recommendation_seeds(&mut rng, &ids).unwrap();
    assert_eq!(seeds.len(), 5);
    for s in &seeds {
        assert!(ids.contains(s));
    }
    let few = w.recommendation_seeds(&mut rng, &vec![uri(1), uri(2)]).unwrap();
    assert_eq!(few.len(), 2);
    let none = SpotifyWorker::new(CacheHandler::new());
    assert_eq!(none.recommendation_seeds(&mut rng, &ids).unwrap_err(), WorkerError::NoAPIClient);
}

#[test]
fn playlist_edit_checks_ids() {
    let w = logged_in();
    let ok = w.prepare_playlist_edit("spotify/track/abc", "spotify/playlist/P1").unwrap();
    assert_eq!(ok, ("spotify:track:abc".to_string(), "spotify:playlist:P1".to_string()));
    assert_eq!(
        w.prepare_playlist_edit("spotify:track:abc", "spotify:track:P1").unwrap_err(),
        WorkerError::BadSpotifyId
    );
    assert_eq!(
        w.prepare_playlist_edit("track", "spotify:playlist:P1").unwrap_err(),
        WorkerError::BadSpotifyId
    );
    let none = SpotifyWorker::new(CacheHandler::new());
    assert_eq!(
        none.prepare_playlist_edit("spotify:track:abc", "spotify:playlist:P1").unwrap_err(),
        WorkerError::NoAPIClient
    );
}

#[test]
fn playlist_listing_checks_session_and_ids() {
    let w = logged_in();
    let good = vec!["spotify:playlist:37i9dQZF1DXcBWIGoYBM5M".to_string()];
    assert_eq!(w.check_playlist_listing(&good), Ok(()));
    let bad = vec!["spotify:playlist:short".to_string()];
    assert_eq!(w.check_playlist_listing(&bad), Err(WorkerError::BadSpotifyId));
    let none = SpotifyWorker::new(CacheHandler::new());
    assert_eq!(none.check_playlist_listing(&good), Err(WorkerError::NoAPIClient));
}

#[test]
fn engine_uri_check() {
    assert!(spotify_uri_valid("spotify:track:4uLU6hMCjMI75M1A2tKUQC"));
    assert!(spotify_uri_valid("spotify:episode:4uLU6hMCjMI75M1A2tKUQC"));
    assert!(!spotify_uri_valid("spotify/track/4uLU6hMCjMI75M1A2tKUQC"));
    assert!(!spotify_uri_valid("spotify:track:4uLU6hMCjMI75M1A2tKUQ"));
    assert!(!spotify_uri_valid("spotify:track:4uLU6hMCjMI75M1A2tKU-C"));
    assert!(!spotify_uri_valid("spotify:track:zzzzzzzzzzzzzzzzzzzzzz"));
    assert!(spotify_uri_valid("spotify:track:7N42dgm5tFLK9N3KEdLdFz"));
    assert!(!spotify_uri_valid(""));
    assert!(spotify_uri_valid("spotify:track:7N42dgm5tFLK9N8MT7fHC7"));
    assert!(!spotify_uri_valid("spotify:track:7N42dgm5tFLK9N8MT7fHC8"));
}

#[test]
fn error_messages() {
    assert_eq!(WorkerError::NoAPIClient.to_string(), "A Spotify API client wasn't created.");
    assert_eq!(WorkerError::NoSpotifyPlayer.to_string(), "A Spotify player wasn't created.");
    assert_eq!(WorkerError::NoSpotifySession.to_string(), "A Spotify session wasn't created.");
    assert_eq!(WorkerError::BadSpotifyId.to_string(), "An invalid Spotify ID was provided.");
    assert_eq!(APILoginError::OAuth.to_string(), "Failed to load OAuth data from .env file");
    assert_eq!(APILoginError::Token.to_string(), "Failed to parse response token");
    assert_eq!(
        APILoginError::Credentials.to_string(),
        "Failed to load credentials from .env file"
    );
}

#[test]
fn trim_long_text() {
    let mut s = "Hello, world".to_string();
    assert!(trim_string(8, &mut s));
    assert_eq!(s, "Hello...");
    let mut short = "Hi".to_string();
    assert!(!trim_string(8, &mut short));
    assert_eq!(short, "Hi");
    let mut exact = "abcd".to_string();
    assert!(trim_string(4, &mut exact));
    assert_eq!(exact, "a...");
}
