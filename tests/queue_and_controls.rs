use espot::{
    make_artists_string, CacheHandler, EngineCommand, EngineEvent, PlayerControl,
    PlayerStateUpdate, SpotifyWorker, StepOutcome, TrackInfo, WorkerError,
};
use nanorand::WyRand;

fn uri(n: u32) -> String {
    format!("spotify:track:{:0>22}", n)
}

fn track(n: u32) -> TrackInfo {
    TrackInfo {
        id: uri(n),
        name: format!("Song {}", n),
        duration_ms: 1000 * n as u128,
        artists: vec![format!("Artist {}", n)],
        album_id: format!("spotify:album:{:0>22}", n),
        album_name: format!("Album {}", n),
        album_images: vec![(300, format!("https://img/{}", n))],
    }
}

fn logged_in() -> SpotifyWorker {
    let mut w = SpotifyWorker::new(CacheHandler::new());
    assert!(w.complete_login(true));
    w
}

fn nothing() -> StepOutcome {
    StepOutcome { commands: vec![], update: None }
}

fn load(t: &TrackInfo) -> StepOutcome {
    StepOutcome {
        commands: vec![EngineCommand::Load { uri: t.id.clone(), autoplay: true, position_ms: 0 }],
        update: Some(PlayerStateUpdate::EndOfTrack(t.clone())),
    }
}

#[test]
fn shuffle_keeps_every_track() {
    let mut rng = WyRand::new_seed(7);
    let items: Vec<u32> = (0..40).collect();
    let mut out = espot::shuffle(&mut rng, items.clone());
    assert_eq!(out.len(), 40);
    out.sort();
    assert_eq!(out, items);
}

#[test]
fn shuffle_of_nothing_is_nothing() {
    let mut rng = WyRand::new_seed(1);
    let out: Vec<u32> = espot::shuffle(&mut rng, vec![]);
    assert!(out.is_empty());
}

#[test]
fn shuffle_reorders_at_some_seed() {
    let items: Vec<u32> = (0..20).collect();
    let mut moved = false;
    for seed in 0..10u64 {
        let mut rng = WyRand::new_seed(seed);
        if espot::shuffle(&mut rng, items.clone()) != items {
            moved = true;
        }
    }
    assert!(moved);
}

#[test]
fn next_wraps_around_three_tracks() {
    let mut w = logged_in();
    let mut rng = WyRand::new_seed(3);
    let (a, b, c) = (track(1), track(2), track(3));
    let out = w.start_playlist_task(vec![a.clone(), b.clone(), c.clone()]).unwrap();
    assert_eq!(out, load(&a));
    assert_eq!(w.queue().current(), 0);
    assert_eq!(w.handle_control(&mut rng, PlayerControl::NextTrack), load(&b));
    assert_eq!(w.queue().current(), 1);
    assert_eq!(w.handle_control(&mut rng, PlayerControl::NextTrack), load(&c));
    assert_eq!(w.queue().current(), 2);
    assert_eq!(w.handle_control(&mut rng, PlayerControl::NextTrack), load(&a));
    assert_eq!(w.queue().current(), 0);
}

#[test]
fn previous_wraps_to_last() {
    let mut w = logged_in();
    let mut rng = WyRand::new_seed(3);
    let tracks = vec![track(1), track(2), track(3)];
    w.start_playlist_task(tracks.clone()).unwrap();
    assert_eq!(w.handle_control(&mut rng, PlayerControl::PreviousTrack), load(&tracks[2]));
    assert_eq!(w.queue().current(), 2);
}

#[test]
fn next_then_previous_returns_to_cursor() {
    let mut rng = WyRand::new_seed(9);
    for n in 1..5u32 {
        for c in 0..n as usize {
            let mut w = logged_in();
            let tracks: Vec<TrackInfo> = (0..n).map(track).collect();
            w.start_playlist_at_idx_task(tracks, c).unwrap();
            w.handle_control(&mut rng, PlayerControl::NextTrack);
            w.handle_control(&mut rng, PlayerControl::PreviousTrack);
            assert_eq!(w.queue().current(), c);
            w.handle_control(&mut rng, PlayerControl::PreviousTrack);
            w.handle_control(&mut rng, PlayerControl::NextTrack);
            assert_eq!(w.queue().current(), c);
        }
    }
}

#[test]
fn single_track_queue_wraps_to_itself() {
    let mut w = logged_in();
    let mut rng = WyRand::new_seed(3);
    let t = track(5);
    w.start_playlist_task(vec![t.clone()]).unwrap();
    assert_eq!(w.handle_control(&mut rng, PlayerControl::NextTrack), load(&t));
    assert_eq!(w.queue().current(), 0);
}

#[test]
fn start_at_track_lands_on_anchor() {
    let mut rng = WyRand::new_seed(11);
    for _ in 0..5 {
        let mut w = logged_in();
        let tracks: Vec<TrackInfo> = (0..8).map(track).collect();
        let anchor = track(5);
        let out = w.handle_control(
            &mut rng,
            PlayerControl::StartPlaylistAtTrack(tracks, anchor.clone()),
        );
        let q = w.queue();
        assert_eq!(q.len(), 8);
        assert_eq!(q.track(q.current()).id, anchor.id);
        assert_eq!(out, load(&anchor));
    }
}

#[test]
fn start_at_absent_track_starts_at_zero() {
    let mut rng = WyRand::new_seed(12);
    let mut w = logged_in();
    let tracks: Vec<TrackInfo> = (0..6).map(track).collect();
    let out = w.handle_control(&mut rng, PlayerControl::StartPlaylistAtTrack(tracks, track(99)));
    assert_eq!(w.queue().current(), 0);
    let first = w.queue().track(0).clone();
    assert_eq!(out, load(&first));
}

#[test]
fn start_playlist_shuffles_into_queue() {
    let mut rng = WyRand::new_seed(13);
    let mut w = logged_in();
    let tracks: Vec<TrackInfo> = (0..10).map(track).collect();
    w.handle_control(&mut rng, PlayerControl::StartPlaylist(tracks.clone()));
    let q = w.queue();
    let mut ids: Vec<String> = (0..q.len()).map(|i| q.track(i).id.clone()).collect();
    ids.sort();
    let mut expected: Vec<String> = tracks.iter().map(|t| t.id.clone()).collect();
    expected.sort();
    assert_eq!(ids, expected);
    assert_eq!(q.current(), 0);
}

#[test]
fn start_with_bad_id_changes_nothing() {
    let mut w = logged_in();
    let mut bad = track(1);
    bad.id = "spotify:track:short".to_string();
    assert_eq!(w.start_playlist_task(vec![bad]).unwrap_err(), WorkerError::BadSpotifyId);
    assert!(w.queue().is_empty());
}

#[test]
fn start_without_player_fails() {
    let mut w = SpotifyWorker::new(CacheHandler::new());
    assert_eq!(w.start_playlist_task(vec![track(1)]).unwrap_err(), WorkerError::NoSpotifyPlayer);
    assert!(w.queue().is_empty());
}

#[test]
fn failed_login_leaves_controls_without_effect() {
    let mut w = SpotifyWorker::new(CacheHandler::new());
    assert!(!w.complete_login(false));
    let mut rng = WyRand::new_seed(5);
    let controls = vec![
        PlayerControl::Play,
        PlayerControl::Pause,
        PlayerControl::Stop,
        PlayerControl::PlayPause,
        PlayerControl::StartPlaylist(vec![track(1), track(2)]),
        PlayerControl::StartPlaylistAtTrack(vec![track(1)], track(1)),
        PlayerControl::NextTrack,
        PlayerControl::PreviousTrack,
    ];
    for c in controls {
        assert_eq!(w.handle_control(&mut rng, c), nothing());
        assert!(w.queue().is_empty());
    }
    assert_eq!(w.plan_track_fetch(&vec![uri(1)]).unwrap_err(), WorkerError::NoAPIClient);
}

#[test]
fn transport_controls_follow_pause_flag() {
    let mut w = logged_in();
    let mut rng = WyRand::new_seed(5);
    let play = StepOutcome {
        commands: vec![EngineCommand::Play],
        update: Some(PlayerStateUpdate::Resumed),
    };
    let pause = StepOutcome {
        commands: vec![EngineCommand::Pause],
        update: Some(PlayerStateUpdate::Paused),
    };
    assert_eq!(w.handle_control(&mut rng, PlayerControl::Play), play);
    assert_eq!(w.handle_control(&mut rng, PlayerControl::Pause), pause);
    assert_eq!(
        w.handle_control(&mut rng, PlayerControl::Stop),
        StepOutcome { commands: vec![EngineCommand::Stop], update: Some(PlayerStateUpdate::Stopped) }
    );
    assert_eq!(w.handle_control(&mut rng, PlayerControl::PlayPause), play);
    assert_eq!(w.handle_event(EngineEvent::Playing), nothing());
    assert_eq!(w.handle_control(&mut rng, PlayerControl::PlayPause), pause);
    w.handle_event(EngineEvent::Paused);
    assert_eq!(w.handle_control(&mut rng, PlayerControl::PlayPause), play);
    w.handle_event(EngineEvent::Started);
    assert_eq!(w.handle_control(&mut rng, PlayerControl::PlayPause), pause);
}

#[test]
fn preload_names_next_track_without_moving() {
    let mut w = logged_in();
    let tracks = vec![track(1), track(2)];
    w.start_playlist_at_idx_task(tracks.clone(), 1).unwrap();
    let out = w.handle_event(EngineEvent::TimeToPreloadNextTrack);
    assert_eq!(out, StepOutcome { commands: vec![EngineCommand::Preload { uri: uri(1) }], update: None });
    assert_eq!(w.queue().current(), 1);
}

#[test]
fn end_of_track_moves_on_and_plays() {
    let mut w = logged_in();
    let tracks = vec![track(1), track(2)];
    w.start_playlist_task(tracks.clone()).unwrap();
    let out = w.handle_event(EngineEvent::EndOfTrack);
    assert_eq!(
        out,
        StepOutcome {
            commands: vec![
                EngineCommand::Load { uri: uri(2), autoplay: true, position_ms: 0 },
                EngineCommand::Play,
            ],
            update: Some(PlayerStateUpdate::EndOfTrack(tracks[1].clone())),
        }
    );
    assert_eq!(w.queue().current(), 1);
    w.handle_event(EngineEvent::EndOfTrack);
    assert_eq!(w.queue().current(), 0);
}

#[test]
fn events_on_empty_queue_do_nothing() {
    let mut w = logged_in();
    assert_eq!(w.handle_event(EngineEvent::EndOfTrack), nothing());
    assert_eq!(w.handle_event(EngineEvent::TimeToPreloadNextTrack), nothing());
    assert_eq!(w.handle_event(EngineEvent::Other), nothing());
    assert_eq!(w.queue().current(), 0);
}

#[test]
fn artists_joined_with_commas() {
    assert_eq!(make_artists_string(&[]), "");
    assert_eq!(make_artists_string(&["Solo".to_string()]), "Solo");
    let names = vec!["A".to_string(), "B".to_string(), "C".to_string()];
    assert_eq!(make_artists_string(&names), "A, B, C");
}

#[test]
fn play_queue_steps_with_wrap() {
    let mut q = espot::PlayQueue::starting_at(vec![track(1), track(2), track(3)], 2);
    assert_eq!(q.next_index(), 0);
    q.next();
    assert_eq!(q.current(), 0);
    q.previous();
    assert_eq!(q.current(), 2);
    q.previous();
    assert_eq!(q.current(), 1);
    assert!(espot::PlayQueue::new().is_empty());
}

#[test]
fn find_track_gives_first_match_or_zero() {
    let mut tracks = vec![track(1), track(2), track(2)];
    tracks[2].name = "duplicate".to_string();
    assert_eq!(espot::find_track(&tracks, &uri(2)), 1);
    assert_eq!(espot::find_track(&tracks, &uri(9)), 0);
}

#[test]
fn arrange_follows_picks() {
    // picks [1, 0, 0] on [a, b, c]: take b (c moves to 1) -> [a, c]; take a -> [c]; take c.
    let out = espot::arrange(vec!['a', 'b', 'c'], &vec![1, 0, 0]);
    assert_eq!(out, vec!['b', 'a', 'c']);
    let out = espot::arrange(vec!['a', 'b', 'c', 'd'], &vec![0, 0, 1, 0]);
    // take a (d moves to 0) -> [d, b, c]; take d (c moves to 0) -> [c, b]; take b -> [c]; take c.
    assert_eq!(out, vec!['a', 'd', 'b', 'c']);
    let none: Vec<u8> = espot::arrange(vec![], &vec![]);
    assert!(none.is_empty());
}

#[test]
fn arrange_with_last_picks_keeps_order_reversed() {
    let out = espot::arrange(vec![1, 2, 3, 4], &vec![3, 2, 1, 0]);
    assert_eq!(out, vec![4, 3, 2, 1]);
}
