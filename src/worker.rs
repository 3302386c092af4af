//! The playback worker as a state machine. It owns the play queue, the
//! metadata cache and what is known of the session, and turns each control,
//! engine event and task into a new state plus the engine commands and state
//! notifications that the caller carries out. The caller runs the polling
//! loop, talks to the network and the engine, and hands the results back.

use crate::cache::{CacheHandler, CacheView};
use crate::error::WorkerError;
use crate::fetch::{
    any_converts, batches_of, batches_view, canonical_track_uris, canonical_uris, into_batches,
    resolve_uris, resolved, store_records, stored_all, track_views, uncached, uncached_uris,
    TrackFetchPlan, TRACK_BATCH_SIZE,
};
use crate::ids::{playlist_kind, playlist_uri, track_kind, track_uri, web_uri_of};
use crate::track::{strings_view, TrackRecord};
use crate::ids::{spotify_uri_shape, spotify_uri_valid, uri_id_in_range};
use crate::queue::{anchor_index, find_track, views_of, wrap_next, wrap_previous, PlayQueue, QueueView};
use crate::shuffle::shuffle;
use crate::track::{TrackInfo, TrackView};
use nanorand::WyRand;
use vstd::prelude::*;

verus! {

/// Most tracks a recommendation query may be seeded with.
pub const MAX_SEED_TRACKS: usize = 5;

/// A transport command from the user interface or a media-key service.
#[derive(Debug, Clone)]
pub enum PlayerControl {
    Play,
    Pause,
    Stop,
    PlayPause,
    StartPlaylist(Vec<TrackInfo>),
    StartPlaylistAtTrack(Vec<TrackInfo>, TrackInfo),
    NextTrack,
    PreviousTrack,
}

/// A broadcast notification of a playback status change.
#[derive(Debug, Clone, PartialEq, Eq)]
pub enum PlayerStateUpdate {
    Paused,
    Resumed,
    Stopped,
    /// The given track is now playing.
    EndOfTrack(TrackInfo),
}

/// What the playback engine reports.
#[derive(Debug, Clone, Copy, PartialEq, Eq, Structural)]
pub enum EngineEvent {
    Paused,
    Playing,
    Started,
    TimeToPreloadNextTrack,
    EndOfTrack,
    Other,
}

/// What the worker asks of the playback engine.
#[derive(Debug, Clone, PartialEq, Eq)]
pub enum EngineCommand {
    Load { uri: String, autoplay: bool, position_ms: u32 },
    Play,
    Pause,
    Stop,
    Preload { uri: String },
}

/// The effects of one step, to be carried out in order: engine commands,
/// then the notification.
#[derive(Debug, PartialEq, Eq)]
pub struct StepOutcome {
    pub commands: Vec<EngineCommand>,
    pub update: Option<PlayerStateUpdate>,
}

pub enum UpdateView {
    Paused,
    Resumed,
    Stopped,
    NowPlaying(TrackView),
}

pub enum CommandView {
    Load { uri: Seq<char>, autoplay: bool, position_ms: u32 },
    Play,
    Pause,
    Stop,
    Preload { uri: Seq<char> },
}

pub struct OutcomeView {
    pub commands: Seq<CommandView>,
    pub update: Option<UpdateView>,
}

impl View for PlayerStateUpdate {
    type V = UpdateView;

    open spec fn view(&self) -> UpdateView {
        match self {
            PlayerStateUpdate::Paused => UpdateView::Paused,
            PlayerStateUpdate::Resumed => UpdateView::Resumed,
            PlayerStateUpdate::Stopped => UpdateView::Stopped,
            PlayerStateUpdate::EndOfTrack(t) => UpdateView::NowPlaying(t@),
        }
    }
}

impl View for EngineCommand {
    type V = CommandView;

    open spec fn view(&self) -> CommandView {
        match self {
            EngineCommand::Load { uri, autoplay, position_ms } => CommandView::Load {
                uri: uri@,
                autoplay: *autoplay,
                position_ms: *position_ms,
            },
            EngineCommand::Play => CommandView::Play,
            EngineCommand::Pause => CommandView::Pause,
            EngineCommand::Stop => CommandView::Stop,
            EngineCommand::Preload { uri } => CommandView::Preload { uri: uri@ },
        }
    }
}

pub open spec fn update_view(u: Option<PlayerStateUpdate>) -> Option<UpdateView> {
    match u {
        Some(u) => Some(u@),
        None => None,
    }
}

impl View for StepOutcome {
    type V = OutcomeView;

    open spec fn view(&self) -> OutcomeView {
        OutcomeView {
            commands: self.commands@.map_values(|c: EngineCommand| c@),
            update: update_view(self.update),
        }
    }
}

/// Whether the playback engine can load a track with this id.
pub open spec fn engine_can_load(uri: Seq<char>) -> bool {
    spotify_uri_shape(uri) && uri_id_in_range(uri)
}

pub open spec fn no_effects() -> OutcomeView {
    OutcomeView { commands: seq![], update: None }
}

/// One engine command and its notification.
pub open spec fn transport(c: CommandView, u: UpdateView) -> OutcomeView {
    OutcomeView { commands: seq![c], update: Some(u) }
}

/// Load `t` from its start, playing at once, and announce it.
pub open spec fn load_track(t: TrackView) -> OutcomeView {
    OutcomeView {
        commands: seq![CommandView::Load { uri: t.id, autoplay: true, position_ms: 0 }],
        update: Some(UpdateView::NowPlaying(t)),
    }
}

/// The worker's model.
pub struct WorkerView {
    pub api_client: bool,
    pub player: bool,
    pub session: bool,
    pub paused: bool,
    pub queue: QueueView,
    pub cache: CacheView,
}

/// Moving to `queue` if its current track can be loaded; otherwise nothing
/// changes and nothing is done.
pub open spec fn start_post(
    old: WorkerView,
    queue: QueueView,
    new: WorkerView,
    out: OutcomeView,
) -> bool {
    if engine_can_load(queue.tracks[queue.current].id) {
        new == WorkerView { queue, ..old } && out == load_track(queue.tracks[queue.current])
    } else {
        new == old && out == no_effects()
    }
}

/// Moving the cursor to `i` and loading that track, if it can be loaded.
pub open spec fn step_post(old: WorkerView, i: int, new: WorkerView, out: OutcomeView) -> bool {
    start_post(old, QueueView { current: i, ..old.queue }, new, out)
}

pub open spec fn unchanged(old: WorkerView, new: WorkerView, out: OutcomeView) -> bool {
    new == old && out == no_effects()
}

/// What a transport control does. Without a player every control is a no-op,
/// as is starting an empty playlist or stepping through an empty queue.
pub open spec fn control_post(
    old: WorkerView,
    control: PlayerControl,
    new: WorkerView,
    out: OutcomeView,
) -> bool {
    if !old.player {
        unchanged(old, new, out)
    } else {
        match control {
            PlayerControl::Play => new == old && out == transport(
                CommandView::Play,
                UpdateView::Resumed,
            ),
            PlayerControl::Pause => new == old && out == transport(
                CommandView::Pause,
                UpdateView::Paused,
            ),
            PlayerControl::Stop => new == old && out == transport(
                CommandView::Stop,
                UpdateView::Stopped,
            ),
            PlayerControl::PlayPause => new == old && out == if old.paused {
                transport(CommandView::Play, UpdateView::Resumed)
            } else {
                transport(CommandView::Pause, UpdateView::Paused)
            },
            PlayerControl::StartPlaylist(tracks) => if tracks@.len() == 0 {
                unchanged(old, new, out)
            } else {
                exists|s: Seq<TrackInfo>|
                    s.to_multiset() == tracks@.to_multiset() && #[trigger] start_post(
                        old,
                        QueueView { tracks: views_of(s), current: 0 },
                        new,
                        out,
                    )
            },
            PlayerControl::StartPlaylistAtTrack(tracks, anchor) => if tracks@.len() == 0 {
                unchanged(old, new, out)
            } else {
                exists|s: Seq<TrackInfo>|
                    s.to_multiset() == tracks@.to_multiset() && #[trigger] start_post(
                        old,
                        QueueView {
                            tracks: views_of(s),
                            current: anchor_index(views_of(s), anchor.id@),
                        },
                        new,
                        out,
                    )
            },
            PlayerControl::NextTrack => if old.queue.tracks.len() == 0 {
                unchanged(old, new, out)
            } else {
                step_post(old, wrap_next(old.queue.current, old.queue.tracks.len() as int), new, out)
            },
            PlayerControl::PreviousTrack => if old.queue.tracks.len() == 0 {
                unchanged(old, new, out)
            } else {
                step_post(
                    old,
                    wrap_previous(old.queue.current, old.queue.tracks.len() as int),
                    new,
                    out,
                )
            },
        }
    }
}

/// What an engine event does: the pause flag follows the engine; near the
/// end of a track the next one is preloaded; at its end the cursor moves on
/// and the next track is loaded and played.
pub open spec fn event_post(old: WorkerView, event: EngineEvent, new: WorkerView, out: OutcomeView) -> bool {
    let n = old.queue.tracks.len() as int;
    let next = wrap_next(old.queue.current, n);
    match event {
        EngineEvent::Paused => new == WorkerView { paused: true, ..old } && out == no_effects(),
        EngineEvent::Playing | EngineEvent::Started => new == WorkerView { paused: false, ..old }
            && out == no_effects(),
        EngineEvent::TimeToPreloadNextTrack => new == old && out == if old.player && n > 0
            && engine_can_load(old.queue.tracks[next].id) {
            OutcomeView {
                commands: seq![CommandView::Preload { uri: old.queue.tracks[next].id }],
                update: None,
            }
        } else {
            no_effects()
        },
        EngineEvent::EndOfTrack => if old.player && n > 0 && engine_can_load(
            old.queue.tracks[next].id,
        ) {
            new == WorkerView { queue: QueueView { current: next, ..old.queue }, ..old } && out
                == OutcomeView {
                commands: seq![
                    CommandView::Load { uri: old.queue.tracks[next].id, autoplay: true, position_ms: 0 },
                    CommandView::Play,
                ],
                update: Some(UpdateView::NowPlaying(old.queue.tracks[next])),
            }
        } else {
            unchanged(old, new, out)
        },
        EngineEvent::Other => unchanged(old, new, out),
    }
}

/// A worker without a session, as a failed login leaves it, ignores every
/// transport control: its state stays as it was and nothing is sent.
pub proof fn lemma_no_session_controls_are_noops(
    w: WorkerView,
    control: PlayerControl,
    new: WorkerView,
    out: OutcomeView,
)
    requires
        !w.api_client && !w.player && !w.session,
        control_post(w, control, new, out),
    ensures
        new == w,
        out == no_effects(),
{
}

pub struct SpotifyWorker {
    api_client: bool,
    player: bool,
    session: bool,
    player_paused: bool,
    queue: PlayQueue,
    cache: CacheHandler,
}

impl View for SpotifyWorker {
    type V = WorkerView;

    closed spec fn view(&self) -> WorkerView {
        WorkerView {
            api_client: self.api_client,
            player: self.player,
            session: self.session,
            paused: self.player_paused,
            queue: self.queue@,
            cache: self.cache@,
        }
    }
}

fn nothing() -> (r: StepOutcome)
    ensures
        r@ == no_effects(),
{
    let r = StepOutcome { commands: Vec::new(), update: None };
    assert(r@.commands =~= Seq::<CommandView>::empty());
    r
}

fn one_command(c: EngineCommand, u: PlayerStateUpdate) -> (r: StepOutcome)
    ensures
        r@ == transport(c@, u@),
{
    let mut commands: Vec<EngineCommand> = Vec::new();
    commands.push(c);
    let r = StepOutcome { commands, update: Some(u) };
    assert(r@.commands =~= seq![c@]);
    r
}

fn load_and_announce(t: &TrackInfo) -> (r: StepOutcome)
    ensures
        r@ == load_track(t@),
{
    let mut commands: Vec<EngineCommand> = Vec::new();
    commands.push(EngineCommand::Load { uri: t.id.clone(), autoplay: true, position_ms: 0 });
    let r = StepOutcome { commands, update: Some(PlayerStateUpdate::EndOfTrack(t.clone())) };
    assert(r@.commands =~= seq![CommandView::Load { uri: t@.id, autoplay: true, position_ms: 0 }]);
    r
}

impl SpotifyWorker {
    /// The queue and the cache are well formed.
    pub closed spec fn wf(&self) -> bool {
        self.queue.wf() && self.cache.wf()
    }

    /// A worker with no session, paused, with an empty queue and the given cache.
    pub fn new(cache: CacheHandler) -> (r: SpotifyWorker)
        requires
            cache.wf(),
        ensures
            r.wf(),
            !r@.api_client && !r@.player && !r@.session,
            r@.paused,
            r@.queue.tracks.len() == 0 && r@.queue.current == 0,
            r@.cache == cache@,
    {
        SpotifyWorker {
            api_client: false,
            player: false,
            session: false,
            player_paused: true,
            queue: PlayQueue::new(),
            cache,
        }
    }

    /// Records how a login attempt ended. A success establishes the web API
    /// client, the player and the session together; a failure changes nothing.
    /// Returns the result to report.
    pub fn complete_login(&mut self, success: bool) -> (r: bool)
        requires
            old(self).wf(),
        ensures
            final(self).wf(),
            r == success,
            success ==> final(self)@ == (WorkerView {
                api_client: true,
                player: true,
                session: true,
                ..old(self)@
            }),
            !success ==> final(self)@ == old(self)@,
    {
        if success {
            self.api_client = true;
            self.player = true;
            self.session = true;
        }
        success
    }

    pub fn cache(&self) -> (r: &CacheHandler)
        requires
            self.wf(),
        ensures
            r.wf(),
            r@ == self@.cache,
    {
        &self.cache
    }

    /// Records that the cache table was written out.
    pub fn mark_cache_saved(&mut self)
        requires
            old(self).wf(),
        ensures
            final(self).wf(),
            final(self)@ == (WorkerView {
                cache: (CacheView { dirty: false, ..old(self)@.cache }),
                ..old(self)@
            }),
    {
        self.cache.mark_saved();
    }

    pub fn queue(&self) -> (r: &PlayQueue)
        requires
            self.wf(),
        ensures
            r.wf(),
            r@ == self@.queue,
    {
        &self.queue
    }

    /// Replaces the queue with `tracks` from position `idx` and loads that
    /// track. Fails without a player, or where the engine cannot load the
    /// track's id; then nothing changes.
    pub fn start_playlist_at_idx_task(&mut self, tracks: Vec<TrackInfo>, idx: usize) -> (r: Result<
        StepOutcome,
        WorkerError,
    >)
        requires
            old(self).wf(),
            idx < tracks@.len(),
        ensures
            final(self).wf(),
            !old(self)@.player ==> (r matches Err(WorkerError::NoSpotifyPlayer)) && final(self)@
                == old(self)@,
            old(self)@.player && !engine_can_load(tracks@[idx as int].id@) ==> (r matches Err(
                WorkerError::BadSpotifyId,
            )) && final(self)@ == old(self)@,
            old(self)@.player && engine_can_load(tracks@[idx as int].id@) ==> (r matches Ok(out)
                && start_post(
                old(self)@,
                (QueueView { tracks: views_of(tracks@), current: idx as int }),
                final(self)@,
                out@,
            )),
    {
        if !self.player {
            return Err(WorkerError::NoSpotifyPlayer);
        }
        if !spotify_uri_valid(tracks[idx].id.as_str()) {
            return Err(WorkerError::BadSpotifyId);
        }
        let out = load_and_announce(&tracks[idx]);
        self.queue = PlayQueue::starting_at(tracks, idx);
        Ok(out)
    }

    /// Replaces the queue with `tracks` from its first track and loads it.
    pub fn start_playlist_task(&mut self, tracks: Vec<TrackInfo>) -> (r: Result<
        StepOutcome,
        WorkerError,
    >)
        requires
            old(self).wf(),
            tracks@.len() > 0,
        ensures
            final(self).wf(),
            !old(self)@.player ==> (r matches Err(WorkerError::NoSpotifyPlayer)) && final(self)@
                == old(self)@,
            old(self)@.player && !engine_can_load(tracks@[0].id@) ==> (r matches Err(
                WorkerError::BadSpotifyId,
            )) && final(self)@ == old(self)@,
            old(self)@.player && engine_can_load(tracks@[0].id@) ==> (r matches Ok(out)
                && start_post(
                old(self)@,
                (QueueView { tracks: views_of(tracks@), current: 0 }),
                final(self)@,
                out@,
            )),
    {
        self.start_playlist_at_idx_task(tracks, 0)
    }

    /// Moves the cursor to `i` and loads that track, if the engine can load it.
    fn step_to(&mut self, i: usize) -> (r: StepOutcome)
        requires
            old(self).wf(),
            i < old(self)@.queue.tracks.len(),
        ensures
            final(self).wf(),
            step_post(old(self)@, i as int, final(self)@, r@),
    {
        let ok = spotify_uri_valid(self.queue.track(i).id.as_str());
        if !ok {
            return nothing();
        }
        let out = load_and_announce(self.queue.track(i));
        self.queue.set_current(i);
        out
    }

    /// Applies one transport control.
    pub fn handle_control(&mut self, rng: &mut WyRand, control: PlayerControl) -> (r: StepOutcome)
        requires
            old(self).wf(),
        ensures
            final(self).wf(),
            control_post(old(self)@, control, final(self)@, r@),
    {
        if !self.player {
            return nothing();
        }
        match control {
            PlayerControl::Play => one_command(EngineCommand::Play, PlayerStateUpdate::Resumed),
            PlayerControl::Pause => one_command(EngineCommand::Pause, PlayerStateUpdate::Paused),
            PlayerControl::Stop => one_command(EngineCommand::Stop, PlayerStateUpdate::Stopped),
            PlayerControl::PlayPause => {
                if self.player_paused {
                    one_command(EngineCommand::Play, PlayerStateUpdate::Resumed)
                } else {
                    one_command(EngineCommand::Pause, PlayerStateUpdate::Paused)
                }
            },
            PlayerControl::StartPlaylist(tracks) => {
                if tracks.len() == 0 {
                    return nothing();
                }
                let shuffled = shuffle(rng, tracks);
                let ghost s = shuffled@;
                match self.start_playlist_task(shuffled) {
                    Ok(out) => {
                        assert(start_post(old(self)@, QueueView { tracks: views_of(s), current: 0 }, self@, out@));
                        out
                    },
                    Err(_) => {
                        let out = nothing();
                        assert(start_post(old(self)@, QueueView { tracks: views_of(s), current: 0 }, self@, out@));
                        out
                    },
                }
            },
            PlayerControl::StartPlaylistAtTrack(tracks, anchor) => {
                if tracks.len() == 0 {
                    return nothing();
                }
                let shuffled = shuffle(rng, tracks);
                let ghost s = shuffled@;
                let idx = find_track(&shuffled, &anchor.id);
                let ghost q = QueueView { tracks: views_of(s), current: idx as int };
                match self.start_playlist_at_idx_task(shuffled, idx) {
                    Ok(out) => {
                        assert(start_post(old(self)@, q, self@, out@));
                        out
                    },
                    Err(_) => {
                        let out = nothing();
                        assert(start_post(old(self)@, q, self@, out@));
                        out
                    },
                }
            },
            PlayerControl::NextTrack => {
                if self.queue.is_empty() {
                    return nothing();
                }
                let i = self.queue.next_index();
                self.step_to(i)
            },
            PlayerControl::PreviousTrack => {
                if self.queue.is_empty() {
                    return nothing();
                }
                let i = self.queue.previous_index();
                self.step_to(i)
            },
        }
    }

    /// Plans resolving a playlist's tracks: which of its valid track URIs
    /// the cache lacks, and the lookups of at most `TRACK_BATCH_SIZE` ids that
    /// fetch them. Needs the web API client.
    pub fn plan_track_fetch(&self, uris: &Vec<String>) -> (r: Result<TrackFetchPlan, WorkerError>)
        requires
            self.wf(),
        ensures
            !self@.api_client ==> (r matches Err(WorkerError::NoAPIClient)),
            self@.api_client ==> (r matches Ok(p) && {
                let us = canonical_track_uris(strings_view(uris@));
                &&& strings_view(p.uris@) == us
                &&& batches_view(p.batches@) == batches_of(
                    uncached(self@.cache.tracks, us),
                    TRACK_BATCH_SIZE as int,
                )
            }),
    {
        if !self.api_client {
            return Err(WorkerError::NoAPIClient);
        }
        let valid = canonical_uris(uris);
        let missing = uncached_uris(&self.cache, &valid);
        let batches = into_batches(&missing);
        Ok(TrackFetchPlan { uris: valid, batches })
    }

    /// Caches the records that the planned lookups returned, and gives the
    /// planned tracks that the cache now holds, in the planned order.
    pub fn complete_track_fetch(&mut self, plan: &TrackFetchPlan, fetched: Vec<TrackRecord>) -> (r:
        Vec<TrackInfo>)
        requires
            old(self).wf(),
        ensures
            final(self).wf(),
            final(self)@ == (WorkerView {
                cache: (CacheView {
                    tracks: stored_all(old(self)@.cache.tracks, fetched@),
                    dirty: old(self)@.cache.dirty || any_converts(fetched@),
                }),
                ..old(self)@
            }),
            track_views(r@) == resolved(final(self)@.cache.tracks, strings_view(plan.uris@)),
    {
        store_records(&mut self.cache, fetched);
        resolve_uris(&self.cache, &plan.uris)
    }

    /// Picks up to `MAX_SEED_TRACKS` of a playlist's valid track URIs at
    /// random, as seeds for a recommendation query. Needs the web API client.
    pub fn recommendation_seeds(&self, rng: &mut WyRand, uris: &Vec<String>) -> (r: Result<
        Vec<String>,
        WorkerError,
    >)
        requires
            self.wf(),
        ensures
            !self@.api_client ==> (r matches Err(WorkerError::NoAPIClient)),
            !self@.api_client ==> *final(rng) == *old(rng),
            self@.api_client ==> (r matches Ok(seeds) && exists|valid: Seq<String>, p: Seq<String>|
                #![trigger strings_view(valid), p.to_multiset()]
                {
                    &&& strings_view(valid) == canonical_track_uris(strings_view(uris@))
                    &&& p.to_multiset() == valid.to_multiset()
                    &&& p.len() == valid.len()
                    &&& seeds@ == p.take(
                        if p.len() < MAX_SEED_TRACKS {
                            p.len() as int
                        } else {
                            MAX_SEED_TRACKS as int
                        },
                    )
                }),
    {
        if !self.api_client {
            return Err(WorkerError::NoAPIClient);
        }
        let valid = canonical_uris(uris);
        let ghost v = valid@;
        let mut picked = shuffle(rng, valid);
        let ghost p = picked@;
        if picked.len() > MAX_SEED_TRACKS {
            picked.truncate(MAX_SEED_TRACKS);
        }
        assert(picked@ == p.take(
            if p.len() < MAX_SEED_TRACKS {
                p.len() as int
            } else {
                MAX_SEED_TRACKS as int
            },
        ));
        Ok(picked)
    }

    /// Checks a request to add a track to, or remove it from, a playlist:
    /// needs the web API client and valid track and playlist URIs, and gives
    /// both in canonical form. The local cache is not touched.
    pub fn prepare_playlist_edit(&self, track: &str, playlist: &str) -> (r: Result<
        (String, String),
        WorkerError,
    >)
        requires
            self.wf(),
        ensures
            !self@.api_client ==> (r matches Err(WorkerError::NoAPIClient)),
            self@.api_client && (web_uri_of(track_kind(), track@).is_none() || web_uri_of(
                playlist_kind(),
                playlist@,
            ).is_none()) ==> (r matches Err(WorkerError::BadSpotifyId)),
            self@.api_client && web_uri_of(track_kind(), track@).is_some() && web_uri_of(
                playlist_kind(),
                playlist@,
            ).is_some() ==> (r matches Ok(ids) && web_uri_of(track_kind(), track@) == Some(ids.0@)
                && web_uri_of(playlist_kind(), playlist@) == Some(ids.1@)),
    {
        if !self.api_client {
            return Err(WorkerError::NoAPIClient);
        }
        let t = match track_uri(track) {
            Some(t) => t,
            None => return Err(WorkerError::BadSpotifyId),
        };
        let p = match playlist_uri(playlist) {
            Some(p) => p,
            None => return Err(WorkerError::BadSpotifyId),
        };
        Ok((t, p))
    }

    /// Checks a listing of playlists before their artwork and contents are
    /// fetched: needs the web API client and the session, and every playlist
    /// URI must be one the engine can load.
    pub fn check_playlist_listing(&self, uris: &Vec<String>) -> (r: Result<(), WorkerError>)
        requires
            self.wf(),
        ensures
            !self@.api_client ==> (r matches Err(WorkerError::NoAPIClient)),
            self@.api_client && !self@.session ==> (r matches Err(WorkerError::NoSpotifySession)),
            self@.api_client && self@.session ==> (r matches Ok(_) <==> forall|i: int|
                0 <= i < uris@.len() ==> engine_can_load(#[trigger] uris@[i]@)),
            self@.api_client && self@.session ==> (r matches Ok(_) || (r matches Err(
                WorkerError::BadSpotifyId,
            ))),
    {
        if !self.api_client {
            return Err(WorkerError::NoAPIClient);
        }
        if !self.session {
            return Err(WorkerError::NoSpotifySession);
        }
        let mut i: usize = 0;
        while i < uris.len()
            invariant
                self.api_client && self.session,
                i <= uris@.len(),
                forall|j: int| 0 <= j < i ==> engine_can_load(#[trigger] uris@[j]@),
            decreases uris@.len() - i,
        {
            if !spotify_uri_valid(uris[i].as_str()) {
                return Err(WorkerError::BadSpotifyId);
            }
            i = i + 1;
        }
        Ok(())
    }

    /// Applies one playback-engine event.
    pub fn handle_event(&mut self, event: EngineEvent) -> (r: StepOutcome)
        requires
            old(self).wf(),
        ensures
            final(self).wf(),
            event_post(old(self)@, event, final(self)@, r@),
    {
        match event {
            EngineEvent::Paused => {
                self.player_paused = true;
                nothing()
            },
            EngineEvent::Playing | EngineEvent::Started => {
                self.player_paused = false;
                nothing()
            },
            EngineEvent::TimeToPreloadNextTrack => {
                if !self.player || self.queue.is_empty() {
                    return nothing();
                }
                let i = self.queue.next_index();
                let t = self.queue.track(i);
                if !spotify_uri_valid(t.id.as_str()) {
                    return nothing();
                }
                let mut commands: Vec<EngineCommand> = Vec::new();
                commands.push(EngineCommand::Preload { uri: t.id.clone() });
                let r = StepOutcome { commands, update: None };
                assert(r@.commands =~= seq![CommandView::Preload { uri: t@.id }]);
                r
            },
            EngineEvent::EndOfTrack => {
                if !self.player || self.queue.is_empty() {
                    return nothing();
                }
                let i = self.queue.next_index();
                let t = self.queue.track(i);
                if !spotify_uri_valid(t.id.as_str()) {
                    return nothing();
                }
                let mut commands: Vec<EngineCommand> = Vec::new();
                commands.push(EngineCommand::Load { uri: t.id.clone(), autoplay: true, position_ms: 0 });
                commands.push(EngineCommand::Play);
                let r = StepOutcome { commands, update: Some(PlayerStateUpdate::EndOfTrack(t.clone())) };
                assert(r@.commands =~= seq![
                    CommandView::Load { uri: t@.id, autoplay: true, position_ms: 0 },
                    CommandView::Play,
                ]);
                self.queue.set_current(i);
                r
            },
            EngineEvent::Other => nothing(),
        }
    }
}

} // verus!
