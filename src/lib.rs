//! Playback and session core of a desktop music client: the play queue, the
//! metadata cache, and the worker state machine that serialises user tasks,
//! transport controls and playback-engine events.

mod cache;
mod error;
mod fetch;
mod ids;
mod queue;
mod shuffle;
mod text;
mod track;
mod worker;

pub use cache::{
    cover_candidate, cover_file_name, cover_prefix, ids_unique, lemma_cache_round_trip,
    select_cover_image, table_of, CacheHandler, CacheView, PREFERRED_COVER_SIZE,
};
pub use error::{APILoginError, WorkerError};
pub use fetch::{
    any_converts, batches_of, batches_view, canonical_track_uris, canonical_uris, into_batches,
    lemma_refetch_is_free, resolve_uris, resolved, store_records, stored_all, track_views,
    uncached, uncached_uris, TrackFetchPlan, TRACK_BATCH_SIZE,
};
pub use ids::{
    base62_digit, base62_value, is_ascii_alnum, playlist_kind, spotify_uri_shape,
    spotify_uri_valid, track_kind, uri_id_in_range, web_uri_of,
};
pub use queue::{
    anchor_index, find_track, lemma_next_previous_inverse, lemma_start_at_keeps_anchor, views_of,
    wrap_next, wrap_previous, PlayQueue, QueueView,
};
pub use shuffle::{arrange, arranged, lemma_arranged_is_permutation, picks_in_range, shuffle};
pub use text::{joined, make_artists_string, separator, trim_string, trimmed};
pub use track::{
    images_view, size_or_zero, sized_images, strings_view, track_view_of, TrackInfo, TrackRecord,
    TrackView,
};
pub use worker::{
    control_post, engine_can_load, event_post, lemma_no_session_controls_are_noops, load_track,
    no_effects, start_post, step_post, transport, unchanged, update_view, CommandView,
    EngineCommand, EngineEvent, OutcomeView, PlayerControl, PlayerStateUpdate, SpotifyWorker,
    StepOutcome, UpdateView, WorkerView, MAX_SEED_TRACKS,
};
