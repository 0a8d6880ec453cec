//! The remote reconciliation rules: transport-state polling, queue
//! diffing and splicing, and playlist synchronisation.  The caller fetches
//! and parses remote snapshots and hands them in as plain values; these
//! routines decide what the shared store becomes, under the interaction
//! debounce.

use crate::state::{str_eq, state_wf, CondensedPlaylist, PlaybackState, Track};
use vstd::prelude::*;

verus! {

/// Largest clock reading the reconciliation arithmetic admits, far beyond
/// any realistic uptime, leaving headroom for deadline additions.
pub const MAX_CLOCK_MS: u64 = 0x0000_FFFF_FFFF_FFFF;

/// Minimum interval between transport polls, in milliseconds.
pub const PLAYBACK_POLL_MS: u64 = 1000;

/// Minimum interval between queue polls, in milliseconds.
pub const QUEUE_POLL_MS: u64 = 15_000;

/// How far into the past a forced refetch moves the queue poll deadline.
pub const QUEUE_FORCE_MS: u64 = 60_000;

/// The view of an optional string.
pub open spec fn opt_view(o: Option<String>) -> Option<Seq<char>> {
    match o {
        Some(s) => Some(s@),
        None => None,
    }
}

/// Equality of optional strings, by contents.
pub fn opt_str_eq(a: &Option<String>, b: &Option<String>) -> (r: bool)
    ensures
        r == (opt_view(*a) == opt_view(*b)),
{
    match (a, b) {
        (None, None) => true,
        (Some(x), Some(y)) => str_eq(x, y),
        _ => false,
    }
}

/// Poller-private bookkeeping: the last observed playback context and the
/// per-cadence poll deadlines.
pub struct SpotifyState {
    /// Opaque identifier of the collection being played, when known.
    pub current_context: Option<String>,
    /// Set when a context change was seen and not yet consumed by the
    /// queue reconciliation.
    pub context_updated: bool,
    pub last_grabbed_playback: u64,
    pub last_grabbed_queue: u64,
}

/// Poller timestamps stay within the clock range.
pub open spec fn spotify_state_wf(s: SpotifyState) -> bool {
    &&& s.last_grabbed_playback <= MAX_CLOCK_MS
    &&& s.last_grabbed_queue <= MAX_CLOCK_MS
}

impl SpotifyState {
    /// Fresh poller state: nothing observed, both cadences overdue.
    pub fn new() -> (s: SpotifyState)
        ensures
            spotify_state_wf(s),
            s.current_context is None,
            !s.context_updated,
            s.last_grabbed_playback == 0,
            s.last_grabbed_queue == 0,
    {
        SpotifyState {
            current_context: None,
            context_updated: false,
            last_grabbed_playback: 0,
            last_grabbed_queue: 0,
        }
    }
}

/// Whether the transport poll is due: the debounce window has passed and
/// the short cadence has elapsed.
pub fn playback_poll_due(state: &PlaybackState, spot: &SpotifyState, now: u64) -> (due: bool)
    requires
        spotify_state_wf(*spot),
    ensures
        due == (now >= state.last_interaction && now >= spot.last_grabbed_playback
            + PLAYBACK_POLL_MS),
{
    now >= state.last_interaction && now >= spot.last_grabbed_playback + PLAYBACK_POLL_MS
}

/// Whether the queue poll is due: the debounce window has passed and the
/// long cadence has elapsed.
pub fn queue_poll_due(state: &PlaybackState, spot: &SpotifyState, now: u64) -> (due: bool)
    requires
        spotify_state_wf(*spot),
    ensures
        due == (now >= state.last_interaction && now >= spot.last_grabbed_queue + QUEUE_POLL_MS),
{
    now >= state.last_interaction && now >= spot.last_grabbed_queue + QUEUE_POLL_MS
}

/// A transport snapshot as fetched from the remote service, reduced to
/// plain values.
pub struct TransportSnapshot {
    /// Device volume percentage, when the device reports one.
    pub volume_percent: Option<u8>,
    /// Opaque context identifier, when playback has a context.
    pub context_id: Option<String>,
    pub progress_ms: u32,
    pub is_playing: bool,
    /// Display name of the currently playing track, when one exists.
    pub current_track: Option<String>,
}

/// The deadline a forced queue refetch rewinds to.
pub open spec fn forced_queue_deadline(now: u64) -> u64 {
    if now >= QUEUE_FORCE_MS {
        (now - QUEUE_FORCE_MS) as u64
    } else {
        0
    }
}

/// Apply a transport snapshot to the shared store.
///
/// Detects context changes, re-anchors the queue index by display name
/// (forcing a queue refetch when the name is missing), updates the volume,
/// and overwrites `playing` and `progress` only once the interaction
/// debounce deadline has passed.
pub fn apply_transport_snapshot(
    state: &mut PlaybackState,
    spot: &mut SpotifyState,
    snap: TransportSnapshot,
    now: u64,
) -> (changed_context: bool)
    requires
        state_wf(*old(state)),
        spotify_state_wf(*old(spot)),
        (snap.volume_percent matches Some(v) ==> v <= 100),
        now <= MAX_CLOCK_MS,
    ensures
        state_wf(*final(state)),
        spotify_state_wf(*final(spot)),
        changed_context == (opt_view(old(spot).current_context) != opt_view(snap.context_id)),
        // Debounce: the remote snapshot never overwrites playing or
        // progress before the interaction deadline.
        now < old(state).last_interaction ==> final(state).playing == old(state).playing
            && final(state).progress == old(state).progress,
        now >= old(state).last_interaction ==> final(state).playing == snap.is_playing
            && final(state).progress == snap.progress_ms,
        final(state).volume == snap.volume_percent,
        final(state).last_progress_update == now,
        final(state).queue@ == old(state).queue@,
        final(state).playlists@ == old(state).playlists@,
        final(state).interaction == old(state).interaction,
        final(state).last_interaction == old(state).last_interaction,
        // Queue-index re-anchoring by display name.
        snap.current_track matches Some(name) ==> ({
            ||| (final(state).queue_index < old(state).queue@.len()
                && old(state).queue@[final(state).queue_index as int].name@ == name@ && forall|
                j: int,
            |
                0 <= j < final(state).queue_index ==> #[trigger] old(state).queue@[j].name@
                    != name@)
            ||| (final(state).queue_index == 0 && (forall|j: int|
                0 <= j < old(state).queue@.len() ==> #[trigger] old(state).queue@[j].name@
                    != name@) && final(spot).last_grabbed_queue == forced_queue_deadline(now))
        }),
        snap.current_track is None ==> final(state).queue_index == old(state).queue_index,
        // Context bookkeeping and forced refetch deadlines.
        opt_view(final(spot).current_context) == opt_view(snap.context_id),
        final(spot).context_updated == (old(spot).context_updated || changed_context),
        final(spot).last_grabbed_playback == now,
        !changed_context && !(snap.current_track matches Some(name) && (forall|j: int|
            0 <= j < old(state).queue@.len() ==> #[trigger] old(state).queue@[j].name@ != name@))
            ==> final(spot).last_grabbed_queue == old(spot).last_grabbed_queue,
        (changed_context || (snap.current_track matches Some(name) && (forall|j: int|
            0 <= j < old(state).queue@.len() ==> #[trigger] old(state).queue@[j].name@ != name@)))
            ==> final(spot).last_grabbed_queue == forced_queue_deadline(now),
{
    let queue_deadline: u64 = if now >= QUEUE_FORCE_MS {
        now - QUEUE_FORCE_MS
    } else {
        0
    };

    let changed_context = !opt_str_eq(&spot.current_context, &snap.context_id);
    if changed_context {
        spot.context_updated = true;
        spot.current_context = snap.context_id;
        spot.last_grabbed_queue = queue_deadline;
    }

    match &snap.current_track {
        Some(name) => {
            let found = state.find_track_by_name(name);
            match found {
                Some(i) => {
                    state.queue_index = i;
                },
                None => {
                    state.queue_index = 0;
                    spot.last_grabbed_queue = queue_deadline;
                },
            }
        },
        None => {},
    }

    state.volume = snap.volume_percent;
    if now >= state.last_interaction {
        state.playing = snap.is_playing;
        state.progress = snap.progress_ms;
    }
    state.last_progress_update = now;
    spot.last_grabbed_playback = now;
    changed_context
}

/// Apply a queue snapshot (the current track followed by the upcoming
/// tracks) to the shared store.
///
/// When no context change is pending and the snapshot's current track is
/// found by name at position `k` in the held queue, the queue becomes
/// `held[..k] + snapshot` and the index becomes `k`, preserving skipped
/// past history; otherwise the queue is replaced wholesale and the index
/// resets to zero.
pub fn apply_queue_snapshot(
    state: &mut PlaybackState,
    spot: &mut SpotifyState,
    new_queue: Vec<Track>,
    now: u64,
) -> (spliced: bool)
    requires
        state_wf(*old(state)),
        spotify_state_wf(*old(spot)),
        new_queue@.len() > 0,
        now <= MAX_CLOCK_MS,
    ensures
        state_wf(*final(state)),
        spotify_state_wf(*final(spot)),
        spliced == (!old(spot).context_updated && exists|j: int|
            0 <= j < old(state).queue@.len() && #[trigger] old(state).queue@[j].name@
                == new_queue@[0].name@),
        spliced ==> ({
            let k = choose|k: int|
                0 <= k < old(state).queue@.len() && #[trigger] old(state).queue@[k].name@
                    == new_queue@[0].name@ && forall|j: int|
                    0 <= j < k ==> #[trigger] old(state).queue@[j].name@ != new_queue@[0].name@;
            &&& final(state).queue@ == old(state).queue@.take(k) + new_queue@
            &&& final(state).queue_index == k
            &&& final(spot).context_updated == old(spot).context_updated
        }),
        !spliced ==> final(state).queue@ == new_queue@ && final(state).queue_index == 0
            && !final(spot).context_updated,
        final(state).playing == old(state).playing,
        final(state).progress == old(state).progress,
        final(state).volume == old(state).volume,
        final(state).playlists@ == old(state).playlists@,
        final(state).interaction == old(state).interaction,
        final(state).last_interaction == old(state).last_interaction,
        final(state).last_progress_update == old(state).last_progress_update,
        opt_view(final(spot).current_context) == opt_view(old(spot).current_context),
        final(spot).last_grabbed_playback == old(spot).last_grabbed_playback,
        final(spot).last_grabbed_queue == now,
{
    let mut incoming = new_queue;
    let found = if spot.context_updated {
        None
    } else {
        state.find_track_by_name(&incoming[0].name)
    };
    let spliced: bool;
    match found {
        Some(k) => {
            state.queue_index = k;
            state.queue.truncate(k);
            state.queue.append(&mut incoming);
            spliced = true;
            assert(state.queue@ =~= old(state).queue@.take(k as int) + new_queue@);
        },
        None => {
            spot.context_updated = false;
            state.queue = incoming;
            state.queue_index = 0;
            spliced = false;
        },
    }
    spot.last_grabbed_queue = now;
    spliced
}

/// The ten rating-playlist display names, in slot order: half-star steps
/// from half a star to five stars.
pub open spec fn rating_slot_of_name(name: Seq<char>) -> Option<u8> {
    if name == "0.5"@ {
        Some(0u8)
    } else if name == "1.0"@ {
        Some(1u8)
    } else if name == "1.5"@ {
        Some(2u8)
    } else if name == "2.0"@ {
        Some(3u8)
    } else if name == "2.5"@ {
        Some(4u8)
    } else if name == "3.0"@ {
        Some(5u8)
    } else if name == "3.5"@ {
        Some(6u8)
    } else if name == "4.0"@ {
        Some(7u8)
    } else if name == "4.5"@ {
        Some(8u8)
    } else {
        if name == "5.0"@ {
            Some(9u8)
        } else {
            None
        }
    }
}

/// The rating slot a playlist name encodes, when ratings are enabled.
pub fn rating_index_for_name(name: &String, ratings_enabled: bool) -> (r: Option<u8>)
    ensures
        ratings_enabled ==> r == rating_slot_of_name(name@),
        !ratings_enabled ==> r is None,
{
    if !ratings_enabled {
        return None;
    }
    if str_eq(name, &String::from_str("0.5")) {
        Some(0)
    } else if str_eq(name, &String::from_str("1.0")) {
        Some(1)
    } else if str_eq(name, &String::from_str("1.5")) {
        Some(2)
    } else if str_eq(name, &String::from_str("2.0")) {
        Some(3)
    } else if str_eq(name, &String::from_str("2.5")) {
        Some(4)
    } else if str_eq(name, &String::from_str("3.0")) {
        Some(5)
    } else if str_eq(name, &String::from_str("3.5")) {
        Some(6)
    } else if str_eq(name, &String::from_str("4.0")) {
        Some(7)
    } else if str_eq(name, &String::from_str("4.5")) {
        Some(8)
    } else if str_eq(name, &String::from_str("5.0")) {
        Some(9)
    } else {
        None
    }
}

/// How many pages a full membership refetch needs at 50 tracks per page.
pub fn playlist_pages(total_tracks: u32) -> (pages: u32)
    ensures
        pages == (total_tracks + 49) / 50,
{
    let total: u64 = total_tracks as u64;
    ((total + 49) / 50) as u32
}

/// What the playlist poll decides to do for one remote playlist.
pub enum PlaylistSyncPlan {
    /// Not a target playlist and not a rating playlist: leave it alone.
    Ignore,
    /// The durable cache already holds this fingerprint: reuse it.
    Reuse,
    /// The held fingerprint is already current: nothing to do.
    Current,
    /// The contents changed: fetch this many membership pages.
    Fetch { num_pages: u32 },
}

/// Decide how to synchronise one remote playlist, from its remote
/// metadata, the durable cache's fingerprint for it, and the fingerprint
/// the store currently holds for it.
pub fn plan_playlist_sync(
    remote_name: &String,
    remote_snapshot: &String,
    remote_total: u32,
    is_target: bool,
    ratings_enabled: bool,
    cached_snapshot: &Option<String>,
    held_snapshot: &Option<String>,
) -> (plan: PlaylistSyncPlan)
    ensures
        !is_target && !(ratings_enabled && rating_slot_of_name(remote_name@) is Some) ==> plan
            == PlaylistSyncPlan::Ignore,
        (is_target || (ratings_enabled && rating_slot_of_name(remote_name@) is Some)) ==> ({
            &&& (cached_snapshot matches Some(c) && c@ == remote_snapshot@) ==> plan
                == PlaylistSyncPlan::Reuse
            &&& !(cached_snapshot matches Some(c) && c@ == remote_snapshot@) && (
            held_snapshot matches Some(h) && h@ == remote_snapshot@) ==> plan
                == PlaylistSyncPlan::Current
            &&& !(cached_snapshot matches Some(c) && c@ == remote_snapshot@) && !(
            held_snapshot matches Some(h) && h@ == remote_snapshot@) ==> plan == (
            PlaylistSyncPlan::Fetch { num_pages: ((remote_total + 49) / 50) as u32 })
        }),
{
    let is_rating = rating_index_for_name(remote_name, ratings_enabled).is_some();
    if !is_target && !is_rating {
        return PlaylistSyncPlan::Ignore;
    }
    let cache_hit = match cached_snapshot {
        Some(c) => str_eq(c, remote_snapshot),
        None => false,
    };
    if cache_hit {
        return PlaylistSyncPlan::Reuse;
    }
    let held_current = match held_snapshot {
        Some(h) => str_eq(h, remote_snapshot),
        None => false,
    };
    if held_current {
        return PlaylistSyncPlan::Current;
    }
    PlaylistSyncPlan::Fetch { num_pages: playlist_pages(remote_total) }
}

/// Whether no playlist other than `id` holds rating slot `slot`.
pub fn rating_slot_free(state: &PlaybackState, id: &String, slot: u8) -> (free: bool)
    ensures
        free == (forall|j: int|
            0 <= j < state.playlists@.len() && #[trigger] state.playlists@[j].id@ != id@
                ==> state.playlists@[j].rating_index != Some(slot)),
{
    let mut j: usize = 0;
    while j < state.playlists.len()
        invariant
            0 <= j <= state.playlists@.len(),
            forall|i: int|
                0 <= i < j && #[trigger] state.playlists@[i].id@ != id@
                    ==> state.playlists@[i].rating_index != Some(slot),
        decreases state.playlists@.len() - j,
    {
        let p = &state.playlists[j];
        let slot_taken = match p.rating_index {
            Some(r) => r == slot,
            None => false,
        };
        if slot_taken && !str_eq(&p.id, id) {
            return false;
        }
        j = j + 1;
    }
    true
}

/// Install a freshly synchronised playlist in the store, replacing the
/// entry with the same id or appending a new one.  The membership list
/// must be duplicate-free and the rating slot unclaimed by any other
/// playlist; the caller checks both at its boundary.
pub fn install_playlist(state: &mut PlaybackState, playlist: CondensedPlaylist) -> (replaced: bool)
    requires
        state_wf(*old(state)),
        crate::state::playlist_wf(playlist),
        forall|j: int|
            0 <= j < old(state).playlists@.len() && #[trigger] old(state).playlists@[j].id@
                != playlist.id@ ==> !(playlist.rating_index is Some
                && old(state).playlists@[j].rating_index == playlist.rating_index),
    ensures
        state_wf(*final(state)),
        replaced == (exists|i: int|
            0 <= i < old(state).playlists@.len() && #[trigger] old(state).playlists@[i].id@
                == playlist.id@),
        replaced ==> ({
            let i = choose|i: int|
                0 <= i < old(state).playlists@.len() && #[trigger] old(state).playlists@[i].id@
                    == playlist.id@;
            final(state).playlists@ == old(state).playlists@.update(i, playlist)
        }),
        !replaced ==> final(state).playlists@ == old(state).playlists@.push(playlist),
        final(state).playing == old(state).playing,
        final(state).progress == old(state).progress,
        final(state).volume == old(state).volume,
        final(state).queue@ == old(state).queue@,
        final(state).queue_index == old(state).queue_index,
        final(state).interaction == old(state).interaction,
        final(state).last_interaction == old(state).last_interaction,
        final(state).last_progress_update == old(state).last_progress_update,
{
    let found = state.find_playlist(&playlist.id);
    match found {
        Some(i) => {
            let ghost old_playlists = state.playlists@;
            assert(old_playlists[i as int].id@ == playlist.id@);
            state.playlists[i] = playlist;
            assert forall|a: int, b: int|
                0 <= a < b < state.playlists@.len()
                    && (#[trigger] state.playlists@[a].rating_index) is Some implies state.playlists@[a].rating_index
                != #[trigger] state.playlists@[b].rating_index by {
                if a == i {
                    assert(old_playlists[b].id@ != old_playlists[i as int].id@);
                    assert(!(playlist.rating_index is Some && old_playlists[b].rating_index
                        == playlist.rating_index));
                } else if b == i {
                    assert(old_playlists[a].id@ != old_playlists[i as int].id@);
                    assert(!(playlist.rating_index is Some && old_playlists[a].rating_index
                        == playlist.rating_index));
                } else {
                    assert(state.playlists@[a] == old_playlists[a]);
                    assert(state.playlists@[b] == old_playlists[b]);
                }
            }
            true
        },
        None => {
            let ghost old_playlists = state.playlists@;
            state.playlists.push(playlist);
            assert forall|a: int, b: int|
                0 <= a < b < state.playlists@.len()
                    && (#[trigger] state.playlists@[a].rating_index) is Some implies state.playlists@[a].rating_index
                != #[trigger] state.playlists@[b].rating_index by {
                if b == old_playlists.len() {
                    assert(old_playlists[a].id@ != playlist.id@);
                    assert(!(playlist.rating_index is Some && old_playlists[a].rating_index
                        == playlist.rating_index));
                } else {
                    assert(state.playlists@[a] == old_playlists[a]);
                    assert(state.playlists@[b] == old_playlists[b]);
                }
            }
            false
        },
    }
}

} // verus!
