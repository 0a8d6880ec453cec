//! User-initiated remote mutations: seek and skip, star ratings, playlist
//! membership, play/pause and volume.  Each routine applies the optimistic
//! local update synchronously, extends the interaction debounce deadline,
//! and returns the remote commands for the caller to issue in the
//! background.

use crate::commands::{ConsistencyError, RemoteCommand};
use crate::state::{
    has_track, playlist_shape, playlist_wf, state_wf, CondensedPlaylist, PlaybackState,
};
use vstd::prelude::*;

verus! {

/// Debounce grace window after a seek or skip, in milliseconds.
pub const SEEK_GRACE_MS: u64 = 2000;

/// Debounce grace window after a membership, play/pause or volume change.
pub const MUTATE_GRACE_MS: u64 = 500;

/// Seek fractions below this (in millionths) snap to the track start.
pub const SNAP_FRACTION: i64 = 50_000;

/// Cap on how many skip commands a single gesture may issue.
pub const MAX_SKIPS: usize = 10;

/// The absolute seek position for a fractional click position: fractions
/// under the snap threshold resolve to the start of the track.
pub open spec fn seek_target_ms(duration_ms: u32, frac: int) -> int {
    if frac < SNAP_FRACTION {
        0
    } else {
        duration_ms * frac / 1_000_000
    }
}

/// How many skip commands a jump between queue positions issues.
pub open spec fn skip_count(from: int, to: int) -> int {
    let d: int = if from < to {
        to - from
    } else {
        from - to
    };
    if d < MAX_SKIPS {
        d
    } else {
        MAX_SKIPS as int
    }
}

/// Skip to the given track in the queue and/or seek within it.
///
/// If the track sits at another queue position, the index moves there and
/// progress resets; if it is the current track (or `always_seek` is set),
/// the fractional `position` resolves to an absolute seek.  A track id
/// missing from the queue is a consistency error: nothing is mutated.
pub fn skip_to_track(
    state: &mut PlaybackState,
    track_id: &String,
    position: i64,
    always_seek: bool,
    now: u64,
) -> (r: Result<Vec<RemoteCommand>, ConsistencyError>)
    requires
        state_wf(*old(state)),
        0 <= position <= 1_000_000,
        now <= u64::MAX - 10_000,
    ensures
        state_wf(*final(state)),
        r is Err <==> (forall|j: int|
            0 <= j < old(state).queue@.len() ==> #[trigger] old(state).queue@[j].id@ != track_id@),
        r is Err ==> *final(state) == *old(state) && r matches Err(
            ConsistencyError::TrackNotInQueue,
        ),
        r matches Ok(cmds) ==> ({
            let pos = choose|pos: int|
                0 <= pos < old(state).queue@.len() && #[trigger] old(state).queue@[pos].id@
                    == track_id@ && forall|j: int|
                    0 <= j < pos ==> #[trigger] old(state).queue@[j].id@ != track_id@;
            let qi = old(state).queue_index as int;
            let moved = qi != pos;
            let seeked = qi == pos || always_seek;
            let skips = if moved {
                skip_count(qi, pos)
            } else {
                0
            };
            &&& final(state).queue_index == pos
            &&& final(state).queue@ == old(state).queue@
            &&& final(state).playlists@ == old(state).playlists@
            &&& final(state).playing == old(state).playing
            &&& final(state).volume == old(state).volume
            &&& final(state).interaction == old(state).interaction
            &&& final(state).last_interaction == now + SEEK_GRACE_MS
            &&& final(state).last_progress_update == now
            &&& final(state).progress == (if seeked {
                seek_target_ms(old(state).queue@[pos].duration_ms, position as int)
            } else {
                0int
            })
            &&& cmds@.len() == skips + (if seeked {
                1int
            } else {
                0int
            })
            &&& forall|k: int|
                0 <= k < skips ==> #[trigger] cmds@[k] == (if qi < pos {
                    RemoteCommand::SkipNext
                } else {
                    RemoteCommand::SkipPrevious
                })
            &&& seeked ==> (cmds@.last() matches RemoteCommand::SeekTo { position_ms }
                && position_ms == seek_target_ms(
                    old(state).queue@[pos].duration_ms,
                    position as int,
                ))
        }),
{
    let found = state.find_track_by_id(track_id);
    let pos: usize = match found {
        Some(p) => p,
        None => {
            return Err(ConsistencyError::TrackNotInQueue);
        },
    };
    let qi: usize = state.queue_index;
    let mut cmds: Vec<RemoteCommand> = Vec::new();

    if qi != pos {
        state.queue_index = pos;
        state.progress = 0;
        state.last_progress_update = now;
        state.last_interaction = now + SEEK_GRACE_MS;

        let forward: bool = qi < pos;
        let diff: usize = if forward {
            pos - qi
        } else {
            qi - pos
        };
        let skips: usize = if diff < MAX_SKIPS {
            diff
        } else {
            MAX_SKIPS
        };
        let mut k: usize = 0;
        while k < skips
            invariant
                0 <= k <= skips,
                cmds@.len() == k,
                forall|j: int|
                    0 <= j < k ==> #[trigger] cmds@[j] == (if forward {
                        RemoteCommand::SkipNext
                    } else {
                        RemoteCommand::SkipPrevious
                    }),
            decreases skips - k,
        {
            if forward {
                cmds.push(RemoteCommand::SkipNext);
            } else {
                cmds.push(RemoteCommand::SkipPrevious);
            }
            k = k + 1;
        }
    }

    if qi == pos || always_seek {
        let duration_ms: u32 = state.queue[pos].duration_ms;
        let target: u32 = if position < SNAP_FRACTION {
            0
        } else {
            assert(0 <= duration_ms as i64 * position <= 0x1_0000_0000i64 * 1_000_000i64)
                by (nonlinear_arith)
                requires
                    0 <= position <= 1_000_000,
                    0 <= duration_ms < 0x1_0000_0000i64,
            ;
            let scaled: i64 = (duration_ms as i64) * position / 1_000_000;
            assert(scaled <= duration_ms as i64) by (nonlinear_arith)
                requires
                    scaled == (duration_ms as i64) * position / 1_000_000,
                    0 <= position <= 1_000_000,
                    0 <= duration_ms,
            ;
            scaled as u32
        };
        state.progress = target;
        state.last_progress_update = now;
        state.last_interaction = now + SEEK_GRACE_MS;
        cmds.push(RemoteCommand::SeekTo { position_ms: target });
    }

    Ok(cmds)
}

/// Views of the playlist ids a rating change removes the track from,
/// walking the playlists in order.
pub open spec fn rating_removal_ids(
    playlists: Seq<CondensedPlaylist>,
    track_id: Seq<char>,
    slot: u8,
) -> Seq<Seq<char>>
    decreases playlists.len(),
{
    if playlists.len() == 0 {
        Seq::empty()
    } else {
        let rest = rating_removal_ids(playlists.drop_last(), track_id, slot);
        let p = playlists.last();
        if p.rating_index is Some && p.rating_index != Some(slot) && has_track(p, track_id) {
            rest.push(p.id@)
        } else {
            rest
        }
    }
}

/// Views of the playlist ids a rating change adds the track to.
pub open spec fn rating_addition_ids(
    playlists: Seq<CondensedPlaylist>,
    track_id: Seq<char>,
    slot: u8,
) -> Seq<Seq<char>>
    decreases playlists.len(),
{
    if playlists.len() == 0 {
        Seq::empty()
    } else {
        let rest = rating_addition_ids(playlists.drop_last(), track_id, slot);
        let p = playlists.last();
        if p.rating_index == Some(slot) && !has_track(p, track_id) {
            rest.push(p.id@)
        } else {
            rest
        }
    }
}

/// What the playlists look like after a rating change: the track leaves
/// every other rating playlist and joins the one holding `slot`.
pub open spec fn rating_applied(
    before: Seq<CondensedPlaylist>,
    after: Seq<CondensedPlaylist>,
    track_id: Seq<char>,
    slot: u8,
) -> bool {
    &&& after.len() == before.len()
    &&& forall|i: int|
        0 <= i < before.len() ==> playlist_shape(#[trigger] before[i], #[trigger] after[i])
    &&& forall|i: int|
        0 <= i < before.len() && #[trigger] before[i].rating_index == Some(slot) ==> has_track(
            after[i],
            track_id,
        )
    &&& forall|i: int|
        0 <= i < before.len() && (#[trigger] before[i].rating_index) is Some
            && before[i].rating_index != Some(slot) ==> !has_track(after[i], track_id)
    &&& forall|i: int|
        0 <= i < before.len() && (#[trigger] before[i].rating_index) is None ==> after[i]
            == before[i]
    &&& forall|i: int, id: Seq<char>|
        0 <= i < before.len() && id != track_id ==> #[trigger] has_track(after[i], id)
            == has_track(before[i], id)
}

/// Move a track onto the rating playlist holding `rating_slot`, removing
/// it from every other rating playlist, and report the remote commands:
/// the removals, then the additions, then a liked-songs membership check.
pub fn update_star_rating(
    state: &mut PlaybackState,
    track_id: &String,
    rating_slot: u8,
    ratings_enabled: bool,
    now: u64,
) -> (cmds: Vec<RemoteCommand>)
    requires
        state_wf(*old(state)),
        rating_slot < 10,
        now <= u64::MAX - 10_000,
    ensures
        state_wf(*final(state)),
        !ratings_enabled ==> *final(state) == *old(state) && cmds@.len() == 0,
        ratings_enabled ==> ({
            let removals = rating_removal_ids(old(state).playlists@, track_id@, rating_slot);
            let additions = rating_addition_ids(old(state).playlists@, track_id@, rating_slot);
            &&& rating_applied(
                old(state).playlists@,
                final(state).playlists@,
                track_id@,
                rating_slot,
            )
            &&& final(state).playing == old(state).playing
            &&& final(state).progress == old(state).progress
            &&& final(state).volume == old(state).volume
            &&& final(state).queue@ == old(state).queue@
            &&& final(state).queue_index == old(state).queue_index
            &&& final(state).interaction == old(state).interaction
            &&& final(state).last_progress_update == old(state).last_progress_update
            &&& final(state).last_interaction == now + MUTATE_GRACE_MS
            &&& cmds@.len() == removals.len() + additions.len() + 1
            &&& forall|k: int|
                0 <= k < removals.len() ==> (#[trigger] cmds@[k] matches
                RemoteCommand::RemoveTrackFromPlaylist { playlist_id, track_id: t }
                    && playlist_id@ == removals[k] && t@ == track_id@)
            &&& forall|k: int|
                removals.len() <= k < removals.len() + additions.len() ==> (#[trigger] cmds@[k]
                    matches RemoteCommand::AddTrackToPlaylist { playlist_id, track_id: t }
                    && playlist_id@ == additions[k - removals.len()] && t@ == track_id@)
            &&& (cmds@.last() matches RemoteCommand::CheckTrackLiked { track_id: t } && t@
                == track_id@)
        }),
{
    if !ratings_enabled {
        return Vec::new();
    }
    state.last_interaction = now + MUTATE_GRACE_MS;

    let mut removals: Vec<RemoteCommand> = Vec::new();
    let mut additions: Vec<RemoteCommand> = Vec::new();
    let ghost before = state.playlists@;

    let mut i: usize = 0;
    while i < state.playlists.len()
        invariant
            state_wf(*old(state)),
            before == old(state).playlists@,
            state.playlists@.len() == before.len(),
            state.playing == old(state).playing,
            state.progress == old(state).progress,
            state.volume == old(state).volume,
            state.queue@ == old(state).queue@,
            state.queue_index == old(state).queue_index,
            state.interaction == old(state).interaction,
            state.last_progress_update == old(state).last_progress_update,
            state.last_interaction == now + MUTATE_GRACE_MS,
            0 <= i <= before.len(),
            forall|j: int| i <= j < before.len() ==> #[trigger] state.playlists@[j] == before[j],
            forall|j: int|
                0 <= j < i ==> playlist_shape(#[trigger] before[j], #[trigger] state.playlists@[j]),
            forall|j: int|
                0 <= j < i && #[trigger] before[j].rating_index == Some(rating_slot) ==> has_track(
                    state.playlists@[j],
                    track_id@,
                ),
            forall|j: int|
                0 <= j < i && (#[trigger] before[j].rating_index) is Some
                    && before[j].rating_index != Some(rating_slot) ==> !has_track(
                    state.playlists@[j],
                    track_id@,
                ),
            forall|j: int|
                0 <= j < i && (#[trigger] before[j].rating_index) is None ==> state.playlists@[j]
                    == before[j],
            forall|j: int, id: Seq<char>|
                0 <= j < i && id != track_id@ ==> #[trigger] has_track(state.playlists@[j], id)
                    == has_track(before[j], id),
            forall|j: int|
                0 <= j < state.playlists@.len() ==> playlist_wf(#[trigger] state.playlists@[j]),
            removals@.len() == rating_removal_ids(before.take(i as int), track_id@, rating_slot).len(),
            forall|k: int|
                0 <= k < removals@.len() ==> (#[trigger] removals@[k] matches
                RemoteCommand::RemoveTrackFromPlaylist { playlist_id, track_id: t }
                    && playlist_id@ == rating_removal_ids(
                    before.take(i as int),
                    track_id@,
                    rating_slot,
                )[k] && t@ == track_id@),
            additions@.len() == rating_addition_ids(before.take(i as int), track_id@, rating_slot).len(),
            forall|k: int|
                0 <= k < additions@.len() ==> (#[trigger] additions@[k] matches
                RemoteCommand::AddTrackToPlaylist { playlist_id, track_id: t } && playlist_id@
                    == rating_addition_ids(before.take(i as int), track_id@, rating_slot)[k] && t@
                    == track_id@),
        decreases before.len() - i,
    {
        assert(before.take(i + 1).drop_last() =~= before.take(i as int));
        assert(before.take(i + 1).last() == before[i as int]);
        let p = &mut state.playlists[i];
        let rating = p.rating_index;
        match rating {
            Some(r) => {
                if r != rating_slot {
                    if p.remove_track(track_id) {
                        let pid = p.id.clone();
                        removals.push(
                            RemoteCommand::RemoveTrackFromPlaylist {
                                playlist_id: pid,
                                track_id: track_id.clone(),
                            },
                        );
                    }
                } else {
                    if p.insert_track(track_id) {
                        let pid = p.id.clone();
                        additions.push(
                            RemoteCommand::AddTrackToPlaylist {
                                playlist_id: pid,
                                track_id: track_id.clone(),
                            },
                        );
                    }
                }
            },
            None => {},
        }
        i = i + 1;
    }
    assert(before.take(before.len() as int) =~= before);
    assert forall|a: int, b: int|
        0 <= a < b < state.playlists@.len() implies #[trigger] state.playlists@[a].id@
        != #[trigger] state.playlists@[b].id@ by {
        assert(playlist_shape(before[a], state.playlists@[a]));
        assert(playlist_shape(before[b], state.playlists@[b]));
    }
    assert forall|a: int, b: int|
        0 <= a < b < state.playlists@.len() && (#[trigger] state.playlists@[a].rating_index)
            is Some implies state.playlists@[a].rating_index
        != #[trigger] state.playlists@[b].rating_index by {
        assert(playlist_shape(before[a], state.playlists@[a]));
        assert(playlist_shape(before[b], state.playlists@[b]));
        assert(before[a].rating_index != before[b].rating_index);
    }

    let mut cmds = removals;
    let mut adds = additions;
    cmds.append(&mut adds);
    cmds.push(RemoteCommand::CheckTrackLiked { track_id: track_id.clone() });
    cmds
}

/// The follow-up to a liked-songs membership check after a rating change:
/// a track rated at or above five half-star slots belongs in liked songs,
/// one below leaves it.
pub fn liked_followup(already_liked: bool, rating_slot: u8, track_id: &String) -> (r: Option<
    RemoteCommand,
>)
    ensures
        already_liked && rating_slot < 5 ==> (r matches Some(
            RemoteCommand::UnlikeTrack { track_id: t },
        ) && t@ == track_id@),
        !already_liked && rating_slot >= 5 ==> (r matches Some(
            RemoteCommand::LikeTrack { track_id: t },
        ) && t@ == track_id@),
        already_liked == (rating_slot >= 5) ==> r is None,
{
    if already_liked && rating_slot < 5 {
        Some(RemoteCommand::UnlikeTrack { track_id: track_id.clone() })
    } else if !already_liked && rating_slot >= 5 {
        Some(RemoteCommand::LikeTrack { track_id: track_id.clone() })
    } else {
        None
    }
}

/// Toggle whether a playlist contains a track.  An unknown playlist id is
/// a consistency error: nothing is mutated.
pub fn toggle_playlist_membership(
    state: &mut PlaybackState,
    track_id: &String,
    playlist_id: &String,
    now: u64,
) -> (r: Result<RemoteCommand, ConsistencyError>)
    requires
        state_wf(*old(state)),
        now <= u64::MAX - 10_000,
    ensures
        state_wf(*final(state)),
        r is Err <==> (forall|i: int|
            0 <= i < old(state).playlists@.len() ==> #[trigger] old(state).playlists@[i].id@
                != playlist_id@),
        r is Err ==> *final(state) == *old(state) && r matches Err(
            ConsistencyError::PlaylistNotFound,
        ),
        r matches Ok(cmd) ==> ({
            let i = choose|i: int|
                0 <= i < old(state).playlists@.len() && #[trigger] old(state).playlists@[i].id@
                    == playlist_id@;
            let was_contained = has_track(old(state).playlists@[i], track_id@);
            &&& final(state).playlists@.len() == old(state).playlists@.len()
            &&& playlist_shape(old(state).playlists@[i], final(state).playlists@[i])
            &&& has_track(final(state).playlists@[i], track_id@) == !was_contained
            &&& forall|id: Seq<char>|
                id != track_id@ ==> #[trigger] has_track(final(state).playlists@[i], id)
                    == has_track(old(state).playlists@[i], id)
            &&& forall|j: int|
                0 <= j < old(state).playlists@.len() && j != i
                    ==> #[trigger] final(state).playlists@[j] == old(state).playlists@[j]
            &&& was_contained ==> (cmd matches RemoteCommand::RemoveTrackFromPlaylist {
                playlist_id: pid,
                track_id: t,
            } && pid@ == playlist_id@ && t@ == track_id@)
            &&& !was_contained ==> (cmd matches RemoteCommand::AddTrackToPlaylist {
                playlist_id: pid,
                track_id: t,
            } && pid@ == playlist_id@ && t@ == track_id@)
            &&& final(state).playing == old(state).playing
            &&& final(state).progress == old(state).progress
            &&& final(state).volume == old(state).volume
            &&& final(state).queue@ == old(state).queue@
            &&& final(state).queue_index == old(state).queue_index
            &&& final(state).interaction == old(state).interaction
            &&& final(state).last_progress_update == old(state).last_progress_update
            &&& final(state).last_interaction == now + MUTATE_GRACE_MS
        }),
{
    let found = state.find_playlist(playlist_id);
    let i: usize = match found {
        Some(i) => i,
        None => {
            return Err(ConsistencyError::PlaylistNotFound);
        },
    };
    let p = &mut state.playlists[i];
    let contained = p.contains_track(track_id);
    let cmd: RemoteCommand;
    if contained {
        p.remove_track(track_id);
        cmd = RemoteCommand::RemoveTrackFromPlaylist {
            playlist_id: playlist_id.clone(),
            track_id: track_id.clone(),
        };
    } else {
        p.insert_track(track_id);
        cmd = RemoteCommand::AddTrackToPlaylist {
            playlist_id: playlist_id.clone(),
            track_id: track_id.clone(),
        };
    }
    state.last_interaction = now + MUTATE_GRACE_MS;
    Ok(cmd)
}

/// Start or pause playback locally and report the remote command.
pub fn toggle_playing(state: &mut PlaybackState, play: bool, now: u64) -> (cmd: RemoteCommand)
    requires
        state_wf(*old(state)),
        now <= u64::MAX - 10_000,
    ensures
        state_wf(*final(state)),
        final(state).playing == play,
        final(state).progress == old(state).progress,
        final(state).volume == old(state).volume,
        final(state).queue@ == old(state).queue@,
        final(state).queue_index == old(state).queue_index,
        final(state).playlists@ == old(state).playlists@,
        final(state).interaction == old(state).interaction,
        final(state).last_progress_update == old(state).last_progress_update,
        final(state).last_interaction == now + MUTATE_GRACE_MS,
        cmd == (RemoteCommand::SetPlaying { play }),
{
    state.playing = play;
    state.last_interaction = now + MUTATE_GRACE_MS;
    RemoteCommand::SetPlaying { play }
}

/// The remote command that sets the playback device volume.
pub fn set_volume(volume_percent: u8) -> (cmd: RemoteCommand)
    requires
        volume_percent <= 100,
    ensures
        cmd == (RemoteCommand::SetVolume { percent: volume_percent }),
{
    RemoteCommand::SetVolume { percent: volume_percent }
}

/// After a rating change, the track belongs to at most one rating playlist,
/// and that playlist holds the requested slot.
pub proof fn lemma_rating_mutual_exclusion(
    before: Seq<CondensedPlaylist>,
    after: Seq<CondensedPlaylist>,
    s: PlaybackState,
    track_id: Seq<char>,
    slot: u8,
)
    requires
        state_wf(s),
        s.playlists@ == after,
        rating_applied(before, after, track_id, slot),
        forall|i: int|
            0 <= i < before.len() ==> #[trigger] before[i].rating_index == after[i].rating_index,
    ensures
        forall|i: int|
            0 <= i < after.len() && (#[trigger] after[i].rating_index) is Some && has_track(
                after[i],
                track_id,
            ) ==> after[i].rating_index == Some(slot),
        forall|i: int, j: int|
            0 <= i < j < after.len() && (#[trigger] after[i].rating_index) is Some
                && (#[trigger] after[j].rating_index) is Some && has_track(after[i], track_id)
                && has_track(after[j], track_id) ==> false,
{
    assert forall|i: int|
        0 <= i < after.len() && (#[trigger] after[i].rating_index) is Some && has_track(
            after[i],
            track_id,
        ) implies after[i].rating_index == Some(slot) by {
        if before[i].rating_index != Some(slot) {
            assert(!has_track(after[i], track_id));
        }
    }
}

} // verus!
