//! The shared playback-state store: queue, progress, volume and playlist
//! memberships, together with the well-formedness invariants that every
//! transform preserves.  Identifiers are plain strings; timestamps are
//! milliseconds on a monotonic clock supplied by the caller.

use vstd::prelude::*;

verus! {

/// String equality, exposed with its view-level meaning.
pub fn str_eq(a: &String, b: &String) -> (r: bool)
    ensures
        r == (a@ == b@),
{
    a.eq(b)
}

/// The album a track belongs to.
pub struct Album {
    pub id: String,
    /// URL of the smallest artwork image, when one is known.
    pub image: Option<String>,
}

/// The primary artist of a track.
pub struct Artist {
    pub id: String,
    pub name: String,
    /// URL of the artist's portrait image, when one is known.
    pub image: Option<String>,
}

/// A track as fetched from the remote service.  Immutable once fetched;
/// queue membership is positional.
pub struct Track {
    pub id: String,
    pub name: String,
    pub album: Album,
    pub artist: Artist,
    pub duration_ms: u32,
}

/// A playlist condensed to what the panel needs: its membership set, an
/// optional rating slot, and a change fingerprint used to skip refetches.
pub struct CondensedPlaylist {
    pub id: String,
    pub name: String,
    pub image_url: Option<String>,
    /// Track ids contained in the playlist; no id occurs twice.
    pub tracks: Vec<String>,
    /// Rating slot 0–9 encoding half-star ratings; at most one playlist
    /// holds a given slot.
    pub rating_index: Option<u8>,
    pub tracks_total: u32,
    /// Remote change fingerprint (snapshot token).
    pub snapshot_id: String,
}

/// Whether playlist `p` contains the track id `id`.
pub open spec fn has_track(p: CondensedPlaylist, id: Seq<char>) -> bool {
    exists|i: int| 0 <= i < p.tracks@.len() && #[trigger] p.tracks@[i]@ == id
}

/// A playlist is well formed when its membership list holds no duplicates
/// and its rating slot, if any, is one of the ten half-star slots.
pub open spec fn playlist_wf(p: CondensedPlaylist) -> bool {
    &&& forall|i: int, j: int|
        0 <= i < j < p.tracks@.len() ==> #[trigger] p.tracks@[i]@ != #[trigger] p.tracks@[j]@
    &&& p.rating_index matches Some(r) ==> r < 10
}

/// Everything about a playlist except its membership list.
pub open spec fn playlist_shape(a: CondensedPlaylist, b: CondensedPlaylist) -> bool {
    &&& a.id@ == b.id@
    &&& a.name@ == b.name@
    &&& a.image_url == b.image_url
    &&& a.rating_index == b.rating_index
    &&& a.tracks_total == b.tracks_total
    &&& a.snapshot_id@ == b.snapshot_id@
}

impl CondensedPlaylist {
    /// Linear membership test against the track-id list.
    pub fn contains_track(&self, track_id: &String) -> (b: bool)
        ensures
            b == has_track(*self, track_id@),
    {
        let mut i: usize = 0;
        while i < self.tracks.len()
            invariant
                0 <= i <= self.tracks@.len(),
                forall|j: int| 0 <= j < i ==> #[trigger] self.tracks@[j]@ != track_id@,
            decreases self.tracks@.len() - i,
        {
            if str_eq(&self.tracks[i], track_id) {
                return true;
            }
            i = i + 1;
        }
        false
    }

    /// Insert a track id if it is absent; returns whether it was inserted.
    pub fn insert_track(&mut self, track_id: &String) -> (inserted: bool)
        requires
            playlist_wf(*old(self)),
        ensures
            playlist_wf(*final(self)),
            playlist_shape(*old(self), *final(self)),
            inserted == !has_track(*old(self), track_id@),
            has_track(*final(self), track_id@),
            forall|id: Seq<char>|
                id != track_id@ ==> #[trigger] has_track(*final(self), id) == has_track(
                    *old(self),
                    id,
                ),
            final(self).tracks@.len() == old(self).tracks@.len() + (if inserted {
                1int
            } else {
                0int
            }),
    {
        if self.contains_track(track_id) {
            return false;
        }
        let id = track_id.clone();
        self.tracks.push(id);
        assert forall|id2: Seq<char>|
            id2 != track_id@ implies #[trigger] has_track(*self, id2) == has_track(
            *old(self),
            id2,
        ) by {
            if has_track(*self, id2) {
                let i = choose|i: int| 0 <= i < self.tracks@.len() && #[trigger] self.tracks@[i]@
                    == id2;
                assert(i < old(self).tracks@.len());
                assert(old(self).tracks@[i]@ == id2);
            }
            if has_track(*old(self), id2) {
                let i = choose|i: int|
                    0 <= i < old(self).tracks@.len() && #[trigger] old(self).tracks@[i]@ == id2;
                assert(self.tracks@[i]@ == id2);
            }
        }
        assert(self.tracks@[self.tracks@.len() - 1]@ == track_id@);
        true
    }

    /// Remove a track id if present; returns whether it was removed.
    pub fn remove_track(&mut self, track_id: &String) -> (removed: bool)
        requires
            playlist_wf(*old(self)),
        ensures
            playlist_wf(*final(self)),
            playlist_shape(*old(self), *final(self)),
            removed == has_track(*old(self), track_id@),
            !has_track(*final(self), track_id@),
            forall|id: Seq<char>|
                id != track_id@ ==> #[trigger] has_track(*final(self), id) == has_track(
                    *old(self),
                    id,
                ),
            final(self).tracks@.len() == old(self).tracks@.len() - (if removed {
                1int
            } else {
                0int
            }),
    {
        let mut i: usize = 0;
        while i < self.tracks.len()
            invariant
                *self == *old(self),
                playlist_wf(*old(self)),
                0 <= i <= self.tracks@.len(),
                forall|j: int| 0 <= j < i ==> #[trigger] self.tracks@[j]@ != track_id@,
            decreases self.tracks@.len() - i,
        {
            if str_eq(&self.tracks[i], track_id) {
                let ghost old_tracks = self.tracks@;
                self.tracks.remove(i);
                assert forall|id2: Seq<char>|
                    id2 != track_id@ implies #[trigger] has_track(*self, id2) == has_track(
                    *old(self),
                    id2,
                ) by {
                    if has_track(*self, id2) {
                        let k = choose|k: int|
                            0 <= k < self.tracks@.len() && #[trigger] self.tracks@[k]@ == id2;
                        if k < i {
                            assert(old_tracks[k]@ == id2);
                        } else {
                            assert(old_tracks[k + 1]@ == id2);
                        }
                    }
                    if has_track(*old(self), id2) {
                        let k = choose|k: int|
                            0 <= k < old_tracks.len() && #[trigger] old_tracks[k]@ == id2;
                        if k < i {
                            assert(self.tracks@[k]@ == id2);
                        } else {
                            assert(k != i);
                            assert(self.tracks@[k - 1]@ == id2);
                        }
                    }
                }
                assert forall|k: int|
                    0 <= k < self.tracks@.len() implies #[trigger] self.tracks@[k]@
                    != track_id@ by {
                    if k < i {
                        assert(old_tracks[k]@ != track_id@);
                    } else {
                        assert(old(self).tracks@[k + 1]@ != old(self).tracks@[i as int]@);
                    }
                }
                assert forall|a: int, b: int|
                    0 <= a < b < self.tracks@.len() implies #[trigger] self.tracks@[a]@
                    != #[trigger] self.tracks@[b]@ by {
                    let a2: int = if a < i { a } else { a + 1 };
                    let b2: int = if b < i { b } else { b + 1 };
                    assert(self.tracks@[a]@ == old(self).tracks@[a2]@);
                    assert(self.tracks@[b]@ == old(self).tracks@[b2]@);
                    assert(old(self).tracks@[a2]@ != old(self).tracks@[b2]@);
                }
                return true;
            }
            i = i + 1;
        }
        false
    }
}

/// The shared store: the single source of truth for playback state.
pub struct PlaybackState {
    pub playing: bool,
    /// Progress into the current track, in milliseconds, accurate as of
    /// `last_progress_update`.
    pub progress: u32,
    /// Device volume percentage, when the device reports one.
    pub volume: Option<u8>,
    pub queue: Vec<Track>,
    pub queue_index: usize,
    pub playlists: Vec<CondensedPlaylist>,
    /// Best-effort flag: a user-initiated remote mutation is in flight.
    pub interaction: bool,
    /// Deadline before which remote polls must not overwrite local state.
    pub last_interaction: u64,
    /// When `progress` was last known accurate, on the same clock.
    pub last_progress_update: u64,
}

/// Well-formedness of the shared store.
pub open spec fn state_wf(s: PlaybackState) -> bool {
    &&& s.queue@.len() > 0 ==> s.queue_index < s.queue@.len()
    &&& s.volume matches Some(v) ==> v <= 100
    &&& forall|i: int| 0 <= i < s.playlists@.len() ==> playlist_wf(#[trigger] s.playlists@[i])
    &&& forall|i: int, j: int|
        0 <= i < j < s.playlists@.len() ==> #[trigger] s.playlists@[i].id@
            != #[trigger] s.playlists@[j].id@
    &&& forall|i: int, j: int|
        0 <= i < j < s.playlists@.len() && s.playlists@[i].rating_index is Some
            ==> #[trigger] s.playlists@[i].rating_index != #[trigger] s.playlists@[j].rating_index
}

impl PlaybackState {
    /// An empty store, paused at the start of an empty queue.
    pub fn new() -> (s: PlaybackState)
        ensures
            state_wf(s),
            !s.playing,
            s.progress == 0,
            s.volume is None,
            s.queue@.len() == 0,
            s.queue_index == 0,
            s.playlists@.len() == 0,
            !s.interaction,
            s.last_interaction == 0,
            s.last_progress_update == 0,
    {
        PlaybackState {
            playing: false,
            progress: 0,
            volume: None,
            queue: Vec::new(),
            queue_index: 0,
            playlists: Vec::new(),
            interaction: false,
            last_interaction: 0,
            last_progress_update: 0,
        }
    }

    /// Index of the playlist with the given id, searching in order.
    pub fn find_playlist(&self, playlist_id: &String) -> (r: Option<usize>)
        ensures
            r matches Some(i) ==> i < self.playlists@.len() && self.playlists@[i as int].id@
                == playlist_id@,
            r is None ==> forall|i: int|
                0 <= i < self.playlists@.len() ==> #[trigger] self.playlists@[i].id@
                    != playlist_id@,
    {
        let mut i: usize = 0;
        while i < self.playlists.len()
            invariant
                0 <= i <= self.playlists@.len(),
                forall|j: int| 0 <= j < i ==> #[trigger] self.playlists@[j].id@ != playlist_id@,
            decreases self.playlists@.len() - i,
        {
            if str_eq(&self.playlists[i].id, playlist_id) {
                return Some(i);
            }
            i = i + 1;
        }
        None
    }

    /// First queue position whose track bears the given display name.
    pub fn find_track_by_name(&self, name: &String) -> (r: Option<usize>)
        ensures
            r matches Some(i) ==> i < self.queue@.len() && self.queue@[i as int].name@ == name@
                && forall|j: int| 0 <= j < i ==> #[trigger] self.queue@[j].name@ != name@,
            r is None ==> forall|j: int|
                0 <= j < self.queue@.len() ==> #[trigger] self.queue@[j].name@ != name@,
    {
        let mut i: usize = 0;
        while i < self.queue.len()
            invariant
                0 <= i <= self.queue@.len(),
                forall|j: int| 0 <= j < i ==> #[trigger] self.queue@[j].name@ != name@,
            decreases self.queue@.len() - i,
        {
            if str_eq(&self.queue[i].name, name) {
                return Some(i);
            }
            i = i + 1;
        }
        None
    }

    /// First queue position holding the given track id.
    pub fn find_track_by_id(&self, track_id: &String) -> (r: Option<usize>)
        ensures
            r matches Some(i) ==> i < self.queue@.len() && self.queue@[i as int].id@ == track_id@
                && forall|j: int| 0 <= j < i ==> #[trigger] self.queue@[j].id@ != track_id@,
            r is None ==> forall|j: int|
                0 <= j < self.queue@.len() ==> #[trigger] self.queue@[j].id@ != track_id@,
    {
        let mut i: usize = 0;
        while i < self.queue.len()
            invariant
                0 <= i <= self.queue@.len(),
                forall|j: int| 0 <= j < i ==> #[trigger] self.queue@[j].id@ != track_id@,
            decreases self.queue@.len() - i,
        {
            if str_eq(&self.queue[i].id, track_id) {
                return Some(i);
            }
            i = i + 1;
        }
        None
    }
}

} // verus!
