//! Commands for the remote playback service.  Interaction handlers mutate
//! the local store synchronously and return these values; the caller issues
//! them to the service from background tasks, fire-and-forget.

use vstd::prelude::*;

verus! {

/// One remote mutation or query, expressed as plain data.
#[derive(Debug)]
pub enum RemoteCommand {
    /// Skip forward by one track.
    SkipNext,
    /// Skip backward by one track.
    SkipPrevious,
    /// Seek within the current track to an absolute position.
    SeekTo { position_ms: u32 },
    /// Start or pause playback.
    SetPlaying { play: bool },
    /// Set the playback device volume, as a percentage.
    SetVolume { percent: u8 },
    /// Add a track to a playlist.
    AddTrackToPlaylist { playlist_id: String, track_id: String },
    /// Remove a track from a playlist.
    RemoveTrackFromPlaylist { playlist_id: String, track_id: String },
    /// Ask whether a track is in the user's liked songs.
    CheckTrackLiked { track_id: String },
    /// Save a track to the user's liked songs.
    LikeTrack { track_id: String },
    /// Remove a track from the user's liked songs.
    UnlikeTrack { track_id: String },
}

/// A consistency error: the operation referred to a track or playlist the
/// local store does not hold; the operation was aborted with no mutation.
#[derive(Debug)]
pub enum ConsistencyError {
    /// The named track is not in the queue.
    TrackNotInQueue,
    /// The named playlist is unknown.
    PlaylistNotFound,
}

} // verus!
