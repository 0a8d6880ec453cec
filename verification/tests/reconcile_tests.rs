use cantus::reconcile::{
    apply_queue_snapshot, apply_transport_snapshot, playback_poll_due, plan_playlist_sync,
    playlist_pages, queue_poll_due, rating_index_for_name, install_playlist, rating_slot_free,
    PlaylistSyncPlan, SpotifyState, TransportSnapshot,
};
use cantus::state::{Album, Artist, CondensedPlaylist, PlaybackState, Track};

fn artist() -> Artist {
    Artist { id: "ar1".to_string(), name: "Artist".to_string(), image: None }
}

fn track(id: &str, name: &str, duration_ms: u32) -> Track {
    Track {
        id: id.to_string(),
        name: name.to_string(),
        album: Album { id: format!("al-{id}"), image: None },
        artist: artist(),
        duration_ms,
    }
}

fn state_with_queue(names: &[(&str, &str, u32)], index: usize) -> PlaybackState {
    let mut s = PlaybackState::new();
    for (id, name, d) in names {
        s.queue.push(track(id, name, *d));
    }
    s.queue_index = index;
    s
}

#[test]
fn queue_splice_preserves_history() {
    // The previously-current track is found at position 2: the queue
    // becomes old[0..2] ++ snapshot and the index becomes 2.
    let mut s = state_with_queue(
        &[("a", "A", 1000), ("b", "B", 1000), ("c", "C", 1000), ("d", "D", 1000)],
        2,
    );
    let mut spot = SpotifyState::new();
    let snapshot = vec![track("c2", "C", 1000), track("e", "E", 1000), track("f", "F", 1000)];
    let spliced = apply_queue_snapshot(&mut s, &mut spot, snapshot, 1000);
    assert!(spliced);
    assert_eq!(s.queue.len(), 5);
    assert_eq!(s.queue[0].name, "A");
    assert_eq!(s.queue[1].name, "B");
    assert_eq!(s.queue[2].name, "C");
    assert_eq!(s.queue[3].name, "E");
    assert_eq!(s.queue[4].name, "F");
    assert_eq!(s.queue_index, 2);
    assert_eq!(spot.last_grabbed_queue, 1000);
}

#[test]
fn queue_replaced_wholesale_when_name_missing() {
    let mut s = state_with_queue(&[("a", "A", 1000), ("b", "B", 1000)], 1);
    let mut spot = SpotifyState::new();
    let snapshot = vec![track("x", "X", 1000), track("y", "Y", 1000)];
    let spliced = apply_queue_snapshot(&mut s, &mut spot, snapshot, 2000);
    assert!(!spliced);
    assert_eq!(s.queue.len(), 2);
    assert_eq!(s.queue[0].name, "X");
    assert_eq!(s.queue[1].name, "Y");
    assert_eq!(s.queue_index, 0);
}

#[test]
fn queue_replaced_after_context_change() {
    let mut s = state_with_queue(&[("a", "A", 1000), ("b", "B", 1000)], 0);
    let mut spot = SpotifyState::new();
    spot.context_updated = true;
    let snapshot = vec![track("a2", "A", 1000)];
    let spliced = apply_queue_snapshot(&mut s, &mut spot, snapshot, 2000);
    assert!(!spliced);
    assert_eq!(s.queue.len(), 1);
    assert_eq!(s.queue_index, 0);
    assert!(!spot.context_updated);
}

#[test]
fn debounce_blocks_remote_overwrite() {
    // No remote-originated write to playing or progress before the
    // interaction deadline.
    let mut s = state_with_queue(&[("a", "A", 1000)], 0);
    s.playing = true;
    s.progress = 777;
    s.last_interaction = 10_000;
    let mut spot = SpotifyState::new();
    let snap = TransportSnapshot {
        volume_percent: Some(50),
        context_id: None,
        progress_ms: 123,
        is_playing: false,
        current_track: None,
    };
    apply_transport_snapshot(&mut s, &mut spot, snap, 9_999);
    assert!(s.playing);
    assert_eq!(s.progress, 777);
    // Once the deadline passes, the snapshot lands.
    let snap2 = TransportSnapshot {
        volume_percent: Some(50),
        context_id: None,
        progress_ms: 123,
        is_playing: false,
        current_track: None,
    };
    apply_transport_snapshot(&mut s, &mut spot, snap2, 10_000);
    assert!(!s.playing);
    assert_eq!(s.progress, 123);
}

#[test]
fn transport_reanchors_queue_index_by_name() {
    // Scenario: queue A(200000ms), B(180000ms), index 0, progress
    // 190000ms while playing; after 20000ms the poll reports B at
    // 10000ms and reconciliation must follow it.
    let mut s = state_with_queue(&[("a", "A", 200_000), ("b", "B", 180_000)], 0);
    s.playing = true;
    s.progress = 190_000;
    s.last_progress_update = 0;
    s.last_interaction = 0;
    let mut spot = SpotifyState::new();
    let snap = TransportSnapshot {
        volume_percent: Some(100),
        context_id: None,
        progress_ms: 10_000,
        is_playing: true,
        current_track: Some("B".to_string()),
    };
    apply_transport_snapshot(&mut s, &mut spot, snap, 20_000);
    assert_eq!(s.queue_index, 1);
    assert_eq!(s.progress, 10_000);
    assert!(s.playing);
    assert_eq!(s.last_progress_update, 20_000);
}

#[test]
fn transport_missing_name_forces_queue_refetch() {
    let mut s = state_with_queue(&[("a", "A", 1000)], 0);
    let mut spot = SpotifyState::new();
    spot.last_grabbed_queue = 500_000;
    let snap = TransportSnapshot {
        volume_percent: None,
        context_id: None,
        progress_ms: 5,
        is_playing: true,
        current_track: Some("Unknown".to_string()),
    };
    apply_transport_snapshot(&mut s, &mut spot, snap, 600_000);
    assert_eq!(s.queue_index, 0);
    // Deadline rewound a minute into the past to force the refetch.
    assert_eq!(spot.last_grabbed_queue, 540_000);
}

#[test]
fn transport_context_change_is_detected() {
    let mut s = state_with_queue(&[("a", "A", 1000)], 0);
    let mut spot = SpotifyState::new();
    let snap = TransportSnapshot {
        volume_percent: None,
        context_id: Some("ctx-1".to_string()),
        progress_ms: 0,
        is_playing: false,
        current_track: None,
    };
    let changed = apply_transport_snapshot(&mut s, &mut spot, snap, 100_000);
    assert!(changed);
    assert!(spot.context_updated);
    assert_eq!(spot.current_context.as_deref(), Some("ctx-1"));
    let snap2 = TransportSnapshot {
        volume_percent: None,
        context_id: Some("ctx-1".to_string()),
        progress_ms: 0,
        is_playing: false,
        current_track: None,
    };
    let changed2 = apply_transport_snapshot(&mut s, &mut spot, snap2, 200_000);
    assert!(!changed2);
}

#[test]
fn poll_gating_respects_cadences() {
    let mut s = PlaybackState::new();
    let mut spot = SpotifyState::new();
    spot.last_grabbed_playback = 10_000;
    spot.last_grabbed_queue = 10_000;
    s.last_interaction = 0;
    assert!(!playback_poll_due(&s, &spot, 10_500));
    assert!(playback_poll_due(&s, &spot, 11_000));
    assert!(!queue_poll_due(&s, &spot, 24_000));
    assert!(queue_poll_due(&s, &spot, 25_000));
    s.last_interaction = 60_000;
    assert!(!playback_poll_due(&s, &spot, 30_000));
    assert!(!queue_poll_due(&s, &spot, 30_000));
}

#[test]
fn rating_names_map_to_slots() {
    assert_eq!(rating_index_for_name(&"0.5".to_string(), true), Some(0));
    assert_eq!(rating_index_for_name(&"2.5".to_string(), true), Some(4));
    assert_eq!(rating_index_for_name(&"5.0".to_string(), true), Some(9));
    assert_eq!(rating_index_for_name(&"Chill".to_string(), true), None);
    assert_eq!(rating_index_for_name(&"5.0".to_string(), false), None);
}

#[test]
fn playlist_sync_plans() {
    let name = "Chill".to_string();
    let snap = "v2".to_string();
    // Cache hit: reuse.
    let p = plan_playlist_sync(&name, &snap, 120, true, false, &Some("v2".to_string()), &None);
    assert!(matches!(p, PlaylistSyncPlan::Reuse));
    // Held fingerprint current: nothing to do.
    let p = plan_playlist_sync(&name, &snap, 120, true, false, &None, &Some("v2".to_string()));
    assert!(matches!(p, PlaylistSyncPlan::Current));
    // Changed: fetch three pages of fifty for 120 tracks.
    let p = plan_playlist_sync(&name, &snap, 120, true, false, &Some("v1".to_string()), &None);
    assert!(matches!(p, PlaylistSyncPlan::Fetch { num_pages: 3 }));
    // Not a target and not a rating playlist: ignored.
    let p = plan_playlist_sync(&name, &snap, 120, false, false, &None, &None);
    assert!(matches!(p, PlaylistSyncPlan::Ignore));
    // A rating playlist is always relevant when ratings are on.
    let p = plan_playlist_sync(&"3.0".to_string(), &snap, 10, false, true, &None, &None);
    assert!(matches!(p, PlaylistSyncPlan::Fetch { num_pages: 1 }));
}

#[test]
fn playlist_pages_rounds_up() {
    assert_eq!(playlist_pages(0), 0);
    assert_eq!(playlist_pages(1), 1);
    assert_eq!(playlist_pages(50), 1);
    assert_eq!(playlist_pages(51), 2);
    assert_eq!(playlist_pages(u32::MAX), (u32::MAX as u64 + 49).div_euclid(50) as u32);
}

#[test]
fn install_playlist_replaces_by_id() {
    let mut s = PlaybackState::new();
    let p1 = CondensedPlaylist {
        id: "p1".to_string(),
        name: "Chill".to_string(),
        image_url: None,
        tracks: vec!["t1".to_string()],
        rating_index: None,
        tracks_total: 1,
        snapshot_id: "v1".to_string(),
    };
    assert!(rating_slot_free(&s, &p1.id, 0));
    let replaced = install_playlist(&mut s, p1);
    assert!(!replaced);
    assert_eq!(s.playlists.len(), 1);
    let p1b = CondensedPlaylist {
        id: "p1".to_string(),
        name: "Chill".to_string(),
        image_url: None,
        tracks: vec!["t1".to_string(), "t2".to_string()],
        rating_index: None,
        tracks_total: 2,
        snapshot_id: "v2".to_string(),
    };
    let replaced = install_playlist(&mut s, p1b);
    assert!(replaced);
    assert_eq!(s.playlists.len(), 1);
    assert_eq!(s.playlists[0].snapshot_id, "v2");
    assert_eq!(s.playlists[0].tracks.len(), 2);
}
