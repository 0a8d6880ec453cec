use cantus::commands::{ConsistencyError, RemoteCommand};
use cantus::config::Config;
use cantus::geom::{Point, Rect};
use cantus::interaction::{ClickAction, IconHitbox, TrackHitbox};
use cantus::remote::{
    liked_followup, set_volume, skip_to_track, toggle_playing, toggle_playlist_membership,
    update_star_rating,
};
use cantus::render::BurstSample;
use cantus::state::{Album, Artist, CondensedPlaylist, PlaybackState, Track};
use cantus::CantusApp;

fn artist() -> Artist {
    Artist { id: "ar1".to_string(), name: "Artist".to_string(), image: None }
}

fn track(id: &str, name: &str, duration_ms: u32) -> Track {
    Track {
        id: id.to_string(),
        name: name.to_string(),
        album: Album { id: format!("al-{id}"), image: None },
        artist: artist(),
        duration_ms,
    }
}

fn rating_playlist(id: &str, slot: u8, members: &[&str]) -> CondensedPlaylist {
    CondensedPlaylist {
        id: id.to_string(),
        name: format!("{}.{}", (slot + 1) / 2, if slot % 2 == 1 { "0" } else { "5" }),
        image_url: None,
        tracks: members.iter().map(|m| m.to_string()).collect(),
        rating_index: Some(slot),
        tracks_total: members.len() as u32,
        snapshot_id: String::new(),
    }
}

fn test_config() -> Config {
    Config {
        width: 2000_000,
        height: 60_000,
        history_width: 200_000,
        timeline_past_ms: 600_000,
        timeline_future_ms: 600_000,
        ratings_enabled: true,
    }
}

fn burst() -> Vec<BurstSample> {
    (0..20).map(|_| BurstSample { vel_x: 100, vel_y: 100, duration_ms: 1000 }).collect()
}

#[test]
fn volume_scrolls_clamp_at_bounds() {
    // Repeated decrement from 100 walks to 0 in five-percent steps and
    // never goes below; repeated increment walks back to 100 and never
    // beyond.
    let mut s = PlaybackState::new();
    s.volume = Some(100);
    for _ in 0..25 {
        CantusApp::handle_scroll(&mut s, 1, 0);
    }
    assert_eq!(s.volume, Some(0));
    for _ in 0..25 {
        CantusApp::handle_scroll(&mut s, -1, 0);
    }
    assert_eq!(s.volume, Some(100));
    // One step is exactly five percent and carries the remote command.
    let cmd = CantusApp::handle_scroll(&mut s, 1, 0);
    assert_eq!(s.volume, Some(95));
    assert!(matches!(cmd, Some(RemoteCommand::SetVolume { percent: 95 })));
}

#[test]
fn scroll_without_volume_does_nothing() {
    let mut s = PlaybackState::new();
    let cmd = CantusApp::handle_scroll(&mut s, 1, 0);
    assert!(cmd.is_none());
    assert_eq!(s.volume, None);
}

#[test]
fn drag_threshold_resolves_press_as_click() {
    // Movement strictly under two pixels on both axes keeps the press a
    // press; crossing on either axis alone starts a drag.
    let mut app = CantusApp::new(10_000);
    let mut s = PlaybackState::new();
    app.left_click(&mut s);
    app.interaction.mouse_position = Point { x: 1999, y: 1999 };
    app.handle_mouse_drag(&mut s);
    assert!(!app.interaction.dragging);
    app.interaction.mouse_position = Point { x: 2000, y: 0 };
    app.handle_mouse_drag(&mut s);
    assert!(app.interaction.dragging);

    let mut app2 = CantusApp::new(10_000);
    app2.left_click(&mut s);
    app2.interaction.mouse_position = Point { x: 0, y: 2000 };
    app2.handle_mouse_drag(&mut s);
    assert!(app2.interaction.dragging);
}

#[test]
fn seek_snaps_to_start_below_threshold() {
    // A seek at fractional position 0.02 of a 200000ms track resolves
    // to absolute zero.
    let mut s = PlaybackState::new();
    s.queue.push(track("t1", "T1", 200_000));
    s.queue_index = 0;
    let cmds = skip_to_track(&mut s, &"t1".to_string(), 20_000, false, 1000).unwrap();
    assert_eq!(s.progress, 0);
    assert!(matches!(cmds[0], RemoteCommand::SeekTo { position_ms: 0 }));
    // At 0.05 it seeks to the exact absolute position.
    let cmds = skip_to_track(&mut s, &"t1".to_string(), 50_000, false, 1000).unwrap();
    assert_eq!(s.progress, 10_000);
    assert!(matches!(cmds[0], RemoteCommand::SeekTo { position_ms: 10_000 }));
}

#[test]
fn skip_moves_index_and_issues_skips() {
    let mut s = PlaybackState::new();
    for i in 0..5 {
        s.queue.push(track(&format!("t{i}"), &format!("T{i}"), 100_000));
    }
    s.queue_index = 1;
    let cmds = skip_to_track(&mut s, &"t4".to_string(), 500_000, false, 1000).unwrap();
    assert_eq!(s.queue_index, 4);
    assert_eq!(s.progress, 0);
    assert_eq!(s.last_interaction, 3000);
    assert_eq!(cmds.len(), 3);
    assert!(cmds.iter().all(|c| matches!(c, RemoteCommand::SkipNext)));
    // Rewinding issues previous-skips.
    let cmds = skip_to_track(&mut s, &"t2".to_string(), 500_000, false, 2000).unwrap();
    assert_eq!(s.queue_index, 2);
    assert_eq!(cmds.len(), 2);
    assert!(cmds.iter().all(|c| matches!(c, RemoteCommand::SkipPrevious)));
}

#[test]
fn skip_unknown_track_is_consistency_error() {
    let mut s = PlaybackState::new();
    s.queue.push(track("t1", "T1", 1000));
    let r = skip_to_track(&mut s, &"missing".to_string(), 0, false, 0);
    assert!(matches!(r, Err(ConsistencyError::TrackNotInQueue)));
    assert_eq!(s.progress, 0);
    assert_eq!(s.queue_index, 0);
}

#[test]
fn rating_moves_track_between_slots() {
    // After set-rating, the track belongs to exactly the requested
    // rating playlist and no other.
    let mut s = PlaybackState::new();
    s.playlists.push(rating_playlist("p0", 0, &["t1"]));
    s.playlists.push(rating_playlist("p5", 5, &[]));
    s.playlists.push(rating_playlist("p9", 9, &["t1"]));
    let cmds = update_star_rating(&mut s, &"t1".to_string(), 5, true, 1000);
    let member: Vec<bool> =
        s.playlists.iter().map(|p| p.tracks.contains(&"t1".to_string())).collect();
    assert_eq!(member, vec![false, true, false]);
    assert_eq!(s.last_interaction, 1500);
    // Two removals, one addition, then the liked-songs check.
    assert_eq!(cmds.len(), 4);
    assert!(matches!(&cmds[0], RemoteCommand::RemoveTrackFromPlaylist { playlist_id, .. } if playlist_id == "p0"));
    assert!(matches!(&cmds[1], RemoteCommand::RemoveTrackFromPlaylist { playlist_id, .. } if playlist_id == "p9"));
    assert!(matches!(&cmds[2], RemoteCommand::AddTrackToPlaylist { playlist_id, .. } if playlist_id == "p5"));
    assert!(matches!(&cmds[3], RemoteCommand::CheckTrackLiked { .. }));
}

#[test]
fn rating_disabled_is_inert() {
    let mut s = PlaybackState::new();
    s.playlists.push(rating_playlist("p0", 0, &["t1"]));
    let cmds = update_star_rating(&mut s, &"t1".to_string(), 5, false, 1000);
    assert!(cmds.is_empty());
    assert!(s.playlists[0].tracks.contains(&"t1".to_string()));
}

#[test]
fn liked_followup_tracks_five_slot_boundary() {
    let t = "t1".to_string();
    assert!(matches!(liked_followup(true, 4, &t), Some(RemoteCommand::UnlikeTrack { .. })));
    assert!(matches!(liked_followup(false, 5, &t), Some(RemoteCommand::LikeTrack { .. })));
    assert!(liked_followup(true, 5, &t).is_none());
    assert!(liked_followup(false, 4, &t).is_none());
}

#[test]
fn playlist_membership_toggles() {
    let mut s = PlaybackState::new();
    let p = CondensedPlaylist {
        id: "pl".to_string(),
        name: "Chill".to_string(),
        image_url: None,
        tracks: Vec::new(),
        rating_index: None,
        tracks_total: 0,
        snapshot_id: String::new(),
    };
    s.playlists.push(p);
    let cmd = toggle_playlist_membership(&mut s, &"t1".to_string(), &"pl".to_string(), 100);
    assert!(matches!(cmd, Ok(RemoteCommand::AddTrackToPlaylist { .. })));
    assert!(s.playlists[0].tracks.contains(&"t1".to_string()));
    let cmd = toggle_playlist_membership(&mut s, &"t1".to_string(), &"pl".to_string(), 200);
    assert!(matches!(cmd, Ok(RemoteCommand::RemoveTrackFromPlaylist { .. })));
    assert!(!s.playlists[0].tracks.contains(&"t1".to_string()));
    let cmd = toggle_playlist_membership(&mut s, &"t1".to_string(), &"nope".to_string(), 300);
    assert!(matches!(cmd, Err(ConsistencyError::PlaylistNotFound)));
}

#[test]
fn toggle_playing_updates_state_and_command() {
    let mut s = PlaybackState::new();
    let cmd = toggle_playing(&mut s, true, 50);
    assert!(s.playing);
    assert_eq!(s.last_interaction, 550);
    assert!(matches!(cmd, RemoteCommand::SetPlaying { play: true }));
    let cmd = set_volume(40);
    assert!(matches!(cmd, RemoteCommand::SetVolume { percent: 40 }));
}

#[test]
fn click_prefers_icons_then_play_then_tracks() {
    let cfg = test_config();
    let mut app = CantusApp::new(10_000);
    let mut s = PlaybackState::new();
    s.playing = false;
    app.interaction.mouse_position = Point { x: 500_000, y: 30_000 };
    app.interaction.play_hitbox = Rect { x0: 400_000, y0: 0, x1: 600_000, y1: 60_000 };
    app.interaction.track_hitboxes.push(TrackHitbox {
        track_id: "t1".to_string(),
        rect: Rect { x0: 0, y0: 0, x1: 2_000_000, y1: 60_000 },
        range_start: 0,
        range_end: 2_000_000,
    });
    app.interaction.icon_hitboxes.push(IconHitbox {
        rect: Rect { x0: 490_000, y0: 20_000, x1: 510_000, y1: 40_000 },
        track_id: "t1".to_string(),
        playlist_id: None,
        rating_index: Some(2),
    });
    // Icon wins over the playhead and the track; right half of star
    // two selects slot five.
    let a = app.handle_click(&mut s, &cfg, 20_000, &burst());
    assert!(matches!(a, ClickAction::Rate { rating_slot: 5, .. }));

    // Without icons the playhead control wins.
    app.interaction.icon_hitboxes.clear();
    let a = app.handle_click(&mut s, &cfg, 20_000, &burst());
    assert!(matches!(a, ClickAction::TogglePlay { play: true }));

    // Outside the playhead the topmost track takes the click as a seek.
    app.interaction.mouse_position = Point { x: 1_000_000, y: 30_000 };
    let a = app.handle_click(&mut s, &cfg, 20_000, &burst());
    match a {
        ClickAction::SeekTrack { track_id, position } => {
            assert_eq!(track_id, "t1");
            assert_eq!(position, 500_000);
        },
        other => panic!("unexpected action {:?}", action_name(&other)),
    }
}

#[test]
fn click_near_left_edge_snaps_to_track_start() {
    let cfg = test_config();
    let mut app = CantusApp::new(10_000);
    let mut s = PlaybackState::new();
    app.interaction.mouse_position = Point { x: 210_000, y: 30_000 };
    app.interaction.track_hitboxes.push(TrackHitbox {
        track_id: "t1".to_string(),
        rect: Rect { x0: 0, y0: 0, x1: 2_000_000, y1: 60_000 },
        range_start: 0,
        range_end: 2_000_000,
    });
    let a = app.handle_click(&mut s, &cfg, 20_000, &burst());
    assert!(matches!(a, ClickAction::SeekTrack { position: 0, .. }));
}

#[test]
fn click_blocked_while_interaction_in_flight() {
    let cfg = test_config();
    let mut app = CantusApp::new(10_000);
    let mut s = PlaybackState::new();
    s.interaction = true;
    app.interaction.play_hitbox = Rect { x0: -10, y0: -10, x1: 10, y1: 10 };
    let a = app.handle_click(&mut s, &cfg, 20_000, &burst());
    assert!(matches!(a, ClickAction::Nothing));
    assert!(s.interaction);
}

#[test]
fn release_resolves_drag_target() {
    let cfg = test_config();
    let mut app = CantusApp::new(10_000);
    let mut s = PlaybackState::new();
    app.interaction.dragging = true;
    app.interaction.mouse_down = true;
    app.interaction.drag_track = Some(cantus::interaction::DragTarget {
        track_id: "t1".to_string(),
        position: 250_000,
    });
    let out = app.left_click_released(&mut s, &cfg, 30_000, &burst());
    assert!(matches!(out.click, ClickAction::Nothing));
    let drag = out.drag.expect("drag target should be reported");
    assert_eq!(drag.track_id, "t1");
    assert_eq!(drag.position, 250_000);
    assert!(!app.interaction.dragging);
    assert!(!app.interaction.mouse_down);
    assert!(app.interaction.drag_track.is_none());
    assert_eq!(app.interaction.last_expansion_ms, 30_000);
}

#[test]
fn cancel_drag_clears_flags() {
    let mut app = CantusApp::new(10_000);
    let mut s = PlaybackState::new();
    app.interaction.dragging = true;
    app.interaction.drag_origin = Some(Point { x: 1, y: 2 });
    app.right_click(&mut s);
    assert!(!app.interaction.dragging);
    assert!(app.interaction.drag_origin.is_none());
    assert!(!s.interaction);
}

fn action_name(a: &ClickAction) -> &'static str {
    match a {
        ClickAction::Nothing => "nothing",
        ClickAction::Rate { .. } => "rate",
        ClickAction::TogglePlaylist { .. } => "toggle-playlist",
        ClickAction::TogglePlay { .. } => "toggle-play",
        ClickAction::SeekTrack { .. } => "seek",
    }
}
