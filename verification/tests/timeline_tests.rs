use cantus::cache::{update_input_region, ImageAtlas, ImageCache, StrMap};
use cantus::config::Config;
use cantus::geom::Point;
use cantus::interaction::TrackHitbox;
use cantus::outputs::{select_output, str_contains, OutputInfo};
use cantus::playhead::{speed_bias, SparkSample};
use cantus::render::RenderState;
use cantus::scene::{sort_playlist_entries, str_lt};
use cantus::state::{Album, Artist, CondensedPlaylist, PlaybackState, Track};
use cantus::swatch::{filter_colourful_pixels, store_palette, update_color_palettes};
use cantus::timeline::{
    advance_offset, layout_tracks, playback_elapsed, stack_past_tracks, sum_prefix_duration,
};
use cantus::CantusApp;

fn artist() -> Artist {
    Artist { id: "ar1".to_string(), name: "Artist".to_string(), image: None }
}

fn track(id: &str, name: &str, duration_ms: u32) -> Track {
    Track {
        id: id.to_string(),
        name: name.to_string(),
        album: Album { id: format!("al-{id}"), image: None },
        artist: artist(),
        duration_ms,
    }
}

fn test_config() -> Config {
    // A two-thousand-pixel panel with a two-hundred-pixel history strip
    // and a ten-minute window on each side.
    Config {
        width: 2_000_000,
        height: 60_000,
        history_width: 200_000,
        timeline_past_ms: 600_000,
        timeline_future_ms: 1_200_000,
        ratings_enabled: true,
    }
}

#[test]
fn playhead_position_is_fixed() {
    let cfg = test_config();
    // The future strip is 2000 - 200 - 16 = 1784 pixels over 1200
    // seconds, and the playhead sits 600 seconds in.
    assert_eq!(cfg.playhead_x(), 200_000 + 600_000i64 * 1_784_000 / 1_200_000);
}

#[test]
fn layout_places_current_track_at_playhead() {
    let cfg = test_config();
    let queue = vec![track("a", "A", 200_000), track("b", "B", 180_000)];
    // Playback is 50 seconds into track A.
    let renders = layout_tracks(&queue, -50_000, &cfg);
    assert_eq!(renders.len(), 2);
    assert!(renders[0].is_current);
    assert!(!renders[1].is_current);
    assert_eq!(renders[0].ms_until_start, 50_000);
    // Track B starts after A plus the four-second spacing.
    assert_eq!(renders[1].ms_until_start, 200_000 - 50_000 + 4_000);
}

#[test]
fn layout_stops_beyond_window() {
    let cfg = test_config();
    let queue = vec![
        track("a", "A", 200_000),
        track("b", "B", 200_000),
        track("c", "C", 200_000),
        track("d", "D", 200_000),
    ];
    // The window's right edge is 600 seconds of track time out; track D
    // starts beyond it.
    let renders = layout_tracks(&queue, 10_000, &cfg);
    assert_eq!(renders.len(), 3);
}

#[test]
fn stacking_collapses_past_tracks_in_order() {
    // Two tracks fully left of the history strip collapse to the fixed
    // art-only width and stand left-to-right in queue order.
    let cfg = test_config();
    let queue = vec![
        track("a", "A", 120_000),
        track("b", "B", 120_000),
        track("c", "C", 120_000),
    ];
    // Playback far beyond: A and B lie fully before the window's left
    // edge, C still reaches into it.
    let mut renders = layout_tracks(&queue, -900_000, &cfg);
    stack_past_tracks(&mut renders, &cfg);
    assert!(renders[0].art_only);
    assert!(renders[1].art_only);
    assert!(!renders[2].art_only);
    assert_eq!(renders[0].width, cfg.height);
    assert_eq!(renders[1].width, cfg.height);
    assert!(renders[0].start_x < renders[1].start_x);
}

#[test]
fn elapsed_extrapolates_only_while_playing() {
    let mut s = PlaybackState::new();
    s.progress = 5_000;
    s.last_progress_update = 1_000;
    s.playing = false;
    assert_eq!(playback_elapsed(&s, 11_000), 5_000);
    s.playing = true;
    assert_eq!(playback_elapsed(&s, 11_000), 15_000);
}

#[test]
fn prefix_duration_sums_durations() {
    let queue = vec![track("a", "A", 100), track("b", "B", 200), track("c", "C", 300)];
    assert_eq!(sum_prefix_duration(&queue, 0), 0);
    assert_eq!(sum_prefix_duration(&queue, 2), 300);
    assert_eq!(sum_prefix_duration(&queue, 3), 600);
}

#[test]
fn offset_eases_toward_distant_targets() {
    // A big discrepancy closes at 3.5 times the frame delta instead of
    // snapping; a small one snaps to the target.
    let mut rs = RenderState::new(0);
    rs.track_offset_ms = 0;
    let (current, _avg) = advance_offset(&mut rs, 10_000, false, 100);
    // diff * 7 * dt / 2000 = 10000 * 7 * 100 / 2000 = 3500.
    assert_eq!(current, 3_500);
    let (current, _avg) = advance_offset(&mut rs, 3_600, false, 100);
    assert_eq!(current, 3_600);
    // While dragging the offset follows the pointer exactly.
    let (current, _avg) = advance_offset(&mut rs, 50_000, true, 100);
    assert_eq!(current, 50_000);
}

#[test]
fn lerp_and_easing_are_exact() {
    assert_eq!(cantus::geom::lerp_frac(0, 500, 1500), 500);
    assert_eq!(cantus::geom::lerp_frac(1_000_000, 500, 1500), 1500);
    assert_eq!(cantus::geom::lerp_frac(250_000, 500, 1500), 750);
    let mut v: i64 = 100;
    cantus::geom::move_towards(&mut v, 1000, 200);
    assert_eq!(v, 300);
    cantus::geom::move_towards(&mut v, 350, 200);
    assert_eq!(v, 350);
}

#[test]
fn speed_bias_is_fifth_root_clamped() {
    assert_eq!(speed_bias(0), 0);
    assert_eq!(speed_bias(1), 1_000);
    assert_eq!(speed_bias(32), 2_000);
    assert_eq!(speed_bias(243), 3_000);
    assert_eq!(speed_bias(100_000), 3_000);
    assert_eq!(speed_bias(-32), -2_000);
}

#[test]
fn scene_builds_frame_outputs() {
    let cfg = test_config();
    let mut app = CantusApp::new(0);
    let mut s = PlaybackState::new();
    s.queue.push(track("a", "A", 200_000));
    s.queue.push(track("b", "B", 180_000));
    s.playing = true;
    s.progress = 50_000;
    s.volume = Some(80);
    let palettes: StrMap<Option<[u32; 4]>> = StrMap::new();
    let sparks: Vec<SparkSample> = (0..20)
        .map(|_| SparkSample { y_frac: 500, vel_pick: 50, duration_ms: 1_300, palette_pick: 0 })
        .collect();
    app.create_scene(&s, &palettes, &cfg, 16, &sparks);
    assert_eq!(app.render_state.last_update_ms, 16);
    assert_eq!(app.interaction.track_hitboxes.len(), 2);
    assert_eq!(app.background_pills.len(), 2);
    assert_eq!(app.global_uniforms.playhead_x, cfg.playhead_x());
    assert_eq!(app.global_uniforms.time_ms, 16);
    assert_eq!(app.playhead_info.volume, 800);
    // An empty queue clears the frame outputs.
    let empty = PlaybackState::new();
    app.create_scene(&empty, &palettes, &cfg, 32, &sparks);
    assert_eq!(app.background_pills.len(), 0);
    assert_eq!(app.icon_pills.len(), 0);
}

#[test]
fn input_region_updates_only_on_change() {
    let mut app = CantusApp::new(0);
    app.interaction.track_hitboxes.push(TrackHitbox {
        track_id: "t".to_string(),
        rect: cantus::geom::Rect { x0: 0, y0: 0, x1: 500_000, y1: 60_000 },
        range_start: 0,
        range_end: 500_000,
    });
    let first = update_input_region(&mut app.interaction);
    assert!(first.is_some());
    assert_eq!(first.unwrap().len(), 1);
    // Same hitboxes: same fingerprint, no region update.
    let second = update_input_region(&mut app.interaction);
    assert!(second.is_none());
    // A hundred-pixel move lands in another bucket.
    app.interaction.track_hitboxes[0].rect.x0 = 100_000;
    let third = update_input_region(&mut app.interaction);
    assert!(third.is_some());
}

#[test]
fn atlas_allocates_lowest_free_slot() {
    let mut atlas = ImageAtlas::new(2);
    assert_eq!(atlas.lookup(&"u1".to_string()), None);
    assert_eq!(atlas.allocate(&"u1".to_string()), Some(0));
    assert_eq!(atlas.allocate(&"u2".to_string()), Some(1));
    assert_eq!(atlas.allocate(&"u3".to_string()), None);
    assert_eq!(atlas.lookup(&"u1".to_string()), Some(0));
    // Pruning drops slots not referenced this frame.
    atlas.mark_all_unused();
    assert_eq!(atlas.lookup(&"u2".to_string()), Some(1));
    atlas.prune_unused();
    assert_eq!(atlas.lookup(&"u1".to_string()), None);
    assert_eq!(atlas.lookup(&"u2".to_string()), Some(1));
}

#[test]
fn image_cache_claims_each_url_once() {
    let mut cache = ImageCache::new();
    assert!(cache.begin_fetch(&"u1".to_string()));
    assert!(!cache.begin_fetch(&"u1".to_string()));
    cache.store_image("u1".to_string(), vec![0, 0, 0, 255]);
    assert!(!cache.begin_fetch(&"u1".to_string()));
}

#[test]
fn colourful_filter_keeps_saturated_pixels() {
    // First pixel grey (spread 0), second saturated red (spread 200).
    let pixels = vec![100, 100, 100, 255, 250, 50, 50, 255];
    let (filtered, colourful) = filter_colourful_pixels(&pixels);
    assert!(colourful);
    assert_eq!(filtered, vec![250, 50, 50, 255]);
    let grey = vec![10, 10, 10, 255];
    let (filtered, colourful) = filter_colourful_pixels(&grey);
    assert!(!colourful);
    assert!(filtered.is_empty());
}

#[test]
fn palette_jobs_cover_loaded_albums_once() {
    let mut images = ImageCache::new();
    let mut artists: StrMap<Option<String>> = StrMap::new();
    let mut palettes: StrMap<Option<[u32; 4]>> = StrMap::new();
    let mut t1 = track("x", "X", 1000);
    t1.album.image = Some("url-x".to_string());
    let t2 = t1.clone_for_test();
    let queue = vec![t1, t2];
    // Not loaded yet: no jobs.
    let jobs = update_color_palettes(&queue, &images, &artists, &mut palettes);
    assert!(jobs.is_empty());
    // Loaded and colourful: one job despite two queue entries.
    images.begin_fetch(&"url-x".to_string());
    images.store_image("url-x".to_string(), vec![250, 10, 10, 255]);
    let jobs = update_color_palettes(&queue, &images, &artists, &mut palettes);
    assert_eq!(jobs.len(), 1);
    assert_eq!(jobs[0].album_id, "al-x");
    assert_eq!(jobs[0].pixels, vec![250, 10, 10, 255]);
    // The sentinel blocks a second round until the palette lands.
    let jobs = update_color_palettes(&queue, &images, &artists, &mut palettes);
    assert!(jobs.is_empty());
    store_palette(&mut palettes, "al-x".to_string(), [1, 2, 3, 4]);
    let jobs = update_color_palettes(&queue, &images, &artists, &mut palettes);
    assert!(jobs.is_empty());
    // A grey album without artist artwork waits for it.
    let mut t3 = track("y", "Y", 1000);
    t3.album.image = Some("url-y".to_string());
    images.begin_fetch(&"url-y".to_string());
    images.store_image("url-y".to_string(), vec![9, 9, 9, 255]);
    let jobs = update_color_palettes(&vec![t3], &images, &artists, &mut palettes);
    assert!(jobs.is_empty());
    // Once the artist portrait is loaded and colourful, it steps in.
    artists.insert("ar1".to_string(), Some("url-ar".to_string()));
    images.begin_fetch(&"url-ar".to_string());
    images.store_image("url-ar".to_string(), vec![10, 240, 10, 255]);
    let mut t4 = track("y", "Y", 1000);
    t4.album.image = Some("url-y".to_string());
    let jobs = update_color_palettes(&vec![t4], &images, &artists, &mut palettes);
    assert_eq!(jobs.len(), 1);
    assert_eq!(jobs[0].pixels, vec![10, 240, 10, 255]);
}

#[test]
fn playlist_icons_sort_contained_first_then_by_name() {
    let mk = |id: &str, name: &str| CondensedPlaylist {
        id: id.to_string(),
        name: name.to_string(),
        image_url: None,
        tracks: Vec::new(),
        rating_index: None,
        tracks_total: 0,
        snapshot_id: String::new(),
    };
    let playlists = vec![mk("a", "Zeta"), mk("b", "Alpha"), mk("c", "Mid")];
    let items = vec![(0usize, false), (1usize, false), (2usize, true)];
    let sorted = sort_playlist_entries(&playlists, items);
    assert_eq!(sorted, vec![(2, true), (1, false), (0, false)]);
    assert!(str_lt(&"Alpha".to_string(), &"Zeta".to_string()));
    assert!(!str_lt(&"Zeta".to_string(), &"Alpha".to_string()));
    assert!(!str_lt(&"Mid".to_string(), &"Mid".to_string()));
}

#[test]
fn output_matching_searches_all_descriptors() {
    let o = OutputInfo {
        name: Some("DP-3".to_string()),
        description: Some("Office display".to_string()),
        make: Some("Acme".to_string()),
        model: Some("UltraWide 34".to_string()),
    };
    assert!(o.matches_target(&"DP-3".to_string()));
    assert!(o.matches_target(&"Acme UltraWide".to_string()));
    assert!(o.matches_target(&"Office".to_string()));
    assert!(!o.matches_target(&"HDMI".to_string()));
    assert!(str_contains(&"hello world".to_string(), &"lo wo".to_string()));
    assert!(!str_contains(&"hello".to_string(), &"world".to_string()));

    let outputs = vec![
        OutputInfo { name: Some("eDP-1".to_string()), description: None, make: None, model: None },
        o,
    ];
    assert_eq!(select_output(&outputs, &Some("Acme".to_string())), 1);
    assert_eq!(select_output(&outputs, &Some("HDMI".to_string())), 0);
    assert_eq!(select_output(&outputs, &None), 0);
}

#[test]
fn demo_state_distributes_queue_over_playlists() {
    let ids: Vec<String> = (0..51).map(|i| format!("id-{i:02}")).collect();
    let s = cantus::demo::debug_playbackstate(&ids);
    assert_eq!(s.queue.len(), 20);
    assert_eq!(s.queue_index, 7);
    assert_eq!(s.progress, 5213);
    assert!(s.playing);
    assert_eq!(s.playlists.len(), 11);
    assert_eq!(s.playlists[0].name, "5.0");
    assert_eq!(s.playlists[0].rating_index, Some(9));
    assert_eq!(s.playlists[9].rating_index, Some(0));
    assert_eq!(s.playlists[10].name, "Current");
    assert_eq!(s.playlists[10].rating_index, None);
    for k in 0..10 {
        assert_eq!(s.playlists[k].tracks.len(), 2);
        assert!(s.playlists[k].tracks.contains(&s.queue[2 * k].id));
        assert!(s.playlists[k].tracks.contains(&s.queue[2 * k + 1].id));
    }
    assert!(s.playlists[10].tracks.is_empty());
    assert_eq!(s.queue[0].name, "King Of My Heart");
}

trait CloneForTest {
    fn clone_for_test(&self) -> Self;
}

impl CloneForTest for Track {
    fn clone_for_test(&self) -> Track {
        Track {
            id: self.id.clone(),
            name: self.name.clone(),
            album: Album { id: self.album.id.clone(), image: self.album.image.clone() },
            artist: Artist {
                id: self.artist.id.clone(),
                name: self.artist.name.clone(),
                image: self.artist.image.clone(),
            },
            duration_ms: self.duration_ms,
        }
    }
}
