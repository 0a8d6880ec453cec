//! The pointer-interaction state machine: press, drag and click
//! resolution, hit-testing against the frame's geometry, volume scrolling,
//! and the dispatch decision for each click.

use crate::commands::RemoteCommand;
use crate::config::{Config, PANEL_START};
use crate::geom::{rect_contains, Point, Rect};
use crate::remote::MUTATE_GRACE_MS;
use crate::render::{burst_result, burst_sample_wf, emit_burst, BurstSample};
use crate::state::PlaybackState;
use crate::{app_wf, CantusApp};
use vstd::prelude::*;

verus! {

/// Pointer movement at or beyond this distance from the press origin, on
/// either axis, turns a press into a drag.  In millipixels: two pixels.
pub const DRAG_THRESHOLD: i64 = 2000;

/// Volume change per scroll step, in percent.
pub const VOLUME_STEP: u8 = 5;

/// Clicks closer than this to the panel's left edge seek to the track
/// start.  In millipixels: forty pixels.
pub const SNAP_LEFT_MARGIN: i64 = 40_000;

/// A clickable icon under a track: a star slot or a playlist toggle.
pub struct IconHitbox {
    pub rect: Rect,
    pub track_id: String,
    pub playlist_id: Option<String>,
    /// Star index 0–4; each star covers two half-star rating slots.
    pub rating_index: Option<u8>,
}

/// A track's clickable area, with the uncropped screen interval of the
/// whole track for resolving seek fractions.
pub struct TrackHitbox {
    pub track_id: String,
    pub rect: Rect,
    pub range_start: i64,
    pub range_end: i64,
}

/// A committed drag target: a track and a fractional position in it.
pub struct DragTarget {
    pub track_id: String,
    /// Fraction of the track, in millionths.
    pub position: i64,
}

/// Pointer and animation state owned by the frame loop.
pub struct InteractionState {
    pub mouse_position: Point,
    /// 0 idle, 1000 hovered, 2000 pressed, in milli-units.
    pub mouse_pressure: i64,
    /// Low-precision fingerprint of the last hitbox set.
    pub last_hitbox_hash: u64,
    pub play_hitbox: Rect,
    pub track_hitboxes: Vec<TrackHitbox>,
    pub icon_hitboxes: Vec<IconHitbox>,
    pub mouse_down: bool,
    pub dragging: bool,
    pub drag_origin: Option<Point>,
    pub drag_track: Option<DragTarget>,
    /// When and where the last expansion ripple started.
    pub last_expansion_ms: u64,
    pub last_expansion_pos: Point,
    pub last_toggle_playing_ms: u64,
    /// The playing flag as of the last rendered frame.
    pub playing: bool,
    /// Playhead animation phases, in milli-units.
    pub playhead_bar: i64,
    pub playhead_play: i64,
    pub playhead_pause: i64,
}

/// Coordinates the interaction arithmetic admits.
pub open spec fn point_wf(p: Point) -> bool {
    -1_000_000_000_000 <= p.x <= 1_000_000_000_000 && -1_000_000_000_000 <= p.y <= 1_000_000_000_000
}

/// Rectangle coordinates the interaction arithmetic admits.
pub open spec fn rect_wf(r: Rect) -> bool {
    &&& -1_000_000_000_000 <= r.x0 <= 1_000_000_000_000
    &&& -1_000_000_000_000 <= r.y0 <= 1_000_000_000_000
    &&& -1_000_000_000_000 <= r.x1 <= 1_000_000_000_000
    &&& -1_000_000_000_000 <= r.y1 <= 1_000_000_000_000
}

/// An icon hitbox is sane: bounded geometry, star index within range.
pub open spec fn icon_hitbox_wf(h: IconHitbox) -> bool {
    &&& rect_wf(h.rect)
    &&& h.rating_index matches Some(i) ==> i < 5
}

/// A track hitbox is sane: bounded geometry and a non-empty track range.
pub open spec fn track_hitbox_wf(t: TrackHitbox) -> bool {
    &&& rect_wf(t.rect)
    &&& -1_000_000_000_000 <= t.range_start < t.range_end <= 1_000_000_000_000
}

/// Well-formedness of the interaction state.
pub open spec fn interaction_wf(it: InteractionState) -> bool {
    &&& point_wf(it.mouse_position)
    &&& rect_wf(it.play_hitbox)
    &&& forall|i: int|
        0 <= i < it.icon_hitboxes@.len() ==> icon_hitbox_wf(#[trigger] it.icon_hitboxes@[i])
    &&& forall|i: int|
        0 <= i < it.track_hitboxes@.len() ==> track_hitbox_wf(#[trigger] it.track_hitboxes@[i])
    &&& 0 <= it.mouse_pressure <= 2000
    &&& 0 <= it.playhead_bar <= 1000
    &&& 0 <= it.playhead_play <= 1000
    &&& 0 <= it.playhead_pause <= 1000
    &&& it.last_expansion_ms <= 0x0000_FFFF_FFFF_FFFFu64
    &&& it.last_toggle_playing_ms <= 0x0000_FFFF_FFFF_FFFFu64
    &&& point_wf(it.last_expansion_pos)
    &&& it.drag_origin matches Some(o) ==> point_wf(o)
    &&& it.drag_track matches Some(t) ==> 0 <= t.position <= 1_000_000
}

impl InteractionState {
    /// Fresh interaction state: idle pointer, the last expansion ripple
    /// already five seconds past, the last play toggle just now.
    pub fn new(now_ms: u64) -> (it: InteractionState)
        requires
            now_ms <= 0x0000_FFFF_FFFF_FFFFu64,
        ensures
            interaction_wf(it),
            it.mouse_pressure == 0,
            it.last_hitbox_hash == 0,
            it.track_hitboxes@.len() == 0,
            it.icon_hitboxes@.len() == 0,
            !it.mouse_down && !it.dragging,
            it.drag_origin is None && it.drag_track is None,
            it.last_expansion_ms == (if now_ms >= 5000 {
                (now_ms - 5000) as u64
            } else {
                0u64
            }),
            it.last_toggle_playing_ms == now_ms,
            !it.playing,
            it.playhead_bar == 0 && it.playhead_play == 0 && it.playhead_pause == 0,
    {
        InteractionState {
            mouse_position: Point { x: 0, y: 0 },
            mouse_pressure: 0,
            last_hitbox_hash: 0,
            play_hitbox: Rect { x0: 0, y0: 0, x1: 0, y1: 0 },
            track_hitboxes: Vec::new(),
            icon_hitboxes: Vec::new(),
            mouse_down: false,
            dragging: false,
            drag_origin: None,
            drag_track: None,
            last_expansion_ms: if now_ms >= 5000 {
                now_ms - 5000
            } else {
                0
            },
            last_expansion_pos: Point { x: 0, y: 0 },
            last_toggle_playing_ms: now_ms,
            playing: false,
            playhead_bar: 0,
            playhead_play: 0,
            playhead_pause: 0,
        }
    }
}

/// Whether pointer movement from `origin` to `pos` crosses the drag
/// threshold on either axis.
pub open spec fn drag_triggered(origin: Point, pos: Point) -> bool {
    ||| pos.x - origin.x >= DRAG_THRESHOLD
    ||| origin.x - pos.x >= DRAG_THRESHOLD
    ||| pos.y - origin.y >= DRAG_THRESHOLD
    ||| origin.y - pos.y >= DRAG_THRESHOLD
}

/// Volume one scroll step up: five percent more, clamped to 100.
pub open spec fn volume_up(v: u8) -> u8 {
    if v + VOLUME_STEP <= 100 {
        (v + VOLUME_STEP) as u8
    } else {
        100
    }
}

/// Volume one scroll step down: five percent less, stopping at 0.
pub open spec fn volume_down(v: u8) -> u8 {
    if v >= VOLUME_STEP {
        (v - VOLUME_STEP) as u8
    } else {
        0
    }
}

/// Volume after `n` scroll steps down.
pub open spec fn volume_after_decrements(v: u8, n: nat) -> u8
    decreases n,
{
    if n == 0 {
        v
    } else {
        volume_down(volume_after_decrements(v, (n - 1) as nat))
    }
}

/// Volume after `n` scroll steps up.
pub open spec fn volume_after_increments(v: u8, n: nat) -> u8
    decreases n,
{
    if n == 0 {
        v
    } else {
        volume_up(volume_after_increments(v, (n - 1) as nat))
    }
}

/// Repeated scroll steps clamp: decrements walk down by exact five-percent
/// steps to zero and never go below it; increments walk up to one hundred
/// and never beyond it.
pub proof fn lemma_volume_scroll_clamp(v: u8, n: nat)
    requires
        v <= 100,
    ensures
        volume_after_decrements(v, n) == (if v >= VOLUME_STEP * n {
            (v - VOLUME_STEP * n) as u8
        } else {
            0u8
        }),
        volume_after_increments(v, n) == (if v + VOLUME_STEP * n <= 100 {
            (v + VOLUME_STEP * n) as u8
        } else {
            100u8
        }),
        0 <= volume_after_decrements(v, n) <= 100,
        0 <= volume_after_increments(v, n) <= 100,
        n >= 20 ==> volume_after_decrements(v, n) == 0,
        n >= 20 ==> volume_after_increments(v, n) == 100,
    decreases n,
{
    if n > 0 {
        lemma_volume_scroll_clamp(v, (n - 1) as nat);
    }
}

impl CantusApp {
    /// Record a primary-button press: the press origin is set, any stale
    /// drag target is cleared, and the store's interaction flag resets.
    pub fn left_click(&mut self, state: &mut PlaybackState)
        ensures
            final(self).interaction == (InteractionState {
                mouse_down: true,
                mouse_pressure: 2000,
                drag_origin: Some(old(self).interaction.mouse_position),
                drag_track: None,
                dragging: false,
                ..old(self).interaction
            }),
            final(self).render_state == old(self).render_state,
            final(self).particles == old(self).particles,
            final(self).particles_accumulator == old(self).particles_accumulator,
            *final(state) == (PlaybackState { interaction: false, ..*old(state) }),
    {
        self.interaction.mouse_down = true;
        self.interaction.mouse_pressure = 2000;
        self.interaction.drag_origin = Some(self.interaction.mouse_position);
        self.interaction.drag_track = None;
        self.interaction.dragging = false;
        state.interaction = false;
    }

    /// Cancel any drag in progress, clearing interaction flags only.
    pub fn cancel_drag(&mut self, state: &mut PlaybackState)
        ensures
            final(self).interaction == (InteractionState {
                drag_track: None,
                drag_origin: None,
                dragging: false,
                ..old(self).interaction
            }),
            final(self).render_state == old(self).render_state,
            final(self).particles == old(self).particles,
            final(self).particles_accumulator == old(self).particles_accumulator,
            *final(state) == (PlaybackState { interaction: false, ..*old(state) }),
    {
        self.interaction.drag_track = None;
        self.interaction.drag_origin = None;
        self.interaction.dragging = false;
        state.interaction = false;
    }

    /// A secondary-button press while dragging cancels the drag.
    pub fn right_click(&mut self, state: &mut PlaybackState)
        ensures
            final(self).interaction == (InteractionState {
                drag_track: None,
                drag_origin: None,
                dragging: false,
                mouse_down: false,
                ..old(self).interaction
            }),
            final(self).render_state == old(self).render_state,
            final(self).particles == old(self).particles,
            final(self).particles_accumulator == old(self).particles_accumulator,
            *final(state) == (PlaybackState { interaction: false, ..*old(state) }),
    {
        self.cancel_drag(state);
        self.interaction.mouse_down = false;
    }

    /// Promote a press to a drag once the pointer crosses the threshold:
    /// movement strictly inside two pixels on both axes keeps the press a
    /// press.
    pub fn handle_mouse_drag(&mut self, state: &mut PlaybackState)
        requires
            interaction_wf(old(self).interaction),
        ensures
            ({
                let starts = old(self).interaction.drag_origin matches Some(o)
                    && !old(self).interaction.dragging && drag_triggered(
                    o,
                    old(self).interaction.mouse_position,
                );
                if starts {
                    final(self).interaction == (InteractionState {
                        dragging: true,
                        ..old(self).interaction
                    }) && *final(state) == (PlaybackState { interaction: true, ..*old(state) })
                } else {
                    *final(self) == *old(self) && *final(state) == *old(state)
                }
            }),
    {
        match self.interaction.drag_origin {
            Some(origin) => {
                let dx: i64 = self.interaction.mouse_position.x - origin.x;
                let dy: i64 = self.interaction.mouse_position.y - origin.y;
                let over = dx >= DRAG_THRESHOLD || -dx >= DRAG_THRESHOLD || dy >= DRAG_THRESHOLD
                    || -dy >= DRAG_THRESHOLD;
                if !self.interaction.dragging && over {
                    self.interaction.dragging = true;
                    state.interaction = true;
                }
            },
            None => {},
        }
    }

    /// Adjust the volume by one five-percent step per scroll notch,
    /// clamped to 0–100, and report the remote volume command.
    pub fn handle_scroll(state: &mut PlaybackState, delta: i32, now: u64) -> (cmd: Option<
        RemoteCommand,
    >)
        requires
            now <= u64::MAX - 10_000,
        ensures
            delta == 0 || old(state).volume is None ==> *final(state) == *old(state) && cmd
                is None,
            delta != 0 ==> (old(state).volume matches Some(v) ==> ({
                let nv = if delta < 0 {
                    volume_up(v)
                } else {
                    volume_down(v)
                };
                &&& *final(state) == (PlaybackState {
                    volume: Some(nv),
                    last_interaction: (now + MUTATE_GRACE_MS) as u64,
                    ..*old(state)
                })
                &&& cmd == Some(RemoteCommand::SetVolume { percent: nv })
            })),
    {
        if delta == 0 {
            return None;
        }
        match state.volume {
            Some(v) => {
                let nv: u8 = if delta < 0 {
                    if v <= 100 - VOLUME_STEP {
                        v + VOLUME_STEP
                    } else {
                        100
                    }
                } else {
                    if v >= VOLUME_STEP {
                        v - VOLUME_STEP
                    } else {
                        0
                    }
                };
                state.volume = Some(nv);
                state.last_interaction = now + MUTATE_GRACE_MS;
                Some(RemoteCommand::SetVolume { percent: nv })
            },
            None => None,
        }
    }
}


/// What a click dispatches: exactly one of icon activation, play/pause
/// toggle, or track seek, or nothing.
pub enum ClickAction {
    /// Nothing was hit, or the hit icon carries no action.
    Nothing,
    /// A star icon: set the track's rating slot.
    Rate { track_id: String, rating_slot: u8 },
    /// A playlist icon: toggle the track's membership.
    TogglePlaylist { track_id: String, playlist_id: String },
    /// The playhead control: toggle play/pause to this state.
    TogglePlay { play: bool },
    /// A track body: seek to this fraction of the track, in millionths.
    SeekTrack { track_id: String, position: i64 },
}

/// What a button release resolves to: a click action, and a committed
/// drag target when one was held.
pub struct ReleaseOutcome {
    pub click: ClickAction,
    pub drag: Option<DragTarget>,
}

/// Index of the first icon hitbox containing `p`, scanning from `i`.
pub open spec fn first_icon_hit_from(icons: Seq<IconHitbox>, p: Point, i: int) -> Option<int>
    decreases icons.len() - i,
    when 0 <= i <= icons.len()
{
    if i >= icons.len() {
        None
    } else if rect_contains(icons[i].rect, p) {
        Some(i)
    } else {
        first_icon_hit_from(icons, p, i + 1)
    }
}

/// Index of the first icon hitbox containing `p`: icons never overlap
/// within a frame, so the first match wins.
pub open spec fn first_icon_hit(icons: Seq<IconHitbox>, p: Point) -> Option<int> {
    first_icon_hit_from(icons, p, 0)
}

/// Index of the last track hitbox before `i` containing `p`.
pub open spec fn last_track_hit_from(tracks: Seq<TrackHitbox>, p: Point, i: int) -> Option<int>
    decreases i,
    when 0 <= i <= tracks.len()
{
    if i <= 0 {
        None
    } else if rect_contains(tracks[i - 1].rect, p) {
        Some(i - 1)
    } else {
        last_track_hit_from(tracks, p, i - 1)
    }
}

/// Index of the topmost (most recently drawn) track hitbox containing
/// `p`.
pub open spec fn last_track_hit(tracks: Seq<TrackHitbox>, p: Point) -> Option<int> {
    last_track_hit_from(tracks, p, tracks.len() as int)
}

impl InteractionState {
    /// Find the first icon hitbox containing the point.
    pub fn find_icon_hit(&self, p: Point) -> (r: Option<usize>)
        ensures
            r matches Some(i) ==> i < self.icon_hitboxes@.len() && first_icon_hit(
                self.icon_hitboxes@,
                p,
            ) == Some(i as int),
            r is None ==> first_icon_hit(self.icon_hitboxes@, p) is None,
    {
        let mut j: usize = 0;
        while j < self.icon_hitboxes.len()
            invariant
                0 <= j <= self.icon_hitboxes@.len(),
                first_icon_hit(self.icon_hitboxes@, p) == first_icon_hit_from(
                    self.icon_hitboxes@,
                    p,
                    j as int,
                ),
            decreases self.icon_hitboxes@.len() - j,
        {
            if self.icon_hitboxes[j].rect.contains(p) {
                return Some(j);
            }
            j = j + 1;
        }
        None
    }

    /// Find the topmost track hitbox containing the point.
    pub fn find_track_hit(&self, p: Point) -> (r: Option<usize>)
        ensures
            r matches Some(i) ==> i < self.track_hitboxes@.len() && last_track_hit(
                self.track_hitboxes@,
                p,
            ) == Some(i as int),
            r is None ==> last_track_hit(self.track_hitboxes@, p) is None,
    {
        let mut j: usize = self.track_hitboxes.len();
        while j > 0
            invariant
                0 <= j <= self.track_hitboxes@.len(),
                last_track_hit(self.track_hitboxes@, p) == last_track_hit_from(
                    self.track_hitboxes@,
                    p,
                    j as int,
                ),
            decreases j,
        {
            if self.track_hitboxes[j - 1].rect.contains(p) {
                return Some(j - 1);
            }
            j = j - 1;
        }
        None
    }
}

/// The integer midpoint of a rectangle's horizontal extent.
pub open spec fn icon_center_x(r: Rect) -> int {
    crate::tdiv(r.x0 + r.x1, 2)
}

/// The rating slot a click on a star icon selects: two half-star slots
/// per star, the right half selecting the upper one.
pub open spec fn rating_slot_for_click(h: IconHitbox, p: Point) -> int
    recommends
        h.rating_index is Some,
{
    h.rating_index->0 * 2 + (if p.x >= icon_center_x(h.rect) {
        1int
    } else {
        0int
    })
}

/// The seek fraction (in millionths) a click at screen position `x`
/// selects within the track interval `[a, b]`, clamped to the track.
pub open spec fn spec_seek_fraction(x: int, a: int, b: int) -> int
    recommends
        a < b,
{
    if x <= a {
        0
    } else {
        let raw = (x - a) * 1_000_000 / (b - a);
        if raw > 1_000_000 {
            1_000_000
        } else {
            raw
        }
    }
}

/// Where the expansion ripple anchors for playhead events: the playhead
/// at half the bar height.
pub open spec fn playhead_center(cfg: Config) -> Point {
    Point {
        x: crate::config::playhead_x_spec(cfg) as i64,
        y: (PANEL_START + crate::tdiv(cfg.height as int, 2)) as i64,
    }
}

/// What a click at the current pointer position dispatches, by priority:
/// icons first, then the playhead control, then the topmost track.
pub open spec fn spec_click_action(it: InteractionState, playing: bool, cfg: Config) -> ClickAction {
    let p = it.mouse_position;
    match first_icon_hit(it.icon_hitboxes@, p) {
        Some(i) => {
            let h = it.icon_hitboxes@[i];
            if cfg.ratings_enabled && h.rating_index is Some {
                ClickAction::Rate {
                    track_id: h.track_id,
                    rating_slot: rating_slot_for_click(h, p) as u8,
                }
            } else if h.playlist_id is Some {
                ClickAction::TogglePlaylist { track_id: h.track_id, playlist_id: h.playlist_id->0 }
            } else {
                ClickAction::Nothing
            }
        },
        None => {
            if rect_contains(it.play_hitbox, p) {
                ClickAction::TogglePlay { play: !playing }
            } else {
                match last_track_hit(it.track_hitboxes@, p) {
                    Some(t) => {
                        let th = it.track_hitboxes@[t];
                        let frac: int = if p.x < cfg.history_width + SNAP_LEFT_MARGIN {
                            0
                        } else {
                            spec_seek_fraction(p.x as int, th.range_start as int, th.range_end as int)
                        };
                        ClickAction::SeekTrack { track_id: th.track_id, position: frac as i64 }
                    },
                    None => ClickAction::Nothing,
                }
            }
        },
    }
}

/// The expansion ripple (start time and anchor) after a dispatched
/// click: playhead events anchor at the playhead, track seeks at the
/// pointer, icon clicks leave it alone.
pub open spec fn spec_click_expansion(
    it: InteractionState,
    cfg: Config,
    now: u64,
) -> (u64, Point) {
    let p = it.mouse_position;
    match first_icon_hit(it.icon_hitboxes@, p) {
        Some(i) => (it.last_expansion_ms, it.last_expansion_pos),
        None => {
            if rect_contains(it.play_hitbox, p) {
                (now, playhead_center(cfg))
            } else {
                match last_track_hit(it.track_hitboxes@, p) {
                    Some(t) => (now, p),
                    None => (it.last_expansion_ms, it.last_expansion_pos),
                }
            }
        },
    }
}

/// When the play/pause toggle animation last started, after a dispatched
/// click: only a playhead click restarts it.
pub open spec fn spec_click_toggle_ms(it: InteractionState, now: u64) -> u64 {
    let p = it.mouse_position;
    match first_icon_hit(it.icon_hitboxes@, p) {
        Some(i) => it.last_toggle_playing_ms,
        None => {
            if rect_contains(it.play_hitbox, p) {
                now
            } else {
                it.last_toggle_playing_ms
            }
        },
    }
}

/// Whether the click lands on an icon, which spawns a particle burst.
pub open spec fn spec_click_hits_icon(it: InteractionState) -> bool {
    first_icon_hit(it.icon_hitboxes@, it.mouse_position) is Some
}

impl CantusApp {
    /// Resolve a click at the current pointer position.
    ///
    /// If a user-initiated operation is already in flight, nothing
    /// happens.  Otherwise icon hitboxes are tested first (spawning a
    /// particle burst and resolving to a rating or membership toggle),
    /// then the playhead control, then the topmost track hitbox under
    /// the point, which resolves to a fractional seek.
    pub fn handle_click(
        &mut self,
        state: &mut PlaybackState,
        cfg: &Config,
        now: u64,
        burst: &Vec<BurstSample>,
    ) -> (action: ClickAction)
        requires
            app_wf(*old(self)),
            crate::config::config_wf(*cfg),
            now <= 0x0000_FFFF_FFFF_FFFFu64,
            burst@.len() == 20,
            forall|k: int| 0 <= k < burst@.len() ==> burst_sample_wf(#[trigger] burst@[k]),
        ensures
            app_wf(*final(self)),
            old(state).interaction ==> *final(self) == *old(self) && *final(state) == *old(state)
                && action == ClickAction::Nothing,
            !old(state).interaction ==> ({
                let it = old(self).interaction;
                &&& action == spec_click_action(it, old(state).playing, *cfg)
                &&& *final(state) == (PlaybackState { interaction: false, ..*old(state) })
                &&& final(self).particles@ == (if spec_click_hits_icon(it) {
                    burst_result(old(self).particles@, burst@, 20, now, it.mouse_position)
                } else {
                    old(self).particles@
                })
                &&& final(self).interaction == (InteractionState {
                    last_expansion_ms: spec_click_expansion(it, *cfg, now).0,
                    last_expansion_pos: spec_click_expansion(it, *cfg, now).1,
                    last_toggle_playing_ms: spec_click_toggle_ms(it, now),
                    ..it
                })
                &&& final(self).render_state == old(self).render_state
                &&& final(self).particles_accumulator == old(self).particles_accumulator
            }),
    {
        let mouse_pos = self.interaction.mouse_position;
        let playing = state.playing;
        if state.interaction {
            return ClickAction::Nothing;
        }
        state.interaction = true;

        let action: ClickAction;
        let icon_idx = self.interaction.find_icon_hit(mouse_pos);
        match icon_idx {
            Some(i) => {
                emit_burst(&mut self.particles, burst, 20, now, mouse_pos);
                let h = &self.interaction.icon_hitboxes[i];
                let rating = h.rating_index;
                if cfg.ratings_enabled && rating.is_some() {
                    let idx: u8 = match rating {
                        Some(idx) => idx,
                        None => 0,
                    };
                    let center: i64 = (h.rect.x0 + h.rect.x1) / 2;
                    let slot: u8 = idx * 2 + (if mouse_pos.x >= center {
                        1
                    } else {
                        0
                    });
                    action = ClickAction::Rate { track_id: h.track_id.clone(), rating_slot: slot };
                } else {
                    match &h.playlist_id {
                        Some(pid) => {
                            action = ClickAction::TogglePlaylist {
                                track_id: h.track_id.clone(),
                                playlist_id: pid.clone(),
                            };
                        },
                        None => {
                            action = ClickAction::Nothing;
                        },
                    }
                }
            },
            None => {
                if self.interaction.play_hitbox.contains(mouse_pos) {
                    self.interaction.last_expansion_ms = now;
                    self.interaction.last_expansion_pos = Point {
                        x: cfg.playhead_x(),
                        y: PANEL_START + cfg.height / 2,
                    };
                    self.interaction.last_toggle_playing_ms = now;
                    action = ClickAction::TogglePlay { play: !playing };
                } else {
                    let track_idx = self.interaction.find_track_hit(mouse_pos);
                    match track_idx {
                        Some(t) => {
                            self.interaction.last_expansion_ms = now;
                            self.interaction.last_expansion_pos = mouse_pos;
                            let th = &self.interaction.track_hitboxes[t];
                            let frac: i64 = if mouse_pos.x < cfg.history_width + SNAP_LEFT_MARGIN {
                                0
                            } else {
                                seek_fraction(mouse_pos.x, th.range_start, th.range_end)
                            };
                            action = ClickAction::SeekTrack {
                                track_id: th.track_id.clone(),
                                position: frac,
                            };
                        },
                        None => {
                            action = ClickAction::Nothing;
                        },
                    }
                }
            },
        }
        state.interaction = false;
        action
    }

    /// Resolve a primary-button release: a press that never crossed the
    /// drag threshold resolves as a click; a committed drag target
    /// resolves to a seek request and anchors an expansion ripple at the
    /// playhead.
    pub fn left_click_released(
        &mut self,
        state: &mut PlaybackState,
        cfg: &Config,
        now: u64,
        burst: &Vec<BurstSample>,
    ) -> (out: ReleaseOutcome)
        requires
            app_wf(*old(self)),
            crate::config::config_wf(*cfg),
            now <= 0x0000_FFFF_FFFF_FFFFu64,
            burst@.len() == 20,
            forall|k: int| 0 <= k < burst@.len() ==> burst_sample_wf(#[trigger] burst@[k]),
        ensures
            app_wf(*final(self)),
            ({
                let it = old(self).interaction;
                let clicked = !it.dragging && it.mouse_down && !old(state).interaction;
                let exp = spec_click_expansion(it, *cfg, now);
                &&& out.drag == it.drag_track
                &&& (clicked ==> out.click == spec_click_action(it, old(state).playing, *cfg))
                &&& (!clicked ==> out.click is Nothing)
                &&& final(self).particles@ == (if clicked && spec_click_hits_icon(it) {
                    burst_result(old(self).particles@, burst@, 20, now, it.mouse_position)
                } else {
                    old(self).particles@
                })
                &&& final(self).interaction == (InteractionState {
                    last_expansion_ms: (if it.drag_track is Some {
                        now
                    } else if clicked {
                        exp.0
                    } else {
                        it.last_expansion_ms
                    }),
                    last_expansion_pos: (if it.drag_track is Some {
                        playhead_center(*cfg)
                    } else if clicked {
                        exp.1
                    } else {
                        it.last_expansion_pos
                    }),
                    last_toggle_playing_ms: (if clicked {
                        spec_click_toggle_ms(it, now)
                    } else {
                        it.last_toggle_playing_ms
                    }),
                    drag_track: None,
                    drag_origin: None,
                    dragging: false,
                    mouse_down: false,
                    mouse_pressure: 1000,
                    ..it
                })
                &&& *final(state) == (PlaybackState { interaction: false, ..*old(state) })
                &&& final(self).render_state == old(self).render_state
                &&& final(self).particles_accumulator == old(self).particles_accumulator
            }),
    {
        let out_click: ClickAction;
        if !self.interaction.dragging && self.interaction.mouse_down {
            out_click = self.handle_click(state, cfg, now, burst);
        } else {
            out_click = ClickAction::Nothing;
        }
        let drag = self.interaction.drag_track.take();
        match &drag {
            Some(_) => {
                self.interaction.last_expansion_ms = now;
                self.interaction.last_expansion_pos = Point {
                    x: cfg.playhead_x(),
                    y: PANEL_START + cfg.height / 2,
                };
            },
            None => {},
        }
        self.interaction.drag_origin = None;
        self.interaction.dragging = false;
        self.interaction.mouse_down = false;
        self.interaction.mouse_pressure = 1000;
        state.interaction = false;
        ReleaseOutcome { click: out_click, drag }
    }
}

/// The clamped seek fraction for a click at `x` within `[a, b]`.
pub fn seek_fraction(x: i64, a: i64, b: i64) -> (frac: i64)
    requires
        -1_000_000_000_000 <= x <= 1_000_000_000_000,
        -1_000_000_000_000 <= a < b <= 1_000_000_000_000,
    ensures
        frac == spec_seek_fraction(x as int, a as int, b as int),
        0 <= frac <= 1_000_000,
{
    if x <= a {
        return 0;
    }
    let num: i64 = x - a;
    assert(0 <= num * 1_000_000 <= 2_000_000_000_000i64 * 1_000_000) by (nonlinear_arith)
        requires
            0 < num <= 2_000_000_000_000i64,
    ;
    let raw: i64 = num * 1_000_000 / (b - a);
    assert(raw >= 0) by (nonlinear_arith)
        requires
            raw == num * 1_000_000 / (b - a),
            num * 1_000_000 >= 0,
            b - a >= 1,
    ;
    if raw > 1_000_000 {
        1_000_000
    } else {
        raw
    }
}



/// Pointer movement strictly inside the threshold on both axes never
/// turns a press into a drag, so the release resolves as a click.
pub proof fn lemma_drag_threshold(origin: Point, pos: Point)
    requires
        -DRAG_THRESHOLD < pos.x - origin.x < DRAG_THRESHOLD,
        -DRAG_THRESHOLD < pos.y - origin.y < DRAG_THRESHOLD,
    ensures
        !drag_triggered(origin, pos),
{
}


} // verus!
