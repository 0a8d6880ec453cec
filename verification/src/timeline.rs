//! The timeline layout engine: mapping track time onto panel pixels,
//! walking the queue into per-frame track geometry, collapsing past
//! tracks into the fixed-width art-only stack, and smoothing the scroll
//! offset across frames.

use crate::config::{config_wf, ms_to_px, timeline_width, Config};
use crate::render::{render_state_wf, RenderState, TrackRender};
use crate::state::{PlaybackState, Track};
use crate::tdiv;
use vstd::prelude::*;

verus! {

/// Spacing between consecutive tracks on the timeline, in milliseconds.
pub const TRACK_SPACING_MS: i64 = 4000;

/// Collapsed past tracks overlap by this step, in millipixels.
pub const STACK_STEP: i64 = 30_000;

/// Most queue entries the layout walks; a machine limit, far beyond any
/// real queue.
pub const QUEUE_LIMIT: usize = 10_000;

/// Time offsets handed to the pixel mapping are clamped to roughly six
/// days on either side, keeping every product inside `i64`.
pub const MS_CLAMP: i64 = 500_000_000;

/// The left edge of the visible window, in track-time milliseconds
/// relative to the playhead.
pub open spec fn win_start(cfg: Config) -> int {
    -cfg.timeline_past_ms
}

/// The right edge of the visible window, in track-time milliseconds.
pub open spec fn win_end(cfg: Config) -> int {
    cfg.timeline_future_ms - cfg.timeline_past_ms
}

/// Clamp a time offset into the range the pixel mapping admits.
pub open spec fn clamp_ms(v: int) -> int {
    if v < -MS_CLAMP {
        -MS_CLAMP as int
    } else if v > MS_CLAMP {
        MS_CLAMP as int
    } else {
        v
    }
}

/// Executable clamp matching `clamp_ms`.
pub fn clamp_ms_exec(v: i64) -> (r: i64)
    ensures
        r == clamp_ms(v as int),
{
    if v < -MS_CLAMP {
        -MS_CLAMP
    } else if v > MS_CLAMP {
        MS_CLAMP
    } else {
        v
    }
}

/// Executable pixel mapping for clamped time offsets.
pub fn ms_to_px_exec(cfg: &Config, ms: i64) -> (r: i64)
    requires
        config_wf(*cfg),
        -MS_CLAMP <= ms <= MS_CLAMP,
    ensures
        r == ms_to_px(*cfg, ms as int),
        -840_000_000_000i64 <= r <= 840_000_000_000i64,
        0 <= ms ==> 0 <= r <= ms * 1667,
        ms < 0 ==> ms * 1667 <= r <= 0,
{
    let w: i64 = cfg.width - cfg.history_width - crate::config::RIGHT_MARGIN;
    let mag: i64 = if ms >= 0 {
        ms
    } else {
        -ms
    };
    assert(0 <= mag * w <= 500_000_000i64 * 100_000_000) by (nonlinear_arith)
        requires
            0 <= mag <= 500_000_000,
            0 < w <= 100_000_000,
    ;
    let prod: i64 = mag * w;
    let q: i64 = prod / cfg.timeline_future_ms;
    assert(0 <= q && q <= prod / 60_000 && q <= mag * 1667) by (nonlinear_arith)
        requires
            q == prod / cfg.timeline_future_ms,
            prod == mag * w,
            mag >= 0,
            0 < w <= 100_000_000,
            prod >= 0,
            cfg.timeline_future_ms >= 60_000,
    ;
    if ms >= 0 {
        q
    } else {
        proof {
            assert((-(ms as int)) * w == -(ms * w)) by (nonlinear_arith);
        }
        -q
    }
}

/// Total timeline span of the first `n` queue entries: durations plus the
/// inter-track spacing.
pub open spec fn prefix_span(q: Seq<Track>, n: int) -> int
    decreases n,
    when 0 <= n <= q.len()
{
    if n <= 0 {
        0
    } else {
        prefix_span(q, n - 1) + q[n - 1].duration_ms + TRACK_SPACING_MS
    }
}

/// The prefix span grows by at most one duration-plus-spacing per track.
pub proof fn lemma_prefix_span_bound(q: Seq<Track>, n: int)
    requires
        0 <= n <= q.len(),
    ensures
        0 <= prefix_span(q, n) <= n * 0x1_0000_1000,
    decreases n,
{
    if n > 0 {
        lemma_prefix_span_bound(q, n - 1);
        assert((n - 1) * 0x1_0000_1000 + 0x1_0000_1000 == n * 0x1_0000_1000) by (nonlinear_arith);
    }
}

/// When a track starts on the timeline, relative to the playhead.
pub open spec fn start_ms(q: Seq<Track>, i: int, current_ms: int) -> int {
    current_ms + prefix_span(q, i)
}

/// A track's computed frame geometry, before past-track stacking.
pub open spec fn layout_entry(q: Seq<Track>, i: int, current_ms: int, cfg: Config) -> TrackRender {
    let start = start_ms(q, i, current_ms);
    let end = start + q[i].duration_ms;
    let vs_arg = if start >= win_start(cfg) {
        start
    } else {
        win_start(cfg)
    };
    let ve_arg = clamp_ms(
        if end <= win_end(cfg) {
            end
        } else {
            win_end(cfg)
        },
    );
    let vs = ms_to_px(cfg, vs_arg);
    let ve = ms_to_px(cfg, ve_arg);
    TrackRender {
        track_index: i as usize,
        is_current: start <= 0 && end >= 0,
        ms_until_start: (if start >= 0 {
            start
        } else {
            -start
        }) as i64,
        start_x: (vs - ms_to_px(cfg, win_start(cfg)) + cfg.history_width) as i64,
        width: (ve - vs) as i64,
        hitbox_start: (ms_to_px(cfg, clamp_ms(start - win_start(cfg))) + cfg.history_width) as i64,
        hitbox_end: (ms_to_px(cfg, clamp_ms(end - win_start(cfg))) + cfg.history_width) as i64,
        art_only: false,
    }
}

/// How many queue entries the layout walk emits, scanning from `i`: it
/// stops at the first track starting beyond the window's right edge.
pub open spec fn visible_count(q: Seq<Track>, current_ms: int, cfg: Config, i: int) -> int
    decreases q.len() - i,
    when 0 <= i <= q.len()
{
    if i >= q.len() {
        i
    } else if start_ms(q, i, current_ms) > win_end(cfg) {
        i
    } else {
        visible_count(q, current_ms, cfg, i + 1)
    }
}

/// The laid-out entries for a queue at a timeline offset.
pub open spec fn layout_entries_of(q: Seq<Track>, current_ms: int, cfg: Config) -> Seq<
    TrackRender,
> {
    Seq::new(
        visible_count(q, current_ms, cfg, 0) as nat,
        |k: int| layout_entry(q, k, current_ms, cfg),
    )
}

/// The walk's stopping point is characterized by its prefix.
proof fn lemma_visible_count_char(q: Seq<Track>, current_ms: int, cfg: Config, i: int, n: int)
    requires
        0 <= i <= n <= q.len(),
        forall|k: int| i <= k < n ==> start_ms(q, k, current_ms) <= win_end(cfg),
        n < q.len() ==> start_ms(q, n, current_ms) > win_end(cfg),
    ensures
        visible_count(q, current_ms, cfg, i) == n,
    decreases n - i,
{
    if i < n {
        lemma_visible_count_char(q, current_ms, cfg, i + 1, n);
    }
}

/// Walk the queue into per-frame geometry, stopping at the first track
/// that starts beyond the visible window's right edge.
pub fn layout_tracks(queue: &Vec<Track>, current_ms: i64, cfg: &Config) -> (renders: Vec<
    TrackRender,
>)
    requires
        config_wf(*cfg),
        queue@.len() <= QUEUE_LIMIT,
        -100_000_000_000_000i64 <= current_ms <= 100_000_000_000_000i64,
    ensures
        renders@ == layout_entries_of(queue@, current_ms as int, *cfg),
        renders@.len() <= queue@.len(),
        forall|k: int|
            0 <= k < renders@.len() ==> #[trigger] renders@[k] == layout_entry(
                queue@,
                k,
                current_ms as int,
                *cfg,
            ) && start_ms(queue@, k, current_ms as int) <= win_end(*cfg),
        renders@.len() < queue@.len() ==> start_ms(queue@, renders@.len() as int, current_ms as int)
            > win_end(*cfg),
        forall|k: int|
            0 <= k < renders@.len() ==> ({
                &&& -300_000_000_000i64 <= (#[trigger] renders@[k]).start_x <= 300_000_000_000i64
                &&& -900_000_000_000i64 <= renders@[k].width <= 200_000_000_000i64
                &&& -900_000_000_000i64 <= renders@[k].hitbox_start <= 900_000_000_000i64
                &&& -900_000_000_000i64 <= renders@[k].hitbox_end <= 900_000_000_000i64
                &&& renders@[k].track_index == k
                &&& !renders@[k].art_only
            }),
{
    let mut renders: Vec<TrackRender> = Vec::new();
    let mut i: usize = 0;
    let mut cur: i64 = current_ms;
    proof {
        lemma_prefix_span_bound(queue@, queue@.len() as int);
    }
    while i < queue.len()
        invariant
            config_wf(*cfg),
            queue@.len() <= QUEUE_LIMIT,
            -100_000_000_000_000i64 <= current_ms <= 100_000_000_000_000i64,
            0 <= i <= queue@.len(),
            cur == start_ms(queue@, i as int, current_ms as int),
            renders@.len() == i,
            forall|k: int|
                0 <= k < i ==> #[trigger] renders@[k] == layout_entry(
                    queue@,
                    k,
                    current_ms as int,
                    *cfg,
                ) && start_ms(queue@, k, current_ms as int) <= win_end(*cfg),
            forall|k: int|
                0 <= k < i ==> ({
                    &&& -300_000_000_000i64 <= (#[trigger] renders@[k]).start_x
                        <= 300_000_000_000i64
                    &&& -900_000_000_000i64 <= renders@[k].width <= 200_000_000_000i64
                    &&& -900_000_000_000i64 <= renders@[k].hitbox_start <= 900_000_000_000i64
                    &&& -900_000_000_000i64 <= renders@[k].hitbox_end <= 900_000_000_000i64
                    &&& renders@[k].track_index == k
                    &&& !renders@[k].art_only
                }),
        decreases queue@.len() - i,
    {
        proof {
            lemma_prefix_span_bound(queue@, i as int);
            lemma_prefix_span_bound(queue@, i + 1);
        }
        let start: i64 = cur;
        let duration: i64 = queue[i].duration_ms as i64;
        let end: i64 = start + duration;
        cur = end + TRACK_SPACING_MS;
        let bound: i64 = cfg.timeline_future_ms - cfg.timeline_past_ms;
        if start > bound {
            proof {
                assert forall|k: int|
                    0 <= k < i implies start_ms(queue@, k, current_ms as int) <= win_end(
                    *cfg,
                ) by {
                    assert(renders@[k] == layout_entry(queue@, k, current_ms as int, *cfg));
                }
                lemma_visible_count_char(queue@, current_ms as int, *cfg, 0, i as int);
                assert(renders@ =~= layout_entries_of(queue@, current_ms as int, *cfg));
            }
            return renders;
        }
        let neg_past: i64 = -cfg.timeline_past_ms;
        let vs_arg: i64 = if start >= neg_past {
            start
        } else {
            neg_past
        };
        let ve_arg: i64 = clamp_ms_exec(
            if end <= bound {
                end
            } else {
                bound
            },
        );
        let vs: i64 = ms_to_px_exec(cfg, vs_arg);
        let ve: i64 = ms_to_px_exec(cfg, ve_arg);
        let base: i64 = ms_to_px_exec(cfg, neg_past);
        assert(start_ms(queue@, i as int, current_ms as int) <= win_end(*cfg));
        let render = TrackRender {
            track_index: i,
            is_current: start <= 0 && end >= 0,
            ms_until_start: if start >= 0 {
                start
            } else {
                -start
            },
            start_x: vs - base + cfg.history_width,
            width: ve - vs,
            hitbox_start: ms_to_px_exec(cfg, clamp_ms_exec(start - neg_past)) + cfg.history_width,
            hitbox_end: ms_to_px_exec(cfg, clamp_ms_exec(end - neg_past)) + cfg.history_width,
            art_only: false,
        };
        assert(render == layout_entry(queue@, i as int, current_ms as int, *cfg));
        renders.push(render);
        assert forall|k: int|
            0 <= k < i + 1 implies #[trigger] renders@[k] == layout_entry(
            queue@,
            k,
            current_ms as int,
            *cfg,
        ) by {
            if k < i {
                assert(renders@[k] == layout_entry(queue@, k, current_ms as int, *cfg));
            } else {
                assert(renders@[k] == render);
            }
        }
        assert forall|k: int| 0 <= k < i + 1 implies start_ms(queue@, k, current_ms as int)
            <= win_end(*cfg) by {
            if k < i {
                assert(renders@[k] == layout_entry(queue@, k, current_ms as int, *cfg));
                assert(start_ms(queue@, k, current_ms as int) <= win_end(*cfg));
            }
        }
        i = i + 1;
    }
    proof {
        assert forall|k: int|
            0 <= k < queue@.len() implies start_ms(queue@, k, current_ms as int) <= win_end(
            *cfg,
        ) by {
            assert(renders@[k] == layout_entry(queue@, k, current_ms as int, *cfg));
        }
        lemma_visible_count_char(queue@, current_ms as int, *cfg, 0, queue@.len() as int);
        assert(renders@ =~= layout_entries_of(queue@, current_ms as int, *cfg));
    }
    renders
}

/// One step of the past-track stacking pass, processing one entry with
/// the running pack position and the seam flag.
pub open spec fn stack_one(r: TrackRender, cur: int, found: bool, cfg: Config) -> (
    TrackRender,
    int,
    bool,
) {
    let spacing_px = ms_to_px(cfg, TRACK_SPACING_MS as int);
    let right_edge = r.start_x + r.width - cfg.height;
    if right_edge <= cfg.history_width {
        let collapsed = TrackRender {
            width: cfg.height,
            start_x: cur as i64,
            art_only: true,
            ..r
        };
        if !found {
            let distance_before = cfg.history_width - right_edge;
            let give = distance_before - (cfg.height - spacing_px * 2);
            let clamped = if give < 0 {
                0
            } else if give > STACK_STEP {
                STACK_STEP as int
            } else {
                give
            };
            (collapsed, cfg.history_width - cfg.height - spacing_px - clamped, true)
        } else {
            (collapsed, cur - STACK_STEP, true)
        }
    } else {
        (r, r.start_x - cfg.height - spacing_px, found)
    }
}

/// The stacking pass from index `i` down to the front: later (more
/// recent) entries are processed first, exactly as the frame loop walks
/// them.
pub open spec fn stack_rec(
    renders: Seq<TrackRender>,
    i: int,
    cur: int,
    found: bool,
    cfg: Config,
) -> Seq<TrackRender>
    decreases i,
    when 0 <= i <= renders.len()
{
    if i <= 0 {
        renders
    } else {
        let step = stack_one(renders[i - 1], cur, found, cfg);
        stack_rec(renders.update(i - 1, step.0), i - 1, step.1, step.2, cfg)
    }
}

/// Collapse past tracks into the fixed-width art-only stack, walking the
/// entries from the most recent backwards.
pub fn stack_past_tracks(renders: &mut Vec<TrackRender>, cfg: &Config)
    requires
        config_wf(*cfg),
        old(renders)@.len() <= QUEUE_LIMIT,
        forall|k: int|
            0 <= k < old(renders)@.len() ==> -300_000_000_000i64
                <= (#[trigger] old(renders)@[k]).start_x <= 300_000_000_000i64
                && -900_000_000_000i64 <= old(renders)@[k].width <= 200_000_000_000i64,
    ensures
        final(renders)@ == stack_rec(old(renders)@, old(renders)@.len() as int, 0, false, *cfg),
        final(renders)@.len() == old(renders)@.len(),
        forall|k: int|
            0 <= k < final(renders)@.len() ==> -400_000_000_000i64
                <= (#[trigger] final(renders)@[k]).start_x <= 400_000_000_000i64
                && -900_000_000_000i64 <= final(renders)@[k].width <= 200_000_000_000i64,
        forall|k: int|
            0 <= k < final(renders)@.len() ==> ({
                let o = #[trigger] final(renders)@[k];
                &&& o.track_index == old(renders)@[k].track_index
                &&& o.is_current == old(renders)@[k].is_current
                &&& o.ms_until_start == old(renders)@[k].ms_until_start
                &&& o.hitbox_start == old(renders)@[k].hitbox_start
                &&& o.hitbox_end == old(renders)@[k].hitbox_end
            }),
{
    let ghost renders0 = renders@;
    let spacing_px: i64 = ms_to_px_exec(cfg, TRACK_SPACING_MS);
    proof {
        let w = timeline_width(*cfg);
        assert(0 <= (TRACK_SPACING_MS * w) / (cfg.timeline_future_ms as int) <= 7_000_000)
            by (nonlinear_arith)
            requires
                0 < w <= 100_000_000,
                cfg.timeline_future_ms >= 60_000,
        ;
    }
    let mut i: usize = renders.len();
    let mut cur: i64 = 0;
    let mut found: bool = false;
    while i > 0
        invariant
            config_wf(*cfg),
            spacing_px == ms_to_px(*cfg, TRACK_SPACING_MS as int),
            0 <= spacing_px <= 7_000_000,
            0 <= i <= renders@.len(),
            renders@.len() == renders0.len(),
            renders@.len() <= QUEUE_LIMIT,
            -350_000_000_000i64 - 30_000i64 * ((renders@.len() - i) as i64) <= cur
                <= 350_000_000_000i64,
            forall|k: int|
                0 <= k < i ==> #[trigger] renders@[k] == renders0[k],
            forall|k: int|
                0 <= k < i ==> -300_000_000_000i64 <= (#[trigger] renders@[k]).start_x
                    <= 300_000_000_000i64 && -900_000_000_000i64 <= renders@[k].width
                    <= 200_000_000_000i64,
            forall|k: int|
                0 <= k < renders@.len() ==> -400_000_000_000i64
                    <= (#[trigger] renders@[k]).start_x <= 400_000_000_000i64
                    && -900_000_000_000i64 <= renders@[k].width <= 200_000_000_000i64,
            stack_rec(renders0, renders0.len() as int, 0, false, *cfg) == stack_rec(
                renders@,
                i as int,
                cur as int,
                found,
                *cfg,
            ),
        decreases i,
    {
        let idx: usize = i - 1;
        let ghost pre = renders@;
        let ghost cur_pre = cur as int;
        let ghost found_pre = found;
        let r = renders[idx];
        let right_edge: i64 = r.start_x + r.width - cfg.height;
        if right_edge <= cfg.history_width {
            let collapsed = TrackRender { width: cfg.height, start_x: cur, art_only: true, ..r };
            renders[idx] = collapsed;
            if !found {
                let distance_before: i64 = cfg.history_width - right_edge;
                let give: i64 = distance_before - (cfg.height - spacing_px * 2);
                let clamped: i64 = if give < 0 {
                    0
                } else if give > STACK_STEP {
                    STACK_STEP
                } else {
                    give
                };
                cur = cfg.history_width - cfg.height - spacing_px - clamped;
                found = true;
            } else {
                cur = cur - STACK_STEP;
            }
        } else {
            cur = r.start_x - cfg.height - spacing_px;
        }
        proof {
            let step = stack_one(pre[idx as int], cur_pre, found_pre, *cfg);
            assert(renders@ =~= pre.update(idx as int, step.0));
            assert(cur as int == step.1);
            assert(found == step.2);
        }
        i = idx;
    }
    proof {
        assert(stack_rec(renders@, 0, cur as int, found, *cfg) == renders@);
        lemma_stack_flags(renders0, renders0.len() as int, 0, false, *cfg);
    }
}


/// Frame deltas are capped at one second: a longer stall snaps instead
/// of easing.
pub const DT_CAP_MS: i64 = 1000;

/// Progress extrapolation while playing is capped at one day.
pub const EXTRAPOLATION_CAP_MS: u64 = 86_400_000;

/// The displayed offset eases toward its target once they differ by more
/// than this many milliseconds of track time.
pub const CATCHUP_THRESHOLD_MS: i64 = 200;

/// Saturation bound on the displayed timeline offset.
pub const OFFSET_LIMIT: i64 = 100_000_000_000_000;

/// Total duration of the first `n` queue entries, without spacing.
pub open spec fn prefix_duration(q: Seq<Track>, n: int) -> int
    decreases n,
    when 0 <= n <= q.len()
{
    if n <= 0 {
        0
    } else {
        prefix_duration(q, n - 1) + q[n - 1].duration_ms
    }
}

/// The prefix duration grows by at most one track duration per entry.
pub proof fn lemma_prefix_duration_bound(q: Seq<Track>, n: int)
    requires
        0 <= n <= q.len(),
    ensures
        0 <= prefix_duration(q, n) <= n * 0x1_0000_0000,
    decreases n,
{
    if n > 0 {
        lemma_prefix_duration_bound(q, n - 1);
        assert((n - 1) * 0x1_0000_0000 + 0x1_0000_0000 == n * 0x1_0000_0000) by (nonlinear_arith);
    }
}

/// Total duration of the first `n` queue entries, executed.
pub fn sum_prefix_duration(queue: &Vec<Track>, n: usize) -> (sum: i64)
    requires
        n <= queue@.len(),
        queue@.len() <= QUEUE_LIMIT,
    ensures
        sum == prefix_duration(queue@, n as int),
        0 <= sum <= 43_000_000_000_000i64,
{
    proof {
        lemma_prefix_duration_bound(queue@, n as int);
    }
    let mut sum: i64 = 0;
    let mut i: usize = 0;
    while i < n
        invariant
            n <= queue@.len(),
            queue@.len() <= QUEUE_LIMIT,
            0 <= i <= n,
            sum == prefix_duration(queue@, i as int),
            0 <= sum <= 43_000_000_000_000i64,
        decreases n - i,
    {
        proof {
            lemma_prefix_duration_bound(queue@, i as int);
            lemma_prefix_duration_bound(queue@, i + 1);
        }
        sum = sum + queue[i].duration_ms as i64;
        i = i + 1;
    }
    sum
}

/// How far into the current track playback has advanced: the stored
/// progress, extrapolated by wall-clock time while playing, capped at a
/// day.
pub open spec fn spec_elapsed(st: PlaybackState, now: u64) -> int {
    st.progress + (if st.playing && now >= st.last_progress_update {
        if now - st.last_progress_update <= EXTRAPOLATION_CAP_MS {
            (now - st.last_progress_update) as int
        } else {
            EXTRAPOLATION_CAP_MS as int
        }
    } else {
        0
    })
}

/// Executable form of `spec_elapsed`.
pub fn playback_elapsed(st: &PlaybackState, now: u64) -> (e: i64)
    ensures
        e == spec_elapsed(*st, now),
        0 <= e <= 0x1_0000_0000i64 + EXTRAPOLATION_CAP_MS as i64,
{
    let extra: u64 = if st.playing && now >= st.last_progress_update {
        let d: u64 = now - st.last_progress_update;
        if d <= EXTRAPOLATION_CAP_MS {
            d
        } else {
            EXTRAPOLATION_CAP_MS
        }
    } else {
        0
    };
    st.progress as i64 + extra as i64
}

/// A span of screen millipixels converted back to track time.
pub open spec fn px_to_ms(cfg: Config, px: int) -> int {
    tdiv(px * cfg.timeline_future_ms, timeline_width(cfg))
}

/// The timeline offset a drag in progress adds, from the pointer's
/// horizontal distance to the press origin (clamped to a million pixels).
pub open spec fn spec_drag_offset(it: crate::interaction::InteractionState, cfg: Config) -> int {
    match it.drag_origin {
        Some(o) => {
            let dx = it.mouse_position.x - o.x;
            let clamped = if dx < -1_000_000_000 {
                -1_000_000_000int
            } else if dx > 1_000_000_000 {
                1_000_000_000int
            } else {
                dx as int
            };
            px_to_ms(cfg, clamped)
        },
        None => 0,
    }
}

/// Executable drag offset.
pub fn drag_offset_ms(it: &crate::interaction::InteractionState, cfg: &Config) -> (r: i64)
    requires
        config_wf(*cfg),
        crate::interaction::interaction_wf(*it),
    ensures
        r == spec_drag_offset(*it, *cfg),
        -360_000_000_000i64 <= r <= 360_000_000_000i64,
{
    match it.drag_origin {
        Some(o) => {
            let dx: i64 = it.mouse_position.x - o.x;
            let clamped: i64 = if dx < -1_000_000_000 {
                -1_000_000_000
            } else if dx > 1_000_000_000 {
                1_000_000_000
            } else {
                dx
            };
            let mag: i64 = if clamped >= 0 {
                clamped
            } else {
                -clamped
            };
            assert(0 <= mag * cfg.timeline_future_ms <= 1_000_000_000i64 * 36_000_000)
                by (nonlinear_arith)
                requires
                    0 <= mag <= 1_000_000_000,
                    0 < cfg.timeline_future_ms <= 36_000_000,
            ;
            let w: i64 = cfg.width - cfg.history_width - crate::config::RIGHT_MARGIN;
            let q: i64 = mag * cfg.timeline_future_ms / w;
            assert(0 <= q <= (mag * cfg.timeline_future_ms) / 100_000) by (nonlinear_arith)
                requires
                    q == (mag * cfg.timeline_future_ms) / (w as int),
                    mag * cfg.timeline_future_ms >= 0,
                    w as int >= 100_000,
            ;
            if clamped >= 0 {
                q
            } else {
                proof {
                    assert((-(clamped as int)) * cfg.timeline_future_ms == -(clamped
                        * cfg.timeline_future_ms)) by (nonlinear_arith);
                }
                -q
            }
        },
        None => 0,
    }
}

/// The raw target timeline offset: the playing position and the past
/// tracks' spans put the current track's elapsed position at time zero,
/// shifted by any drag in progress.
pub open spec fn spec_target_ms(
    st: PlaybackState,
    it: crate::interaction::InteractionState,
    cfg: Config,
    now: u64,
    cur_idx: int,
) -> int {
    -spec_elapsed(st, now) - prefix_duration(st.queue@, cur_idx) + spec_drag_offset(it, cfg)
        - TRACK_SPACING_MS * cur_idx
}

/// The displayed offset after rate-limited catch-up: a discrepancy over
/// the threshold eases toward the target at a fixed multiple of the frame
/// delta instead of snapping, saturating at the offset limit.
pub open spec fn spec_smoothed(target: int, offset: int, dragging: bool, dt: int) -> int {
    let diff = target - offset;
    if !dragging && (diff > CATCHUP_THRESHOLD_MS || diff < -CATCHUP_THRESHOLD_MS) {
        let eased = offset + tdiv(diff * 7 * dt, 2000);
        if eased > OFFSET_LIMIT {
            OFFSET_LIMIT as int
        } else if eased < -OFFSET_LIMIT {
            -OFFSET_LIMIT as int
        } else {
            eased
        }
    } else {
        target
    }
}

/// Sum of the first `n` ring-buffer samples.
pub open spec fn speeds_sum(s: Seq<i64>, n: int) -> int
    decreases n,
    when 0 <= n <= s.len()
{
    if n <= 0 {
        0
    } else {
        speeds_sum(s, n - 1) + s[n - 1]
    }
}

/// Bounded samples sum to a bounded total.
pub proof fn lemma_speeds_sum_bound(s: Seq<i64>, n: int, bound: int)
    requires
        0 <= n <= s.len(),
        bound >= 0,
        forall|j: int| 0 <= j < s.len() ==> -bound <= #[trigger] s[j] <= bound,
    ensures
        -(n * bound) <= speeds_sum(s, n) <= n * bound,
    decreases n,
{
    if n > 0 {
        lemma_speeds_sum_bound(s, n - 1, bound);
        assert((n - 1) * bound + bound == n * bound && -((n - 1) * bound) - bound == -(n * bound))
            by (nonlinear_arith);
    } else {
        assert(n * bound == 0) by (nonlinear_arith)
            requires
                n == 0,
        ;
    }
}

/// Advance the displayed offset toward the target, record the per-frame
/// scroll speed in the ring buffer, and report the new offset and the
/// rolling average speed.
pub fn advance_offset(rs: &mut RenderState, target: i64, dragging: bool, dt: i64) -> (r: (i64, i64))
    requires
        render_state_wf(*old(rs)),
        -50_000_000_000_000i64 <= target <= 50_000_000_000_000i64,
        0 <= dt <= DT_CAP_MS,
    ensures
        render_state_wf(*final(rs)),
        r.0 == spec_smoothed(target as int, old(rs).track_offset_ms as int, dragging, dt as int),
        final(rs).track_offset_ms == r.0,
        final(rs).recent_speeds@ == old(rs).recent_speeds@.update(
            old(rs).speed_idx as int,
            (tdiv((r.0 - old(rs).track_offset_ms) * dt, 1000)) as i64,
        ),
        final(rs).speed_idx == ((old(rs).speed_idx + 1) % 8),
        final(rs).last_update_ms == old(rs).last_update_ms,
        r.1 == tdiv(speeds_sum(final(rs).recent_speeds@, 8), 8),
        -400_000_000_000_000_000i64 <= r.1 <= 400_000_000_000_000_000i64,
{
    let offset: i64 = rs.track_offset_ms;
    let diff: i64 = target - offset;
    let current: i64 = if !dragging && (diff > CATCHUP_THRESHOLD_MS || diff
        < -CATCHUP_THRESHOLD_MS) {
        let scaled: i64 = mul7_div2000(diff, dt);
        let eased: i64 = offset + scaled;
        if eased > OFFSET_LIMIT {
            OFFSET_LIMIT
        } else if eased < -OFFSET_LIMIT {
            -OFFSET_LIMIT
        } else {
            eased
        }
    } else {
        target
    };
    let delta: i64 = current - offset;
    let speed: i64 = mul_div1000(delta, dt);
    rs.track_offset_ms = current;
    let idx: usize = rs.speed_idx;
    rs.recent_speeds[idx] = speed;
    rs.speed_idx = (idx + 1) % 8;
    let mut sum: i64 = 0;
    let mut k: usize = 0;
    while k < 8
        invariant
            0 <= k <= 8,
            rs.recent_speeds@.len() == 8,
            forall|j: int|
                0 <= j < 8 ==> -400_000_000_000_000_000i64 <= #[trigger] rs.recent_speeds@[j]
                    <= 400_000_000_000_000_000i64,
            sum == speeds_sum(rs.recent_speeds@, k as int),
        decreases 8 - k,
    {
        proof {
            lemma_speeds_sum_bound(rs.recent_speeds@, k as int, 400_000_000_000_000_000);
            lemma_speeds_sum_bound(rs.recent_speeds@, k + 1, 400_000_000_000_000_000);
        }
        sum = sum + rs.recent_speeds[k];
        k = k + 1;
    }
    proof {
        lemma_speeds_sum_bound(rs.recent_speeds@, 8, 400_000_000_000_000_000);
    }
    let avg: i64 = if sum >= 0 {
        sum / 8
    } else {
        -((-sum) / 8)
    };
    (current, avg)
}

/// Exact `diff * 7 * dt / 2000` with truncation toward zero.
fn mul7_div2000(diff: i64, dt: i64) -> (r: i64)
    requires
        -200_000_000_000_000i64 <= diff <= 200_000_000_000_000i64,
        0 <= dt <= 1000,
    ensures
        r == tdiv(diff * 7 * dt, 2000),
        -700_000_000_000_000i64 <= r <= 700_000_000_000_000i64,
{
    let mag: i64 = if diff >= 0 {
        diff
    } else {
        -diff
    };
    assert(0 <= mag * 7 * dt <= 1_400_000_000_000_000_000i64) by (nonlinear_arith)
        requires
            0 <= mag <= 200_000_000_000_000i64,
            0 <= dt <= 1000,
    ;
    let q: i64 = mag * 7 * dt / 2000;
    proof {
        assert(q <= 700_000_000_000_000i64) by (nonlinear_arith)
            requires
                q == (mag * 7 * dt) / 2000,
                0 <= mag * 7 * dt <= 1_400_000_000_000_000_000i64,
        ;
        assert(q >= 0) by (nonlinear_arith)
            requires
                q == (mag * 7 * dt) / 2000,
                mag * 7 * dt >= 0,
        ;
        assert((-(diff as int)) * 7 * dt == -(diff * 7 * dt)) by (nonlinear_arith);
    }
    if diff >= 0 {
        q
    } else {
        -q
    }
}

/// Exact `delta * dt / 1000` with truncation toward zero.
fn mul_div1000(delta: i64, dt: i64) -> (r: i64)
    requires
        -300_000_000_000_000i64 <= delta <= 300_000_000_000_000i64,
        0 <= dt <= 1000,
    ensures
        r == tdiv(delta * dt, 1000),
        -300_000_000_000_000i64 <= r <= 300_000_000_000_000i64,
{
    let mag: i64 = if delta >= 0 {
        delta
    } else {
        -delta
    };
    assert(0 <= mag * dt <= 300_000_000_000_000_000i64) by (nonlinear_arith)
        requires
            0 <= mag <= 300_000_000_000_000i64,
            0 <= dt <= 1000,
    ;
    let q: i64 = mag * dt / 1000;
    proof {
        assert(0 <= q <= mag) by (nonlinear_arith)
            requires
                q == (mag * dt) / 1000,
                0 <= mag * dt,
                0 <= dt <= 1000,
                0 <= mag,
        ;
        assert((-(delta as int)) * dt == -(delta * dt)) by (nonlinear_arith);
    }
    if delta >= 0 {
        q
    } else {
        -q
    }
}

/// Whether a laid-out entry falls entirely before the history strip once
/// its art square is excluded: the collapse condition.
pub open spec fn collapses(r: TrackRender, cfg: Config) -> bool {
    r.start_x + r.width - cfg.height <= cfg.history_width
}

/// The stacking pass flags exactly the entries meeting the collapse
/// condition, gives each the fixed art-only width, and leaves the rest
/// untouched.
pub proof fn lemma_stack_flags(
    renders: Seq<TrackRender>,
    i: int,
    cur: int,
    found: bool,
    cfg: Config,
)
    requires
        0 <= i <= renders.len(),
    ensures
        ({
            let out = stack_rec(renders, i, cur, found, cfg);
            &&& out.len() == renders.len()
            &&& forall|k: int| i <= k < renders.len() ==> #[trigger] out[k] == renders[k]
            &&& forall|k: int|
                0 <= k < i ==> (#[trigger] out[k]).art_only == (collapses(renders[k], cfg)
                    || renders[k].art_only)
            &&& forall|k: int|
                0 <= k < i && collapses(#[trigger] renders[k], cfg) ==> out[k].width == cfg.height
            &&& forall|k: int|
                0 <= k < i && !collapses(#[trigger] renders[k], cfg) ==> out[k] == renders[k]
            &&& forall|k: int|
                0 <= k < i ==> ({
                    let o = #[trigger] out[k];
                    &&& o.track_index == renders[k].track_index
                    &&& o.is_current == renders[k].is_current
                    &&& o.ms_until_start == renders[k].ms_until_start
                    &&& o.hitbox_start == renders[k].hitbox_start
                    &&& o.hitbox_end == renders[k].hitbox_end
                })
        }),
    decreases i,
{
    if i > 0 {
        let step = stack_one(renders[i - 1], cur, found, cfg);
        lemma_stack_flags(renders.update(i - 1, step.0), i - 1, step.1, step.2, cfg);
    }
}

/// Once the seam is placed, the remaining (all-collapsing) entries pack
/// at fixed steps: strictly increasing left-to-right with queue order,
/// all at or left of the running position.
pub proof fn lemma_stack_packed(renders: Seq<TrackRender>, i: int, cur: int, cfg: Config)
    requires
        0 <= i <= renders.len(),
        renders.len() <= QUEUE_LIMIT,
        -2_000_000_000_000_000 <= cur - 30_000 * i,
        cur <= 2_000_000_000_000_000,
        forall|k: int| 0 <= k < i ==> collapses(#[trigger] renders[k], cfg),
    ensures
        ({
            let out = stack_rec(renders, i, cur, true, cfg);
            &&& forall|j: int, k: int|
                0 <= j < k < i ==> (#[trigger] out[j]).start_x < (#[trigger] out[k]).start_x
            &&& forall|k: int| 0 <= k < i ==> (#[trigger] out[k]).start_x <= cur
        }),
    decreases i,
{
    if i > 0 {
        let step = stack_one(renders[i - 1], cur, true, cfg);
        assert(step.0.start_x == cur);
        assert(step.1 == cur - STACK_STEP);
        lemma_stack_packed(renders.update(i - 1, step.0), i - 1, cur - STACK_STEP, cfg);
        lemma_stack_flags(renders.update(i - 1, step.0), i - 1, cur - STACK_STEP, true, cfg);
    }
}

/// Past-track stacking: every entry whose interval lies fully before the
/// history strip collapses to the fixed art-only width, and the collapsed
/// entries (all but the boundary one) stand left-to-right in queue order.
///
/// The hypothesis is the geometric fact the layout provides: right edges
/// do not decrease along the queue, so the collapse condition holds on a
/// prefix.
pub proof fn lemma_timeline_stacking(renders: Seq<TrackRender>, cfg: Config)
    requires
        config_wf(cfg),
        renders.len() <= QUEUE_LIMIT,
        forall|k: int|
            0 <= k < renders.len() ==> -1_000_000_000_000i64 <= (#[trigger] renders[k]).start_x
                <= 1_000_000_000_000i64,
        forall|j: int, k: int|
            0 <= j < k < renders.len() ==> (#[trigger] renders[j]).start_x + renders[j].width
                <= (#[trigger] renders[k]).start_x + renders[k].width,
        forall|k: int| 0 <= k < renders.len() ==> !(#[trigger] renders[k]).art_only,
    ensures
        ({
            let out = stack_rec(renders, renders.len() as int, 0, false, cfg);
            &&& out.len() == renders.len()
            &&& forall|k: int|
                0 <= k < renders.len() ==> (#[trigger] out[k]).art_only == collapses(
                    renders[k],
                    cfg,
                )
            &&& forall|k: int|
                0 <= k < renders.len() && collapses(#[trigger] renders[k], cfg) ==> out[k].width
                    == cfg.height
            &&& forall|j: int, k: int|
                0 <= j < k < renders.len() && collapses(#[trigger] renders[j], cfg) && collapses(
                    #[trigger] renders[k],
                    cfg,
                ) && (exists|m: int|
                    k < m < renders.len() && collapses(#[trigger] renders[m], cfg)) ==> out[j].start_x
                    < out[k].start_x
        }),
    decreases renders.len(),
{
    lemma_stack_flags(renders, renders.len() as int, 0, false, cfg);
    lemma_stack_order_from(renders, renders.len() as int, 0, false, cfg);
}

/// Induction helper for the ordering half of the stacking law.
proof fn lemma_stack_order_from(
    renders: Seq<TrackRender>,
    i: int,
    cur: int,
    found: bool,
    cfg: Config,
)
    requires
        0 <= i <= renders.len(),
        renders.len() <= QUEUE_LIMIT,
        config_wf(cfg),
        -1_000_000_000_000_000 <= cur <= 1_000_000_000_000_000,
        forall|k: int|
            0 <= k < i ==> -1_000_000_000_000i64 <= (#[trigger] renders[k]).start_x
                <= 1_000_000_000_000i64,
        !found,
        forall|j: int, k: int|
            0 <= j < k < i ==> collapses(#[trigger] renders[k], cfg) ==> collapses(
                #[trigger] renders[j],
                cfg,
            ),
    ensures
        ({
            let out = stack_rec(renders, i, cur, false, cfg);
            forall|j: int, k: int|
                0 <= j < k < i && collapses(#[trigger] renders[j], cfg) && collapses(
                    #[trigger] renders[k],
                    cfg,
                ) && (exists|m: int| k < m < i && collapses(#[trigger] renders[m], cfg))
                    ==> out[j].start_x < out[k].start_x
        }),
    decreases i,
{
    if i > 0 {
        let r = renders[i - 1];
        let step = stack_one(r, cur, false, cfg);
        let rest = renders.update(i - 1, step.0);
        if collapses(r, cfg) {
            assert forall|k: int| 0 <= k < i - 1 implies collapses(
                #[trigger] rest[k],
                cfg,
            ) by {
                assert(rest[k] == renders[k]);
                assert(collapses(renders[k], cfg));
            }
            lemma_stack_packed(rest, i - 1, step.1, cfg);
            lemma_stack_flags(rest, i - 1, step.1, true, cfg);
            let out = stack_rec(rest, i - 1, step.1, true, cfg);
            assert forall|j: int, k: int|
                0 <= j < k < i && collapses(#[trigger] renders[j], cfg) && collapses(
                    #[trigger] renders[k],
                    cfg,
                ) && (exists|m: int| k < m < i && collapses(#[trigger] renders[m], cfg))
                    implies out[j].start_x < out[k].start_x by {
                if k < i - 1 {
                    assert(rest[j] == renders[j]);
                    assert(rest[k] == renders[k]);
                }
            }
        } else {
            lemma_stack_order_from(rest, i - 1, step.1, false, cfg);
            let out = stack_rec(rest, i - 1, step.1, false, cfg);
            assert forall|j: int, k: int|
                0 <= j < k < i && collapses(#[trigger] renders[j], cfg) && collapses(
                    #[trigger] renders[k],
                    cfg,
                ) && (exists|m: int| k < m < i && collapses(#[trigger] renders[m], cfg))
                    implies out[j].start_x < out[k].start_x by {
                let m = choose|m: int| k < m < i && collapses(#[trigger] renders[m], cfg);
                assert(m < i - 1);
                assert(rest[j] == renders[j]);
                assert(rest[k] == renders[k]);
                assert(rest[m] == renders[m]);
            }
        }
    }
}


} // verus!
