//! Per-frame render data and the particle pool.  Positions are in
//! millipixels, animation phases in milli-units (0..=1000), times in
//! milliseconds; colors are packed RGBA words.

use crate::geom::Point;
use vstd::prelude::*;

verus! {

/// Number of slots in the particle pool.
pub const PARTICLE_POOL: usize = 64;

/// Per-frame uniform values shared by every pipeline.
pub struct GlobalUniforms {
    pub screen_w: i64,
    pub screen_h: i64,
    pub bar_start: i64,
    pub bar_height: i64,
    pub mouse_pos: Point,
    /// 0 idle, 1000 hovered, 2000 pressed; eased between targets.
    pub mouse_pressure: i64,
    pub playhead_x: i64,
    pub expansion_xy: Point,
    /// When the expansion ripple started, on the panel clock.
    pub expansion_time_ms: u64,
    /// The panel clock at this frame.
    pub time_ms: u64,
}

impl GlobalUniforms {
    /// All-zero uniforms, before the first frame.
    pub fn new() -> (u: GlobalUniforms)
        ensures
            u.screen_w == 0 && u.screen_h == 0 && u.bar_start == 0 && u.bar_height == 0,
            u.mouse_pos.x == 0 && u.mouse_pos.y == 0,
            u.mouse_pressure == 0 && u.playhead_x == 0,
            u.expansion_xy.x == 0 && u.expansion_xy.y == 0,
            u.expansion_time_ms == 0 && u.time_ms == 0,
    {
        GlobalUniforms {
            screen_w: 0,
            screen_h: 0,
            bar_start: 0,
            bar_height: 0,
            mouse_pos: Point { x: 0, y: 0 },
            mouse_pressure: 0,
            playhead_x: 0,
            expansion_xy: Point { x: 0, y: 0 },
            expansion_time_ms: 0,
            time_ms: 0,
        }
    }
}

/// The playhead uniform block: volume and three animation phases, all in
/// milli-units.
pub struct PlayheadUniforms {
    pub volume: i64,
    pub bar_lerp: i64,
    pub play_lerp: i64,
    pub pause_lerp: i64,
}

impl PlayheadUniforms {
    /// All-zero playhead uniforms.
    pub fn new() -> (u: PlayheadUniforms)
        ensures
            u.volume == 0 && u.bar_lerp == 0 && u.play_lerp == 0 && u.pause_lerp == 0,
    {
        PlayheadUniforms { volume: 0, bar_lerp: 0, play_lerp: 0, pause_lerp: 0 }
    }
}

/// One slot of the particle pool.  A particle is dead once the panel
/// clock passes `end_time_ms`, and is then eligible for respawn.
#[derive(Clone, Copy, PartialEq, Eq, Structural)]
pub struct Particle {
    pub spawn_pos: Point,
    pub spawn_vel: Point,
    pub end_time_ms: u64,
    /// Packed red, green, blue and lifetime bytes.
    pub color: u32,
}

/// A dead particle at the origin.
pub fn particle_zero() -> (p: Particle)
    ensures
        p.spawn_pos.x == 0 && p.spawn_pos.y == 0,
        p.spawn_vel.x == 0 && p.spawn_vel.y == 0,
        p.end_time_ms == 0,
        p.color == 0,
{
    Particle {
        spawn_pos: Point { x: 0, y: 0 },
        spawn_vel: Point { x: 0, y: 0 },
        end_time_ms: 0,
        color: 0,
    }
}

/// A fresh particle pool: every slot dead.
pub fn new_particle_pool() -> (pool: Vec<Particle>)
    ensures
        pool@.len() == PARTICLE_POOL,
        forall|i: int| 0 <= i < pool@.len() ==> #[trigger] pool@[i] == particle_zero_spec(),
{
    let mut pool: Vec<Particle> = Vec::new();
    let mut i: usize = 0;
    while i < PARTICLE_POOL
        invariant
            0 <= i <= PARTICLE_POOL,
            pool@.len() == i,
            forall|j: int| 0 <= j < i ==> #[trigger] pool@[j] == particle_zero_spec(),
        decreases PARTICLE_POOL - i,
    {
        pool.push(particle_zero());
        i = i + 1;
    }
    pool
}

/// The all-zero particle value.
pub open spec fn particle_zero_spec() -> Particle {
    Particle {
        spawn_pos: Point { x: 0, y: 0 },
        spawn_vel: Point { x: 0, y: 0 },
        end_time_ms: 0,
        color: 0,
    }
}

/// Precomputed randomness for one spawned particle: a velocity vector in
/// millipixels per second and a lifetime in milliseconds.
#[derive(Clone, Copy, PartialEq, Eq, Structural)]
pub struct BurstSample {
    pub vel_x: i64,
    pub vel_y: i64,
    pub duration_ms: u64,
}

/// A burst sample is sane: a bounded velocity and a lifetime within the
/// configured range.
pub open spec fn burst_sample_wf(s: BurstSample) -> bool {
    &&& -1_000_000 <= s.vel_x <= 1_000_000
    &&& -1_000_000 <= s.vel_y <= 1_000_000
    &&& s.duration_ms <= 10_000
}

/// The lifetime byte packed into a spawned particle's color: the
/// lifetime in centiseconds, saturating at 255.
pub open spec fn lifetime_byte(duration_ms: u64) -> int {
    if duration_ms / 10 < 255 {
        (duration_ms / 10) as int
    } else {
        255
    }
}

/// The gold burst color with the lifetime in the high byte.
pub open spec fn burst_color(duration_ms: u64) -> int {
    0x0032_D7FF + lifetime_byte(duration_ms) * 0x0100_0000
}

/// The particle a burst sample spawns at a given position and time.
pub open spec fn burst_particle(s: BurstSample, pos: Point, time_ms: u64) -> Particle {
    Particle {
        spawn_pos: pos,
        spawn_vel: Point { x: s.vel_x, y: s.vel_y },
        end_time_ms: (time_ms + s.duration_ms) as u64,
        color: burst_color(s.duration_ms) as u32,
    }
}

/// The pool after a burst: walking the slots in order, each dead slot
/// takes the next sample until the budget or the samples run out.
pub open spec fn burst_result(
    pool: Seq<Particle>,
    samples: Seq<BurstSample>,
    budget: int,
    time_ms: u64,
    pos: Point,
) -> Seq<Particle>
    decreases pool.len(),
{
    if pool.len() == 0 || budget <= 0 || samples.len() == 0 {
        pool
    } else if time_ms > pool[0].end_time_ms {
        seq![burst_particle(samples[0], pos, time_ms)] + burst_result(
            pool.drop_first(),
            samples.drop_first(),
            budget - 1,
            time_ms,
            pos,
        )
    } else {
        seq![pool[0]] + burst_result(pool.drop_first(), samples, budget, time_ms, pos)
    }
}

/// Spawn a burst of particles into dead pool slots, walking the pool in
/// order, spending at most `budget` samples.
pub fn emit_burst(
    pool: &mut Vec<Particle>,
    samples: &Vec<BurstSample>,
    budget: usize,
    time_ms: u64,
    pos: Point,
)
    requires
        time_ms <= 0x0000_FFFF_FFFF_FFFFu64,
        budget <= samples@.len(),
        forall|k: int| 0 <= k < samples@.len() ==> burst_sample_wf(#[trigger] samples@[k]),
    ensures
        final(pool)@ == burst_result(old(pool)@, samples@, budget as int, time_ms, pos),
        final(pool)@.len() == old(pool)@.len(),
{
    let ghost pool0 = pool@;
    proof {
        assert(pool0.skip(0) =~= pool0);
        assert(samples@.skip(0) =~= samples@);
        assert(pool@.take(0) + burst_result(pool0, samples@, budget as int, time_ms, pos)
            =~= burst_result(pool0, samples@, budget as int, time_ms, pos));
    }
    let mut i: usize = 0;
    let mut s: usize = 0;
    let mut b: usize = budget;
    while i < pool.len() && b > 0
        invariant
            time_ms <= 0x0000_FFFF_FFFF_FFFFu64,
            forall|k: int| 0 <= k < samples@.len() ==> burst_sample_wf(#[trigger] samples@[k]),
            0 <= i <= pool@.len(),
            pool@.len() == pool0.len(),
            s + b == budget,
            budget <= samples@.len(),
            pool@.skip(i as int) == pool0.skip(i as int),
            burst_result(pool0, samples@, budget as int, time_ms, pos) == pool@.take(i as int)
                + burst_result(
                pool0.skip(i as int),
                samples@.skip(s as int),
                b as int,
                time_ms,
                pos,
            ),
        decreases pool@.len() - i,
    {
        assert(pool0.skip(i as int).len() > 0);
        assert(pool0.skip(i as int)[0] == pool0[i as int]);
        assert(pool0.skip(i as int).drop_first() =~= pool0.skip(i + 1));
        assert(pool@[i as int] == pool0[i as int]);
        if time_ms > pool[i].end_time_ms {
            assert(samples@.skip(s as int)[0] == samples@[s as int]);
            assert(samples@.skip(s as int).drop_first() =~= samples@.skip(s + 1));
            let sample = samples[s];
            let lifetime: u64 = sample.duration_ms / 10;
            let byte: u32 = if lifetime < 255 {
                lifetime as u32
            } else {
                255
            };
            let color: u32 = 0x0032_D7FF + byte * 0x0100_0000;
            let p = Particle {
                spawn_pos: pos,
                spawn_vel: Point { x: sample.vel_x, y: sample.vel_y },
                end_time_ms: time_ms + sample.duration_ms,
                color,
            };
            assert(p == burst_particle(samples@[s as int], pos, time_ms));
            pool[i] = p;
            s = s + 1;
            b = b - 1;
        }
        proof {
            assert(pool@.take(i + 1) =~= pool@.take(i as int).push(pool@[i as int]));
            assert(pool@.skip(i + 1) =~= pool0.skip(i + 1));
        }
        i = i + 1;
    }
    proof {
        if i == pool@.len() {
            assert(pool0.skip(i as int).len() == 0);
            assert(burst_result(
                pool0.skip(i as int),
                samples@.skip(s as int),
                b as int,
                time_ms,
                pos,
            ) =~= pool0.skip(i as int));
        } else {
            assert(b == 0);
            assert(burst_result(
                pool0.skip(i as int),
                samples@.skip(s as int),
                b as int,
                time_ms,
                pos,
            ) =~= pool0.skip(i as int));
        }
        assert(pool@ =~= pool@.take(i as int) + pool@.skip(i as int));
        assert(pool@.take(i as int) + pool0.skip(i as int) =~= pool@);
    }
}

/// One background pill to draw: a track's rounded rectangle.
pub struct BackgroundPill {
    pub pos_x: i64,
    pub width: i64,
    /// The four palette swatches of the album artwork.
    pub colors: [u32; 4],
    /// Fade alpha in millionths.
    pub alpha: i64,
    /// Artwork URL; the renderer resolves it to a texture slot.
    pub image: Option<String>,
}

/// One icon instance to draw.
pub struct IconInstance {
    pub pos: Point,
    /// Packed pair of 16-bit values: alpha above icon state.
    pub data: u32,
    /// Artwork URL; the renderer resolves it to a texture slot.
    pub image: Option<String>,
}

/// Cross-frame layout engine state: the displayed timeline offset and a
/// ring buffer of recent per-frame scroll speeds.
pub struct RenderState {
    pub last_update_ms: u64,
    /// The displayed "milliseconds until the current track's start".
    pub track_offset_ms: i64,
    /// Ring buffer of recent per-frame scroll speeds.
    pub recent_speeds: Vec<i64>,
    pub speed_idx: usize,
}

/// The ring buffer always holds eight samples, the index stays in
/// range, and the offsets and speeds stay within the layout arithmetic's
/// bounds.
pub open spec fn render_state_wf(r: RenderState) -> bool {
    &&& r.recent_speeds@.len() == 8
    &&& r.speed_idx < 8
    &&& -100_000_000_000_000 <= r.track_offset_ms <= 100_000_000_000_000
    &&& forall|i: int|
        0 <= i < 8 ==> -400_000_000_000_000_000 <= #[trigger] r.recent_speeds@[i]
            <= 400_000_000_000_000_000
}

impl RenderState {
    /// Layout state before the first frame.
    pub fn new(now_ms: u64) -> (r: RenderState)
        ensures
            render_state_wf(r),
            r.last_update_ms == now_ms,
            r.track_offset_ms == 0,
            forall|i: int| 0 <= i < 8 ==> #[trigger] r.recent_speeds@[i] == 0,
            r.speed_idx == 0,
    {
        let mut speeds: Vec<i64> = Vec::new();
        let mut i: usize = 0;
        while i < 8
            invariant
                0 <= i <= 8,
                speeds@.len() == i,
                forall|j: int| 0 <= j < i ==> #[trigger] speeds@[j] == 0,
            decreases 8 - i,
        {
            speeds.push(0);
            i = i + 1;
        }
        RenderState { last_update_ms: now_ms, track_offset_ms: 0, recent_speeds: speeds, speed_idx: 0 }
    }
}

/// A track's computed place on this frame's timeline.
#[derive(Clone, Copy)]
pub struct TrackRender {
    /// Index of the track in the queue.
    pub track_index: usize,
    /// Whether the playhead falls within this track's interval.
    pub is_current: bool,
    /// Distance in milliseconds from the playhead to the track start.
    pub ms_until_start: i64,
    /// Left edge on screen, in millipixels.
    pub start_x: i64,
    /// Visible width, in millipixels.
    pub width: i64,
    /// Uncropped screen interval of the full track, for seek fractions.
    pub hitbox_start: i64,
    pub hitbox_end: i64,
    /// Collapsed to the fixed-width art-only representation.
    pub art_only: bool,
}

} // verus!
