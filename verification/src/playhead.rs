//! Playhead animation and motion particles: emission pacing from the
//! rolling scroll speed, spark spawning into the fixed pool, and the
//! play/pause morph state machine.

use crate::config::{Config, PANEL_START};
use crate::geom::{move_towards, moved_towards, rect_contains, Point, Rect};
use crate::render::{lifetime_byte, Particle};
use crate::tdiv;
use crate::{app_wf, CantusApp};
use vstd::prelude::*;

verus! {

/// Particles emitted per second while content scrolls.
pub const SPARK_EMISSION_PER_S: i64 = 20;

/// Duration of the play/pause toggle animation, in milliseconds.
pub const ANIMATION_DURATION_MS: u64 = 2000;

/// Precomputed randomness for one playhead spark: a vertical fraction in
/// milli-units, a horizontal speed pick in pixels per second, a lifetime
/// in milliseconds, and which palette swatch colors it.
#[derive(Clone, Copy, PartialEq, Eq, Structural)]
pub struct SparkSample {
    pub y_frac: i64,
    pub vel_pick: i64,
    pub duration_ms: u64,
    pub palette_pick: usize,
}

/// A spark sample is sane.
pub open spec fn spark_sample_wf(s: SparkSample) -> bool {
    &&& 0 <= s.y_frac <= 1000
    &&& 0 <= s.vel_pick <= 1000
    &&& s.duration_ms <= 10_000
    &&& s.palette_pick < 4
}

/// Fifth power.
pub open spec fn pow5(k: int) -> int {
    k * k * k * k * k
}

/// The largest milli-valued fifth root at or below `k` whose fifth
/// power fits under `a`, in milli-units.
pub open spec fn root5_milli(a: int, k: int) -> int
    decreases k,
    when k >= 0
{
    if k <= 0 {
        0
    } else if pow5(k) <= a * 1_000_000_000_000_000 {
        k
    } else {
        root5_milli(a, k - 1)
    }
}

/// The horizontal spawn bias for a rolling speed: the fifth root of its
/// magnitude in milli-units, clamped to three, signed like the speed.
pub open spec fn spec_speed_bias(avg: i64) -> int {
    let a: int = if avg >= 0 {
        avg as int
    } else {
        -avg as int
    };
    let r: int = if a >= 243 {
        3000
    } else {
        root5_milli(a, 3000)
    };
    if avg >= 0 {
        r
    } else {
        -r
    }
}

/// Compute the spawn bias.
pub fn speed_bias(avg: i64) -> (b: i64)
    requires
        -1_000_000_000_000_000_000i64 <= avg <= 1_000_000_000_000_000_000i64,
    ensures
        b == spec_speed_bias(avg),
        -3000 <= b <= 3000,
{
    let a: i64 = if avg >= 0 {
        avg
    } else {
        -avg
    };
    let r: i64;
    if a >= 243 {
        r = 3000;
    } else {
        let target: i64 = a * 1_000_000_000_000_000;
        let mut k: i64 = 3000;
        let mut done: bool = false;
        while !done
            invariant
                0 <= k <= 3000,
                0 <= a < 243,
                target == a * 1_000_000_000_000_000,
                0 <= target <= 242_000_000_000_000_000i64,
                !done ==> root5_milli(a as int, 3000) == root5_milli(a as int, k as int),
                done ==> k == root5_milli(a as int, 3000),
            decreases 2 * k + (if done {
                0int
            } else {
                1int
            }),
        {
            assert(0 <= k * k <= 9_000_000i64) by (nonlinear_arith)
                requires
                    0 <= k <= 3000,
            ;
            let k2: i64 = k * k;
            assert(0 <= k2 * k2 <= 81_000_000_000_000i64) by (nonlinear_arith)
                requires
                    0 <= k2 <= 9_000_000i64,
            ;
            let k4: i64 = k2 * k2;
            assert(0 <= k4 * k <= 243_000_000_000_000_000i64 && k4 * k == pow5(k as int))
                by (nonlinear_arith)
                requires
                    0 <= k <= 3000,
                    k2 == k * k,
                    k4 == k2 * k2,
            ;
            let p: i64 = k4 * k;
            if p <= target {
                proof {
                    if k > 0 {
                        assert(root5_milli(a as int, k as int) == k as int);
                    } else {
                        assert(root5_milli(a as int, 0) == 0);
                    }
                }
                done = true;
            } else {
                proof {
                    assert(k > 0);
                    assert(root5_milli(a as int, k as int) == root5_milli(a as int, k - 1));
                }
                k = k - 1;
            }
        }
        r = k;
    }
    if avg >= 0 {
        r
    } else {
        -r
    }
}

/// The particle a spark sample spawns at the playhead.
pub open spec fn spark_particle(
    s: SparkSample,
    palette: [u32; 4],
    playhead_x: i64,
    height: i64,
    bias: i64,
    time_ms: u64,
) -> Particle {
    Particle {
        spawn_pos: Point {
            x: playhead_x,
            y: (PANEL_START + tdiv(height * (100_000 + 850 * s.y_frac), 1_000_000)) as i64,
        },
        spawn_vel: Point { x: (s.vel_pick * bias) as i64, y: ((s.y_frac - 500) * 10) as i64 },
        end_time_ms: (time_ms + s.duration_ms) as u64,
        color: ((palette[s.palette_pick as int] & 0x00FF_FFFF) | ((lifetime_byte(s.duration_ms)
            as u32) << 24)) as u32,
    }
}

/// The pool after a spark pass: each dead slot takes the next sample
/// until the budget or the samples run out.
pub open spec fn sparks_result(
    pool: Seq<Particle>,
    samples: Seq<SparkSample>,
    budget: int,
    palette: [u32; 4],
    playhead_x: i64,
    height: i64,
    bias: i64,
    time_ms: u64,
) -> Seq<Particle>
    decreases pool.len(),
{
    if pool.len() == 0 || budget <= 0 || samples.len() == 0 {
        pool
    } else if time_ms > pool[0].end_time_ms {
        seq![spark_particle(samples[0], palette, playhead_x, height, bias, time_ms)]
            + sparks_result(
            pool.drop_first(),
            samples.drop_first(),
            budget - 1,
            palette,
            playhead_x,
            height,
            bias,
            time_ms,
        )
    } else {
        seq![pool[0]] + sparks_result(
            pool.drop_first(),
            samples,
            budget,
            palette,
            playhead_x,
            height,
            bias,
            time_ms,
        )
    }
}

/// Spawn sparks into dead pool slots, walking the pool in order.
pub fn emit_sparks(
    pool: &mut Vec<Particle>,
    samples: &Vec<SparkSample>,
    budget: usize,
    palette: [u32; 4],
    playhead_x: i64,
    height: i64,
    bias: i64,
    time_ms: u64,
)
    requires
        time_ms <= 0x0000_FFFF_FFFF_FFFFu64,
        budget <= samples@.len(),
        forall|k: int| 0 <= k < samples@.len() ==> spark_sample_wf(#[trigger] samples@[k]),
        -2_000_000_000 <= playhead_x <= 2_000_000_000,
        0 < height <= 10_000_000,
        -3000 <= bias <= 3000,
    ensures
        final(pool)@ == sparks_result(
            old(pool)@,
            samples@,
            budget as int,
            palette,
            playhead_x,
            height,
            bias,
            time_ms,
        ),
        final(pool)@.len() == old(pool)@.len(),
{
    let ghost pool0 = pool@;
    proof {
        assert(pool0.skip(0) =~= pool0);
        assert(samples@.skip(0) =~= samples@);
        assert(pool@.take(0) + sparks_result(
            pool0,
            samples@,
            budget as int,
            palette,
            playhead_x,
            height,
            bias,
            time_ms,
        ) =~= sparks_result(
            pool0,
            samples@,
            budget as int,
            palette,
            playhead_x,
            height,
            bias,
            time_ms,
        ));
    }
    let mut i: usize = 0;
    let mut s: usize = 0;
    let mut b: usize = budget;
    while i < pool.len() && b > 0
        invariant
            time_ms <= 0x0000_FFFF_FFFF_FFFFu64,
            forall|k: int| 0 <= k < samples@.len() ==> spark_sample_wf(#[trigger] samples@[k]),
            -2_000_000_000 <= playhead_x <= 2_000_000_000,
            0 < height <= 10_000_000,
            -3000 <= bias <= 3000,
            0 <= i <= pool@.len(),
            pool@.len() == pool0.len(),
            s + b == budget,
            budget <= samples@.len(),
            pool@.skip(i as int) == pool0.skip(i as int),
            sparks_result(
                pool0,
                samples@,
                budget as int,
                palette,
                playhead_x,
                height,
                bias,
                time_ms,
            ) == pool@.take(i as int) + sparks_result(
                pool0.skip(i as int),
                samples@.skip(s as int),
                b as int,
                palette,
                playhead_x,
                height,
                bias,
                time_ms,
            ),
        decreases pool@.len() - i,
    {
        assert(pool0.skip(i as int).len() > 0);
        assert(pool0.skip(i as int)[0] == pool0[i as int]);
        assert(pool0.skip(i as int).drop_first() =~= pool0.skip(i + 1));
        assert(pool@[i as int] == pool0[i as int]);
        if time_ms > pool[i].end_time_ms {
            assert(samples@.skip(s as int)[0] == samples@[s as int]);
            assert(samples@.skip(s as int).drop_first() =~= samples@.skip(s + 1));
            let sample = samples[s];
            assert(0 <= height * (100_000 + 850 * sample.y_frac) <= 10_000_000i64 * 950_000)
                by (nonlinear_arith)
                requires
                    0 < height <= 10_000_000,
                    0 <= sample.y_frac <= 1000,
            ;
            let y: i64 = PANEL_START + (height * (100_000 + 850 * sample.y_frac)) / 1_000_000;
            let lifetime: u64 = sample.duration_ms / 10;
            let byte: u32 = if lifetime < 255 {
                lifetime as u32
            } else {
                255
            };
            let base: u32 = palette[sample.palette_pick];
            let color: u32 = (base & 0x00FF_FFFF) | (byte << 24);
            assert(-3_000_000i64 <= sample.vel_pick * bias <= 3_000_000i64) by (nonlinear_arith)
                requires
                    0 <= sample.vel_pick <= 1000,
                    -3000 <= bias <= 3000,
            ;
            let p = Particle {
                spawn_pos: Point { x: playhead_x, y },
                spawn_vel: Point { x: sample.vel_pick * bias, y: (sample.y_frac - 500) * 10 },
                end_time_ms: time_ms + sample.duration_ms,
                color,
            };
            assert(p == spark_particle(
                samples@[s as int],
                palette,
                playhead_x,
                height,
                bias,
                time_ms,
            ));
            pool[i] = p;
            s = s + 1;
            b = b - 1;
        }
        proof {
            assert(pool@.take(i + 1) =~= pool@.take(i as int).push(pool@[i as int]));
            assert(pool@.skip(i + 1) =~= pool0.skip(i + 1));
        }
        i = i + 1;
    }
    proof {
        if i == pool@.len() {
            assert(pool0.skip(i as int).len() == 0);
        }
        assert(sparks_result(
            pool0.skip(i as int),
            samples@.skip(s as int),
            b as int,
            palette,
            playhead_x,
            height,
            bias,
            time_ms,
        ) =~= pool0.skip(i as int));
        assert(pool@ =~= pool@.take(i as int) + pool@.skip(i as int));
        assert(pool@.take(i as int) + pool0.skip(i as int) =~= pool@);
    }
}

/// The animation easing rate for a frame delta.
pub open spec fn anim_speed(dt: int) -> int {
    tdiv(2200 * dt, 1000)
}

/// One frame of an icon's morph phase: while active it eases toward the
/// midpoint and holds; once inactive it eases to completion and resets.
pub open spec fn icon_phase_next(v: int, active: bool, speed: int) -> int {
    if active {
        moved_towards(v, 500, speed)
    } else if v > 0 {
        let n = moved_towards(v, 1000, speed);
        if n >= 1000 {
            0
        } else {
            n
        }
    } else {
        v
    }
}

/// Milliseconds since the last play/pause toggle, saturating at zero.
pub open spec fn toggle_elapsed(now: u64, last_toggle: u64) -> int {
    if now >= last_toggle {
        now - last_toggle
    } else {
        0
    }
}

impl CantusApp {
    /// Emit motion particles at the playhead while content scrolls, and
    /// advance the playhead bar and play/pause morph animations.
    pub fn render_playhead_particles(
        &mut self,
        dt: i64,
        palette: [u32; 4],
        playhead_x: i64,
        avg_speed: i64,
        volume: Option<u8>,
        sparks: &Vec<SparkSample>,
        now: u64,
        cfg: &Config,
    )
        requires
            app_wf(*old(self)),
            crate::config::config_wf(*cfg),
            0 <= dt <= 1000,
            -2_000_000_000 <= playhead_x <= 2_000_000_000,
            -1_000_000_000_000_000_000i64 <= avg_speed <= 1_000_000_000_000_000_000i64,
            now <= 0x0000_FFFF_FFFF_FFFFu64,
            sparks@.len() == 20,
            forall|k: int| 0 <= k < sparks@.len() ==> spark_sample_wf(#[trigger] sparks@[k]),
            volume matches Some(v) ==> v <= 100,
        ensures
            app_wf(*final(self)),
            ({
                let it = old(self).interaction;
                let emit = avg_speed != 0;
                let budget: int = if emit {
                    (old(self).particles_accumulator + dt * SPARK_EMISSION_PER_S) / 1000
                } else {
                    0
                };
                let hitbox = Rect {
                    x0: (playhead_x - tdiv(cfg.height as int, 4)) as i64,
                    y0: PANEL_START,
                    x1: (playhead_x + tdiv(cfg.height as int, 4)) as i64,
                    y1: (PANEL_START + cfg.height) as i64,
                };
                let hovered = rect_contains(hitbox, it.mouse_position) && it.mouse_pressure > 0;
                let elapsed = toggle_elapsed(now, it.last_toggle_playing_ms);
                let recent = elapsed < ANIMATION_DURATION_MS;
                let bar_target: int = if hovered || !it.playing || recent {
                    1000
                } else {
                    0
                };
                let play_active = (hovered && !it.playing) || (!hovered && it.playing && recent);
                let pause_active = (hovered && it.playing) || (!hovered && !it.playing);
                let play_base: int = if !hovered && it.playing && recent {
                    tdiv(elapsed * 1000, 2000)
                } else {
                    it.playhead_play as int
                };
                let speed = anim_speed(dt as int);
                &&& final(self).particles_accumulator == (if emit {
                    (old(self).particles_accumulator + dt * SPARK_EMISSION_PER_S) % 1000
                } else {
                    0int
                })
                &&& final(self).particles@ == sparks_result(
                    old(self).particles@,
                    sparks@,
                    budget,
                    palette,
                    playhead_x,
                    cfg.height,
                    spec_speed_bias(avg_speed) as i64,
                    now,
                )
                &&& final(self).interaction == (crate::interaction::InteractionState {
                    play_hitbox: hitbox,
                    playhead_bar: moved_towards(it.playhead_bar as int, bar_target, speed) as i64,
                    playhead_play: icon_phase_next(play_base, play_active, speed) as i64,
                    playhead_pause: icon_phase_next(
                        it.playhead_pause as int,
                        pause_active,
                        speed,
                    ) as i64,
                    ..it
                })
                &&& final(self).playhead_info.volume == (match volume {
                    Some(v) => v as int * 10,
                    None => 1000int,
                })
                &&& final(self).playhead_info.bar_lerp == final(self).interaction.playhead_bar
                &&& final(self).playhead_info.play_lerp == final(self).interaction.playhead_play
                &&& final(self).playhead_info.pause_lerp == final(self).interaction.playhead_pause
                &&& final(self).render_state == old(self).render_state
                &&& final(self).background_pills@ == old(self).background_pills@
                &&& final(self).icon_pills@ == old(self).icon_pills@
                &&& final(self).text_requests@ == old(self).text_requests@
                &&& final(self).global_uniforms == old(self).global_uniforms
            }),
    {
        let emit: bool = avg_speed != 0;
        let budget: usize;
        if emit {
            let acc: i64 = self.particles_accumulator + dt * SPARK_EMISSION_PER_S;
            budget = (acc / 1000) as usize;
            self.particles_accumulator = acc % 1000;
        } else {
            self.particles_accumulator = 0;
            budget = 0;
        }
        let bias: i64 = speed_bias(avg_speed);
        emit_sparks(
            &mut self.particles,
            sparks,
            budget,
            palette,
            playhead_x,
            cfg.height,
            bias,
            now,
        );

        let quarter: i64 = cfg.height / 4;
        let hitbox = Rect {
            x0: playhead_x - quarter,
            y0: PANEL_START,
            x1: playhead_x + quarter,
            y1: PANEL_START + cfg.height,
        };
        self.interaction.play_hitbox = hitbox;
        let hovered = self.interaction.play_hitbox.contains(self.interaction.mouse_position)
            && self.interaction.mouse_pressure > 0;
        let elapsed: u64 = if now >= self.interaction.last_toggle_playing_ms {
            now - self.interaction.last_toggle_playing_ms
        } else {
            0
        };
        let recent: bool = elapsed < ANIMATION_DURATION_MS;
        let speed: i64 = 2200 * dt / 1000;

        let bar_target: i64 = if hovered || !self.interaction.playing || recent {
            1000
        } else {
            0
        };
        let mut bar: i64 = self.interaction.playhead_bar;
        move_towards(&mut bar, bar_target, speed);
        self.interaction.playhead_bar = bar;

        let mut play_active: bool = false;
        let mut pause_active: bool = false;
        if hovered {
            if self.interaction.playing {
                pause_active = true;
            } else {
                play_active = true;
            }
        } else if !self.interaction.playing {
            pause_active = true;
        } else if recent {
            self.interaction.playhead_play = (elapsed as i64) * 1000 / 2000;
            play_active = true;
        }

        let mut play: i64 = self.interaction.playhead_play;
        if play_active {
            move_towards(&mut play, 500, speed);
        } else if play > 0 {
            move_towards(&mut play, 1000, speed);
            if play >= 1000 {
                play = 0;
            }
        }
        self.interaction.playhead_play = play;

        let mut pause: i64 = self.interaction.playhead_pause;
        if pause_active {
            move_towards(&mut pause, 500, speed);
        } else if pause > 0 {
            move_towards(&mut pause, 1000, speed);
            if pause >= 1000 {
                pause = 0;
            }
        }
        self.interaction.playhead_pause = pause;

        let vol: i64 = match volume {
            Some(v) => v as i64 * 10,
            None => 1000,
        };
        self.playhead_info = crate::render::PlayheadUniforms {
            volume: vol,
            bar_lerp: self.interaction.playhead_bar,
            play_lerp: self.interaction.playhead_play,
            pause_lerp: self.interaction.playhead_pause,
        };
    }
}

} // verus!
