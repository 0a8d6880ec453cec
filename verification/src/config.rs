//! Panel configuration reduced to the values the layout engine computes
//! with: window widths in millipixels and timeline extents in
//! milliseconds.

use vstd::prelude::*;

verus! {

/// Top inset of the panel, in millipixels.
pub const PANEL_START: i64 = 2000;

/// Extra panel height below the bar, in millipixels.
pub const PANEL_EXTENSION: i64 = 4000;

/// Right-edge margin excluded from the timeline, in millipixels.
pub const RIGHT_MARGIN: i64 = 16_000;

/// Configuration of the panel, in fixed-point units.
#[derive(Clone, Copy)]
pub struct Config {
    /// Full panel width, in millipixels.
    pub width: i64,
    /// Bar height, in millipixels.
    pub height: i64,
    /// Width of the past-track history strip, in millipixels.
    pub history_width: i64,
    /// How far into the past the timeline reaches, in milliseconds.
    pub timeline_past_ms: i64,
    /// How far into the future the timeline reaches, in milliseconds.
    pub timeline_future_ms: i64,
    /// Whether star-rating playlists are in use.
    pub ratings_enabled: bool,
}

/// Bounds that keep every layout formula inside `i64`.
pub open spec fn config_wf(cfg: Config) -> bool {
    &&& 0 < cfg.height <= 10_000_000
    &&& 0 <= cfg.history_width <= 100_000_000
    &&& cfg.history_width + RIGHT_MARGIN + 100_000 <= cfg.width <= 100_000_000
    &&& 0 <= cfg.timeline_past_ms <= 36_000_000
    &&& 60_000 <= cfg.timeline_future_ms <= 36_000_000
    &&& cfg.timeline_past_ms <= 10 * cfg.timeline_future_ms
}

/// The width of the future timeline strip, in millipixels.
pub open spec fn timeline_width(cfg: Config) -> int {
    cfg.width - cfg.history_width - RIGHT_MARGIN
}

/// Convert a span of track time to a span of screen millipixels: the
/// future strip maps onto the configured future extent.
pub open spec fn ms_to_px(cfg: Config, ms: int) -> int {
    crate::tdiv(ms * timeline_width(cfg), cfg.timeline_future_ms as int)
}

/// The fixed screen x-coordinate of the playhead, in millipixels.
pub open spec fn playhead_x_spec(cfg: Config) -> int {
    cfg.history_width + ms_to_px(cfg, cfg.timeline_past_ms as int)
}

impl Config {
    /// Bounds check matching `config_wf`, for callers outside the proof.
    pub fn is_wf(&self) -> (b: bool)
        ensures
            b == config_wf(*self),
    {
        0 < self.height && self.height <= 10_000_000 && 0 <= self.history_width
            && self.history_width <= 100_000_000 && self.history_width + RIGHT_MARGIN + 100_000
            <= self.width && self.width <= 100_000_000 && 0 <= self.timeline_past_ms
            && self.timeline_past_ms <= 36_000_000 && 60_000 <= self.timeline_future_ms
            && self.timeline_future_ms <= 36_000_000 && self.timeline_past_ms <= 10
            * self.timeline_future_ms
    }

    /// The playhead's screen x-coordinate.
    pub fn playhead_x(&self) -> (x: i64)
        requires
            config_wf(*self),
        ensures
            x == playhead_x_spec(*self),
            self.history_width <= x <= self.history_width + 10 * timeline_width(*self),
    {
        let px = mul_div_ms(*self, self.timeline_past_ms);
        proof {
            let w = timeline_width(*self);
            let f = self.timeline_future_ms as int;
            assert(self.timeline_past_ms * w <= 10 * f * w) by (nonlinear_arith)
                requires
                    0 <= self.timeline_past_ms <= 10 * f,
                    w >= 0,
            ;
            assert((self.timeline_past_ms * w) / f <= (10 * f * w) / f) by (nonlinear_arith)
                requires
                    self.timeline_past_ms * w <= 10 * f * w,
                    f >= 1,
            ;
            assert((10 * f * w) / f == 10 * w) by (nonlinear_arith)
                requires
                    f >= 1,
            ;
            assert(px >= 0);
        }
        self.history_width + px
    }
}

/// Exact `ms * timeline_width / future_ms` in executable form.
pub fn mul_div_ms(cfg: Config, ms: i64) -> (r: i64)
    requires
        config_wf(cfg),
        -80_000_000 <= ms <= 80_000_000,
    ensures
        r == ms_to_px(cfg, ms as int),
        -80_000_000_000_000_000i64 <= r <= 80_000_000_000_000_000i64,
{
    let w: i64 = cfg.width - cfg.history_width - RIGHT_MARGIN;
    let mag: i64 = if ms >= 0 {
        ms
    } else {
        -ms
    };
    assert(0 <= mag * w <= 80_000_000i64 * 1_000_000_000) by (nonlinear_arith)
        requires
            0 <= mag <= 80_000_000,
            0 < w <= 1_000_000_000,
    ;
    let prod: i64 = mag * w;
    let q: i64 = prod / cfg.timeline_future_ms;
    assert(q <= prod) by (nonlinear_arith)
        requires
            q == prod / cfg.timeline_future_ms,
            prod >= 0,
            cfg.timeline_future_ms >= 1,
    ;
    if ms >= 0 {
        q
    } else {
        proof {
            assert((-(ms as int)) * w == -(ms * w)) by (nonlinear_arith);
        }
        -q
    }
}

} // verus!
