//! Verified core of a desktop "now playing" panel.
//!
//! The panel mirrors the state of a remote music-playback service and renders
//! an animated, scrollable timeline of past, current and future tracks.  This
//! crate holds the logic that is worth proving: the shared playback-state
//! store, the remote reconciliation rules, the pointer-interaction state
//! machine, and the timeline layout and animation engine.  Geometry and
//! animation phases are modelled in fixed-point integers (millipixels and
//! milliseconds) so that every formula is exact.
//!
//! Window-system plumbing, GPU submission, glyph shaping and the HTTP client
//! live outside this crate; they exchange plain values with it.

pub mod commands;
pub mod config;
pub mod demo;
pub mod geom;
pub mod interaction;
pub mod outputs;
pub mod playhead;
pub mod reconcile;
pub mod remote;
pub mod auth;
pub mod cache;
pub mod render;
pub mod scene;
pub mod state;
pub mod swatch;
pub mod timeline;

use crate::interaction::{interaction_wf, InteractionState};
use crate::render::{
    render_state_wf, BackgroundPill, GlobalUniforms, IconInstance, Particle, PlayheadUniforms,
    RenderState, TrackRender, PARTICLE_POOL,
};
use vstd::prelude::*;

verus! {

/// The panel's frame-loop core: interaction state, layout state, the
/// particle pool, and the per-frame draw data handed to the renderer.
pub struct CantusApp {
    pub render_state: RenderState,
    pub interaction: InteractionState,
    /// Fixed pool of particles; always exactly `PARTICLE_POOL` slots.
    pub particles: Vec<Particle>,
    /// Fractional particle-emission budget, in milli-particles.
    pub particles_accumulator: i64,
    pub global_uniforms: GlobalUniforms,
    pub background_pills: Vec<BackgroundPill>,
    pub icon_pills: Vec<IconInstance>,
    /// Tracks whose titles the text renderer should draw this frame.
    pub text_requests: Vec<TrackRender>,
    pub playhead_info: PlayheadUniforms,
}

/// Well-formedness of the frame-loop core.
pub open spec fn app_wf(app: CantusApp) -> bool {
    &&& render_state_wf(app.render_state)
    &&& interaction_wf(app.interaction)
    &&& app.particles@.len() == PARTICLE_POOL
    &&& 0 <= app.particles_accumulator <= 999
    &&& 0 <= app.global_uniforms.mouse_pressure <= 2000
}

impl CantusApp {
    /// A fresh panel core at the given clock reading.
    pub fn new(now_ms: u64) -> (app: CantusApp)
        requires
            now_ms <= 0x0000_FFFF_FFFF_FFFFu64,
        ensures
            app_wf(app),
            app.render_state.last_update_ms == now_ms,
            !app.interaction.mouse_down && !app.interaction.dragging,
            app.interaction.drag_origin is None && app.interaction.drag_track is None,
            app.interaction.last_toggle_playing_ms == now_ms,
            app.particles_accumulator == 0,
            app.background_pills@.len() == 0,
            app.icon_pills@.len() == 0,
    {
        CantusApp {
            render_state: RenderState::new(now_ms),
            interaction: InteractionState::new(now_ms),
            particles: crate::render::new_particle_pool(),
            particles_accumulator: 0,
            global_uniforms: GlobalUniforms::new(),
            background_pills: Vec::new(),
            icon_pills: Vec::new(),
            text_requests: Vec::new(),
            playhead_info: PlayheadUniforms::new(),
        }
    }
}

/// Sub-pixel units per pixel: all screen coordinates are in millipixels.
pub const MPX_PER_PX: i64 = 1000;

/// Fractions (seek positions, alpha values) are in millionths.
pub const FRAC_ONE: i64 = 1_000_000;

/// Division truncating toward zero, as the executable `/` computes it,
/// for a positive divisor.
pub open spec fn tdiv(a: int, b: int) -> int
    recommends
        b > 0,
{
    if a >= 0 {
        a / b
    } else {
        -((-a) / b)
    }
}

} // verus!
