//! The parameters of the scene and of the animation.

use vstd::prelude::*;
use crate::angle::FULL_TURN;

verus! {

/// Everything that shapes the picture and its motion.
///
/// Lengths are whole units of world space; angles are micro-radians.
#[derive(Clone, Copy, Debug, PartialEq, Eq, Structural)]
pub struct Config {
    /// Side of the square character grid, in cells.
    pub viewport: u16,
    /// Distance from the centre of the torus to the centre of its tube.
    pub donut_radius: u16,
    /// Radius of the tube.
    pub donut_thickness: u16,
    /// Distance from the viewer to the centre of the torus.
    pub distance_to_donut: u16,
    /// Step between samples around the tube.
    pub theta_spacing: u32,
    /// Step between samples around the central axis.
    pub phi_spacing: u32,
    /// Change of the first rotation angle per frame or per nudge.
    pub a_spacing: u32,
    /// Change of the second rotation angle per frame or per nudge.
    pub b_spacing: u32,
    /// Least time between two renderings, in milliseconds.
    pub ms_per_render: u64,
}

impl Config {
    /// The configurations the renderer accepts: a grid of at least one cell,
    /// a torus of positive extent that the viewer stands clear of, sweeps
    /// that make progress, and rotation steps of less than a full turn.
    pub open spec fn valid(self) -> bool {
        &&& self.viewport >= 1
        &&& self.donut_radius + self.donut_thickness >= 1
        &&& self.distance_to_donut >= self.donut_radius + self.donut_thickness
        &&& self.theta_spacing >= 1
        &&& self.phi_spacing >= 1
        &&& self.a_spacing < FULL_TURN
        &&& self.b_spacing < FULL_TURN
    }

    /// The standard scene.
    pub open spec fn spec_standard() -> Config {
        Config {
            viewport: 80,
            donut_radius: 2,
            donut_thickness: 1,
            distance_to_donut: 15,
            theta_spacing: 40_000,
            phi_spacing: 10_000,
            a_spacing: 70_000,
            b_spacing: 70_000,
            ms_per_render: 50,
        }
    }

    /// The standard scene: an 80-cell grid, a torus of radius 2 and thickness
    /// 1 seen from distance 15, sampled every 0.04 and 0.01 radians, turning
    /// by 0.07 radians per frame, rendered at most every 50 milliseconds.
    #[verifier::when_used_as_spec(spec_standard)]
    pub fn standard() -> (cfg: Config)
        ensures
            cfg == Self::standard(),
            cfg.valid(),
    {
        Config {
            viewport: 80,
            donut_radius: 2,
            donut_thickness: 1,
            distance_to_donut: 15,
            theta_spacing: 40_000,
            phi_spacing: 10_000,
            a_spacing: 70_000,
            b_spacing: 70_000,
            ms_per_render: 50,
        }
    }

    /// Decides [`Config::valid`].
    pub fn is_valid(&self) -> (ok: bool)
        ensures
            ok == self.valid(),
    {
        self.viewport >= 1
            && self.donut_radius as u32 + self.donut_thickness as u32 >= 1
            && self.distance_to_donut as u32 >= self.donut_radius as u32 + self.donut_thickness as u32
            && self.theta_spacing >= 1
            && self.phi_spacing >= 1
            && self.a_spacing < FULL_TURN
            && self.b_spacing < FULL_TURN
    }
}

} // verus!
