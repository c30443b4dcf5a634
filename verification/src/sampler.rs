//! The geometry sampler: from rotation angles to a finished frame.
//!
//! Every quantity is an exact integer. With `U` for [`UNIT`], a sine or
//! cosine `v` is the integer `v * U`; the tube cross-section is scaled by
//! `U`, world `x` and `y` and the luminance by `U^4`, and world `z` by `U^3`.
//! No intermediate result is rounded: the only roundings are the final
//! divisions that give a cell index, an inverse depth and a ramp position.

use vstd::prelude::*;
use crate::angle::sweep_angles;
use crate::angle::FULL_TURN;
use crate::config::Config;
use crate::frame::blank;
use crate::frame::paint;
use crate::frame::closest;
use crate::frame::lemma_paint_concat;
use crate::frame::lemma_paint_keeps_closest;
use crate::frame::lemma_paint_step;
use crate::frame::shaded;
use crate::frame::untouched;
use crate::frame::blank_cell;
use crate::frame::FrameBuffer;
use crate::frame::Grid;
use crate::frame::Sample;
use crate::trig::lemma_trig_in_range;
use crate::trig::lemma_trig_is_its_components;
use crate::trig::Trig;
use crate::trig::UNIT;

verus! {

/// The third power of [`UNIT`]: the scale of world `z`.
pub const DEPTH_SCALE: i128 = 281_474_976_710_656;

/// The inverse depth of a point at world distance 1, times [`DEPTH_SCALE`]:
/// inverse depths are stored with 32 fractional bits.
pub const INVERSE_DEPTH_NUMERATOR: i128 = 1_208_925_819_614_629_174_706_176;

/// Horizontal position of the tube centre line relative to the torus axis,
/// for the tube angle `theta`: `R + r cos(theta)`.
pub open spec fn circle_x(cfg: Config, theta: Trig) -> int {
    cfg.donut_radius * UNIT + cfg.donut_thickness * theta.cos()
}

/// Height of the point on the tube for the tube angle `theta`:
/// `r sin(theta)`.
pub open spec fn circle_y(cfg: Config, theta: Trig) -> int {
    cfg.donut_thickness * theta.sin()
}

/// World `x` of the surface point `(theta, phi)` after the rotations `a` and
/// `b`.
pub open spec fn world_x(cfg: Config, a: Trig, b: Trig, theta: Trig, phi: Trig) -> int {
    circle_x(cfg, theta) * (b.cos() * phi.cos() * UNIT + a.sin() * b.sin() * phi.sin())
        - circle_y(cfg, theta) * a.cos() * b.sin() * UNIT
}

/// World `y` of the surface point `(theta, phi)` after the rotations `a` and
/// `b`.
pub open spec fn world_y(cfg: Config, a: Trig, b: Trig, theta: Trig, phi: Trig) -> int {
    circle_x(cfg, theta) * (b.sin() * phi.cos() * UNIT - a.sin() * b.cos() * phi.sin())
        + circle_y(cfg, theta) * a.cos() * b.cos() * UNIT
}

/// World `z` of the surface point: its distance from the viewer along the
/// line of sight.
pub open spec fn world_z(cfg: Config, a: Trig, theta: Trig, phi: Trig) -> int {
    cfg.distance_to_donut * DEPTH_SCALE + a.cos() * circle_x(cfg, theta) * phi.sin() + circle_y(
        cfg,
        theta,
    ) * a.sin() * UNIT
}

/// Luminance of the surface point: the rotated surface normal against the
/// direction of the light.
pub open spec fn luminance(a: Trig, b: Trig, theta: Trig, phi: Trig) -> int {
    phi.cos() * theta.cos() * b.sin() * UNIT - a.cos() * theta.cos() * phi.sin() * UNIT - a.sin()
        * theta.sin() * UNIT * UNIT + b.cos() * (a.cos() * theta.sin() * UNIT - theta.cos()
        * a.sin() * phi.sin())
}

/// The projection scale `K`, rounded down to a whole number. It is chosen so
/// that a point at the rim of the torus, seen at the distance of its centre,
/// lands three eighths of the viewport away from the middle of the grid.
pub open spec fn projection(cfg: Config) -> int {
    (cfg.viewport * cfg.distance_to_donut * 3) / (8 * (cfg.donut_thickness + cfg.donut_radius))
}

/// Rounds `numer / denom` towards zero and clamps it to `[0, viewport)`.
pub open spec fn clamp_cell(numer: int, denom: int, viewport: int) -> int {
    if numer < 0 {
        0
    } else if numer / denom >= viewport {
        viewport - 1
    } else {
        numer / denom
    }
}

/// The cell index of a point at depth `z > 0` whose world offset from the
/// line of sight is `offset`: `viewport / 2 + K * offset / z`, rounded
/// towards zero and clamped to the grid.
pub open spec fn screen_cell(cfg: Config, offset: int, z: int) -> int {
    clamp_cell(
        cfg.viewport * UNIT * z + 2 * projection(cfg) * offset,
        2 * UNIT * z,
        cfg.viewport as int,
    )
}

/// The stored inverse depth of a point at depth `z > 0`.
pub open spec fn inverse_depth(z: int) -> int {
    INVERSE_DEPTH_NUMERATOR as int / z
}

/// The sample that the surface point `(theta, phi)` yields, or `None` for a
/// point that is not in front of the viewer.
pub open spec fn sample(cfg: Config, a: Trig, b: Trig, theta: Trig, phi: Trig) -> Option<Sample> {
    let z = world_z(cfg, a, theta, phi);
    if z <= 0 {
        None
    } else {
        Some(
            Sample {
                col: screen_cell(cfg, world_x(cfg, a, b, theta, phi), z) as usize,
                row: screen_cell(cfg, -world_y(cfg, a, b, theta, phi), z) as usize,
                inv_depth: inverse_depth(z) as u128,
                luminance: luminance(a, b, theta, phi) as i128,
            },
        )
    }
}

/// The steps of one ring: the tube angle `theta` with every `phi`, in order.
pub open spec fn ring_samples(
    cfg: Config,
    a: Trig,
    b: Trig,
    theta: Trig,
    phis: Seq<Trig>,
) -> Seq<Option<Sample>> {
    Seq::new(phis.len(), |j: int| sample(cfg, a, b, theta, phis[j]))
}

/// The steps of one frame: the ring of each `theta`, one after another.
pub open spec fn frame_samples(
    cfg: Config,
    a: Trig,
    b: Trig,
    thetas: Seq<Trig>,
    phis: Seq<Trig>,
) -> Seq<Option<Sample>>
    decreases thetas.len(),
{
    if thetas.len() == 0 {
        Seq::empty()
    } else {
        frame_samples(cfg, a, b, thetas.drop_last(), phis) + ring_samples(
            cfg,
            a,
            b,
            thetas.last(),
            phis,
        )
    }
}

/// The frame of the torus rotated by `a` and `b`: what painting its samples,
/// ring after ring, leaves on a blank grid.
pub open spec fn rendered(cfg: Config, a: Trig, b: Trig, thetas: Seq<Trig>, phis: Seq<Trig>) -> Grid {
    paint(blank(cfg.viewport as nat), frame_samples(cfg, a, b, thetas, phis))
}

/// The product of two bounded factors, with its bound.
fn times(x: i128, y: i128, Ghost(bound_x): Ghost<int>, Ghost(bound_y): Ghost<int>) -> (p: i128)
    requires
        -bound_x <= x <= bound_x,
        -bound_y <= y <= bound_y,
        bound_x * bound_y <= i128::MAX,
    ensures
        p == x * y,
        -(bound_x * bound_y) <= p <= bound_x * bound_y,
{
    assert(-(bound_x * bound_y) <= x * y <= bound_x * bound_y) by (nonlinear_arith)
        requires
            -bound_x <= x <= bound_x,
            -bound_y <= y <= bound_y,
    ;
    x * y
}

/// Decides [`clamp_cell`].
fn cell_index(numer: i128, denom: i128, viewport: u16) -> (cell: usize)
    requires
        denom > 0,
        viewport >= 1,
    ensures
        cell == clamp_cell(numer as int, denom as int, viewport as int),
        cell < viewport,
{
    if numer < 0 {
        0
    } else {
        let quotient: i128 = numer / denom;
        assert(0 <= quotient) by (nonlinear_arith)
            requires
                quotient == numer as int / denom as int,
                numer >= 0,
                denom > 0,
        ;
        if quotient >= viewport as i128 {
            (viewport - 1) as usize
        } else {
            quotient as usize
        }
    }
}

/// The geometry sampler of one scene.
#[derive(Clone, Copy, Debug)]
pub struct Sampler {
    cfg: Config,
}

impl Sampler {
    /// The scene is one the renderer accepts.
    #[verifier::type_invariant]
    pub closed spec fn wf(self) -> bool {
        self.cfg.valid()
    }

    /// The scene.
    pub closed spec fn spec_config(&self) -> Config {
        self.cfg
    }

    /// The scene of a sampler is valid.
    pub proof fn lemma_config_valid(self)
        requires
            self.wf(),
        ensures
            self.config().valid(),
    {
    }

    /// A sampler for the scene `cfg`; `None` exactly when `cfg` is not
    /// valid.
    pub fn new(cfg: Config) -> (sampler: Option<Sampler>)
        ensures
            sampler is Some <==> cfg.valid(),
            sampler matches Some(s) ==> s.wf() && s.config() == cfg,
    {
        if cfg.is_valid() {
            Some(Sampler { cfg })
        } else {
            None
        }
    }

    /// The scene.
    #[verifier::when_used_as_spec(spec_config)]
    pub fn config(&self) -> (cfg: Config)
        ensures
            cfg == self.config(),
            cfg.valid(),
    {
        proof {
            use_type_invariant(self);
        }
        self.cfg
    }

    /// The sample angles around the tube: every multiple of the theta spacing
    /// below a full turn, in increasing order.
    pub fn theta_angles(&self) -> (angles: Vec<u32>)
        ensures
            forall|i: int| 0 <= i < angles.len() ==> angles[i] == i * self.config().theta_spacing,
            forall|i: int| 0 <= i < angles.len() ==> angles[i] < FULL_TURN,
            angles.len() * self.config().theta_spacing >= FULL_TURN,
    {
        sweep_angles(self.config().theta_spacing)
    }

    /// The sample angles around the axis: every multiple of the phi spacing
    /// below a full turn, in increasing order.
    pub fn phi_angles(&self) -> (angles: Vec<u32>)
        ensures
            forall|i: int| 0 <= i < angles.len() ==> angles[i] == i * self.config().phi_spacing,
            forall|i: int| 0 <= i < angles.len() ==> angles[i] < FULL_TURN,
            angles.len() * self.config().phi_spacing >= FULL_TURN,
    {
        sweep_angles(self.config().phi_spacing)
    }

    /// The projection scale of the scene.
    fn projection_scale(&self) -> (k: i128)
        ensures
            k == projection(self.config()),
            0 <= k <= 0x3_0000_0000,
    {
        proof {
            use_type_invariant(self);
        }
        let viewport: u64 = self.cfg.viewport as u64;
        let distance: u64 = self.cfg.distance_to_donut as u64;
        let extent: u64 = 8 * (self.cfg.donut_thickness as u64 + self.cfg.donut_radius as u64);
        assert(0 <= viewport * distance <= 0x1_0000_0000) by (nonlinear_arith)
            requires
                0 <= viewport <= 0x1_0000,
                0 <= distance <= 0x1_0000,
        ;
        let area: u64 = viewport * distance * 3;
        let k: u64 = area / extent;
        assert(0 <= k <= area) by (nonlinear_arith)
            requires
                k == area / extent,
                extent >= 1,
                area >= 0,
        ;
        k as i128
    }

    /// Projects the surface point `(theta, phi)` of the torus rotated by `a`
    /// and `b`.
    ///
    /// The result is `None` exactly for a point that is not in front of
    /// the viewer. Otherwise it is the sample of the point: its cell, clamped
    /// to the grid, its inverse depth, which is positive, and its luminance.
    pub fn project(&self, a: Trig, b: Trig, theta: Trig, phi: Trig) -> (s: Option<Sample>)
        ensures
            s == sample(self.config(), a, b, theta, phi),
            s matches Some(p) ==> p.col < self.config().viewport && p.row < self.config().viewport
                && p.inv_depth > 0,
    {
        let cfg = self.config();
        let unit: i128 = UNIT as i128;
        let ghost one: int = 0x1_0000;
        let sa: i128 = a.sin() as i128;
        let ca: i128 = a.cos() as i128;
        let sb: i128 = b.sin() as i128;
        let cb: i128 = b.cos() as i128;
        let st: i128 = theta.sin() as i128;
        let ct: i128 = theta.cos() as i128;
        let sp: i128 = phi.sin() as i128;
        let cp: i128 = phi.cos() as i128;
        let radius: i128 = cfg.donut_radius as i128;
        let thickness: i128 = cfg.donut_thickness as i128;
        let distance: i128 = cfg.distance_to_donut as i128;
        let viewport: i128 = cfg.viewport as i128;

        let cx: i128 = radius * unit + times(thickness, ct, Ghost(one), Ghost(one));
        let cy: i128 = times(thickness, st, Ghost(one), Ghost(one));
        let ghost bound_cx: int = 0x2_0000_0000;
        let ghost bound_cy: int = 0x1_0000_0000;

        let turn_x: i128 = times(cb, cp, Ghost(one), Ghost(one)) * unit + times(
            times(sa, sb, Ghost(one), Ghost(one)),
            sp,
            Ghost(one * one),
            Ghost(one),
        );
        let lift_x: i128 = times(
            times(cy, ca, Ghost(bound_cy), Ghost(one)),
            sb,
            Ghost(bound_cy * one),
            Ghost(one),
        ) * unit;
        let x: i128 = times(cx, turn_x, Ghost(bound_cx), Ghost(2 * one * one * one)) - lift_x;

        let turn_y: i128 = times(sb, cp, Ghost(one), Ghost(one)) * unit - times(
            times(sa, cb, Ghost(one), Ghost(one)),
            sp,
            Ghost(one * one),
            Ghost(one),
        );
        let lift_y: i128 = times(
            times(cy, ca, Ghost(bound_cy), Ghost(one)),
            cb,
            Ghost(bound_cy * one),
            Ghost(one),
        ) * unit;
        let y: i128 = times(cx, turn_y, Ghost(bound_cx), Ghost(2 * one * one * one)) + lift_y;

        let z: i128 = distance * DEPTH_SCALE + times(
            times(ca, cx, Ghost(one), Ghost(bound_cx)),
            sp,
            Ghost(one * bound_cx),
            Ghost(one),
        ) + times(cy, sa, Ghost(bound_cy), Ghost(one)) * unit;
        if z <= 0 {
            return None;
        }
        let ghost bound_xy: int = 0x8_0000_0000_0000_0000_0000;
        let ghost bound_z: int = 0x4_0000_0000_0000_0000;

        let k: i128 = self.projection_scale();
        let centre: i128 = times(viewport * unit, z, Ghost(one * one), Ghost(bound_z));
        let denom: i128 = 2 * unit * z;
        let ghost bound_k: int = 0x6_0000_0000;
        let col = cell_index(
            centre + times(2 * k, x, Ghost(bound_k), Ghost(bound_xy)),
            denom,
            cfg.viewport,
        );
        let row = cell_index(
            centre + times(2 * k, -y, Ghost(bound_k), Ghost(bound_xy)),
            denom,
            cfg.viewport,
        );

        let inv_depth: i128 = INVERSE_DEPTH_NUMERATOR / z;
        assert(1 <= inv_depth <= INVERSE_DEPTH_NUMERATOR) by (nonlinear_arith)
            requires
                inv_depth == INVERSE_DEPTH_NUMERATOR as int / z as int,
                0 < z <= INVERSE_DEPTH_NUMERATOR,
        ;

        let facing: i128 = times(
            cb,
            times(ca, st, Ghost(one), Ghost(one)) * unit - times(
                times(ct, sa, Ghost(one), Ghost(one)),
                sp,
                Ghost(one * one),
                Ghost(one),
            ),
            Ghost(one),
            Ghost(2 * one * one * one),
        );
        let lum: i128 = times(
            times(cp, ct, Ghost(one), Ghost(one)),
            sb,
            Ghost(one * one),
            Ghost(one),
        ) * unit - times(times(ca, ct, Ghost(one), Ghost(one)), sp, Ghost(one * one), Ghost(one))
            * unit - times(sa, st, Ghost(one), Ghost(one)) * unit * unit + facing;

        Some(Sample { col, row, inv_depth: inv_depth as u128, luminance: lum })
    }

    /// Paints one ring onto `buffer`: the surface points of the tube angle
    /// `theta` with every angle of `phis`, in order.
    pub fn render_ring(
        &self,
        buffer: &mut FrameBuffer,
        a: Trig,
        b: Trig,
        theta: Trig,
        phis: &Vec<Trig>,
    )
        ensures
            final(buffer).side() == old(buffer).side(),
            final(buffer)@ == paint(old(buffer)@, ring_samples(self.config(), a, b, theta, phis@)),
    {
        let ghost steps = ring_samples(self.config(), a, b, theta, phis@);
        let mut j: usize = 0;
        assert(steps.take(0) =~= Seq::empty());
        while j < phis.len()
            invariant
                j <= phis.len(),
                steps == ring_samples(self.config(), a, b, theta, phis@),
                buffer.side() == old(buffer).side(),
                buffer@ == paint(old(buffer)@, steps.take(j as int)),
            decreases phis.len() - j,
        {
            proof {
                lemma_paint_step(old(buffer)@, steps, j as int);
            }
            match self.project(a, b, theta, phis[j]) {
                Some(s) => buffer.plot(s),
                None => {},
            }
            j = j + 1;
        }
        assert(steps.take(j as int) =~= steps);
    }

    /// Renders one frame of the torus rotated by `a` and `b`.
    ///
    /// `thetas` and `phis` hold the sines and cosines of the sample angles
    /// around the tube and around the axis. The frame is what painting the
    /// samples of all their pairs, ring after ring, leaves on a blank grid;
    /// it depends on nothing else.
    pub fn render_frame(&self, a: Trig, b: Trig, thetas: &Vec<Trig>, phis: &Vec<Trig>) -> (frame:
        FrameBuffer)
        ensures
            frame.side() == self.config().viewport,
            frame@ == rendered(self.config(), a, b, thetas@, phis@),
    {
        let cfg = self.config();
        let mut frame = FrameBuffer::new(cfg.viewport);
        let mut i: usize = 0;
        assert(thetas@.take(0) =~= Seq::empty());
        while i < thetas.len()
            invariant
                i <= thetas.len(),
                cfg == self.config(),
                frame.side() == cfg.viewport,
                frame@ == rendered(cfg, a, b, thetas@.take(i as int), phis@),
            decreases thetas.len() - i,
        {
            proof {
                let next = thetas@.take(i + 1);
                assert(next.drop_last() =~= thetas@.take(i as int));
                assert(next.last() == thetas@[i as int]);
                lemma_paint_concat(
                    blank(cfg.viewport as nat),
                    frame_samples(cfg, a, b, thetas@.take(i as int), phis@),
                    ring_samples(cfg, a, b, thetas@[i as int], phis@),
                );
            }
            self.render_ring(&mut frame, a, b, thetas[i], phis);
            i = i + 1;
        }
        assert(thetas@.take(i as int) =~= thetas@);
        frame
    }
}

/// The magnitude of a product is at most the product of the bounds of its
/// factors.
proof fn lemma_product_bound(x: int, y: int, bound_x: int, bound_y: int)
    by (nonlinear_arith)
    requires
        -bound_x <= x <= bound_x,
        -bound_y <= y <= bound_y,
    ensures
        -(bound_x * bound_y) <= x * y <= bound_x * bound_y,
{
}

/// The square of a product is the product of the squares.
proof fn lemma_square_of_product(x: int, y: int)
    by (nonlinear_arith)
    ensures
        (x * y) * (x * y) == (x * x) * (y * y),
{
}

/// A square is not negative.
proof fn lemma_square_not_negative(x: int)
    by (nonlinear_arith)
    ensures
        x * x >= 0,
{
}

/// The products of four numbers, paired in two ways.
proof fn lemma_pairings(p: int, q: int, r: int, s: int)
    by (nonlinear_arith)
    ensures
        (p * q) * (r * s) == (p * s) * (r * q),
{
}

/// The square of a sum and of a difference.
proof fn lemma_square_of_sum(x: int, y: int)
    by (nonlinear_arith)
    ensures
        (x + y) * (x + y) == x * x + 2 * (x * y) + y * y,
        (x - y) * (x - y) == x * x - 2 * (x * y) + y * y,
        (x - y) * (x - y) >= 0,
{
}

/// The product of two sums.
proof fn lemma_product_of_sums(a: int, b: int, c: int, d: int)
    by (nonlinear_arith)
    ensures
        (a + b) * (c + d) == a * c + a * d + b * c + b * d,
{
}

/// The inequality of Cauchy and Schwarz in the plane.
proof fn lemma_cauchy_schwarz(p: int, q: int, r: int, s: int)
    ensures
        (p * q + r * s) * (p * q + r * s) <= (p * p + r * r) * (q * q + s * s),
{
    lemma_square_of_sum(p * q, r * s);
    lemma_square_of_sum(p * s, r * q);
    lemma_pairings(p, q, r, s);
    lemma_square_of_product(p, q);
    lemma_square_of_product(r, s);
    lemma_square_of_product(p, s);
    lemma_square_of_product(r, q);
    lemma_product_of_sums(p * p, r * r, q * q, s * s);
}

/// A product grows with its second factor when the first is not negative.
proof fn lemma_scale_bound(factor: int, small: int, large: int)
    by (nonlinear_arith)
    requires
        factor >= 0,
        small <= large,
    ensures
        factor * small <= factor * large,
        small * factor <= large * factor,
{
}

/// A number whose square is at most the square of a bound is at most the
/// bound in magnitude.
proof fn lemma_root_bound(x: int, bound: int)
    by (nonlinear_arith)
    requires
        bound >= 0,
        x * x <= bound * bound,
    ensures
        -bound <= x <= bound,
{
}

/// How far the surface can come towards the viewer or go away from it: the
/// depth of a point differs from the distance of the torus by at most the
/// radius plus twice the thickness.
pub proof fn lemma_depth_range(cfg: Config, a: Trig, theta: Trig, phi: Trig)
    requires
        a.wf(),
        theta.wf(),
        phi.wf(),
    ensures
        (cfg.distance_to_donut - cfg.donut_radius - 2 * cfg.donut_thickness) * DEPTH_SCALE
            <= world_z(cfg, a, theta, phi) <= (cfg.distance_to_donut + cfg.donut_radius + 2
            * cfg.donut_thickness) * DEPTH_SCALE,
{
    lemma_trig_in_range(a);
    lemma_trig_in_range(theta);
    lemma_trig_in_range(phi);
    let u = UNIT as int;
    let radius = cfg.donut_radius as int;
    let thickness = cfg.donut_thickness as int;
    let cx = circle_x(cfg, theta);
    let cy = circle_y(cfg, theta);
    lemma_product_bound(thickness, theta.cos() as int, thickness, u);
    lemma_product_bound(thickness, theta.sin() as int, thickness, u);
    let bound_cx = (radius + thickness) * u;
    let bound_cy = thickness * u;
    lemma_product_bound(a.cos() as int, cx, u, bound_cx);
    lemma_product_bound(a.cos() * cx, phi.sin() as int, u * bound_cx, u);
    lemma_product_bound(cy, a.sin() as int, bound_cy, u);
    assert(u * bound_cx * u == (radius + thickness) * DEPTH_SCALE) by (nonlinear_arith)
        requires
            u == 65_536,
            bound_cx == (radius + thickness) * u,
            DEPTH_SCALE == 281_474_976_710_656,
    ;
    assert(bound_cy * u * u == thickness * DEPTH_SCALE) by (nonlinear_arith)
        requires
            u == 65_536,
            bound_cy == thickness * u,
            DEPTH_SCALE == 281_474_976_710_656,
    ;
}

/// Every point of a scene whose distance exceeds the radius plus twice the
/// thickness lies in front of the viewer: each step of a sweep yields a
/// sample.
pub proof fn lemma_distant_torus_is_in_front(cfg: Config, a: Trig, b: Trig, theta: Trig, phi: Trig)
    requires
        a.wf(),
        theta.wf(),
        phi.wf(),
        cfg.distance_to_donut > cfg.donut_radius + 2 * cfg.donut_thickness,
    ensures
        world_z(cfg, a, theta, phi) > 0,
        sample(cfg, a, b, theta, phi) is Some,
{
    lemma_depth_range(cfg, a, theta, phi);
    let margin = cfg.distance_to_donut - cfg.donut_radius - 2 * cfg.donut_thickness;
    assert(margin * DEPTH_SCALE > 0) by (nonlinear_arith)
        requires
            margin >= 1,
            DEPTH_SCALE == 281_474_976_710_656,
    ;
}

/// For sines and cosines that lie on or inside the unit circle the surface
/// stays within the radius plus the thickness of the centre of the torus: a
/// scene whose distance exceeds that sum has every point in front of the
/// viewer.
pub proof fn lemma_torus_is_in_front(cfg: Config, a: Trig, b: Trig, theta: Trig, phi: Trig)
    requires
        a.wf(),
        theta.wf(),
        phi.wf(),
        a.within_unit_circle(),
        theta.within_unit_circle(),
        cfg.distance_to_donut > cfg.donut_radius + cfg.donut_thickness,
    ensures
        world_z(cfg, a, theta, phi) >= (cfg.distance_to_donut - cfg.donut_radius
            - cfg.donut_thickness) * DEPTH_SCALE,
        world_z(cfg, a, theta, phi) > 0,
        sample(cfg, a, b, theta, phi) is Some,
{
    lemma_trig_in_range(a);
    lemma_trig_in_range(theta);
    lemma_trig_in_range(phi);
    let u = UNIT as int;
    let radius = cfg.donut_radius as int;
    let thickness = cfg.donut_thickness as int;
    let distance = cfg.distance_to_donut as int;
    let ca = a.cos() as int;
    let sa = a.sin() as int;
    let ct = theta.cos() as int;
    let st = theta.sin() as int;
    let sp = phi.sin() as int;
    // The part of the depth that the tube adds: `tilt / U^3` is the cosine of
    // an angle.
    let p = ca * sp;
    let r = sa * u;
    let tilt = p * ct + r * st;
    let square = u * u;
    // p^2 + r^2 <= U^2 (ca^2 + sa^2) <= U^4.
    lemma_square_of_product(ca, sp);
    lemma_square_of_product(sa, u);
    lemma_square_not_negative(ca);
    lemma_product_bound(sp, sp, u, u);
    lemma_scale_bound(ca * ca, sp * sp, square);
    lemma_product_of_sums(ca * ca, sa * sa, square, 0);
    lemma_scale_bound(square, ca * ca + sa * sa, square);
    assert(p * p + r * r <= square * square) by {
        assert(p * p == (ca * ca) * (sp * sp));
        assert(r * r == (sa * sa) * square);
        assert((ca * ca + sa * sa) * square == (ca * ca) * square + (sa * sa) * square)
            by (nonlinear_arith);
        assert((ca * ca + sa * sa) * square == square * (ca * ca + sa * sa)) by (nonlinear_arith);
    }
    // tilt^2 <= (p^2 + r^2) (ct^2 + st^2) <= U^6.
    lemma_cauchy_schwarz(p, ct, r, st);
    lemma_square_not_negative(p);
    lemma_square_not_negative(r);
    lemma_square_not_negative(ct);
    lemma_square_not_negative(st);
    let cube = square * u;
    lemma_scale_bound(p * p + r * r, ct * ct + st * st, square);
    lemma_scale_bound(square, p * p + r * r, square * square);
    assert(tilt * tilt <= cube * cube) by {
        assert((p * p + r * r) * (ct * ct + st * st) <= (p * p + r * r) * square);
        assert((p * p + r * r) * square <= (square * square) * square);
        assert((square * square) * square == cube * cube) by (nonlinear_arith)
            requires
                cube == square * u,
                square == u * u,
        ;
    }
    assert(cube == DEPTH_SCALE && square == 4_294_967_296) by (nonlinear_arith)
        requires
            u == 65_536,
            square == u * u,
            cube == square * u,
            DEPTH_SCALE == 281_474_976_710_656,
    ;
    lemma_root_bound(tilt, cube);
    lemma_product_bound(ca, sp, u, u);
    lemma_product_bound(thickness, tilt, thickness, cube);
    lemma_product_bound(radius * u, p, radius * u, square);
    assert((radius * u) * square == radius * cube) by (nonlinear_arith)
        requires
            u == 65_536,
            square == 4_294_967_296,
            cube == 281_474_976_710_656,
    ;
    // The depth, with the tube angle split off.
    let cx = circle_x(cfg, theta);
    let cy = circle_y(cfg, theta);
    assert(ca * cx * sp == (radius * u) * p + thickness * (p * ct)) by (nonlinear_arith)
        requires
            cx == radius * u + thickness * ct,
            p == ca * sp,
    ;
    assert(cy * sa * u == thickness * (r * st)) by (nonlinear_arith)
        requires
            cy == thickness * st,
            r == sa * u,
    ;
    assert(thickness * tilt == thickness * (p * ct) + thickness * (r * st)) by (nonlinear_arith)
        requires
            tilt == p * ct + r * st,
    ;
    assert(world_z(cfg, a, theta, phi) == distance * DEPTH_SCALE + (radius * u) * p + thickness
        * tilt);
    let margin = distance - radius - thickness;
    assert(margin * DEPTH_SCALE == distance * DEPTH_SCALE - radius * DEPTH_SCALE - thickness
        * DEPTH_SCALE) by (nonlinear_arith)
        requires
            margin == distance - radius - thickness,
    ;
    assert(margin * DEPTH_SCALE > 0) by (nonlinear_arith)
        requires
            margin >= 1,
            DEPTH_SCALE == 281_474_976_710_656,
    ;
}

/// Every sample has a positive inverse depth, so that a lit sample is always
/// drawn onto a cell that is still blank.
pub proof fn lemma_sample_depth_is_positive(cfg: Config, a: Trig, b: Trig, theta: Trig, phi: Trig)
    requires
        a.wf(),
        theta.wf(),
        phi.wf(),
    ensures
        sample(cfg, a, b, theta, phi) matches Some(s) ==> s.inv_depth > 0,
{
    let z = world_z(cfg, a, theta, phi);
    if z > 0 {
        lemma_depth_range(cfg, a, theta, phi);
        let reach = cfg.distance_to_donut + cfg.donut_radius + 2 * cfg.donut_thickness;
        assert(reach * DEPTH_SCALE <= INVERSE_DEPTH_NUMERATOR) by (nonlinear_arith)
            requires
                0 <= reach <= 4 * 65_535,
                DEPTH_SCALE == 281_474_976_710_656,
                INVERSE_DEPTH_NUMERATOR == 1_208_925_819_614_629_174_706_176,
        ;
        assert(1 <= INVERSE_DEPTH_NUMERATOR as int / z <= INVERSE_DEPTH_NUMERATOR)
            by (nonlinear_arith)
            requires
                0 < z <= INVERSE_DEPTH_NUMERATOR,
        ;
    }
}

/// Index safety: whatever the angles, a sample falls on a cell of the grid.
pub proof fn lemma_sample_on_grid(cfg: Config, a: Trig, b: Trig, theta: Trig, phi: Trig)
    requires
        cfg.valid(),
    ensures
        sample(cfg, a, b, theta, phi) matches Some(s) ==> s.col < cfg.viewport && s.row
            < cfg.viewport,
{
    let z = world_z(cfg, a, theta, phi);
    if z > 0 {
        let denom = 2 * UNIT * z;
        assert(denom > 0) by (nonlinear_arith)
            requires
                denom == 2 * UNIT * z,
                UNIT == 65_536,
                z > 0,
        ;
        lemma_clamp_cell_bounds(
            cfg.viewport * UNIT * z + 2 * projection(cfg) * world_x(cfg, a, b, theta, phi),
            denom,
            cfg.viewport as int,
        );
        lemma_clamp_cell_bounds(
            cfg.viewport * UNIT * z + 2 * projection(cfg) * (-world_y(cfg, a, b, theta, phi)),
            denom,
            cfg.viewport as int,
        );
    }
}

/// A clamped cell index is an index of the grid.
pub proof fn lemma_clamp_cell_bounds(numer: int, denom: int, viewport: int)
    requires
        denom > 0,
        viewport >= 1,
    ensures
        0 <= clamp_cell(numer, denom, viewport) < viewport,
{
    if numer >= 0 {
        assert(numer / denom >= 0) by (nonlinear_arith)
            requires
                numer >= 0,
                denom > 0,
        ;
    }
}

/// Iteration order: a frame takes its samples ring by ring. There is one
/// step for each pair of a `theta` and a `phi`, and the step of the `i`-th
/// `theta` and the `j`-th `phi` is step number `i * phis.len() + j`.
pub proof fn lemma_frame_samples_order(
    cfg: Config,
    a: Trig,
    b: Trig,
    thetas: Seq<Trig>,
    phis: Seq<Trig>,
    i: int,
    j: int,
)
    requires
        0 <= i < thetas.len(),
        0 <= j < phis.len(),
    ensures
        frame_samples(cfg, a, b, thetas, phis).len() == thetas.len() * phis.len(),
        0 <= i * phis.len() + j < thetas.len() * phis.len(),
        frame_samples(cfg, a, b, thetas, phis)[i * phis.len() + j] == sample(
            cfg,
            a,
            b,
            thetas[i],
            phis[j],
        ),
    decreases thetas.len(),
{
    let rings = thetas.len() as int;
    let width = phis.len() as int;
    lemma_frame_samples_len(cfg, a, b, thetas, phis);
    lemma_frame_samples_len(cfg, a, b, thetas.drop_last(), phis);
    assert((rings - 1) * width == rings * width - width) by (nonlinear_arith);
    if i == rings - 1 {
        assert(i * width + j >= 0) by (nonlinear_arith)
            requires
                i >= 0,
                width >= 0,
                j >= 0,
        ;
    } else {
        lemma_frame_samples_order(cfg, a, b, thetas.drop_last(), phis, i, j);
    }
}

/// A frame has one step for each pair of a `theta` and a `phi`.
pub proof fn lemma_frame_samples_len(
    cfg: Config,
    a: Trig,
    b: Trig,
    thetas: Seq<Trig>,
    phis: Seq<Trig>,
)
    ensures
        frame_samples(cfg, a, b, thetas, phis).len() == thetas.len() * phis.len(),
    decreases thetas.len(),
{
    let rings = thetas.len() as int;
    let width = phis.len() as int;
    if rings == 0 {
        assert(0 * width == 0);
    } else {
        lemma_frame_samples_len(cfg, a, b, thetas.drop_last(), phis);
        assert((rings - 1) * width + width == rings * width) by (nonlinear_arith);
    }
}

/// Whether two tables hold the same sines and cosines, place by place.
pub open spec fn same_table(one: Seq<Trig>, other: Seq<Trig>) -> bool {
    &&& one.len() == other.len()
    &&& forall|i: int|
        0 <= i < one.len() ==> (#[trigger] one[i]).sin() == other[i].sin() && one[i].cos()
            == other[i].cos()
}

/// Determinism: the frame is a function of the scene and of the sines and
/// cosines handed in. Two renderings with the same scene, the same rotation
/// and the same tables give the same grid.
pub proof fn lemma_rendered_is_determined(
    cfg: Config,
    a: Trig,
    b: Trig,
    thetas: Seq<Trig>,
    phis: Seq<Trig>,
    other_a: Trig,
    other_b: Trig,
    other_thetas: Seq<Trig>,
    other_phis: Seq<Trig>,
)
    requires
        a.sin() == other_a.sin() && a.cos() == other_a.cos(),
        b.sin() == other_b.sin() && b.cos() == other_b.cos(),
        same_table(thetas, other_thetas),
        same_table(phis, other_phis),
    ensures
        rendered(cfg, a, b, thetas, phis) == rendered(cfg, other_a, other_b, other_thetas, other_phis),
{
    lemma_trig_is_its_components(a, other_a);
    lemma_trig_is_its_components(b, other_b);
    assert forall|i: int| 0 <= i < thetas.len() implies thetas[i] == other_thetas[i] by {
        lemma_trig_is_its_components(thetas[i], other_thetas[i]);
    }
    assert forall|i: int| 0 <= i < phis.len() implies phis[i] == other_phis[i] by {
        lemma_trig_is_its_components(phis[i], other_phis[i]);
    }
    assert(thetas =~= other_thetas);
    assert(phis =~= other_phis);
}

/// Depth resolution within one frame: a cell of the rendered grid on which
/// no lit sample of positive depth fell is blank, and every other cell shows
/// the closest lit sample that fell on it, the first of them in the order of
/// the sweep where several are equally close.
pub proof fn lemma_rendered_keeps_closest(
    cfg: Config,
    a: Trig,
    b: Trig,
    thetas: Seq<Trig>,
    phis: Seq<Trig>,
    col: int,
    row: int,
)
    requires
        0 <= col < cfg.viewport,
        0 <= row < cfg.viewport,
    ensures
        ({
            let samples = frame_samples(cfg, a, b, thetas, phis);
            let cell = rendered(cfg, a, b, thetas, phis)[col][row];
            ||| untouched(samples, col, row) && cell == blank_cell()
            ||| exists|i: int| #[trigger]
                closest(samples, col, row, i) && cell == shaded(samples[i]->0)
        }),
{
    lemma_paint_keeps_closest(
        cfg.viewport as nat,
        frame_samples(cfg, a, b, thetas, phis),
        col,
        row,
    );
}

} // verus!
