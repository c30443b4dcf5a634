//! Fixed-point sines and cosines.

use vstd::prelude::*;

verus! {

/// The fixed-point representation of 1: a sine or cosine `v` is stored as
/// the integer nearest to `v * UNIT`.
pub const UNIT: i32 = 65_536;

/// The sine and cosine of one angle, each scaled by [`UNIT`].
///
/// Every value of this type has both components within `[-UNIT, UNIT]`.
/// Nothing else is assumed of them: the renderer is defined for every such
/// pair, whether or not it lies exactly on the unit circle.
#[derive(Clone, Copy, Debug, PartialEq, Eq, Structural)]
pub struct Trig {
    sin: i32,
    cos: i32,
}

impl Trig {
    /// Both components lie within `[-UNIT, UNIT]`.
    #[verifier::type_invariant]
    pub closed spec fn wf(self) -> bool {
        &&& -UNIT <= self.sin <= UNIT
        &&& -UNIT <= self.cos <= UNIT
    }

    /// The scaled sine.
    pub closed spec fn spec_sin(&self) -> i32 {
        self.sin
    }

    /// The scaled cosine.
    pub closed spec fn spec_cos(&self) -> i32 {
        self.cos
    }

    /// Whether the pair lies on or inside the unit circle.
    pub open spec fn within_unit_circle(self) -> bool {
        self.sin() * self.sin() + self.cos() * self.cos() <= UNIT * UNIT
    }

    /// Whether `value` is a representable sine or cosine.
    pub open spec fn in_range(value: int) -> bool {
        -UNIT <= value <= UNIT
    }

    /// Packs a scaled sine and cosine; `None` exactly when one of them lies
    /// outside `[-UNIT, UNIT]`.
    pub fn new(sin: i32, cos: i32) -> (t: Option<Trig>)
        ensures
            t is Some <==> Self::in_range(sin as int) && Self::in_range(cos as int),
            t matches Some(p) ==> p.wf() && p.sin() == sin && p.cos() == cos,
    {
        if -UNIT <= sin && sin <= UNIT && -UNIT <= cos && cos <= UNIT {
            Some(Trig { sin, cos })
        } else {
            None
        }
    }

    /// The sine and cosine of the zero angle.
    pub fn zero() -> (t: Trig)
        ensures
            t.wf(),
            t.sin() == 0,
            t.cos() == UNIT,
    {
        Trig { sin: 0, cos: UNIT }
    }

    /// The scaled sine.
    #[verifier::when_used_as_spec(spec_sin)]
    pub fn sin(&self) -> (v: i32)
        ensures
            v == self.sin(),
            -UNIT <= v <= UNIT,
    {
        proof {
            use_type_invariant(self);
        }
        self.sin
    }

    /// The scaled cosine.
    #[verifier::when_used_as_spec(spec_cos)]
    pub fn cos(&self) -> (v: i32)
        ensures
            v == self.cos(),
            -UNIT <= v <= UNIT,
    {
        proof {
            use_type_invariant(self);
        }
        self.cos
    }
}

/// Both components of a pair lie within `[-UNIT, UNIT]`.
pub proof fn lemma_trig_in_range(t: Trig)
    requires
        t.wf(),
    ensures
        Trig::in_range(t.sin() as int),
        Trig::in_range(t.cos() as int),
{
}

/// A pair is nothing but its two components: pairs with the same sine and
/// the same cosine are equal.
pub proof fn lemma_trig_is_its_components(one: Trig, other: Trig)
    requires
        one.sin() == other.sin(),
        one.cos() == other.cos(),
    ensures
        one == other,
{
}

} // verus!
