//! Angles as whole micro-radians, and the arithmetic that keeps them within
//! one turn.

use vstd::prelude::*;
use vstd::arithmetic::div_mod::lemma_mod_multiples_vanish;
use vstd::arithmetic::div_mod::lemma_small_mod;
use vstd::arithmetic::div_mod::lemma_mod_bound;

verus! {

/// One full turn (2π) in micro-radians.
pub const FULL_TURN: u32 = 6_283_185;

/// The angle in `[0, FULL_TURN)` that differs from `angle` by a whole number
/// of turns.
pub open spec fn wrap(angle: int) -> int {
    angle % (FULL_TURN as int)
}

/// Moves `angle` by `step`, which may be negative, and brings the result back
/// into `[0, FULL_TURN)`.
pub fn advance(angle: u32, step: i64) -> (next: u32)
    ensures
        next == wrap(angle + step),
        next < FULL_TURN,
{
    // So many whole turns exceed the magnitude of every negative step: the
    // sum below cannot go below zero.
    let turns: i128 = 1_500_000_000_000;
    let lifted: i128 = angle as i128 + step as i128 + turns * (FULL_TURN as i128);
    proof {
        lemma_mod_multiples_vanish(turns as int, angle + step, FULL_TURN as int);
        lemma_mod_bound(angle + step, FULL_TURN as int);
    }
    (lifted % (FULL_TURN as i128)) as u32
}

/// Within one turn, wrapping is the identity.
pub proof fn lemma_wrap_in_range(angle: int)
    requires
        0 <= angle < FULL_TURN,
    ensures
        wrap(angle) == angle,
{
    lemma_small_mod(angle as nat, FULL_TURN as nat);
}

/// Wrapping always lands in `[0, FULL_TURN)`.
pub proof fn lemma_wrap_bounds(angle: int)
    ensures
        0 <= wrap(angle) < FULL_TURN,
{
    lemma_mod_bound(angle, FULL_TURN as int);
}

/// Advancing an angle of `[0, FULL_TURN)` by a step of less than a turn stays
/// in `[0, FULL_TURN)`: a sum that reaches or passes the full turn loses
/// exactly one turn, a sum below zero gains one, and any other sum is kept.
pub proof fn lemma_advance_wraps_once(angle: int, step: int)
    requires
        0 <= angle < FULL_TURN,
        -(FULL_TURN as int) < step < FULL_TURN,
    ensures
        0 <= wrap(angle + step) < FULL_TURN,
        angle + step >= FULL_TURN ==> wrap(angle + step) == angle + step - FULL_TURN,
        0 <= angle + step < FULL_TURN ==> wrap(angle + step) == angle + step,
        angle + step < 0 ==> wrap(angle + step) == angle + step + FULL_TURN,
{
    let turn = FULL_TURN as int;
    let sum = angle + step;
    lemma_mod_bound(sum, turn);
    if sum >= turn {
        lemma_mod_multiples_vanish(-1, sum, turn);
        lemma_small_mod((sum - turn) as nat, turn as nat);
    } else if sum < 0 {
        lemma_mod_multiples_vanish(1, sum, turn);
        lemma_small_mod((sum + turn) as nat, turn as nat);
    } else {
        lemma_small_mod(sum as nat, turn as nat);
    }
}

/// The sample angles of one sweep: every multiple of `step` below a full
/// turn, in increasing order.
pub fn sweep_angles(step: u32) -> (angles: Vec<u32>)
    requires
        step > 0,
    ensures
        forall|i: int| 0 <= i < angles.len() ==> angles[i] == i * step,
        forall|i: int| 0 <= i < angles.len() ==> angles[i] < FULL_TURN,
        angles.len() * step >= FULL_TURN,
{
    let mut angles: Vec<u32> = Vec::new();
    let mut current: u64 = 0;
    assert(0 * step == 0);
    while current < FULL_TURN as u64
        invariant
            step > 0,
            current == angles.len() * step,
            forall|i: int| 0 <= i < angles.len() ==> angles[i] == i * step,
            forall|i: int| 0 <= i < angles.len() ==> angles[i] < FULL_TURN,
            current < FULL_TURN ==> angles.len() < FULL_TURN,
        decreases if current < FULL_TURN { FULL_TURN - current } else { 0 },
    {
        let ghost before = angles.len() as int;
        assert((before + 1) * step == before * step + step) by (nonlinear_arith);
        assert(before + 1 <= (before + 1) * step) by (nonlinear_arith)
            requires
                step >= 1,
                before >= 0,
        ;
        angles.push(current as u32);
        current = current + step as u64;
    }
    angles
}

} // verus!
