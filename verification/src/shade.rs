//! Brightness to glyph.

use vstd::prelude::*;

verus! {

/// The fixed-point representation of a luminance of 1: the fourth power of
/// [`crate::trig::UNIT`].
pub const LUMINANCE_UNIT: i128 = 18_446_744_073_709_551_616;

/// Number of glyphs on the ramp.
pub const RAMP_LEN: usize = 12;

/// The glyphs from dimmest to brightest.
pub open spec fn ramp() -> Seq<char> {
    seq!['.', ',', '-', '~', ':', ';', '=', '!', '*', '#', '$', '@']
}

/// The ramp position of a scaled luminance: eight times the luminance,
/// rounded down and clamped to the ramp.
pub open spec fn ramp_index(luminance: int) -> int {
    let level = (8 * luminance) / (LUMINANCE_UNIT as int);
    if level < 0 {
        0
    } else if level > 11 {
        11
    } else {
        level
    }
}

/// The glyph that shades a scaled luminance.
pub open spec fn glyph_of(luminance: int) -> char {
    ramp()[ramp_index(luminance)]
}

/// The glyph at one ramp position; positions past the end of the ramp get
/// its last glyph.
pub fn ramp_glyph(index: usize) -> (glyph: char)
    ensures
        index < RAMP_LEN ==> glyph == ramp()[index as int],
        index >= RAMP_LEN ==> glyph == ramp()[RAMP_LEN - 1],
{
    match index {
        0 => '.',
        1 => ',',
        2 => '-',
        3 => '~',
        4 => ':',
        5 => ';',
        6 => '=',
        7 => '!',
        8 => '*',
        9 => '#',
        10 => '$',
        _ => '@',
    }
}

/// The ramp position of a scaled luminance, always a valid index.
pub fn level_for(luminance: i128) -> (index: usize)
    ensures
        index == ramp_index(luminance as int),
        index < RAMP_LEN,
{
    // One ramp step is an eighth of the luminance unit.
    let step: i128 = 2_305_843_009_213_693_952;
    if luminance <= 0 {
        0
    } else if luminance >= 12 * step {
        11
    } else {
        (luminance / step) as usize
    }
}

/// The glyph that shades a scaled luminance.
pub fn glyph_for(luminance: i128) -> (glyph: char)
    ensures
        glyph == glyph_of(luminance as int),
{
    ramp_glyph(level_for(luminance))
}

/// The ramp never runs out: every luminance has a position on it.
pub proof fn lemma_ramp_index_bounds(luminance: int)
    ensures
        0 <= ramp_index(luminance) < RAMP_LEN,
{
}

} // verus!
