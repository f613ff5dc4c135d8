//! Font metric conversion and descriptor values.
//!
//! Font-space metrics are converted from font units to glyph-space
//! thousandths of an em: `convert(v) = round(1000 * v / unitsPerEm)`, with
//! rounding half away from zero.  Descriptor flags are fixed-policy bits,
//! and the vertical stem width is an affine function of the weight class;
//! both are kept in exact integer form (`stem_v` in thousandths).

use vstd::prelude::*;

verus! {

/// Fixed-pitch descriptor flag bit.
pub const FLAG_FIXED_PITCH: u32 = 1;

/// Serif descriptor flag bit.
pub const FLAG_SERIF: u32 = 2;

/// Symbolic descriptor flag bit (always set, by fixed policy).
pub const FLAG_SYMBOLIC: u32 = 4;

/// Italic descriptor flag bit.
pub const FLAG_ITALIC: u32 = 64;

/// Small-caps descriptor flag bit (always set, by fixed policy).
pub const FLAG_SMALL_CAP: u32 = 131072;

/// The units-per-em value assumed when a face reports none.
pub const DEFAULT_UNITS_PER_EM: u16 = 1000;

/// `a / b` rounded half away from zero, for `b > 0`.
pub open spec fn round_div(a: int, b: int) -> int {
    if a >= 0 {
        (2 * a + b) / (2 * b)
    } else {
        -((2 * (-a) + b) / (2 * b))
    }
}

/// Font units to glyph-space thousandths of an em:
/// `round(1000 * v / upm)`.
pub open spec fn spec_convert(v: int, upm: int) -> int {
    round_div(1000 * v, upm)
}

/// Converts a signed font-unit metric (bounding box corner, ascender,
/// descender, capital height).
pub fn convert_i16(v: i16, upm: u16) -> (r: i64)
    requires
        upm >= 1,
    ensures
        r == spec_convert(v as int, upm as int),
{
    let a: i64 = 1000 * (v as i64);
    let b: i64 = upm as i64;
    if a >= 0 {
        (2 * a + b) / (2 * b)
    } else {
        -((2 * (-a) + b) / (2 * b))
    }
}

/// Converts an unsigned font-unit metric (glyph advance width).
pub fn convert_u16(v: u16, upm: u16) -> (r: i64)
    requires
        upm >= 1,
    ensures
        r == spec_convert(v as int, upm as int),
        r >= 0,
{
    let a: i64 = 1000 * (v as i64);
    let b: i64 = upm as i64;
    proof {
        vstd::arithmetic::div_mod::lemma_div_pos_is_pos(2 * a + b, 2 * b);
    }
    (2 * a + b) / (2 * b)
}

/// Law: `convert(0) == 0` for every units-per-em value.
pub proof fn lemma_convert_zero(upm: int)
    requires
        upm >= 1,
    ensures
        spec_convert(0, upm) == 0,
{
    vstd::arithmetic::div_mod::lemma_basic_div(upm, 2 * upm);
}

/// Law: for a fixed units-per-em value, `convert` is monotonic in its
/// input.
pub proof fn lemma_convert_monotonic(v1: int, v2: int, upm: int)
    requires
        v1 <= v2,
        upm >= 1,
    ensures
        spec_convert(v1, upm) <= spec_convert(v2, upm),
{
    let a1 = 1000 * v1;
    let a2 = 1000 * v2;
    let b = upm;
    assert(1000 * v1 <= 1000 * v2) by (nonlinear_arith)
        requires v1 <= v2;
    if a1 >= 0 {
        vstd::arithmetic::div_mod::lemma_div_is_ordered(2 * a1 + b, 2 * a2 + b, 2 * b);
    } else if a2 < 0 {
        vstd::arithmetic::div_mod::lemma_div_is_ordered(2 * (-a2) + b, 2 * (-a1) + b, 2 * b);
    } else {
        vstd::arithmetic::div_mod::lemma_div_pos_is_pos(2 * a2 + b, 2 * b);
        vstd::arithmetic::div_mod::lemma_div_pos_is_pos(2 * (-a1) + b, 2 * b);
    }
}

/// Law: with 1000 units per em, `convert` is the identity on whole font
/// units (`round(v) == v`).
pub proof fn lemma_convert_identity(v: int)
    ensures
        spec_convert(v, 1000) == v,
{
    if v >= 0 {
        assert(2 * (1000 * v) + 1000 == v * 2000 + 1000) by (nonlinear_arith);
        vstd::arithmetic::div_mod::lemma_fundamental_div_mod_converse(
            v * 2000 + 1000,
            2000,
            v,
            1000,
        );
    } else {
        assert(2 * (-(1000 * v)) + 1000 == (-v) * 2000 + 1000) by (nonlinear_arith);
        vstd::arithmetic::div_mod::lemma_fundamental_div_mod_converse(
            (-v) * 2000 + 1000,
            2000,
            -v,
            1000,
        );
    }
}

/// The descriptor flag word: symbolic and small-caps always (fixed
/// policy), serif, fixed-pitch and italic as reported.
pub open spec fn spec_font_flags(serif: bool, fixed_pitch: bool, italic: bool) -> u32 {
    (FLAG_SYMBOLIC + FLAG_SMALL_CAP + (if serif {
        FLAG_SERIF as int
    } else {
        0
    }) + (if fixed_pitch {
        FLAG_FIXED_PITCH as int
    } else {
        0
    }) + (if italic {
        FLAG_ITALIC as int
    } else {
        0
    })) as u32
}

/// Builds the descriptor flag word.
pub fn font_flags(serif: bool, fixed_pitch: bool, italic: bool) -> (r: u32)
    ensures
        r == spec_font_flags(serif, fixed_pitch, italic),
{
    let mut flags: u32 = FLAG_SYMBOLIC + FLAG_SMALL_CAP;
    if serif {
        flags += FLAG_SERIF;
    }
    if fixed_pitch {
        flags += FLAG_FIXED_PITCH;
    }
    if italic {
        flags += FLAG_ITALIC;
    }
    flags
}

/// Vertical stem width in thousandths: `stem_v = 10 + 0.244 * (weight - 50)`,
/// held exactly as `10000 + 244 * (weight - 50)`.
pub open spec fn spec_stem_v_milli(weight: int) -> int {
    10000 + 244 * (weight - 50)
}

/// Computes the vertical stem width in thousandths from the face's weight
/// class.
pub fn stem_v_milli(weight: u16) -> (r: i64)
    ensures
        r == spec_stem_v_milli(weight as int),
{
    10000 + 244 * ((weight as i64) - 50)
}

} // verus!
