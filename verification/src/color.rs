//! Colour codes and the BT.2020 RGB to YCbCr conversion.
//!
//! All values are 10-bit narrow-range code values. The conversion is carried
//! out in exact rational arithmetic: the Rec. ITU-R BT.2020 non-constant
//! luminance coefficients are decimal numbers (`Kr = 0.2627`, `Kb = 0.0593`),
//! so every intermediate quantity is a fraction with a fixed denominator and the
//! final rounding (half away from zero) is a single integer division.
use vstd::prelude::*;

verus! {

/// Narrow-range black.
pub const LIMITED_BLACK: u16 = 64;

/// Narrow-range nominal white.
pub const LIMITED_WHITE: u16 = 940;

/// Neutral (zero) chroma.
pub const CHROMA_NEUTRAL: u16 = 512;

/// Smallest 10-bit code.
pub const CODE_MIN_10BIT: u16 = 0;

/// Largest 10-bit code.
pub const CODE_MAX_10BIT: u16 = 1023;

/// Narrow-range luma excursion (`940 - 64`).
pub const LIMITED_LUMA_RANGE: i64 = 876;

/// Narrow-range chroma excursion (`960 - 64`).
pub const LIMITED_CHROMA_RANGE: i64 = 896;

/// `Kr` scaled by 10000.
pub const KR_E4: i64 = 2627;

/// `Kg = 1 - Kr - Kb` scaled by 10000.
pub const KG_E4: i64 = 6780;

/// `Kb` scaled by 10000.
pub const KB_E4: i64 = 593;

/// Denominator of the luma weights.
pub const WEIGHT_DEN: i64 = 10000;

/// `876 * 2 * (1 - Kb) * 10000`: denominator of the Cb code offset.
pub const CB_DEN: i64 = 16481064;

/// `876 * 2 * (1 - Kr) * 10000`: denominator of the Cr code offset.
pub const CR_DEN: i64 = 12917496;

/// A 10-bit Y'CbCr triple.
#[derive(Clone, Copy, Debug, PartialEq, Eq, Structural)]
pub struct Ycbcr {
    pub y: u16,
    pub cb: u16,
    pub cr: u16,
}

/// A narrow-range R'G'B' triple of 10-bit code values.
#[derive(Clone, Copy, Debug, PartialEq, Eq, Structural)]
pub struct RgbCode {
    pub r: u16,
    pub g: u16,
    pub b: u16,
}

/// `value` clamped into `lo..=hi`.
pub open spec fn clamp_spec(value: int, lo: int, hi: int) -> int {
    if value < lo {
        lo
    } else if value > hi {
        hi
    } else {
        value
    }
}

/// `n / d` rounded to the nearest integer, halves away from zero (`d > 0`).
pub open spec fn round_half_away(n: int, d: int) -> int {
    if n >= 0 {
        (2 * n + d) / (2 * d)
    } else {
        -((-2 * n + d) / (2 * d))
    }
}

/// `Kr R' + Kg G' + Kb B'` of the offsets from black, scaled by 10000.
pub open spec fn weighted_luma(rgb: RgbCode) -> int {
    KR_E4 * (rgb.r - LIMITED_BLACK) + KG_E4 * (rgb.g - LIMITED_BLACK) + KB_E4 * (rgb.b
        - LIMITED_BLACK)
}

/// Luma code before clamping: `64 + weighted_luma / 10000`, rounded.
pub open spec fn luma_unclamped(rgb: RgbCode) -> int {
    round_half_away(64 * WEIGHT_DEN + weighted_luma(rgb), WEIGHT_DEN as int)
}

/// Cb code before clamping: `512 + 896 (B' - Y') / (876 * 1.8814)`, rounded.
pub open spec fn cb_unclamped(rgb: RgbCode) -> int {
    round_half_away(
        512 * CB_DEN + LIMITED_CHROMA_RANGE * (WEIGHT_DEN * (rgb.b - LIMITED_BLACK) - weighted_luma(
            rgb,
        )),
        CB_DEN as int,
    )
}

/// Cr code before clamping: `512 + 896 (R' - Y') / (876 * 1.4746)`, rounded.
pub open spec fn cr_unclamped(rgb: RgbCode) -> int {
    round_half_away(
        512 * CR_DEN + LIMITED_CHROMA_RANGE * (WEIGHT_DEN * (rgb.r - LIMITED_BLACK) - weighted_luma(
            rgb,
        )),
        CR_DEN as int,
    )
}

/// The BT.2020 narrow-range Y'CbCr encoding of `rgb`, clamped to 10 bits.
pub open spec fn ycbcr_spec(rgb: RgbCode) -> Ycbcr {
    Ycbcr {
        y: clamp_spec(luma_unclamped(rgb), 0, 1023) as u16,
        cb: clamp_spec(cb_unclamped(rgb), 0, 1023) as u16,
        cr: clamp_spec(cr_unclamped(rgb), 0, 1023) as u16,
    }
}

/// The achromatic colour with every component equal to `value`.
pub open spec fn grey_spec(value: u16) -> RgbCode {
    RgbCode { r: value, g: value, b: value }
}

/// `value` held between `lo` and `hi` (`lo <= hi`).
pub fn clamp_i32(value: i32, lo: i32, hi: i32) -> (r: i32)
    requires
        lo <= hi,
    ensures
        r == clamp_spec(value as int, lo as int, hi as int),
{
    if value < lo {
        lo
    } else if value > hi {
        hi
    } else {
        value
    }
}

/// Clamps a signed value into the 10-bit code range.
pub fn clamp10(value: i32) -> (r: u16)
    ensures
        r == clamp_spec(value as int, 0, 1023),
{
    clamp_i32(value, CODE_MIN_10BIT as i32, CODE_MAX_10BIT as i32) as u16
}

/// `n / d` rounded half away from zero.
fn round_div(n: i64, d: i64) -> (r: i64)
    requires
        0 < d <= 100_000_000,
        -1_000_000_000_000_000 <= n <= 1_000_000_000_000_000,
    ensures
        r == round_half_away(n as int, d as int),
        2 * d * r - d <= 2 * n <= 2 * d * r + d,
{
    if n >= 0 {
        let q = (2 * n + d) / (2 * d);
        proof {
            lemma_div_bracket(2 * n + d, 2 * d);
            assert(2 * d * q - d <= 2 * n <= 2 * d * q + d) by (nonlinear_arith)
                requires
                    (2 * d) * q <= 2 * n + d < (2 * d) * q + 2 * d,
            ;
        }
        q
    } else {
        let q = (-2 * n + d) / (2 * d);
        proof {
            lemma_div_bracket(-2 * n + d, 2 * d);
            assert(2 * d * (-q) - d <= 2 * n <= 2 * d * (-q) + d) by (nonlinear_arith)
                requires
                    (2 * d) * q <= -2 * n + d < (2 * d) * q + 2 * d,
            ;
        }
        -q
    }
}

/// The quotient `a / d` brackets `a` between consecutive multiples of `d`.
proof fn lemma_div_bracket(a: int, d: int)
    requires
        0 <= a,
        0 < d,
    ensures
        d * (a / d) <= a < d * (a / d) + d,
{
    vstd::arithmetic::div_mod::lemma_fundamental_div_mod(a, d);
    vstd::arithmetic::div_mod::lemma_mod_pos_bound(a, d);
}

/// Converts a narrow-range R'G'B' code triple to 10-bit Y'CbCr with the
/// Rec. ITU-R BT.2020 non-constant-luminance equations.
pub fn ycbcr_from_rgb(rgb: RgbCode) -> (r: Ycbcr)
    ensures
        r == ycbcr_spec(rgb),
{
    let rd = rgb.r as i64 - LIMITED_BLACK as i64;
    let gd = rgb.g as i64 - LIMITED_BLACK as i64;
    let bd = rgb.b as i64 - LIMITED_BLACK as i64;
    let weighted = KR_E4 * rd + KG_E4 * gd + KB_E4 * bd;
    let y = round_div(64 * WEIGHT_DEN + weighted, WEIGHT_DEN);
    let cb = round_div(
        512 * CB_DEN + LIMITED_CHROMA_RANGE * (WEIGHT_DEN * bd - weighted),
        CB_DEN,
    );
    let cr = round_div(
        512 * CR_DEN + LIMITED_CHROMA_RANGE * (WEIGHT_DEN * rd - weighted),
        CR_DEN,
    );
    Ycbcr { y: clamp10(y as i32), cb: clamp10(cb as i32), cr: clamp10(cr as i32) }
}

/// The achromatic colour with every component equal to `value`.
pub fn grey(value: u16) -> (r: RgbCode)
    ensures
        r == grey_spec(value),
{
    RgbCode { r: value, g: value, b: value }
}

} // verus!
