//! Properties of the generator that span several of its functions.
use crate::color::{grey_spec, ycbcr_spec, RgbCode, Ycbcr, CHROMA_NEUTRAL};
use crate::frame::{frame_record, plane_bytes, FrameView};
use crate::generator::{valid_options, GeneratorOptions};
use crate::layout::stair_index_2k;
use crate::levels::{bar_rgb, stair_code, Transfer, HLG_MAIN_BAR_CODE, PQ_MAIN_BAR_CODE};
use crate::pattern::{pattern_2k, pattern_frame, ramp_code};
use vstd::prelude::*;

verus! {

/// An achromatic 10-bit colour keeps its code as luma and gets neutral chroma.
pub proof fn law_grey_is_neutral(v: u16)
    requires
        v <= 1023,
    ensures
        ycbcr_spec(grey_spec(v)) == (Ycbcr { y: v, cb: CHROMA_NEUTRAL, cr: CHROMA_NEUTRAL }),
{
    let n = 10000 * v as int;
    assert(((2 * n + 10000) / 20000) == v as int) by {
        vstd::arithmetic::div_mod::lemma_fundamental_div_mod_converse(
            2 * n + 10000,
            20000,
            v as int,
            10000,
        );
    }
    vstd::arithmetic::div_mod::lemma_fundamental_div_mod_converse(
        2 * 512 * 16481064int + 16481064,
        2 * 16481064int,
        512,
        16481064,
    );
    vstd::arithmetic::div_mod::lemma_fundamental_div_mod_converse(
        2 * 512 * 12917496int + 12917496,
        2 * 12917496int,
        512,
        12917496,
    );
}

/// The options are accepted exactly when they ask for at least one frame of an
/// integer multiple of 1920x1080.
pub proof fn law_valid_options_are_integer_scales(o: GeneratorOptions)
    ensures
        valid_options(o) <==> (o.frames != 0 && exists|s: int|
            s >= 1 && o.width == 1920 * s && #[trigger] (1080 * s) == o.height),
{
    if valid_options(o) {
        let s = o.width as int / 1920;
        assert(s >= 1 && o.width == 1920 * s && 1080 * s == o.height);
    }
    if o.frames != 0 && exists|s: int| s >= 1 && o.width == 1920 * s && #[trigger] (1080 * s) == o.height {
        let s = choose|s: int| s >= 1 && o.width == 1920 * s && #[trigger] (1080 * s) == o.height;
        vstd::arithmetic::div_mod::lemma_fundamental_div_mod_converse(o.width as int, 1920, s, 0);
        vstd::arithmetic::div_mod::lemma_fundamental_div_mod_converse(o.height as int, 1080, s, 0);
        vstd::arithmetic::div_mod::lemma_fundamental_div_mod_converse(o.width as int, 2, 960 * s, 0);
        vstd::arithmetic::div_mod::lemma_fundamental_div_mod_converse(o.height as int, 2, 540 * s, 0);
    }
}

/// Each sample of a plane is recovered from its two little-endian bytes.
pub proof fn law_plane_bytes_decode(plane: Seq<u16>, i: int)
    requires
        0 <= i < plane.len(),
    ensures
        plane_bytes(plane)[2 * i] + 256 * plane_bytes(plane)[2 * i + 1] == plane[i],
{
    let b = plane_bytes(plane);
    assert(b[2 * i] == (plane[i] % 256) as u8);
    assert(b[2 * i + 1] == (plane[i] / 256) as u8);
}

/// A 10-bit 4:2:0 frame record holds the six-byte marker and three bytes per
/// pixel (two for luma, one for the two quarter-size chroma planes).
pub proof fn law_frame_record_length(f: FrameView)
    requires
        f.wf(),
        f.width % 2 == 0,
        f.height % 2 == 0,
    ensures
        frame_record(f).len() == 6 + 3 * f.width * f.height,
{
    let w = f.width as int;
    let h = f.height as int;
    assert(2 * (w * h) + 4 * ((w / 2) * (h / 2)) == 3 * (w * h)) by (nonlinear_arith)
        requires
            w % 2 == 0,
            h % 2 == 0,
            w >= 0,
            h >= 0,
    ;
    assert(3 * w * h == 3 * (w * h)) by (nonlinear_arith);
}

/// The ramp rises by one code per 2K column from column 699 to column 1714,
/// and holds 4 before and 1019 after.
pub proof fn law_ramp_steps(x: int)
    ensures
        x <= 699 ==> ramp_code(x) == 4,
        699 <= x < 1714 ==> ramp_code(x + 1) == ramp_code(x) + 1,
        x >= 1714 ==> ramp_code(x) == 1019,
{
}

/// Every luma sample of the generated pattern lies in the 10-bit range.
pub proof fn law_pattern_is_10_bit(t: Transfer, x: int, y: int)
    ensures
        pattern_2k(t, x, y).y <= 1023,
        pattern_2k(t, x, y).cb <= 1023,
        pattern_2k(t, x, y).cr <= 1023,
{
}

/// Reading the pixel `(x, y)` of the pattern frame at scale `s` gives the
/// pattern's luma at `(x / s, y / s)` and the chroma stored for the 2x2 block
/// that holds `(x, y)`, taken at the block's bottom-right sample.
pub proof fn law_pixel_of_pattern_frame(t: Transfer, s: int, x: int, y: int)
    requires
        s >= 1,
        0 <= x < 1920 * s,
        0 <= y < 1080 * s,
    ensures
        ({
            let f = pattern_frame(t, (1920 * s) as nat, (1080 * s) as nat);
            &&& f.luma_at(x, y) == pattern_2k(t, x / s, y / s).y
            &&& f.cb_at(x / 2, y / 2) == pattern_2k(t, (2 * (x / 2) + 1) / s, (2 * (y / 2) + 1) / s).cb
            &&& f.cr_at(x / 2, y / 2) == pattern_2k(t, (2 * (x / 2) + 1) / s, (2 * (y / 2) + 1) / s).cr
        }),
{
    let w = 1920 * s;
    let h = 1080 * s;
    let i = y * w + x;
    crate::frame::lemma_row_major_in_bounds(w, h, x, y);
    vstd::arithmetic::div_mod::lemma_fundamental_div_mod_converse(i, w, y, x);
    let cw = 960 * s;
    let ch = 540 * s;
    assert(w as nat / 2 == cw && h as nat / 2 == ch);
    crate::frame::lemma_row_major_in_bounds(cw, ch, x / 2, y / 2);
    let j = (y / 2) * cw + x / 2;
    vstd::arithmetic::div_mod::lemma_fundamental_div_mod_converse(j, cw, y / 2, x / 2);
}

/// The 2K column or row `v` moved to the odd member of its pair.
pub open spec fn odd_partner(v: int) -> int {
    2 * (v / 2) + 1
}

/// Every boundary of the pattern that separates different chroma lies on an
/// even 2K column and an even 2K row, so the chroma at `(x, y)` is the chroma
/// at the odd member of its 2x2 block.
pub proof fn lemma_chroma_constant_on_2k_blocks(t: Transfer, x: int, y: int)
    requires
        0 <= x < 1920,
        0 <= y < 1080,
    ensures
        pattern_2k(t, x, y).cb == pattern_2k(t, odd_partner(x), odd_partner(y)).cb,
        pattern_2k(t, x, y).cr == pattern_2k(t, odd_partner(x), odd_partner(y)).cr,
{
    let xo = odd_partner(x);
    let yo = odd_partner(y);
    assert(pattern_2k(t, x, y) == pattern_2k(t, x, yo));
    if 630 <= yo < 720 && 240 <= x < 1680 {
        law_grey_is_neutral(crate::levels::stair_code(crate::layout::stair_index_2k(x - 240)));
        law_grey_is_neutral(crate::levels::stair_code(crate::layout::stair_index_2k(xo - 240)));
    }
}

/// The chroma sample of luma column `x` at scale `s` is taken at 2K column
/// `(2 * (x / 2) + 1) / s`, which lies in the same 2K column pair as `x / s`.
proof fn lemma_block_column(x: int, s: int, n: int)
    requires
        s >= 1,
        n >= 1,
        0 <= x < 2 * n * s,
    ensures
        0 <= (2 * (x / 2) + 1) / s < 2 * n,
        odd_partner((2 * (x / 2) + 1) / s) == odd_partner(x / s),
{
    let q = x / s;
    crate::pattern::lemma_div_range(x, s, 0, 2 * n);
    vstd::arithmetic::div_mod::lemma_fundamental_div_mod(x, s);
    vstd::arithmetic::div_mod::lemma_mod_pos_bound(x, s);
    let r = x % s;
    if x % 2 == 1 {
        assert(2 * (x / 2) + 1 == x);
    } else {
        assert(2 * (x / 2) + 1 == x + 1);
        if r + 1 < s {
            assert(x + 1 == q * s + (r + 1)) by (nonlinear_arith)
                requires
                    x == s * q + r,
            ;
            vstd::arithmetic::div_mod::lemma_fundamental_div_mod_converse(x + 1, s, q, r + 1);
        } else {
            assert(x + 1 == (q + 1) * s + 0) by (nonlinear_arith)
                requires
                    x == s * q + r,
                    r == s - 1,
            ;
            vstd::arithmetic::div_mod::lemma_fundamental_div_mod_converse(x + 1, s, q + 1, 0);
            if q % 2 == 1 {
                let m = q / 2;
                let p = x / 2;
                assert((q + 1) * s == 2 * ((m + 1) * s)) by (nonlinear_arith)
                    requires
                        q == 2 * m + 1,
                ;
                assert(x == 2 * p);
                assert(false);
            }
            assert(q % 2 == 0);
        }
    }
}

/// At scale `s` the pattern frame is the 1920x1080 pattern frame with every
/// pixel, chroma included, repeated over an `s` by `s` block.
pub proof fn law_frame_scales_from_2k(t: Transfer, s: int, x: int, y: int)
    requires
        s >= 1,
        0 <= x < 1920 * s,
        0 <= y < 1080 * s,
    ensures
        pattern_frame(t, (1920 * s) as nat, (1080 * s) as nat).pixel_at(x, y) == pattern_frame(
            t,
            1920,
            1080,
        ).pixel_at(x / s, y / s),
{
    let xs = x / s;
    let ys = y / s;
    crate::pattern::lemma_div_range(x, s, 0, 1920);
    crate::pattern::lemma_div_range(y, s, 0, 1080);
    law_pixel_of_pattern_frame(t, s, x, y);
    law_pixel_of_pattern_frame(t, 1, xs, ys);
    lemma_block_column(x, s, 960);
    lemma_block_column(y, s, 540);
    let xc = (2 * (x / 2) + 1) / s;
    let yc = (2 * (y / 2) + 1) / s;
    lemma_chroma_constant_on_2k_blocks(t, xc, yc);
    assert(xs / 1 == xs && ys / 1 == ys);
    assert((2 * (xs / 2) + 1) / 1 == odd_partner(xs));
    assert((2 * (ys / 2) + 1) / 1 == odd_partner(ys));
}

/// The 2K positions whose colour depends on the transfer function: the
/// reduced-level bars, the side fields beside the stair, the BT.709 reference
/// patches and the bottom white field.
pub open spec fn transfer_dependent_2k(x: int, y: int) -> bool {
    ||| 240 <= x < 1680 && 90 <= y < 630
    ||| (x < 240 || x >= 1680) && (630 <= y < 720 || y >= 810)
    ||| 960 <= x < 1398 && y >= 810
}

/// The reduced-level bars of PQ and HLG differ in luma.
proof fn lemma_main_bars_differ(i: int)
    requires
        0 <= i < 7,
    ensures
        ycbcr_spec(bar_rgb(PQ_MAIN_BAR_CODE, i)).y != ycbcr_spec(bar_rgb(HLG_MAIN_BAR_CODE, i)).y,
{
    if i == 0 {
        law_grey_is_neutral(PQ_MAIN_BAR_CODE);
        law_grey_is_neutral(HLG_MAIN_BAR_CODE);
        assert(bar_rgb(PQ_MAIN_BAR_CODE, 0) == grey_spec(PQ_MAIN_BAR_CODE));
        assert(bar_rgb(HLG_MAIN_BAR_CODE, 0) == grey_spec(HLG_MAIN_BAR_CODE));
    }
}

/// On the transfer-dependent positions the PQ and HLG patterns differ in luma.
proof fn lemma_dependent_luma_differs(x: int, y: int)
    requires
        0 <= x < 1920,
        0 <= y < 1080,
        transfer_dependent_2k(x, y),
    ensures
        pattern_2k(Transfer::Pq, x, y).y != pattern_2k(Transfer::Hlg, x, y).y,
{
    if 240 <= x < 1680 && 90 <= y < 630 {
        lemma_main_bars_differ(crate::layout::bar_index_2k(x - 240));
    } else {
        law_grey_is_neutral(PQ_MAIN_BAR_CODE);
        law_grey_is_neutral(HLG_MAIN_BAR_CODE);
    }
}

/// Elsewhere the PQ and HLG patterns agree.
proof fn lemma_independent_agrees(x: int, y: int)
    requires
        !transfer_dependent_2k(x, y),
    ensures
        pattern_2k(Transfer::Pq, x, y) == pattern_2k(Transfer::Hlg, x, y),
{
}

/// The PQ and HLG frames at scale `s` agree at pixel `(x, y)` exactly when its
/// 2K position does not depend on the transfer function.
pub proof fn law_transfer_dependence(s: int, x: int, y: int)
    requires
        s >= 1,
        0 <= x < 1920 * s,
        0 <= y < 1080 * s,
    ensures
        pattern_frame(Transfer::Pq, (1920 * s) as nat, (1080 * s) as nat).pixel_at(x, y)
            == pattern_frame(Transfer::Hlg, (1920 * s) as nat, (1080 * s) as nat).pixel_at(x, y)
            <==> !transfer_dependent_2k(x / s, y / s),
{
    let xs = x / s;
    let ys = y / s;
    crate::pattern::lemma_div_range(x, s, 0, 1920);
    crate::pattern::lemma_div_range(y, s, 0, 1080);
    law_pixel_of_pattern_frame(Transfer::Pq, s, x, y);
    law_pixel_of_pattern_frame(Transfer::Hlg, s, x, y);
    lemma_block_column(x, s, 960);
    lemma_block_column(y, s, 540);
    let xc = (2 * (x / 2) + 1) / s;
    let yc = (2 * (y / 2) + 1) / s;
    assert(transfer_dependent_2k(xc, yc) == transfer_dependent_2k(xs, ys));
    if transfer_dependent_2k(xs, ys) {
        lemma_dependent_luma_differs(xs, ys);
    } else {
        lemma_independent_agrees(xs, ys);
        lemma_independent_agrees(xc, yc);
    }
}

/// Luma of the pattern frame at scale `s`, at sample `(x, y)`.
pub open spec fn scaled_luma(t: Transfer, s: int, x: int, y: int) -> u16 {
    pattern_frame(t, (1920 * s) as nat, (1080 * s) as nat).luma_at(x, y)
}

/// Each row of the ramp at scale `s` is non-decreasing from code 4 at its
/// first column to code 1019 at the frame's last column, and takes every code
/// in between.
pub proof fn law_ramp_row(t: Transfer, s: int, y: int, x1: int, x2: int, v: int)
    requires
        s >= 1,
        720 * s <= y < 810 * s,
    ensures
        240 * s <= x1 <= x2 < 1920 * s ==> scaled_luma(t, s, x1, y) <= scaled_luma(t, s, x2, y),
        scaled_luma(t, s, 240 * s, y) == 4,
        scaled_luma(t, s, 1920 * s - 1, y) == 1019,
        4 <= v <= 1019 ==> exists|x: int|
            240 * s <= x < 1920 * s && #[trigger] scaled_luma(t, s, x, y) == v,
{
    crate::pattern::lemma_div_range(y, s, 720, 810);
    if 240 * s <= x1 <= x2 < 1920 * s {
        law_pixel_of_pattern_frame(t, s, x1, y);
        law_pixel_of_pattern_frame(t, s, x2, y);
        crate::pattern::lemma_div_range(x1, s, 240, 1920);
        crate::pattern::lemma_div_range(x2, s, 240, 1920);
        vstd::arithmetic::div_mod::lemma_div_is_ordered(x1, x2, s);
    }
    assert(240 * s < 1920 * s);
    law_pixel_of_pattern_frame(t, s, 240 * s, y);
    vstd::arithmetic::div_mod::lemma_fundamental_div_mod_converse(240 * s, s, 240, 0);
    law_pixel_of_pattern_frame(t, s, 1920 * s - 1, y);
    crate::pattern::lemma_div_range(1920 * s - 1, s, 1919, 1920);
    if 4 <= v <= 1019 {
        let column = if v == 4 {
            240
        } else {
            v + 695
        };
        let x = column * s;
        assert(240 * s <= x < 1920 * s) by (nonlinear_arith)
            requires
                x == column * s,
                240 <= column < 1920,
                s >= 1,
        ;
        vstd::arithmetic::div_mod::lemma_fundamental_div_mod_converse(x, s, column, 0);
        law_pixel_of_pattern_frame(t, s, x, y);
        assert(scaled_luma(t, s, x, y) == v);
    }
}

/// The colour bars in both bar rows, left to right: white, yellow, cyan,
/// green, magenta, red and blue, each 206 2K columns wide except the 204-wide
/// green bar. Red is on in white, yellow, magenta and red; green in white,
/// yellow, cyan and green; blue in white, cyan, magenta and blue. The level of
/// an "on" component is 940 (100%) in the top row and 721 (HLG 75%) or 572
/// (PQ 58%) below it; an "off" component is black (64).
pub proof fn law_colour_bars(t: Transfer, x: int, y: int)
    requires
        240 <= x < 1680,
        0 <= y < 630,
    ensures
        ({
            let high: u16 = if y < 90 {
                940
            } else if t == Transfer::Hlg {
                721
            } else {
                572
            };
            let red_on = x < 652 || 1062 <= x < 1474;
            let green_on = x < 1062;
            let blue_on = x < 446 || 652 <= x < 858 || 1062 <= x < 1268 || x >= 1474;
            pattern_2k(t, x, y) == ycbcr_spec(
                RgbCode {
                    r: if red_on {
                        high
                    } else {
                        64
                    },
                    g: if green_on {
                        high
                    } else {
                        64
                    },
                    b: if blue_on {
                        high
                    } else {
                        64
                    },
                },
            )
        }),
{
}

/// Byte layout of a frame record: the marker `FRAME\n`, then every luma
/// sample, then every Cb sample, then every Cr sample, each sample as two
/// bytes, low byte first.
pub proof fn law_frame_record_layout(f: FrameView)
    ensures
        ({
            let rec = frame_record(f);
            let ly = f.luma.len() as int;
            let lb = f.cb.len() as int;
            &&& rec.len() == 6 + 2 * (f.luma.len() + f.cb.len() + f.cr.len())
            &&& rec.take(6) == seq![70u8, 82u8, 65u8, 77u8, 69u8, 10u8]
            &&& forall|i: int|
                0 <= i < ly ==> rec[6 + 2 * i] + 256 * rec[6 + 2 * i + 1] == #[trigger] f.luma[i]
            &&& forall|j: int|
                0 <= j < lb ==> rec[6 + 2 * ly + 2 * j] + 256 * rec[6 + 2 * ly + 2 * j + 1]
                    == #[trigger] f.cb[j]
            &&& forall|j: int|
                0 <= j < f.cr.len() ==> rec[6 + 2 * ly + 2 * lb + 2 * j] + 256 * rec[6 + 2 * ly
                    + 2 * lb + 2 * j + 1] == #[trigger] f.cr[j]
        }),
{
    let rec = frame_record(f);
    let ly = f.luma.len() as int;
    let lb = f.cb.len() as int;
    assert(rec.take(6) =~= seq![70u8, 82u8, 65u8, 77u8, 69u8, 10u8]);
    assert forall|i: int| 0 <= i < ly implies rec[6 + 2 * i] + 256 * rec[6 + 2 * i + 1]
        == #[trigger] f.luma[i] by {
        law_plane_bytes_decode(f.luma, i);
    }
    assert forall|j: int| 0 <= j < lb implies rec[6 + 2 * ly + 2 * j] + 256 * rec[6 + 2 * ly + 2
        * j + 1] == #[trigger] f.cb[j] by {
        law_plane_bytes_decode(f.cb, j);
    }
    assert forall|j: int| 0 <= j < f.cr.len() implies rec[6 + 2 * ly + 2 * lb + 2 * j] + 256
        * rec[6 + 2 * ly + 2 * lb + 2 * j + 1] == #[trigger] f.cr[j] by {
        law_plane_bytes_decode(f.cr, j);
    }
}

/// The stair steps: -7% (code 4), then 0%, 10%, ..., 100% of the narrow range
/// (each the code nearest to `64 + 876 * p`), then 109% (code 1019).
pub proof fn law_stair_levels(k: int)
    ensures
        stair_code(0) == 4,
        stair_code(12) == 1019,
        1 <= k <= 11 ==> -5 <= 10 * stair_code(k) - (640 + 876 * (k - 1)) <= 5,
{
}

/// Along a stair row the luma never falls, and it rises strictly from one
/// step to the next.
pub proof fn law_stair_rises(t: Transfer, x1: int, x2: int, y: int)
    requires
        240 <= x1 <= x2 < 1680,
        630 <= y < 720,
    ensures
        pattern_2k(t, x1, y).y <= pattern_2k(t, x2, y).y,
        stair_index_2k(x1 - 240) < stair_index_2k(x2 - 240) ==> pattern_2k(t, x1, y).y
            < pattern_2k(t, x2, y).y,
{
    let i1 = stair_index_2k(x1 - 240);
    let i2 = stair_index_2k(x2 - 240);
    law_grey_is_neutral(stair_code(i1));
    law_grey_is_neutral(stair_code(i2));
    assert(i1 <= i2);
}

} // verus!
