//! The BT.2111 pattern as a function of position, and the facts that tie a
//! frame to it.
//!
//! The pattern is defined on the native 1920x1080 raster; at an integer scale
//! `s` the luma sample `(x, y)` shows the 2K sample `(x / s, y / s)`, and the
//! chroma sample `(c, r)` shows the chroma of the 2K sample under its
//! bottom-right luma sample `(2c + 1, 2r + 1)`.
use crate::color::{clamp_spec, grey_spec, ycbcr_spec, Ycbcr, CHROMA_NEUTRAL, LIMITED_BLACK};
use crate::frame::{repainted, solid, FrameView, Rect};
use crate::layout::{bar_index_2k, stair_index_2k};
use crate::levels::{
    bar_rgb, bt709_left_patch, bt709_right_patch, main_bar_code, stair_code, Transfer,
    FULL_BAR_CODE, GREY_40_CODE, PLUGE_MINUS_2_CODE, PLUGE_PLUS_2_CODE, PLUGE_PLUS_4_CODE,
    RAMP_MAX_CODE, RAMP_MIN_CODE,
};
use vstd::prelude::*;

verus! {

/// Luma code of the narrow-range ramp at 2K column `x`: one code per column,
/// reaching 1019 at column 1714 and held between 4 and 1019.
pub open spec fn ramp_code(x: int) -> u16 {
    clamp_spec(clamp_spec(RAMP_MAX_CODE + x + 206 - 1920, RAMP_MIN_CODE as int, RAMP_MAX_CODE as int), 0, 1023) as u16
}

/// The bottom section at 2K column `x`: left BT.709 patches `l0..l2`, black,
/// the PLUGE (`m2`, black, `p2`, black, `p4`), black, white, black and the
/// right BT.709 patches `r0..r2`.
pub open spec fn bottom_row_2k(
    l0: Ycbcr,
    l1: Ycbcr,
    l2: Ycbcr,
    black: Ycbcr,
    m2: Ycbcr,
    p2: Ycbcr,
    p4: Ycbcr,
    white: Ycbcr,
    r0: Ycbcr,
    r1: Ycbcr,
    r2: Ycbcr,
    x: int,
) -> Ycbcr {
    if x < 80 {
        l0
    } else if x < 160 {
        l1
    } else if x < 240 {
        l2
    } else if x < 376 {
        black
    } else if x < 446 {
        m2
    } else if x < 514 {
        black
    } else if x < 584 {
        p2
    } else if x < 652 {
        black
    } else if x < 722 {
        p4
    } else if x < 960 {
        black
    } else if x < 1398 {
        white
    } else if x < 1680 {
        black
    } else if x < 1760 {
        r0
    } else if x < 1840 {
        r1
    } else {
        r2
    }
}

/// The BT.2111 pattern for transfer `t` at 2K position `(x, y)`.
pub open spec fn pattern_2k(t: Transfer, x: int, y: int) -> Ycbcr {
    if y < 630 {
        if x < 240 || x >= 1680 {
            ycbcr_spec(grey_spec(GREY_40_CODE))
        } else if y < 90 {
            ycbcr_spec(bar_rgb(FULL_BAR_CODE, bar_index_2k(x - 240)))
        } else {
            ycbcr_spec(bar_rgb(main_bar_code(t), bar_index_2k(x - 240)))
        }
    } else if y < 720 {
        if x < 240 || x >= 1680 {
            ycbcr_spec(grey_spec(main_bar_code(t)))
        } else {
            ycbcr_spec(grey_spec(stair_code(stair_index_2k(x - 240))))
        }
    } else if y < 810 {
        if x < 240 {
            ycbcr_spec(grey_spec(LIMITED_BLACK))
        } else {
            Ycbcr { y: ramp_code(x), cb: CHROMA_NEUTRAL, cr: CHROMA_NEUTRAL }
        }
    } else {
        bottom_row_2k(
            bt709_left_patch(t, 0),
            bt709_left_patch(t, 1),
            bt709_left_patch(t, 2),
            ycbcr_spec(grey_spec(LIMITED_BLACK)),
            ycbcr_spec(grey_spec(PLUGE_MINUS_2_CODE)),
            ycbcr_spec(grey_spec(PLUGE_PLUS_2_CODE)),
            ycbcr_spec(grey_spec(PLUGE_PLUS_4_CODE)),
            ycbcr_spec(grey_spec(main_bar_code(t))),
            bt709_right_patch(t, 0),
            bt709_right_patch(t, 1),
            bt709_right_patch(t, 2),
            x,
        )
    }
}

/// Every sample of `f` shows the pattern for `t` at scale `s`.
pub open spec fn shows_pattern(f: FrameView, t: Transfer, s: int) -> bool {
    &&& forall|x: int, y: int|
        f.in_luma(x, y) ==> #[trigger] f.luma_at(x, y) == pattern_2k(t, x / s, y / s).y
    &&& forall|c: int, r: int|
        f.in_chroma(c, r) ==> #[trigger] f.cb_at(c, r) == pattern_2k(
            t,
            (2 * c + 1) / s,
            (2 * r + 1) / s,
        ).cb
    &&& forall|c: int, r: int|
        f.in_chroma(c, r) ==> #[trigger] f.cr_at(c, r) == pattern_2k(
            t,
            (2 * c + 1) / s,
            (2 * r + 1) / s,
        ).cr
}

/// The samples of `f` whose luma position satisfies `done` show the pattern.
pub open spec fn shows_pattern_on(
    f: FrameView,
    t: Transfer,
    s: int,
    done: spec_fn(int, int) -> bool,
) -> bool {
    &&& forall|x: int, y: int|
        f.in_luma(x, y) && done(x, y) ==> #[trigger] f.luma_at(x, y) == pattern_2k(
            t,
            x / s,
            y / s,
        ).y
    &&& forall|c: int, r: int|
        f.in_chroma(c, r) && done(2 * c + 1, 2 * r + 1) ==> #[trigger] f.cb_at(c, r)
            == pattern_2k(t, (2 * c + 1) / s, (2 * r + 1) / s).cb
    &&& forall|c: int, r: int|
        f.in_chroma(c, r) && done(2 * c + 1, 2 * r + 1) ==> #[trigger] f.cr_at(c, r)
            == pattern_2k(t, (2 * c + 1) / s, (2 * r + 1) / s).cr
}

/// `done` extended by the samples of `rect`.
pub open spec fn with_rect(done: spec_fn(int, int) -> bool, rect: Rect) -> spec_fn(
    int,
    int,
) -> bool {
    |x: int, y: int| done(x, y) || rect.contains(x, y)
}

/// Repainting `rect` with colours that agree with the pattern there extends the
/// region on which the frame shows the pattern by `rect`.
pub proof fn lemma_paint_pattern(
    old: FrameView,
    new: FrameView,
    t: Transfer,
    s: int,
    done: spec_fn(int, int) -> bool,
    rect: Rect,
    paint: spec_fn(int, int) -> Ycbcr,
)
    requires
        shows_pattern_on(old, t, s, done),
        repainted(old, new, rect, paint),
        forall|x: int, y: int|
            new.in_luma(x, y) && rect.contains(x, y) ==> #[trigger] paint(x, y) == pattern_2k(
                t,
                x / s,
                y / s,
            ),
    ensures
        shows_pattern_on(new, t, s, with_rect(done, rect)),
{
    assert forall|c: int, r: int| new.in_chroma(c, r) implies new.in_luma(2 * c + 1, 2 * r + 1) by {}
}

/// Two horizontally adjacent repaints of the same rows compose into one.
pub proof fn lemma_repaint_extend(
    old: FrameView,
    mid: FrameView,
    new: FrameView,
    r1: Rect,
    r2: Rect,
    paint: spec_fn(int, int) -> Ycbcr,
    color: Ycbcr,
)
    requires
        repainted(old, mid, r1, paint),
        repainted(mid, new, r2, solid(color)),
        r2.x == r1.x + r1.w,
        r2.y == r1.y,
        r2.h == r1.h,
        r1.x + r1.w + r2.w <= usize::MAX,
        forall|x: int, y: int|
            new.in_luma(x, y) && r2.contains(x, y) ==> #[trigger] paint(x, y) == color,
    ensures
        repainted(old, new, Rect { x: r1.x, y: r1.y, w: (r1.w + r2.w) as usize, h: r1.h }, paint),
{
    assert forall|c: int, r: int| new.in_chroma(c, r) implies new.in_luma(2 * c + 1, 2 * r + 1) by {}
}

/// Scaling by `s` maps `[a * s, b * s)` onto `[a, b)`.
pub proof fn lemma_div_range(v: int, s: int, a: int, b: int)
    requires
        0 < s,
        a * s <= v < b * s,
    ensures
        a <= v / s < b,
{
    vstd::arithmetic::div_mod::lemma_fundamental_div_mod(v, s);
    let q = v / s;
    let m = v % s;
    assert(0 <= m < s) by {
        vstd::arithmetic::div_mod::lemma_mod_bound(v, s);
    }
    assert(a <= q < b) by (nonlinear_arith)
        requires
            v == s * q + m,
            0 <= m < s,
            0 < s,
            a * s <= v < b * s,
    ;
}

/// Removing whole multiples of `s` before scaling removes them after.
pub proof fn lemma_div_sub_multiple(v: int, s: int, a: int)
    requires
        0 < s,
    ensures
        (v - a * s) / s == v / s - a,
{
    vstd::arithmetic::div_mod::lemma_fundamental_div_mod(v, s);
    assert(0 <= v % s < s) by {
        vstd::arithmetic::div_mod::lemma_mod_bound(v, s);
    }
    assert(v - a * s == (v / s - a) * s + v % s) by (nonlinear_arith)
        requires
            v == s * (v / s) + v % s,
    ;
    vstd::arithmetic::div_mod::lemma_fundamental_div_mod_converse(v - a * s, s, v / s - a, v % s);
}

/// The frame of `width` by `height` samples that shows the pattern for `t` at
/// scale `width / 1920`.
pub open spec fn pattern_frame(t: Transfer, width: nat, height: nat) -> FrameView {
    let s = width as int / 1920;
    let cw = width / 2;
    let ch = height / 2;
    FrameView {
        width,
        height,
        luma: Seq::new(
            width * height,
            |i: int| pattern_2k(t, (i % width as int) / s, (i / width as int) / s).y,
        ),
        cb: Seq::new(
            cw * ch,
            |i: int| pattern_2k(t, (2 * (i % cw as int) + 1) / s, (2 * (i / cw as int) + 1) / s).cb,
        ),
        cr: Seq::new(
            cw * ch,
            |i: int| pattern_2k(t, (2 * (i % cw as int) + 1) / s, (2 * (i / cw as int) + 1) / s).cr,
        ),
    }
}

/// Row and column of the sample at row-major position `i` of a plane `w` wide.
proof fn lemma_row_major_split(i: int, w: int, h: int)
    requires
        0 <= i < w * h,
        0 < w,
    ensures
        0 <= i % w < w,
        0 <= i / w < h,
        (i / w) * w + i % w == i,
{
    vstd::arithmetic::div_mod::lemma_fundamental_div_mod(i, w);
    vstd::arithmetic::div_mod::lemma_mod_pos_bound(i, w);
    assert(0 <= i / w < h) by (nonlinear_arith)
        requires
            i == w * (i / w) + i % w,
            0 <= i % w < w,
            0 <= i < w * h,
            0 < w,
    ;
    assert((i / w) * w == w * (i / w)) by (nonlinear_arith);
}

/// A well-formed frame that shows the pattern everywhere is the pattern frame.
pub proof fn lemma_pattern_frame_unique(f: FrameView, t: Transfer)
    requires
        f.wf(),
        f.width >= 2,
        f.height >= 2,
        shows_pattern(f, t, f.width as int / 1920),
    ensures
        f == pattern_frame(t, f.width, f.height),
{
    let p = pattern_frame(t, f.width, f.height);
    let w = f.width as int;
    let h = f.height as int;
    let cw = f.chroma_width() as int;
    let ch = f.chroma_height() as int;
    assert forall|i: int| 0 <= i < f.luma.len() implies f.luma[i] == p.luma[i] by {
        lemma_row_major_split(i, w, h);
        assert(f.in_luma(i % w, i / w));
        assert(f.luma_at(i % w, i / w) == f.luma[i]);
    }
    assert forall|i: int| 0 <= i < f.cb.len() implies f.cb[i] == p.cb[i] && f.cr[i] == p.cr[i] by {
        lemma_row_major_split(i, cw, ch);
        assert(f.in_chroma(i % cw, i / cw));
        assert(f.cb_at(i % cw, i / cw) == f.cb[i]);
        assert(f.cr_at(i % cw, i / cw) == f.cr[i]);
    }
    assert(f.luma =~= p.luma);
    assert(f.cb =~= p.cb);
    assert(f.cr =~= p.cr);
}

} // verus!
