//! Option checking and generation of the BT.2111 frame.
use crate::color::{
    clamp10, clamp_i32, grey_spec, ycbcr_from_rgb, ycbcr_spec, RgbCode, Ycbcr, CHROMA_NEUTRAL,
};
use crate::frame::{repainted, solid, Frame, FrameView, Rect};
use crate::layout::{
    bar_index_2k, bar_start_2k, bar_widths, stair_index_2k, stair_start_2k, stair_width_2k,
    stair_widths_2k, Layout, BASE_HEIGHT, BASE_WIDTH, CENTRAL_WIDTH_2K,
};
use crate::levels::{
    bar_rgb, main_bar_code, stair_code, Levels, Transfer, FULL_BAR_CODE,
    RAMP_MAX_CODE, RAMP_MIN_CODE,
};
use crate::pattern::{
    bottom_row_2k, lemma_div_range, lemma_div_sub_multiple, lemma_paint_pattern, lemma_repaint_extend,
    lemma_pattern_frame_unique, pattern_2k, pattern_frame, ramp_code, shows_pattern, with_rect,
};
use vstd::prelude::*;

verus! {

/// Colour of the bar row `rect` at luma sample `(x, y)`: the bars are laid
/// out at `rect.w / 1440` luma columns per 2K column.
pub open spec fn bar_paint(colors: [RgbCode; 7], rect: Rect) -> spec_fn(int, int) -> Ycbcr {
    |x: int, y: int| ycbcr_spec(colors[bar_index_2k((x - rect.x) / (rect.w as int / 1440))])
}

/// Colour of the stair row `rect` at luma sample `(x, y)`: the steps are laid
/// out at `rect.w / 1440` luma columns per 2K column.
pub open spec fn step_paint(colors: [RgbCode; 13], rect: Rect) -> spec_fn(int, int) -> Ycbcr {
    |x: int, y: int| ycbcr_spec(colors[stair_index_2k((x - rect.x) / (rect.w as int / 1440))])
}

/// Colour of the ramp row at luma sample `(x, y)`: `black` left of the central
/// field, then the ramp at `scale` luma columns per 2K column.
pub open spec fn ramp_paint(black: RgbCode, side_field_w: int, scale: int) -> spec_fn(int, int) -> Ycbcr {
    |x: int, y: int|
        if x < side_field_w {
            ycbcr_spec(black)
        } else {
            Ycbcr { y: ramp_code(x / scale), cb: CHROMA_NEUTRAL, cr: CHROMA_NEUTRAL }
        }
}

/// Start (in 2K columns) of the `k`-th of the 15 fields of the bottom section;
/// `bottom_start_2k(15)` is the right edge.
pub open spec fn bottom_start_2k(k: int) -> int {
    if k <= 0 {
        0
    } else if k <= 3 {
        80 * k
    } else if k == 4 {
        376
    } else if k == 5 {
        446
    } else if k == 6 {
        514
    } else if k == 7 {
        584
    } else if k == 8 {
        652
    } else if k == 9 {
        722
    } else if k == 10 {
        960
    } else if k == 11 {
        1398
    } else if k == 12 {
        1680
    } else if k <= 15 {
        1680 + 80 * (k - 12)
    } else {
        1920
    }
}

/// The bottom section painted with `levels`, at 2K column `x`.
pub open spec fn bottom_levels(levels: Levels, x: int) -> Ycbcr {
    bottom_row_2k(
        levels.bt709_left[0],
        levels.bt709_left[1],
        levels.bt709_left[2],
        ycbcr_spec(levels.black_0),
        ycbcr_spec(levels.black_minus_2),
        ycbcr_spec(levels.black_plus_2),
        ycbcr_spec(levels.black_plus_4),
        ycbcr_spec(levels.main_bars[0]),
        levels.bt709_right[0],
        levels.bt709_right[1],
        levels.bt709_right[2],
        x,
    )
}

/// Colour of the bottom section at luma sample `(x, y)` at `scale` luma
/// columns per 2K column.
pub open spec fn bottom_paint(levels: Levels, scale: int) -> spec_fn(int, int) -> Ycbcr {
    |x: int, y: int| bottom_levels(levels, x / scale)
}

/// Painting the next field of the bottom section extends the painted prefix.
proof fn lemma_bottom_field(
    pre: FrameView,
    mid: FrameView,
    new: FrameView,
    levels: Levels,
    s: int,
    y: usize,
    h: usize,
    k: int,
    color: Ycbcr,
)
    requires
        s >= 1,
        0 <= k < 15,
        bottom_start_2k(k + 1) * s <= usize::MAX,
        repainted(
            pre,
            mid,
            Rect { x: 0, y, w: (bottom_start_2k(k) * s) as usize, h },
            bottom_paint(levels, s),
        ),
        repainted(
            mid,
            new,
            Rect {
                x: (bottom_start_2k(k) * s) as usize,
                y,
                w: ((bottom_start_2k(k + 1) - bottom_start_2k(k)) * s) as usize,
                h,
            },
            solid(color),
        ),
        forall|xx: int|
            bottom_start_2k(k) <= xx < bottom_start_2k(k + 1) ==> #[trigger] bottom_levels(levels, xx)
                == color,
    ensures
        repainted(
            pre,
            new,
            Rect { x: 0, y, w: (bottom_start_2k(k + 1) * s) as usize, h },
            bottom_paint(levels, s),
        ),
{
    assert(bottom_start_2k(k) < bottom_start_2k(k + 1));
    assert(0 <= bottom_start_2k(k) * s <= bottom_start_2k(k + 1) * s) by (nonlinear_arith)
        requires
            0 <= bottom_start_2k(k) < bottom_start_2k(k + 1),
            s >= 1,
    ;
    assert(bottom_start_2k(k) * s + (bottom_start_2k(k + 1) - bottom_start_2k(k)) * s
        == bottom_start_2k(k + 1) * s) by (nonlinear_arith);
    let seg = Rect {
        x: (bottom_start_2k(k) * s) as usize,
        y,
        w: ((bottom_start_2k(k + 1) - bottom_start_2k(k)) * s) as usize,
        h,
    };
    assert forall|px: int, py: int|
        new.in_luma(px, py) && seg.contains(px, py) implies #[trigger] bottom_paint(levels, s)(px, py)
        == color by {
        lemma_div_range(px, s, bottom_start_2k(k), bottom_start_2k(k + 1));
    }
    lemma_repaint_extend(
        pre,
        mid,
        new,
        Rect { x: 0, y, w: (bottom_start_2k(k) * s) as usize, h },
        seg,
        bottom_paint(levels, s),
        color,
    );
}

/// A frame repainted on an empty rectangle is unchanged.
proof fn lemma_repaint_nothing(f: FrameView, rect: Rect, paint: spec_fn(int, int) -> Ycbcr)
    requires
        f.wf(),
        rect.w == 0,
    ensures
        repainted(f, f, rect, paint),
{
}

/// Paints the seven colour bars across `rect`.
fn fill_bars(frame: &mut Frame, rect: Rect, colors: &[RgbCode; 7])
    requires
        old(frame)@.wf(),
        rect.x + rect.w <= old(frame)@.width,
        rect.y + rect.h <= old(frame)@.height,
        rect.w % 1440 == 0,
        rect.w >= 1440,
    ensures
        repainted(old(frame)@, final(frame)@, rect, bar_paint(*colors, rect)),
{
    let ghost pre = frame@;
    proof {
        frame.lemma_dims_fit();
    }
    let ghost paint = bar_paint(*colors, rect);
    let ghost s: int = rect.w as int / 1440;
    let widths = bar_widths(rect.w);
    let mut x = rect.x;
    proof {
        lemma_repaint_nothing(pre, Rect { x: rect.x, y: rect.y, w: 0, h: rect.h }, paint);
    }
    let mut k: usize = 0;
    while k < 7
        invariant
            pre == old(frame)@,
            pre.wf(),
            rect.x + rect.w <= pre.width,
            rect.y + rect.h <= pre.height,
            pre.width <= usize::MAX,
            paint == bar_paint(*colors, rect),
            s == rect.w / 1440,
            rect.w == 1440 * s,
            s >= 1,
            forall|j: int| 0 <= j < 7 ==> #[trigger] widths[j] == (bar_start_2k(j + 1) - bar_start_2k(j)) * s,
            0 <= k <= 7,
            x == rect.x + bar_start_2k(k as int) * s,
            repainted(pre, frame@, Rect { x: rect.x, y: rect.y, w: (x - rect.x) as usize, h: rect.h }, paint),
        decreases 7 - k,
    {
        let ghost mid = frame@;
        let w = widths[k];
        proof {
            assert(bar_start_2k(k as int) * s + (bar_start_2k(k + 1) - bar_start_2k(k as int)) * s
                == bar_start_2k(k + 1) * s) by (nonlinear_arith);
            assert(bar_start_2k(k + 1) * s <= 1440 * s) by (nonlinear_arith)
                requires bar_start_2k(k + 1) <= 1440, s >= 1;
        }
        let color = ycbcr_from_rgb(colors[k]);
        let seg = Rect { x, y: rect.y, w, h: rect.h };
        frame.fill_rect(seg, color);
        proof {
            assert forall|px: int, py: int|
                frame@.in_luma(px, py) && seg.contains(px, py) implies #[trigger] paint(px, py) == color by {
                lemma_div_range(px - rect.x, s, bar_start_2k(k as int), bar_start_2k(k + 1));
                assert(bar_index_2k((px - rect.x) / s) == k);
                assert(paint(px, py) == ycbcr_spec(colors[k as int]));
            }
            lemma_repaint_extend(
                pre,
                mid,
                frame@,
                Rect { x: rect.x, y: rect.y, w: (x - rect.x) as usize, h: rect.h },
                seg,
                paint,
                color,
            );
        }
        x = x + w;
        k = k + 1;
    }
}

/// Paints the 13 stair steps across `rect`.
fn fill_steps(frame: &mut Frame, rect: Rect, levels: &[RgbCode; 13])
    requires
        old(frame)@.wf(),
        rect.x + rect.w <= old(frame)@.width,
        rect.y + rect.h <= old(frame)@.height,
        rect.w % 1440 == 0,
        rect.w >= 1440,
    ensures
        repainted(old(frame)@, final(frame)@, rect, step_paint(*levels, rect)),
{
    let ghost pre = frame@;
    proof {
        frame.lemma_dims_fit();
    }
    let ghost paint = step_paint(*levels, rect);
    let mut x = rect.x;
    let scale = rect.w / CENTRAL_WIDTH_2K;
    let widths_2k = stair_widths_2k();
    proof {
        lemma_repaint_nothing(pre, Rect { x: rect.x, y: rect.y, w: 0, h: rect.h }, paint);
    }
    let mut index: usize = 0;
    while index < 13
        invariant
            pre == old(frame)@,
            pre.wf(),
            rect.x + rect.w <= pre.width,
            rect.y + rect.h <= pre.height,
            pre.width <= usize::MAX,
            paint == step_paint(*levels, rect),
            scale == rect.w / 1440,
            rect.w == 1440 * scale,
            scale >= 1,
            forall|j: int| 0 <= j < 13 ==> #[trigger] widths_2k[j] == stair_width_2k(j),
            0 <= index <= 13,
            x == rect.x + stair_start_2k(index as int) * scale,
            repainted(pre, frame@, Rect { x: rect.x, y: rect.y, w: (x - rect.x) as usize, h: rect.h }, paint),
        decreases 13 - index,
    {
        let ghost mid = frame@;
        proof {
            assert(stair_start_2k(index + 1) - stair_start_2k(index as int) == stair_width_2k(index as int));
            assert(stair_start_2k(index as int) * scale + stair_width_2k(index as int) * scale
                == stair_start_2k(index + 1) * scale) by (nonlinear_arith)
                requires stair_start_2k(index + 1) - stair_start_2k(index as int) == stair_width_2k(index as int);
            assert(stair_start_2k(index + 1) * scale <= 1440 * scale) by (nonlinear_arith)
                requires stair_start_2k(index + 1) <= 1440, scale >= 1;
            assert(stair_width_2k(index as int) * scale <= 1440 * scale) by (nonlinear_arith)
                requires stair_width_2k(index as int) <= 1440, scale >= 1;
        }
        let width = widths_2k[index] * scale;
        let color = ycbcr_from_rgb(levels[index]);
        let seg = Rect { x, y: rect.y, w: width, h: rect.h };
        frame.fill_rect(seg, color);
        proof {
            assert forall|px: int, py: int|
                frame@.in_luma(px, py) && seg.contains(px, py) implies #[trigger] paint(px, py) == color by {
                lemma_div_range(px - rect.x, scale as int, stair_start_2k(index as int), stair_start_2k(index + 1));
                assert(stair_index_2k((px - rect.x) / (scale as int)) == index);
            }
            lemma_repaint_extend(
                pre,
                mid,
                frame@,
                Rect { x: rect.x, y: rect.y, w: (x - rect.x) as usize, h: rect.h },
                seg,
                paint,
                color,
            );
        }
        x = x + width;
        index = index + 1;
    }
}

/// Offset that places code 1019 of the ramp at 2K column 1714.
pub const RAMP_OFFSET_2K: i32 = 206;

/// Paints the ramp row: black beside the left side field, then one ramp code
/// per 2K column across the rest of the width.
fn fill_ramp(frame: &mut Frame, dims: &Layout, levels: &Levels)
    requires
        old(frame)@.wf(),
        dims.scale >= 1,
        dims.at_scale(dims.scale as int),
        old(frame)@.width == dims.width,
        dims.ramp_y + dims.row_h <= old(frame)@.height,
    ensures
        repainted(
            old(frame)@,
            final(frame)@,
            Rect { x: 0, y: dims.ramp_y, w: dims.width, h: dims.row_h },
            ramp_paint(levels.black_0, dims.side_field_w as int, dims.scale as int),
        ),
{
    let ghost pre = frame@;
    let ghost paint = ramp_paint(levels.black_0, dims.side_field_w as int, dims.scale as int);
    let y = dims.ramp_y;
    let h = dims.row_h;
    proof {
        lemma_repaint_nothing(pre, Rect { x: 0, y, w: 0, h }, paint);
    }
    let black = ycbcr_from_rgb(levels.black_0);
    let side = Rect { x: 0, y, w: dims.side_field_w, h };
    frame.fill_rect(side, black);
    proof {
        lemma_repaint_extend(pre, pre, frame@, Rect { x: 0, y, w: 0, h }, side, paint, black);
    }
    let mut xx = dims.side_field_w;
    while xx < dims.width
        invariant
            pre == old(frame)@,
            pre.wf(),
            dims.scale >= 1,
            dims.at_scale(dims.scale as int),
            pre.width == dims.width,
            y == dims.ramp_y,
            h == dims.row_h,
            y + h <= pre.height,
            paint == ramp_paint(levels.black_0, dims.side_field_w as int, dims.scale as int),
            dims.side_field_w <= xx <= dims.width,
            repainted(pre, frame@, Rect { x: 0, y, w: xx, h }, paint),
        decreases dims.width - xx,
    {
        let ghost mid = frame@;
        proof {
            lemma_div_range(xx as int, dims.scale as int, 0, 1920);
            lemma_div_range(dims.width as int, dims.scale as int, 1920, 1921);
        }
        let value = RAMP_MAX_CODE as i32 + (xx / dims.scale) as i32 + RAMP_OFFSET_2K - (dims.width
            / dims.scale) as i32;
        let color = Ycbcr {
            y: clamp10(clamp_i32(value, RAMP_MIN_CODE as i32, RAMP_MAX_CODE as i32)),
            cb: CHROMA_NEUTRAL,
            cr: CHROMA_NEUTRAL,
        };
        let column = Rect { x: xx, y, w: 1, h };
        frame.fill_rect(column, color);
        proof {
            assert forall|px: int, py: int|
                frame@.in_luma(px, py) && column.contains(px, py) implies #[trigger] paint(px, py) == color by {}
            lemma_repaint_extend(pre, mid, frame@, Rect { x: 0, y, w: xx, h }, column, paint, color);
        }
        xx = xx + 1;
    }
}

/// Paints the bottom section: the BT.709 reference patches, black fields,
/// the PLUGE and the white field.
#[verifier::spinoff_prover]
#[verifier::rlimit(60)]
fn fill_bottom(frame: &mut Frame, dims: &Layout, levels: &Levels)
    requires
        old(frame)@.wf(),
        dims.scale >= 1,
        dims.at_scale(dims.scale as int),
        old(frame)@.width == dims.width,
        dims.bottom_y + dims.bottom_h <= old(frame)@.height,
    ensures
        repainted(
            old(frame)@,
            final(frame)@,
            Rect { x: 0, y: dims.bottom_y, w: dims.width, h: dims.bottom_h },
            bottom_paint(*levels, dims.scale as int),
        ),
{
    let ghost pre = frame@;
    let ghost s = dims.scale as int;
    let ghost paint = bottom_paint(*levels, s);
    let y = dims.bottom_y;
    let h = dims.bottom_h;
    let mut x: usize = 0;
    proof {
        lemma_repaint_nothing(pre, Rect { x: 0, y, w: 0, h }, paint);
    }
    let mut i: usize = 0;
    while i < 3
        invariant
            pre == old(frame)@,
            pre.wf(),
            s == dims.scale,
            s >= 1,
            dims.at_scale(s),
            pre.width == dims.width,
            y == dims.bottom_y,
            h == dims.bottom_h,
            y + h <= pre.height,
            paint == bottom_paint(*levels, s),
            0 <= i <= 3,
            x == bottom_start_2k(i as int) * s,
            repainted(pre, frame@, Rect { x: 0, y, w: x, h }, paint),
        decreases 3 - i,
    {
        let ghost mid = frame@;
        proof {
            assert(x + dims.bt709_patch_w == bottom_start_2k(i + 1) * s) by (nonlinear_arith)
                requires
                    x == 80 * i * s,
                    dims.bt709_patch_w == 80 * s,
                    bottom_start_2k(i + 1) == 80 * (i + 1),
            ;
            assert(bottom_start_2k(i + 1) * s <= 1920 * s) by (nonlinear_arith)
                requires
                    bottom_start_2k(i + 1) <= 1920,
                    s >= 1,
            ;
        }
        let yuv = levels.bt709_left[i];
        frame.fill_rect(Rect { x, y, w: dims.bt709_patch_w, h }, yuv);
        proof {
            lemma_bottom_field(pre, mid, frame@, *levels, s, y, h, i as int, yuv);
        }
        x = x + dims.bt709_patch_w;
        i = i + 1;
    }
    let ghost mid = frame@;
    frame.fill_rect(
        Rect { x, y, w: dims.bottom_black_left_w, h },
        ycbcr_from_rgb(levels.black_0),
    );
    proof {
        lemma_bottom_field(pre, mid, frame@, *levels, s, y, h, 3, ycbcr_spec(levels.black_0));
    }
    x = x + dims.bottom_black_left_w;

    let pluge = [
        (dims.pluge_bar_w, levels.black_minus_2),
        (dims.pluge_black_gap_w, levels.black_0),
        (dims.pluge_bar_w, levels.black_plus_2),
        (dims.pluge_black_gap_w, levels.black_0),
        (dims.pluge_bar_w, levels.black_plus_4),
    ];
    let mut j: usize = 0;
    while j < 5
        invariant
            pre == old(frame)@,
            pre.wf(),
            s == dims.scale,
            s >= 1,
            dims.at_scale(s),
            pre.width == dims.width,
            y == dims.bottom_y,
            h == dims.bottom_h,
            y + h <= pre.height,
            paint == bottom_paint(*levels, s),
            0 <= j <= 5,
            x == bottom_start_2k(4 + j) * s,
            pluge[0] == (dims.pluge_bar_w, levels.black_minus_2),
            pluge[1] == (dims.pluge_black_gap_w, levels.black_0),
            pluge[2] == (dims.pluge_bar_w, levels.black_plus_2),
            pluge[3] == (dims.pluge_black_gap_w, levels.black_0),
            pluge[4] == (dims.pluge_bar_w, levels.black_plus_4),
            repainted(pre, frame@, Rect { x: 0, y, w: x, h }, paint),
        decreases 5 - j,
    {
        let ghost mid = frame@;
        let (w, rgb) = pluge[j];
        proof {
            assert(w == (bottom_start_2k(5 + j) - bottom_start_2k(4 + j)) * s);
            assert(x + w == bottom_start_2k(5 + j) * s) by (nonlinear_arith)
                requires
                    x == bottom_start_2k(4 + j) * s,
                    w == (bottom_start_2k(5 + j) - bottom_start_2k(4 + j)) * s,
            ;
            assert(bottom_start_2k(5 + j) * s <= 1920 * s) by (nonlinear_arith)
                requires
                    bottom_start_2k(5 + j) <= 1920,
                    s >= 1,
            ;
        }
        let color = ycbcr_from_rgb(rgb);
        frame.fill_rect(Rect { x, y, w, h }, color);
        proof {
            lemma_bottom_field(pre, mid, frame@, *levels, s, y, h, 4 + j, color);
        }
        x = x + w;
        j = j + 1;
    }

    let ghost mid = frame@;
    frame.fill_rect(
        Rect { x, y, w: dims.bottom_black_middle_w, h },
        ycbcr_from_rgb(levels.black_0),
    );
    proof {
        lemma_bottom_field(pre, mid, frame@, *levels, s, y, h, 9, ycbcr_spec(levels.black_0));
    }
    x = x + dims.bottom_black_middle_w;
    let ghost mid = frame@;
    frame.fill_rect(
        Rect { x, y, w: dims.bottom_white_w, h },
        ycbcr_from_rgb(levels.main_bars[0]),
    );
    proof {
        lemma_bottom_field(pre, mid, frame@, *levels, s, y, h, 10, ycbcr_spec(levels.main_bars[0]));
    }
    x = x + dims.bottom_white_w;
    let ghost mid = frame@;
    frame.fill_rect(
        Rect { x, y, w: dims.bottom_black_right_w, h },
        ycbcr_from_rgb(levels.black_0),
    );
    proof {
        lemma_bottom_field(pre, mid, frame@, *levels, s, y, h, 11, ycbcr_spec(levels.black_0));
    }
    x = x + dims.bottom_black_right_w;

    let mut i: usize = 0;
    while i < 3
        invariant
            pre == old(frame)@,
            pre.wf(),
            s == dims.scale,
            s >= 1,
            dims.at_scale(s),
            pre.width == dims.width,
            y == dims.bottom_y,
            h == dims.bottom_h,
            y + h <= pre.height,
            paint == bottom_paint(*levels, s),
            0 <= i <= 3,
            x == bottom_start_2k(12 + i) * s,
            repainted(pre, frame@, Rect { x: 0, y, w: x, h }, paint),
        decreases 3 - i,
    {
        let ghost mid = frame@;
        proof {
            assert(x + dims.bt709_patch_w == bottom_start_2k(13 + i) * s) by (nonlinear_arith)
                requires
                    x == (1680 + 80 * i) * s,
                    dims.bt709_patch_w == 80 * s,
                    bottom_start_2k(13 + i) == 1680 + 80 * (i + 1),
            ;
            assert(bottom_start_2k(13 + i) * s <= 1920 * s) by (nonlinear_arith)
                requires
                    bottom_start_2k(13 + i) <= 1920,
                    s >= 1,
            ;
        }
        let yuv = levels.bt709_right[i];
        frame.fill_rect(Rect { x, y, w: dims.bt709_patch_w, h }, yuv);
        proof {
            lemma_bottom_field(pre, mid, frame@, *levels, s, y, h, 12 + i, yuv);
        }
        x = x + dims.bt709_patch_w;
        i = i + 1;
    }
}

/// What to generate: the transfer function, the raster size and the number
/// of (identical) frames.
#[derive(Clone, Copy, Debug)]
pub struct GeneratorOptions {
    pub transfer: Transfer,
    pub width: usize,
    pub height: usize,
    pub frames: usize,
}

/// The options ask for at least one frame of an integer multiple of
/// 1920x1080 with even dimensions.
pub open spec fn valid_options(o: GeneratorOptions) -> bool {
    &&& o.frames != 0
    &&& o.width >= 1920 && o.height >= 1080
    &&& o.width % 1920 == 0 && o.height % 1080 == 0
    &&& o.width / 1920 == o.height / 1080
    &&& o.width % 2 == 0 && o.height % 2 == 0
}

/// The message of the first check that `o` fails.
pub open spec fn options_error(o: GeneratorOptions) -> Seq<char> {
    if o.frames == 0 {
        "frames must be greater than zero"@
    } else if o.width < 1920 || o.height < 1080 {
        "native generation starts at 1920x1080; generate lower resolutions by resampling"@
    } else if o.width % 1920 != 0 || o.height % 1080 != 0 {
        "only integer scales of 1920x1080 are supported"@
    } else if o.width / 1920 != o.height / 1080 {
        "width and height must use the same integer scale from 1920x1080"@
    } else {
        "4:2:0 output requires even dimensions"@
    }
}

/// Checks that the options describe a raster the generator can draw natively.
pub fn validate_options(options: GeneratorOptions) -> (r: Result<(), String>)
    ensures
        r is Ok <==> valid_options(options),
        r matches Err(e) ==> e@ == options_error(options),
{
    if options.frames == 0 {
        return Err(String::from_str("frames must be greater than zero"));
    }
    if options.width < BASE_WIDTH || options.height < BASE_HEIGHT {
        return Err(
            String::from_str(
                "native generation starts at 1920x1080; generate lower resolutions by resampling",
            ),
        );
    }
    if options.width % BASE_WIDTH != 0 || options.height % BASE_HEIGHT != 0 {
        return Err(String::from_str("only integer scales of 1920x1080 are supported"));
    }
    if native_scale(options) != options.height / BASE_HEIGHT {
        return Err(
            String::from_str("width and height must use the same integer scale from 1920x1080"),
        );
    }
    if options.width % 2 != 0 || options.height % 2 != 0 {
        return Err(String::from_str("4:2:0 output requires even dimensions"));
    }
    Ok(())
}

/// The integer scale of the raster relative to 1920x1080.
pub fn native_scale(options: GeneratorOptions) -> (r: usize)
    ensures
        r == options.width / 1920,
{
    options.width / BASE_WIDTH
}

/// The side fields beside the bar rows show 40% grey.
proof fn lemma_side_fields_match(t: Transfer, s: int, levels: Levels, f: FrameView, rect: Rect)
    requires
        s >= 1,
        levels.for_transfer_spec(t),
        rect.x == 0 || rect.x == 1680 * s,
        rect.y == 0,
        rect.w == 240 * s,
        rect.h == 630 * s,
    ensures
        forall|x: int, y: int|
            f.in_luma(x, y) && rect.contains(x, y) ==> #[trigger] solid(ycbcr_spec(levels.grey_40))(
                x,
                y,
            ) == pattern_2k(t, x / s, y / s),
{
    assert forall|x: int, y: int| f.in_luma(x, y) && rect.contains(x, y) implies #[trigger] solid(
        ycbcr_spec(levels.grey_40),
    )(x, y) == pattern_2k(t, x / s, y / s) by {
        lemma_div_range(y, s, 0, 630);
        if rect.x == 0 {
            lemma_div_range(x, s, 0, 240);
        } else {
            lemma_div_range(x, s, 1680, 1920);
        }
    }
}

/// The side fields beside the stair show the reduced-level white.
proof fn lemma_stair_caps_match(t: Transfer, s: int, levels: Levels, f: FrameView, rect: Rect)
    requires
        s >= 1,
        levels.for_transfer_spec(t),
        rect.x == 0 || rect.x == 1680 * s,
        rect.y == 630 * s,
        rect.w == 240 * s,
        rect.h == 90 * s,
    ensures
        forall|x: int, y: int|
            f.in_luma(x, y) && rect.contains(x, y) ==> #[trigger] solid(
                ycbcr_spec(levels.main_bars[0]),
            )(x, y) == pattern_2k(t, x / s, y / s),
{
    assert(levels.main_bars[0] == bar_rgb(main_bar_code(t), 0));
    assert forall|x: int, y: int| f.in_luma(x, y) && rect.contains(x, y) implies #[trigger] solid(
        ycbcr_spec(levels.main_bars[0]),
    )(x, y) == pattern_2k(t, x / s, y / s) by {
        lemma_div_range(y, s, 630, 720);
        if rect.x == 0 {
            lemma_div_range(x, s, 0, 240);
        } else {
            lemma_div_range(x, s, 1680, 1920);
        }
    }
}

/// The two bar rows show the 100% and the reduced-level colour bars.
proof fn lemma_bar_rows_match(
    t: Transfer,
    s: int,
    colors: [RgbCode; 7],
    high: u16,
    f: FrameView,
    rect: Rect,
)
    requires
        s >= 1,
        forall|i: int| 0 <= i < 7 ==> #[trigger] colors[i] == bar_rgb(high, i),
        (rect.y == 0 && rect.h == 90 * s && high == FULL_BAR_CODE) || (rect.y == 90 * s && rect.h
            == 540 * s && high == main_bar_code(t)),
        rect.x == 240 * s,
        rect.w == 1440 * s,
    ensures
        forall|x: int, y: int|
            f.in_luma(x, y) && rect.contains(x, y) ==> #[trigger] bar_paint(colors, rect)(x, y)
                == pattern_2k(t, x / s, y / s),
{
    assert forall|x: int, y: int| f.in_luma(x, y) && rect.contains(x, y) implies #[trigger] bar_paint(
        colors,
        rect,
    )(x, y) == pattern_2k(t, x / s, y / s) by {
        if rect.y == 0 {
            lemma_div_range(y, s, 0, 90);
        } else {
            lemma_div_range(y, s, 90, 630);
        }
        lemma_div_range(x, s, 240, 1680);
        lemma_div_sub_multiple(x, s, 240);
        let i = bar_index_2k(x / s - 240);
        assert(colors[i] == bar_rgb(high, i));
    }
}

/// The stair row shows the 13 grey steps.
proof fn lemma_stair_matches(t: Transfer, s: int, levels: Levels, f: FrameView, rect: Rect)
    requires
        s >= 1,
        levels.for_transfer_spec(t),
        rect.x == 240 * s,
        rect.y == 630 * s,
        rect.w == 1440 * s,
        rect.h == 90 * s,
    ensures
        forall|x: int, y: int|
            f.in_luma(x, y) && rect.contains(x, y) ==> #[trigger] step_paint(levels.steps, rect)(x, y)
                == pattern_2k(t, x / s, y / s),
{
    assert forall|x: int, y: int| f.in_luma(x, y) && rect.contains(x, y) implies #[trigger] step_paint(
        levels.steps,
        rect,
    )(x, y) == pattern_2k(t, x / s, y / s) by {
        lemma_div_range(y, s, 630, 720);
        lemma_div_range(x, s, 240, 1680);
        lemma_div_sub_multiple(x, s, 240);
        let i = stair_index_2k(x / s - 240);
        assert(levels.steps[i] == grey_spec(stair_code(i)));
    }
}

/// The ramp row shows black beside the left side field and then the ramp.
proof fn lemma_ramp_matches(t: Transfer, s: int, levels: Levels, f: FrameView, rect: Rect)
    requires
        s >= 1,
        levels.for_transfer_spec(t),
        rect.x == 0,
        rect.y == 720 * s,
        rect.w == 1920 * s,
        rect.h == 90 * s,
    ensures
        forall|x: int, y: int|
            f.in_luma(x, y) && rect.contains(x, y) ==> #[trigger] ramp_paint(
                levels.black_0,
                240 * s,
                s,
            )(x, y) == pattern_2k(t, x / s, y / s),
{
    assert forall|x: int, y: int| f.in_luma(x, y) && rect.contains(x, y) implies #[trigger] ramp_paint(
        levels.black_0,
        240 * s,
        s,
    )(x, y) == pattern_2k(t, x / s, y / s) by {
        lemma_div_range(y, s, 720, 810);
        if x < 240 * s {
            lemma_div_range(x, s, 0, 240);
        } else {
            lemma_div_range(x, s, 240, 1920);
        }
    }
}

/// The bottom section shows the reference patches, the PLUGE and the white
/// field.
proof fn lemma_bottom_matches(t: Transfer, s: int, levels: Levels, f: FrameView, rect: Rect)
    requires
        s >= 1,
        levels.for_transfer_spec(t),
        rect.x == 0,
        rect.y == 810 * s,
        rect.w == 1920 * s,
        rect.h == 270 * s,
    ensures
        forall|x: int, y: int|
            f.in_luma(x, y) && rect.contains(x, y) ==> #[trigger] bottom_paint(levels, s)(x, y)
                == pattern_2k(t, x / s, y / s),
{
    assert(levels.bt709_left[0] == crate::levels::bt709_left_patch(t, 0));
    assert(levels.bt709_left[1] == crate::levels::bt709_left_patch(t, 1));
    assert(levels.bt709_left[2] == crate::levels::bt709_left_patch(t, 2));
    assert(levels.bt709_right[0] == crate::levels::bt709_right_patch(t, 0));
    assert(levels.bt709_right[1] == crate::levels::bt709_right_patch(t, 1));
    assert(levels.bt709_right[2] == crate::levels::bt709_right_patch(t, 2));
    assert(levels.main_bars[0] == bar_rgb(main_bar_code(t), 0));
    assert forall|x: int, y: int| f.in_luma(x, y) && rect.contains(x, y) implies #[trigger] bottom_paint(
        levels,
        s,
    )(x, y) == pattern_2k(t, x / s, y / s) by {
        lemma_div_range(y, s, 810, 1080);
    }
}

/// Draws the BT.2111 pattern for `options`, or says why the options cannot be
/// drawn natively.
pub fn generate_frame(options: GeneratorOptions) -> (r: Result<Frame, String>)
    requires
        valid_options(options) ==> options.width * options.height <= usize::MAX,
    ensures
        match r {
            Ok(f) => {
                &&& valid_options(options)
                &&& f@.width == options.width
                &&& f@.height == options.height
                &&& f@.wf()
                &&& shows_pattern(f@, options.transfer, options.width as int / 1920)
                &&& f@ == pattern_frame(options.transfer, options.width as nat, options.height as nat)
            },
            Err(e) => !valid_options(options) && e@ == options_error(options),
        },
{
    match validate_options(options) {
        Ok(()) => {},
        Err(e) => {
            return Err(e);
        },
    }
    let scale = native_scale(options);
    let ghost s = scale as int;
    let ghost t = options.transfer;
    proof {
        assert(options.width == 1920 * s);
        assert(options.height == 1080 * s);
    }
    let dims = Layout::new(scale);
    let levels = Levels::for_transfer(options.transfer);
    let mut frame = Frame::new(options.width, options.height);
    let ghost done0 = |x: int, y: int| false;

    // ITU-R BT.2111-2 Fig. 1/Fig. 2: side grey fields and central colour bars.
    let ghost f0 = frame@;
    let r1 = dims.left_side_top();
    frame.fill_rect(r1, ycbcr_from_rgb(levels.grey_40));
    proof {
        lemma_side_fields_match(t, s, levels, frame@, r1);
        lemma_paint_pattern(f0, frame@, t, s, done0, r1, solid(ycbcr_spec(levels.grey_40)));
    }
    let ghost done1 = with_rect(done0, r1);
    let ghost f1 = frame@;
    let r2 = dims.right_side_top();
    frame.fill_rect(r2, ycbcr_from_rgb(levels.grey_40));
    proof {
        lemma_side_fields_match(t, s, levels, frame@, r2);
        lemma_paint_pattern(f1, frame@, t, s, done1, r2, solid(ycbcr_spec(levels.grey_40)));
    }
    let ghost done2 = with_rect(done1, r2);
    let ghost f2 = frame@;
    let r3 = dims.top_bar_row();
    fill_bars(&mut frame, r3, &levels.full_bars);
    proof {
        lemma_bar_rows_match(t, s, levels.full_bars, FULL_BAR_CODE, frame@, r3);
        lemma_paint_pattern(f2, frame@, t, s, done2, r3, bar_paint(levels.full_bars, r3));
    }
    let ghost done3 = with_rect(done2, r3);
    let ghost f3 = frame@;
    let r4 = dims.main_bar_row();
    fill_bars(&mut frame, r4, &levels.main_bars);
    proof {
        lemma_bar_rows_match(t, s, levels.main_bars, main_bar_code(t), frame@, r4);
        lemma_paint_pattern(f3, frame@, t, s, done3, r4, bar_paint(levels.main_bars, r4));
    }
    let ghost done4 = with_rect(done3, r4);

    // ITU-R BT.2111-2 Fig. 1/Fig. 2: stair row from -7% to 109%.
    let ghost f4 = frame@;
    let r5 = dims.left_stair_cap();
    frame.fill_rect(r5, ycbcr_from_rgb(levels.main_bars[0]));
    proof {
        lemma_stair_caps_match(t, s, levels, frame@, r5);
        lemma_paint_pattern(f4, frame@, t, s, done4, r5, solid(ycbcr_spec(levels.main_bars[0])));
    }
    let ghost done5 = with_rect(done4, r5);
    let ghost f5 = frame@;
    let r6 = dims.right_stair_cap();
    frame.fill_rect(r6, ycbcr_from_rgb(levels.main_bars[0]));
    proof {
        lemma_stair_caps_match(t, s, levels, frame@, r6);
        lemma_paint_pattern(f5, frame@, t, s, done5, r6, solid(ycbcr_spec(levels.main_bars[0])));
    }
    let ghost done6 = with_rect(done5, r6);
    let ghost f6 = frame@;
    let r7 = dims.stair_row();
    fill_steps(&mut frame, r7, &levels.steps);
    proof {
        lemma_stair_matches(t, s, levels, frame@, r7);
        lemma_paint_pattern(f6, frame@, t, s, done6, r7, step_paint(levels.steps, r7));
    }
    let ghost done7 = with_rect(done6, r7);

    // ITU-R BT.2111-2 Fig. 5/Table 5: narrow-range ramp.
    let ghost f7 = frame@;
    let ghost r8 = Rect { x: 0, y: dims.ramp_y, w: dims.width, h: dims.row_h };
    fill_ramp(&mut frame, &dims, &levels);
    proof {
        lemma_ramp_matches(t, s, levels, frame@, r8);
        lemma_paint_pattern(f7, frame@, t, s, done7, r8, ramp_paint(levels.black_0, 240 * s, s));
    }
    let ghost done8 = with_rect(done7, r8);

    // ITU-R BT.2111-2 Fig. 1/Fig. 2: bottom BT.709 reference bars and PLUGE.
    let ghost f8 = frame@;
    let ghost r9 = Rect { x: 0, y: dims.bottom_y, w: dims.width, h: dims.bottom_h };
    fill_bottom(&mut frame, &dims, &levels);
    proof {
        lemma_bottom_matches(t, s, levels, frame@, r9);
        lemma_paint_pattern(f8, frame@, t, s, done8, r9, bottom_paint(levels, s));
        let done9 = with_rect(done8, r9);
        assert forall|x: int, y: int| frame@.in_luma(x, y) implies #[trigger] done9(x, y) by {}
        assert forall|c: int, r: int| frame@.in_chroma(c, r) implies #[trigger] done9(
            2 * c + 1,
            2 * r + 1,
        ) by {}
        assert(shows_pattern(frame@, t, s));
        lemma_pattern_frame_unique(frame@, t);
    }
    Ok(frame)
}

} // verus!
