//! Geometry of the BT.2111 pattern (Rec. ITU-R BT.2111-2, Fig. 1 and Fig. 2),
//! given in 1920x1080 units and scaled by an integer factor.
use crate::frame::Rect;
use vstd::prelude::*;

verus! {

/// Width of the native 2K raster.
pub const BASE_WIDTH: usize = 1920;

/// Height of the native 2K raster.
pub const BASE_HEIGHT: usize = 1080;

/// Width of the central field that holds the bars and the stair.
pub const CENTRAL_WIDTH_2K: usize = 1440;

/// Width of each side field.
pub const SIDE_FIELD_WIDTH_2K: usize = 240;

/// Width of the six wide colour bars.
pub const BAR_WIDE_2K: usize = 206;

/// Width of the narrow (green) colour bar.
pub const BAR_NARROW_2K: usize = 204;

/// Width of the black field right of the left BT.709 patches.
pub const BOTTOM_BLACK_LEFT_WIDTH_2K: usize = 136;

/// Width of each PLUGE bar.
pub const PLUGE_BAR_WIDTH_2K: usize = 70;

/// Width of the black gaps between PLUGE bars.
pub const PLUGE_BLACK_GAP_WIDTH_2K: usize = 68;

/// Width of the black field between the PLUGE and the white field.
pub const BOTTOM_BLACK_MIDDLE_WIDTH_2K: usize = 238;

/// Width of the bottom white field.
pub const BOTTOM_WHITE_WIDTH_2K: usize = 438;

/// Width of the black field left of the right BT.709 patches.
pub const BOTTOM_BLACK_RIGHT_WIDTH_2K: usize = 282;

/// Height of the 100% bar row.
pub const TOP_BAR_HEIGHT_2K: usize = 90;

/// Height of the reduced-level bar row.
pub const MAIN_BAR_HEIGHT_2K: usize = 540;

/// First row of the stair.
pub const STAIR_Y_2K: usize = 630;

/// First row of the ramp.
pub const RAMP_Y_2K: usize = 720;

/// First row of the bottom section.
pub const BOTTOM_Y_2K: usize = 810;

/// Height of the stair and of the ramp row.
pub const ROW_HEIGHT_2K: usize = 90;

/// Height of the bottom section.
pub const BOTTOM_HEIGHT_2K: usize = 270;

/// Offset (in 2K columns) of the start of the `k`-th colour bar within the
/// central field; `bar_start_2k(7)` is the end of the last bar.
pub open spec fn bar_start_2k(k: int) -> int {
    if k <= 0 {
        0
    } else if k <= 3 {
        206 * k
    } else {
        206 * k - 2
    }
}

/// The colour bar that covers offset `off` of the central field.
pub open spec fn bar_index_2k(off: int) -> int {
    if off < 206 {
        0
    } else if off < 412 {
        1
    } else if off < 618 {
        2
    } else if off < 822 {
        3
    } else if off < 1028 {
        4
    } else if off < 1234 {
        5
    } else {
        6
    }
}

/// Width in 2K columns of the `k`-th stair step.
pub open spec fn stair_width_2k(k: int) -> int {
    if k == 0 {
        206
    } else if k == 5 || k == 6 {
        102
    } else {
        103
    }
}

/// Offset (in 2K columns) of the start of the `k`-th stair step within the
/// central field; `stair_start_2k(13)` is the end of the last step.
pub open spec fn stair_start_2k(k: int) -> int {
    if k <= 0 {
        0
    } else if k == 1 {
        206
    } else if k == 2 {
        309
    } else if k == 3 {
        412
    } else if k == 4 {
        515
    } else if k == 5 {
        618
    } else if k == 6 {
        720
    } else if k == 7 {
        822
    } else if k == 8 {
        925
    } else if k == 9 {
        1028
    } else if k == 10 {
        1131
    } else if k == 11 {
        1234
    } else if k == 12 {
        1337
    } else {
        1440
    }
}

/// The stair step that covers offset `off` of the central field.
pub open spec fn stair_index_2k(off: int) -> int {
    if off < 206 {
        0
    } else if off < 309 {
        1
    } else if off < 412 {
        2
    } else if off < 515 {
        3
    } else if off < 618 {
        4
    } else if off < 720 {
        5
    } else if off < 822 {
        6
    } else if off < 925 {
        7
    } else if off < 1028 {
        8
    } else if off < 1131 {
        9
    } else if off < 1234 {
        10
    } else if off < 1337 {
        11
    } else {
        12
    }
}

/// Widths of the seven colour bars in a central field `total_width` wide.
pub fn bar_widths(total_width: usize) -> (r: [usize; 7])
    ensures
        forall|k: int|
            0 <= k < 7 ==> #[trigger] r[k] == (bar_start_2k(k + 1) - bar_start_2k(k)) * (
            total_width / 1440),
{
    let scale = total_width / CENTRAL_WIDTH_2K;
    let wide = BAR_WIDE_2K * scale;
    let narrow = BAR_NARROW_2K * scale;
    [wide, wide, wide, narrow, wide, wide, wide]
}

/// Widths in 2K columns of the 13 stair steps.
pub fn stair_widths_2k() -> (r: [usize; 13])
    ensures
        forall|k: int| 0 <= k < 13 ==> #[trigger] r[k] == stair_width_2k(k),
{
    [206, 103, 103, 103, 103, 102, 102, 103, 103, 103, 103, 103, 103]
}

/// The pattern geometry at an integer multiple `scale` of 1920x1080.
pub struct Layout {
    pub scale: usize,
    pub side_field_w: usize,
    pub bottom_black_left_w: usize,
    pub pluge_bar_w: usize,
    pub pluge_black_gap_w: usize,
    pub bottom_black_middle_w: usize,
    pub bottom_white_w: usize,
    pub bottom_black_right_w: usize,
    pub bt709_patch_w: usize,
    pub top_h: usize,
    pub main_h: usize,
    pub stair_y: usize,
    pub ramp_y: usize,
    pub bottom_y: usize,
    pub row_h: usize,
    pub bottom_h: usize,
    pub width: usize,
}

impl Layout {
    /// Every dimension is its 2K value times the scale.
    pub open spec fn at_scale(self, s: int) -> bool {
        &&& self.scale == s
        &&& self.side_field_w == 240 * s
        &&& self.bottom_black_left_w == 136 * s
        &&& self.pluge_bar_w == 70 * s
        &&& self.pluge_black_gap_w == 68 * s
        &&& self.bottom_black_middle_w == 238 * s
        &&& self.bottom_white_w == 438 * s
        &&& self.bottom_black_right_w == 282 * s
        &&& self.bt709_patch_w == 80 * s
        &&& self.top_h == 90 * s
        &&& self.main_h == 540 * s
        &&& self.stair_y == 630 * s
        &&& self.ramp_y == 720 * s
        &&& self.bottom_y == 810 * s
        &&& self.row_h == 90 * s
        &&& self.bottom_h == 270 * s
        &&& self.width == 1920 * s
    }

    /// The geometry at `scale`.
    pub fn new(scale: usize) -> (r: Layout)
        requires
            1920 * scale <= usize::MAX,
        ensures
            r.at_scale(scale as int),
    {
        let side_field_w = SIDE_FIELD_WIDTH_2K * scale;
        Layout {
            scale,
            side_field_w,
            bottom_black_left_w: BOTTOM_BLACK_LEFT_WIDTH_2K * scale,
            pluge_bar_w: PLUGE_BAR_WIDTH_2K * scale,
            pluge_black_gap_w: PLUGE_BLACK_GAP_WIDTH_2K * scale,
            bottom_black_middle_w: BOTTOM_BLACK_MIDDLE_WIDTH_2K * scale,
            bottom_white_w: BOTTOM_WHITE_WIDTH_2K * scale,
            bottom_black_right_w: BOTTOM_BLACK_RIGHT_WIDTH_2K * scale,
            bt709_patch_w: side_field_w / 3,
            top_h: TOP_BAR_HEIGHT_2K * scale,
            main_h: MAIN_BAR_HEIGHT_2K * scale,
            stair_y: STAIR_Y_2K * scale,
            ramp_y: RAMP_Y_2K * scale,
            bottom_y: BOTTOM_Y_2K * scale,
            row_h: ROW_HEIGHT_2K * scale,
            bottom_h: BOTTOM_HEIGHT_2K * scale,
            width: BASE_WIDTH * scale,
        }
    }

    /// First column of the central field.
    pub fn central_x(&self) -> (r: usize)
        ensures
            r == self.side_field_w,
    {
        self.side_field_w
    }

    /// Width of the central field.
    pub fn central_w(&self) -> (r: usize)
        requires
            2 * self.side_field_w <= self.width,
        ensures
            r == self.width - 2 * self.side_field_w,
    {
        self.width - 2 * self.side_field_w
    }

    /// The left side field beside the two bar rows.
    pub fn left_side_top(&self) -> (r: Rect)
        ensures
            r == (Rect { x: 0, y: 0, w: self.side_field_w, h: self.stair_y }),
    {
        Rect { x: 0, y: 0, w: self.side_field_w, h: self.stair_y }
    }

    /// The right side field beside the two bar rows.
    pub fn right_side_top(&self) -> (r: Rect)
        requires
            self.side_field_w <= self.width,
        ensures
            r == (Rect {
                x: (self.width - self.side_field_w) as usize,
                y: 0,
                w: self.side_field_w,
                h: self.stair_y,
            }),
    {
        Rect { x: self.width - self.side_field_w, y: 0, w: self.side_field_w, h: self.stair_y }
    }

    /// The row of 100% colour bars.
    pub fn top_bar_row(&self) -> (r: Rect)
        requires
            2 * self.side_field_w <= self.width,
        ensures
            r == (Rect {
                x: self.side_field_w,
                y: 0,
                w: (self.width - 2 * self.side_field_w) as usize,
                h: self.top_h,
            }),
    {
        Rect { x: self.central_x(), y: 0, w: self.central_w(), h: self.top_h }
    }

    /// The row of reduced-level colour bars.
    pub fn main_bar_row(&self) -> (r: Rect)
        requires
            2 * self.side_field_w <= self.width,
        ensures
            r == (Rect {
                x: self.side_field_w,
                y: self.top_h,
                w: (self.width - 2 * self.side_field_w) as usize,
                h: self.main_h,
            }),
    {
        Rect { x: self.central_x(), y: self.top_h, w: self.central_w(), h: self.main_h }
    }

    /// The stair in the central field.
    pub fn stair_row(&self) -> (r: Rect)
        requires
            2 * self.side_field_w <= self.width,
        ensures
            r == (Rect {
                x: self.side_field_w,
                y: self.stair_y,
                w: (self.width - 2 * self.side_field_w) as usize,
                h: self.row_h,
            }),
    {
        Rect { x: self.central_x(), y: self.stair_y, w: self.central_w(), h: self.row_h }
    }

    /// The side field left of the stair.
    pub fn left_stair_cap(&self) -> (r: Rect)
        ensures
            r == (Rect { x: 0, y: self.stair_y, w: self.side_field_w, h: self.row_h }),
    {
        Rect { x: 0, y: self.stair_y, w: self.side_field_w, h: self.row_h }
    }

    /// The side field right of the stair.
    pub fn right_stair_cap(&self) -> (r: Rect)
        requires
            self.side_field_w <= self.width,
        ensures
            r == (Rect {
                x: (self.width - self.side_field_w) as usize,
                y: self.stair_y,
                w: self.side_field_w,
                h: self.row_h,
            }),
    {
        Rect {
            x: self.width - self.side_field_w,
            y: self.stair_y,
            w: self.side_field_w,
            h: self.row_h,
        }
    }
}

} // verus!
