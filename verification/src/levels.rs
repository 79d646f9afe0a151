//! The signal levels of the BT.2111 pattern for each transfer function
//! (Rec. ITU-R BT.2111-2, Tables 2 to 5).
use crate::color::{grey, grey_spec, RgbCode, Ycbcr, LIMITED_BLACK, LIMITED_WHITE};
use vstd::prelude::*;

verus! {

/// The HDR transfer function the pattern is built for.
#[derive(Clone, Copy, Debug, PartialEq, Eq, Structural)]
pub enum Transfer {
    Pq,
    Hlg,
}

/// 100% bars: nominal peak white.
pub const FULL_BAR_CODE: u16 = LIMITED_WHITE;

/// 75% HLG bars.
pub const HLG_MAIN_BAR_CODE: u16 = 721;

/// 58% PQ bars (203 cd/m2 reference white).
pub const PQ_MAIN_BAR_CODE: u16 = 572;

/// 40% grey of the side fields.
pub const GREY_40_CODE: u16 = 414;

/// Lowest code of the ramp and the stair (-7%).
pub const RAMP_MIN_CODE: u16 = 4;

/// Highest code of the ramp and the stair (109%).
pub const RAMP_MAX_CODE: u16 = 1019;

/// PLUGE bar 2% below black.
pub const PLUGE_MINUS_2_CODE: u16 = 46;

/// PLUGE bar 2% above black.
pub const PLUGE_PLUS_2_CODE: u16 = 82;

/// PLUGE bar 4% above black.
pub const PLUGE_PLUS_4_CODE: u16 = 99;

/// Code of the reduced-level colour bars for `t`.
pub open spec fn main_bar_code(t: Transfer) -> u16 {
    match t {
        Transfer::Hlg => HLG_MAIN_BAR_CODE,
        Transfer::Pq => PQ_MAIN_BAR_CODE,
    }
}

/// The `index`-th of the seven colour bars (white, yellow, cyan, green,
/// magenta, red, blue) at level `high`.
pub open spec fn bar_rgb(high: u16, index: int) -> RgbCode {
    let lo = LIMITED_BLACK;
    if index == 0 {
        RgbCode { r: high, g: high, b: high }
    } else if index == 1 {
        RgbCode { r: high, g: high, b: lo }
    } else if index == 2 {
        RgbCode { r: lo, g: high, b: high }
    } else if index == 3 {
        RgbCode { r: lo, g: high, b: lo }
    } else if index == 4 {
        RgbCode { r: high, g: lo, b: high }
    } else if index == 5 {
        RgbCode { r: high, g: lo, b: lo }
    } else {
        RgbCode { r: lo, g: lo, b: high }
    }
}

/// Code of the `index`-th step of the 13-step stair, from -7% to 109%.
pub open spec fn stair_code(index: int) -> u16 {
    if index == 0 {
        RAMP_MIN_CODE
    } else if index == 1 {
        LIMITED_BLACK
    } else if index == 2 {
        152
    } else if index == 3 {
        239
    } else if index == 4 {
        327
    } else if index == 5 {
        GREY_40_CODE
    } else if index == 6 {
        502
    } else if index == 7 {
        590
    } else if index == 8 {
        677
    } else if index == 9 {
        765
    } else if index == 10 {
        852
    } else if index == 11 {
        LIMITED_WHITE
    } else {
        RAMP_MAX_CODE
    }
}

/// The `index`-th BT.709 reference patch at the bottom left, as final 10-bit
/// BT.2020 Y'CbCr.
pub open spec fn bt709_left_patch(t: Transfer, index: int) -> Ycbcr {
    match t {
        Transfer::Hlg => if index == 0 {
            Ycbcr { y: 694, cb: 307, cr: 526 }
        } else if index == 1 {
            Ycbcr { y: 664, cb: 541, cr: 424 }
        } else {
            Ycbcr { y: 631, cb: 330, cr: 429 }
        },
        Transfer::Pq => if index == 0 {
            Ycbcr { y: 559, cb: 415, cr: 518 }
        } else if index == 1 {
            Ycbcr { y: 544, cb: 526, cr: 470 }
        } else {
            Ycbcr { y: 529, cb: 424, cr: 474 }
        },
    }
}

/// The `index`-th BT.709 reference patch at the bottom right, as final 10-bit
/// BT.2020 Y'CbCr.
pub open spec fn bt709_right_patch(t: Transfer, index: int) -> Ycbcr {
    match t {
        Transfer::Hlg => if index == 0 {
            Ycbcr { y: 406, cb: 674, cr: 681 }
        } else if index == 1 {
            Ycbcr { y: 360, cb: 405, cr: 705 }
        } else {
            Ycbcr { y: 201, cb: 784, cr: 530 }
        },
        Transfer::Pq => if index == 0 {
            Ycbcr { y: 419, cb: 591, cr: 593 }
        } else if index == 1 {
            Ycbcr { y: 392, cb: 438, cr: 608 }
        } else {
            Ycbcr { y: 277, cb: 667, cr: 540 }
        },
    }
}

/// The seven colour bars at level `high`.
pub fn bars(high: u16) -> (r: [RgbCode; 7])
    ensures
        forall|i: int| 0 <= i < 7 ==> #[trigger] r[i] == bar_rgb(high, i),
{
    [
        RgbCode { r: high, g: high, b: high },
        RgbCode { r: high, g: high, b: LIMITED_BLACK },
        RgbCode { r: LIMITED_BLACK, g: high, b: high },
        RgbCode { r: LIMITED_BLACK, g: high, b: LIMITED_BLACK },
        RgbCode { r: high, g: LIMITED_BLACK, b: high },
        RgbCode { r: high, g: LIMITED_BLACK, b: LIMITED_BLACK },
        RgbCode { r: LIMITED_BLACK, g: LIMITED_BLACK, b: high },
    ]
}

/// The codes of the 13 stair steps.
pub fn stair_codes() -> (r: [u16; 13])
    ensures
        forall|i: int| 0 <= i < 13 ==> #[trigger] r[i] == stair_code(i),
{
    [
        RAMP_MIN_CODE,
        LIMITED_BLACK,
        152,
        239,
        327,
        GREY_40_CODE,
        502,
        590,
        677,
        765,
        852,
        LIMITED_WHITE,
        RAMP_MAX_CODE,
    ]
}

/// The achromatic colour of each code of `values`.
pub fn grey_steps(values: [u16; 13]) -> (r: [RgbCode; 13])
    ensures
        forall|i: int| 0 <= i < 13 ==> #[trigger] r[i] == grey_spec(values[i]),
{
    let mut steps = [grey(values[0]); 13];
    let mut i: usize = 1;
    while i < 13
        invariant
            1 <= i <= 13,
            forall|j: int| 0 <= j < i ==> #[trigger] steps[j] == grey_spec(values[j]),
        decreases 13 - i,
    {
        steps[i] = grey(values[i]);
        i = i + 1;
    }
    steps
}

/// The three BT.709 reference patches at the bottom left for `t`.
fn bt709_left(t: Transfer) -> (r: [Ycbcr; 3])
    ensures
        forall|i: int| 0 <= i < 3 ==> #[trigger] r[i] == bt709_left_patch(t, i),
{
    match t {
        Transfer::Hlg => [
            Ycbcr { y: 694, cb: 307, cr: 526 },
            Ycbcr { y: 664, cb: 541, cr: 424 },
            Ycbcr { y: 631, cb: 330, cr: 429 },
        ],
        Transfer::Pq => [
            Ycbcr { y: 559, cb: 415, cr: 518 },
            Ycbcr { y: 544, cb: 526, cr: 470 },
            Ycbcr { y: 529, cb: 424, cr: 474 },
        ],
    }
}

/// The three BT.709 reference patches at the bottom right for `t`.
fn bt709_right(t: Transfer) -> (r: [Ycbcr; 3])
    ensures
        forall|i: int| 0 <= i < 3 ==> #[trigger] r[i] == bt709_right_patch(t, i),
{
    match t {
        Transfer::Hlg => [
            Ycbcr { y: 406, cb: 674, cr: 681 },
            Ycbcr { y: 360, cb: 405, cr: 705 },
            Ycbcr { y: 201, cb: 784, cr: 530 },
        ],
        Transfer::Pq => [
            Ycbcr { y: 419, cb: 591, cr: 593 },
            Ycbcr { y: 392, cb: 438, cr: 608 },
            Ycbcr { y: 277, cb: 667, cr: 540 },
        ],
    }
}

/// Every signal level the pattern uses for one transfer function.
pub struct Levels {
    pub full_bars: [RgbCode; 7],
    pub main_bars: [RgbCode; 7],
    pub grey_40: RgbCode,
    pub steps: [RgbCode; 13],
    pub bt709_left: [Ycbcr; 3],
    pub bt709_right: [Ycbcr; 3],
    pub black_0: RgbCode,
    pub black_minus_2: RgbCode,
    pub black_plus_2: RgbCode,
    pub black_plus_4: RgbCode,
}

impl Levels {
    /// The levels hold the values of the BT.2111 tables for `t`.
    pub open spec fn for_transfer_spec(self, t: Transfer) -> bool {
        &&& forall|i: int| 0 <= i < 7 ==> #[trigger] self.full_bars[i] == bar_rgb(FULL_BAR_CODE, i)
        &&& forall|i: int|
            0 <= i < 7 ==> #[trigger] self.main_bars[i] == bar_rgb(main_bar_code(t), i)
        &&& self.grey_40 == grey_spec(GREY_40_CODE)
        &&& forall|i: int| 0 <= i < 13 ==> #[trigger] self.steps[i] == grey_spec(stair_code(i))
        &&& forall|i: int| 0 <= i < 3 ==> #[trigger] self.bt709_left[i] == bt709_left_patch(t, i)
        &&& forall|i: int|
            0 <= i < 3 ==> #[trigger] self.bt709_right[i] == bt709_right_patch(t, i)
        &&& self.black_0 == grey_spec(LIMITED_BLACK)
        &&& self.black_minus_2 == grey_spec(PLUGE_MINUS_2_CODE)
        &&& self.black_plus_2 == grey_spec(PLUGE_PLUS_2_CODE)
        &&& self.black_plus_4 == grey_spec(PLUGE_PLUS_4_CODE)
    }

    /// The levels of the pattern for `transfer`.
    pub fn for_transfer(transfer: Transfer) -> (r: Levels)
        ensures
            r.for_transfer_spec(transfer),
    {
        let main = match transfer {
            Transfer::Hlg => HLG_MAIN_BAR_CODE,
            Transfer::Pq => PQ_MAIN_BAR_CODE,
        };
        let steps = grey_steps(stair_codes());
        Levels {
            full_bars: bars(FULL_BAR_CODE),
            main_bars: bars(main),
            grey_40: grey(GREY_40_CODE),
            steps,
            bt709_left: bt709_left(transfer),
            bt709_right: bt709_right(transfer),
            black_0: grey(LIMITED_BLACK),
            black_minus_2: grey(PLUGE_MINUS_2_CODE),
            black_plus_2: grey(PLUGE_PLUS_2_CODE),
            black_plus_4: grey(PLUGE_PLUS_4_CODE),
        }
    }
}

} // verus!
