//! Planar 10-bit 4:2:0 frames: allocation, rectangle fills, pixel reads and
//! the Y4M frame record.
use crate::color::{Ycbcr, CHROMA_NEUTRAL, LIMITED_BLACK};
use vstd::prelude::*;

verus! {

/// An axis-aligned rectangle of luma samples: columns `x..x + w`, rows `y..y + h`.
#[derive(Clone, Copy)]
pub struct Rect {
    pub x: usize,
    pub y: usize,
    pub w: usize,
    pub h: usize,
}

impl Rect {
    /// The luma sample `(px, py)` lies inside the rectangle.
    pub open spec fn contains(self, px: int, py: int) -> bool {
        &&& self.x <= px < self.x + self.w
        &&& self.y <= py < self.y + self.h
    }
}

/// The mathematical content of a frame: its dimensions and its three planes in
/// row-major order. The chroma planes are subsampled by two in both
/// directions.
pub struct FrameView {
    pub width: nat,
    pub height: nat,
    pub luma: Seq<u16>,
    pub cb: Seq<u16>,
    pub cr: Seq<u16>,
}

impl FrameView {
    /// Width of the chroma planes.
    pub open spec fn chroma_width(self) -> nat {
        self.width / 2
    }

    /// Height of the chroma planes.
    pub open spec fn chroma_height(self) -> nat {
        self.height / 2
    }

    /// The planes have the lengths that the dimensions call for.
    pub open spec fn wf(self) -> bool {
        &&& self.luma.len() == self.width * self.height
        &&& self.cb.len() == self.chroma_width() * self.chroma_height()
        &&& self.cr.len() == self.chroma_width() * self.chroma_height()
    }

    /// `(x, y)` is a luma sample position of the frame.
    pub open spec fn in_luma(self, x: int, y: int) -> bool {
        0 <= x < self.width && 0 <= y < self.height
    }

    /// `(c, r)` is a chroma sample position of the frame.
    pub open spec fn in_chroma(self, c: int, r: int) -> bool {
        0 <= c < self.chroma_width() && 0 <= r < self.chroma_height()
    }

    /// Luma sample at column `x`, row `y`.
    pub open spec fn luma_at(self, x: int, y: int) -> u16 {
        self.luma[y * self.width + x]
    }

    /// The Y'CbCr triple at luma sample `(x, y)`: its luma sample and the
    /// chroma samples of the 2x2 block that holds it.
    pub open spec fn pixel_at(self, x: int, y: int) -> Ycbcr {
        Ycbcr { y: self.luma_at(x, y), cb: self.cb_at(x / 2, y / 2), cr: self.cr_at(x / 2, y / 2) }
    }

    /// Cb sample at chroma column `c`, chroma row `r`.
    pub open spec fn cb_at(self, c: int, r: int) -> u16 {
        self.cb[r * self.chroma_width() + c]
    }

    /// Cr sample at chroma column `c`, chroma row `r`.
    pub open spec fn cr_at(self, c: int, r: int) -> u16 {
        self.cr[r * self.chroma_width() + c]
    }
}

/// `new` is `old` with every luma sample inside `rect` set to `paint(x, y).y`
/// and every chroma sample whose bottom-right luma sample `(2c + 1, 2r + 1)`
/// lies inside `rect` set to the chroma of `paint` there; all other samples
/// are unchanged.
pub open spec fn repainted(
    old: FrameView,
    new: FrameView,
    rect: Rect,
    paint: spec_fn(int, int) -> Ycbcr,
) -> bool {
    &&& new.width == old.width
    &&& new.height == old.height
    &&& new.wf()
    &&& forall|x: int, y: int|
        new.in_luma(x, y) ==> #[trigger] new.luma_at(x, y) == if rect.contains(x, y) {
            paint(x, y).y
        } else {
            old.luma_at(x, y)
        }
    &&& forall|c: int, r: int|
        new.in_chroma(c, r) ==> #[trigger] new.cb_at(c, r) == if rect.contains(2 * c + 1, 2 * r + 1) {
            paint(2 * c + 1, 2 * r + 1).cb
        } else {
            old.cb_at(c, r)
        }
    &&& forall|c: int, r: int|
        new.in_chroma(c, r) ==> #[trigger] new.cr_at(c, r) == if rect.contains(2 * c + 1, 2 * r + 1) {
            paint(2 * c + 1, 2 * r + 1).cr
        } else {
            old.cr_at(c, r)
        }
}

/// The paint that is `color` everywhere.
pub open spec fn solid(color: Ycbcr) -> spec_fn(int, int) -> Ycbcr {
    |x: int, y: int| color
}

/// Row-major positions of distinct in-row samples are distinct.
pub proof fn lemma_row_major_injective(w: int, x1: int, y1: int, x2: int, y2: int)
    requires
        0 <= x1 < w,
        0 <= x2 < w,
        0 <= y1,
        0 <= y2,
    ensures
        (y1 * w + x1 == y2 * w + x2) <==> (x1 == x2 && y1 == y2),
{
    if y1 < y2 {
        assert(y1 * w + x1 < y2 * w + x2) by (nonlinear_arith)
            requires
                0 <= x1 < w,
                0 <= x2,
                y1 < y2,
        ;
    } else if y2 < y1 {
        assert(y2 * w + x2 < y1 * w + x1) by (nonlinear_arith)
            requires
                0 <= x2 < w,
                0 <= x1,
                y2 < y1,
        ;
    }
}

/// A sample inside a `w` by `h` plane has a row-major position inside the plane.
pub proof fn lemma_row_major_in_bounds(w: int, h: int, x: int, y: int)
    requires
        0 <= x < w,
        0 <= y < h,
    ensures
        0 <= y * w + x < w * h,
        y * w <= w * h,
{
    assert(0 <= y * w + x < w * h && y * w <= w * h) by (nonlinear_arith)
        requires
            0 <= x < w,
            0 <= y < h,
    ;
}

/// The first sample of a row of a `w` by `h` plane lies at most at `w * h`.
pub proof fn lemma_row_start_in_bounds(w: int, h: int, y: int)
    requires
        0 <= w,
        0 <= y < h,
    ensures
        0 <= y * w <= w * h,
{
    assert(0 <= y * w <= w * h) by (nonlinear_arith)
        requires
            0 <= w,
            0 <= y < h,
    ;
}

/// Little-endian byte serialisation of a plane: two bytes per sample,
/// low byte first.
pub open spec fn plane_bytes(plane: Seq<u16>) -> Seq<u8> {
    Seq::new(
        2 * plane.len(),
        |i: int|
            if i % 2 == 0 {
                (plane[i / 2] % 256) as u8
            } else {
                (plane[i / 2] / 256) as u8
            },
    )
}

/// The Y4M frame marker `FRAME\n`.
pub open spec fn frame_marker() -> Seq<u8> {
    seq![70u8, 82u8, 65u8, 77u8, 69u8, 10u8]
}

/// A Y4M frame record: the marker followed by the Y, Cb and Cr planes.
pub open spec fn frame_record(f: FrameView) -> Seq<u8> {
    frame_marker() + plane_bytes(f.luma) + plane_bytes(f.cb) + plane_bytes(f.cr)
}

/// Appends the little-endian bytes of every sample of `plane` to `out`.
pub fn write_plane(out: &mut Vec<u8>, plane: &[u16])
    ensures
        final(out)@ == old(out)@ + plane_bytes(plane@),
{
    let ghost start = out@;
    let mut i: usize = 0;
    while i < plane.len()
        invariant
            start == old(out)@,
            i <= plane@.len(),
            out@ == start + plane_bytes(plane@.take(i as int)),
        decreases plane@.len() - i,
    {
        let value = plane[i];
        out.push((value % 256) as u8);
        out.push((value / 256) as u8);
        proof {
            assert(plane_bytes(plane@.take(i + 1)) =~= plane_bytes(plane@.take(i as int)).push(
                (value % 256) as u8,
            ).push((value / 256) as u8));
        }
        i = i + 1;
    }
    proof {
        assert(plane@.take(i as int) =~= plane@);
    }
}

/// A planar 10-bit 4:2:0 frame.
#[derive(Clone)]
pub struct Frame {
    width: usize,
    height: usize,
    y: Vec<u16>,
    u: Vec<u16>,
    v: Vec<u16>,
}

impl View for Frame {
    type V = FrameView;

    closed spec fn view(&self) -> FrameView {
        FrameView {
            width: self.width as nat,
            height: self.height as nat,
            luma: self.y@,
            cb: self.u@,
            cr: self.v@,
        }
    }
}

impl Frame {
    /// The dimensions of a frame are machine integers.
    pub proof fn lemma_dims_fit(&self)
        ensures
            self@.width <= usize::MAX,
            self@.height <= usize::MAX,
    {
    }

    /// A `width` by `height` frame of narrow-range black.
    pub fn new(width: usize, height: usize) -> (r: Frame)
        requires
            width * height <= usize::MAX,
        ensures
            r@.width == width,
            r@.height == height,
            r@.wf(),
            forall|i: int| 0 <= i < r@.luma.len() ==> r@.luma[i] == LIMITED_BLACK,
            forall|i: int| 0 <= i < r@.cb.len() ==> r@.cb[i] == CHROMA_NEUTRAL,
            forall|i: int| 0 <= i < r@.cr.len() ==> r@.cr[i] == CHROMA_NEUTRAL,
    {
        let luma = width * height;
        proof {
            assert((width / 2) * (height / 2) <= width * height) by (nonlinear_arith);
        }
        let chroma = (width / 2) * (height / 2);
        Frame {
            width,
            height,
            y: vec![LIMITED_BLACK; luma],
            u: vec![CHROMA_NEUTRAL; chroma],
            v: vec![CHROMA_NEUTRAL; chroma],
        }
    }

    /// The Y'CbCr triple at luma column `x`, row `y`: the luma sample at
    /// row-major position `y * width + x` and the chroma samples at
    /// `(y / 2) * (width / 2) + x / 2`.
    pub fn pixel(&self, x: usize, y: usize) -> (r: Ycbcr)
        requires
            y * self@.width + x < self@.luma.len(),
            (y / 2) * self@.chroma_width() + x / 2 < self@.cb.len(),
            (y / 2) * self@.chroma_width() + x / 2 < self@.cr.len(),
        ensures
            r.y == self@.luma[y * self@.width + x],
            r.cb == self@.cb[(y / 2) * self@.chroma_width() + x / 2],
            r.cr == self@.cr[(y / 2) * self@.chroma_width() + x / 2],
            self@.in_luma(x as int, y as int) ==> r == self@.pixel_at(x as int, y as int),
    {
        // Reading the lengths bounds the plane sizes by `usize::MAX`.
        let _luma_len = self.y.len();
        let _chroma_len = self.u.len();
        let chroma_index = (y / 2) * (self.width / 2) + (x / 2);
        Ycbcr { y: self.y[y * self.width + x], cb: self.u[chroma_index], cr: self.v[chroma_index] }
    }

    /// Paints every sample of `rect` with `color` (chroma samples follow the
    /// luma sample at their bottom-right corner).
    pub fn fill_rect(&mut self, rect: Rect, color: Ycbcr)
        requires
            old(self)@.wf(),
            rect.x + rect.w <= old(self)@.width,
            rect.y + rect.h <= old(self)@.height,
        ensures
            repainted(old(self)@, final(self)@, rect, solid(color)),
    {
        let ghost pre = self@;
        let width = self.width;
        // Reading the lengths bounds the plane sizes by `usize::MAX`.
        let _luma_len = self.y.len();
        let _cb_len = self.u.len();
        let _cr_len = self.v.len();
        let mut yy = rect.y;
        while yy < rect.y + rect.h
            invariant
                pre == old(self)@,
                pre.wf(),
                width == pre.width,
                rect.x + rect.w <= pre.width,
                rect.y + rect.h <= pre.height,
                rect.y <= yy <= rect.y + rect.h,
                self.width == width,
                self.height == pre.height,
                self.y@.len() == pre.luma.len(),
                pre.luma.len() <= usize::MAX,
                pre.cb.len() <= usize::MAX,
                self.u@ == pre.cb,
                self.v@ == pre.cr,
                forall|x: int, y: int|
                    #![trigger self@.luma_at(x, y)]
                    self@.in_luma(x, y) ==> self@.luma_at(x, y) == if rect.x <= x < rect.x + rect.w
                        && rect.y <= y < yy {
                        color.y
                    } else {
                        pre.luma_at(x, y)
                    },
            decreases rect.y + rect.h - yy,
        {
            proof {
                lemma_row_start_in_bounds(width as int, pre.height as int, yy as int);
            }
            let row = yy * width;
            let mut xx = rect.x;
            while xx < rect.x + rect.w
                invariant
                    pre.wf(),
                    width == pre.width,
                    rect.x + rect.w <= pre.width,
                    rect.y + rect.h <= pre.height,
                    rect.y <= yy < rect.y + rect.h,
                    rect.x <= xx <= rect.x + rect.w,
                    row == yy * width,
                    self.width == width,
                    self.height == pre.height,
                    self.y@.len() == pre.luma.len(),
                    pre.luma.len() <= usize::MAX,
                    pre.cb.len() <= usize::MAX,
                    self.u@ == pre.cb,
                    self.v@ == pre.cr,
                    forall|x: int, y: int|
                        #![trigger self@.luma_at(x, y)]
                        self@.in_luma(x, y) ==> self@.luma_at(x, y) == if (rect.x <= x < rect.x
                            + rect.w && rect.y <= y < yy) || (y == yy && rect.x <= x < xx) {
                            color.y
                        } else {
                            pre.luma_at(x, y)
                        },
                decreases rect.x + rect.w - xx,
            {
                proof {
                    lemma_row_major_in_bounds(
                        width as int,
                        pre.height as int,
                        xx as int,
                        yy as int,
                    );
                }
                let ghost before = self@;
                self.y.set(row + xx, color.y);
                proof {
                    assert forall|x: int, y: int| #[trigger]
                        self@.in_luma(x, y) implies self@.luma_at(x, y) == if (rect.x <= x < rect.x
                        + rect.w && rect.y <= y < yy) || (y == yy && rect.x <= x < xx + 1) {
                        color.y
                    } else {
                        pre.luma_at(x, y)
                    } by {
                        lemma_row_major_injective(
                            width as int,
                            x,
                            y,
                            xx as int,
                            yy as int,
                        );
                        lemma_row_major_in_bounds(width as int, pre.height as int, x, y);
                        assert(before.luma_at(x, y) == before.luma[y * width + x]);
                    }
                }
                xx = xx + 1;
            }
            yy = yy + 1;
        }
        let chroma_width = width / 2;
        let x0 = rect.x / 2;
        let y0 = rect.y / 2;
        let x1 = (rect.x + rect.w) / 2;
        let y1 = (rect.y + rect.h) / 2;
        let mut cy = y0;
        while cy < y1
            invariant
                pre == old(self)@,
                pre.wf(),
                width == pre.width,
                chroma_width == pre.chroma_width(),
                x0 <= x1 <= chroma_width,
                y0 <= cy <= y1 <= pre.chroma_height(),
                self.width == width,
                self.height == pre.height,
                self.y@.len() == pre.luma.len(),
                pre.luma.len() <= usize::MAX,
                pre.cb.len() <= usize::MAX,
                self.u@.len() == pre.cb.len(),
                self.v@.len() == pre.cr.len(),
                forall|x: int, y: int|
                    #![trigger self@.luma_at(x, y)]
                    self@.in_luma(x, y) ==> self@.luma_at(x, y) == if rect.contains(x, y) {
                        color.y
                    } else {
                        pre.luma_at(x, y)
                    },
                forall|c: int, r: int|
                    #![trigger self@.cb_at(c, r)]
                    self@.in_chroma(c, r) ==> self@.cb_at(c, r) == if x0 <= c < x1 && y0 <= r
                        < cy {
                        color.cb
                    } else {
                        pre.cb_at(c, r)
                    },
                forall|c: int, r: int|
                    #![trigger self@.cr_at(c, r)]
                    self@.in_chroma(c, r) ==> self@.cr_at(c, r) == if x0 <= c < x1 && y0 <= r
                        < cy {
                        color.cr
                    } else {
                        pre.cr_at(c, r)
                    },
            decreases y1 - cy,
        {
            proof {
                lemma_row_start_in_bounds(
                    chroma_width as int,
                    pre.chroma_height() as int,
                    cy as int,
                );
            }
            let row = cy * chroma_width;
            let mut cx = x0;
            while cx < x1
                invariant
                    pre.wf(),
                    chroma_width == pre.chroma_width(),
                    x0 <= cx <= x1 <= chroma_width,
                    y0 <= cy < y1,
                    y1 <= pre.chroma_height(),
                    row == cy * chroma_width,
                    self.width == width,
                    width == pre.width,
                    self.height == pre.height,
                    self.y@.len() == pre.luma.len(),
                    pre.luma.len() <= usize::MAX,
                    pre.cb.len() <= usize::MAX,
                    self.u@.len() == pre.cb.len(),
                    self.v@.len() == pre.cr.len(),
                    forall|x: int, y: int|
                        #![trigger self@.luma_at(x, y)]
                        self@.in_luma(x, y) ==> self@.luma_at(x, y) == if rect.contains(x, y) {
                            color.y
                        } else {
                            pre.luma_at(x, y)
                        },
                    forall|c: int, r: int|
                        #![trigger self@.cb_at(c, r)]
                        self@.in_chroma(c, r) ==> self@.cb_at(c, r) == if (x0 <= c < x1 && y0
                            <= r < cy) || (r == cy && x0 <= c < cx) {
                            color.cb
                        } else {
                            pre.cb_at(c, r)
                        },
                    forall|c: int, r: int|
                        #![trigger self@.cr_at(c, r)]
                        self@.in_chroma(c, r) ==> self@.cr_at(c, r) == if (x0 <= c < x1 && y0
                            <= r < cy) || (r == cy && x0 <= c < cx) {
                            color.cr
                        } else {
                            pre.cr_at(c, r)
                        },
                decreases x1 - cx,
            {
                proof {
                    lemma_row_major_in_bounds(
                        chroma_width as int,
                        pre.chroma_height() as int,
                        cx as int,
                        cy as int,
                    );
                }
                let ghost before = self@;
                self.u.set(row + cx, color.cb);
                self.v.set(row + cx, color.cr);
                proof {
                    assert forall|c: int, r: int| #[trigger]
                        self@.in_chroma(c, r) implies self@.cb_at(c, r) == if (x0 <= c < x1 && y0
                        <= r < cy) || (r == cy && x0 <= c < cx + 1) {
                        color.cb
                    } else {
                        pre.cb_at(c, r)
                    } && self@.cr_at(c, r) == if (x0 <= c < x1 && y0 <= r < cy) || (r == cy
                        && x0 <= c < cx + 1) {
                        color.cr
                    } else {
                        pre.cr_at(c, r)
                    } by {
                        lemma_row_major_injective(
                            chroma_width as int,
                            c,
                            r,
                            cx as int,
                            cy as int,
                        );
                        lemma_row_major_in_bounds(
                            chroma_width as int,
                            pre.chroma_height() as int,
                            c,
                            r,
                        );
                        assert(before.cb_at(c, r) == before.cb[r * chroma_width + c]);
                        assert(before.cr_at(c, r) == before.cr[r * chroma_width + c]);
                    }
                    assert forall|x: int, y: int| #[trigger]
                        self@.in_luma(x, y) implies self@.luma_at(x, y) == before.luma_at(x, y) by {}
                }
                cx = cx + 1;
            }
            cy = cy + 1;
        }
        proof {
            let paint = solid(color);
            assert forall|c: int, r: int| #[trigger]
                self@.in_chroma(c, r) implies (x0 <= c < x1 && y0 <= r < y1) == rect.contains(
                2 * c + 1,
                2 * r + 1,
            ) by {}
            assert(repainted(pre, self@, rect, paint));
        }
    }

    /// Appends the Y4M record of this frame to `out`.
    pub fn write_y4m_frame(&self, out: &mut Vec<u8>)
        ensures
            final(out)@ == old(out)@ + frame_record(self@),
    {
        out.push(70u8);
        out.push(82u8);
        out.push(65u8);
        out.push(77u8);
        out.push(69u8);
        out.push(10u8);
        let ghost marked = out@;
        write_plane(out, self.y.as_slice());
        write_plane(out, self.u.as_slice());
        write_plane(out, self.v.as_slice());
        proof {
            assert(marked =~= old(out)@ + frame_marker());
            assert(out@ =~= old(out)@ + frame_record(self@));
        }
    }
}

} // verus!
