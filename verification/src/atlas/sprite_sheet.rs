//! Sprite sheet grid addressing.
//!
//! A sprite sheet is one packed image treated as a row-major grid of
//! equally sized frames; a frame index resolves to the UV rectangle of its
//! cell.  Out-of-range indices are explicit errors.

use vstd::prelude::*;
use crate::atlas::UvRect;
use crate::atlas::frame_set::FrameAddressingError;

verus! {

/// A larger UV rect split into a row-major grid of equally sized frames,
/// used for animations or tilesets.
#[derive(Clone, Copy, Debug, PartialEq, Eq, Structural)]
pub struct SpriteSheet {
    /// The sprite sheet as a whole UV rect.
    pub whole: UvRect,
    /// Number of columns in the sprite sheet.
    pub columns: usize,
    /// Number of rows in the sprite sheet.
    pub rows: usize,
    /// Width of frames in pixels.
    pub frame_w: u16,
    /// Height of frames in pixels.
    pub frame_h: u16,
}

/// The UV rectangle of frame `i` of a sheet: frames are ordered like
/// (english) words, left to right, then top to bottom.
pub open spec fn sheet_uv(s: SpriteSheet, i: int) -> UvRect {
    let col = i % (s.columns as int);
    let row = i / (s.columns as int);
    UvRect {
        left: (s.whole.left + col * s.frame_w) as u16,
        top: (s.whole.top + row * s.frame_h) as u16,
        right: (s.whole.left + col * s.frame_w + s.frame_w) as u16,
        bottom: (s.whole.top + row * s.frame_h + s.frame_h) as u16,
        atlas_w: s.whole.atlas_w,
        atlas_h: s.whole.atlas_h,
    }
}

impl SpriteSheet {
    /// The grid is non-degenerate and fits inside the whole rectangle.
    pub open spec fn wf(self) -> bool {
        &&& self.whole.wf()
        &&& 0 < self.columns
        &&& 0 < self.rows
        &&& 0 < self.frame_w
        &&& 0 < self.frame_h
        &&& self.columns * self.frame_w <= self.whole.right - self.whole.left
        &&& self.rows * self.frame_h <= self.whole.bottom - self.whole.top
    }

    pub fn new(whole: UvRect, columns: usize, rows: usize, frame_w: u16, frame_h: u16) -> (r:
        SpriteSheet)
        requires
            whole.wf(),
            0 < columns,
            0 < rows,
            0 < frame_w,
            0 < frame_h,
            columns * frame_w <= whole.right - whole.left,
            rows * frame_h <= whole.bottom - whole.top,
        ensures
            r == (SpriteSheet { whole, columns, rows, frame_w, frame_h }),
            r.wf(),
    {
        SpriteSheet { whole, columns, rows, frame_w, frame_h }
    }

    /// The UV rect of a given frame number.  A frame number outside the
    /// grid is an explicit error.
    pub fn uv_rect(&self, frame_num: usize) -> (r: Result<UvRect, FrameAddressingError>)
        requires
            self.wf(),
        ensures
            r is Ok <==> frame_num < self.columns * self.rows,
            r is Err ==> r == Err::<UvRect, FrameAddressingError>(
                FrameAddressingError::FrameOutOfRange,
            ),
            r matches Ok(uv) ==> uv == sheet_uv(*self, frame_num as int) && uv.wf(),
    {
        proof {
            lemma_grid_bounds(self.columns as int, self.frame_w as int,
                (self.whole.right - self.whole.left) as int);
            lemma_grid_bounds(self.rows as int, self.frame_h as int,
                (self.whole.bottom - self.whole.top) as int);
            assert(self.columns as int * self.rows as int <= 0xffff * 0xffff)
                by (nonlinear_arith)
                requires
                    0 < self.columns <= 0xffff,
                    0 < self.rows <= 0xffff,
            ;
        }
        let total: u64 = (self.columns as u64) * (self.rows as u64);
        if (frame_num as u64) >= total {
            return Err(FrameAddressingError::FrameOutOfRange);
        }
        let col: usize = frame_num % self.columns;
        let row: usize = frame_num / self.columns;
        proof {
            vstd::arithmetic::div_mod::lemma_mod_division_less_than_divisor(
                frame_num as int,
                self.columns as int,
            );
            lemma_row_in_range(frame_num as int, self.columns as int, self.rows as int);
            assert((col as int) * self.frame_w + self.frame_w <= (self.columns as int)
                * self.frame_w && (row as int) * self.frame_h + self.frame_h <= (self.rows
                as int) * self.frame_h) by (nonlinear_arith)
                requires
                    0 <= col as int <= self.columns as int - 1,
                    0 <= row as int <= self.rows as int - 1,
                    0 < self.frame_w,
                    0 < self.frame_h,
            ;
        }
        let left: u64 = self.whole.left as u64 + (col as u64) * (self.frame_w as u64);
        let top: u64 = self.whole.top as u64 + (row as u64) * (self.frame_h as u64);
        Ok(UvRect {
            left: left as u16,
            top: top as u16,
            right: left as u16 + self.frame_w,
            bottom: top as u16 + self.frame_h,
            atlas_w: self.whole.atlas_w,
            atlas_h: self.whole.atlas_h,
        })
    }
}

/// A non-degenerate grid has at most as many cells per axis as pixels in
/// the span it subdivides.
proof fn lemma_grid_bounds(n: int, cell: int, span: int)
    requires
        0 < n,
        0 < cell,
        n * cell <= span,
    ensures
        n <= span,
{
    assert(n <= n * cell) by (nonlinear_arith)
        requires
            0 < n,
            0 < cell,
    ;
}

/// The row of an index inside an `n` by `r` row-major grid is below `r`.
proof fn lemma_row_in_range(i: int, n: int, r: int)
    requires
        0 < n,
        0 <= i,
        i < n * r,
    ensures
        i / n < r,
{
    vstd::arithmetic::div_mod::lemma_fundamental_div_mod(i, n);
    vstd::arithmetic::div_mod::lemma_mod_division_less_than_divisor(i, n);
    vstd::arithmetic::div_mod::lemma_div_pos_is_pos(i, n);
    if i / n >= r {
        assert(n * (i / n) >= n * r) by (nonlinear_arith)
            requires
                0 < n,
                i / n >= r,
        ;
    }
}

} // verus!
