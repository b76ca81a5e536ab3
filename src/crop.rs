//! Cutting the pixels of one cell out of an image.
//!
//! A cell is given by two x and two y positions, in either order. Positions
//! are clamped to the image, scaled to pixels, and the y axis is flipped:
//! positions grow upwards from the bottom edge, pixel rows grow downwards
//! from the top one.
use vstd::prelude::*;
use crate::grid::UNIT;

verus! {

/// An image as rows of RGBA pixels, top row first, four bytes a pixel.
#[derive(Clone, Debug)]
pub struct PixelBuffer {
    pub width: usize,
    pub height: usize,
    pub pixels: Vec<u8>,
}

impl PixelBuffer {
    /// The buffer holds exactly `width * height` pixels.
    pub open spec fn wf(&self) -> bool {
        self.pixels@.len() == self.width * self.height * 4
    }
}

/// `p` clamped to `0..=UNIT`.
pub open spec fn clamp_unit(p: int) -> int {
    if p < 0 {
        0
    } else if p > UNIT {
        UNIT as int
    } else {
        p
    }
}

/// The pixel index at position `c` (within `0..=UNIT`) along a side of `n`
/// pixels, rounded down.
pub open spec fn to_pixel(c: int, n: int) -> int {
    c * n / (UNIT as int)
}

/// The pixel columns `[i0, i1)` between the positions `x1` and `x2`.
pub open spec fn col_bounds(width: int, x1: int, x2: int) -> (int, int) {
    let lo = if x1 <= x2 { x1 } else { x2 };
    let hi = if x1 <= x2 { x2 } else { x1 };
    (to_pixel(clamp_unit(lo), width), to_pixel(clamp_unit(hi), width))
}

/// The pixel rows `[j0, j1)` between the positions `y1` and `y2`: the
/// higher position gives the upper, so smaller, row.
pub open spec fn row_bounds(height: int, y1: int, y2: int) -> (int, int) {
    let lo = if y1 <= y2 { y1 } else { y2 };
    let hi = if y1 <= y2 { y2 } else { y1 };
    (to_pixel(UNIT - clamp_unit(hi), height), to_pixel(UNIT - clamp_unit(lo), height))
}

/// The bytes of the pixels `[i0, i1)` of row `j`.
pub open spec fn row_bytes(pix: Seq<u8>, width: int, i0: int, i1: int, j: int) -> Seq<u8> {
    pix.subrange((j * width + i0) * 4, (j * width + i1) * 4)
}

/// The bytes of the pixels `[i0, i1) x [j0, j1)`, row after row.
pub open spec fn crop_bytes(pix: Seq<u8>, width: int, i0: int, i1: int, j0: int, j1: int) -> Seq<u8>
    decreases j1 - j0,
{
    if j1 <= j0 {
        Seq::empty()
    } else {
        crop_bytes(pix, width, i0, i1, j0, j1 - 1) + row_bytes(pix, width, i0, i1, j1 - 1)
    }
}

proof fn lemma_to_pixel_bounds(c1: int, c2: int, n: int)
    requires
        0 <= c1 <= c2 <= UNIT,
        0 <= n,
    ensures
        0 <= to_pixel(c1, n) <= to_pixel(c2, n) <= n,
{
    assert(c1 * n <= c2 * n) by (nonlinear_arith)
        requires
            0 <= c1 <= c2,
            0 <= n,
    ;
    assert(c2 * n <= UNIT * n) by (nonlinear_arith)
        requires
            c2 <= UNIT,
            0 <= n,
    ;
    assert(0 <= c1 * n) by (nonlinear_arith)
        requires
            0 <= c1,
            0 <= n,
    ;
    vstd::arithmetic::div_mod::lemma_div_is_ordered(c1 * n, c2 * n, UNIT as int);
    vstd::arithmetic::div_mod::lemma_div_is_ordered(c2 * n, UNIT * n, UNIT as int);
    vstd::arithmetic::div_mod::lemma_div_multiples_vanish(n, UNIT as int);
    vstd::arithmetic::div_mod::lemma_div_pos_is_pos(c1 * n, UNIT as int);
}

proof fn lemma_crop_len(pix: Seq<u8>, width: int, i0: int, i1: int, j0: int, j1: int)
    requires
        0 <= i0 <= i1 <= width,
        0 <= j0 <= j1,
        pix.len() >= j1 * width * 4,
    ensures
        crop_bytes(pix, width, i0, i1, j0, j1).len() == (i1 - i0) * (j1 - j0) * 4,
    decreases j1 - j0,
{
    if j1 > j0 {
        assert((j1 - 1) * width <= j1 * width) by (nonlinear_arith)
            requires
                j1 >= 1,
                width >= 0,
        ;
        lemma_crop_len(pix, width, i0, i1, j0, j1 - 1);
        assert((j1 - 1) * width + i1 <= j1 * width) by (nonlinear_arith)
            requires
                i1 <= width,
        ;
        assert(0 <= (j1 - 1) * width) by (nonlinear_arith)
            requires
                j1 >= 1,
                width >= 0,
        ;
        assert((i1 - i0) * (j1 - 1 - j0) * 4 + (i1 - i0) * 4 == (i1 - i0) * (j1 - j0) * 4)
            by (nonlinear_arith);
        assert(j1 * width * 4 == (j1 * width) * 4);
        assert(row_bytes(pix, width, i0, i1, j1 - 1).len() == (i1 - i0) * 4);
    } else {
        assert((i1 - i0) * (j1 - j0) * 4 == 0) by (nonlinear_arith)
            requires
                j1 == j0,
        ;
    }
}

/// `p` clamped to `0..=UNIT`.
pub fn clip(p: i64) -> (r: i64)
    ensures
        r == clamp_unit(p as int),
{
    if p < 0 {
        0
    } else if p > UNIT {
        UNIT
    } else {
        p
    }
}

/// The pixel index at the clamped position `c` along a side of `n` pixels.
fn scale(c: i64, n: usize) -> (r: usize)
    requires
        0 <= c <= UNIT,
    ensures
        r == to_pixel(c as int, n as int),
        r <= n,
{
    proof {
        lemma_to_pixel_bounds(c as int, c as int, n as int);
        assert((c as int) * (n as int) <= (UNIT as int) * (n as int)) by (nonlinear_arith)
            requires
                c <= UNIT,
                n >= 0,
        ;
        assert((UNIT as int) * (n as int) <= (UNIT as int) * (usize::MAX as int)) by (nonlinear_arith)
            requires
                n <= usize::MAX,
        ;
    }
    let prod: u128 = (c as u128) * (n as u128);
    (prod / (UNIT as u128)) as usize
}

/// The pixel rectangle `(i0, i1, j0, j1)` of the cell between `x1`, `x2`
/// and `y1`, `y2` on an image of `width` by `height` pixels.
pub fn pixel_bounds(width: usize, height: usize, x1: i64, x2: i64, y1: i64, y2: i64) -> (r: (
    usize,
    usize,
    usize,
    usize,
))
    ensures
        (r.0 as int, r.1 as int) == col_bounds(width as int, x1 as int, x2 as int),
        (r.2 as int, r.3 as int) == row_bounds(height as int, y1 as int, y2 as int),
        r.0 <= r.1 <= width,
        r.2 <= r.3 <= height,
{
    let (xlo, xhi) = if x1 <= x2 { (x1, x2) } else { (x2, x1) };
    let (ylo, yhi) = if y1 <= y2 { (y1, y2) } else { (y2, y1) };
    let cxlo = clip(xlo);
    let cxhi = clip(xhi);
    let cylo = clip(ylo);
    let cyhi = clip(yhi);
    proof {
        lemma_to_pixel_bounds(cxlo as int, cxhi as int, width as int);
        lemma_to_pixel_bounds(UNIT - cyhi, UNIT - cylo, height as int);
    }
    let i0 = scale(cxlo, width);
    let i1 = scale(cxhi, width);
    let j0 = scale(UNIT - cyhi, height);
    let j1 = scale(UNIT - cylo, height);
    (i0, i1, j0, j1)
}

/// The pixels of the cell between `x1`, `x2` and `y1`, `y2`, row after row.
/// A cell of no width or no height gives an empty buffer.
pub fn crop_buffer(img: &PixelBuffer, x1: i64, x2: i64, y1: i64, y2: i64) -> (r: PixelBuffer)
    requires
        img.wf(),
    ensures
        r.wf(),
        ({
            let (i0, i1) = col_bounds(img.width as int, x1 as int, x2 as int);
            let (j0, j1) = row_bounds(img.height as int, y1 as int, y2 as int);
            &&& r.width == i1 - i0
            &&& r.height == j1 - j0
            &&& r.pixels@ == crop_bytes(img.pixels@, img.width as int, i0, i1, j0, j1)
        }),
        x1 == x2 ==> r.width == 0 && r.pixels@.len() == 0,
        y1 == y2 ==> r.height == 0 && r.pixels@.len() == 0,
{
    let (i0, i1, j0, j1) = pixel_bounds(img.width, img.height, x1, x2, y1, y2);
    let w = img.width;
    let n = img.pixels.len();
    let ghost pix = img.pixels@;
    let mut out: Vec<u8> = Vec::new();
    let mut j: usize = j0;
    while j < j1
        invariant
            img.wf(),
            pix == img.pixels@,
            n == pix.len(),
            w == img.width,
            i0 <= i1 <= w,
            j0 <= j <= j1 <= img.height,
            out@ == crop_bytes(pix, w as int, i0 as int, i1 as int, j0 as int, j as int),
        decreases j1 - j,
    {
        let ghost before = out@;
        proof {
            assert(j * w + w <= img.height * w) by (nonlinear_arith)
                requires
                    j < img.height,
            ;
            assert(0 <= j * w) by (nonlinear_arith);
            assert(img.height * w * 4 == img.width * img.height * 4) by (nonlinear_arith)
                requires
                    w == img.width,
            ;
        }
        let row = j * w;
        let mut i: usize = i0;
        while i < i1
            invariant
                img.wf(),
                pix == img.pixels@,
                n == pix.len(),
                n == img.height * w * 4,
                w == img.width,
                i0 <= i <= i1 <= w,
                j < img.height,
                row == j * w,
                row + w <= img.height * w,
                out@ == before + pix.subrange((row + i0) * 4, (row + i) * 4),
            decreases i1 - i,
        {
            let k = (row + i) * 4;
            out.push(img.pixels[k]);
            out.push(img.pixels[k + 1]);
            out.push(img.pixels[k + 2]);
            out.push(img.pixels[k + 3]);
            assert(out@ =~= before + pix.subrange((row + i0) * 4, (row + i + 1) * 4));
            i += 1;
        }
        assert(out@ =~= crop_bytes(pix, w as int, i0 as int, i1 as int, j0 as int, j + 1));
        j += 1;
    }
    proof {
        assert(j1 * w <= img.height * w) by (nonlinear_arith)
            requires
                j1 <= img.height,
        ;
        assert(img.height * w * 4 == img.width * img.height * 4) by (nonlinear_arith)
            requires
                w == img.width,
        ;
        assert(img.height * w * 4 == (img.height * w) * 4);
        lemma_crop_len(pix, w as int, i0 as int, i1 as int, j0 as int, j1 as int);
        if x1 == x2 {
            assert(i1 - i0 == 0);
            assert((i1 - i0) * (j1 - j0) * 4 == 0);
        }
        if y1 == y2 {
            assert(j1 - j0 == 0);
            assert((i1 - i0) * (j1 - j0) * 4 == 0) by (nonlinear_arith)
                requires
                    j1 - j0 == 0,
            ;
        }
        assert((i1 - i0) * (j1 - j0) * 4 == ((i1 - i0) as usize) * ((j1 - j0) as usize) * 4);
    }
    PixelBuffer { width: i1 - i0, height: j1 - j0, pixels: out }
}

} // verus!
