//! The seven-pass progressive interlace geometry: per-pass sub-image shapes
//! and the mapping from pass-local coordinates to full-image coordinates,
//! derived from the full width and height alone.

use vstd::prelude::*;

verus! {

/// Horizontal offset of the first pixel of pass `k`.
pub open spec fn pass_x_offset(k: int) -> int {
    if k == 0 {
        0
    } else if k == 1 {
        4
    } else if k == 2 {
        0
    } else if k == 3 {
        2
    } else if k == 4 {
        0
    } else if k == 5 {
        1
    } else {
        0
    }
}

/// Vertical offset of the first row of pass `k`.
pub open spec fn pass_y_offset(k: int) -> int {
    if k == 0 {
        0
    } else if k == 1 {
        0
    } else if k == 2 {
        4
    } else if k == 3 {
        0
    } else if k == 4 {
        2
    } else if k == 5 {
        0
    } else {
        1
    }
}

/// Horizontal distance between pixels of pass `k`.
pub open spec fn pass_x_stride(k: int) -> int {
    if k == 0 {
        8
    } else if k == 1 {
        8
    } else if k == 2 {
        4
    } else if k == 3 {
        4
    } else if k == 4 {
        2
    } else if k == 5 {
        2
    } else {
        1
    }
}

/// Vertical distance between rows of pass `k`.
pub open spec fn pass_y_stride(k: int) -> int {
    if k == 0 {
        8
    } else if k == 1 {
        8
    } else if k == 2 {
        8
    } else if k == 3 {
        4
    } else if k == 4 {
        4
    } else if k == 5 {
        2
    } else {
        2
    }
}

/// How many grid points with offset `off` and stride `stride` fall inside
/// `0..dim`: the ceiling of `(dim - off) / stride`, clamped to 0.
pub open spec fn grid_count(dim: int, off: int, stride: int) -> int {
    if dim <= off {
        0
    } else {
        (dim - off + stride - 1) / stride
    }
}

/// Width of the sub-image of pass `k` for a full image `w` pixels wide.
pub open spec fn pass_width(k: int, w: int) -> int {
    grid_count(w, pass_x_offset(k), pass_x_stride(k))
}

/// Height of the sub-image of pass `k` for a full image `h` rows tall.
pub open spec fn pass_height(k: int, h: int) -> int {
    grid_count(h, pass_y_offset(k), pass_y_stride(k))
}

/// The sub-image shape and coordinate mapping of one interlace pass.
#[derive(Debug, Clone, Copy, PartialEq, Eq, Structural)]
pub struct Pass {
    pub width: usize,
    pub height: usize,
    pub x_offset: usize,
    pub y_offset: usize,
    pub x_stride: usize,
    pub y_stride: usize,
}

impl Pass {
    /// This pass holds the shape that pass number `k` has for a `w` by `h`
    /// image.
    pub open spec fn is_pass(self, k: int, w: int, h: int) -> bool {
        &&& self.width == pass_width(k, w)
        &&& self.height == pass_height(k, h)
        &&& self.x_offset == pass_x_offset(k)
        &&& self.y_offset == pass_y_offset(k)
        &&& self.x_stride == pass_x_stride(k)
        &&& self.y_stride == pass_y_stride(k)
    }

    /// Full-image column of pass-local column `j`.
    pub fn compute_x(&self, j: usize) -> (x: usize)
        requires
            self.x_offset + j * self.x_stride <= usize::MAX,
        ensures
            x == self.x_offset + j * self.x_stride,
    {
        self.x_offset + j * self.x_stride
    }

    /// Full-image row of pass-local row `i`.
    pub fn compute_y(&self, i: usize) -> (y: usize)
        requires
            self.y_offset + i * self.y_stride <= usize::MAX,
        ensures
            y == self.y_offset + i * self.y_stride,
    {
        self.y_offset + i * self.y_stride
    }
}

/// A pixel of a pass stays inside the full image: when `j` is a valid
/// pass-local column, its full-image column is below `w` (and likewise for
/// rows, by the same arithmetic).
pub proof fn lemma_pass_coord_in_range(dim: int, off: int, stride: int, j: int)
    requires
        0 <= off,
        1 <= stride,
        0 <= j < grid_count(dim, off, stride),
    ensures
        off + j * stride < dim,
{
    let n = grid_count(dim, off, stride);
    let a = dim - off;
    assert(n == (a + stride - 1) / stride);
    assert(n * stride <= a + stride - 1) by (nonlinear_arith)
        requires
            n == (a + stride - 1) / stride,
            stride >= 1,
    ;
    assert(j * stride <= (n - 1) * stride) by (nonlinear_arith)
        requires
            j <= n - 1,
            stride >= 1,
    ;
    assert((n - 1) * stride == n * stride - stride) by (nonlinear_arith);
}

/// Compute the seven pass shapes for a full image, in pass order.
pub fn compute_pass_counts(width: u32, height: u32) -> (passes: Vec<Pass>)
    ensures
        passes@.len() == 7,
        forall|k: int| 0 <= k < 7 ==> passes@[k].is_pass(k, width as int, height as int),
{
    let mut passes: Vec<Pass> = Vec::with_capacity(7);
    passes.push(make_pass(width, height, 0, 0, 8, 8));
    passes.push(make_pass(width, height, 4, 0, 8, 8));
    passes.push(make_pass(width, height, 0, 4, 4, 8));
    passes.push(make_pass(width, height, 2, 0, 4, 4));
    passes.push(make_pass(width, height, 0, 2, 2, 4));
    passes.push(make_pass(width, height, 1, 0, 2, 2));
    passes.push(make_pass(width, height, 0, 1, 1, 2));
    passes
}

/// One pass shape from its offset and stride pair.
fn make_pass(width: u32, height: u32, x_offset: usize, y_offset: usize, x_stride: usize, y_stride: usize) -> (p: Pass)
    requires
        0 <= x_offset <= 4,
        0 <= y_offset <= 4,
        1 <= x_stride <= 8,
        1 <= y_stride <= 8,
    ensures
        p.width == grid_count(width as int, x_offset as int, x_stride as int),
        p.height == grid_count(height as int, y_offset as int, y_stride as int),
        p.x_offset == x_offset,
        p.y_offset == y_offset,
        p.x_stride == x_stride,
        p.y_stride == y_stride,
{
    let w = width as usize;
    let h = height as usize;
    let pw = if w <= x_offset {
        0
    } else {
        proof {
            vstd::arithmetic::div_mod::lemma_div_plus_one((w - x_offset - 1) as int, x_stride as int);
            assert((w - x_offset - 1) as int / (x_stride as int) <= (w - x_offset - 1) as int) by (nonlinear_arith)
                requires
                    x_stride >= 1,
                    w - x_offset - 1 >= 0,
            ;
        }
        (w - x_offset - 1) / x_stride + 1
    };
    let ph = if h <= y_offset {
        0
    } else {
        proof {
            vstd::arithmetic::div_mod::lemma_div_plus_one((h - y_offset - 1) as int, y_stride as int);
            assert((h - y_offset - 1) as int / (y_stride as int) <= (h - y_offset - 1) as int) by (nonlinear_arith)
                requires
                    y_stride >= 1,
                    h - y_offset - 1 >= 0,
            ;
        }
        (h - y_offset - 1) / y_stride + 1
    };
    Pass { width: pw, height: ph, x_offset, y_offset, x_stride, y_stride }
}

/// The total pixel count of the seven passes.
pub open spec fn pass_area_sum(w: int, h: int) -> int {
    pass_width(0, w) * pass_height(0, h) + pass_width(1, w) * pass_height(1, h) + pass_width(
        2,
        w,
    ) * pass_height(2, h) + pass_width(3, w) * pass_height(3, h) + pass_width(4, w) * pass_height(
        4,
        h,
    ) + pass_width(5, w) * pass_height(5, h) + pass_width(6, w) * pass_height(6, h)
}

/// Splitting a stride-`d` grid into its even and odd stride-`2d` halves
/// keeps the point count.
#[verifier::rlimit(60)]
proof fn lemma_grid_split(a: int, d: int)
    requires
        d == 1 || d == 2 || d == 4,
    ensures
        grid_count(a, 0, 2 * d) + grid_count(a, d, 2 * d) == grid_count(a, 0, d),
{
    if a <= 0 {
    } else if a <= d {
        assert(grid_count(a, 0, 2 * d) == (a + 2 * d - 1) / (2 * d));
        assert(grid_count(a, d, 2 * d) == 0);
        if d == 1 {
            assert((a + 1) / 2 == 1 && a / 1 == 1);
        } else if d == 2 {
            assert((a + 3) / 4 == 1 && (a + 1) / 2 == 1);
        } else {
            assert((a + 7) / 8 == 1 && (a + 3) / 4 == 1);
        }
    } else {
        assert(grid_count(a, 0, 2 * d) == (a + 2 * d - 1) / (2 * d));
        assert(grid_count(a, d, 2 * d) == (a - d + 2 * d - 1) / (2 * d));
        assert(grid_count(a, 0, d) == (a + d - 1) / d);
        if d == 1 {
            assert((a + 1) / 2 + a / 2 == a / 1);
        } else if d == 2 {
            assert((a + 3) / 4 + (a + 1) / 4 == (a + 1) / 2);
        } else {
            assert((a + 7) / 8 + (a + 3) / 8 == (a + 3) / 4);
        }
    }
}

/// Progressive coverage, counted: for every width and height, the seven
/// pass sub-images hold exactly `w * h` pixels in total.
pub proof fn lemma_adam7_area(w: int, h: int)
    requires
        w >= 0,
        h >= 0,
    ensures
        pass_area_sum(w, h) == w * h,
{
    let w8 = pass_width(0, w);
    let w8o = pass_width(1, w);
    let w4 = pass_width(2, w);
    let w4o = pass_width(3, w);
    let w2 = pass_width(4, w);
    let w2o = pass_width(5, w);
    let h8 = pass_height(0, h);
    let h8o = pass_height(2, h);
    let h4 = pass_height(3, h);
    let h4o = pass_height(4, h);
    let h2 = pass_height(5, h);
    let h2o = pass_height(6, h);
    lemma_grid_split(w, 4);
    lemma_grid_split(w, 2);
    lemma_grid_split(w, 1);
    lemma_grid_split(h, 4);
    lemma_grid_split(h, 2);
    lemma_grid_split(h, 1);
    assert(w8 + w8o == w4);
    assert(w4 + w4o == w2);
    assert(w2 + w2o == grid_count(w, 0, 1));
    assert(grid_count(w, 0, 1) == w);
    assert(h8 + h8o == h4);
    assert(h4 + h4o == h2);
    assert(h2 + h2o == h);
    assert(w8 * h8 + w8o * h8 == w4 * h8) by (nonlinear_arith)
        requires
            w8 + w8o == w4,
    ;
    assert(w4 * h8 + w4 * h8o == w4 * h4) by (nonlinear_arith)
        requires
            h8 + h8o == h4,
    ;
    assert(w4 * h4 + w4o * h4 == w2 * h4) by (nonlinear_arith)
        requires
            w4 + w4o == w2,
    ;
    assert(w2 * h4 + w2 * h4o == w2 * h2) by (nonlinear_arith)
        requires
            h4 + h4o == h2,
    ;
    assert(w2 * h2 + w2o * h2 == w * h2) by (nonlinear_arith)
        requires
            w2 + w2o == w,
    ;
    assert(w * h2 + w * h2o == w * h) by (nonlinear_arith)
        requires
            h2 + h2o == h,
    ;
}

/// Whether pass `k` visits the full-image coordinate `(x, y)`.
pub open spec fn pass_covers(k: int, x: int, y: int) -> bool {
    &&& x >= pass_x_offset(k)
    &&& y >= pass_y_offset(k)
    &&& (x - pass_x_offset(k)) % pass_x_stride(k) == 0
    &&& (y - pass_y_offset(k)) % pass_y_stride(k) == 0
}

/// The unique pass that visits the full-image coordinate `(x, y)`.
pub open spec fn pass_of(x: int, y: int) -> int {
    if y % 2 == 1 {
        6
    } else if x % 2 == 1 {
        5
    } else if y % 4 == 2 {
        4
    } else if x % 4 == 2 {
        3
    } else if y % 8 == 4 {
        2
    } else if x % 8 == 4 {
        1
    } else {
        0
    }
}

/// A grid point of a pass has a valid pass-local index: the converse of
/// `lemma_pass_coord_in_range`.
pub proof fn lemma_pass_index_in_range(dim: int, off: int, stride: int, x: int)
    requires
        0 <= off,
        1 <= stride,
        off <= x < dim,
        (x - off) % stride == 0,
    ensures
        0 <= (x - off) / stride < grid_count(dim, off, stride),
        off + ((x - off) / stride) * stride == x,
{
    let j = (x - off) / stride;
    vstd::arithmetic::div_mod::lemma_fundamental_div_mod(x - off, stride);
    assert(x - off == stride * j);
    assert(stride * j == j * stride) by (nonlinear_arith);
    vstd::arithmetic::div_mod::lemma_div_is_ordered(x - off, dim - off - 1, stride);
    vstd::arithmetic::div_mod::lemma_div_pos_is_pos(x - off, stride);
    assert(grid_count(dim, off, stride) == (dim - off + stride - 1) / stride);
    vstd::arithmetic::div_mod::lemma_div_plus_one(dim - off - 1, stride);
    vstd::arithmetic::div_mod::lemma_div_is_ordered(x - off, dim - off + stride - 1, stride);
    if j >= grid_count(dim, off, stride) {
        assert((dim - off - 1) / stride + 1 == (dim - off + stride - 1) / stride);
        assert(j <= (dim - off - 1) / stride);
        assert(false);
    }
}

/// Progressive coverage, located: every coordinate of the full image is
/// visited by `pass_of(x, y)` and by no other pass.
pub proof fn lemma_adam7_unique(x: int, y: int)
    requires
        x >= 0,
        y >= 0,
    ensures
        0 <= pass_of(x, y) < 7,
        pass_covers(pass_of(x, y), x, y),
        forall|k: int| 0 <= k < 7 && pass_covers(k, x, y) ==> k == pass_of(x, y),
{
    assert(x % 8 == 0 ==> x % 4 == 0 && x % 2 == 0);
    assert(x % 8 == 4 ==> x % 4 == 0 && x % 2 == 0);
    assert(x % 4 == 0 ==> x % 2 == 0);
    assert(x % 4 == 2 ==> x % 2 == 0);
    assert(y % 8 == 0 ==> y % 4 == 0 && y % 2 == 0);
    assert(y % 8 == 4 ==> y % 4 == 0 && y % 2 == 0);
    assert(y % 4 == 0 ==> y % 2 == 0);
    assert(y % 4 == 2 ==> y % 2 == 0);
    assert((x - 4) % 8 == 0 <==> x % 8 == 4);
    assert((x - 2) % 4 == 0 <==> x % 4 == 2);
    assert((x - 1) % 2 == 0 <==> x % 2 == 1);
    assert((y - 4) % 8 == 0 <==> y % 8 == 4);
    assert((y - 2) % 4 == 0 <==> y % 4 == 2);
    assert((y - 1) % 2 == 0 <==> y % 2 == 1);
}

} // verus!
