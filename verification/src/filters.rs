//! The five per-row filter transforms, their exact specifications, and the
//! proof that reconstruction inverts filtering byte for byte.
//!
//! A row is filtered against the reconstructed row above it (all zeros for
//! the first row); every addition and subtraction wraps modulo 256.

use crate::grammar::Filter;
use vstd::prelude::*;

verus! {

/// The Paeth predictor: of the left, up, and up-left neighbors, the one
/// closest to `left + up - up_left`, preferring left, then up.
pub open spec fn paeth_spec(a: u8, b: u8, c: u8) -> u8 {
    let p = a + b - c;
    let pa = if p - a >= 0 {
        p - a
    } else {
        a - p
    };
    let pb = if p - b >= 0 {
        p - b
    } else {
        b - p
    };
    let pc = if p - c >= 0 {
        p - c
    } else {
        c - p
    };
    if pa <= pb && pa <= pc {
        a
    } else if pb <= pc {
        b
    } else {
        c
    }
}

pub(crate) fn paeth(a: u8, b: u8, c: u8) -> (r: u8)
    ensures
        r == paeth_spec(a, b, c),
{
    let p: i16 = a as i16 + b as i16 - c as i16;

    let pa: i16 = if p >= a as i16 {
        p - a as i16
    } else {
        a as i16 - p
    };
    let pb: i16 = if p >= b as i16 {
        p - b as i16
    } else {
        b as i16 - p
    };
    let pc: i16 = if p >= c as i16 {
        p - c as i16
    } else {
        c as i16 - p
    };

    if pa <= pb && pa <= pc {
        a
    } else if pb <= pc {
        b
    } else {
        c
    }
}

/// The left neighbor of byte `j` within a row: the byte one pixel earlier,
/// or 0 for the first pixel of the row.
pub open spec fn left_of(row: Seq<u8>, bpp: int, j: int) -> u8 {
    if 1 <= bpp <= j {
        row[j - bpp]
    } else {
        0
    }
}

/// The reconstructed value of byte `j` of a filtered row, given the
/// reconstructed previous row. Left neighbors are reconstructed bytes of the
/// same row, so the definition recurses one pixel to the left.
pub open spec fn recon_byte(f: Filter, row: Seq<u8>, prev: Seq<u8>, bpp: int, j: int) -> u8
    decreases j,
{
    let x = row[j];
    let up = prev[j];
    let left = if 1 <= bpp <= j {
        recon_byte(f, row, prev, bpp, j - bpp)
    } else {
        0
    };
    let up_left = if 1 <= bpp <= j {
        prev[j - bpp]
    } else {
        0
    };
    match f {
        Filter::NoFilter => x,
        Filter::Sub => x.wrapping_add(left),
        Filter::Up => x.wrapping_add(up),
        Filter::Average => x.wrapping_add((((left + up) / 2) as u8)),
        Filter::Paeth => x.wrapping_add(paeth_spec(left, up, up_left)),
    }
}

/// The whole reconstructed row.
pub open spec fn recon_row_spec(f: Filter, row: Seq<u8>, prev: Seq<u8>, bpp: int) -> Seq<u8> {
    Seq::new(row.len(), |j: int| recon_byte(f, row, prev, bpp, j))
}

/// The filtered value of byte `j` of an unfiltered row. Neighbors are taken
/// from the unfiltered bytes, so no recursion is needed.
pub open spec fn filter_byte(f: Filter, orig: Seq<u8>, prev: Seq<u8>, bpp: int, j: int) -> u8 {
    let x = orig[j];
    let up = prev[j];
    let left = left_of(orig, bpp, j);
    let up_left = if 1 <= bpp <= j {
        prev[j - bpp]
    } else {
        0
    };
    match f {
        Filter::NoFilter => x,
        Filter::Sub => x.wrapping_sub(left),
        Filter::Up => x.wrapping_sub(up),
        Filter::Average => x.wrapping_sub((((left + up) / 2) as u8)),
        Filter::Paeth => x.wrapping_sub(paeth_spec(left, up, up_left)),
    }
}

/// The whole filtered row.
pub open spec fn filter_row_spec(f: Filter, orig: Seq<u8>, prev: Seq<u8>, bpp: int) -> Seq<u8> {
    Seq::new(orig.len(), |j: int| filter_byte(f, orig, prev, bpp, j))
}

/// Wrapping subtraction then wrapping addition of the same byte cancel.
proof fn lemma_wrap_cancel(x: u8, p: u8)
    ensures
        x.wrapping_sub(p).wrapping_add(p) == x,
{
}

/// Reconstructing one filtered byte recovers the original byte, assuming the
/// bytes to its left reconstruct correctly (shown by recursion).
proof fn lemma_recon_byte_inverse(f: Filter, orig: Seq<u8>, prev: Seq<u8>, bpp: int, j: int)
    requires
        bpp >= 1,
        prev.len() == orig.len(),
        0 <= j < orig.len(),
    ensures
        recon_byte(f, filter_row_spec(f, orig, prev, bpp), prev, bpp, j) == orig[j],
    decreases j,
{
    let filtered = filter_row_spec(f, orig, prev, bpp);
    if bpp <= j {
        lemma_recon_byte_inverse(f, orig, prev, bpp, j - bpp);
    }
    assert(filtered[j] == filter_byte(f, orig, prev, bpp, j));
    let up = prev[j];
    let left = left_of(orig, bpp, j);
    let up_left = if 1 <= bpp <= j {
        prev[j - bpp]
    } else {
        0
    };
    match f {
        Filter::NoFilter => {
        },
        Filter::Sub => {
            lemma_wrap_cancel(orig[j], left);
        },
        Filter::Up => {
            lemma_wrap_cancel(orig[j], up);
        },
        Filter::Average => {
            lemma_wrap_cancel(orig[j], ((left + up) / 2) as u8);
        },
        Filter::Paeth => {
            lemma_wrap_cancel(orig[j], paeth_spec(left, up, up_left));
        },
    }
}

/// Filter inverse law: for every row, every previous-row context (including
/// the all-zero row standing in for a missing one), and every filter type,
/// reconstructing the filtered row recovers the row byte for byte.
pub proof fn lemma_filter_inverse(f: Filter, orig: Seq<u8>, prev: Seq<u8>, bpp: int)
    requires
        bpp >= 1,
        prev.len() == orig.len(),
    ensures
        recon_row_spec(f, filter_row_spec(f, orig, prev, bpp), prev, bpp) == orig,
{
    let filtered = filter_row_spec(f, orig, prev, bpp);
    assert forall|j: int| 0 <= j < orig.len() implies recon_row_spec(f, filtered, prev, bpp)[j]
        == orig[j] by {
        lemma_recon_byte_inverse(f, orig, prev, bpp, j);
    }
    assert(recon_row_spec(f, filtered, prev, bpp) =~= orig);
}

/// Reverse one row's filter: `row` is the filtered record (without its
/// leading filter-type byte), `prev` the reconstructed row above (all zeros
/// for the first row).
pub(crate) fn recon_row(f: Filter, row: &[u8], prev: &[u8], bpp: usize) -> (out: Vec<u8>)
    requires
        bpp >= 1 || row@.len() == 0,
        prev@.len() == row@.len(),
    ensures
        out@ == recon_row_spec(f, row@, prev@, bpp as int),
{
    let n = row.len();
    let mut out: Vec<u8> = Vec::with_capacity(n);
    let mut j: usize = 0;
    while j < n
        invariant
            0 <= j <= n,
            n == row@.len(),
            prev@.len() == n,
            bpp >= 1 || n == 0,
            out@.len() == j,
            forall|k: int| 0 <= k < j ==> out@[k] == recon_byte(f, row@, prev@, bpp as int, k),
        decreases n - j,
    {
        let x = row[j];
        let left = if j >= bpp {
            out[j - bpp]
        } else {
            0
        };
        let up = prev[j];
        let up_left = if j >= bpp {
            prev[j - bpp]
        } else {
            0
        };
        let v = match f {
            Filter::NoFilter => x,
            Filter::Sub => x.wrapping_add(left),
            Filter::Up => x.wrapping_add(up),
            Filter::Average => {
                let sum = left as u16 + up as u16;
                x.wrapping_add((sum / 2) as u8)
            },
            Filter::Paeth => x.wrapping_add(paeth(left, up, up_left)),
        };
        out.push(v);
        proof {
            assert(out@[j as int] == recon_byte(f, row@, prev@, bpp as int, j as int));
        }
        j = j + 1;
    }
    proof {
        assert(out@ =~= recon_row_spec(f, row@, prev@, bpp as int));
    }
    out
}

/// Apply one filter to one row: `orig` is the unfiltered row, `prev` the
/// unfiltered row above (all zeros for the first row).
pub(crate) fn filter_row(f: Filter, orig: &[u8], prev: &[u8], bpp: usize) -> (out: Vec<u8>)
    requires
        bpp >= 1 || orig@.len() == 0,
        prev@.len() == orig@.len(),
    ensures
        out@ == filter_row_spec(f, orig@, prev@, bpp as int),
{
    let n = orig.len();
    let mut out: Vec<u8> = Vec::with_capacity(n);
    let mut j: usize = 0;
    while j < n
        invariant
            0 <= j <= n,
            n == orig@.len(),
            prev@.len() == n,
            bpp >= 1 || n == 0,
            out@.len() == j,
            forall|k: int| 0 <= k < j ==> out@[k] == filter_byte(f, orig@, prev@, bpp as int, k),
        decreases n - j,
    {
        let x = orig[j];
        let left = if j >= bpp {
            orig[j - bpp]
        } else {
            0
        };
        let up = prev[j];
        let up_left = if j >= bpp {
            prev[j - bpp]
        } else {
            0
        };
        let v = match f {
            Filter::NoFilter => x,
            Filter::Sub => x.wrapping_sub(left),
            Filter::Up => x.wrapping_sub(up),
            Filter::Average => {
                let sum = left as u16 + up as u16;
                x.wrapping_sub((sum / 2) as u8)
            },
            Filter::Paeth => x.wrapping_sub(paeth(left, up, up_left)),
        };
        out.push(v);
        proof {
            assert(out@[j as int] == filter_byte(f, orig@, prev@, bpp as int, j as int));
        }
        j = j + 1;
    }
    proof {
        assert(out@ =~= filter_row_spec(f, orig@, prev@, bpp as int));
    }
    out
}

} // verus!
