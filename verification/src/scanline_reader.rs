//! The scanline reconstruction engine: reverses the per-row filters over a
//! decompressed stream of filter-tagged records, row by row or pass by pass
//! for progressively interlaced images.

use crate::filters::recon_row;
use crate::filters::recon_row_spec;
use crate::grammar::DecodeError;
use crate::grammar::Filter;
use crate::grammar::ImageHeader;
use crate::interlace::compute_pass_counts;
use crate::interlace::grid_count;
use crate::interlace::lemma_adam7_area;
use crate::interlace::lemma_adam7_unique;
use crate::interlace::lemma_pass_coord_in_range;
use crate::interlace::lemma_pass_index_in_range;
use crate::interlace::pass_covers;
use crate::interlace::pass_of;
use crate::interlace::pass_area_sum;
use crate::interlace::pass_height;
use crate::interlace::pass_width;
use crate::interlace::pass_x_offset;
use crate::interlace::pass_x_stride;
use crate::interlace::pass_y_offset;
use crate::interlace::pass_y_stride;
use vstd::prelude::*;

verus! {

/// A row of `n` zero bytes: the previous-row context of a first row.
pub open spec fn zero_seq(n: int) -> Seq<u8> {
    Seq::new(n as nat, |i: int| 0u8)
}

/// Reconstruct a stream of filter-tagged records against a previous row.
/// Each record is one filter-type byte followed by `prev.len()` filtered
/// bytes; rows chain, each reconstructed against the one before it. `None`
/// when a record is short or a filter-type byte is not one of the five
/// defined values.
pub open spec fn recon_rows(s: Seq<u8>, prev: Seq<u8>, bpp: int) -> Option<Seq<u8>>
    decreases s.len(),
{
    let rb = prev.len() as int;
    if s.len() == 0 {
        Some(Seq::empty())
    } else if s.len() < 1 + rb {
        None
    } else {
        match Filter::spec_from_u8(s[0]) {
            Some(f) => {
                let row = recon_row_spec(f, s.subrange(1, 1 + rb), prev, bpp);
                match recon_rows(s.skip(1 + rb), row, bpp) {
                    Some(rest) => Some(row + rest),
                    None => None,
                }
            },
            None => None,
        }
    }
}

/// Prefix a reconstructed block onto the outcome of the rows after it.
pub open spec fn opt_prepend(a: Seq<u8>, o: Option<Seq<u8>>) -> Option<Seq<u8>> {
    match o {
        Some(rest) => Some(a + rest),
        None => None,
    }
}

/// The byte length of the record stream of pass `k`: one filter byte plus a
/// row of pixels per sub-image row, and nothing at all for an empty pass.
pub open spec fn pass_stream_len(k: int, w: int, h: int, bpp: int) -> int {
    let pw = pass_width(k, w);
    let ph = pass_height(k, h);
    if pw == 0 || ph == 0 {
        0
    } else {
        ph * (1 + bpp * pw)
    }
}

/// The byte length of the record streams of the passes from `k` on.
pub open spec fn adam7_len_from(w: int, h: int, bpp: int, k: int) -> int
    decreases 7 - k,
{
    if k >= 7 {
        0
    } else {
        pass_stream_len(k, w, h, bpp) + adam7_len_from(w, h, bpp, k + 1)
    }
}

/// Where byte `m` of the reconstructed sub-image of pass `k` lands in the
/// full-resolution buffer: its pass-local pixel is mapped through the pass's
/// offset and stride.
pub open spec fn pass_target(k: int, w: int, bpp: int, m: int) -> int {
    let pw = pass_width(k, w);
    let p = m / bpp;
    let b = m % bpp;
    let i = p / pw;
    let j = p % pw;
    let x = pass_x_offset(k) + j * pass_x_stride(k);
    let y = pass_y_offset(k) + i * pass_y_stride(k);
    (y * w + x) * bpp + b
}

/// The buffer after the first `m` bytes of a pass's reconstructed sub-image
/// have been written through the pass's coordinate mapping.
pub open spec fn scatter_pass(buf: Seq<u8>, sub: Seq<u8>, k: int, w: int, bpp: int, m: int) -> Seq<
    u8,
>
    decreases m,
{
    if m <= 0 {
        buf
    } else {
        scatter_pass(buf, sub, k, w, bpp, m - 1).update(pass_target(k, w, bpp, m - 1), sub[m - 1])
    }
}

/// The full-resolution buffer after the passes from `k` on have been
/// reconstructed from `s` and scattered into `buf`.
pub open spec fn adam7_pass_loop(s: Seq<u8>, w: int, h: int, bpp: int, k: int, buf: Seq<u8>) -> Option<
    Seq<u8>,
>
    decreases 7 - k,
{
    if k >= 7 {
        Some(buf)
    } else {
        let pw = pass_width(k, w);
        let ph = pass_height(k, h);
        if pw == 0 || ph == 0 {
            adam7_pass_loop(s, w, h, bpp, k + 1, buf)
        } else {
            let seg = ph * (1 + bpp * pw);
            if s.len() < seg {
                None
            } else {
                match recon_rows(s.subrange(0, seg), zero_seq(bpp * pw), bpp) {
                    Some(sub) => adam7_pass_loop(
                        s.skip(seg),
                        w,
                        h,
                        bpp,
                        k + 1,
                        scatter_pass(buf, sub, k, w, bpp, sub.len() as int),
                    ),
                    None => None,
                }
            }
        }
    }
}

/// What the reconstruction engine produces for a decompressed stream `s`
/// under a header: the flat row-major pixel buffer; corruption when the
/// stream length does not fit the header's geometry; a structure error when
/// a filter-type byte is not one of the five defined values.
pub open spec fn reconstruct_spec(s: Seq<u8>, header: ImageHeader) -> Result<Seq<u8>, DecodeError> {
    let bpp = header.spec_bytes_per_pixel();
    let w = header.width as int;
    let h = header.height as int;
    if header.interlace_method {
        if s.len() != adam7_len_from(w, h, bpp, 0) {
            Err(DecodeError::Corruption)
        } else {
            match adam7_pass_loop(s, w, h, bpp, 0, zero_seq(w * h * bpp)) {
                Some(buf) => Ok(buf),
                None => Err(DecodeError::Structure),
            }
        }
    } else {
        let rb = bpp * w;
        if s.len() != h * (1 + rb) {
            Err(DecodeError::Corruption)
        } else {
            match recon_rows(s, zero_seq(rb), bpp) {
                Some(buf) => Ok(buf),
                None => Err(DecodeError::Structure),
            }
        }
    }
}

/// A pass sub-image is never wider or taller than the full image.
proof fn lemma_grid_count_le(dim: int, off: int, stride: int)
    requires
        0 <= dim,
        0 <= off,
        1 <= stride,
    ensures
        0 <= grid_count(dim, off, stride) <= dim,
{
    if dim <= off {
    } else {
        let a = dim - off;
        assert(0 <= (a + stride - 1) / stride <= dim) by (nonlinear_arith)
            requires
                1 <= a <= dim,
                1 <= stride,
        ;
    }
}

/// Every pass stream length is non-negative, and so is every tail sum.
proof fn lemma_len_from_nonneg(w: int, h: int, bpp: int, k: int)
    requires
        0 <= w,
        0 <= h,
        0 <= bpp,
    ensures
        forall|k2: int|
            k <= k2 <= 7 ==> #[trigger] adam7_len_from(w, h, bpp, k2) >= adam7_len_from(
                w,
                h,
                bpp,
                k2 + 1,
            ) >= 0,
    decreases 7 - k,
{
    if k < 7 {
        lemma_len_from_nonneg(w, h, bpp, k + 1);
    }
    assert forall|k2: int| k <= k2 <= 7 implies #[trigger] adam7_len_from(w, h, bpp, k2)
        >= adam7_len_from(w, h, bpp, k2 + 1) >= 0 by {
        if k2 >= 7 {
            assert(adam7_len_from(w, h, bpp, k2) == 0);
            assert(adam7_len_from(w, h, bpp, k2 + 1) == 0);
        } else {
            let pw = pass_width(k2, w);
            let ph = pass_height(k2, h);
            lemma_grid_count_le(w, pass_x_offset(k2), pass_x_stride(k2));
            lemma_grid_count_le(h, pass_y_offset(k2), pass_y_stride(k2));
            if pw != 0 && ph != 0 {
                assert(ph * (1 + bpp * pw) >= 0) by (nonlinear_arith)
                    requires
                        ph >= 0,
                        bpp >= 0,
                        pw >= 0,
                ;
            }
        }
    }
}

/// The whole interlaced stream is at least as long as the pixel buffer it
/// reconstructs: each pass record stream holds its sub-image, and the seven
/// sub-images hold exactly the full image.
proof fn lemma_total_ge_area(w: int, h: int, bpp: int)
    requires
        0 <= w,
        0 <= h,
        0 <= bpp,
    ensures
        adam7_len_from(w, h, bpp, 0) >= bpp * (w * h),
        adam7_len_from(w, h, bpp, 0) >= (w * h) * bpp,
{
    assert forall|k: int| 0 <= k < 7 implies #[trigger] pass_stream_len(k, w, h, bpp) >= bpp * (
    pass_width(k, w) * pass_height(k, h)) by {
        let pw = pass_width(k, w);
        let ph = pass_height(k, h);
        lemma_grid_count_le(w, pass_x_offset(k), pass_x_stride(k));
        lemma_grid_count_le(h, pass_y_offset(k), pass_y_stride(k));
        if pw == 0 || ph == 0 {
            assert(bpp * (pw * ph) == 0) by (nonlinear_arith)
                requires
                    pw == 0 || ph == 0,
            ;
        } else {
            assert(ph * (1 + bpp * pw) >= bpp * (pw * ph)) by (nonlinear_arith)
                requires
                    pw >= 1,
                    ph >= 1,
                    bpp >= 0,
            ;
        }
    }
    lemma_adam7_area(w, h);
    let a0 = pass_width(0, w) * pass_height(0, h);
    let a1 = pass_width(1, w) * pass_height(1, h);
    let a2 = pass_width(2, w) * pass_height(2, h);
    let a3 = pass_width(3, w) * pass_height(3, h);
    let a4 = pass_width(4, w) * pass_height(4, h);
    let a5 = pass_width(5, w) * pass_height(5, h);
    let a6 = pass_width(6, w) * pass_height(6, h);
    reveal_with_fuel(adam7_len_from, 8);
    assert(adam7_len_from(w, h, bpp, 7) == 0);
    assert(adam7_len_from(w, h, bpp, 0) == pass_stream_len(0, w, h, bpp) + pass_stream_len(
        1,
        w,
        h,
        bpp,
    ) + pass_stream_len(2, w, h, bpp) + pass_stream_len(3, w, h, bpp) + pass_stream_len(
        4,
        w,
        h,
        bpp,
    ) + pass_stream_len(5, w, h, bpp) + pass_stream_len(6, w, h, bpp));
    assert(bpp * a0 + bpp * a1 + bpp * a2 + bpp * a3 + bpp * a4 + bpp * a5 + bpp * a6 == bpp * (a0
        + a1 + a2 + a3 + a4 + a5 + a6)) by (nonlinear_arith);
    assert(a0 + a1 + a2 + a3 + a4 + a5 + a6 == pass_area_sum(w, h));
    assert(bpp * (w * h) == (w * h) * bpp) by (nonlinear_arith);
}

/// A byte of a pass sub-image lands inside the full-resolution buffer, at an
/// index determined by a coordinate that no other sub-image byte shares.
proof fn lemma_pass_target_bound(k: int, w: int, h: int, bpp: int, m: int)
    requires
        0 <= k < 7,
        1 <= bpp,
        0 <= w,
        0 <= h,
        0 <= m < bpp * (pass_width(k, w) * pass_height(k, h)),
    ensures
        0 <= pass_target(k, w, bpp, m) < w * h * bpp,
        0 <= (m / bpp) % pass_width(k, w) && pass_x_offset(k) + ((m / bpp) % pass_width(k, w))
            * pass_x_stride(k) < w,
        0 <= (m / bpp) / pass_width(k, w) && pass_y_offset(k) + ((m / bpp) / pass_width(k, w))
            * pass_y_stride(k) < h,
        w * h <= w * h * bpp,
        (pass_y_offset(k) + ((m / bpp) / pass_width(k, w)) * pass_y_stride(k)) * w + (pass_x_offset(
            k,
        ) + ((m / bpp) % pass_width(k, w)) * pass_x_stride(k)) < w * h,
        pass_target(k, w, bpp, m) % bpp == m % bpp,
{
    let pw = pass_width(k, w);
    let ph = pass_height(k, h);
    let p = m / bpp;
    let b = m % bpp;
    let i = p / pw;
    let j = p % pw;
    lemma_grid_count_le(w, pass_x_offset(k), pass_x_stride(k));
    lemma_grid_count_le(h, pass_y_offset(k), pass_y_stride(k));
    assert(pw >= 1 && ph >= 1) by (nonlinear_arith)
        requires
            bpp * (pw * ph) > 0,
            bpp >= 1,
            pw >= 0,
            ph >= 0,
    ;
    assert(0 <= b < bpp && 0 <= p < pw * ph) by (nonlinear_arith)
        requires
            p == m / bpp,
            b == m % bpp,
            0 <= m < bpp * (pw * ph),
            bpp >= 1,
    ;
    assert(0 <= j < pw && 0 <= i < ph) by (nonlinear_arith)
        requires
            i == p / pw,
            j == p % pw,
            0 <= p < pw * ph,
            pw >= 1,
    ;
    lemma_pass_coord_in_range(w, pass_x_offset(k), pass_x_stride(k), j);
    lemma_pass_coord_in_range(h, pass_y_offset(k), pass_y_stride(k), i);
    let x = pass_x_offset(k) + j * pass_x_stride(k);
    let y = pass_y_offset(k) + i * pass_y_stride(k);
    assert(0 <= j * pass_x_stride(k)) by (nonlinear_arith)
        requires
            j >= 0,
            pass_x_stride(k) >= 1,
    ;
    assert(0 <= i * pass_y_stride(k)) by (nonlinear_arith)
        requires
            i >= 0,
            pass_y_stride(k) >= 1,
    ;
    assert(0 <= (y * w + x) * bpp + b < w * h * bpp && y * w + x < w * h && w * h <= w * h * bpp
        && ((y * w + x) * bpp + b) % bpp == b) by (nonlinear_arith)
        requires
            0 <= x < w,
            0 <= y < h,
            1 <= bpp,
            0 <= b < bpp,
    ;
}

/// The scanline reconstruction engine over one decompressed stream.
#[derive(Debug)]
pub struct ScanlineReader<'a> {
    pub(crate) input_buffer: &'a [u8],
    pub(crate) image_header: &'a ImageHeader,
}

impl<'a> ScanlineReader<'a> {
    pub(crate) fn new(input_buffer: &'a [u8], image_header: &'a ImageHeader) -> (r: ScanlineReader<
        'a,
    >)
        ensures
            r.input_buffer@ == input_buffer@,
            r.image_header == image_header,
    {
        ScanlineReader { input_buffer, image_header }
    }

    /// Reconstruct the pixel buffer, choosing the row-by-row or the
    /// interlaced engine by the header's interlace flag.
    pub(crate) fn read_lines(&self) -> (r: Result<Vec<u8>, DecodeError>)
        ensures
            match r {
                Ok(v) => reconstruct_spec(self.input_buffer@, *self.image_header) == Ok::<
                    Seq<u8>,
                    DecodeError,
                >(v@),
                Err(e) => reconstruct_spec(self.input_buffer@, *self.image_header) == Err::<
                    Seq<u8>,
                    DecodeError,
                >(e),
            },
    {
        if self.image_header.interlace_method {
            self.adam7_deinterlace()
        } else {
            self.non_interlaced()
        }
    }

    /// Reconstruct a non-interlaced stream: `height` records, each one
    /// filter byte and one filtered row, chained top to bottom.
    #[verifier::loop_isolation(false)]
    fn non_interlaced(&self) -> (r: Result<Vec<u8>, DecodeError>)
        requires
            !self.image_header.interlace_method,
        ensures
            match r {
                Ok(v) => reconstruct_spec(self.input_buffer@, *self.image_header) == Ok::<
                    Seq<u8>,
                    DecodeError,
                >(v@),
                Err(e) => reconstruct_spec(self.input_buffer@, *self.image_header) == Err::<
                    Seq<u8>,
                    DecodeError,
                >(e),
            },
    {
        let s = self.input_buffer;
        let header = self.image_header;
        let bpp = header.num_bytes_per_pixel();
        let h = header.height as usize;
        let w = header.width as usize;
        let ghost bppi = bpp as int;
        let ghost rbi = bppi * (w as int);
        proof {
            assert(0 <= rbi <= 128 * 0xffff_ffffu64) by (nonlinear_arith)
                requires
                    rbi == bppi * (w as int),
                    0 <= bppi <= 128,
                    0 <= w <= u32::MAX,
            ;
        }
        if h == 0 {
            if s.len() != 0 {
                return Err(DecodeError::Corruption);
            }
            let out: Vec<u8> = Vec::new();
            proof {
                assert(recon_rows(s@, zero_seq(rbi), bppi) == Some(Seq::<u8>::empty()));
                assert(out@ =~= Seq::<u8>::empty());
            }
            return Ok(out);
        }

        // The stream must hold exactly `height` records.
        let row_bytes_wide: u64 = (bpp as u64) * (w as u64);
        proof {
            assert((h as int) * (1 + row_bytes_wide as int) <= 0xffff_ffffu64 * (1 + 128
                * 0xffff_ffffu64 as int)) by (nonlinear_arith)
                requires
                    row_bytes_wide == rbi,
                    0 <= rbi <= 128 * 0xffff_ffffu64,
                    0 < h <= u32::MAX,
            ;
        }
        let expected: u128 = (h as u128) * (1 + row_bytes_wide as u128);
        proof {
            assert(expected == (h as int) * (1 + rbi)) by (nonlinear_arith)
                requires
                    expected == (h as int) * (1 + (row_bytes_wide as int)),
                    row_bytes_wide == rbi,
            ;
        }
        if (s.len() as u128) != expected {
            return Err(DecodeError::Corruption);
        }
        proof {
            assert(s@.len() >= 1 + rbi) by (nonlinear_arith)
                requires
                    s@.len() == (h as int) * (1 + rbi),
                    h >= 1,
                    rbi >= 0,
            ;
        }
        let rb = bpp * w;
        match recon_stream(s, h, rb, bpp) {
            Ok(out) => Ok(out),
            Err(e) => Err(e),
        }
    }

    /// Reconstruct an interlaced stream: each of the seven passes is an
    /// independent sub-image reconstructed by the same engine, and its
    /// pixels are mapped into the full-resolution buffer through the pass's
    /// coordinate functions. An empty pass contributes no bytes at all.
    #[verifier::loop_isolation(false)]
    #[verifier::rlimit(100)]
    fn adam7_deinterlace(&self) -> (r: Result<Vec<u8>, DecodeError>)
        requires
            self.image_header.interlace_method,
        ensures
            match r {
                Ok(v) => reconstruct_spec(self.input_buffer@, *self.image_header) == Ok::<
                    Seq<u8>,
                    DecodeError,
                >(v@),
                Err(e) => reconstruct_spec(self.input_buffer@, *self.image_header) == Err::<
                    Seq<u8>,
                    DecodeError,
                >(e),
            },
    {
        let s = self.input_buffer;
        let header = self.image_header;
        let bpp = header.num_bytes_per_pixel();
        let h = header.height as usize;
        let w = header.width as usize;
        let ghost bppi = bpp as int;
        let ghost wi = w as int;
        let ghost hi = h as int;

        let passes = compute_pass_counts(header.width, header.height);
        proof {
            lemma_len_from_nonneg(wi, hi, bppi, 0);
        }

        // The stream must hold exactly the seven pass record streams.
        let mut total: u128 = 0;
        let mut k: usize = 0;
        while k < 7
            invariant
                0 <= k <= 7,
                total + adam7_len_from(wi, hi, bppi, k as int) == adam7_len_from(wi, hi, bppi, 0),
                total <= (k as int) * 0x200_0000_0000_0000_0000u128,
            decreases 7 - k,
        {
            let p = &passes[k];
            let seg: u128 = if p.width == 0 || p.height == 0 {
                0
            } else {
                proof {
                    lemma_grid_count_le(wi, pass_x_offset(k as int), pass_x_stride(k as int));
                    lemma_grid_count_le(hi, pass_y_offset(k as int), pass_y_stride(k as int));
                    assert((bpp as int) * (p.width as int) <= 0x80_0000_0000u128 && (
                    p.height as int) * (1 + (bpp as int) * (p.width as int))
                        <= 0x200_0000_0000_0000_0000u128) by (nonlinear_arith)
                        requires
                            0 <= p.width <= wi <= u32::MAX,
                            0 <= p.height <= hi <= u32::MAX,
                            0 <= bpp <= 128,
                    ;
                }
                (p.height as u128) * (1 + (bpp as u128) * (p.width as u128))
            };
            assert(seg == pass_stream_len(k as int, wi, hi, bppi));
            proof {
                assert((k as int) * 0x200_0000_0000_0000_0000u128 + 0x200_0000_0000_0000_0000u128
                    == ((k + 1) as int) * 0x200_0000_0000_0000_0000u128) by (nonlinear_arith);
            }
            total = total + seg;
            k = k + 1;
        }
        if (s.len() as u128) != total {
            return Err(DecodeError::Corruption);
        }

        // The full-resolution buffer: the stream is at least as long, so the
        // allocation fits in memory.
        proof {
            lemma_total_ge_area(wi, hi, bppi);
        }
        let pixel_count: usize = if bpp == 0 {
            proof {
                assert(wi * hi * bppi == 0) by (nonlinear_arith)
                    requires
                        bppi == 0,
                ;
            }
            0
        } else {
            proof {
                assert(wi * hi <= (wi * hi) * bppi && (wi * hi) * bppi == wi * hi * bppi)
                    by (nonlinear_arith)
                    requires
                        bppi >= 1,
                        wi >= 0,
                        hi >= 0,
                ;
            }
            (w * h) * bpp
        };
        let mut buf: Vec<u8> = vec![0u8; pixel_count];
        proof {
            assert(buf@ =~= zero_seq(wi * hi * bppi));
            assert(s@.skip(0) =~= s@);
        }

        let mut cursor: usize = 0;
        let mut k: usize = 0;
        while k < 7
            invariant
                0 <= k <= 7,
                0 <= cursor <= s@.len(),
                s@.len() - cursor == adam7_len_from(wi, hi, bppi, k as int),
                buf@.len() == wi * hi * bppi,
                adam7_pass_loop(s@, wi, hi, bppi, 0, zero_seq(wi * hi * bppi)) == adam7_pass_loop(
                    s@.skip(cursor as int),
                    wi,
                    hi,
                    bppi,
                    k as int,
                    buf@,
                ),
            decreases 7 - k,
        {
            let ghost rem = s@.skip(cursor as int);
            let p = &passes[k];
            let pw = p.width;
            let ph = p.height;
            if pw != 0 && ph != 0 {
                proof {
                    lemma_grid_count_le(wi, pass_x_offset(k as int), pass_x_stride(k as int));
                    lemma_grid_count_le(hi, pass_y_offset(k as int), pass_y_stride(k as int));
                    assert(adam7_len_from(wi, hi, bppi, k as int) >= pass_stream_len(
                        k as int,
                        wi,
                        hi,
                        bppi,
                    ));
                    assert((bpp as int) * (pw as int) <= 128 * 0xffff_ffffu64 && (ph as int) * (1 + (
                    bpp as int) * (pw as int)) == pass_stream_len(k as int, wi, hi, bppi))
                        by (nonlinear_arith)
                        requires
                            pass_stream_len(k as int, wi, hi, bppi) == (ph as int) * (1 + (
                            bpp as int) * (pw as int)),
                            0 <= pw <= u32::MAX,
                            0 <= ph <= u32::MAX,
                            0 <= bpp <= 128,
                    ;
                    assert((ph as int) * (1 + (bpp as int) * (pw as int)) >= 1 + (bpp as int) * (
                    pw as int)) by (nonlinear_arith)
                        requires
                            ph >= 1,
                            (bpp as int) * (pw as int) >= 0,
                    ;
                }
                let rb = bpp * pw;
                let seg = ph * (1 + rb);
                let seg_slice = vstd::slice::slice_subrange(s, cursor, cursor + seg);
                proof {
                    assert(seg_slice@ =~= rem.subrange(0, seg as int));
                    if rb > 0 {
                        assert(bpp >= 1) by (nonlinear_arith)
                            requires
                                (bpp as int) * (pw as int) > 0,
                                bpp >= 0,
                        ;
                    }
                }
                let sub = match recon_stream(seg_slice, ph, rb, bpp) {
                    Ok(sub) => sub,
                    Err(e) => {
                        proof {
                            assert(recon_rows(rem.subrange(0, seg as int), zero_seq(rb as int), bppi)
                                is None);
                            assert(adam7_pass_loop(rem, wi, hi, bppi, k as int, buf@) is None);
                        }
                        return Err(DecodeError::Structure);
                    },
                };

                // Scatter the reconstructed sub-image into the full buffer.
                let sub_len = sub.len();
                let ghost buf_at_pass = buf@;
                proof {
                    assert(sub@.len() == (ph as int) * (rb as int));
                    assert((ph as int) * (rb as int) == (bpp as int) * ((pw as int) * (ph as int)))
                        by (nonlinear_arith)
                        requires
                            rb == (bpp as int) * (pw as int),
                    ;
                }
                let mut m: usize = 0;
                while m < sub_len
                    invariant
                        0 <= m <= sub_len,
                        buf@.len() == wi * hi * bppi,
                        buf@ == scatter_pass(buf_at_pass, sub@, k as int, wi, bppi, m as int),
                    decreases sub_len - m,
                {
                    proof {
                        assert(bpp >= 1) by (nonlinear_arith)
                            requires
                                (bpp as int) * ((pw as int) * (ph as int)) > 0,
                                bpp >= 0,
                        ;
                        lemma_pass_target_bound(k as int, wi, hi, bppi, m as int);
                    }
                    let pix = m / bpp;
                    let b = m % bpp;
                    let i = pix / pw;
                    let j = pix % pw;
                    let x = p.x_offset + j * p.x_stride;
                    let y = p.y_offset + i * p.y_stride;
                    let t = (y * w + x) * bpp + b;
                    proof {
                        assert(t == pass_target(k as int, wi, bppi, m as int));
                    }
                    let v = sub[m];
                    buf[t] = v;
                    m = m + 1;
                }
                proof {
                    assert(rem.skip(seg as int) =~= s@.skip(cursor + seg as int));
                    assert(zero_seq(rb as int) == zero_seq(bppi * (pass_width(k as int, wi))));
                    assert(adam7_pass_loop(rem, wi, hi, bppi, k as int, buf_at_pass)
                        == adam7_pass_loop(
                        rem.skip(seg as int),
                        wi,
                        hi,
                        bppi,
                        k as int + 1,
                        scatter_pass(buf_at_pass, sub@, k as int, wi, bppi, sub@.len() as int),
                    ));
                }
                cursor = cursor + seg;
            }
            k = k + 1;
        }
        proof {
            assert(s@.skip(cursor as int).len() == 0);
            assert(adam7_pass_loop(s@.skip(cursor as int), wi, hi, bppi, 7, buf@) == Some(buf@));
        }
        Ok(buf)
    }
}

/// Reconstruct a stream of exactly `rows` records of `rb` filtered bytes
/// each, the first row against an all-zero previous row.
#[verifier::loop_isolation(false)]
fn recon_stream(s: &[u8], rows: usize, rb: usize, bpp: usize) -> (r: Result<Vec<u8>, DecodeError>)
    requires
        s@.len() == (rows as int) * (1 + rb as int),
        bpp >= 1 || rb == 0,
        bpp <= 128,
    ensures
        match r {
            Ok(v) => recon_rows(s@, zero_seq(rb as int), bpp as int) == Some(v@) && v@.len() == (
            rows as int) * (rb as int),
            Err(e) => recon_rows(s@, zero_seq(rb as int), bpp as int) is None && e
                == DecodeError::Structure,
        },
{
    let ghost bppi = bpp as int;
    let ghost rbi = rb as int;
    let mut out: Vec<u8> = Vec::new();
    let mut prev: Vec<u8> = vec![0u8; rb];
    proof {
        assert(prev@ =~= zero_seq(rbi));
        assert(s@.skip(0) =~= s@);
        if recon_rows(s@, zero_seq(rbi), bppi) is Some {
            let whole = recon_rows(s@, zero_seq(rbi), bppi).unwrap();
            assert(Seq::<u8>::empty() + whole =~= whole);
        }
    }
    let mut i: usize = 0;
    let mut cursor: usize = 0;
    while i < rows
        invariant
            0 <= i <= rows,
            cursor == (i as int) * (1 + rbi),
            cursor <= s@.len(),
            s@.len() - cursor == ((rows - i) as int) * (1 + rbi),
            prev@.len() == rb,
            recon_rows(s@, zero_seq(rbi), bppi) == opt_prepend(
                out@,
                recon_rows(s@.skip(cursor as int), prev@, bppi),
            ),
            out@.len() == (i as int) * rbi,
        decreases rows - i,
    {
        proof {
            assert(((rows - i) as int) * (1 + rbi) >= 1 * (1 + rbi)) by (nonlinear_arith)
                requires
                    rows - i >= 1,
                    rbi >= 0,
            ;
        }
        let ghost rem = s@.skip(cursor as int);
        let filter_byte = s[cursor];
        assert(rem[0] == filter_byte);
        let f = match Filter::try_from_u8(filter_byte) {
            Some(f) => f,
            None => {
                proof {
                    assert(recon_rows(rem, prev@, bppi) is None);
                }
                return Err(DecodeError::Structure);
            },
        };
        let row_slice = vstd::slice::slice_subrange(s, cursor + 1, cursor + 1 + rb);
        assert(row_slice@ =~= rem.subrange(1, 1 + rbi));
        let row = recon_row(f, row_slice, prev.as_slice(), bpp);
        proof {
            assert(s@.skip(cursor + 1 + rbi) =~= rem.skip(1 + rbi));
            assert(recon_rows(rem, prev@, bppi) == opt_prepend(
                row@,
                recon_rows(rem.skip(1 + rbi), row@, bppi),
            ));
            assert forall|o: Option<Seq<u8>>|
                opt_prepend(out@, opt_prepend(row@, o)) == opt_prepend(out@ + row@, o) by {
                if o is Some {
                    assert(out@ + (row@ + o.unwrap()) =~= (out@ + row@) + o.unwrap());
                }
            }
            assert(((i + 1) as int) * (1 + rbi) == (i as int) * (1 + rbi) + (1 + rbi))
                by (nonlinear_arith);
            assert(((rows - (i + 1)) as int) * (1 + rbi) == ((rows - i) as int) * (1 + rbi) - (1
                + rbi)) by (nonlinear_arith);
            assert(((i + 1) as int) * rbi == (i as int) * rbi + rbi) by (nonlinear_arith);
        }
        out.extend_from_slice(row.as_slice());
        prev = row;
        cursor = cursor + 1 + rb;
        i = i + 1;
    }
    proof {
        assert(s@.skip(cursor as int) =~= Seq::<u8>::empty());
        assert(recon_rows(s@.skip(cursor as int), prev@, bppi) == Some(Seq::<u8>::empty()));
        assert(out@ + Seq::<u8>::empty() =~= out@);
    }
    Ok(out)
}

/// Whether a byte sequence repeats one pixel's bytes: byte `t` always holds
/// channel `t % color.len()` of the pattern.
pub open spec fn channel_solid(s: Seq<u8>, color: Seq<u8>) -> bool {
    forall|t: int| 0 <= t < s.len() ==> s[t] == color[t % (color.len() as int)]
}

/// The pass whose sub-image holds full-buffer byte `t`.
pub open spec fn target_pass(w: int, bpp: int, t: int) -> int {
    pass_of((t / bpp) % w, (t / bpp) / w)
}

/// Whether an interlaced record stream encodes one repeated pixel: pass by
/// pass, every non-empty pass's records reconstruct to the repeating
/// pattern.
pub open spec fn passes_solid(s: Seq<u8>, w: int, h: int, bpp: int, k: int, color: Seq<u8>) -> bool
    decreases 7 - k,
{
    if k >= 7 {
        true
    } else {
        let pw = pass_width(k, w);
        let ph = pass_height(k, h);
        if pw == 0 || ph == 0 {
            passes_solid(s, w, h, bpp, k + 1, color)
        } else {
            let seg = ph * (1 + bpp * pw);
            &&& s.len() >= seg
            &&& match recon_rows(s.subrange(0, seg), zero_seq(bpp * pw), bpp) {
                Some(sub) => channel_solid(sub, color) && passes_solid(
                    s.skip(seg),
                    w,
                    h,
                    bpp,
                    k + 1,
                    color,
                ),
                None => false,
            }
        }
    }
}

/// A reconstructed stream holds one row of `prev.len()` bytes per record.
proof fn lemma_recon_rows_len(s: Seq<u8>, prev: Seq<u8>, bpp: int)
    requires
        recon_rows(s, prev, bpp) is Some,
    ensures
        (1 + prev.len() as int) * (recon_rows(s, prev, bpp).unwrap().len() as int) == (
        prev.len() as int) * (s.len() as int),
    decreases s.len(),
{
    let rb = prev.len() as int;
    if s.len() == 0 {
    } else {
        let f = Filter::spec_from_u8(s[0]).unwrap();
        let row = recon_row_spec(f, s.subrange(1, 1 + rb), prev, bpp);
        assert(row.len() == rb);
        lemma_recon_rows_len(s.skip(1 + rb), row, bpp);
        let rest = recon_rows(s.skip(1 + rb), row, bpp).unwrap();
        assert(recon_rows(s, prev, bpp).unwrap() == row + rest);
        assert((1 + rb) * ((rb + rest.len()) as int) == (1 + rb) * rb + (1 + rb) * (
        rest.len() as int)) by (nonlinear_arith);
        assert(rb * (s.len() as int) == rb * (1 + rb) + rb * (s.len() - 1 - rb))
            by (nonlinear_arith);
        assert((1 + rb) * rb == rb * (1 + rb)) by (nonlinear_arith);
    }
}

/// Every byte of the full-resolution buffer is the target of some byte of
/// its own pass's sub-image.
pub proof fn lemma_pass_target_covers(w: int, h: int, bpp: int, t: int)
    requires
        1 <= bpp,
        0 <= w,
        0 <= h,
        0 <= t < w * h * bpp,
    ensures
        0 <= target_pass(w, bpp, t) < 7,
        exists|m: int|
            0 <= m < bpp * (pass_width(target_pass(w, bpp, t), w) * pass_height(
                target_pass(w, bpp, t),
                h,
            )) && #[trigger] pass_target(target_pass(w, bpp, t), w, bpp, m) == t,
{
    let b = t % bpp;
    let q = t / bpp;
    assert(0 <= b < bpp && 0 <= q && q * bpp + b == t && q < w * h) by (nonlinear_arith)
        requires
            1 <= bpp,
            0 <= t < w * h * bpp,
            b == t % bpp,
            q == t / bpp,
    ;
    assert(w >= 1 && h >= 1) by (nonlinear_arith)
        requires
            0 <= q < w * h,
            0 <= w,
            0 <= h,
    ;
    let x = q % w;
    let y = q / w;
    assert(0 <= x < w && 0 <= y < h && y * w + x == q) by (nonlinear_arith)
        requires
            x == q % w,
            y == q / w,
            0 <= q < w * h,
            w >= 1,
    ;
    let k = pass_of(x, y);
    lemma_adam7_unique(x, y);
    assert(pass_covers(k, x, y));
    let x0 = pass_x_offset(k);
    let xs = pass_x_stride(k);
    let y0 = pass_y_offset(k);
    let ys = pass_y_stride(k);
    lemma_pass_index_in_range(w, x0, xs, x);
    lemma_pass_index_in_range(h, y0, ys, y);
    let j = (x - x0) / xs;
    let i = (y - y0) / ys;
    let pw = pass_width(k, w);
    let ph = pass_height(k, h);
    let p = i * pw + j;
    let m = p * bpp + b;
    assert(0 <= p < pw * ph) by (nonlinear_arith)
        requires
            0 <= i < ph,
            0 <= j < pw,
            p == i * pw + j,
    ;
    assert(0 <= m < bpp * (pw * ph)) by (nonlinear_arith)
        requires
            0 <= p < pw * ph,
            m == p * bpp + b,
            0 <= b < bpp,
    ;
    vstd::arithmetic::div_mod::lemma_fundamental_div_mod_converse(m, bpp, p, b);
    vstd::arithmetic::div_mod::lemma_fundamental_div_mod_converse(p, pw, i, j);
    assert(m / bpp == p && m % bpp == b);
    assert(p / pw == i && p % pw == j);
    assert(pass_target(k, w, bpp, m) == (y * w + x) * bpp + b);
    assert((y * w + x) * bpp + b == t) by (nonlinear_arith)
        requires
            y * w + x == q,
            q * bpp + b == t,
    ;
    assert(target_pass(w, bpp, t) == k);
    assert(pass_target(target_pass(w, bpp, t), w, bpp, m) == t);
}

/// Conversely, a pass target belongs to that pass: the byte a sub-image
/// byte lands on is classified back to the same pass.
proof fn lemma_pass_target_own_pass(k: int, w: int, h: int, bpp: int, m: int)
    requires
        0 <= k < 7,
        1 <= bpp,
        0 <= w,
        0 <= h,
        0 <= m < bpp * (pass_width(k, w) * pass_height(k, h)),
    ensures
        target_pass(w, bpp, pass_target(k, w, bpp, m)) == k,
{
    lemma_pass_target_bound(k, w, h, bpp, m);
    let pw = pass_width(k, w);
    let b = m % bpp;
    let p = m / bpp;
    let i = p / pw;
    let j = p % pw;
    let x0 = pass_x_offset(k);
    let xs = pass_x_stride(k);
    let y0 = pass_y_offset(k);
    let ys = pass_y_stride(k);
    let x = x0 + j * xs;
    let y = y0 + i * ys;
    let t = pass_target(k, w, bpp, m);
    assert(t == (y * w + x) * bpp + b);
    assert(0 <= b < bpp) by (nonlinear_arith)
        requires
            b == m % bpp,
            bpp >= 1,
            m >= 0,
    ;
    vstd::arithmetic::div_mod::lemma_fundamental_div_mod_converse((y * w + x) * bpp + b, bpp, y * w + x, b);
    assert(t / bpp == y * w + x);
    vstd::arithmetic::div_mod::lemma_fundamental_div_mod_converse(y * w + x, w, y, x);
    assert((t / bpp) % w == x && (t / bpp) / w == y);
    // the target's coordinate lies on this pass's grid
    vstd::arithmetic::div_mod::lemma_mod_multiples_basic(j, xs);
    vstd::arithmetic::div_mod::lemma_mod_multiples_basic(i, ys);
    assert((x - x0) % xs == 0 && (y - y0) % ys == 0);
    assert(j * xs >= 0 && i * ys >= 0) by (nonlinear_arith)
        requires
            j >= 0,
            xs >= 1,
            i >= 0,
            ys >= 1,
    ;
    assert(pass_covers(k, x, y));
    lemma_adam7_unique(x, y);
}

/// Scattering a pattern-repeating sub-image writes the pattern byte of each
/// target's channel, and touches no byte of another pass.
proof fn lemma_scatter_solid(
    buf: Seq<u8>,
    sub: Seq<u8>,
    k: int,
    w: int,
    h: int,
    bpp: int,
    n: int,
    color: Seq<u8>,
)
    requires
        0 <= k < 7,
        1 <= bpp,
        0 <= w,
        0 <= h,
        color.len() == bpp,
        buf.len() == w * h * bpp,
        sub.len() <= bpp * (pass_width(k, w) * pass_height(k, h)),
        0 <= n <= sub.len(),
        channel_solid(sub, color),
    ensures
        scatter_pass(buf, sub, k, w, bpp, n).len() == buf.len(),
        forall|t: int|
            0 <= t < buf.len() && target_pass(w, bpp, t) != k ==> #[trigger] scatter_pass(
                buf,
                sub,
                k,
                w,
                bpp,
                n,
            )[t] == buf[t],
        forall|m: int|
            0 <= m < n ==> #[trigger] scatter_pass(buf, sub, k, w, bpp, n)[pass_target(
                k,
                w,
                bpp,
                m,
            )] == color[pass_target(k, w, bpp, m) % bpp],
    decreases n,
{
    if n > 0 {
        lemma_scatter_solid(buf, sub, k, w, h, bpp, n - 1, color);
        lemma_pass_target_bound(k, w, h, bpp, n - 1);
        lemma_pass_target_own_pass(k, w, h, bpp, n - 1);
        let before = scatter_pass(buf, sub, k, w, bpp, n - 1);
        let after = scatter_pass(buf, sub, k, w, bpp, n);
        let tgt = pass_target(k, w, bpp, n - 1);
        assert(after == before.update(tgt, sub[n - 1]));
        assert(sub[n - 1] == color[(n - 1) % bpp]);
        assert(tgt % bpp == (n - 1) % bpp);
        assert forall|m: int| 0 <= m < n implies #[trigger] after[pass_target(k, w, bpp, m)]
            == color[pass_target(k, w, bpp, m) % bpp] by {
            lemma_pass_target_bound(k, w, h, bpp, m);
            let tm = pass_target(k, w, bpp, m);
            if tm == tgt {
                assert(after[tm] == sub[n - 1]);
            } else {
                assert(after[tm] == before[tm]);
            }
        }
    }
}

/// Processing the passes from `k` on over a pattern-repeating stream fills
/// every byte of a pass at or past `k` with its channel's pattern byte and
/// leaves every other byte alone.
proof fn lemma_pass_loop_solid(
    s: Seq<u8>,
    w: int,
    h: int,
    bpp: int,
    k: int,
    buf: Seq<u8>,
    color: Seq<u8>,
)
    requires
        0 <= k <= 7,
        1 <= bpp,
        0 <= w,
        0 <= h,
        color.len() == bpp,
        buf.len() == w * h * bpp,
        passes_solid(s, w, h, bpp, k, color),
    ensures
        adam7_pass_loop(s, w, h, bpp, k, buf) matches Some(res) && res.len() == buf.len() && (
        forall|t: int|
            0 <= t < buf.len() ==> #[trigger] res[t] == (if k <= target_pass(w, bpp, t) {
                color[t % bpp]
            } else {
                buf[t]
            })),
    decreases 7 - k,
{
    if k == 7 {
        assert(adam7_pass_loop(s, w, h, bpp, k, buf) == Some(buf));
        assert forall|t: int| 0 <= t < buf.len() implies !(k <= target_pass(w, bpp, t)) by {
            lemma_pass_target_covers(w, h, bpp, t);
        }
    } else {
        let pw = pass_width(k, w);
        let ph = pass_height(k, h);
        if pw == 0 || ph == 0 {
            lemma_pass_loop_solid(s, w, h, bpp, k + 1, buf, color);
            let res = adam7_pass_loop(s, w, h, bpp, k + 1, buf).unwrap();
            assert forall|t: int| 0 <= t < buf.len() implies target_pass(w, bpp, t) != k by {
                lemma_pass_target_covers(w, h, bpp, t);
                if target_pass(w, bpp, t) == k {
                    let m = choose|m: int|
                        0 <= m < bpp * (pass_width(k, w) * pass_height(k, h)) && #[trigger] pass_target(
                            k,
                            w,
                            bpp,
                            m,
                        ) == t;
                    assert(bpp * (pw * ph) == 0) by (nonlinear_arith)
                        requires
                            pw == 0 || ph == 0,
                    ;
                }
            }
        } else {
            let rb = bpp * pw;
            let seg = ph * (1 + rb);
            let sub = recon_rows(s.subrange(0, seg), zero_seq(rb), bpp).unwrap();
            lemma_recon_rows_len(s.subrange(0, seg), zero_seq(rb), bpp);
            assert(rb >= 1) by (nonlinear_arith)
                requires
                    rb == bpp * pw,
                    bpp >= 1,
                    pw >= 1,
            ;
            assert(sub.len() == ph * rb) by (nonlinear_arith)
                requires
                    (1 + rb) * (sub.len() as int) == rb * (ph * (1 + rb)),
                    rb >= 1,
            ;
            assert(sub.len() == bpp * (pw * ph)) by (nonlinear_arith)
                requires
                    sub.len() == ph * rb,
                    rb == bpp * pw,
            ;
            let buf2 = scatter_pass(buf, sub, k, w, bpp, sub.len() as int);
            lemma_scatter_solid(buf, sub, k, w, h, bpp, sub.len() as int, color);
            assert(adam7_pass_loop(s, w, h, bpp, k, buf) == adam7_pass_loop(
                s.skip(seg),
                w,
                h,
                bpp,
                k + 1,
                buf2,
            ));
            lemma_pass_loop_solid(s.skip(seg), w, h, bpp, k + 1, buf2, color);
            let res = adam7_pass_loop(s.skip(seg), w, h, bpp, k + 1, buf2).unwrap();
            assert forall|t: int|
                0 <= t < buf.len() implies #[trigger] res[t] == (if k <= target_pass(w, bpp, t) {
                color[t % bpp]
            } else {
                buf[t]
            }) by {
                lemma_pass_target_covers(w, h, bpp, t);
                let tp = target_pass(w, bpp, t);
                if tp == k {
                    let m = choose|m: int|
                        0 <= m < bpp * (pass_width(k, w) * pass_height(k, h)) && #[trigger] pass_target(
                            k,
                            w,
                            bpp,
                            m,
                        ) == t;
                    lemma_pass_target_bound(k, w, h, bpp, m);
                    assert(buf2[t] == color[t % bpp]);
                }
            }
        }
    }
}

/// Progressive coverage in effect: an interlaced stream whose passes each
/// reconstruct to one repeated pixel reconstructs to the full image filled
/// with that pixel, which is byte for byte what the row-by-row engine
/// produces for a stream that reconstructs to the same repeated pixel.
pub proof fn lemma_adam7_solid(s: Seq<u8>, header: ImageHeader, color: Seq<u8>)
    requires
        header.interlace_method,
        color.len() == header.spec_bytes_per_pixel(),
        header.spec_bytes_per_pixel() >= 1,
        s.len() == adam7_len_from(
            header.width as int,
            header.height as int,
            header.spec_bytes_per_pixel(),
            0,
        ),
        passes_solid(
            s,
            header.width as int,
            header.height as int,
            header.spec_bytes_per_pixel(),
            0,
            color,
        ),
    ensures
        reconstruct_spec(s, header) matches Ok(buf) && channel_solid(buf, color) && buf.len()
            == header.width * header.height * header.spec_bytes_per_pixel(),
{
    let w = header.width as int;
    let h = header.height as int;
    let bpp = header.spec_bytes_per_pixel();
    lemma_pass_loop_solid(s, w, h, bpp, 0, zero_seq(w * h * bpp), color);
    let res = adam7_pass_loop(s, w, h, bpp, 0, zero_seq(w * h * bpp)).unwrap();
    assert(w * h * bpp >= 0) by (nonlinear_arith)
        requires
            w >= 0,
            h >= 0,
            bpp >= 1,
    ;
    assert forall|t: int| 0 <= t < res.len() implies res[t] == color[t % (color.len() as int)] by {
        lemma_pass_target_covers(w, h, bpp, t);
    }
}

/// Two buffers of one length that both repeat the same pixel are the same
/// buffer: the two engines' solid outputs cannot differ.
pub proof fn lemma_channel_solid_unique(a: Seq<u8>, b: Seq<u8>, color: Seq<u8>)
    requires
        color.len() >= 1,
        a.len() == b.len(),
        channel_solid(a, color),
        channel_solid(b, color),
    ensures
        a == b,
{
    assert(a =~= b);
}

} // verus!
