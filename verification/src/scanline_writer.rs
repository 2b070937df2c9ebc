//! The scanline writer: filters each pixel row against the row above it,
//! scoring all five filters and emitting the cheapest one, so that the
//! reconstruction engine recovers the exact pixel buffer.

use crate::filters::filter_row;
use crate::filters::filter_row_spec;
use crate::filters::lemma_filter_inverse;
use crate::filters::recon_row_spec;
use crate::grammar::Filter;
use crate::grammar::ImageHeader;
use crate::scanline_reader::opt_prepend;
use crate::scanline_reader::recon_rows;
use vstd::prelude::*;

verus! {

/// The score of a filtered row: the sum of its bytes read as unsigned
/// magnitudes; lower counts as more compressible.
pub open spec fn score(s: Seq<u8>) -> int
    decreases s.len(),
{
    if s.len() == 0 {
        0
    } else {
        score(s.drop_last()) + s.last()
    }
}

/// The score a filter earns on a row.
pub open spec fn filter_score(f: Filter, orig: Seq<u8>, prev: Seq<u8>, bpp: int) -> int {
    score(filter_row_spec(f, orig, prev, bpp))
}

/// The minimum-scoring filter for a row, ties broken toward the lower
/// filter-type ordinal.
pub open spec fn best_filter(orig: Seq<u8>, prev: Seq<u8>, bpp: int) -> Filter {
    let s0 = filter_score(Filter::NoFilter, orig, prev, bpp);
    let s1 = filter_score(Filter::Sub, orig, prev, bpp);
    let s2 = filter_score(Filter::Up, orig, prev, bpp);
    let s3 = filter_score(Filter::Average, orig, prev, bpp);
    let s4 = filter_score(Filter::Paeth, orig, prev, bpp);
    if s0 <= s1 && s0 <= s2 && s0 <= s3 && s0 <= s4 {
        Filter::NoFilter
    } else if s1 <= s2 && s1 <= s3 && s1 <= s4 {
        Filter::Sub
    } else if s2 <= s3 && s2 <= s4 {
        Filter::Up
    } else if s3 <= s4 {
        Filter::Average
    } else {
        Filter::Paeth
    }
}

/// The filtered record stream of a pixel buffer: each row of `rb` bytes is
/// filtered by its best filter against the row above it and emitted behind
/// its filter-type byte.
pub open spec fn filter_stream(pix: Seq<u8>, rb: int, bpp: int, prev: Seq<u8>) -> Seq<u8>
    decreases pix.len(),
{
    if rb <= 0 || pix.len() < rb {
        Seq::empty()
    } else {
        let row = pix.subrange(0, rb);
        let f = best_filter(row, prev, bpp);
        seq![f.spec_to_u8()] + filter_row_spec(f, row, prev, bpp) + filter_stream(
            pix.skip(rb),
            rb,
            bpp,
            row,
        )
    }
}

/// The record stream of an `rows`-row buffer is one filter byte plus one row
/// per record.
pub proof fn lemma_filter_stream_len(pix: Seq<u8>, rb: int, bpp: int, prev: Seq<u8>, rows: int)
    requires
        rb >= 1,
        rows >= 0,
        pix.len() == rows * rb,
    ensures
        filter_stream(pix, rb, bpp, prev).len() == rows * (1 + rb),
    decreases rows,
{
    if rows == 0 {
        assert(pix.len() == 0) by (nonlinear_arith)
            requires
                pix.len() == 0 * rb,
        ;
    } else {
        assert(pix.len() >= rb && pix.len() - rb == (rows - 1) * rb) by (nonlinear_arith)
            requires
                pix.len() == rows * rb,
                rows >= 1,
                rb >= 1,
        ;
        let row = pix.subrange(0, rb);
        lemma_filter_stream_len(pix.skip(rb), rb, bpp, row, rows - 1);
        assert(rows * (1 + rb) == (rows - 1) * (1 + rb) + (1 + rb)) by (nonlinear_arith);
    }
}

/// A defined filter-type byte names its own filter.
proof fn lemma_filter_byte_roundtrip(f: Filter)
    ensures
        Filter::spec_from_u8(f.spec_to_u8()) == Some(f),
{
}

/// Round trip of the whole record stream: reconstructing the filtered stream
/// of a pixel buffer recovers the buffer, whatever filters were chosen.
pub proof fn lemma_filter_stream_inverse(pix: Seq<u8>, rb: int, bpp: int, prev: Seq<u8>, rows: int)
    requires
        rb >= 1,
        bpp >= 1,
        rows >= 0,
        pix.len() == rows * rb,
        prev.len() == rb,
    ensures
        recon_rows(filter_stream(pix, rb, bpp, prev), prev, bpp) == Some(pix),
    decreases rows,
{
    let stream = filter_stream(pix, rb, bpp, prev);
    lemma_filter_stream_len(pix, rb, bpp, prev, rows);
    if rows == 0 {
        assert(pix.len() == 0) by (nonlinear_arith)
            requires
                pix.len() == 0 * rb,
        ;
        assert(stream.len() == 0);
        assert(recon_rows(stream, prev, bpp) == Some(Seq::<u8>::empty()));
        assert(pix =~= Seq::<u8>::empty());
    } else {
        assert(pix.len() >= rb && pix.len() - rb == (rows - 1) * rb) by (nonlinear_arith)
            requires
                pix.len() == rows * rb,
                rows >= 1,
                rb >= 1,
        ;
        let row = pix.subrange(0, rb);
        let f = best_filter(row, prev, bpp);
        let filtered = filter_row_spec(f, row, prev, bpp);
        let rest = filter_stream(pix.skip(rb), rb, bpp, row);
        assert(stream == seq![f.spec_to_u8()] + filtered + rest);
        assert(stream.len() >= 1 + rb);
        assert(stream[0] == f.spec_to_u8());
        lemma_filter_byte_roundtrip(f);
        assert(stream.subrange(1, 1 + rb) =~= filtered);
        lemma_filter_inverse(f, row, prev, bpp);
        assert(recon_row_spec(f, stream.subrange(1, 1 + rb), prev, bpp) == row);
        assert(stream.skip(1 + rb) =~= rest);
        lemma_filter_stream_inverse(pix.skip(rb), rb, bpp, row, rows - 1);
        assert(recon_rows(stream, prev, bpp) == opt_prepend(
            row,
            recon_rows(rest, row, bpp),
        ));
        assert(row + pix.skip(rb) =~= pix);
    }
}

/// The sum of a row's bytes, as the row's compressibility score.
fn sum_bytes(v: &[u8]) -> (s: u128)
    ensures
        s as int == score(v@),
{
    let n = v.len();
    let mut acc: u128 = 0;
    let mut j: usize = 0;
    while j < n
        invariant
            0 <= j <= n,
            n == v@.len(),
            acc as int == score(v@.subrange(0, j as int)),
            acc <= (j as int) * 255,
        decreases n - j,
    {
        proof {
            assert(v@.subrange(0, j + 1).drop_last() =~= v@.subrange(0, j as int));
            assert(((j + 1) as int) * 255 == (j as int) * 255 + 255) by (nonlinear_arith);
        }
        acc = acc + (v[j] as u128);
        j = j + 1;
    }
    proof {
        assert(v@.subrange(0, n as int) =~= v@);
    }
    acc
}

/// Computes the output scanline using all five filters, and selects the
/// filter that gives the smallest sum of output bytes, ties broken toward
/// the lower filter-type ordinal.
fn test_filters(prev_chunk: &[u8], chunk: &[u8], num_bytes_per_pixel: usize) -> (r: (
    Filter,
    Vec<u8>,
))
    requires
        prev_chunk@.len() == chunk@.len(),
        num_bytes_per_pixel >= 1 || chunk@.len() == 0,
    ensures
        r.0 == best_filter(chunk@, prev_chunk@, num_bytes_per_pixel as int),
        r.1@ == filter_row_spec(r.0, chunk@, prev_chunk@, num_bytes_per_pixel as int),
{
    let none_scanline = filter_row(Filter::NoFilter, chunk, prev_chunk, num_bytes_per_pixel);
    let sub_scanline = filter_row(Filter::Sub, chunk, prev_chunk, num_bytes_per_pixel);
    let up_scanline = filter_row(Filter::Up, chunk, prev_chunk, num_bytes_per_pixel);
    let avg_scanline = filter_row(Filter::Average, chunk, prev_chunk, num_bytes_per_pixel);
    let paeth_scanline = filter_row(Filter::Paeth, chunk, prev_chunk, num_bytes_per_pixel);

    let s0 = sum_bytes(none_scanline.as_slice());
    let s1 = sum_bytes(sub_scanline.as_slice());
    let s2 = sum_bytes(up_scanline.as_slice());
    let s3 = sum_bytes(avg_scanline.as_slice());
    let s4 = sum_bytes(paeth_scanline.as_slice());

    if s0 <= s1 && s0 <= s2 && s0 <= s3 && s0 <= s4 {
        (Filter::NoFilter, none_scanline)
    } else if s1 <= s2 && s1 <= s3 && s1 <= s4 {
        (Filter::Sub, sub_scanline)
    } else if s2 <= s3 && s2 <= s4 {
        (Filter::Up, up_scanline)
    } else if s3 <= s4 {
        (Filter::Average, avg_scanline)
    } else {
        (Filter::Paeth, paeth_scanline)
    }
}

/// The scanline writer: emits the filtered record stream of a pixel buffer
/// into an in-memory sink.
#[derive(Debug)]
pub struct ScanlineWriter<'a> {
    image_header: &'a ImageHeader,
    writer: Vec<u8>,
}

impl<'a> ScanlineWriter<'a> {
    /// The bytes written so far.
    pub closed spec fn spec_writer(&self) -> Seq<u8> {
        self.writer@
    }

    /// The header this writer lays rows out for.
    pub closed spec fn spec_header(&self) -> ImageHeader {
        *self.image_header
    }

    pub fn new(writer: Vec<u8>, image_header: &'a ImageHeader) -> (r: ScanlineWriter<'a>)
        ensures
            r.spec_writer() == writer@,
            r.spec_header() == *image_header,
    {
        ScanlineWriter { writer, image_header }
    }

    /// Filter and emit every row of a pixel buffer, each against the row
    /// above it and the first against an all-zero row.
    #[verifier::loop_isolation(false)]
    #[verifier::rlimit(100)]
    pub fn write(&mut self, pixel_buffer: &[u8]) -> (r: Result<(), crate::grammar::EncodeError>)
        requires
            pixel_buffer@.len() == old(self).spec_header().width as int * (old(
                self,
            ).spec_header().height as int) * old(self).spec_header().spec_bytes_per_pixel(),
            old(self).spec_header().width >= 1,
            old(self).spec_header().spec_bytes_per_pixel() >= 1,
        ensures
            r is Ok,
            final(self).spec_header() == old(self).spec_header(),
            final(self).spec_writer() == old(self).spec_writer() + filter_stream(
                pixel_buffer@,
                old(self).spec_header().spec_bytes_per_pixel() * (old(
                    self,
                ).spec_header().width as int),
                old(self).spec_header().spec_bytes_per_pixel(),
                Seq::new(
                    (old(self).spec_header().spec_bytes_per_pixel() * (old(
                        self,
                    ).spec_header().width as int)) as nat,
                    |i: int| 0u8,
                ),
            ),
    {
        let header = self.image_header;
        let bpp = header.num_bytes_per_pixel();
        let w = header.width as usize;
        let h = header.height as usize;
        let ghost bppi = bpp as int;
        let ghost rbi = bppi * (w as int);
        proof {
            assert(0 <= rbi <= 128 * 0xffff_ffffu64 && rbi >= 1) by (nonlinear_arith)
                requires
                    rbi == bppi * (w as int),
                    1 <= bppi <= 128,
                    1 <= w <= u32::MAX,
            ;
        }
        if h == 0 {
            proof {
                assert(pixel_buffer@.len() == 0) by (nonlinear_arith)
                    requires
                        pixel_buffer@.len() == (w as int) * (h as int) * bppi,
                        h == 0,
                ;
                assert(filter_stream(pixel_buffer@, rbi, bppi, Seq::new(rbi as nat, |i: int| 0u8))
                    == Seq::<u8>::empty());
                assert(self.writer@ =~= old(self).spec_writer() + Seq::<u8>::empty());
            }
            return Ok(());
        }
        let total_len = pixel_buffer.len();
        proof {
            assert(rbi <= total_len && (h as int) * rbi == total_len) by (nonlinear_arith)
                requires
                    total_len == pixel_buffer@.len(),
                    pixel_buffer@.len() == (w as int) * (h as int) * bppi,
                    rbi == bppi * (w as int),
                    h >= 1,
                    w >= 1,
                    bppi >= 1,
            ;
        }
        let rb = bpp * w;

        let mut prev: Vec<u8> = vec![0u8; rb];
        let ghost zeros = prev@;
        proof {
            assert(zeros =~= Seq::new(rbi as nat, |i: int| 0u8));
            assert(pixel_buffer@.skip(0) =~= pixel_buffer@);
        }
        let mut i: usize = 0;
        while i < h
            invariant
                0 <= i <= h,
                prev@.len() == rb,
                self.image_header == header,
                self.writer@ == old(self).spec_writer() + filter_stream(
                    pixel_buffer@,
                    rbi,
                    bppi,
                    zeros,
                ).subrange(0, (i as int) * (1 + rbi)),
                filter_stream(pixel_buffer@, rbi, bppi, zeros).subrange(
                    (i as int) * (1 + rbi),
                    filter_stream(pixel_buffer@, rbi, bppi, zeros).len() as int,
                ) == filter_stream(pixel_buffer@.skip((i as int) * rbi), rbi, bppi, prev@),
                i < h ==> prev@ == (if i == 0 {
                    zeros
                } else {
                    pixel_buffer@.subrange(((i - 1) as int) * rbi, (i as int) * rbi)
                }),
            decreases h - i,
        {
            proof {
                assert(total_len - (i as int) * rbi == ((h - i) as int) * rbi && total_len - (
                i as int) * rbi >= rbi && ((i + 1) as int) * rbi == (i as int) * rbi + rbi && ((i
                    + 1) as int) * (1 + rbi) == (i as int) * (1 + rbi) + (1 + rbi) && (i as int)
                    * rbi + rbi <= total_len) by (nonlinear_arith)
                    requires
                        total_len == (h as int) * rbi,
                        0 <= i < h,
                        rbi >= 1,
                ;
                lemma_filter_stream_len(
                    pixel_buffer@.skip((i as int) * rbi),
                    rbi,
                    bppi,
                    prev@,
                    (h - i) as int,
                );
            }
            let row_start = i * rb;
            let chunk = vstd::slice::slice_subrange(pixel_buffer, row_start, row_start + rb);
            proof {
                assert(chunk@ =~= pixel_buffer@.skip((i as int) * rbi).subrange(0, rbi));
            }
            let (filter, scanline) = test_filters(prev.as_slice(), chunk, bpp);
            let filter_tag = filter.to_u8();
            self.writer.push(filter_tag);
            self.writer.extend_from_slice(scanline.as_slice());
            proof {
                let full = filter_stream(pixel_buffer@, rbi, bppi, zeros);
                let remv = pixel_buffer@.skip((i as int) * rbi);
                let record = seq![filter.spec_to_u8()] + filter_row_spec(
                    filter,
                    chunk@,
                    prev@,
                    bppi,
                );
                assert(remv.subrange(0, rbi) =~= chunk@);
                let rest = filter_stream(remv.skip(rbi), rbi, bppi, remv.subrange(0, rbi));
                assert(filter_stream(remv, rbi, bppi, prev@) == record + rest);
                assert(record.len() == 1 + rbi);
                let tail = full.subrange((i as int) * (1 + rbi), full.len() as int);
                assert(tail == record + rest);
                lemma_filter_stream_len(pixel_buffer@, rbi, bppi, zeros, h as int);
                assert(full.len() == (h as int) * (1 + rbi));
                assert(((i + 1) as int) * (1 + rbi) <= full.len()) by (nonlinear_arith)
                    requires
                        full.len() == (h as int) * (1 + rbi),
                        0 <= i < h,
                        rbi >= 1,
                ;
                assert(remv.skip(rbi) =~= pixel_buffer@.skip(((i + 1) as int) * rbi));
                assert(full.subrange(((i + 1) as int) * (1 + rbi), full.len() as int) =~= tail.skip(
                    1 + rbi,
                ));
                assert(tail.skip(1 + rbi) =~= rest);
                assert(full.subrange(0, ((i + 1) as int) * (1 + rbi)) =~= full.subrange(
                    0,
                    (i as int) * (1 + rbi),
                ) + tail.subrange(0, 1 + rbi));
                assert(tail.subrange(0, 1 + rbi) =~= record);
                assert(self.writer@ =~= old(self).spec_writer() + full.subrange(
                    0,
                    ((i + 1) as int) * (1 + rbi),
                ));
                assert(chunk@ =~= pixel_buffer@.subrange((i as int) * rbi, ((i + 1) as int) * rbi));
            }
            // The next row filters against the original bytes of this row,
            // not its filtered form.
            prev = vstd::slice::slice_to_vec(chunk);
            i = i + 1;
        }
        proof {
            let full = filter_stream(pixel_buffer@, rbi, bppi, zeros);
            lemma_filter_stream_len(pixel_buffer@, rbi, bppi, zeros, h as int);
            assert(full.subrange(0, (h as int) * (1 + rbi)) =~= full);
            assert(self.writer@ == old(self).spec_writer() + full);
        }
        Ok(())
    }

    /// Hand back the sink with everything written so far.
    pub fn finish(self) -> (r: Vec<u8>)
        ensures
            r@ == self.spec_writer(),
    {
        self.writer
    }
}

} // verus!
