//! A least-significant-bit-first bit reader over a byte buffer, as the
//! compressed-stream grammar reads its fields.

use crate::grammar::DecodeError;
use vstd::prelude::*;

verus! {

/// Bit `i` of a byte buffer, counting bits within each byte from the least
/// significant end.
pub open spec fn bit_of(data: Seq<u8>, i: int) -> u8 {
    (data[i / 8] / (pow2_u8(i % 8))) % 2
}

/// The eight small powers of two a bit index can select.
pub open spec fn pow2_u8(e: int) -> u8 {
    if e <= 0 {
        1
    } else if e == 1 {
        2
    } else if e == 2 {
        4
    } else if e == 3 {
        8
    } else if e == 4 {
        16
    } else if e == 5 {
        32
    } else if e == 6 {
        64
    } else {
        128
    }
}

/// The value of `n` bits starting at bit `start`, least significant first.
pub open spec fn nbits_val(data: Seq<u8>, start: int, n: int) -> int
    decreases n,
{
    if n <= 0 {
        0
    } else {
        bit_of(data, start) + 2 * nbits_val(data, start + 1, n - 1)
    }
}

/// The bit reader: a cursor counted in bits over a borrowed byte buffer.
#[derive(Debug)]
pub struct BitstreamReader<'a> {
    // in bits
    cursor: usize,
    data: &'a [u8],
}

impl<'a> BitstreamReader<'a> {
    /// The bytes this reader walks.
    pub closed spec fn spec_data(&self) -> Seq<u8> {
        self.data@
    }

    /// The cursor, in bits.
    pub closed spec fn spec_cursor(&self) -> int {
        self.cursor as int
    }

    /// The cursor stays within the buffer's bits, and the bit count itself
    /// fits the machine.
    pub closed spec fn wf(&self) -> bool {
        &&& self.cursor as int <= 8 * self.data@.len()
        &&& 8 * self.data@.len() <= usize::MAX as int
    }

    pub fn new(data: &'a [u8]) -> (r: BitstreamReader<'a>)
        requires
            data@.len() * 8 <= usize::MAX as int,
        ensures
            r.spec_data() == data@,
            r.spec_cursor() == 0,
            r.wf(),
    {
        BitstreamReader { cursor: 0, data }
    }

    /// The cursor split into its byte index and the bit offset inside that
    /// byte.
    fn divmod_8(&self) -> (r: (usize, usize))
        ensures
            r.0 == self.spec_cursor() / 8,
            r.1 == self.spec_cursor() % 8,
    {
        (self.cursor / 8, self.cursor % 8)
    }

    /// Read the bit at the cursor without an exhaustion check.
    fn read_bit_unchecked(&mut self) -> (b: u8)
        requires
            old(self).wf(),
            old(self).spec_cursor() / 8 < old(self).spec_data().len(),
        ensures
            final(self).wf(),
            final(self).spec_data() == old(self).spec_data(),
            final(self).spec_cursor() == old(self).spec_cursor() + 1,
            b == bit_of(old(self).spec_data(), old(self).spec_cursor()),
    {
        let (byte_idx, bit_idx) = self.divmod_8();
        let byte = self.data[byte_idx];

        self.cursor = self.cursor + 1;

        let divisor: u8 = if bit_idx == 0 {
            1
        } else if bit_idx == 1 {
            2
        } else if bit_idx == 2 {
            4
        } else if bit_idx == 3 {
            8
        } else if bit_idx == 4 {
            16
        } else if bit_idx == 5 {
            32
        } else if bit_idx == 6 {
            64
        } else {
            128
        };
        proof {
            assert(divisor == pow2_u8(old(self).spec_cursor() % 8));
        }
        (byte / divisor) % 2
    }

    /// Read one bit, failing when the buffer is exhausted.
    pub fn read_bit(&mut self) -> (r: Result<u8, DecodeError>)
        requires
            old(self).wf(),
        ensures
            final(self).wf(),
            final(self).spec_data() == old(self).spec_data(),
            match r {
                Ok(b) => old(self).spec_cursor() / 8 < old(self).spec_data().len() && b == bit_of(
                    old(self).spec_data(),
                    old(self).spec_cursor(),
                ) && final(self).spec_cursor() == old(self).spec_cursor() + 1,
                Err(e) => e == DecodeError::Truncation && old(self).spec_cursor() / 8 >= old(self).spec_data().len() && final(self).spec_cursor() == old(self).spec_cursor(),
            },
    {
        if self.cursor / 8 >= self.data.len() {
            return Err(DecodeError::Truncation);
        }

        Ok(self.read_bit_unchecked())
    }

    /// Read `bit_len` bits as one value, least significant bit first,
    /// failing when fewer bits remain.
    #[verifier::loop_isolation(false)]
    pub fn read_nbits(&mut self, bit_len: usize) -> (r: Result<usize, DecodeError>)
        requires
            old(self).wf(),
            bit_len <= 32,
        ensures
            final(self).wf(),
            final(self).spec_data() == old(self).spec_data(),
            match r {
                Ok(out) => {
                    &&& old(self).spec_cursor() + bit_len <= old(self).spec_data().len() * 8
                    &&& out as int == nbits_val(
                        old(self).spec_data(),
                        old(self).spec_cursor(),
                        bit_len as int,
                    )
                    &&& final(self).spec_cursor() == old(self).spec_cursor() + bit_len
                },
                Err(e) => e == DecodeError::Truncation && old(self).spec_cursor() + bit_len > old(self).spec_data().len() * 8 && final(self).spec_cursor() == old(self).spec_cursor(),
            },
    {
        if (self.cursor as u128) + (bit_len as u128) > (self.data.len() as u128) * 8 {
            return Err(DecodeError::Truncation);
        }

        let ghost start = self.cursor as int;
        let ghost s = self.data@;
        let mut out: u64 = 0;
        let mut scale: u64 = 1;
        let mut i: usize = 0;
        while i < bit_len
            invariant
                0 <= i <= bit_len,
                self.data@ == s,
                self.cursor == start + i,
                scale as int == pow2x(i as int),
                scale <= 0x1_0000_0000u64,
                out < scale,
                nbits_val(s, start, bit_len as int) == out + scale as int * nbits_val(
                    s,
                    start + i,
                    bit_len - i,
                ),
            decreases bit_len - i,
        {
            proof {
                assert((start + i) / 8 < s.len()) by (nonlinear_arith)
                    requires
                        0 <= start + i,
                        start + i < s.len() * 8,
                ;
                lemma_pow2x_bound(i as int + 1);
                assert(2 * pow2x(i as int) == pow2x(i as int + 1));
            }
            let b = self.read_bit_unchecked();
            proof {
                assert(nbits_val(s, start + i, bit_len - i) == bit_of(s, start + i) + 2 * nbits_val(
                    s,
                    start + i + 1,
                    bit_len - (i + 1),
                ));
                assert(b <= 1);
                assert(out + scale as int * (bit_of(s, start + i) + 2 * nbits_val(
                    s,
                    start + i + 1,
                    bit_len - (i + 1),
                )) == (out + scale as int * bit_of(s, start + i)) + (2 * scale as int) * nbits_val(
                    s,
                    start + i + 1,
                    bit_len - (i + 1),
                )) by (nonlinear_arith);
            }
            proof {
                if b == 0 {
                    assert(scale * (b as u64) == 0) by (nonlinear_arith)
                        requires
                            b == 0,
                    ;
                } else {
                    assert(b == 1);
                    assert(scale * (b as u64) == scale) by (nonlinear_arith)
                        requires
                            b == 1,
                    ;
                }
            }
            out = out + scale * (b as u64);
            scale = scale * 2;
            i = i + 1;
        }
        proof {
            assert(nbits_val(s, start + bit_len, 0) == 0);
            assert(out < 0x1_0000_0000u64);
        }
        Ok(out as usize)
    }

    /// Fail unless the cursor stands on a byte boundary; hand back the byte
    /// index it stands on.
    fn byte_aligned(&self) -> (r: Result<usize, DecodeError>)
        ensures
            match r {
                Ok(byte_idx) => self.spec_cursor() % 8 == 0 && byte_idx == self.spec_cursor() / 8,
                Err(e) => e == DecodeError::Corruption && self.spec_cursor() % 8 != 0,
            },
    {
        let (byte_idx, bit_len) = self.divmod_8();
        if bit_len != 0 {
            return Err(DecodeError::Corruption);
        }

        Ok(byte_idx)
    }

    /// Read a big-endian 16-bit value from a byte-aligned cursor; the read
    /// fails only on an unaligned cursor or when fewer than two bytes remain.
    pub fn read_u16(&mut self) -> (r: Result<u16, DecodeError>)
        requires
            old(self).wf(),
        ensures
            final(self).wf(),
            final(self).spec_data() == old(self).spec_data(),
            match r {
                Ok(n) => {
                    &&& old(self).spec_cursor() % 8 == 0
                    &&& old(self).spec_cursor() / 8 + 2 <= old(self).spec_data().len()
                    &&& n as int == old(self).spec_data()[old(self).spec_cursor() / 8] * 0x100
                        + old(self).spec_data()[old(self).spec_cursor() / 8 + 1]
                    &&& final(self).spec_cursor() == old(self).spec_cursor() + 16
                },
                Err(e) => final(self).spec_cursor() == old(self).spec_cursor() && (if old(
                    self,
                ).spec_cursor() % 8 != 0 {
                    e == DecodeError::Corruption
                } else {
                    e == DecodeError::Truncation && old(self).spec_cursor() / 8 + 2 > old(
                        self,
                    ).spec_data().len()
                }),
            },
    {
        let byte_idx = match self.byte_aligned() {
            Ok(b) => b,
            Err(e) => {
                return Err(e);
            },
        };
        if byte_idx >= self.data.len() || self.data.len() - byte_idx < 2 {
            return Err(DecodeError::Truncation);
        }
        let n = (self.data[byte_idx] as u16) * 0x100 + (self.data[byte_idx + 1] as u16);
        proof {
            assert(self.cursor as int == 8 * (self.cursor as int / 8));
        }
        self.cursor = self.cursor + 16;

        Ok(n)
    }

    /// Read `byte_len` whole bytes from a byte-aligned cursor; the read
    /// fails only on an unaligned cursor, an empty request, or too few
    /// remaining bytes.
    pub fn read_slice(&mut self, byte_len: usize) -> (r: Result<&'a [u8], DecodeError>)
        requires
            old(self).wf(),
        ensures
            final(self).wf(),
            final(self).spec_data() == old(self).spec_data(),
            match r {
                Ok(out) => {
                    &&& old(self).spec_cursor() % 8 == 0
                    &&& byte_len >= 1
                    &&& old(self).spec_cursor() / 8 + byte_len <= old(self).spec_data().len()
                    &&& out@ == old(self).spec_data().subrange(
                        old(self).spec_cursor() / 8,
                        old(self).spec_cursor() / 8 + byte_len,
                    )
                    &&& final(self).spec_cursor() == old(self).spec_cursor() + byte_len * 8
                },
                Err(e) => final(self).spec_cursor() == old(self).spec_cursor() && (if old(
                    self,
                ).spec_cursor() % 8 != 0 {
                    e == DecodeError::Corruption
                } else if byte_len == 0 {
                    e == DecodeError::Corruption
                } else {
                    e == DecodeError::Truncation && old(self).spec_cursor() / 8 + byte_len > old(
                        self,
                    ).spec_data().len()
                }),
            },
    {
        let byte_idx = match self.byte_aligned() {
            Ok(b) => b,
            Err(e) => {
                return Err(e);
            },
        };

        if byte_len == 0 {
            return Err(DecodeError::Corruption);
        }
        if byte_idx > self.data.len() || self.data.len() - byte_idx < byte_len {
            return Err(DecodeError::Truncation);
        }

        let out = vstd::slice::slice_subrange(self.data, byte_idx, byte_idx + byte_len);
        proof {
            assert(self.cursor as int == 8 * (self.cursor as int / 8));
            assert((self.cursor as int) + (byte_len as int) * 8 <= self.data@.len() * 8)
                by (nonlinear_arith)
                requires
                    self.cursor as int == (self.cursor as int / 8) * 8,
                    self.cursor as int / 8 + byte_len <= self.data@.len(),
                    byte_len >= 0,
            ;
        }
        self.cursor = self.cursor + byte_len * 8;

        Ok(out)
    }

    /// Step the cursor forward to the next byte boundary; a cursor already
    /// on a boundary stays put.
    pub fn next_byte(&mut self) -> (r: Result<(), DecodeError>)
        requires
            old(self).wf(),
        ensures
            final(self).wf(),
            final(self).spec_data() == old(self).spec_data(),
            match r {
                Ok(()) => old(self).spec_cursor() / 8 < old(self).spec_data().len() && final(self).spec_cursor() == (if old(self).spec_cursor() % 8 == 0 {
                    old(self).spec_cursor()
                } else {
                    old(self).spec_cursor() + 8 - old(self).spec_cursor() % 8
                }),
                Err(e) => e == DecodeError::Truncation && old(self).spec_cursor() / 8 >= old(
                    self,
                ).spec_data().len() && final(self).spec_cursor() == old(self).spec_cursor(),
            },
    {
        if self.cursor / 8 >= self.data.len() {
            return Err(DecodeError::Truncation);
        }

        let (_, bit_len) = self.divmod_8();

        if bit_len != 0 {
            proof {
                assert(self.cursor as int == 8 * (self.cursor as int / 8) + (self.cursor as int
                    % 8));
                assert(8 * (self.cursor as int / 8) + 8 <= 8 * self.data@.len());
            }
            self.cursor = self.cursor + (8 - bit_len);
        }

        Ok(())
    }
}

/// Powers of two as loop scales.
pub open spec fn pow2x(e: int) -> int
    decreases e,
{
    if e <= 0 {
        1
    } else {
        2 * pow2x(e - 1)
    }
}

/// The scales a 32-bit read can use stay within the accumulator's width.
proof fn lemma_pow2x_bound(e: int)
    requires
        0 <= e <= 32,
    ensures
        1 <= pow2x(e) <= 0x1_0000_0000,
{
    lemma_pow2x_pos(e);
    reveal_with_fuel(pow2x, 33);
    assert(pow2x(32) == 0x1_0000_0000);
    lemma_pow2x_mono(e, 32);
}

/// Doubling never shrinks.
proof fn lemma_pow2x_mono(a: int, b: int)
    requires
        0 <= a <= b,
    ensures
        pow2x(a) <= pow2x(b),
    decreases b,
{
    if a < b {
        lemma_pow2x_mono(a, b - 1);
        assert(pow2x(b) == 2 * pow2x(b - 1));
        assert(pow2x(b - 1) >= 1) by {
            lemma_pow2x_pos(b - 1);
        }
    }
}

/// Powers of two are positive.
proof fn lemma_pow2x_pos(e: int)
    ensures
        pow2x(e) >= 1,
    decreases e,
{
    if e > 0 {
        lemma_pow2x_pos(e - 1);
    }
}

} // verus!
