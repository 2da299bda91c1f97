//! Bits, most significant first, and their packing into bytes.

use vstd::arithmetic::power2;
use vstd::prelude::*;

use crate::codec::h264::emulation::EmulationPrevention;

verus! {

/// The bit at index `k` as a number; the bits past the end are zero.
pub open spec fn bit_at(bits: Seq<bool>, k: int) -> int {
    if 0 <= k < bits.len() && bits[k] {
        1
    } else {
        0
    }
}

/// The byte that the bits `8 * i .. 8 * i + 8` make up, the first being the most significant.
pub open spec fn byte_at(bits: Seq<bool>, i: int) -> int {
    128 * bit_at(bits, 8 * i) + 64 * bit_at(bits, 8 * i + 1) + 32 * bit_at(bits, 8 * i + 2) + 16
        * bit_at(bits, 8 * i + 3) + 8 * bit_at(bits, 8 * i + 4) + 4 * bit_at(bits, 8 * i + 5) + 2
        * bit_at(bits, 8 * i + 6) + bit_at(bits, 8 * i + 7)
}

/// The bytes that are complete in `bits`.
pub open spec fn whole_bytes(bits: Seq<bool>) -> Seq<u8> {
    Seq::new(bits.len() / 8, |i: int| byte_at(bits, i) as u8)
}

/// All of `bits` as bytes, the last one filled up with zero bits.
pub open spec fn pack(bits: Seq<bool>) -> Seq<u8> {
    Seq::new((bits.len() + 7) / 8, |i: int| byte_at(bits, i) as u8)
}

/// The low `n` bits of `value`, the most significant first.
pub open spec fn value_bits(n: nat, value: nat) -> Seq<bool> {
    Seq::new(n, |i: int| (value / power2::pow2((n - 1 - i) as nat)) % 2 == 1)
}

/// The zero bits that a flush adds to complete the last byte.
pub open spec fn padding(bits: Seq<bool>) -> int {
    (8 - bits.len() % 8) % 8
}

/// A byte made of bits is a byte.
pub(crate) proof fn lemma_byte_range(bits: Seq<bool>, i: int)
    ensures
        0 <= byte_at(bits, i) < 256,
{
}

/// Appending one bit changes only the byte that it falls into.
proof fn lemma_push_bit(bits: Seq<bool>, bit: bool)
    ensures
        forall|i: int|
            0 <= i < bits.len() / 8 ==> #[trigger] byte_at(bits.push(bit), i) == byte_at(bits, i),
        bits.len() % 8 == 7 ==> whole_bytes(bits.push(bit)) == whole_bytes(bits).push(
            byte_at(bits.push(bit), (bits.len() / 8) as int) as u8,
        ),
        bits.len() % 8 != 7 ==> whole_bytes(bits.push(bit)) == whole_bytes(bits),
{
    let more = bits.push(bit);
    assert forall|i: int| 0 <= i < bits.len() / 8 implies #[trigger] byte_at(more, i) == byte_at(
        bits,
        i,
    ) by {
        assert forall|k: int| 8 * i <= k < 8 * i + 8 implies #[trigger] bit_at(more, k) == bit_at(
            bits,
            k,
        ) by {}
    }
    if bits.len() % 8 == 7 {
        assert(more.len() / 8 == bits.len() / 8 + 1);
        assert(whole_bytes(more) =~= whole_bytes(bits).push(
            byte_at(more, (bits.len() / 8) as int) as u8,
        ));
    } else {
        assert(more.len() / 8 == bits.len() / 8);
        assert(whole_bytes(more) =~= whole_bytes(bits));
    }
}

/// The weight of the bit that lands in place `k` of the open byte.
proof fn lemma_push_weight(bits: Seq<bool>, bit: bool)
    ensures
        byte_at(bits.push(bit), (bits.len() / 8) as int) == byte_at(bits, (bits.len() / 8) as int)
            + if bit {
            power2::pow2((7 - bits.len() % 8) as nat) as int
        } else {
            0
        },
{
    power2::lemma2_to64();
    let more = bits.push(bit);
    let n = (bits.len() / 8) as int;
    let k = (bits.len() % 8) as int;
    assert(bits.len() == 8 * n + k);
    assert forall|j: int| 0 <= j < 8 && j != k implies #[trigger] bit_at(more, 8 * n + j) == bit_at(
        bits,
        8 * n + j,
    ) by {}
    assert(bit_at(more, 8 * n + 0) == bit_at(more, 8 * n));
    assert(bit_at(bits, 8 * n + 0) == bit_at(bits, 8 * n));
    assert(bit_at(bits, 8 * n + k) == 0);
    assert(bit_at(more, 8 * n + k) == if bit { 1int } else { 0int });
}

/// A byte with no bits in it is zero.
proof fn lemma_empty_byte(bits: Seq<bool>)
    requires
        bits.len() % 8 == 0,
    ensures
        byte_at(bits, (bits.len() / 8) as int) == 0,
        pack(bits) == whole_bytes(bits),
{
    assert(pack(bits) =~= whole_bytes(bits));
}

/// Bits that do not fill their last byte leave one more byte to write.
proof fn lemma_partial_byte(bits: Seq<bool>)
    requires
        bits.len() % 8 != 0,
    ensures
        pack(bits) == whole_bytes(bits).push(byte_at(bits, (bits.len() / 8) as int) as u8),
{
    assert((bits.len() + 7) / 8 == bits.len() / 8 + 1);
    assert(pack(bits) =~= whole_bytes(bits).push(byte_at(bits, (bits.len() / 8) as int) as u8));
}

/// Why a [`BitWriter`] refused a value.
#[derive(Copy, Clone, Debug, PartialEq, Eq, Structural)]
pub enum BitWriterError {
    /// More bits were asked for than a `u32` holds.
    InvalidBitCount,
}

/// A writer that gathers bits into bytes, the most significant bit first, and
/// hands each complete byte on.
pub struct BitWriter {
    out: EmulationPrevention,
    nth_bit: u8,
    curr_byte: u8,
    bits: Ghost<Seq<bool>>,
}

impl BitWriter {
    /// The bits written since the last flush.
    pub closed spec fn bits(&self) -> Seq<bool> {
        self.bits@
    }

    /// The bytes that stand in the output, final, before those bits.
    pub closed spec fn flushed(&self) -> Seq<u8> {
        self.out.flushed()
    }

    /// Whether emulation prevention is on.
    pub closed spec fn ep_enabled(&self) -> bool {
        self.out.ep_enabled()
    }

    /// The open byte holds the bits that do not make up a whole one, and the
    /// whole ones have been handed on.
    pub closed spec fn wf(&self) -> bool {
        &&& self.out.wf()
        &&& self.out.payload() == whole_bytes(self.bits@)
        &&& self.nth_bit == self.bits@.len() % 8
        &&& self.curr_byte == byte_at(self.bits@, (self.bits@.len() / 8) as int)
    }

    /// Starts a writer on top of `out`.
    pub fn new(out: EmulationPrevention) -> (r: Self)
        requires
            out.wf(),
            out.payload() == Seq::<u8>::empty(),
        ensures
            r.wf(),
            r.bits() == Seq::<bool>::empty(),
            r.flushed() == out.flushed(),
            r.ep_enabled() == out.ep_enabled(),
    {
        let r = Self { out, nth_bit: 0, curr_byte: 0, bits: Ghost(Seq::empty()) };
        proof {
            lemma_empty_byte(r.bits@);
            assert(whole_bytes(r.bits@) =~= Seq::<u8>::empty());
        }
        r
    }

    /// Writes the low `bits` bits of `value`, and returns how many that was.
    pub fn write_f(&mut self, bits: usize, value: u32) -> (r: Result<usize, BitWriterError>)
        requires
            old(self).wf(),
        ensures
            final(self).wf(),
            final(self).flushed() == old(self).flushed(),
            final(self).ep_enabled() == old(self).ep_enabled(),
            bits > 32 ==> r == Err::<usize, BitWriterError>(BitWriterError::InvalidBitCount)
                && final(self).bits() == old(self).bits(),
            bits <= 32 ==> r == Ok::<usize, BitWriterError>(bits) && final(self).bits() == old(
                self,
            ).bits() + value_bits(bits as nat, value as nat),
    {
        if bits > 32 {
            return Err(BitWriterError::InvalidBitCount);
        }
        let mut left: usize = bits;
        let ghost all = value_bits(bits as nat, value as nat);
        assert(old(self).bits() =~= old(self).bits() + all.take(0));
        while left > 0
            invariant
                left <= bits <= 32,
                self.wf(),
                self.flushed() == old(self).flushed(),
                self.ep_enabled() == old(self).ep_enabled(),
                all == value_bits(bits as nat, value as nat),
                self.bits() == old(self).bits() + all.take(bits - left),
            decreases left,
        {
            left = left - 1;
            let shifted: u32 = value >> (left as u32);
            let bit: bool = shifted & 1 == 1;
            proof {
                vstd::bits::lemma_u32_shr_is_div(value, left as u32);
                assert(shifted & 1 == shifted % 2) by (bit_vector);
                assert(bit == all[bits - 1 - left]);
                assert(all.take(bits - left) =~= all.take(bits - left - 1).push(bit));
            }
            self.write_bit(bit);
            assert(self.bits() =~= old(self).bits() + all.take(bits - left));
        }
        assert(all.take(bits as int) =~= all);
        Ok(bits)
    }

    /// Writes a single bit.
    pub fn write_bit(&mut self, bit: bool)
        requires
            old(self).wf(),
        ensures
            final(self).wf(),
            final(self).bits() == old(self).bits().push(bit),
            final(self).flushed() == old(self).flushed(),
            final(self).ep_enabled() == old(self).ep_enabled(),
    {
        let ghost before = self.bits@;
        let ghost after = before.push(bit);
        proof {
            lemma_push_bit(before, bit);
            lemma_push_weight(before, bit);
            lemma_byte_range(after, (before.len() / 8) as int);
        }
        if bit {
            self.curr_byte = self.curr_byte + weight(7 - self.nth_bit);
        }
        self.nth_bit = self.nth_bit + 1;
        self.bits = Ghost(after);
        if self.nth_bit == 8 {
            let byte: u8 = self.curr_byte;
            self.out.write_byte(byte);
            self.nth_bit = 0;
            self.curr_byte = 0;
            proof {
                lemma_empty_byte(after);
            }
        } else {
            assert(after.len() / 8 == before.len() / 8);
        }
    }

    /// Completes the open byte with zero bits and hands everything on. Returns
    /// how many bits of the last byte are such filling.
    pub fn flush(&mut self) -> (r: u8)
        requires
            old(self).wf(),
        ensures
            final(self).wf(),
            final(self).bits() == Seq::<bool>::empty(),
            final(self).flushed() == old(self).flushed() + EmulationPrevention::protected(
                pack(old(self).bits()),
                old(self).ep_enabled(),
            ),
            final(self).ep_enabled() == old(self).ep_enabled(),
            r == padding(old(self).bits()),
    {
        let mut num_trailing_bits: u8 = 0;
        if self.nth_bit != 0 {
            proof {
                lemma_partial_byte(self.bits@);
            }
            let byte: u8 = self.curr_byte;
            self.out.write_byte(byte);
            num_trailing_bits = 8 - self.nth_bit;
            self.nth_bit = 0;
            self.curr_byte = 0;
        } else {
            proof {
                lemma_empty_byte(self.bits@);
            }
        }
        self.out.flush();
        self.bits = Ghost(Seq::empty());
        proof {
            lemma_empty_byte(self.bits@);
            assert(whole_bytes(self.bits@) =~= Seq::<u8>::empty());
        }
        num_trailing_bits
    }

    /// Returns whether the open byte holds bits that were not handed on.
    pub fn has_data_pending(&self) -> (r: bool)
        requires
            self.wf(),
        ensures
            r == (self.bits().len() % 8 != 0),
    {
        self.nth_bit != 0
    }

    /// Returns whether the byte layer below holds bytes back.
    pub fn inner_has_data_pending(&self) -> (r: bool)
        requires
            self.wf(),
        ensures
            r == EmulationPrevention::holds_back(whole_bytes(self.bits()), self.ep_enabled()),
    {
        self.out.has_data_pending()
    }

    /// Writes a NAL unit header below the bits, of which none may be waiting.
    pub fn write_header(&mut self, idc: u8, type_: u8)
        requires
            old(self).wf(),
            old(self).bits() == Seq::<bool>::empty(),
        ensures
            final(self).wf(),
            final(self).bits() == Seq::<bool>::empty(),
            final(self).flushed() == old(self).flushed() + EmulationPrevention::header(idc, type_),
            final(self).ep_enabled() == old(self).ep_enabled(),
    {
        assert(whole_bytes(self.bits@) =~= Seq::<u8>::empty());
        self.out.write_header(idc, type_);
    }

    /// Gives the output back. Nothing may be waiting.
    pub fn into_inner(self) -> (r: Vec<u8>)
        requires
            self.wf(),
            self.bits() == Seq::<bool>::empty(),
        ensures
            r@ == self.flushed(),
    {
        assert(whole_bytes(self.bits@) =~= Seq::<u8>::empty());
        self.out.into_inner()
    }
}

/// Two to the power of `place`, for a place in a byte.
fn weight(place: u8) -> (r: u8)
    requires
        place < 8,
    ensures
        r == power2::pow2(place as nat),
{
    proof {
        power2::lemma2_to64();
    }
    match place {
        0 => 1,
        1 => 2,
        2 => 4,
        3 => 8,
        4 => 16,
        5 => 32,
        6 => 64,
        _ => 128,
    }
}

} // verus!
