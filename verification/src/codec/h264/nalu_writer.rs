//! The NAL unit writer: fixed-size and Exp-Golomb coded fields, packed into
//! bytes and protected from emulating a start code.

use vstd::prelude::*;
use vstd::std_specs::convert::FromSpecImpl;

use crate::bitstream_utils;
use crate::bitstream_utils::BitWriter;
use crate::bitstream_utils::BitWriterError;
use crate::codec::h264::emulation::EmulationPrevention;
use crate::codec::h264::golomb;

verus! {

/// Why a [`NaluWriter`] refused a value.
#[derive(Copy, Clone, Debug, PartialEq, Eq, Structural)]
pub enum NaluWriterError {
    /// The value has no Exp-Golomb code that a `u32` holds.
    Overflow,
    /// The bits could not be written.
    BitWriterError(BitWriterError),
}

impl NaluWriterError {
    /// Returns what went wrong, in words.
    pub fn message(&self) -> (r: &'static str)
        ensures
            r@ == match self {
                NaluWriterError::Overflow => "value increment caused value overflow"@,
                NaluWriterError::BitWriterError(_) => "invalid bit count"@,
            },
    {
        match self {
            NaluWriterError::Overflow => "value increment caused value overflow",
            NaluWriterError::BitWriterError(_) => "invalid bit count",
        }
    }
}

impl From<BitWriterError> for NaluWriterError {
    fn from(err: BitWriterError) -> (r: Self) {
        NaluWriterError::BitWriterError(err)
    }
}

impl FromSpecImpl<BitWriterError> for NaluWriterError {
    open spec fn obeys_from_spec() -> bool {
        true
    }

    open spec fn from_spec(err: BitWriterError) -> Self {
        NaluWriterError::BitWriterError(err)
    }
}

pub type NaluWriterResult<T> = Result<T, NaluWriterError>;

/// A writer for H.264 bitstream. It is capable of outputing bitstream with
/// emulation-prevention.
///
/// What it has written is told apart into the bytes that are final in the
/// output, and the bits since the last flush.
pub struct NaluWriter(BitWriter);

impl NaluWriter {
    /// The bits written since the last flush.
    pub closed spec fn bits(&self) -> Seq<bool> {
        self.0.bits()
    }

    /// The bytes that stand in the output, final, before those bits.
    pub closed spec fn flushed(&self) -> Seq<u8> {
        self.0.flushed()
    }

    /// Whether emulation prevention is on.
    pub closed spec fn ep_enabled(&self) -> bool {
        self.0.ep_enabled()
    }

    /// The layers agree on what was written.
    pub closed spec fn wf(&self) -> bool {
        self.0.wf()
    }

    /// What the output comes to when `bits` end behind `flushed`.
    pub open spec fn closed_off(flushed: Seq<u8>, bits: Seq<bool>, ep_enabled: bool) -> Seq<u8> {
        flushed + EmulationPrevention::protected(bitstream_utils::pack(bits), ep_enabled)
    }

    /// Starts behind what `writer` holds.
    pub fn new(writer: Vec<u8>, ep_enabled: bool) -> (r: Self)
        ensures
            r.wf(),
            r.flushed() == writer@,
            r.bits() == Seq::<bool>::empty(),
            r.ep_enabled() == ep_enabled,
    {
        Self(BitWriter::new(EmulationPrevention::new(writer, ep_enabled)))
    }

    /// Writes fixed bit size integer (up to 32 bit) output with emulation
    /// prevention if enabled. Corresponds to `f(n)` in H.264 spec.
    pub fn write_f(&mut self, bits: usize, value: u32) -> (r: NaluWriterResult<usize>)
        requires
            old(self).wf(),
        ensures
            final(self).wf(),
            final(self).flushed() == old(self).flushed(),
            final(self).ep_enabled() == old(self).ep_enabled(),
            bits <= 32 ==> r == Ok::<usize, NaluWriterError>(bits) && final(self).bits() == old(
                self,
            ).bits() + bitstream_utils::value_bits(bits as nat, value as nat),
            bits > 32 ==> r == Err::<usize, NaluWriterError>(
                NaluWriterError::BitWriterError(BitWriterError::InvalidBitCount),
            ) && final(self).bits() == old(self).bits(),
    {
        match self.0.write_f(bits, value) {
            Ok(written) => Ok(written),
            Err(err) => Err(NaluWriterError::from(err)),
        }
    }

    /// An alias to [`Self::write_f`] Corresponds to `n(n)` in H.264 spec.
    pub fn write_u(&mut self, bits: usize, value: u32) -> (r: NaluWriterResult<usize>)
        requires
            old(self).wf(),
        ensures
            final(self).wf(),
            final(self).flushed() == old(self).flushed(),
            final(self).ep_enabled() == old(self).ep_enabled(),
            bits <= 32 ==> r == Ok::<usize, NaluWriterError>(bits) && final(self).bits() == old(
                self,
            ).bits() + bitstream_utils::value_bits(bits as nat, value as nat),
            bits > 32 ==> r == Err::<usize, NaluWriterError>(
                NaluWriterError::BitWriterError(BitWriterError::InvalidBitCount),
            ) && final(self).bits() == old(self).bits(),
    {
        self.write_f(bits, value)
    }

    /// Writes a number in exponential golumb format.
    pub fn write_exp_golumb(&mut self, value: u32) -> (r: NaluWriterResult<()>)
        requires
            old(self).wf(),
        ensures
            final(self).wf(),
            final(self).flushed() == old(self).flushed(),
            final(self).ep_enabled() == old(self).ep_enabled(),
            value < u32::MAX ==> r == Ok::<(), NaluWriterError>(()) && final(self).bits() == old(
                self,
            ).bits() + golomb::exp_golomb(value as nat),
            value == u32::MAX ==> r == Err::<(), NaluWriterError>(NaluWriterError::Overflow)
                && final(self).bits() == old(self).bits(),
    {
        let value: u32 = match value.checked_add(1) {
            Some(value) => value,
            None => return Err(NaluWriterError::Overflow),
        };
        proof {
            golomb::lemma_leading_zeros(value);
            golomb::lemma_bit_length(value as nat);
        }
        let bits: usize = 32 - value.leading_zeros() as usize;
        let zeros: usize = bits - 1;
        self.write_f(zeros, 0u32)?;
        self.write_f(bits, value)?;
        assert(self.bits() =~= old(self).bits() + golomb::exp_golomb((value - 1) as nat));
        Ok(())
    }

    /// Writes a unsigned integer in exponential golumb format.
    /// Coresponds to `ue(v)` in H.264 spec.
    pub fn write_ue(&mut self, value: u32) -> (r: NaluWriterResult<()>)
        requires
            old(self).wf(),
        ensures
            final(self).wf(),
            final(self).flushed() == old(self).flushed(),
            final(self).ep_enabled() == old(self).ep_enabled(),
            value < u32::MAX ==> r == Ok::<(), NaluWriterError>(()) && final(self).bits() == old(
                self,
            ).bits() + golomb::exp_golomb(value as nat),
            value == u32::MAX ==> r == Err::<(), NaluWriterError>(NaluWriterError::Overflow)
                && final(self).bits() == old(self).bits(),
    {
        self.write_exp_golumb(value)
    }

    /// Writes a signed integer in exponential golumb format.
    /// Coresponds to `se(v)` in H.264 spec.
    ///
    /// `i32::MIN` has no such code: the number that stands for it is one too
    /// large for a `u32`.
    pub fn write_se(&mut self, value: i32) -> (r: NaluWriterResult<()>)
        requires
            old(self).wf(),
            value != i32::MIN,
        ensures
            final(self).wf(),
            final(self).flushed() == old(self).flushed(),
            final(self).ep_enabled() == old(self).ep_enabled(),
            r == Ok::<(), NaluWriterError>(()),
            final(self).bits() == old(self).bits() + golomb::exp_golomb(
                golomb::signed_code(value as int),
            ),
    {
        if value <= 0 {
            let abs_value: u32 = (-value) as u32;
            self.write_ue(2 * abs_value)
        } else {
            let abs_value: u32 = value as u32;
            self.write_ue(2 * abs_value - 1)
        }
    }

    /// Returns `true` if ['Self`] hold data that wasn't written to the output
    pub fn has_data_pending(&self) -> (r: bool)
        requires
            self.wf(),
        ensures
            r == (self.bits().len() % 8 != 0 || EmulationPrevention::holds_back(
                bitstream_utils::whole_bytes(self.bits()),
                self.ep_enabled(),
            )),
    {
        self.0.has_data_pending() || self.0.inner_has_data_pending()
    }

    /// Writes a H.264 NALU header, behind what was written before.
    pub fn write_header(&mut self, idc: u8, type_: u8) -> (r: NaluWriterResult<()>)
        requires
            old(self).wf(),
        ensures
            final(self).wf(),
            final(self).flushed() == Self::closed_off(
                old(self).flushed(),
                old(self).bits(),
                old(self).ep_enabled(),
            ) + EmulationPrevention::header(idc, type_),
            final(self).bits() == Seq::<bool>::empty(),
            final(self).ep_enabled() == old(self).ep_enabled(),
            r == Ok::<(), NaluWriterError>(()),
    {
        self.0.flush();
        self.0.write_header(idc, type_);
        Ok(())
    }

    /// Returns `true` if next bits will be aligned to 8
    pub fn aligned(&self) -> (r: bool)
        requires
            self.wf(),
        ensures
            r == (self.bits().len() % 8 == 0),
    {
        !self.0.has_data_pending()
    }

    /// Returns the number of trailing bits in the last byte.
    pub fn flush(&mut self) -> (r: NaluWriterResult<u8>)
        requires
            old(self).wf(),
        ensures
            final(self).wf(),
            final(self).flushed() == Self::closed_off(
                old(self).flushed(),
                old(self).bits(),
                old(self).ep_enabled(),
            ),
            final(self).bits() == Seq::<bool>::empty(),
            final(self).ep_enabled() == old(self).ep_enabled(),
            r is Ok,
            r->Ok_0 == bitstream_utils::padding(old(self).bits()),
    {
        Ok(self.0.flush())
    }

    /// Flushes what is waiting and gives the output back.
    pub fn finish(self) -> (r: Vec<u8>)
        requires
            self.wf(),
        ensures
            r@ == Self::closed_off(self.flushed(), self.bits(), self.ep_enabled()),
    {
        let mut writer = self.0;
        writer.flush();
        writer.into_inner()
    }
}

} // verus!
