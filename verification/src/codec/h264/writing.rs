//! What the writers come to: what they put out is what a reader takes in.

use vstd::arithmetic::power2;
use vstd::prelude::*;

use crate::bitstream_utils;
use crate::bitstream_utils::BitWriter;
use crate::bitstream_utils::BitWriterError;
use crate::codec::h264::decoder;
use crate::codec::h264::emulation;
use crate::codec::h264::emulation::EmulationPrevention;
use crate::codec::h264::golomb;
use crate::codec::h264::nalu_writer::NaluWriter;
use crate::codec::h264::nalu_writer::NaluWriterError;
use crate::codec::h264::parser::NaluType;
use crate::codec::h264::parser::Pps;
use crate::codec::h264::parser::SliceHeader;
use crate::codec::h264::parser::Sps;
use crate::codec::h264::readback;
use crate::codec::h264::readback::Descriptor;
use crate::codec::h264::slices;
use crate::codec::h264::syntax;
use crate::codec::h264::syntax::Element;
use crate::codec::h264::synthesizer::Synthesizer;
use crate::codec::h264::synthesizer::SynthesizerError;
use crate::encode::IsReference;

verus! {

/// Every `00 00 03` in `bytes` stands in front of a byte of at most 3.
pub open spec fn escapes_are_needed(bytes: Seq<u8>) -> bool {
    forall|i: int|
        0 <= i < bytes.len() - 2 && #[trigger] bytes[i] == 0 && bytes[i + 1] == 0 && bytes[i + 2]
            == 3 ==> i + 3 < bytes.len() && bytes[i + 3] <= 3
}

/// A byte in front of others starts no escape that is not needed.
proof fn lemma_needed_behind(head: u8, tail: Seq<u8>)
    requires
        escapes_are_needed(tail),
        tail.len() >= 2 && head == 0 && tail[0] == 0 && tail[1] == 3 ==> tail.len() >= 3 && tail[2]
            <= 3,
    ensures
        escapes_are_needed(seq![head] + tail),
{
    let all = seq![head] + tail;
    assert forall|i: int|
        0 <= i < all.len() - 2 && #[trigger] all[i] == 0 && all[i + 1] == 0 && all[i + 2]
            == 3 implies i + 3 < all.len() && all[i + 3] <= 3 by {
        if i > 0 {
            assert(all[i] == tail[i - 1] && all[i + 1] == tail[i] && all[i + 2] == tail[i + 1]);
        }
    }
}

/// A byte is put in only where one is needed: every `00 00 03` of what was
/// escaped stands in front of a byte of at most 3.
pub proof fn no_byte_is_escaped_without_need(bytes: Seq<u8>)
    ensures
        escapes_are_needed(emulation::escape(bytes)),
    decreases bytes.len(),
{
    if bytes.len() >= 3 && emulation::needs_escape(bytes[0], bytes[1], bytes[2]) {
        let tail = emulation::escape(bytes.skip(2));
        no_byte_is_escaped_without_need(bytes.skip(2));
        readback::lemma_escape_head(bytes.skip(2));
        let behind = seq![3u8] + tail;
        lemma_needed_behind(3, tail);
        lemma_needed_behind(0, behind);
        lemma_needed_behind(0, seq![0u8] + behind);
        assert(emulation::escape(bytes) =~= seq![0u8] + (seq![0u8] + behind));
    } else if bytes.len() > 0 {
        let rest = bytes.skip(1);
        no_byte_is_escaped_without_need(rest);
        readback::lemma_escape_head(rest);
        lemma_needed_behind(bytes[0], emulation::escape(rest));
    }
}

/// Bytes that would not be mistaken for a start code or for an escape stay as
/// they are.
pub proof fn harmless_bytes_stay_as_they_are(bytes: Seq<u8>)
    requires
        forall|i: int|
            0 <= i < bytes.len() - 2 ==> !(#[trigger] bytes[i] == 0 && bytes[i + 1] == 0
                && bytes[i + 2] <= 3),
    ensures
        emulation::escape(bytes) == bytes,
    decreases bytes.len(),
{
    if bytes.len() > 0 {
        let rest = bytes.skip(1);
        assert forall|i: int| 0 <= i < rest.len() - 2 implies !(#[trigger] rest[i] == 0 && rest[i
            + 1] == 0 && rest[i + 2] <= 3) by {
            assert(rest[i] == bytes[i + 1]);
        }
        harmless_bytes_stay_as_they_are(rest);
        assert(bytes =~= seq![bytes[0]] + rest);
    }
}

/// The last byte stands behind one that was put in for it.
pub open spec fn ends_escaped(bytes: Seq<u8>) -> bool {
    let n = bytes.len() as int;
    n >= 4 && bytes[n - 4] == 0 && bytes[n - 3] == 0 && bytes[n - 2] == 3
}

/// A writer holds bytes back unless there were none, or the last was put out
/// with the one that was put in for it. It holds back no more than two, and
/// what it has put out stays what it is, whatever comes.
pub proof fn few_bytes_are_held_back(bytes: Seq<u8>)
    ensures
        EmulationPrevention::holds_back(bytes, true) == (bytes.len() > 0 && !ends_escaped(
            emulation::escape(bytes),
        )),
        !EmulationPrevention::holds_back(bytes, false),
        emulation::progress(bytes).held.len() <= 2,
        emulation::progress(bytes).out + emulation::progress(bytes).held == emulation::escape(
            bytes,
        ),
{
    emulation::lemma_progress(bytes);
    let now = emulation::progress(bytes);
    let all = emulation::escape(bytes);
    let n = all.len() as int;
    emulation::lemma_held_short(bytes);
    if bytes.len() > 0 {
        let before = emulation::progress(bytes.drop_last());
        emulation::lemma_progress(bytes.drop_last());
        emulation::lemma_held_short(bytes.drop_last());
        if now.held.len() == 0 {
            assert(all =~= now.out);
        } else {
            no_byte_is_escaped_without_need(bytes.drop_last());
            let shorter = emulation::escape(bytes.drop_last());
            assert(all =~= shorter.push(bytes.last()));
            if ends_escaped(all) {
                assert(shorter[n - 4] == 0 && shorter[n - 3] == 0 && shorter[n - 2] == 3);
            }
        }
    }
}

/// The bits that were written are the low bits of the value, and are read as
/// such. More than 32 of them are refused.
pub proof fn a_field_is_read_as_it_was_written(
    writer: &mut NaluWriter,
    bits: usize,
    value: u32,
    result: Result<usize, NaluWriterError>,
    rest: Seq<bool>,
)
    requires
        call_ensures(NaluWriter::write_f, (writer, bits, value), result) || call_ensures(
            NaluWriter::write_u,
            (writer, bits, value),
            result,
        ),
    ensures
        ({
            let (before, after) = (old(writer).bits(), final(writer).bits());
            let added = after.skip(before.len() as int);
            &&& final(writer).flushed() == old(writer).flushed()
            &&& final(writer).ep_enabled() == old(writer).ep_enabled()
            &&& bits <= 32 ==> {
                &&& result == Ok::<usize, NaluWriterError>(bits)
                &&& after == before + added
                &&& added.len() == bits
                &&& readback::read(Descriptor::U(bits as nat), added + rest) == (
                    (value as nat % power2::pow2(bits as nat)) as int,
                    rest,
                )
            }
            &&& bits > 32 ==> {
                &&& result == Err::<usize, NaluWriterError>(
                    NaluWriterError::BitWriterError(BitWriterError::InvalidBitCount),
                )
                &&& after == before
            }
        }),
{
    let before = old(writer).bits();
    if bits <= 32 {
        let element = Element::U(bits, value);
        let added = final(writer).bits().skip(before.len() as int);
        assert(added =~= element.code());
        readback::reading_gives_the_element_back(element, rest);
    }
}

/// A number is read as it was written. The largest is refused, since the code
/// is for one more.
pub proof fn a_number_is_read_as_it_was_written(
    writer: &mut NaluWriter,
    value: u32,
    result: Result<(), NaluWriterError>,
    rest: Seq<bool>,
)
    requires
        call_ensures(NaluWriter::write_ue, (writer, value), result) || call_ensures(
            NaluWriter::write_exp_golumb,
            (writer, value),
            result,
        ),
    ensures
        ({
            let (before, after) = (old(writer).bits(), final(writer).bits());
            let added = after.skip(before.len() as int);
            &&& final(writer).flushed() == old(writer).flushed()
            &&& final(writer).ep_enabled() == old(writer).ep_enabled()
            &&& value < u32::MAX ==> {
                &&& result is Ok
                &&& after == before + added
                &&& readback::read(Descriptor::Ue, added + rest) == (value as int, rest)
            }
            &&& value == u32::MAX ==> {
                &&& result == Err::<(), NaluWriterError>(NaluWriterError::Overflow)
                &&& after == before
            }
        }),
{
    let before = old(writer).bits();
    if value < u32::MAX {
        let added = final(writer).bits().skip(before.len() as int);
        assert(added =~= golomb::exp_golomb(value as nat));
        readback::reading_gives_the_number_back(value as nat, rest);
    }
}

/// A number with a sign is read as it was written.
pub proof fn a_signed_number_is_read_as_it_was_written(
    writer: &mut NaluWriter,
    value: i32,
    result: Result<(), NaluWriterError>,
    rest: Seq<bool>,
)
    requires
        call_ensures(NaluWriter::write_se, (writer, value), result),
    ensures
        ({
            let (before, after) = (old(writer).bits(), final(writer).bits());
            let added = after.skip(before.len() as int);
            &&& final(writer).flushed() == old(writer).flushed()
            &&& final(writer).ep_enabled() == old(writer).ep_enabled()
            &&& result is Ok
            &&& after == before + added
            &&& readback::read(Descriptor::Se, added + rest) == (value as int, rest)
        }),
{
    let element = Element::Se(value);
    let before = old(writer).bits();
    let added = final(writer).bits().skip(before.len() as int);
    assert(added =~= element.code());
    readback::reading_gives_the_element_back(element, rest);
}

/// What `bytes` hold behind the first `start` of them, without what was put
/// in for protection, where there is any.
pub open spec fn bits_behind(bytes: Seq<u8>, start: nat, ep_enabled: bool) -> Seq<bool> {
    let payload = bytes.skip(start as int);
    readback::unpack(
        if ep_enabled {
            readback::unescape(payload)
        } else {
            payload
        },
    )
}

/// Bits that are closed off are there, and zeros up to the end of the byte.
proof fn lemma_closed_off(flushed: Seq<u8>, bits: Seq<bool>, ep_enabled: bool)
    ensures
        ({
            let out = NaluWriter::closed_off(flushed, bits, ep_enabled);
            let zeros = Seq::new(bitstream_utils::padding(bits) as nat, |i: int| false);
            &&& out.take(flushed.len() as int) == flushed
            &&& bits_behind(out, flushed.len(), ep_enabled) == bits + zeros
        }),
{
    let out = NaluWriter::closed_off(flushed, bits, ep_enabled);
    let bytes = bitstream_utils::pack(bits);
    assert(out.take(flushed.len() as int) =~= flushed);
    assert(out.skip(flushed.len() as int) =~= EmulationPrevention::protected(bytes, ep_enabled));
    readback::unescaping_gives_the_bytes_back(bytes);
    readback::unpacking_gives_the_bits_back(bits);
}

/// A flush puts out the bits that were waiting, and zeros up to the end of the
/// byte, of which it says how many. So does the end of a writer.
pub proof fn a_flush_puts_out_what_waits(
    writer: &mut NaluWriter,
    result: Result<u8, NaluWriterError>,
)
    requires
        call_ensures(NaluWriter::flush, (writer,), result),
    ensures
        ({
            let waiting = old(writer).bits();
            let before = old(writer).flushed();
            let after = final(writer).flushed();
            &&& result matches Ok(filling) && {
                &&& filling < 8
                &&& (waiting.len() + filling) % 8 == 0
                &&& bits_behind(after, before.len(), old(writer).ep_enabled()) == waiting
                    + Seq::new(filling as nat, |i: int| false)
            }
            &&& after.take(before.len() as int) == before
            &&& final(writer).bits().len() == 0
        }),
{
    lemma_closed_off(old(writer).flushed(), old(writer).bits(), old(writer).ep_enabled());
}

/// The end of a writer puts out what waits.
pub proof fn the_end_puts_out_what_waits(writer: NaluWriter, out: Vec<u8>)
    requires
        call_ensures(NaluWriter::finish, (writer,), out),
    ensures
        ({
            let waiting = writer.bits();
            let before = writer.flushed();
            let found = bits_behind(out@, before.len(), writer.ep_enabled());
            &&& out@.take(before.len() as int) == before
            &&& found.len() < waiting.len() + 8
            &&& found.len() % 8 == 0
            &&& found.take(waiting.len() as int) == waiting
            &&& forall|i: int| waiting.len() <= i < found.len() ==> !found[i]
        }),
{
    lemma_closed_off(writer.flushed(), writer.bits(), writer.ep_enabled());
    let found = bits_behind(out@, writer.flushed().len(), writer.ep_enabled());
    assert(found.take(writer.bits().len() as int) =~= writer.bits());
}

/// A header is a start code, and a byte of the two bits of the count and the
/// five of the type.
pub proof fn a_header_is_a_start_code_and_a_byte(
    writer: &mut NaluWriter,
    idc: u8,
    type_: u8,
    result: Result<(), NaluWriterError>,
)
    requires
        old(writer).bits().len() == 0,
        idc < 4,
        type_ < 32,
        call_ensures(NaluWriter::write_header, (writer, idc, type_), result),
    ensures
        result is Ok,
        final(writer).flushed() == old(writer).flushed() + seq![
            0u8,
            0u8,
            0u8,
            1u8,
            (32 * idc + type_) as u8,
        ],
        final(writer).bits().len() == 0,
        final(writer).ep_enabled() == old(writer).ep_enabled(),
{
    let bits = old(writer).bits();
    assert(bitstream_utils::pack(bits) =~= Seq::<u8>::empty());
    assert(NaluWriter::closed_off(old(writer).flushed(), bits, old(writer).ep_enabled())
        =~= old(writer).flushed());
}

/// A writer starts behind what it was given, and nothing waits. It is aligned
/// where the bits are whole bytes.
pub proof fn a_writer_starts_behind_what_it_was_given(
    out: Vec<u8>,
    ep_enabled: bool,
    started: NaluWriter,
    writer: &NaluWriter,
    aligned: bool,
    pending: bool,
)
    requires
        call_ensures(NaluWriter::new, (out, ep_enabled), started),
        call_ensures(NaluWriter::aligned, (writer,), aligned),
        call_ensures(NaluWriter::has_data_pending, (writer,), pending),
    ensures
        started.flushed() == out@,
        started.bits().len() == 0,
        started.ep_enabled() == ep_enabled,
        aligned == (writer.bits().len() % 8 == 0),
        !aligned ==> pending,
        aligned && !writer.ep_enabled() ==> !pending,
        writer.bits().len() == 0 ==> !pending,
{
    if writer.bits().len() == 0 {
        assert(bitstream_utils::whole_bytes(writer.bits()) =~= Seq::<u8>::empty());
        few_bytes_are_held_back(bitstream_utils::whole_bytes(writer.bits()));
    }
}

/// Elements can all be written where each has at most 32 bits, or a number
/// that is not the largest, and the syntax of all is supported. The first that
/// cannot be says why, and nothing from it on is written.
pub proof fn the_first_that_cannot_be_written_is_the_end(elements: Seq<Element>, first: int)
    requires
        0 <= first <= elements.len(),
        forall|i: int|
            0 <= i < first ==> match #[trigger] elements[i] {
                Element::U(bits, _) => bits <= 32,
                Element::Ue(value) => value < u32::MAX,
                Element::Se(_) => true,
                Element::Unsupported => false,
            },
    ensures
        syntax::failure(elements.take(first)) is None,
        first < elements.len() ==> match elements[first] {
            Element::U(bits, _) => bits > 32 ==> syntax::failure(elements) == Some(
                SynthesizerError::NaluWriter(
                    NaluWriterError::BitWriterError(BitWriterError::InvalidBitCount),
                ),
            ) && syntax::encoded(elements) == syntax::encoded(elements.take(first)),
            Element::Ue(value) => value == u32::MAX ==> syntax::failure(elements) == Some(
                SynthesizerError::NaluWriter(NaluWriterError::Overflow),
            ) && syntax::encoded(elements) == syntax::encoded(elements.take(first)),
            Element::Se(_) => true,
            Element::Unsupported => syntax::failure(elements) == Some(
                SynthesizerError::Unsupported,
            ) && syntax::encoded(elements) == syntax::encoded(elements.take(first)),
        },
    decreases first,
{
    let front = elements.take(first);
    if first > 0 {
        let shorter = elements.take(first - 1);
        assert forall|i: int| 0 <= i < first - 1 implies match #[trigger] shorter[i] {
            Element::U(bits, _) => bits <= 32,
            Element::Ue(value) => value < u32::MAX,
            Element::Se(_) => true,
            Element::Unsupported => false,
        } by {
            assert(shorter[i] == elements[i]);
        }
        the_first_that_cannot_be_written_is_the_end(shorter, first - 1);
        assert(shorter.take(first - 1) =~= shorter);
        assert(front.drop_last() =~= shorter);
        assert(front.last() == elements[first - 1]);
    }
    if first < elements.len() {
        let one = elements.take(first + 1);
        assert(one.drop_last() =~= front);
        assert(one.last() == elements[first]);
        if elements[first].failure() is Some {
            let more = elements.skip(first + 1);
            assert(elements =~= one + more);
            syntax::lemma_left_out(one, more);
        }
    }
}

/// A sequence parameter set that was synthesized stands behind what was there
/// before, in a NAL unit of the type 7, and is decoded as what it was.
pub proof fn a_synthesized_sequence_parameter_set_is_decoded(
    ref_idc: u8,
    sps: &Sps,
    writer: &mut Vec<u8>,
    result: Result<(), SynthesizerError>,
)
    requires
        call_ensures(Synthesizer::<'_, Sps>::synthesize, (ref_idc, sps, writer, true), result),
        result is Ok,
        decoder::lists_have_syntax(sps.scaling_lists_4x4, sps.scaling_lists_8x8, 12),
    ensures
        ({
            let before = old(writer)@;
            let unit = final(writer)@.skip(before.len() as int);
            let (decoded, rest) = decoder::decode_sps(decoder::payload_of(unit));
            &&& final(writer)@.take(before.len() as int) == before
            &&& unit.take(4) == seq![0u8, 0u8, 0u8, 1u8]
            &&& unit[4] == 32 * (ref_idc % 4) + 7
            &&& decoder::sps_is(decoded, *sps)
            &&& decoder::is_trailing(rest)
        }),
{
    let before = old(writer)@;
    let unit = syntax::nal_unit(
        ref_idc,
        NaluType::Sps,
        syntax::payload(syntax::sps_syntax(*sps)),
        true,
    );
    assert(final(writer)@.skip(before.len() as int) =~= unit);
    assert(final(writer)@.take(before.len() as int) =~= before);
    decoder::a_sequence_parameter_set_is_decoded(ref_idc, *sps);
}

/// A picture parameter set that was synthesized stands behind what was there
/// before, in a NAL unit of the type 8, and is decoded as what it was.
pub proof fn a_synthesized_picture_parameter_set_is_decoded(
    ref_idc: u8,
    pps: &Pps,
    writer: &mut Vec<u8>,
    result: Result<(), SynthesizerError>,
)
    requires
        call_ensures(Synthesizer::<'_, Pps>::synthesize, (ref_idc, pps, writer, true), result),
        result is Ok,
        decoder::lists_have_syntax(pps.scaling_lists_4x4, pps.scaling_lists_8x8, 12),
        pps.chroma_qp_index_offset != 0 ==> pps.second_chroma_qp_index_offset != 0
            || pps.transform_8x8_mode_flag || pps.pic_scaling_matrix_present_flag,
    ensures
        ({
            let before = old(writer)@;
            let unit = final(writer)@.skip(before.len() as int);
            let (decoded, rest) = decoder::decode_pps(
                decoder::payload_of(unit),
                pps.sps.chroma_format_idc as int,
            );
            &&& final(writer)@.take(before.len() as int) == before
            &&& unit.take(4) == seq![0u8, 0u8, 0u8, 1u8]
            &&& unit[4] == 32 * (ref_idc % 4) + 8
            &&& decoder::pps_start_is(decoded, *pps)
            &&& decoder::pps_end_is(decoded, *pps)
            &&& decoder::is_trailing(rest)
        }),
{
    let before = old(writer)@;
    let unit = syntax::nal_unit(
        ref_idc,
        NaluType::Pps,
        syntax::payload(syntax::pps_syntax(*pps)),
        true,
    );
    assert(final(writer)@.skip(before.len() as int) =~= unit);
    assert(final(writer)@.take(before.len() as int) =~= before);
    decoder::a_picture_parameter_set_is_decoded(ref_idc, *pps);
}

/// A slice header that was synthesized stands behind what was there before,
/// in a NAL unit of the type 5 for an IDR picture and of 1 for any other, and
/// is decoded as what it was. The writer says how many bits are filling.
pub proof fn a_synthesized_slice_header_is_decoded(
    hdr: &SliceHeader,
    sps: &Sps,
    pps: &Pps,
    idr: bool,
    is_ref: IsReference,
    writer: &mut Vec<u8>,
    result: Result<u8, SynthesizerError>,
    limit: nat,
)
    requires
        call_ensures(
            Synthesizer::<'_, SliceHeader>::synthesize,
            (hdr, sps, pps, idr, is_ref, writer, true),
            result,
        ),
        result is Ok,
        slices::slice_has_syntax(*hdr, *sps, *pps),
        slices::is_enough(limit, *hdr),
        idr ==> is_ref != IsReference::No,
    ensures
        ({
            let before = old(writer)@;
            let unit = final(writer)@.skip(before.len() as int);
            let (slice, rest) = slices::decode_slice(
                decoder::payload_of(unit),
                *sps,
                *pps,
                unit[4] as int / 32,
                unit[4] as int % 32,
                limit,
            );
            &&& final(writer)@.take(before.len() as int) == before
            &&& unit.take(4) == seq![0u8, 0u8, 0u8, 1u8]
            &&& unit[4] as int % 32 == if idr {
                5int
            } else {
                1
            }
            &&& (unit[4] as int / 32 == 0) == (is_ref == IsReference::No)
            &&& slices::slice_is(slice, *hdr, *sps, *pps, idr, is_ref)
            &&& rest.len() == result->Ok_0
            &&& forall|i: int| 0 <= i < rest.len() ==> !rest[i]
        }),
{
    let before = old(writer)@;
    let elements = syntax::slice_header_syntax(*hdr, *sps, *pps, idr, is_ref);
    let bits = syntax::encoded(elements);
    let unit = syntax::nal_unit(
        syntax::slice_ref_idc(idr, is_ref),
        syntax::slice_nalu_type(idr),
        bits,
        true,
    );
    assert(final(writer)@.skip(before.len() as int) =~= unit);
    assert(final(writer)@.take(before.len() as int) =~= before);
    slices::a_slice_header_is_decoded(*hdr, *sps, *pps, idr, is_ref, limit);
}

/// Bits are written behind those that are there: the low ones of a value, the
/// most significant first, or one alone. More than 32 are refused.
pub proof fn bits_are_written_behind_each_other(
    writer: &mut BitWriter,
    bits: usize,
    value: u32,
    result: Result<usize, BitWriterError>,
    rest: Seq<bool>,
)
    requires
        call_ensures(BitWriter::write_f, (writer, bits, value), result),
    ensures
        ({
            let (before, after) = (old(writer).bits(), final(writer).bits());
            let added = after.skip(before.len() as int);
            &&& final(writer).flushed() == old(writer).flushed()
            &&& final(writer).ep_enabled() == old(writer).ep_enabled()
            &&& bits <= 32 ==> {
                &&& result == Ok::<usize, BitWriterError>(bits)
                &&& after == before + added
                &&& added.len() == bits
                &&& readback::read(Descriptor::U(bits as nat), added + rest) == (
                    (value as nat % power2::pow2(bits as nat)) as int,
                    rest,
                )
            }
            &&& bits > 32 ==> {
                &&& result == Err::<usize, BitWriterError>(BitWriterError::InvalidBitCount)
                &&& after == before
            }
        }),
{
    let before = old(writer).bits();
    if bits <= 32 {
        let element = Element::U(bits, value);
        let added = final(writer).bits().skip(before.len() as int);
        assert(added =~= element.code());
        readback::reading_gives_the_element_back(element, rest);
    }
}

/// One bit is written behind those that are there.
pub proof fn a_bit_is_written_behind_the_others(writer: &mut BitWriter, bit: bool)
    requires
        call_ensures(BitWriter::write_bit, (writer, bit), ()),
    ensures
        final(writer).bits().len() == old(writer).bits().len() + 1,
        final(writer).bits().last() == bit,
        final(writer).bits().drop_last() == old(writer).bits(),
        final(writer).flushed() == old(writer).flushed(),
{
    assert(final(writer).bits().drop_last() =~= old(writer).bits());
}

/// A flush of the bits puts them out, and zeros up to the end of the byte.
pub proof fn a_flush_puts_out_the_bits(writer: &mut BitWriter, filling: u8)
    requires
        call_ensures(BitWriter::flush, (writer,), filling),
    ensures
        ({
            let waiting = old(writer).bits();
            let before = old(writer).flushed();
            let after = final(writer).flushed();
            &&& filling < 8
            &&& (waiting.len() + filling) % 8 == 0
            &&& bits_behind(after, before.len(), old(writer).ep_enabled()) == waiting + Seq::new(
                filling as nat,
                |i: int| false,
            )
            &&& after.take(before.len() as int) == before
            &&& final(writer).bits().len() == 0
        }),
{
    lemma_closed_off(old(writer).flushed(), old(writer).bits(), old(writer).ep_enabled());
}

/// Bytes are taken in one behind the other, and a flush puts them out, with
/// what has to be put in where that is enabled, and with nothing else.
pub proof fn bytes_are_put_out_as_they_were_taken_in(
    writer: &mut EmulationPrevention,
    byte: u8,
    flushed: &mut EmulationPrevention,
)
    requires
        call_ensures(EmulationPrevention::write_byte, (writer, byte), ()),
        call_ensures(EmulationPrevention::flush, (flushed,), ()),
    ensures
        final(writer).payload() == old(writer).payload().push(byte),
        final(writer).flushed() == old(writer).flushed(),
        ({
            let before = old(flushed).flushed();
            let added = final(flushed).flushed().skip(before.len() as int);
            &&& final(flushed).flushed().take(before.len() as int) == before
            &&& old(flushed).ep_enabled() ==> {
                &&& readback::unescape(added) == old(flushed).payload()
                &&& !readback::emulates_start_code(added)
                &&& escapes_are_needed(added)
            }
            &&& !old(flushed).ep_enabled() ==> added == old(flushed).payload()
            &&& final(flushed).payload().len() == 0
        }),
{
    let before = old(flushed).flushed();
    let payload = old(flushed).payload();
    let added = final(flushed).flushed().skip(before.len() as int);
    assert(final(flushed).flushed().take(before.len() as int) =~= before);
    assert(added =~= EmulationPrevention::protected(payload, old(flushed).ep_enabled()));
    readback::unescaping_gives_the_bytes_back(payload);
    readback::escaped_bytes_emulate_no_start_code(payload);
    no_byte_is_escaped_without_need(payload);
}

/// Several bytes are taken in like one after the other, and counted.
pub proof fn several_bytes_are_taken_in(
    writer: &mut EmulationPrevention,
    bytes: &[u8],
    count: usize,
    pending: &EmulationPrevention,
    waits: bool,
)
    requires
        call_ensures(EmulationPrevention::write, (writer, bytes), count),
        call_ensures(EmulationPrevention::has_data_pending, (pending,), waits),
    ensures
        final(writer).payload() == old(writer).payload() + bytes@,
        final(writer).flushed() == old(writer).flushed(),
        count == bytes@.len(),
        waits == (pending.ep_enabled() && pending.payload().len() > 0 && !ends_escaped(
            emulation::escape(pending.payload()),
        )),
{
    few_bytes_are_held_back(pending.payload());
}

/// A header is put out as it is: a start code, and a byte of the two bits of
/// the count and the five of the type.
pub proof fn a_header_is_put_out_as_it_is(
    bytes: &mut EmulationPrevention,
    bits: &mut BitWriter,
    idc: u8,
    type_: u8,
)
    requires
        idc < 4,
        type_ < 32,
        call_ensures(EmulationPrevention::write_header, (bytes, idc, type_), ()),
        call_ensures(BitWriter::write_header, (bits, idc, type_), ()),
    ensures
        ({
            let header = seq![0u8, 0u8, 0u8, 1u8, (32 * idc + type_) as u8];
            &&& final(bytes).flushed() == old(bytes).flushed() + header
            &&& final(bits).flushed() == old(bits).flushed() + header
        }),
{
}

/// An error says what it is.
pub proof fn an_error_says_what_it_is(
    error: &SynthesizerError,
    message: &'static str,
    written: &NaluWriterError,
    text: &'static str,
)
    requires
        call_ensures(SynthesizerError::message, (error,), message),
        call_ensures(NaluWriterError::message, (written,), text),
    ensures
        *error == SynthesizerError::Unsupported ==> message@
            == "tried to synthesize unsupported settings"@,
        *error == SynthesizerError::NaluWriter(*written) ==> message@ == text@,
        *written == NaluWriterError::Overflow ==> text@ == "value increment caused value overflow"@,
        *written is BitWriterError ==> text@ == "invalid bit count"@,
{
}

/// `unprotected` is the NAL unit `protected` without the bytes that were put in.
pub open spec fn is_without_protection(unprotected: Seq<u8>, protected: Seq<u8>) -> bool {
    &&& unprotected.take(5) == protected.take(5)
    &&& unprotected.skip(5) == readback::unescape(protected.skip(5))
}

/// A unit with protection and one without differ in nothing else.
proof fn lemma_without_protection(ref_idc: u8, type_: NaluType, payload: Seq<bool>)
    ensures
        is_without_protection(
            syntax::nal_unit(ref_idc, type_, payload, false),
            syntax::nal_unit(ref_idc, type_, payload, true),
        ),
{
    let bytes = bitstream_utils::pack(payload);
    let header = EmulationPrevention::header(ref_idc, type_.number());
    let protected = syntax::nal_unit(ref_idc, type_, payload, true);
    let unprotected = syntax::nal_unit(ref_idc, type_, payload, false);
    assert(protected.take(5) =~= header);
    assert(unprotected.take(5) =~= header);
    assert(protected.skip(5) =~= emulation::escape(bytes));
    assert(unprotected.skip(5) =~= bytes);
    readback::unescaping_gives_the_bytes_back(bytes);
}

/// A parameter set that is synthesized without protection is the same as with
/// it, but for the bytes that are put in, and so is what comes of it.
pub proof fn protection_is_all_that_differs_in_a_parameter_set(
    ref_idc: u8,
    sps: &Sps,
    pps: &Pps,
    first: &mut Vec<u8>,
    second: &mut Vec<u8>,
    third: &mut Vec<u8>,
    fourth: &mut Vec<u8>,
    results: (
        Result<(), SynthesizerError>,
        Result<(), SynthesizerError>,
        Result<(), SynthesizerError>,
        Result<(), SynthesizerError>,
    ),
)
    requires
        old(first)@.len() == 0 && old(second)@.len() == 0,
        old(third)@.len() == 0 && old(fourth)@.len() == 0,
        call_ensures(Synthesizer::<'_, Sps>::synthesize, (ref_idc, sps, first, true), results.0),
        call_ensures(Synthesizer::<'_, Sps>::synthesize, (ref_idc, sps, second, false), results.1),
        call_ensures(Synthesizer::<'_, Pps>::synthesize, (ref_idc, pps, third, true), results.2),
        call_ensures(Synthesizer::<'_, Pps>::synthesize, (ref_idc, pps, fourth, false), results.3),
    ensures
        is_without_protection(final(second)@, final(first)@),
        results.0 == results.1,
        is_without_protection(final(fourth)@, final(third)@),
        results.2 == results.3,
{
    let sequence = syntax::payload(syntax::sps_syntax(*sps));
    let picture = syntax::payload(syntax::pps_syntax(*pps));
    lemma_without_protection(ref_idc, NaluType::Sps, sequence);
    lemma_without_protection(ref_idc, NaluType::Pps, picture);
    assert(final(first)@ =~= syntax::nal_unit(ref_idc, NaluType::Sps, sequence, true));
    assert(final(second)@ =~= syntax::nal_unit(ref_idc, NaluType::Sps, sequence, false));
    assert(final(third)@ =~= syntax::nal_unit(ref_idc, NaluType::Pps, picture, true));
    assert(final(fourth)@ =~= syntax::nal_unit(ref_idc, NaluType::Pps, picture, false));
}

/// A slice header that is synthesized without protection is the same as with
/// it, but for the bytes that are put in, and so is what comes of it.
pub proof fn protection_is_all_that_differs_in_a_slice_header(
    hdr: &SliceHeader,
    sps: &Sps,
    pps: &Pps,
    idr: bool,
    is_ref: IsReference,
    first: &mut Vec<u8>,
    second: &mut Vec<u8>,
    results: (Result<u8, SynthesizerError>, Result<u8, SynthesizerError>),
)
    requires
        old(first)@.len() == 0 && old(second)@.len() == 0,
        call_ensures(
            Synthesizer::<'_, SliceHeader>::synthesize,
            (hdr, sps, pps, idr, is_ref, first, true),
            results.0,
        ),
        call_ensures(
            Synthesizer::<'_, SliceHeader>::synthesize,
            (hdr, sps, pps, idr, is_ref, second, false),
            results.1,
        ),
    ensures
        is_without_protection(final(second)@, final(first)@),
        results.0 == results.1,
{
    let (ref_idc, type_) = (syntax::slice_ref_idc(idr, is_ref), syntax::slice_nalu_type(idr));
    let bits = syntax::encoded(syntax::slice_header_syntax(*hdr, *sps, *pps, idr, is_ref));
    lemma_without_protection(ref_idc, type_, bits);
    assert(final(first)@ =~= syntax::nal_unit(ref_idc, type_, bits, true));
    assert(final(second)@ =~= syntax::nal_unit(ref_idc, type_, bits, false));
}

} // verus!
