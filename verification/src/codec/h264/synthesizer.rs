//! Synthesis of NAL units from parameter sets and slice headers.

use vstd::prelude::*;
use vstd::std_specs::convert::FromSpecImpl;

use crate::bitstream_utils;
use crate::codec::h264::emulation::EmulationPrevention;
use crate::codec::h264::nalu_writer::NaluWriter;
use crate::codec::h264::nalu_writer::NaluWriterError;
use crate::codec::h264::parser::HrdParams;
use crate::codec::h264::parser::NaluType;
use crate::codec::h264::parser::Pps;
use crate::codec::h264::parser::PredWeightTable;
use crate::codec::h264::parser::RefPicListModification;
use crate::codec::h264::parser::RefPicMarkingInner;
use crate::codec::h264::parser::SliceHeader;
use crate::codec::h264::parser::SliceType;
use crate::codec::h264::parser::Sps;
use crate::codec::h264::parser::VuiParams;
use crate::codec::h264::parser::DEFAULT_4X4_INTER;
use crate::codec::h264::parser::DEFAULT_4X4_INTRA;
use crate::codec::h264::parser::DEFAULT_8X8_INTER;
use crate::codec::h264::parser::DEFAULT_8X8_INTRA;
use crate::codec::h264::syntax;
use crate::codec::h264::syntax::Element;
use crate::encode::IsReference;

verus! {

/// What a NAL unit can be synthesized from.
pub trait NaluStruct {

}

impl NaluStruct for Sps {

}

impl NaluStruct for Pps {

}

impl NaluStruct for SliceHeader {

}

/// Why a NAL unit could not be synthesized.
#[derive(Copy, Clone, Debug, PartialEq, Eq, Structural)]
pub enum SynthesizerError {
    /// The settings use a part of the syntax that is not supported.
    Unsupported,
    /// A value could not be written.
    NaluWriter(NaluWriterError),
}

impl SynthesizerError {
    /// Returns what went wrong, in words.
    pub fn message(&self) -> (r: &'static str)
        ensures
            r@ == match self {
                SynthesizerError::Unsupported => "tried to synthesize unsupported settings"@,
                SynthesizerError::NaluWriter(NaluWriterError::Overflow) =>
                    "value increment caused value overflow"@,
                SynthesizerError::NaluWriter(NaluWriterError::BitWriterError(_)) =>
                    "invalid bit count"@,
            },
    {
        match self {
            SynthesizerError::Unsupported => "tried to synthesize unsupported settings",
            SynthesizerError::NaluWriter(err) => err.message(),
        }
    }
}

impl From<NaluWriterError> for SynthesizerError {
    fn from(err: NaluWriterError) -> (r: Self) {
        SynthesizerError::NaluWriter(err)
    }
}

impl FromSpecImpl<NaluWriterError> for SynthesizerError {
    open spec fn obeys_from_spec() -> bool {
        true
    }

    open spec fn from_spec(err: NaluWriterError) -> Self {
        SynthesizerError::NaluWriter(err)
    }
}

/// Extended Sample Aspect Ratio - H.264 Table E-1
const EXTENDED_SAR: u8 = 255;

pub type SynthesizerResult<T> = Result<T, SynthesizerError>;

/// A helper to output typed NALUs using [`NaluWriter`].
///
/// An element that cannot be written ends the output: it and the elements
/// behind it are left out, and what was wrong with it is kept for the result.
pub struct Synthesizer<'n, N: NaluStruct> {
    writer: NaluWriter,
    failed: Option<SynthesizerError>,
    nalu: &'n N,
    elements: Ghost<Seq<Element>>,
}

impl<'n, N: NaluStruct> Synthesizer<'n, N> {
    /// The elements asked for so far.
    pub closed spec fn elements(&self) -> Seq<Element> {
        self.elements@
    }

    /// The writer has got what can be written of the elements.
    pub closed spec fn wf(&self) -> bool {
        &&& self.writer.wf()
        &&& self.writer.bits() == syntax::encoded(self.elements@)
        &&& self.failed == syntax::failure(self.elements@)
    }

    /// The same NAL unit, only further on. It does not recover from an
    /// element that cannot be written.
    pub closed spec fn continues(&self, other: &Self) -> bool {
        &&& syntax::failure(other.elements@) is Some ==> syntax::failure(self.elements@) is Some
        &&& self.writer.flushed() == other.writer.flushed()
        &&& self.writer.ep_enabled() == other.writer.ep_enabled()
        &&& self.nalu == other.nalu
    }

    /// Asks for one more element.
    fn put(&mut self, element: Element)
        requires
            old(self).wf(),
            element != Element::Se(i32::MIN) || syntax::failure(old(self).elements()) is Some,
        ensures
            final(self).wf(),
            final(self).continues(old(self)),
            final(self).elements() == old(self).elements().push(element),
    {
        let ghost more = self.elements@.push(element);
        assert(more.drop_last() =~= self.elements@);
        if self.failed.is_none() {
            let result: Result<(), NaluWriterError> = match element {
                Element::U(bits, value) => match self.writer.write_u(bits, value) {
                    Ok(_) => Ok(()),
                    Err(err) => Err(err),
                },
                Element::Ue(value) => self.writer.write_ue(value),
                Element::Se(value) => self.writer.write_se(value),
                Element::Unsupported => Ok(()),
            };
            match (element, result) {
                (Element::Unsupported, _) => {
                    self.failed = Some(SynthesizerError::Unsupported);
                },
                (_, Err(err)) => {
                    self.failed = Some(SynthesizerError::from(err));
                },
                (_, Ok(())) => {},
            }
        }
        self.elements = Ghost(more);
    }

    /// Leaves out elements behind one that cannot be written.
    fn leave_out(&mut self, elements: Ghost<Seq<Element>>)
        requires
            old(self).wf(),
            syntax::failure(old(self).elements()) is Some,
        ensures
            final(self).wf(),
            final(self).continues(old(self)),
            final(self).elements() == old(self).elements() + elements@,
    {
        proof {
            syntax::lemma_left_out(self.elements@, elements@);
        }
        self.elements = Ghost(self.elements@ + elements@);
    }

    fn u(&mut self, bits: usize, value: u32)
        requires
            old(self).wf(),
        ensures
            final(self).wf(),
            final(self).continues(old(self)),
            final(self).elements() == old(self).elements().push(Element::U(bits, value)),
    {
        self.put(Element::U(bits, value));
    }

    fn flag(&mut self, value: bool)
        requires
            old(self).wf(),
        ensures
            final(self).wf(),
            final(self).continues(old(self)),
            final(self).elements() == old(self).elements().push(syntax::flag(value)),
    {
        self.u(
            1,
            if value {
                1
            } else {
                0
            },
        );
    }

    fn ue(&mut self, value: u32)
        requires
            old(self).wf(),
        ensures
            final(self).wf(),
            final(self).continues(old(self)),
            final(self).elements() == old(self).elements().push(Element::Ue(value)),
    {
        self.put(Element::Ue(value));
    }

    fn se(&mut self, value: i32)
        requires
            old(self).wf(),
            value != i32::MIN || syntax::failure(old(self).elements()) is Some,
        ensures
            final(self).wf(),
            final(self).continues(old(self)),
            final(self).elements() == old(self).elements().push(Element::Se(value)),
    {
        self.put(Element::Se(value));
    }

    fn scaling_list(&mut self, list: &[u8], default: &[u8])
        requires
            old(self).wf(),
        ensures
            final(self).wf(),
            final(self).continues(old(self)),
            final(self).elements() == old(self).elements() + syntax::scaling_list_syntax(
                list@,
                default@,
            ),
    {
        // H.264 7.3.2.1.1.1
        if same_bytes(list, default) {
            self.se(-8);
            assert(self.elements() =~= old(self).elements() + syntax::scaling_list_syntax(
                list@,
                default@,
            ));
            return;
        }
        // The number of list values we want to encode.

        let mut run: usize = list.len();
        // Check how many values at the end of the matrix are the same,
        // so we can save on encoding those.
        while run > 1 && list[run - 2] == list[run - 1]
            invariant
                run <= list@.len(),
                syntax::run_length(list@, run as nat) == syntax::run_length(
                    list@,
                    list@.len(),
                ),
            decreases run,
        {
            run = run - 1;
        }
        let ghost before = self.elements();
        let ghost deltas = Seq::new(
            run as nat,
            |i: int| Element::Se((list@[i] - syntax::previous_scale(list@, i)) as i32),
        );
        // Encode deltas.
        let mut last_scale: i32 = 8;
        let mut at: usize = 0;
        assert(before =~= before + deltas.take(0));
        while at < run
            invariant
                at <= run <= list@.len(),
                self.wf(),
                self.continues(old(self)),
                last_scale == syntax::previous_scale(list@, at as int),
                deltas == Seq::new(
                    run as nat,
                    |i: int| Element::Se((list@[i] - syntax::previous_scale(list@, i)) as i32),
                ),
                self.elements() == before + deltas.take(at as int),
            decreases run - at,
        {
            let scale: i32 = list[at] as i32;
            let delta_scale: i32 = scale - last_scale;
            self.se(delta_scale);
            last_scale = scale;
            at = at + 1;
            assert(deltas.take(at as int) =~= deltas.take(at - 1).push(deltas[at - 1]));
            assert(self.elements() =~= before + deltas.take(at as int));
        }
        assert(deltas.take(run as int) =~= deltas);
        // Didn't encode all values, encode -|last_scale| to set decoder's
        // |next_scale| (H.264 7.3.2.1.1.1) to zero, i.e. decoder should repeat
        // last values in matrix.
        if run < list.len() {
            self.se(-last_scale);
        }
        assert(self.elements() =~= before + syntax::scaling_list_syntax(list@, default@));
    }

    fn default_scaling_list(i: usize) -> (r: &'static [u8])
        requires
            i < 12,
        ensures
            r@ == syntax::default_list(i as int),
    {
        // H.264 Table 7-2
        match i {
            0 => DEFAULT_4X4_INTRA.as_slice(),
            1 => DEFAULT_4X4_INTRA.as_slice(),
            2 => DEFAULT_4X4_INTRA.as_slice(),
            3 => DEFAULT_4X4_INTER.as_slice(),
            4 => DEFAULT_4X4_INTER.as_slice(),
            5 => DEFAULT_4X4_INTER.as_slice(),
            6 => DEFAULT_8X8_INTRA.as_slice(),
            7 => DEFAULT_8X8_INTER.as_slice(),
            8 => DEFAULT_8X8_INTRA.as_slice(),
            9 => DEFAULT_8X8_INTER.as_slice(),
            10 => DEFAULT_8X8_INTRA.as_slice(),
            _ => DEFAULT_8X8_INTER.as_slice(),
        }
    }

    /// Asks for the first `count` scaling lists, each with its flag. A list
    /// of zeros is taken to be one that is not present.
    fn scaling_lists(
        &mut self,
        lists_4x4: &[[u8; 16]; 6],
        lists_8x8: &[[u8; 64]; 6],
        count: usize,
    )
        requires
            old(self).wf(),
            count <= 12,
        ensures
            final(self).wf(),
            final(self).continues(old(self)),
            final(self).elements() == old(self).elements() + syntax::scaling_lists_syntax(
                *lists_4x4,
                *lists_8x8,
                count as nat,
            ),
    {
        let mut i: usize = 0;
        assert(old(self).elements() =~= old(self).elements() + syntax::scaling_lists_syntax(
            *lists_4x4,
            *lists_8x8,
            0,
        ));
        while i < count
            invariant
                i <= count <= 12,
                self.wf(),
                self.continues(old(self)),
                self.elements() == old(self).elements() + syntax::scaling_lists_syntax(
                    *lists_4x4,
                    *lists_8x8,
                    i as nat,
                ),
            decreases count - i,
        {
            let list: &[u8] = if i < 6 {
                lists_4x4[i].as_slice()
            } else {
                lists_8x8[i - 6].as_slice()
            };
            let ghost before = self.elements();
            if all_zero(list) {
                self.flag(false);
            } else {
                self.flag(true);
                self.scaling_list(list, Self::default_scaling_list(i));
            }
            assert(self.elements() =~= before + syntax::optional_list_syntax(
                list@,
                syntax::default_list(i as int),
            ));
            i = i + 1;
            assert(self.elements() =~= old(self).elements() + syntax::scaling_lists_syntax(
                *lists_4x4,
                *lists_8x8,
                i as nat,
            ));
        }
    }

    /// Ends the payload: the stop bit, and zero bits up to the end of the byte.
    fn rbsp_trailing_bits(self) -> (r: NaluWriter)
        requires
            self.wf(),
            syntax::failure(self.elements()) is None,
        ensures
            r.wf(),
            r.flushed() == self.unit_start(),
            r.ep_enabled() == self.unit_protected(),
            r.bits() == syntax::with_trailing_bits(syntax::encoded(self.elements())),
    {
        let mut writer = self.writer;
        let ghost bits = writer.bits();
        let ghost stopped = bits.push(true);
        let _ = writer.write_f(1, 1u32);
        proof {
            lemma_one_bit();
            assert(writer.bits() =~= stopped);
            assert(writer.bits() =~= stopped + Seq::new(0, |i: int| false));
        }
        let ghost mut zeros: nat = 0;
        while !writer.aligned()
            invariant
                writer.wf(),
                writer.flushed() == self.unit_start(),
                writer.ep_enabled() == self.unit_protected(),
                zeros <= bitstream_utils::padding(stopped),
                writer.bits() == stopped + Seq::new(zeros, |i: int| false),
            decreases 8 - zeros,
        {
            let _ = writer.write_f(1, 0u32);
            proof {
                lemma_one_bit();
                zeros = zeros + 1;
                assert(writer.bits() =~= stopped + Seq::new(zeros, |i: int| false));
            }
        }
        assert(zeros == bitstream_utils::padding(stopped));
        writer
    }

    /// The output in front of the payload.
    pub closed spec fn unit_start(&self) -> Seq<u8> {
        self.writer.flushed()
    }

    /// Whether the payload is protected from emulating a start code.
    pub closed spec fn unit_protected(&self) -> bool {
        self.writer.ep_enabled()
    }

    /// Starts a NAL unit of the given reference count and type behind what `out` holds.
    fn start(nalu: &'n N, out: Vec<u8>, ep_enabled: bool, ref_idc: u8, type_: NaluType) -> (r: Self)
        ensures
            r.wf(),
            r.elements() == Seq::<Element>::empty(),
            r.unit_start() == out@ + EmulationPrevention::header(ref_idc, type_.number()),
            r.unit_protected() == ep_enabled,
            r.nalu == nalu,
    {
        let mut writer = NaluWriter::new(out, ep_enabled);
        let _ = writer.write_header(ref_idc, type_.value());
        proof {
            assert(bitstream_utils::pack(Seq::<bool>::empty()) =~= Seq::<u8>::empty());
            assert(out@ + Seq::<u8>::empty() =~= out@);
        }
        Self { writer, failed: None, nalu, elements: Ghost(Seq::empty()) }
    }

    /// Ends a NAL unit whose payload has trailing bits.
    fn end(self) -> (r: (Vec<u8>, SynthesizerResult<()>))
        requires
            self.wf(),
        ensures
            r.0@ == self.unit_start() + EmulationPrevention::protected(
                bitstream_utils::pack(syntax::payload(self.elements())),
                self.unit_protected(),
            ),
            r.1 == syntax::outcome(self.elements()),
    {
        match self.failed {
            Some(err) => (self.writer.finish(), Err(err)),
            None => (self.rbsp_trailing_bits().finish(), Ok(())),
        }
    }
}

impl<'n> Synthesizer<'n, Sps> {
    /// Appends the NAL unit of a sequence parameter set to `writer`. Where
    /// one of its values cannot be written, the unit ends in front of it and
    /// the error says what was wrong with it.
    pub fn synthesize(
        ref_idc: u8,
        sps: &'n Sps,
        writer: &mut Vec<u8>,
        ep_enabled: bool,
    ) -> (r: SynthesizerResult<()>)
        requires
            syntax::sps_in_range(*sps),
        ensures
            final(writer)@ == old(writer)@ + syntax::nal_unit(
                ref_idc,
                NaluType::Sps,
                syntax::payload(syntax::sps_syntax(*sps)),
                ep_enabled,
            ),
            r == syntax::outcome(syntax::sps_syntax(*sps)),
    {
        let mut out: Vec<u8> = Vec::new();
        std::mem::swap(&mut out, writer);
        let mut s = Self::start(sps, out, ep_enabled, ref_idc, NaluType::Sps);
        s.seq_parameter_set_data();
        assert(s.elements() =~= syntax::sps_syntax(*sps));
        let (out, result) = s.end();
        *writer = out;
        assert(writer@ =~= old(writer)@ + syntax::nal_unit(
            ref_idc,
            NaluType::Sps,
            syntax::payload(syntax::sps_syntax(*sps)),
            ep_enabled,
        ));
        result
    }

    fn hrd_parameters(&mut self, hrd_params: &HrdParams)
        requires
            old(self).wf(),
            syntax::hrd_in_range(*hrd_params) || syntax::failure(old(self).elements()) is Some,
        ensures
            final(self).wf(),
            final(self).continues(old(self)),
            final(self).elements() == old(self).elements() + syntax::hrd_syntax(*hrd_params),
    {
        let ghost before = self.elements();
        self.ue(hrd_params.cpb_cnt_minus1 as u32);
        self.u(4, hrd_params.bit_rate_scale as u32);
        self.u(4, hrd_params.cpb_size_scale as u32);
        let ghost head = self.elements();
        self.coded_picture_buffers(hrd_params);
        self.u(5, hrd_params.initial_cpb_removal_delay_length_minus1 as u32);
        self.u(5, hrd_params.cpb_removal_delay_length_minus1 as u32);
        self.u(5, hrd_params.dpb_output_delay_length_minus1 as u32);
        self.u(5, hrd_params.time_offset_length as u32);
        assert(head =~= before + seq![
            Element::Ue(hrd_params.cpb_cnt_minus1 as u32),
            Element::U(4, hrd_params.bit_rate_scale as u32),
            Element::U(4, hrd_params.cpb_size_scale as u32),
        ]);
        assert(self.elements() =~= before + syntax::hrd_syntax(*hrd_params));
    }

    /// Asks for the coded picture buffers of `hrd_parameters()`.
    fn coded_picture_buffers(&mut self, hrd_params: &HrdParams)
        requires
            old(self).wf(),
            syntax::hrd_in_range(*hrd_params) || syntax::failure(old(self).elements()) is Some,
        ensures
            final(self).wf(),
            final(self).continues(old(self)),
            final(self).elements() == old(self).elements() + syntax::cpb_syntax(
                *hrd_params,
                (hrd_params.cpb_cnt_minus1 + 1) as nat,
            ),
    {
        let ghost start = self.elements();
        let count: usize = hrd_params.cpb_cnt_minus1 as usize + 1;
        let mut i: usize = 0;
        proof {
            lemma_append_nothing(start);
        }
        while i < count && i < 32
            invariant
                i <= count,
                i <= 32,
                self.wf(),
                self.continues(old(self)),
                self.elements() == start + syntax::cpb_syntax(*hrd_params, i as nat),
            decreases count - i,
        {
            self.ue(hrd_params.bit_rate_value_minus1[i]);
            self.ue(hrd_params.cpb_size_value_minus1[i]);
            self.flag(hrd_params.cbr_flag[i]);
            i = i + 1;
            assert(self.elements() =~= start + syntax::cpb_syntax(*hrd_params, i as nat));
        }
        if i < count {
            // One of the 32 could not be written, so there is no need for the others.
            let ghost first = syntax::cpb_syntax(*hrd_params, 32);
            let ghost rest = syntax::cpb_syntax(*hrd_params, count as nat).skip(first.len() as int);
            proof {
                if syntax::failure(first) is Some {
                    syntax::lemma_failure_behind(start, first);
                }
                lemma_first_buffers(*hrd_params, 32, count as nat);
                lemma_append(start, first, rest);
            }
            self.leave_out(Ghost(rest));
        }
    }

    /// Asks for the sample aspect ratio of `vui_parameters()`.
    fn vui_aspect(&mut self, vui_params: &VuiParams)
        requires
            old(self).wf(),
        ensures
            final(self).wf(),
            final(self).continues(old(self)),
            final(self).elements() == old(self).elements() + syntax::vui_aspect_syntax(*vui_params),
    {
        self.flag(vui_params.aspect_ratio_info_present_flag);
        if vui_params.aspect_ratio_info_present_flag {
            self.u(8, vui_params.aspect_ratio_idc as u32);
            if vui_params.aspect_ratio_idc == EXTENDED_SAR {
                self.u(16, vui_params.sar_width as u32);
                self.u(16, vui_params.sar_height as u32);
            }
        }
        assert(self.elements() =~= old(self).elements() + syntax::vui_aspect_syntax(*vui_params));
    }

    /// Asks for the overscan of `vui_parameters()`.
    fn vui_overscan(&mut self, vui_params: &VuiParams)
        requires
            old(self).wf(),
        ensures
            final(self).wf(),
            final(self).continues(old(self)),
            final(self).elements() == old(self).elements() + syntax::vui_overscan_syntax(*vui_params),
    {
        self.flag(vui_params.overscan_info_present_flag);
        if vui_params.overscan_info_present_flag {
            self.flag(vui_params.overscan_appropriate_flag);
        }
        assert(self.elements() =~= old(self).elements() + syntax::vui_overscan_syntax(*vui_params));
    }

    /// Asks for the range and the color of the samples, in `vui_parameters()`.
    fn vui_signal(&mut self, vui_params: &VuiParams)
        requires
            old(self).wf(),
        ensures
            final(self).wf(),
            final(self).continues(old(self)),
            final(self).elements() == old(self).elements() + syntax::vui_signal_syntax(*vui_params),
    {
        self.flag(vui_params.video_signal_type_present_flag);
        if vui_params.video_signal_type_present_flag {
            self.u(3, vui_params.video_format as u32);
            self.flag(vui_params.video_full_range_flag);

            self.flag(vui_params.colour_description_present_flag);
            if vui_params.colour_description_present_flag {
                self.u(8, vui_params.colour_primaries as u32);
                self.u(8, vui_params.transfer_characteristics as u32);
                self.u(8, vui_params.matrix_coefficients as u32);
            }
        }
        assert(self.elements() =~= old(self).elements() + syntax::vui_signal_syntax(*vui_params));
    }

    /// Asks for the place of the chroma samples, in `vui_parameters()`.
    fn vui_chroma_loc(&mut self, vui_params: &VuiParams)
        requires
            old(self).wf(),
        ensures
            final(self).wf(),
            final(self).continues(old(self)),
            final(self).elements() == old(self).elements() + syntax::vui_chroma_loc_syntax(*vui_params),
    {
        self.flag(vui_params.chroma_loc_info_present_flag);
        if vui_params.chroma_loc_info_present_flag {
            self.ue(vui_params.chroma_sample_loc_type_top_field as u32);
            self.ue(vui_params.chroma_sample_loc_type_bottom_field as u32);
        }
        assert(self.elements() =~= old(self).elements() + syntax::vui_chroma_loc_syntax(*vui_params));
    }

    /// Asks for when the pictures are shown, in `vui_parameters()`.
    fn vui_timing(&mut self, vui_params: &VuiParams)
        requires
            old(self).wf(),
        ensures
            final(self).wf(),
            final(self).continues(old(self)),
            final(self).elements() == old(self).elements() + syntax::vui_timing_syntax(*vui_params),
    {
        self.flag(vui_params.timing_info_present_flag);
        if vui_params.timing_info_present_flag {
            self.u(32, vui_params.num_units_in_tick);
            self.u(32, vui_params.time_scale);
            self.flag(vui_params.fixed_frame_rate_flag);
        }
        assert(self.elements() =~= old(self).elements() + syntax::vui_timing_syntax(*vui_params));
    }

    /// Asks for the reference decoders of `vui_parameters()`.
    fn vui_hrd(&mut self, vui_params: &VuiParams)
        requires
            old(self).wf(),
            syntax::vui_in_range(*vui_params) || syntax::failure(old(self).elements()) is Some,
        ensures
            final(self).wf(),
            final(self).continues(old(self)),
            final(self).elements() == old(self).elements() + syntax::vui_hrd_syntax(*vui_params),
    {
        if self.failed.is_some() {
            self.leave_out(Ghost(syntax::vui_hrd_syntax(*vui_params)));
            return;
        }
        self.flag(vui_params.nal_hrd_parameters_present_flag);
        let ghost before = self.elements();
        if vui_params.nal_hrd_parameters_present_flag {
            self.hrd_parameters(&vui_params.nal_hrd_parameters);
        }
        self.flag(vui_params.vcl_hrd_parameters_present_flag);
        proof {
            let nal = syntax::hrd_syntax(vui_params.nal_hrd_parameters);
            if vui_params.nal_hrd_parameters_present_flag && syntax::failure(nal) is Some {
                syntax::lemma_failure_behind(before, nal);
            }
        }
        if vui_params.vcl_hrd_parameters_present_flag {
            self.hrd_parameters(&vui_params.vcl_hrd_parameters);
        }
        if vui_params.nal_hrd_parameters_present_flag
            || vui_params.vcl_hrd_parameters_present_flag {
            self.flag(vui_params.low_delay_hrd_flag);
        }
        assert(self.elements() =~= old(self).elements() + syntax::vui_hrd_syntax(*vui_params));
    }

    /// Asks for what the stream confines itself to, in `vui_parameters()`.
    fn vui_restriction(&mut self, vui_params: &VuiParams)
        requires
            old(self).wf(),
        ensures
            final(self).wf(),
            final(self).continues(old(self)),
            final(self).elements() == old(self).elements() + syntax::vui_restriction_syntax(*vui_params),
    {
        self.flag(vui_params.pic_struct_present_flag);
        self.flag(vui_params.bitstream_restriction_flag);
        if vui_params.bitstream_restriction_flag {
            self.flag(vui_params.motion_vectors_over_pic_boundaries_flag);
            self.ue(vui_params.max_bytes_per_pic_denom);
            self.ue(vui_params.max_bits_per_mb_denom);
            self.ue(vui_params.log2_max_mv_length_horizontal);
            self.ue(vui_params.log2_max_mv_length_vertical);
            self.ue(vui_params.max_num_reorder_frames);
            self.ue(vui_params.max_dec_frame_buffering);
        }
        assert(self.elements() =~= old(self).elements() + syntax::vui_restriction_syntax(*vui_params));
    }

    fn vui_parameters(&mut self)
        requires
            old(self).wf(),
            syntax::vui_in_range(old(self).sps().vui_parameters) || syntax::failure(
                old(self).elements(),
            ) is Some,
        ensures
            final(self).wf(),
            final(self).continues(old(self)),
            final(self).elements() == old(self).elements() + syntax::vui_syntax(
                old(self).sps().vui_parameters,
            ),
    {
        // H.264 E.1.1
        let vui_params = &self.nalu.vui_parameters;

        self.vui_aspect(vui_params);
        self.vui_overscan(vui_params);
        self.vui_signal(vui_params);
        self.vui_chroma_loc(vui_params);
        self.vui_timing(vui_params);
        self.vui_hrd(vui_params);
        self.vui_restriction(vui_params);
        proof {
            let start = old(self).elements();
            let mut whole = syntax::vui_aspect_syntax(*vui_params);
            lemma_append(start, whole, syntax::vui_overscan_syntax(*vui_params));
            whole = whole + syntax::vui_overscan_syntax(*vui_params);
            lemma_append(start, whole, syntax::vui_signal_syntax(*vui_params));
            whole = whole + syntax::vui_signal_syntax(*vui_params);
            lemma_append(start, whole, syntax::vui_chroma_loc_syntax(*vui_params));
            whole = whole + syntax::vui_chroma_loc_syntax(*vui_params);
            lemma_append(start, whole, syntax::vui_timing_syntax(*vui_params));
            whole = whole + syntax::vui_timing_syntax(*vui_params);
            lemma_append(start, whole, syntax::vui_hrd_syntax(*vui_params));
            whole = whole + syntax::vui_hrd_syntax(*vui_params);
            lemma_append(start, whole, syntax::vui_restriction_syntax(*vui_params));
            whole = whole + syntax::vui_restriction_syntax(*vui_params);
        }
    }

    /// The parameter set.
    pub closed spec fn sps(&self) -> &'n Sps {
        self.nalu
    }

    /// Asks for the profile of `seq_parameter_set_data()`.
    fn sps_profile(&mut self, sps: &Sps)
        requires
            old(self).wf(),
        ensures
            final(self).wf(),
            final(self).continues(old(self)),
            final(self).elements() == old(self).elements() + syntax::sps_profile_syntax(*sps),
    {
        self.u(8, sps.profile_idc as u32);
        self.flag(sps.constraint_set0_flag);
        self.flag(sps.constraint_set1_flag);
        self.flag(sps.constraint_set2_flag);
        self.flag(sps.constraint_set3_flag);
        self.flag(sps.constraint_set4_flag);
        self.flag(sps.constraint_set5_flag);
        self.u(2, /* reserved_zero_2bits */ 0u32);
        assert(self.elements() =~= old(self).elements() + syntax::sps_profile_syntax(*sps));
    }

    /// Asks for the level and the id of `seq_parameter_set_data()`.
    fn sps_level(&mut self, sps: &Sps)
        requires
            old(self).wf(),
        ensures
            final(self).wf(),
            final(self).continues(old(self)),
            final(self).elements() == old(self).elements() + syntax::sps_level_syntax(*sps),
    {
        self.u(8, sps.level_idc.value() as u32);
        self.ue(sps.seq_parameter_set_id as u32);
        assert(self.elements() =~= old(self).elements() + syntax::sps_level_syntax(*sps));
    }

    /// Asks for the chroma format and the scaling lists of `seq_parameter_set_data()`.
    fn sps_chroma(&mut self, sps: &Sps)
        requires
            old(self).wf(),
        ensures
            final(self).wf(),
            final(self).continues(old(self)),
            final(self).elements() == old(self).elements() + syntax::sps_chroma_syntax(*sps),
    {
        self.ue(sps.chroma_format_idc as u32);

        if sps.chroma_format_idc == 3 {
            self.flag(sps.separate_colour_plane_flag);
        }
        self.ue(sps.bit_depth_luma_minus8 as u32);
        self.ue(sps.bit_depth_chroma_minus8 as u32);
        self.flag(sps.qpprime_y_zero_transform_bypass_flag);
        self.flag(sps.seq_scaling_matrix_present_flag);

        if sps.seq_scaling_matrix_present_flag {
            let scaling_list_count: usize = if sps.chroma_format_idc != 3 {
                8
            } else {
                12
            };
            self.scaling_lists(
                &sps.scaling_lists_4x4,
                &sps.scaling_lists_8x8,
                scaling_list_count,
            );
        }
        assert(self.elements() =~= old(self).elements() + syntax::sps_chroma_syntax(*sps));
    }

    /// Asks for the picture order of `seq_parameter_set_data()`.
    fn sps_order(&mut self, sps: &Sps)
        requires
            old(self).wf(),
            syntax::sps_in_range(*sps),
        ensures
            final(self).wf(),
            final(self).continues(old(self)),
            final(self).elements() == old(self).elements() + syntax::sps_order_syntax(*sps),
    {
        self.ue(sps.log2_max_frame_num_minus4 as u32);
        self.ue(sps.pic_order_cnt_type as u32);
        if sps.pic_order_cnt_type == 0 {
            self.ue(sps.log2_max_pic_order_cnt_lsb_minus4 as u32);
        } else if sps.pic_order_cnt_type == 1 {
            self.flag(sps.delta_pic_order_always_zero_flag);
            self.se(sps.offset_for_non_ref_pic);
            self.se(sps.offset_for_top_to_bottom_field);
            self.ue(sps.num_ref_frames_in_pic_order_cnt_cycle as u32);
            self.offsets_for_ref_frame(
                &sps.offset_for_ref_frame,
                sps.num_ref_frames_in_pic_order_cnt_cycle,
            );
        }
        assert(self.elements() =~= old(self).elements() + syntax::sps_order_syntax(*sps));
    }

    /// Asks for the frames of `seq_parameter_set_data()`.
    fn sps_frame(&mut self, sps: &Sps)
        requires
            old(self).wf(),
        ensures
            final(self).wf(),
            final(self).continues(old(self)),
            final(self).elements() == old(self).elements() + syntax::sps_frame_syntax(*sps),
    {
        self.ue(sps.max_num_ref_frames as u32);
        self.flag(sps.gaps_in_frame_num_value_allowed_flag);
        self.ue(sps.pic_width_in_mbs_minus1 as u32);
        self.ue(sps.pic_height_in_map_units_minus1 as u32);
        self.flag(sps.frame_mbs_only_flag);
        if !sps.frame_mbs_only_flag {
            self.flag(sps.mb_adaptive_frame_field_flag);
        }
        assert(self.elements() =~= old(self).elements() + syntax::sps_frame_syntax(*sps));
    }

    /// Asks for the cropping of `seq_parameter_set_data()`.
    fn sps_crop(&mut self, sps: &Sps)
        requires
            old(self).wf(),
        ensures
            final(self).wf(),
            final(self).continues(old(self)),
            final(self).elements() == old(self).elements() + syntax::sps_crop_syntax(*sps),
    {
        self.flag(sps.direct_8x8_inference_flag);
        self.flag(sps.frame_cropping_flag);
        if sps.frame_cropping_flag {
            self.ue(sps.frame_crop_left_offset);
            self.ue(sps.frame_crop_right_offset);
            self.ue(sps.frame_crop_top_offset);
            self.ue(sps.frame_crop_bottom_offset);
        }
        assert(self.elements() =~= old(self).elements() + syntax::sps_crop_syntax(*sps));
    }

    fn seq_parameter_set_data(&mut self)
        requires
            old(self).wf(),
            syntax::sps_in_range(*old(self).sps()),
        ensures
            final(self).wf(),
            final(self).continues(old(self)),
            final(self).elements() == old(self).elements() + syntax::sps_syntax(*old(self).sps()),
    {
        let sps = self.nalu;

        // H.264 7.3.2.1.1
        self.sps_profile(sps);
        self.sps_level(sps);
        if sps.profile_idc == 100 || sps.profile_idc == 110 || sps.profile_idc == 122
            || sps.profile_idc == 244 || sps.profile_idc == 44 || sps.profile_idc == 83
            || sps.profile_idc == 86 || sps.profile_idc == 118 || sps.profile_idc == 128
            || sps.profile_idc == 138 || sps.profile_idc == 139 || sps.profile_idc == 134
            || sps.profile_idc == 135 {
            self.sps_chroma(sps);
        }
        self.sps_order(sps);
        self.sps_frame(sps);
        let ghost crop_start = self.elements();
        self.sps_crop(sps);
        let ghost crop_end = self.elements();
        self.flag(sps.vui_parameters_present_flag);
        assert(self.elements() =~= crop_end + seq![
            syntax::flag(sps.vui_parameters_present_flag),
        ]);
        proof {
            if syntax::failure(syntax::sps_crop_syntax(*sps)) is Some {
                syntax::lemma_failure_behind(crop_start, syntax::sps_crop_syntax(*sps));
            }
        }
        if sps.vui_parameters_present_flag {
            self.vui_parameters();
        }
        proof {
            let start = old(self).elements();
            let chroma = syntax::when(
                syntax::profile_has_chroma(sps.profile_idc),
                syntax::sps_chroma_syntax(*sps),
            );
            let present = seq![syntax::flag(sps.vui_parameters_present_flag)];
            let vui = syntax::when(
                sps.vui_parameters_present_flag,
                syntax::vui_syntax(sps.vui_parameters),
            );
            let mut whole = syntax::sps_profile_syntax(*sps);
            lemma_append(start, whole, syntax::sps_level_syntax(*sps));
            whole = whole + syntax::sps_level_syntax(*sps);
            lemma_append_nothing(start + whole);
            lemma_append_nothing(crop_end + present);
            lemma_append(start, whole, chroma);
            whole = whole + chroma;
            lemma_append(start, whole, syntax::sps_order_syntax(*sps));
            whole = whole + syntax::sps_order_syntax(*sps);
            lemma_append(start, whole, syntax::sps_frame_syntax(*sps));
            whole = whole + syntax::sps_frame_syntax(*sps);
            lemma_append(start, whole, syntax::sps_crop_syntax(*sps));
            whole = whole + syntax::sps_crop_syntax(*sps);
            lemma_append(start, whole, present);
            whole = whole + present;
            lemma_append(start, whole, vui);
        }
    }

    /// Asks for the offsets of the first `count` reference frames.
    fn offsets_for_ref_frame(&mut self, offsets: &[i32; 255], count: u8)
        requires
            old(self).wf(),
            forall|i: int| 0 <= i < count ==> offsets[i] != i32::MIN,
        ensures
            final(self).wf(),
            final(self).continues(old(self)),
            final(self).elements() == old(self).elements() + Seq::new(
                count as nat,
                |i: int| Element::Se(offsets[i]),
            ),
    {
        let ghost all = Seq::new(count as nat, |i: int| Element::Se(offsets[i]));
        let mut i: u8 = 0;
        assert(old(self).elements() =~= old(self).elements() + all.take(0));
        while i < count
            invariant
                i <= count,
                forall|k: int| 0 <= k < count ==> offsets[k] != i32::MIN,
                self.wf(),
                self.continues(old(self)),
                all == Seq::new(count as nat, |k: int| Element::Se(offsets[k])),
                self.elements() == old(self).elements() + all.take(i as int),
            decreases count - i,
        {
            self.se(offsets[i as usize]);
            i = i + 1;
            assert(all.take(i as int) =~= all.take(i - 1).push(all[i - 1]));
            assert(self.elements() =~= old(self).elements() + all.take(i as int));
        }
        assert(all.take(count as int) =~= all);
    }
}

impl<'n> Synthesizer<'n, Pps> {
    /// Appends the NAL unit of a picture parameter set to `writer`. Where
    /// one of its values cannot be written, or it has slice groups, the unit
    /// ends there and the error says why.
    pub fn synthesize(
        ref_idc: u8,
        pps: &'n Pps,
        writer: &mut Vec<u8>,
        ep_enabled: bool,
    ) -> (r: SynthesizerResult<()>)
        ensures
            final(writer)@ == old(writer)@ + syntax::nal_unit(
                ref_idc,
                NaluType::Pps,
                syntax::payload(syntax::pps_syntax(*pps)),
                ep_enabled,
            ),
            r == syntax::outcome(syntax::pps_syntax(*pps)),
    {
        let mut out: Vec<u8> = Vec::new();
        std::mem::swap(&mut out, writer);
        let mut s = Self::start(pps, out, ep_enabled, ref_idc, NaluType::Pps);
        s.pic_parameter_set_rbsp();
        assert(s.elements() =~= syntax::pps_syntax(*pps));
        let (out, result) = s.end();
        *writer = out;
        assert(writer@ =~= old(writer)@ + syntax::nal_unit(
            ref_idc,
            NaluType::Pps,
            syntax::payload(syntax::pps_syntax(*pps)),
            ep_enabled,
        ));
        result
    }

    /// The parameter set.
    pub closed spec fn pps(&self) -> &'n Pps {
        self.nalu
    }

    /// Asks for the head of `pic_parameter_set_rbsp()`.
    fn pps_head(&mut self, pps: &Pps)
        requires
            old(self).wf(),
        ensures
            final(self).wf(),
            final(self).continues(old(self)),
            final(self).elements() == old(self).elements() + syntax::pps_head_syntax(*pps),
    {
        self.ue(pps.pic_parameter_set_id as u32);
        self.ue(pps.seq_parameter_set_id as u32);
        self.flag(pps.entropy_coding_mode_flag);
        self.flag(pps.bottom_field_pic_order_in_frame_present_flag);

        self.ue(pps.num_slice_groups_minus1);
        if pps.num_slice_groups_minus1 > 0 {
            self.put(Element::Unsupported);
        }
        assert(self.elements() =~= old(self).elements() + syntax::pps_head_syntax(*pps));
    }

    /// Asks for the defaults for the slices of `pic_parameter_set_rbsp()`.
    fn pps_defaults(&mut self, pps: &Pps)
        requires
            old(self).wf(),
        ensures
            final(self).wf(),
            final(self).continues(old(self)),
            final(self).elements() == old(self).elements() + syntax::pps_defaults_syntax(*pps),
    {
        self.ue(pps.num_ref_idx_l0_default_active_minus1 as u32);
        self.ue(pps.num_ref_idx_l1_default_active_minus1 as u32);
        self.flag(pps.weighted_pred_flag);
        self.u(2, pps.weighted_bipred_idc as u32);
        self.se(pps.pic_init_qp_minus26 as i32);
        self.se(pps.pic_init_qs_minus26 as i32);
        self.se(pps.chroma_qp_index_offset as i32);
        self.flag(pps.deblocking_filter_control_present_flag);
        self.flag(pps.constrained_intra_pred_flag);
        self.flag(pps.redundant_pic_cnt_present_flag);
        assert(self.elements() =~= old(self).elements() + syntax::pps_defaults_syntax(*pps));
    }

    /// Asks for the extension of `pic_parameter_set_rbsp()`.
    fn pps_extension(&mut self, pps: &Pps)
        requires
            old(self).wf(),
        ensures
            final(self).wf(),
            final(self).continues(old(self)),
            final(self).elements() == old(self).elements() + syntax::pps_extension_syntax(*pps),
    {
        self.flag(pps.transform_8x8_mode_flag);
        self.flag(pps.pic_scaling_matrix_present_flag);

        if pps.pic_scaling_matrix_present_flag {
            let mut scaling_list_count: usize = 6;
            if pps.transform_8x8_mode_flag {
                if pps.sps.chroma_format_idc != 3 {
                    scaling_list_count = scaling_list_count + 2;
                } else {
                    scaling_list_count = scaling_list_count + 6;
                }
            }
            self.scaling_lists(
                &pps.scaling_lists_4x4,
                &pps.scaling_lists_8x8,
                scaling_list_count,
            );
        }
        self.se(pps.second_chroma_qp_index_offset as i32);
        assert(self.elements() =~= old(self).elements() + syntax::pps_extension_syntax(*pps));
    }

    fn pic_parameter_set_rbsp(&mut self)
        requires
            old(self).wf(),
        ensures
            final(self).wf(),
            final(self).continues(old(self)),
            final(self).elements() == old(self).elements() + syntax::pps_syntax(*old(self).pps()),
    {
        let pps = self.nalu;

        self.pps_head(pps);
        self.pps_defaults(pps);
        proof {
            let start = old(self).elements();
            let head = syntax::pps_head_syntax(*pps);
            let defaults = syntax::pps_defaults_syntax(*pps);
            let extension = syntax::when(
                syntax::pps_is_extended(*pps),
                syntax::pps_extension_syntax(*pps),
            );
            lemma_append(start, head, defaults);
            lemma_append(start, head + defaults, extension);
            lemma_append_nothing(start + (head + defaults));
        }
        if !(pps.transform_8x8_mode_flag || pps.pic_scaling_matrix_present_flag
            || pps.second_chroma_qp_index_offset != 0) {
            return;
        }
        self.pps_extension(pps);
    }
}

/// How many bits at the end of the last byte are filling.
pub type NumTrailingBits = u8;

impl<'n> Synthesizer<'n, SliceHeader> {
    /// Appends the NAL unit of a slice header to `writer`, and returns how
    /// many bits at its end are filling. Where one of the values cannot be
    /// written, or there are slice groups, the unit ends there and the error
    /// says why.
    pub fn synthesize(
        header: &'n SliceHeader,
        sps: &'n Sps,
        pps: &'n Pps,
        is_idr: bool,
        is_ref: IsReference,
        writer: &mut Vec<u8>,
        ep_enabled: bool,
    ) -> (r: SynthesizerResult<NumTrailingBits>)
        requires
            syntax::slice_in_range(*header, *sps, *pps, is_idr, is_ref),
        ensures
            final(writer)@ == old(writer)@ + syntax::nal_unit(
                syntax::slice_ref_idc(is_idr, is_ref),
                syntax::slice_nalu_type(is_idr),
                syntax::encoded(syntax::slice_header_syntax(*header, *sps, *pps, is_idr, is_ref)),
                ep_enabled,
            ),
            match syntax::failure(
                syntax::slice_header_syntax(*header, *sps, *pps, is_idr, is_ref),
            ) {
                None => r is Ok && r->Ok_0 == bitstream_utils::padding(
                    syntax::encoded(
                        syntax::slice_header_syntax(*header, *sps, *pps, is_idr, is_ref),
                    ),
                ),
                Some(err) => r == Err::<NumTrailingBits, SynthesizerError>(err),
            },
    {
        let ref_idc: u8 = if is_idr {
            3
        } else if is_ref == IsReference::LongTerm {
            2
        } else if is_ref == IsReference::ShortTerm {
            1
        } else {
            0
        };
        let nalu_type: NaluType = if is_idr {
            NaluType::SliceIdr
        } else {
            NaluType::Slice
        };
        let mut out: Vec<u8> = Vec::new();
        std::mem::swap(&mut out, writer);
        let mut s = Self::start(header, out, ep_enabled, ref_idc, nalu_type);
        s.slice_header_data(sps, pps, is_idr, is_ref);
        let ghost elements = syntax::slice_header_syntax(*header, *sps, *pps, is_idr, is_ref);
        assert(s.elements() =~= elements);
        let (out, result) = s.end_unaligned();
        *writer = out;
        assert(writer@ =~= old(writer)@ + syntax::nal_unit(
            syntax::slice_ref_idc(is_idr, is_ref),
            syntax::slice_nalu_type(is_idr),
            syntax::encoded(elements),
            ep_enabled,
        ));
        result
    }

    /// Ends a NAL unit whose payload goes on behind the header.
    fn end_unaligned(self) -> (r: (Vec<u8>, SynthesizerResult<NumTrailingBits>))
        requires
            self.wf(),
        ensures
            r.0@ == self.unit_start() + EmulationPrevention::protected(
                bitstream_utils::pack(syntax::encoded(self.elements())),
                self.unit_protected(),
            ),
            match syntax::failure(self.elements()) {
                None => r.1 is Ok && r.1->Ok_0 == bitstream_utils::padding(
                    syntax::encoded(self.elements()),
                ),
                Some(err) => r.1 == Err::<NumTrailingBits, SynthesizerError>(err),
            },
    {
        let failed = self.failed;
        let mut writer = self.writer;
        let flushed = writer.flush();
        proof {
            assert(bitstream_utils::pack(Seq::<bool>::empty()) =~= Seq::<u8>::empty());
            assert(writer.flushed() + Seq::<u8>::empty() =~= writer.flushed());
        }
        let out = writer.finish();
        match (failed, flushed) {
            (Some(err), _) => (out, Err(err)),
            (None, Ok(num_trailing_bits)) => (out, Ok(num_trailing_bits)),
            (None, Err(err)) => (out, Err(SynthesizerError::NaluWriter(err))),
        }
    }

    /// The header.
    pub closed spec fn header(&self) -> &'n SliceHeader {
        self.nalu
    }

    /// Asks for which picture the slice is of, in `slice_header()`.
    fn slice_picture(&mut self, hdr: &SliceHeader, sps: &Sps)
        requires
            old(self).wf(),
        ensures
            final(self).wf(),
            final(self).continues(old(self)),
            final(self).elements() == old(self).elements() + syntax::slice_picture_syntax(*hdr, *sps),
    {
        self.ue(hdr.first_mb_in_slice);
        self.ue(hdr.slice_type.value() as u32);
        self.ue(hdr.pic_parameter_set_id as u32);

        if sps.separate_colour_plane_flag {
            self.u(2, hdr.colour_plane_id as u32);
        }
        let frame_num_bits: usize = sps.log2_max_frame_num_minus4 as usize + 4;
        self.u(frame_num_bits, hdr.frame_num as u32);
        assert(self.elements() =~= old(self).elements() + syntax::slice_picture_syntax(*hdr, *sps));
    }

    /// Asks for which field the slice is of, and which IDR picture, in `slice_header()`.
    fn slice_field(&mut self, hdr: &SliceHeader, sps: &Sps, is_idr: bool)
        requires
            old(self).wf(),
        ensures
            final(self).wf(),
            final(self).continues(old(self)),
            final(self).elements() == old(self).elements() + syntax::slice_field_syntax(
                *hdr,
                *sps,
                is_idr,
            ),
    {
        if !sps.frame_mbs_only_flag {
            self.flag(hdr.field_pic_flag);
            if hdr.field_pic_flag {
                self.flag(hdr.bottom_field_flag);
            }
        }
        if is_idr {
            self.ue(hdr.idr_pic_id as u32);
        }
        assert(self.elements() =~= old(self).elements() + syntax::slice_field_syntax(
            *hdr,
            *sps,
            is_idr,
        ));
    }

    /// Asks for the picture order count of `slice_header()`.
    fn slice_order(&mut self, hdr: &SliceHeader, sps: &Sps, pps: &Pps)
        requires
            old(self).wf(),
            syntax::order_in_range(*hdr, *sps, *pps) || syntax::failure(old(self).elements()) is Some,
        ensures
            final(self).wf(),
            final(self).continues(old(self)),
            final(self).elements() == old(self).elements() + syntax::slice_order_syntax(*hdr, *sps, *pps),
    {
        if self.failed.is_some() {
            self.leave_out(Ghost(syntax::slice_order_syntax(*hdr, *sps, *pps)));
            return;
        }
        if sps.pic_order_cnt_type == 0 {
            let pic_order_cnt_lsb_bits: usize = sps.log2_max_pic_order_cnt_lsb_minus4 as usize + 4;
            self.u(pic_order_cnt_lsb_bits, hdr.pic_order_cnt_lsb as u32);
            assert(self.elements().drop_last() =~= old(self).elements());
            if pps.bottom_field_pic_order_in_frame_present_flag && !hdr.field_pic_flag {
                self.se(hdr.delta_pic_order_cnt_bottom);
            }
        }
        if sps.pic_order_cnt_type == 1 && !sps.delta_pic_order_always_zero_flag {
            self.se(hdr.delta_pic_order_cnt[0]);
            if pps.bottom_field_pic_order_in_frame_present_flag && !hdr.field_pic_flag {
                self.se(hdr.delta_pic_order_cnt[1]);
            }
        }
        assert(self.elements() =~= old(self).elements() + syntax::slice_order_syntax(*hdr, *sps, *pps));
    }

    /// Asks for the number of references of `slice_header()`.
    fn slice_reference(&mut self, hdr: &SliceHeader, pps: &Pps)
        requires
            old(self).wf(),
        ensures
            final(self).wf(),
            final(self).continues(old(self)),
            final(self).elements() == old(self).elements() + syntax::slice_reference_syntax(*hdr, *pps),
    {
        if pps.redundant_pic_cnt_present_flag {
            self.ue(hdr.redundant_pic_cnt as u32);
        }
        if hdr.slice_type == SliceType::B {
            self.flag(hdr.direct_spatial_mv_pred_flag);
        }
        if hdr.slice_type == SliceType::P || hdr.slice_type == SliceType::Sp || hdr.slice_type
            == SliceType::B {
            self.flag(hdr.num_ref_idx_active_override_flag);
            if hdr.num_ref_idx_active_override_flag {
                self.ue(hdr.num_ref_idx_l0_active_minus1 as u32);
                if hdr.slice_type == SliceType::B {
                    self.ue(hdr.num_ref_idx_l1_active_minus1 as u32);
                }
            }
        }
        assert(self.elements() =~= old(self).elements() + syntax::slice_reference_syntax(*hdr, *pps));
    }

    /// Asks for the quantizer of `slice_header()`.
    fn slice_quantizer(&mut self, hdr: &SliceHeader, pps: &Pps)
        requires
            old(self).wf(),
        ensures
            final(self).wf(),
            final(self).continues(old(self)),
            final(self).elements() == old(self).elements() + syntax::slice_quantizer_syntax(*hdr, *pps),
    {
        if pps.entropy_coding_mode_flag && hdr.slice_type != SliceType::I && hdr.slice_type
            != SliceType::Si {
            self.ue(hdr.cabac_init_idc as u32);
        }
        self.se(hdr.slice_qp_delta as i32);

        if hdr.slice_type == SliceType::Sp || hdr.slice_type == SliceType::Si {
            if hdr.slice_type == SliceType::Sp {
                self.flag(hdr.sp_for_switch_flag);
            }
            self.se(hdr.slice_qs_delta as i32);
        }
        assert(self.elements() =~= old(self).elements() + syntax::slice_quantizer_syntax(*hdr, *pps));
    }

    /// Asks for the deblocking of `slice_header()`.
    fn slice_deblocking(&mut self, hdr: &SliceHeader, pps: &Pps)
        requires
            old(self).wf(),
        ensures
            final(self).wf(),
            final(self).continues(old(self)),
            final(self).elements() == old(self).elements() + syntax::slice_deblocking_syntax(*hdr, *pps),
    {
        if pps.deblocking_filter_control_present_flag {
            self.ue(hdr.disable_deblocking_filter_idc as u32);
            if hdr.disable_deblocking_filter_idc != 1 {
                self.se(hdr.slice_alpha_c0_offset_div2 as i32);
                self.se(hdr.slice_beta_offset_div2 as i32);
            }
        }
        if pps.num_slice_groups_minus1 > 0 {
            // Slice groups are not supported, this should have been caught earlier
            self.put(Element::Unsupported);
        }
        assert(self.elements() =~= old(self).elements() + syntax::slice_deblocking_syntax(*hdr, *pps));
    }

    /// Asks for `slice_header()` up to the weights.
    fn slice_head(&mut self, hdr: &SliceHeader, sps: &Sps, pps: &Pps, is_idr: bool)
        requires
            old(self).wf(),
            syntax::failure(syntax::slice_picture_syntax(*hdr, *sps)) is None
                ==> syntax::order_in_range(*hdr, *sps, *pps),
        ensures
            final(self).wf(),
            final(self).continues(old(self)),
            final(self).elements() == old(self).elements() + syntax::slice_head_syntax(
                *hdr,
                *sps,
                *pps,
                is_idr,
            ),
    {
        self.slice_picture(hdr, sps);
        proof {
            let picture = syntax::slice_picture_syntax(*hdr, *sps);
            if syntax::failure(picture) is Some {
                syntax::lemma_failure_behind(old(self).elements(), picture);
            }
        }
        self.slice_field(hdr, sps, is_idr);
        self.slice_order(hdr, sps, pps);
        self.slice_reference(hdr, pps);
        self.ref_pic_list_modification(hdr);
        proof {
            let start = old(self).elements();
            let mut whole = syntax::slice_picture_syntax(*hdr, *sps);
            lemma_append(start, whole, syntax::slice_field_syntax(*hdr, *sps, is_idr));
            whole = whole + syntax::slice_field_syntax(*hdr, *sps, is_idr);
            lemma_append(start, whole, syntax::slice_order_syntax(*hdr, *sps, *pps));
            whole = whole + syntax::slice_order_syntax(*hdr, *sps, *pps);
            lemma_append(start, whole, syntax::slice_reference_syntax(*hdr, *pps));
            whole = whole + syntax::slice_reference_syntax(*hdr, *pps);
            lemma_append(start, whole, syntax::ref_pic_list_modification_syntax(*hdr));
        }
    }

    fn slice_header_data(&mut self, sps: &Sps, pps: &Pps, is_idr: bool, is_ref: IsReference)
        requires
            old(self).wf(),
            syntax::slice_in_range(*old(self).header(), *sps, *pps, is_idr, is_ref),
        ensures
            final(self).wf(),
            final(self).continues(old(self)),
            final(self).elements() == old(self).elements() + syntax::slice_header_syntax(
                *old(self).header(),
                *sps,
                *pps,
                is_idr,
                is_ref,
            ),
    {
        let hdr = self.nalu;

        self.slice_head(hdr, sps, pps, is_idr);
        let ghost before_weights = self.elements();
        proof {
            let head = syntax::slice_head_syntax(*hdr, *sps, *pps, is_idr);
            if syntax::failure(head) is Some {
                syntax::lemma_failure_behind(old(self).elements(), head);
            }
        }

        if (pps.weighted_pred_flag && (hdr.slice_type == SliceType::P || hdr.slice_type
            == SliceType::Sp)) || (pps.weighted_bipred_idc == 1 && hdr.slice_type
            == SliceType::B) {
            self.pred_weight_table(hdr, sps);
        }
        let ghost before_marking = self.elements();
        if is_ref != IsReference::No {
            self.dec_ref_pic_marking(hdr, is_idr);
        }
        self.slice_quantizer(hdr, pps);
        self.slice_deblocking(hdr, pps);
        proof {
            let start = old(self).elements();
            let weights = syntax::when(
                syntax::has_weights(*hdr, *pps),
                syntax::pred_weight_table_syntax(*hdr, *sps),
            );
            let marking = syntax::when(
                is_ref != IsReference::No,
                syntax::dec_ref_pic_marking_syntax(*hdr, is_idr),
            );
            lemma_append_nothing(before_weights);
            lemma_append_nothing(before_marking);
            let mut whole = syntax::slice_head_syntax(*hdr, *sps, *pps, is_idr);
            lemma_append(start, whole, weights);
            whole = whole + weights;
            lemma_append(start, whole, marking);
            whole = whole + marking;
            lemma_append(start, whole, syntax::slice_quantizer_syntax(*hdr, *pps));
            whole = whole + syntax::slice_quantizer_syntax(*hdr, *pps);
            lemma_append(start, whole, syntax::slice_deblocking_syntax(*hdr, *pps));
        }
    }

    /// Asks for the modification of one reference list.
    fn list_modification(&mut self, modified: bool, steps: &Vec<RefPicListModification>)
        requires
            old(self).wf(),
        ensures
            final(self).wf(),
            final(self).continues(old(self)),
            final(self).elements() == old(self).elements() + syntax::list_modification_syntax(modified, steps@),
    {
        self.flag(modified);
        if modified {
            let ghost before = self.elements();
            let mut i: usize = 0;
            assert(steps@.take(0) =~= Seq::<RefPicListModification>::empty());
            assert(before =~= before + syntax::modifications_syntax(steps@.take(0)));
            while i < steps.len()
                invariant
                    i <= steps@.len(),
                    self.wf(),
                    self.continues(old(self)),
                    self.elements() == before + syntax::modifications_syntax(
                        steps@.take(i as int),
                    ),
                decreases steps@.len() - i,
            {
                let modification: RefPicListModification = steps[i];
                let ghost sofar = self.elements();
                self.ue(modification.modification_of_pic_nums_idc as u32);
                if modification.modification_of_pic_nums_idc == 0
                    || modification.modification_of_pic_nums_idc == 1 {
                    self.ue(modification.abs_diff_pic_num_minus1);
                } else if modification.modification_of_pic_nums_idc == 2 {
                    self.ue(modification.long_term_pic_num);
                }
                assert(self.elements() =~= sofar + syntax::modification_syntax(modification));
                i = i + 1;
                proof {
                    assert(steps@.take(i as int).drop_last() =~= steps@.take(i - 1));
                    lemma_append(
                        before,
                        syntax::modifications_syntax(steps@.take(i - 1)),
                        syntax::modification_syntax(modification),
                    );
                }
            }
            assert(steps@.take(i as int) =~= steps@);
            self.ue(3u32);
        }
        assert(self.elements() =~= old(self).elements() + syntax::list_modification_syntax(modified, steps@));
    }

    fn ref_pic_list_modification(&mut self, hdr: &SliceHeader)
        requires
            old(self).wf(),
        ensures
            final(self).wf(),
            final(self).continues(old(self)),
            final(self).elements() == old(self).elements() + syntax::ref_pic_list_modification_syntax(
                *hdr,
            ),
    {
        let slice_type_mod5: u8 = hdr.slice_type.value() % 5;
        if slice_type_mod5 != 2 && slice_type_mod5 != 4 {
            self.list_modification(
                hdr.ref_pic_list_modification_flag_l0,
                &hdr.ref_pic_list_modification_l0,
            );
        }
        let ghost first = self.elements();
        if slice_type_mod5 == 1 {
            self.list_modification(
                hdr.ref_pic_list_modification_flag_l1,
                &hdr.ref_pic_list_modification_l1,
            );
        }
        proof {
            let l0 = syntax::when(
                hdr.slice_type != SliceType::I && hdr.slice_type != SliceType::Si,
                syntax::list_modification_syntax(
                    hdr.ref_pic_list_modification_flag_l0,
                    hdr.ref_pic_list_modification_l0@,
                ),
            );
            let l1 = syntax::when(
                hdr.slice_type == SliceType::B,
                syntax::list_modification_syntax(
                    hdr.ref_pic_list_modification_flag_l1,
                    hdr.ref_pic_list_modification_l1@,
                ),
            );
            lemma_append_nothing(old(self).elements());
            lemma_append_nothing(first);
            lemma_append(old(self).elements(), l0, l1);
        }
    }

    /// Asks for the weights of one reference.
    fn weight(
        &mut self,
        pwt: &PredWeightTable,
        has_chroma: bool,
        luma_weight: i16,
        luma_offset: i8,
        chroma_weight: [i16; 2],
        chroma_offset: [i8; 2],
    )
        requires
            old(self).wf(),
            pwt.luma_log2_weight_denom < 16,
            has_chroma ==> pwt.chroma_log2_weight_denom < 16,
        ensures
            final(self).wf(),
            final(self).continues(old(self)),
            final(self).elements() == old(self).elements() + syntax::weight_syntax(
                *pwt,
                has_chroma,
                luma_weight,
                luma_offset,
                chroma_weight,
                chroma_offset,
            ),
    {
        let luma_weight_flag: bool = luma_weight != default_weight(pwt.luma_log2_weight_denom);
        self.flag(luma_weight_flag);
        if luma_weight_flag {
            self.se(luma_weight as i32);
            self.se(luma_offset as i32);
        }
        if has_chroma {
            let unweighted: i16 = default_weight(pwt.chroma_log2_weight_denom);
            let chroma_weight_flag: bool = chroma_weight[0] != unweighted || chroma_weight[1]
                != unweighted || chroma_offset[0] != 0 || chroma_offset[1] != 0;
            self.flag(chroma_weight_flag);
            if chroma_weight_flag {
                self.se(chroma_weight[0] as i32);
                self.se(chroma_offset[0] as i32);
                self.se(chroma_weight[1] as i32);
                self.se(chroma_offset[1] as i32);
            }
        }
        assert(self.elements() =~= old(self).elements() + syntax::weight_syntax(
                *pwt,
                has_chroma,
                luma_weight,
                luma_offset,
                chroma_weight,
                chroma_offset,
            ));
    }

    /// Asks for the weights of the references of list 0.
    fn weights_l0(&mut self, hdr: &SliceHeader, has_chroma: bool)
        requires
            old(self).wf(),
            hdr.num_ref_idx_l0_active_minus1 < 32,
            hdr.pred_weight_table.luma_log2_weight_denom < 16,
            has_chroma ==> hdr.pred_weight_table.chroma_log2_weight_denom < 16,
        ensures
            final(self).wf(),
            final(self).continues(old(self)),
            final(self).elements() == old(self).elements() + syntax::weights_l0_syntax(
                hdr.pred_weight_table,
                has_chroma,
                (hdr.num_ref_idx_l0_active_minus1 + 1) as nat,
            ),
    {
        let pwt = &hdr.pred_weight_table;
        let ghost before = self.elements();
        let count: usize = hdr.num_ref_idx_l0_active_minus1 as usize + 1;
        let mut i: usize = 0;
        proof {
            lemma_append_nothing(before);
        }
        while i < count
            invariant
                i <= count <= 32,
                self.wf(),
                self.continues(old(self)),
                pwt.luma_log2_weight_denom < 16,
                has_chroma ==> pwt.chroma_log2_weight_denom < 16,
                self.elements() == before + syntax::weights_l0_syntax(*pwt, has_chroma, i as nat),
            decreases count - i,
        {
            let ghost sofar = syntax::weights_l0_syntax(*pwt, has_chroma, i as nat);
            self.weight(
                pwt,
                has_chroma,
                pwt.luma_weight_l0[i],
                pwt.luma_offset_l0[i],
                pwt.chroma_weight_l0[i],
                pwt.chroma_offset_l0[i],
            );
            i = i + 1;
            proof {
                lemma_append(
                    before,
                    sofar,
                    syntax::weight_syntax(
                        *pwt,
                        has_chroma,
                        pwt.luma_weight_l0[i - 1],
                        pwt.luma_offset_l0[i - 1],
                        pwt.chroma_weight_l0[i - 1],
                        pwt.chroma_offset_l0[i - 1],
                    ),
                );
            }
        }
    }

    /// Asks for the weights of the references of list 1.
    fn weights_l1(&mut self, hdr: &SliceHeader, has_chroma: bool)
        requires
            old(self).wf(),
            hdr.num_ref_idx_l1_active_minus1 < 32,
            hdr.pred_weight_table.luma_log2_weight_denom < 16,
            has_chroma ==> hdr.pred_weight_table.chroma_log2_weight_denom < 16,
        ensures
            final(self).wf(),
            final(self).continues(old(self)),
            final(self).elements() == old(self).elements() + syntax::weights_l1_syntax(
                hdr.pred_weight_table,
                has_chroma,
                (hdr.num_ref_idx_l1_active_minus1 + 1) as nat,
            ),
    {
        let pwt = &hdr.pred_weight_table;
        let ghost before = self.elements();
        let count: usize = hdr.num_ref_idx_l1_active_minus1 as usize + 1;
        let mut i: usize = 0;
        proof {
            lemma_append_nothing(before);
        }
        while i < count
            invariant
                i <= count <= 32,
                self.wf(),
                self.continues(old(self)),
                pwt.luma_log2_weight_denom < 16,
                has_chroma ==> pwt.chroma_log2_weight_denom < 16,
                self.elements() == before + syntax::weights_l1_syntax(*pwt, has_chroma, i as nat),
            decreases count - i,
        {
            let ghost sofar = syntax::weights_l1_syntax(*pwt, has_chroma, i as nat);
            self.weight(
                pwt,
                has_chroma,
                pwt.luma_weight_l1[i],
                pwt.luma_offset_l1[i],
                pwt.chroma_weight_l1[i],
                pwt.chroma_offset_l1[i],
            );
            i = i + 1;
            proof {
                lemma_append(
                    before,
                    sofar,
                    syntax::weight_syntax(
                        *pwt,
                        has_chroma,
                        pwt.luma_weight_l1[i - 1],
                        pwt.luma_offset_l1[i - 1],
                        pwt.chroma_weight_l1[i - 1],
                        pwt.chroma_offset_l1[i - 1],
                    ),
                );
            }
        }
    }

    fn pred_weight_table(&mut self, hdr: &SliceHeader, sps: &Sps)
        requires
            old(self).wf(),
            syntax::weights_in_range(*hdr, *sps) || syntax::failure(old(self).elements()) is Some,
        ensures
            final(self).wf(),
            final(self).continues(old(self)),
            final(self).elements() == old(self).elements() + syntax::pred_weight_table_syntax(
                *hdr,
                *sps,
            ),
    {
        if self.failed.is_some() {
            self.leave_out(Ghost(syntax::pred_weight_table_syntax(*hdr, *sps)));
            return;
        }
        let pwt = &hdr.pred_weight_table;
        let has_chroma: bool = sps.chroma_array_type() != 0;
        let ghost before = self.elements();
        self.ue(pwt.luma_log2_weight_denom as u32);
        if has_chroma {
            self.ue(pwt.chroma_log2_weight_denom as u32);
        }
        let ghost head = seq![Element::Ue(pwt.luma_log2_weight_denom as u32)] + syntax::when(
            has_chroma,
            seq![Element::Ue(pwt.chroma_log2_weight_denom as u32)],
        );
        assert(self.elements() =~= before + head);
        self.weights_l0(hdr, has_chroma);
        let ghost first = self.elements();
        if hdr.slice_type.value() % 5 == 1 {
            self.weights_l1(hdr, has_chroma);
        }
        proof {
            let l0 = syntax::weights_l0_syntax(
                *pwt,
                has_chroma,
                (hdr.num_ref_idx_l0_active_minus1 + 1) as nat,
            );
            let l1 = syntax::when(
                hdr.slice_type == SliceType::B,
                syntax::weights_l1_syntax(
                    *pwt,
                    has_chroma,
                    (hdr.num_ref_idx_l1_active_minus1 + 1) as nat,
                ),
            );
            lemma_append_nothing(first);
            lemma_append(before, head, l0);
            lemma_append(before, head + l0, l1);
        }
    }

    /// Asks for `dec_ref_pic_marking()`.
    fn dec_ref_pic_marking(&mut self, hdr: &SliceHeader, is_idr: bool)
        requires
            old(self).wf(),
            !is_idr && hdr.dec_ref_pic_marking.adaptive_ref_pic_marking_mode_flag
                ==> syntax::markings_in_range(hdr.dec_ref_pic_marking.inner@) || syntax::failure(
                old(self).elements(),
            ) is Some,
        ensures
            final(self).wf(),
            final(self).continues(old(self)),
            final(self).elements() == old(self).elements() + syntax::dec_ref_pic_marking_syntax(*hdr, is_idr),
    {
        let rpm = &hdr.dec_ref_pic_marking;

        if is_idr {
            self.flag(rpm.no_output_of_prior_pics_flag);
            self.flag(rpm.long_term_reference_flag);
        } else {
            self.flag(rpm.adaptive_ref_pic_marking_mode_flag);
            if rpm.adaptive_ref_pic_marking_mode_flag {
                self.markings(&rpm.inner);
                self.ue(0u32);
            }
        }
        assert(self.elements() =~= old(self).elements() + syntax::dec_ref_pic_marking_syntax(*hdr, is_idr));
    }

    /// Asks for the memory management control operations.
    fn markings(&mut self, markings: &Vec<RefPicMarkingInner>)
        requires
            old(self).wf(),
            syntax::markings_in_range(markings@) || syntax::failure(old(self).elements()) is Some,
        ensures
            final(self).wf(),
            final(self).continues(old(self)),
            final(self).elements() == old(self).elements() + syntax::markings_syntax(markings@),
    {
        let ghost before = self.elements();
        let mut i: usize = 0;
        proof {
            assert(markings@.take(0) =~= Seq::<RefPicMarkingInner>::empty());
            lemma_append_nothing(before);
        }
        while i < markings.len()
            invariant
                i <= markings@.len(),
                before == old(self).elements(),
                syntax::markings_in_range(markings@) || syntax::failure(before) is Some,
                self.wf(),
                self.continues(old(self)),
                self.elements() == before + syntax::markings_syntax(markings@.take(i as int)),
            decreases markings@.len() - i,
        {
            let marking: RefPicMarkingInner = markings[i];
            let ghost sofar = self.elements();
            let op: u8 = marking.memory_management_control_operation;
            self.ue(op as u32);
            proof {
                let earlier = syntax::markings_syntax(markings@.take(i as int));
                if syntax::failure(earlier) is Some {
                    syntax::lemma_failure_behind(before, earlier);
                }
            }
            if op == 1 || op == 3 {
                self.ue(marking.difference_of_pic_nums_minus1);
            }
            if op == 2 {
                self.ue(marking.long_term_pic_num);
            }
            if op == 3 || op == 6 {
                self.ue(marking.long_term_frame_idx);
            }
            if op == 4 {
                assert(markings@[i as int].memory_management_control_operation == 4);
                if self.failed.is_some() {
                    let ghost count = seq![
                        Element::Ue(marking.max_long_term_frame_idx.plus1() as u32),
                    ];
                    self.leave_out(Ghost(count));
                } else {
                    self.ue(marking.max_long_term_frame_idx.to_value_plus1());
                }
            }
            assert(self.elements() =~= sofar + syntax::marking_syntax(marking));
            i = i + 1;
            proof {
                assert(markings@.take(i as int).drop_last() =~= markings@.take(i - 1));
                lemma_append(
                    before,
                    syntax::markings_syntax(markings@.take(i - 1)),
                    syntax::marking_syntax(marking),
                );
            }
        }
        assert(markings@.take(i as int) =~= markings@);
    }
}

/// The weight that stands for no weighting: `1 << log2_denom`, in an `i16`.
fn default_weight(log2_denom: u8) -> (r: i16)
    requires
        log2_denom < 16,
    ensures
        r == syntax::default_weight(log2_denom),
{
    proof {
        vstd::arithmetic::power2::lemma2_to64();
    }
    match log2_denom {
        0 => 1,
        1 => 2,
        2 => 4,
        3 => 8,
        4 => 16,
        5 => 32,
        6 => 64,
        7 => 128,
        8 => 256,
        9 => 512,
        10 => 1024,
        11 => 2048,
        12 => 4096,
        13 => 8192,
        14 => 16384,
        _ => -32768,
    }
}

/// Appending piece by piece appends the pieces together.
proof fn lemma_append(start: Seq<Element>, a: Seq<Element>, b: Seq<Element>)
    ensures
        (start + a) + b == start + (a + b),
{
    assert((start + a) + b =~= start + (a + b));
}

/// Coded picture buffers are the first of them and the others.
proof fn lemma_first_buffers(hrd: HrdParams, n: nat, count: nat)
    requires
        n <= count,
    ensures
        syntax::cpb_syntax(hrd, n) + syntax::cpb_syntax(hrd, count).skip(
            syntax::cpb_syntax(hrd, n).len() as int,
        ) == syntax::cpb_syntax(hrd, count),
    decreases count,
{
    let first = syntax::cpb_syntax(hrd, n);
    let all = syntax::cpb_syntax(hrd, count);
    if n < count {
        let fewer = syntax::cpb_syntax(hrd, (count - 1) as nat);
        lemma_first_buffers(hrd, n, (count - 1) as nat);
        assert(fewer.len() >= first.len()) by {
            assert((first + fewer.skip(first.len() as int)).len() >= first.len());
        }
        assert(all.take(fewer.len() as int) =~= fewer);
        assert(fewer.take(first.len() as int) =~= first);
    }
    assert(first + all.skip(first.len() as int) =~= all);
}

/// Appending nothing changes nothing.
proof fn lemma_append_nothing(start: Seq<Element>)
    ensures
        start + Seq::<Element>::empty() == start,
{
    assert(start + Seq::<Element>::empty() =~= start);
}

/// A single bit is its value.
proof fn lemma_one_bit()
    ensures
        bitstream_utils::value_bits(1, 1) == seq![true],
        bitstream_utils::value_bits(1, 0) == seq![false],
{
    vstd::arithmetic::power2::lemma2_to64();
    let exponent = (1nat - 1 - 0) as nat;
    assert(exponent == 0);
    assert(1nat / vstd::arithmetic::power2::pow2(exponent) == 1);
    assert(bitstream_utils::value_bits(1, 1)[0]);
    assert(bitstream_utils::value_bits(1, 1) =~= seq![true]);
    assert(bitstream_utils::value_bits(1, 0) =~= seq![false]);
}

/// Returns whether two slices hold the same bytes.
fn same_bytes(a: &[u8], b: &[u8]) -> (r: bool)
    ensures
        r == (a@ == b@),
{
    if a.len() != b.len() {
        return false;
    }
    let mut i: usize = 0;
    while i < a.len()
        invariant
            i <= a@.len() == b@.len(),
            a@.take(i as int) == b@.take(i as int),
        decreases a@.len() - i,
    {
        if a[i] != b[i] {
            return false;
        }
        i = i + 1;
        assert(a@.take(i as int) =~= a@.take(i - 1).push(a@[i - 1]));
        assert(b@.take(i as int) =~= b@.take(i - 1).push(b@[i - 1]));
    }
    assert(a@.take(i as int) =~= a@);
    assert(b@.take(i as int) =~= b@);
    true
}

/// Returns whether a slice holds nothing but zeros.
fn all_zero(list: &[u8]) -> (r: bool)
    ensures
        r == syntax::absent(list@),
{
    let mut i: usize = 0;
    while i < list.len()
        invariant
            i <= list@.len(),
            forall|k: int| 0 <= k < i ==> list@[k] == 0,
        decreases list@.len() - i,
    {
        if list[i] != 0 {
            return false;
        }
        i = i + 1;
    }
    true
}

} // verus!
