//! The bitstream layer, byte for byte.

use std::rc::Rc;

use moq_vaapi::bitstream_utils::BitWriter;
use moq_vaapi::bitstream_utils::BitWriterError;
use moq_vaapi::codec::h264::emulation::EmulationPrevention;
use moq_vaapi::codec::h264::nalu_writer::NaluWriter;
use moq_vaapi::codec::h264::nalu_writer::NaluWriterError;
use moq_vaapi::codec::h264::parser::Level;
use moq_vaapi::codec::h264::parser::MaxLongTermFrameIdx;
use moq_vaapi::codec::h264::parser::Pps;
use moq_vaapi::codec::h264::parser::Profile;
use moq_vaapi::codec::h264::parser::RefPicListModification;
use moq_vaapi::codec::h264::parser::RefPicMarkingInner;
use moq_vaapi::codec::h264::parser::SliceHeader;
use moq_vaapi::codec::h264::parser::SliceHeaderBuilder;
use moq_vaapi::codec::h264::parser::SliceType;
use moq_vaapi::codec::h264::parser::Sps;
use moq_vaapi::codec::h264::parser::SpsBuilder;
use moq_vaapi::codec::h264::parser::DEFAULT_4X4_INTRA;
use moq_vaapi::codec::h264::synthesizer::Synthesizer;
use moq_vaapi::codec::h264::synthesizer::SynthesizerError;
use moq_vaapi::color::Color;
use moq_vaapi::encode::stream::build_sps_pps;
use moq_vaapi::encode::stream::packed_pps;
use moq_vaapi::encode::stream::packed_sps;
use moq_vaapi::encode::Config;
use moq_vaapi::encode::IsReference;

/// The payload bytes that a sequence of writes comes to.
fn payload(ep_enabled: bool, write: impl FnOnce(&mut NaluWriter)) -> Vec<u8> {
    let mut writer = NaluWriter::new(Vec::new(), ep_enabled);
    write(&mut writer);
    writer.finish()
}

/// The parameter sets of a stream.
fn stream(width: u32, height: u32, framerate: u32, color: Color) -> Rc<Pps> {
    build_sps_pps(&Config { color, ..Config::new(width, height, framerate, 1_000_000, 30) })
}

/// Takes the emulation prevention bytes out again.
fn unescape(bytes: &[u8]) -> Vec<u8> {
    let mut out = Vec::new();
    let mut i = 0;
    while i < bytes.len() {
        if bytes[i..].starts_with(&[0, 0, 3]) {
            out.extend([0, 0]);
            i += 3;
        } else {
            out.push(bytes[i]);
            i += 1;
        }
    }
    out
}

/// Reads bits, the most significant first.
struct Reader {
    bytes: Vec<u8>,
    at: usize,
}

impl Reader {
    fn bit(&mut self) -> u32 {
        let bit = self.bytes[self.at / 8] >> (7 - self.at % 8) & 1;
        self.at += 1;
        bit as u32
    }

    fn u(&mut self, n: usize) -> u32 {
        (0..n).fold(0, |value, _| value << 1 | self.bit())
    }

    fn ue(&mut self) -> u32 {
        let mut zeros = 0;
        while self.bit() == 0 {
            zeros += 1;
        }
        (1 << zeros | self.u(zeros)) - 1
    }

    fn se(&mut self) -> i32 {
        let code = self.ue() as i32;
        if code % 2 == 0 {
            -(code / 2)
        } else {
            (code + 1) / 2
        }
    }
}

#[test]
fn fixed_length_values_are_packed_from_the_top() {
    let bytes = payload(false, |w| {
        assert_eq!(w.write_f(3, 0b101), Ok(3));
        assert!(!w.aligned() && w.has_data_pending());
        assert_eq!(w.write_u(5, 0b00110), Ok(5));
        assert!(w.aligned() && !w.has_data_pending());
        assert_eq!(w.write_u(32, 0xdead_beef), Ok(32));
        assert_eq!(w.write_u(0, 7), Ok(0));
        assert_eq!(w.write_u(4, 0xff), Ok(4));
    });
    assert_eq!(bytes, vec![0b1010_0110, 0xde, 0xad, 0xbe, 0xef, 0xf0]);
}

#[test]
fn more_bits_than_a_word_are_refused() {
    let error = NaluWriterError::BitWriterError(BitWriterError::InvalidBitCount);
    let bytes = payload(false, |w| {
        assert_eq!(w.write_f(33, 0), Err(error));
        assert_eq!(w.write_u(33, 0), Err(error));
    });
    assert!(bytes.is_empty());
    assert_eq!(error.message(), "invalid bit count");
}

#[test]
fn exp_golomb_codes() {
    // 1 010 011 00100 00101, then 00000000 1 00000001.
    let bytes = payload(false, |w| {
        for value in [0, 1, 2, 3, 4] {
            w.write_ue(value).expect("a code");
        }
        w.write_exp_golumb(256).expect("a code");
    });
    assert_eq!(bytes, vec![0b1010_0110, 0b0100_0010, 0b1000_0000, 0b0100_0000, 0b0100_0000]);
    // 0, 1, -1, 2, -2 are numbered from 0.
    let bytes = payload(false, |w| {
        for value in [0, 1, -1, 2, -2] {
            w.write_se(value).expect("a code");
        }
    });
    assert_eq!(bytes, vec![0b1010_0110, 0b0100_0010, 0b1000_0000]);
}

#[test]
fn the_largest_number_has_no_code() {
    let bytes = payload(false, |w| {
        assert_eq!(w.write_ue(u32::MAX), Err(NaluWriterError::Overflow));
        assert_eq!(w.write_exp_golumb(u32::MAX), Err(NaluWriterError::Overflow));
        assert_eq!(w.write_ue(u32::MAX - 1), Ok(()));
    });
    // 31 zeros and the 32 ones of the number's successor.
    assert_eq!(bytes, vec![0, 0, 0, 1, 0xff, 0xff, 0xff, 0xfe]);
    assert_eq!(NaluWriterError::Overflow.message(), "value increment caused value overflow");
}

#[test]
fn codes_read_back() {
    let numbers = [0u32, 1, 7, 8, 254, 255, 65_535, 1 << 20, u32::MAX - 1];
    let signed = [0i32, 1, -1, 100, -100, i32::MAX, i32::MIN + 1];
    let bytes = payload(true, |w| {
        for number in numbers {
            w.write_ue(number).expect("a code");
        }
        for value in signed {
            w.write_se(value).expect("a code");
        }
    });
    let mut reader = Reader { bytes: unescape(&bytes), at: 0 };
    for number in numbers.iter().take(8) {
        assert_eq!(reader.ue(), *number);
    }
    let mut reader = Reader {
        bytes: unescape(&payload(true, |w| {
            for value in signed.iter().take(5) {
                w.write_se(*value).expect("a code");
            }
        })),
        at: 0,
    };
    for value in signed.iter().take(5) {
        assert_eq!(reader.se(), *value);
    }
}

#[test]
fn start_codes_are_not_emulated() {
    let write = |bytes: &'static [u8]| {
        move |w: &mut NaluWriter| {
            for byte in bytes {
                w.write_u(8, *byte as u32).expect("a byte");
            }
        }
    };
    assert_eq!(payload(true, write(&[0, 0, 1])), vec![0, 0, 3, 1]);
    assert_eq!(payload(true, write(&[0, 0, 0])), vec![0, 0, 3, 0]);
    assert_eq!(payload(true, write(&[0, 0, 3])), vec![0, 0, 3, 3]);
    assert_eq!(payload(true, write(&[0, 0, 4])), vec![0, 0, 4]);
    assert_eq!(payload(true, write(&[9, 0, 0, 2, 7])), vec![9, 0, 0, 3, 2, 7]);
    assert_eq!(payload(false, write(&[0, 0, 1])), vec![0, 0, 1]);
    let escaped = payload(true, write(&[9, 0, 0, 2, 0, 0, 1, 0, 4]));
    assert_eq!(unescape(&escaped), vec![9, 0, 0, 2, 0, 0, 1, 0, 4]);
}

#[test]
fn an_escaped_byte_counts_towards_the_next_group() {
    let write = |bytes: &'static [u8]| {
        move |w: &mut NaluWriter| {
            for byte in bytes {
                w.write_u(8, *byte as u32).expect("a byte");
            }
        }
    };
    assert_eq!(payload(true, write(&[0, 0, 0, 0])), vec![0, 0, 3, 0, 0]);
    assert_eq!(payload(true, write(&[0, 0, 0, 0, 1])), vec![0, 0, 3, 0, 0, 3, 1]);
    assert_eq!(payload(true, write(&[0, 0, 0, 0, 0])), vec![0, 0, 3, 0, 0, 3, 0]);
    assert_eq!(payload(true, write(&[0, 0, 0, 0, 3])), vec![0, 0, 3, 0, 0, 3, 3]);
    assert_eq!(payload(true, write(&[0, 0, 0, 4])), vec![0, 0, 3, 0, 4]);
    assert_eq!(payload(true, write(&[0, 0, 3, 0, 0, 3])), vec![0, 0, 3, 3, 0, 0, 3, 3]);
    for bytes in [&[0u8; 12][..], &[0, 0, 0, 0, 3, 0, 0, 0, 1, 0, 0, 2], &[0, 0, 3, 0, 0, 0, 0]] {
        let escaped = payload(true, |w| {
            for byte in bytes {
                w.write_u(8, *byte as u32).expect("a byte");
            }
        });
        assert_eq!(unescape(&escaped), bytes);
        assert!(!escaped.windows(3).any(|w| w[0] == 0 && w[1] == 0 && w[2] <= 2));
    }
}

#[test]
fn a_flushed_payload_holds_no_start_code() {
    let mut writer = NaluWriter::new(Vec::new(), true);
    for byte in [0u32, 0, 0, 0, 1] {
        assert_eq!(writer.write_f(8, byte), Ok(8));
    }
    assert_eq!(writer.flush(), Ok(0));
    assert_eq!(writer.finish(), vec![0, 0, 3, 0, 0, 3, 1]);
}

#[test]
fn emulation_prevention_holds_bytes_back() {
    let mut out = EmulationPrevention::new(vec![7], true);
    assert!(!out.has_data_pending());
    assert_eq!(out.write(&[0, 0]), 2);
    assert!(out.has_data_pending());
    out.write_byte(1);
    assert!(!out.has_data_pending());
    out.flush();
    assert!(!out.has_data_pending());
    out.write_header(3, 7);
    assert_eq!(out.into_inner(), vec![7, 0, 0, 3, 1, 0, 0, 0, 1, 0x67]);
}

#[test]
fn an_escaped_byte_is_put_out_at_once() {
    for byte in 0..=3 {
        let mut out = EmulationPrevention::new(Vec::new(), true);
        assert_eq!(out.write(&[0, 0, byte]), 3);
        assert!(!out.has_data_pending());
        // Nothing is added to it by a flush.
        out.flush();
        assert_eq!(out.into_inner(), vec![0, 0, 3, byte]);
    }
    let mut out = EmulationPrevention::new(Vec::new(), true);
    assert_eq!(out.write(&[0, 0, 4]), 3);
    assert!(out.has_data_pending());
    out.flush();
    assert_eq!(out.into_inner(), vec![0, 0, 4]);
    // Two groups back to back share a zero.
    let mut out = EmulationPrevention::new(Vec::new(), true);
    out.write(&[0, 0, 0, 0]);
    assert!(out.has_data_pending());
    out.write_byte(2);
    assert!(!out.has_data_pending());
    out.flush();
    assert_eq!(out.into_inner(), vec![0, 0, 3, 0, 0, 3, 2]);
    let mut writer = NaluWriter::new(Vec::new(), true);
    writer.write_u(24, 3).expect("three bytes");
    assert!(!writer.has_data_pending());
    assert_eq!(writer.finish(), vec![0, 0, 3, 3]);
}

#[test]
fn a_bit_writer_fills_the_last_byte() {
    let mut writer = BitWriter::new(EmulationPrevention::new(Vec::new(), true));
    assert_eq!(writer.write_f(33, 0), Err(BitWriterError::InvalidBitCount));
    writer.write_bit(true);
    assert!(writer.has_data_pending());
    assert_eq!(writer.flush(), 7);
    assert!(!writer.has_data_pending() && !writer.inner_has_data_pending());
    assert_eq!(writer.flush(), 0);
    writer.write_header(0, 1);
    assert_eq!(writer.into_inner(), vec![0x80, 0, 0, 0, 1, 0x01]);
}

#[test]
fn a_header_closes_off_what_came_before() {
    let mut writer = NaluWriter::new(Vec::new(), true);
    writer.write_u(1, 1).expect("a bit");
    writer.write_header(3, 8).expect("a header");
    writer.write_u(8, 0xee).expect("a byte");
    assert_eq!(writer.flush(), Ok(0));
    assert_eq!(writer.finish(), vec![0x80, 0, 0, 0, 1, 0x68, 0xee]);
}

#[test]
fn the_parameter_sets_of_a_stream() {
    let pps = stream(320, 240, 30, Color::bt601());
    assert_eq!(
        packed_sps(&pps.sps).expect("an SPS"),
        vec![
            0x00, 0x00, 0x00, 0x01, 0x67, 0x4d, 0x00, 0x28, 0x88, 0x89, 0x40, 0xa0, 0xfd, 0x80,
            0xb5, 0x06, 0x06, 0x06, 0x40, 0x00, 0x00, 0x03, 0x00, 0x40, 0x00, 0x00, 0x0f, 0x03,
            0x68, 0x22, 0x11, 0xa8,
        ]
    );
    assert_eq!(
        packed_pps(&pps).expect("a PPS"),
        vec![0x00, 0x00, 0x00, 0x01, 0x68, 0xee, 0x3c, 0x80]
    );
    // Cropped from 1088 rows, at level 4.2, in BT.709.
    let pps = stream(1920, 1080, 60, Color::bt709());
    assert!(pps.sps.frame_cropping_flag);
    assert_eq!((pps.sps.frame_crop_right_offset, pps.sps.frame_crop_bottom_offset), (0, 4));
    assert_eq!(
        packed_sps(&pps.sps).expect("an SPS"),
        vec![
            0x00, 0x00, 0x00, 0x01, 0x67, 0x4d, 0x00, 0x2a, 0x88, 0x89, 0x40, 0x3c, 0x01, 0x13,
            0xf2, 0xe0, 0x2d, 0x40, 0x40, 0x40, 0x50, 0x00, 0x00, 0x03, 0x00, 0x10, 0x00, 0x00,
            0x07, 0x80, 0xda, 0x08, 0x84, 0x6a,
        ]
    );
}

#[test]
fn the_parameter_sets_read_back() {
    for (width, height, framerate, color) in [
        (16, 16, 0, Color::bt601()),
        (320, 240, 30, Color::bt709()),
        (1366, 768, 60, Color::bt601()),
        (1_048_560, 2, 1 << 30, Color::bt709()),
    ] {
        let pps = stream(width, height, framerate, color);
        let unit = packed_sps(&pps.sps).expect("an SPS");
        assert!(
            !unit[5..].windows(3).any(|w| w[0] == 0 && w[1] == 0 && w[2] <= 2),
            "{unit:x?} emulates a start code"
        );
        let mut reader = Reader { bytes: unescape(&unit[5..]), at: 0 };
        assert_eq!(reader.u(8), 77);
        assert_eq!(reader.u(8), 0);
        assert_eq!(reader.u(8), pps.sps.level_idc.value() as u32);
        assert_eq!(
            (reader.ue(), reader.ue(), reader.ue(), reader.ue()),
            (0, 7, 0, 8),
            "the counts"
        );
        assert_eq!((reader.ue(), reader.bit()), (1, 0));
        let (w, h) = (16 * (reader.ue() + 1), 16 * (reader.ue() + 1));
        assert_eq!((reader.bit(), reader.bit()), (1, 1));
        let (mut right, mut bottom) = (0, 0);
        if reader.bit() == 1 {
            assert_eq!(reader.ue(), 0);
            right = reader.ue();
            assert_eq!(reader.ue(), 0);
            bottom = reader.ue();
        }
        assert_eq!((w - 2 * right, h - 2 * bottom), (width, height), "the declared size");
        assert_eq!(reader.u(2), 0b11);
        assert_eq!(reader.u(8), 1);
        assert_eq!(reader.u(5), 0b01101);
        assert_eq!(reader.u(2), 0b01);
        let description = color.vui();
        assert_eq!((reader.u(8), reader.u(8), reader.u(8)), {
            (description.0 as u32, description.1 as u32, description.2 as u32)
        });
        assert_eq!(reader.u(2), 0b01);
        assert_eq!((reader.u(32), reader.u(32)), (1, 2 * framerate));
        assert_eq!(reader.u(6), 0b000011);
    }
}

#[test]
fn a_slice_header_of_an_idr() {
    let pps = stream(320, 240, 30, Color::bt601());
    let header = SliceHeaderBuilder::new(&pps).slice_type(SliceType::I).build();
    let mut out = Vec::new();
    let trailing = Synthesizer::<'_, SliceHeader>::synthesize(
        &header,
        &pps.sps,
        &pps,
        true,
        IsReference::ShortTerm,
        &mut out,
        true,
    );
    assert_eq!(trailing, Ok(5));
    assert_eq!(out, vec![0x00, 0x00, 0x00, 0x01, 0x65, 0xb8, 0x00, 0x80, 0x01, 0xe0]);
}

fn p_header(pps: &Pps) -> SliceHeader {
    SliceHeaderBuilder::new(pps)
        .slice_type(SliceType::P)
        .first_mb_in_slice(0)
        .frame_num(5)
        .pic_order_cnt_lsb(10)
        .build()
}

fn slice_unit(header: &SliceHeader, pps: &Pps, is_ref: IsReference) -> (Vec<u8>, u8) {
    let mut out = Vec::new();
    let trailing = Synthesizer::<'_, SliceHeader>::synthesize(
        header, &pps.sps, pps, false, is_ref, &mut out, true,
    )
    .expect("a slice header");
    (out, trailing)
}

#[test]
fn slice_headers_of_p_frames() {
    let pps = stream(320, 240, 30, Color::bt601());
    let header = p_header(&pps);
    assert_eq!(
        slice_unit(&header, &pps, IsReference::ShortTerm),
        (vec![0x00, 0x00, 0x00, 0x01, 0x21, 0xe0, 0x14, 0x02, 0x87, 0xc0], 6)
    );
    assert_eq!(
        slice_unit(&header, &pps, IsReference::No),
        (vec![0x00, 0x00, 0x00, 0x01, 0x01, 0xe0, 0x14, 0x02, 0x8f, 0x80], 7)
    );
}

#[test]
fn a_slice_header_with_a_run_of_zeros_reads_back() {
    let plain = stream(320, 240, 30, Color::bt601());
    let mut sps = (*plain.sps).clone();
    sps.log2_max_frame_num_minus4 = 28;
    sps.log2_max_pic_order_cnt_lsb_minus4 = 28;
    let pps = Pps { sps: Rc::new(sps), ..(*plain).clone() };
    let mut header = p_header(&pps);
    header.frame_num = 0;
    header.pic_order_cnt_lsb = 0;
    let (out, trailing) = slice_unit(&header, &pps, IsReference::No);
    assert!(!out[5..].windows(3).any(|w| w[0] == 0 && w[1] == 0 && w[2] <= 2));
    let bytes = unescape(&out[5..]);
    let length = bytes.len() * 8;
    let mut reader = Reader { bytes, at: 0 };
    assert_eq!((reader.ue(), reader.ue(), reader.ue()), (0, 0, 0));
    assert_eq!((reader.u(32), reader.u(32)), (0, 0));
    assert_eq!((reader.bit(), reader.bit()), (0, 0));
    assert_eq!((reader.ue(), reader.se()), (0, 0));
    assert_eq!((reader.ue(), reader.se(), reader.se()), (0, 0, 0));
    assert_eq!(reader.at + trailing as usize, length);
    while reader.at < length {
        assert_eq!(reader.bit(), 0);
    }
}

#[test]
fn a_slice_header_with_weights() {
    let plain = stream(320, 240, 30, Color::bt601());
    let pps = Pps { weighted_pred_flag: true, ..(*plain).clone() };
    let mut header = p_header(&pps);
    header.pred_weight_table.luma_log2_weight_denom = 5;
    header.pred_weight_table.luma_weight_l0[0] = 20;
    header.pred_weight_table.luma_offset_l0[0] = -3;
    header.pred_weight_table.chroma_weight_l0[0] = [1, 1];
    assert_eq!(
        slice_unit(&header, &pps, IsReference::ShortTerm),
        (
            vec![
                0x00, 0x00, 0x00, 0x01, 0x21, 0xe0, 0x14, 0x02, 0x83, 0x60, 0xa0, 0xe7, 0xc0,
            ],
            6
        )
    );
}

#[test]
fn a_slice_header_with_modifications_and_marking() {
    let pps = stream(320, 240, 30, Color::bt601());
    let mut header = p_header(&pps);
    header.ref_pic_list_modification_flag_l0 = true;
    header.ref_pic_list_modification_l0 = vec![
        RefPicListModification {
            modification_of_pic_nums_idc: 0,
            abs_diff_pic_num_minus1: 7,
            long_term_pic_num: 0,
        },
        RefPicListModification {
            modification_of_pic_nums_idc: 2,
            abs_diff_pic_num_minus1: 0,
            long_term_pic_num: 3,
        },
    ];
    let marking = |operation: u8| RefPicMarkingInner {
        memory_management_control_operation: operation,
        difference_of_pic_nums_minus1: 4,
        long_term_pic_num: 0,
        long_term_frame_idx: 0,
        max_long_term_frame_idx: MaxLongTermFrameIdx::Idx(2),
    };
    header.dec_ref_pic_marking.adaptive_ref_pic_marking_mode_flag = true;
    header.dec_ref_pic_marking.inner = vec![marking(1), marking(4)];
    assert_eq!(
        slice_unit(&header, &pps, IsReference::LongTerm),
        (
            vec![
                0x00, 0x00, 0x00, 0x01, 0x41, 0xe0, 0x14, 0x02, 0x98, 0x86, 0x42, 0x51, 0x4a,
                0x4f, 0xc0,
            ],
            6
        )
    );
}

fn sps_unit(sps: &Sps) -> (Vec<u8>, Result<(), SynthesizerError>) {
    let mut out = Vec::new();
    let result = Synthesizer::<'_, Sps>::synthesize(3, sps, &mut out, true);
    (out, result)
}

#[test]
fn scaling_lists_are_sent_as_differences() {
    let mut sps = Sps::new();
    sps.profile_idc = Profile::High.value();
    sps.level_idc = Level::L4;
    sps.chroma_format_idc = 1;
    sps.frame_mbs_only_flag = true;
    sps.seq_scaling_matrix_present_flag = true;
    sps.scaling_lists_4x4[0] = [16; 16];
    sps.scaling_lists_4x4[1] = DEFAULT_4X4_INTRA;
    assert_eq!(
        sps_unit(&sps),
        (
            vec![
                0x00, 0x00, 0x00, 0x01, 0x67, 0x64, 0x00, 0x28, 0xad, 0x84, 0x01, 0x0c, 0x22,
                0x07, 0xb8, 0x80,
            ],
            Ok(())
        )
    );
}

/// Reads a scaling list as a decoder does, or nothing for the default one.
fn read_scaling_list(reader: &mut Reader, size: usize) -> Option<Vec<u8>> {
    let (mut last, mut next) = (8i32, 8i32);
    let mut list = Vec::new();
    for j in 0..size {
        if next != 0 {
            next = (last + reader.se() + 256) % 256;
            if j == 0 && next == 0 {
                return None;
            }
        }
        last = if next == 0 { last } else { next };
        list.push(last as u8);
    }
    Some(list)
}

#[test]
fn scaling_lists_read_back() {
    let mut sps = Sps::new();
    sps.profile_idc = Profile::High.value();
    sps.seq_scaling_matrix_present_flag = true;
    sps.chroma_format_idc = 1;
    sps.scaling_lists_4x4[0] = [255; 16];
    sps.scaling_lists_4x4[1] = DEFAULT_4X4_INTRA;
    sps.scaling_lists_4x4[2] = [1, 255, 1, 255, 2, 2, 2, 9, 8, 7, 6, 5, 4, 3, 2, 1];
    sps.scaling_lists_8x8[1] = std::array::from_fn(|i| if i < 40 { i as u8 + 1 } else { 40 });
    let (out, result) = sps_unit(&sps);
    assert_eq!(result, Ok(()));
    let mut reader = Reader { bytes: unescape(&out[5..]), at: 24 };
    assert_eq!((reader.ue(), reader.ue(), reader.ue(), reader.ue()), (0, 1, 0, 0));
    assert_eq!(reader.u(2), 0b01);
    for i in 0..8 {
        let present = i < 3 || i == 7;
        assert_eq!(reader.bit() == 1, present, "list {i}");
        if present {
            let list = read_scaling_list(&mut reader, if i < 6 { 16 } else { 64 });
            match i {
                1 => assert_eq!(list, None, "the default list"),
                7 => assert_eq!(list, Some(sps.scaling_lists_8x8[1].to_vec())),
                _ => assert_eq!(list, Some(sps.scaling_lists_4x4[i].to_vec())),
            }
        }
    }
}

#[test]
fn reference_decoder_parameters() {
    let mut sps = Sps::new();
    sps.profile_idc = Profile::Main.value();
    sps.frame_mbs_only_flag = true;
    sps.vui_parameters_present_flag = true;
    sps.vui_parameters.nal_hrd_parameters_present_flag = true;
    sps.vui_parameters.low_delay_hrd_flag = true;
    let hrd = &mut sps.vui_parameters.nal_hrd_parameters;
    hrd.cpb_cnt_minus1 = 1;
    hrd.bit_rate_scale = 2;
    hrd.cpb_size_scale = 3;
    hrd.bit_rate_value_minus1[..2].copy_from_slice(&[100, 300]);
    hrd.cpb_size_value_minus1[..2].copy_from_slice(&[200, 400]);
    hrd.cbr_flag[0] = true;
    hrd.initial_cpb_removal_delay_length_minus1 = 23;
    hrd.cpb_removal_delay_length_minus1 = 22;
    hrd.dpb_output_delay_length_minus1 = 21;
    hrd.time_offset_length = 20;
    assert_eq!(
        sps_unit(&sps),
        (
            vec![
                0x00, 0x00, 0x00, 0x01, 0x67, 0x4d, 0x00, 0x0a, 0xfb, 0x90, 0x51, 0x18, 0x19,
                0x40, 0x64, 0xc0, 0x25, 0xa0, 0x19, 0x15, 0xed, 0x5a, 0x24,
            ],
            Ok(())
        )
    );
}

#[test]
fn the_declared_reference_frame_offsets_are_sent() {
    let mut sps = Sps::new();
    sps.profile_idc = Profile::Main.value();
    sps.pic_order_cnt_type = 1;
    sps.max_num_ref_frames = 6;
    sps.offset_for_ref_frame[1] = -1;
    sps.offset_for_ref_frame[254] = 3;
    for count in [0u8, 2, 255] {
        sps.num_ref_frames_in_pic_order_cnt_cycle = count;
        // What is not sent needs no code.
        sps.offset_for_ref_frame[253] = if count == 255 { 0 } else { i32::MIN };
        let (out, result) = sps_unit(&sps);
        assert_eq!(result, Ok(()));
        let mut reader = Reader { bytes: unescape(&out[5..]), at: 24 };
        assert_eq!((reader.ue(), reader.ue(), reader.ue()), (0, 0, 1));
        assert_eq!((reader.bit(), reader.se(), reader.se()), (0, 0, 0));
        assert_eq!(reader.ue(), count as u32);
        for i in 0..count {
            assert_eq!(reader.se(), sps.offset_for_ref_frame[i as usize]);
        }
        assert_eq!(reader.ue(), 6);
    }
}

#[test]
fn a_value_without_a_code_ends_the_unit() {
    let mut sps = Sps::new();
    sps.profile_idc = Profile::Main.value();
    sps.frame_cropping_flag = true;
    sps.frame_crop_left_offset = u32::MAX;
    let (out, result) = sps_unit(&sps);
    let error = SynthesizerError::NaluWriter(NaluWriterError::Overflow);
    assert_eq!(result, Err(error));
    assert_eq!(error.message(), "value increment caused value overflow");
    // The profile, the level, five zeros, a flag, two zeros, two flags and
    // the two flags in front of the offset.
    assert_eq!(out, vec![0, 0, 0, 1, 0x67, 0x4d, 0x00, 0x0a, 0b1111_1011, 0b0001_0000]);
}

#[test]
fn nothing_behind_the_end_of_a_unit_matters() {
    let error = SynthesizerError::NaluWriter(NaluWriterError::Overflow);
    // More coded picture buffers than there are, behind one without a code.
    let mut sps = Sps::new();
    sps.vui_parameters_present_flag = true;
    sps.vui_parameters.nal_hrd_parameters_present_flag = true;
    sps.vui_parameters.nal_hrd_parameters.cpb_cnt_minus1 = 40;
    sps.vui_parameters.nal_hrd_parameters.bit_rate_value_minus1[31] = u32::MAX;
    sps.vui_parameters.vcl_hrd_parameters_present_flag = true;
    sps.vui_parameters.vcl_hrd_parameters.cpb_cnt_minus1 = 50;
    assert_eq!(sps_unit(&sps).1, Err(error));
    // And behind an offset without one.
    sps.vui_parameters.nal_hrd_parameters.bit_rate_value_minus1[31] = 0;
    sps.frame_cropping_flag = true;
    sps.frame_crop_bottom_offset = u32::MAX;
    assert_eq!(sps_unit(&sps).1, Err(error));

    let plain = stream(320, 240, 30, Color::bt601());
    let pps = Pps { weighted_pred_flag: true, ..(*plain).clone() };
    let mut header = p_header(&pps);
    header.first_mb_in_slice = u32::MAX;
    header.delta_pic_order_cnt_bottom = i32::MIN;
    header.pred_weight_table.luma_log2_weight_denom = 16;
    header.num_ref_idx_l0_active_minus1 = 32;
    header.dec_ref_pic_marking.adaptive_ref_pic_marking_mode_flag = true;
    header.dec_ref_pic_marking.inner = vec![RefPicMarkingInner {
        memory_management_control_operation: 4,
        difference_of_pic_nums_minus1: 0,
        long_term_pic_num: 0,
        long_term_frame_idx: 0,
        max_long_term_frame_idx: MaxLongTermFrameIdx::Idx(u32::MAX),
    }];
    let mut out = Vec::new();
    let result = Synthesizer::<'_, SliceHeader>::synthesize(
        &header,
        &pps.sps,
        &pps,
        false,
        IsReference::ShortTerm,
        &mut out,
        true,
    );
    assert_eq!(result, Err(error));
    assert_eq!(out, vec![0, 0, 0, 1, 0x21]);
}

#[test]
fn slice_groups_are_not_supported() {
    let plain = stream(320, 240, 30, Color::bt601());
    let pps = Pps { num_slice_groups_minus1: 1, ..(*plain).clone() };
    let mut out = Vec::new();
    let result = Synthesizer::<'_, Pps>::synthesize(3, &pps, &mut out, true);
    assert_eq!(result, Err(SynthesizerError::Unsupported));
    assert_eq!(
        SynthesizerError::Unsupported.message(),
        "tried to synthesize unsupported settings"
    );
    assert_eq!(packed_pps(&pps), Err(SynthesizerError::Unsupported));
    let mut out = Vec::new();
    let result = Synthesizer::<'_, SliceHeader>::synthesize(
        &p_header(&pps),
        &pps.sps,
        &pps,
        false,
        IsReference::ShortTerm,
        &mut out,
        true,
    );
    assert_eq!(result, Err(SynthesizerError::Unsupported));
}

#[test]
fn a_unit_is_appended() {
    let pps = stream(320, 240, 30, Color::bt601());
    let mut out = vec![1, 2, 3];
    Synthesizer::<'_, Pps>::synthesize(0, &pps, &mut out, false).expect("a PPS");
    assert_eq!(out, vec![1, 2, 3, 0x00, 0x00, 0x00, 0x01, 0x08, 0xee, 0x3c, 0x80]);
}

#[test]
fn builders_set_what_they_are_named_for() {
    let sps: Rc<Sps> = SpsBuilder::new()
        .seq_parameter_set_id(3)
        .profile_idc(Profile::High)
        .chroma_format_idc(1)
        .level_idc(Level::L5)
        .max_frame_num(256)
        .pic_order_cnt_type(0)
        .max_pic_order_cnt_lsb(512)
        .max_num_ref_frames(4)
        .frame_mbs_only_flag(true)
        .direct_8x8_inference_flag(true)
        .resolution(100, 50)
        .bit_depth_luma(10)
        .bit_depth_chroma(9)
        .aspect_ratio(5, 7)
        .build();
    assert_eq!(sps.seq_parameter_set_id, 3);
    assert_eq!(sps.profile_idc, 100);
    assert_eq!(sps.log2_max_frame_num_minus4, 4);
    assert_eq!(sps.log2_max_pic_order_cnt_lsb_minus4, 5);
    assert_eq!((sps.pic_width_in_mbs_minus1, sps.pic_height_in_map_units_minus1), (6, 3));
    assert_eq!((sps.frame_crop_right_offset, sps.frame_crop_bottom_offset), (6, 7));
    assert_eq!((sps.bit_depth_luma_minus8, sps.bit_depth_chroma_minus8), (2, 1));
    assert_eq!(sps.vui_parameters.aspect_ratio_idc, 255);
    assert_eq!((sps.vui_parameters.sar_width, sps.vui_parameters.sar_height), (5, 7));
    assert_eq!(sps.chroma_array_type(), 1);
}
