//! Levels, sizes, formats and colors.

use moq_vaapi::bindings::VA_ENTRYPOINT_ENC_SLICE as FULL;
use moq_vaapi::bindings::VA_ENTRYPOINT_ENC_SLICE_LP as LOW_POWER;
use moq_vaapi::bindings::VA_ENTRYPOINT_VIDEO_PROC;
use moq_vaapi::bindings::VA_ENTRYPOINT_VLD as DECODE;
use moq_vaapi::bindings::VA_FOURCC_ARGB;
use moq_vaapi::bindings::VA_FOURCC_BGRA;
use moq_vaapi::bindings::VA_FOURCC_BGRX;
use moq_vaapi::bindings::VA_FOURCC_NV12;
use moq_vaapi::bindings::VA_FOURCC_RGBA;
use moq_vaapi::bindings::VA_FOURCC_RGBX;
use moq_vaapi::bindings::VA_FOURCC_XRGB;
use moq_vaapi::bindings::VA_FOURCC_YUY2;
use moq_vaapi::codec::h264::parser::Level;
use moq_vaapi::color::Color;
use moq_vaapi::color::Matrix;
use moq_vaapi::display::ProbeError;
use moq_vaapi::dmabuf::rt_format;
use moq_vaapi::dmabuf::DmaBuf;
use moq_vaapi::encode;
use moq_vaapi::encode::is_rgb;
use moq_vaapi::encode::packed_headers;
use moq_vaapi::encode::params::build_h264_pic;
use moq_vaapi::encode::pick_entrypoint;
use moq_vaapi::encode::read_coded;
use moq_vaapi::encode::stream::coded_size;
use moq_vaapi::encode::stream::level;
use moq_vaapi::encode::upload::nv12_format;
use moq_vaapi::encode::upload::upload_nv12;
use moq_vaapi::encode::upload::ImageLayout;
use moq_vaapi::encode::Config;
use moq_vaapi::encode::FrameMeta;
use moq_vaapi::va_check;
use moq_vaapi::vpp;
use moq_vaapi::Resolution;

#[test]
fn the_full_entrypoint_wins_and_low_power_is_the_fallback() {
    assert_eq!(pick_entrypoint(&[DECODE, LOW_POWER, FULL]), Some(FULL));
    assert_eq!(pick_entrypoint(&[DECODE, LOW_POWER]), Some(LOW_POWER));
    assert_eq!(pick_entrypoint(&[DECODE]), None);
}

#[test]
fn the_level_covers_the_frame_size_and_rate() {
    assert_eq!(level(320, 240, 30), Level::L4);
    assert_eq!(level(1920, 1080, 30), Level::L4);
    assert_eq!(level(1920, 1080, 60), Level::L4_2);
    assert_eq!(level(2560, 1440, 30), Level::L5);
    assert_eq!(level(3840, 2160, 30), Level::L5_1);
    assert_eq!(level(3840, 2160, 60), Level::L5_2);
}

#[test]
fn the_level_at_the_ends_of_the_table() {
    assert_eq!(level(16, 16, 0), Level::L4);
    // Exactly the macroblocks of level 4, and one more.
    assert_eq!(level(16 * 128, 16 * 64, 30), Level::L4);
    assert_eq!(level(16 * 128, 16 * 64, 31), Level::L4_2);
    assert_eq!(level(7680, 4320, 30), Level::L6);
    assert_eq!(level(7680, 4320, 60), Level::L6_1);
    assert_eq!(level(7680, 4320, 120), Level::L6_2);
    assert_eq!(level(100_000, 100_000, 120), Level::L6_2, "nothing covers it");
}

#[test]
fn a_coded_buffer_is_two_seconds_and_at_least_a_bit() {
    assert_eq!(coded_size(0), 1_500_000);
    assert_eq!(coded_size(6_000_000), 1_500_000);
    assert_eq!(coded_size(6_000_004), 1_500_001);
    assert_eq!(coded_size(u32::MAX), 1_073_741_823);
}

#[test]
fn entrypoints_are_probed() {
    let error = va_check(20).unwrap_err();
    assert_eq!(encode::probe(&Ok(vec![DECODE, LOW_POWER])), Ok(()));
    assert_eq!(encode::probe(&Ok(vec![DECODE])), Err(ProbeError::NoEntrypoint));
    assert_eq!(encode::probe(&Err(error)), Err(ProbeError::Query(error)));
    assert_eq!(encode::encode_entrypoint(&Ok(vec![LOW_POWER])), Ok(LOW_POWER));
    assert_eq!(vpp::probe(&Ok(vec![VA_ENTRYPOINT_VIDEO_PROC])), Ok(()));
    assert_eq!(vpp::probe(&Ok(vec![FULL])), Err(ProbeError::NoEntrypoint));
    assert_eq!(vpp::probe(&Err(error)), Err(ProbeError::Query(error)));
}

#[test]
fn only_the_parameter_sets_are_packed() {
    assert_eq!(packed_headers(Ok(0xff)), 3);
    assert_eq!(packed_headers(Ok(0xfe)), 2);
    assert_eq!(packed_headers(Ok(0x8000_0003)), 0);
    assert_eq!(packed_headers(Err(va_check(-1).unwrap_err())), 0);
}

#[test]
fn formats_go_by_their_names() {
    let fourcc = |name: &[u8; 4]| u32::from_le_bytes(*name);
    let buffer = |name: &[u8; 4]| DmaBuf {
        drm_format: fourcc(name),
        modifier: 0,
        width: 16,
        height: 16,
        color: None,
    };
    for (drm, va, rgb, target) in [
        (b"NV12", VA_FOURCC_NV12, false, 1),
        (b"YUYV", VA_FOURCC_YUY2, false, 2),
        (b"XR24", VA_FOURCC_BGRX, true, 0x20000),
        (b"AR24", VA_FOURCC_BGRA, true, 0x20000),
        (b"XB24", VA_FOURCC_RGBX, true, 0x20000),
        (b"AB24", VA_FOURCC_RGBA, true, 0x20000),
        (b"BX24", VA_FOURCC_XRGB, true, 0x20000),
        (b"BA24", VA_FOURCC_ARGB, true, 0x20000),
    ] {
        assert_eq!(buffer(drm).fourcc(), Some(va));
        assert_eq!(is_rgb(va), rgb);
        assert_eq!(rt_format(va), Some(target));
    }
    assert_eq!(buffer(b"ZZZZ").fourcc(), None);
    assert_eq!(rt_format(fourcc(b"ZZZZ")), None);
    assert_eq!(VA_FOURCC_NV12, fourcc(b"NV12"));
    assert_eq!(VA_FOURCC_YUY2, fourcc(b"YUY2"));
    assert_eq!(VA_FOURCC_BGRX, fourcc(b"BGRX"));
    assert_eq!(VA_FOURCC_BGRA, fourcc(b"BGRA"));
    assert_eq!(VA_FOURCC_RGBX, fourcc(b"RGBX"));
    assert_eq!(VA_FOURCC_RGBA, fourcc(b"RGBA"));
    assert_eq!(VA_FOURCC_XRGB, fourcc(b"XRGB"));
    assert_eq!(VA_FOURCC_ARGB, fourcc(b"ARGB"));
}

#[test]
fn colors_are_inferred_and_numbered() {
    assert_eq!(Color::infer(240), Color::bt601());
    assert_eq!(Color::infer(719), Color::bt601());
    assert_eq!(Color::infer(720), Color::bt709());
    assert_eq!(Color::bt601().vui(), (6, 6, 6));
    assert_eq!(Color::bt709().vui(), (1, 1, 1));
    assert_eq!((Color::bt601().va_standard(), Color::bt709().va_standard()), (1, 2));
    let full = Color { matrix: Matrix::Bt601, full_range: true };
    assert_eq!((Color::bt601().va_range(), full.va_range()), (1, 2));
}

#[test]
fn a_configuration_leaves_the_device_open() {
    let config = Config::new(1280, 720, 25, 3_000_000, 50);
    assert_eq!((config.width, config.height, config.framerate), (1280, 720, 25));
    assert_eq!((config.bitrate, config.gop), (3_000_000, 50));
    assert!(config.device.is_none());
    assert_eq!(config.color, Color::bt709());
}

#[test]
fn the_first_nv12_image_format_is_taken() {
    assert_eq!(nv12_format(&[]), None);
    assert_eq!(nv12_format(&[VA_FOURCC_YUY2]), None);
    assert_eq!(nv12_format(&[VA_FOURCC_YUY2, VA_FOURCC_NV12, VA_FOURCC_NV12]), Some(1));
}

#[test]
fn an_upload_goes_by_offsets_and_pitches() {
    // 4x3 pixels: three rows of luma, and one of chroma, though a frame has two.
    let frame: Vec<u8> = (1..=20).collect();
    let layout = ImageLayout { offsets: [2, 20, 0], pitches: [6, 5, 0] };
    let mut image = vec![0u8; 26];
    upload_nv12(&mut image, &layout, 4, 3, &frame);
    assert_eq!(
        image,
        vec![
            0, 0, 1, 2, 3, 4, 0, 0, 5, 6, 7, 8, 0, 0, 9, 10, 11, 12, 0, 0, 13, 14, 15, 16, 0, 0,
        ]
    );
    // Rows that run into each other: the later one stays.
    let layout = ImageLayout { offsets: [0, 10, 0], pitches: [2, 4, 0] };
    let mut image = vec![0u8; 14];
    upload_nv12(&mut image, &layout, 4, 3, &frame);
    assert_eq!(image, vec![1, 2, 5, 6, 9, 10, 11, 12, 0, 0, 13, 14, 15, 16]);
}

#[test]
fn segments_are_joined_in_order() {
    assert_eq!(read_coded(&vec![]), Vec::<u8>::new());
    assert_eq!(read_coded(&vec![vec![1, 2], vec![], vec![3]]), vec![1, 2, 3]);
}

#[test]
fn a_picture_is_named_by_its_numbers() {
    let pic = build_h264_pic(9, FrameMeta { poc: u32::MAX, frame_num: 7 });
    assert_eq!((pic.picture_id, pic.frame_idx, pic.flags), (9, 7, 8));
    assert_eq!((pic.top_field_order_cnt, pic.bottom_field_order_cnt), (-1, -1));
}

#[test]
fn a_status_is_checked() {
    assert_eq!(va_check(0), Ok(()));
    assert_eq!(va_check(18).unwrap_err().va_status(), 18);
    assert_eq!(va_check(-3).unwrap_err().va_status(), -3);
}

#[test]
fn resolutions_contain_each_other() {
    let hd = Resolution { width: 1280, height: 720 };
    let sd = Resolution::from((720, 576));
    let tall = Resolution { width: 100, height: 1000 };
    assert!(hd.can_contain(sd) && hd.can_contain(hd));
    assert!(!sd.can_contain(hd) && !hd.can_contain(tall) && !tall.can_contain(hd));
    assert_eq!(hd.get_area(), 921_600);
    assert_eq!(<(u32, u32)>::from(sd), (720, 576));
    assert_eq!(Resolution::default(), Resolution { width: 0, height: 0 });
}
