use smc_sensors::fourcc::{decode_be_uint, fourcc, fourcc_to_string, names_a_key};
use smc_sensors::numeric::{data_type_tag, decode_f32, has_enough, Numeric};
use smc_sensors::packet::{SmcKeyData, SmcKeyInfo, SmcPLimitData, SmcVersion};
use smc_sensors::text::{contains, is_whitespace, same_text, trim, trim_end, trim_start};
use smc_sensors::wire::{from_wire, to_wire, PACKET_LEN};

fn info(tag: &str, size: u32) -> SmcKeyInfo {
    SmcKeyInfo { data_size: size, data_type: fourcc(tag), data_attributes: 0 }
}

#[test]
fn fourcc_packs_big_endian() {
    assert_eq!(fourcc("#KEY"), 0x234b_4559);
    assert_eq!(fourcc("TC0P"), 0x5443_3050);
    assert_eq!(fourcc("TC0Pxyz"), 0x5443_3050);
    assert_eq!(fourcc("\u{b5}J\u{b5}"), 0xc2b5_4ac2);
}

#[test]
fn fourcc_unpacks_to_characters() {
    assert_eq!(fourcc_to_string(0x666c_7420), "flt ");
    assert_eq!(fourcc_to_string(0x234b_4559), "#KEY");
    assert_eq!(fourcc_to_string(0xff00_e941), "\u{ff}\u{0}\u{e9}A");
}

#[test]
fn ascii_codes_come_back() {
    for s in ["#KEY", "TC0P", "flt ", "    ", "\u{0}\u{7f}~!"] {
        assert_eq!(fourcc_to_string(fourcc(s)), s);
    }
    for code in [0u32, 0x234b_4559, 0x7f7f_7f7f, 0x2021_2223] {
        assert_eq!(fourcc(&fourcc_to_string(code)), code);
    }
    assert_ne!(fourcc(&fourcc_to_string(0xffff_ffff)), 0xffff_ffff);
}

#[test]
fn big_endian_integers() {
    assert_eq!(decode_be_uint(&[], 0), 0);
    assert_eq!(decode_be_uint(&[0x12, 0x34, 0x56], 2), 0x1234);
    assert_eq!(decode_be_uint(&[0x12, 0x34, 0x56], 3), 0x12_3456);
    assert_eq!(decode_be_uint(&[0xff; 8], 8), u64::MAX);
    let nine = [1u8, 2, 3, 4, 5, 6, 7, 8, 9];
    assert_eq!(decode_be_uint(&nine, 9), 0x0203_0405_0607_0809);
}

#[test]
fn floats_are_little_endian() {
    let bytes = 36.5f32.to_le_bytes();
    let r = decode_f32(&info("flt ", 4), &bytes);
    assert_eq!(r, Some(Numeric::Float { bits: 36.5f32.to_bits() }));
}

#[test]
fn integers_are_big_endian() {
    let mut bytes = [0u8; 32];
    bytes[0] = 0x01;
    bytes[1] = 0x02;
    bytes[3] = 0x04;
    assert_eq!(decode_f32(&info("ui8 ", 1), &bytes), Some(Numeric::Integer { value: 1 }));
    assert_eq!(decode_f32(&info("ui16", 2), &bytes), Some(Numeric::Integer { value: 0x0102 }));
    assert_eq!(decode_f32(&info("ui32", 4), &bytes), Some(Numeric::Integer { value: 0x0102_0004 }));
}

#[test]
fn fixed_point_is_big_endian() {
    let hot = [0x2a, 0x80];
    assert_eq!(
        decode_f32(&info("sp78", 2), &hot),
        Some(Numeric::Fixed { raw: 0x2a80, denominator: 256 })
    );
    let cold = [0xff, 0x00];
    assert_eq!(
        decode_f32(&info("sp78", 2), &cold),
        Some(Numeric::Fixed { raw: -256, denominator: 256 })
    );
    assert_eq!(
        decode_f32(&info("fpe2", 2), &cold),
        Some(Numeric::Fixed { raw: 0xff00, denominator: 4 })
    );
}

#[test]
fn other_values_are_not_numeric() {
    let bytes = [0u8; 32];
    assert_eq!(decode_f32(&info("ch8*", 4), &bytes), None);
    assert_eq!(decode_f32(&info("flt ", 0), &bytes), None);
    assert_eq!(decode_f32(&info(" flt", 4), &bytes), None);
    assert_eq!(decode_f32(&info("ui64", 8), &bytes), None);
}

#[test]
fn lengths_that_can_be_decoded() {
    assert!(has_enough(&info("ui32", 32), 32));
    assert!(!has_enough(&info("ui32", 33), 32));
    assert!(has_enough(&info("ch8*", 33), 32));
    assert!(!has_enough(&info("flt ", 4), 3));
    assert!(has_enough(&info("flt ", 400), 32));
    assert!(!has_enough(&info("fpe2", 2), 1));
    assert!(has_enough(&info("ui8 ", 0), 0));
}

#[test]
fn finite_values() {
    assert!(Numeric::Float { bits: 1.0f32.to_bits() }.is_finite());
    assert!(Numeric::Float { bits: f32::MAX.to_bits() }.is_finite());
    assert!(!Numeric::Float { bits: f32::INFINITY.to_bits() }.is_finite());
    assert!(!Numeric::Float { bits: f32::NEG_INFINITY.to_bits() }.is_finite());
    assert!(!Numeric::Float { bits: f32::NAN.to_bits() }.is_finite());
    assert!(Numeric::Integer { value: u64::MAX }.is_finite());
    assert!(Numeric::Fixed { raw: -1, denominator: 4 }.is_finite());
}

#[test]
fn tags_lose_trailing_space() {
    assert_eq!(data_type_tag(fourcc("flt ")), "flt");
    assert_eq!(data_type_tag(fourcc("ui8 ")), "ui8");
    assert_eq!(data_type_tag(0x6974_85a0), "it");
    assert_eq!(data_type_tag(fourcc("    ")), "");
}

#[test]
fn trimming() {
    assert_eq!(trim("\u{2003} mJ\t\n"), "mJ");
    assert_eq!(trim_start("  a b "), "a b ");
    assert_eq!(trim_end("  a b "), "  a b");
    assert_eq!(trim("\u{3000}"), "");
    assert_eq!(trim(trim("  x ")), trim("  x "));
    for c in 0..=0x10ffffu32 {
        if let Some(c) = char::from_u32(c) {
            assert_eq!(is_whitespace(c), c.is_whitespace());
        }
    }
}

#[test]
fn searching() {
    assert!(contains("xmJy", "mJ"));
    assert!(contains("\u{b5}J", "\u{b5}J"));
    assert!(contains("abc", ""));
    assert!(!contains("mj", "mJ"));
    assert!(!contains("J", "mJ"));
    assert!(!contains("m J", "mJ"));
    assert!(same_text("ANE0", "ANE0"));
    assert!(!same_text("ANE0", "ANE"));
    assert!(!same_text("ANE0", "ANE1"));
}

#[test]
fn key_names_have_four_bytes() {
    assert!(names_a_key("#KEY"));
    assert!(names_a_key("TC0 "));
    assert!(names_a_key("\u{b5}\u{b5}"));
    assert!(!names_a_key("TC0"));
    assert!(!names_a_key("TC0PX"));
    assert!(!names_a_key(""));
    for code in [0u32, 0x5443_3020, 0x7f7f_7f7f, 0x8043_3020, 0x5443_30ff] {
        let ascii = code.to_be_bytes().iter().all(|b| *b < 0x80);
        assert_eq!(names_a_key(&fourcc_to_string(code)), ascii);
    }
}

#[test]
fn packets_cross_as_eighty_bytes() {
    let mut bytes = [0u8; 32];
    for i in 0..32 {
        bytes[i] = 100 + i as u8;
    }
    let p = SmcKeyData {
        key: 0x0102_0304,
        vers: SmcVersion { major: 5, minor: 6, build: 7, reserved: 8, release: 0x090a },
        plimit: SmcPLimitData {
            version: 0x0b0c,
            length: 0x0d0e,
            cpu_plimit: 0x0f10_1112,
            gpu_plimit: 0x1314_1516,
            mem_plimit: 0x1718_191a,
        },
        key_info: SmcKeyInfo { data_size: 0x1b1c_1d1e, data_type: 0x1f20_2122, data_attributes: 35 },
        result: 36,
        status: 37,
        data8: 38,
        data32: 0x2728_292a,
        bytes,
    };
    let w = to_wire(&p);
    assert_eq!(w.len(), PACKET_LEN);
    assert_eq!(&w[..16], &[4, 3, 2, 1, 5, 6, 7, 8, 10, 9, 0, 0, 12, 11, 14, 13]);
    assert_eq!(&w[28..40], &[0x1e, 0x1d, 0x1c, 0x1b, 0x22, 0x21, 0x20, 0x1f, 35, 0, 0, 0]);
    assert_eq!(&w[40..48], &[36, 37, 38, 0, 0x2a, 0x29, 0x28, 0x27]);
    assert_eq!(&w[48..], &bytes);
    assert_eq!(from_wire(&w), p);
    assert_eq!(to_wire(&SmcKeyData::default()), vec![0u8; 80]);
}
