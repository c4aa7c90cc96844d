//! Scalar codec vectors: plain-float byte swapping, quantized torque,
//! stiffness and damping, serial-number and version decoding.

use ucl::common::decode_sn;
use ucl::common::decode_version;
use ucl::common::float_to_hex;
use ucl::common::fraction_to_hex;
use ucl::common::get_frac_hex;
use ucl::common::get_hex_frac;
use ucl::common::hex_to_float;
use ucl::common::hex_to_fraction;
use ucl::common::hex_to_kd;
use ucl::common::hex_to_kp;
use ucl::common::hex_to_tau;
use ucl::common::kd_to_hex;
use ucl::common::kp_to_hex;
use ucl::common::tau_to_hex;
use ucl::lib_version;

#[test]
fn version_string() {
    assert_eq!(lib_version(), "0.2");
}

#[test]
fn plain_float_bytes_are_swapped() {
    // 1.5f32 has bit pattern 0x3FC00000; the wire carries it most
    // significant byte first.
    let bits = 1.5f32.to_bits();
    assert_eq!(bits, 0x3FC0_0000);
    assert_eq!(float_to_hex(bits), [0x3F, 0xC0, 0x00, 0x00]);
}

#[test]
fn plain_float_round_trip() {
    for f in [0.0f32, 1.5, -2.25, 123.456, -0.001, f32::MAX] {
        let bytes = float_to_hex(f.to_bits());
        let back = f32::from_bits(hex_to_float(&bytes));
        assert_eq!(back, f);
    }
}

#[test]
fn torque_encoding_vectors() {
    // -3.5 N.m is -896 in 1/256 steps: integer byte 0xFD, fraction 0x80.
    assert_eq!(tau_to_hex(-896), [0xFD, 0x80]);
    // 2.25 N.m is 576: integer byte 0x02, fraction 0x40.
    assert_eq!(tau_to_hex(576), [0x02, 0x40]);
    assert_eq!(tau_to_hex(0), [0x00, 0x00]);
}

#[test]
fn torque_decode_is_coarse() {
    // The decoder rounds the fraction byte to a whole step: the encoding
    // of -3.5 reads back as -3, within the coarse step of 1.0.
    let enc = tau_to_hex(-896);
    let dec = hex_to_tau(&enc);
    assert_eq!(dec, -3);
    assert!((dec as f64 - (-3.5)).abs() <= 1.0);
    // 2.25 reads back as 2.
    assert_eq!(hex_to_tau(&tau_to_hex(576)), 2);
    // 2.75 (704) rounds up to 3.
    assert_eq!(hex_to_tau(&tau_to_hex(704)), 3);
}

#[test]
fn fraction_byte_vectors() {
    assert_eq!(fraction_to_hex(128, false), [0x80]);
    assert_eq!(fraction_to_hex(-128, true), [0x80]);
    assert_eq!(fraction_to_hex(0, true), [0x00]);
    assert_eq!(hex_to_fraction(0x80, false), 1);
    assert_eq!(hex_to_fraction(0x7F, false), 0);
    assert_eq!(hex_to_fraction(0x80, true), 0);
    assert_eq!(hex_to_fraction(0x00, true), -1);
}

#[test]
fn stiffness_kp_vector_ten() {
    // kp = 10.0 (100 tenths) packs as 10 * 32 = 320 = 0x0140, bytes
    // swapped on the wire, and reads back exactly.
    let enc = kp_to_hex(100);
    assert_eq!(enc, [0x01, 0x40]);
    assert_eq!(hex_to_kp(&enc), 100);
}

#[test]
fn stiffness_kp_round_trips_in_tenths() {
    for tenths in [0u16, 1, 4, 5, 9, 100, 253, 999, 20479] {
        assert_eq!(hex_to_kp(&kp_to_hex(tenths)), tenths);
    }
}

#[test]
fn damping_kd_vectors() {
    // kd = 5.7 (57 tenths): integer part 5 -> hex digits 005, tenths
    // digit 7 -> nibble 0xB, packed reversed as [0x5B, 0x00].
    let enc = kd_to_hex(57);
    assert_eq!(enc, [0x5B, 0x00]);
    assert_eq!(hex_to_kd(&enc), 57);
    assert_eq!(kd_to_hex(0), [0x00, 0x00]);
}

#[test]
fn damping_kd_round_trips_in_tenths() {
    for tenths in [0u16, 1, 9, 10, 57, 123, 999, 40959] {
        assert_eq!(hex_to_kd(&kd_to_hex(tenths)), tenths);
    }
}

#[test]
fn damping_nibble_table() {
    let nibbles = [0x0, 0x1, 0x3, 0x4, 0x6, 0x8, 0x9, 0xB, 0xC, 0xE];
    for d in 0u8..10 {
        assert_eq!(get_hex_frac(d), nibbles[d as usize]);
        assert_eq!(get_frac_hex(nibbles[d as usize]), d);
    }
    // A nibble outside the table reads as digit zero.
    assert_eq!(get_frac_hex(0x5), 0);
}

#[test]
fn serial_number_decoding() {
    let (product, id) = decode_sn(&[4, 3, 10, 2, 200, 7]);
    assert_eq!(product, "Go1_EDU");
    assert_eq!(id, "10-2-200[7]");
    let (product, _) = decode_sn(&[9, 9, 0, 0, 0, 0]);
    assert_eq!(product, "UNKNOWN_UNKNOWN");
    let (product, _) = decode_sn(&[1, 1, 0, 0, 0, 0]);
    assert_eq!(product, "Laikago_AIR");
}

#[test]
fn version_decoding() {
    let (hw, sw) = decode_version(&[1, 2, 3, 14, 15, 200]);
    assert_eq!(hw, "1.2.3");
    assert_eq!(sw, "14.15.200");
}
