//! Checksum engine vectors and the obfuscation transform.

use ucl::common::check_crc_bytes;
use ucl::common::encrypt_crc;
use ucl::common::gen_crc;
use ucl::common::CrcStatus;

#[test]
fn crc_of_eight_zero_bytes() {
    // Reference constant: two all-zero words through the polynomial
    // 0x04C11DB7 from register 0xFFFFFFFF with no final xor.
    assert_eq!(gen_crc(&[0u8; 8]), 0x6904_BB59);
}

#[test]
fn crc_of_four_zero_bytes() {
    assert_eq!(gen_crc(&[0u8; 4]), 0xC704_DD7B);
}

#[test]
fn crc_of_counting_word() {
    assert_eq!(gen_crc(&[1, 2, 3, 4]), 0x1DAB_E74F);
}

#[test]
fn crc_of_empty_region_is_initial_register() {
    assert_eq!(gen_crc(&[]), 0xFFFF_FFFF);
}

#[test]
fn obfuscation_vector() {
    // Xor with 0xEDCAB9DE, then rotate the little-endian bytes.
    assert_eq!(encrypt_crc(gen_crc(&[0u8; 8])), [0x02, 0xCE, 0x84, 0x87]);
}

#[test]
fn obfuscation_differs_from_plain() {
    let c = gen_crc(&[0u8; 8]);
    let plain = c.to_le_bytes();
    let obf = encrypt_crc(c);
    assert_ne!(plain, obf);
}

#[test]
fn crc_status_recognizes_both_forms() {
    let c = gen_crc(&[5, 6, 7, 8]);
    let p = c.to_le_bytes();
    let e = encrypt_crc(c);
    assert_eq!(check_crc_bytes(p[0], p[1], p[2], p[3], c), CrcStatus::Plain);
    assert_eq!(check_crc_bytes(e[0], e[1], e[2], e[3], c), CrcStatus::Obfuscated);
    assert_eq!(
        check_crc_bytes(p[0] ^ 1, p[1], p[2], p[3], c),
        CrcStatus::Mismatch
    );
}

#[test]
fn single_bit_flips_change_the_checksum() {
    let base: Vec<u8> = (0u8..32).collect();
    let c0 = gen_crc(&base);
    for i in 0..base.len() {
        for k in 0..8 {
            let mut damaged = base.clone();
            damaged[i] ^= 1u8 << k;
            assert_ne!(gen_crc(&damaged), c0, "flip at byte {i} bit {k}");
        }
    }
}
