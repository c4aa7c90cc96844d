//! Scalar wire encodings shared by every packet kind: the byte-swapped
//! plain-float form, the quantized torque / stiffness / damping forms, the
//! serial-number and version decoders, and the packet checksum with its
//! optional obfuscation.

use vstd::prelude::*;

verus! {

// ---------------------------------------------------------------------------
// Plain 32-bit scalars.
//
// A plain float travels as its IEEE-754 bit pattern with the four bytes in
// reversed (big-endian) order relative to the protocol's otherwise
// little-endian convention: a historical firmware quirk that encode and
// decode both reproduce. The library carries such a field as its bit
// pattern (`u32`); callers convert with `f32::to_bits` / `from_bits`.
// ---------------------------------------------------------------------------

/// The four wire bytes of a plain-float field, most significant byte first.
pub open spec fn spec_u32_swapped_bytes(x: u32) -> Seq<u8> {
    seq![
        ((x >> 24) & 0xff) as u8,
        ((x >> 16) & 0xff) as u8,
        ((x >> 8) & 0xff) as u8,
        (x & 0xff) as u8,
    ]
}

/// The 32-bit value read back from four wire bytes, most significant first.
pub open spec fn spec_u32_from_swapped_bytes(s: Seq<u8>) -> u32
    recommends
        s.len() == 4,
{
    ((s[0] as u32) << 24) | ((s[1] as u32) << 16) | ((s[2] as u32) << 8) | (s[3] as u32)
}

/// A plain-float field survives an encode / decode round trip bit-exactly.
pub proof fn lemma_u32_swapped_round_trip(x: u32)
    ensures
        spec_u32_from_swapped_bytes(spec_u32_swapped_bytes(x)) == x,
{
    assert((((((x >> 24) & 0xff) as u8) as u32) << 24) | (((((x >> 16) & 0xff) as u8) as u32)
        << 16) | (((((x >> 8) & 0xff) as u8) as u32) << 8) | (((x & 0xff) as u8) as u32)
        == x) by (bit_vector);
}

/// Encodes a float's bit pattern into its four wire bytes.
pub fn float_to_hex(bits: u32) -> (r: [u8; 4])
    ensures
        r@ == spec_u32_swapped_bytes(bits),
{
    let r: [u8; 4] = [
        ((bits >> 24) & 0xff) as u8,
        ((bits >> 16) & 0xff) as u8,
        ((bits >> 8) & 0xff) as u8,
        (bits & 0xff) as u8,
    ];
    assert(r@ =~= spec_u32_swapped_bytes(bits));
    r
}

/// Reads a float's bit pattern back from its four wire bytes.
pub fn hex_to_float(hex_bytes: &[u8]) -> (bits: u32)
    requires
        hex_bytes@.len() == 4,
    ensures
        bits == spec_u32_from_swapped_bytes(hex_bytes@),
{
    ((hex_bytes[0] as u32) << 24) | ((hex_bytes[1] as u32) << 16) | ((hex_bytes[2] as u32) << 8)
        | (hex_bytes[3] as u32)
}

// ---------------------------------------------------------------------------
// Little-endian scalars (header counters, reserve words, checksum bytes).
// ---------------------------------------------------------------------------

/// The two little-endian wire bytes of a 16-bit value.
pub open spec fn spec_u16_le_bytes(x: u16) -> Seq<u8> {
    seq![(x & 0xff) as u8, ((x >> 8) & 0xff) as u8]
}

/// The 16-bit value read from two little-endian wire bytes.
pub open spec fn spec_u16_from_le_bytes(s: Seq<u8>) -> u16
    recommends
        s.len() == 2,
{
    (s[0] as u16) | ((s[1] as u16) << 8)
}

/// The four little-endian wire bytes of a 32-bit value.
pub open spec fn spec_u32_le_bytes(x: u32) -> Seq<u8> {
    seq![
        (x & 0xff) as u8,
        ((x >> 8) & 0xff) as u8,
        ((x >> 16) & 0xff) as u8,
        ((x >> 24) & 0xff) as u8,
    ]
}

/// The 32-bit value read from four little-endian wire bytes.
pub open spec fn spec_u32_from_le_bytes(s: Seq<u8>) -> u32
    recommends
        s.len() == 4,
{
    (s[0] as u32) | ((s[1] as u32) << 8) | ((s[2] as u32) << 16) | ((s[3] as u32) << 24)
}

pub proof fn lemma_u16_le_round_trip(x: u16)
    ensures
        spec_u16_from_le_bytes(spec_u16_le_bytes(x)) == x,
{
    assert((((x & 0xff) as u8) as u16) | (((((x >> 8) & 0xff) as u8) as u16) << 8) == x)
        by (bit_vector);
}

pub proof fn lemma_u32_le_round_trip(x: u32)
    ensures
        spec_u32_from_le_bytes(spec_u32_le_bytes(x)) == x,
{
    assert((((x & 0xff) as u8) as u32) | (((((x >> 8) & 0xff) as u8) as u32) << 8) | (((((x
        >> 16) & 0xff) as u8) as u32) << 16) | (((((x >> 24) & 0xff) as u8) as u32) << 24) == x)
        by (bit_vector);
}

/// Writes a 16-bit value as its two little-endian wire bytes.
pub fn u16_to_le(x: u16) -> (r: [u8; 2])
    ensures
        r@ == spec_u16_le_bytes(x),
{
    let r: [u8; 2] = [(x & 0xff) as u8, ((x >> 8) & 0xff) as u8];
    assert(r@ =~= spec_u16_le_bytes(x));
    r
}

/// Reads a 16-bit value from two little-endian wire bytes.
pub fn u16_from_le(b0: u8, b1: u8) -> (x: u16)
    ensures
        x == spec_u16_from_le_bytes(seq![b0, b1]),
{
    (b0 as u16) | ((b1 as u16) << 8)
}

/// Writes a 32-bit value as its four little-endian wire bytes.
pub fn u32_to_le(x: u32) -> (r: [u8; 4])
    ensures
        r@ == spec_u32_le_bytes(x),
{
    let r: [u8; 4] = [
        (x & 0xff) as u8,
        ((x >> 8) & 0xff) as u8,
        ((x >> 16) & 0xff) as u8,
        ((x >> 24) & 0xff) as u8,
    ];
    assert(r@ =~= spec_u32_le_bytes(x));
    r
}

/// Reads a 32-bit value from four little-endian wire bytes.
pub fn u32_from_le(b0: u8, b1: u8, b2: u8, b3: u8) -> (x: u32)
    ensures
        x == spec_u32_from_le_bytes(seq![b0, b1, b2, b3]),
{
    (b0 as u32) | ((b1 as u32) << 8) | ((b2 as u32) << 16) | ((b3 as u32) << 24)
}

/// The four little-endian wire bytes of a signed 32-bit value (its two's
/// complement bit pattern).
pub open spec fn spec_i32_le_bytes(x: i32) -> Seq<u8> {
    spec_u32_le_bytes(x as u32)
}

/// The signed 32-bit value read from four little-endian wire bytes.
pub open spec fn spec_i32_from_le_bytes(s: Seq<u8>) -> i32
    recommends
        s.len() == 4,
{
    spec_u32_from_le_bytes(s) as i32
}

pub proof fn lemma_i32_le_round_trip(x: i32)
    ensures
        spec_i32_from_le_bytes(spec_i32_le_bytes(x)) == x,
{
    lemma_u32_le_round_trip(x as u32);
    assert(((x as u32) as i32) == x) by (bit_vector);
}

/// Writes a signed 32-bit value as its four little-endian wire bytes.
pub fn i32_to_le(x: i32) -> (r: [u8; 4])
    ensures
        r@ == spec_i32_le_bytes(x),
{
    u32_to_le(x as u32)
}

/// Reads a signed 32-bit value from four little-endian wire bytes.
pub fn i32_from_le(b0: u8, b1: u8, b2: u8, b3: u8) -> (x: i32)
    ensures
        x == spec_i32_from_le_bytes(seq![b0, b1, b2, b3]),
{
    u32_from_le(b0, b1, b2, b3) as i32
}

// ---------------------------------------------------------------------------
// Quantized torque.
//
// A torque is carried as a fixed-point integer in 1/256 N.m steps. On the
// wire it is one integer-part byte (two's complement) followed by one
// fraction byte; a negative torque offsets the fraction byte by 256. Decode
// reads the sign from the integer byte exceeding 126 and rounds the fraction
// byte to the nearest whole step of 1.0, a deliberately coarse rule the
// firmware convention fixes.
// ---------------------------------------------------------------------------

/// The fraction byte for a fraction in 1/256 steps (negative fractions are
/// offset by 256).
pub open spec fn spec_fraction_byte(frac: int, neg: bool) -> u8
    recommends
        -256 < frac < 256,
        neg ==> frac <= 0,
        !neg ==> frac >= 0,
{
    if neg {
        (((256 + frac) % 256) as u8)
    } else {
        ((frac % 256) as u8)
    }
}

/// The two wire bytes of a torque given in 1/256 steps.
pub open spec fn spec_tau_bytes(raw: int) -> Seq<u8>
    recommends
        -32768 <= raw <= 32767,
{
    if raw >= 0 {
        seq![((raw / 256) % 256) as u8, spec_fraction_byte(raw % 256, false)]
    } else {
        seq![(((256 - (-raw) / 256) % 256) as u8), spec_fraction_byte(-((-raw) % 256), true)]
    }
}

/// The coarse rounding a decoder applies to a fraction byte: the nearest of
/// 0 and 1 (shifted down by one for a negative torque).
pub open spec fn spec_fraction_round(b: u8, neg: bool) -> int {
    let nearest: int = if b >= 128 {
        1
    } else {
        0
    };
    if neg {
        nearest - 1
    } else {
        nearest
    }
}

/// The whole-number torque read back from its two wire bytes.
pub open spec fn spec_tau_from_bytes(b0: u8, b1: u8) -> int {
    let neg = b0 > 126;
    let iv: int = if neg {
        b0 - 256
    } else {
        b0 as int
    };
    iv + spec_fraction_round(b1, neg)
}

/// Encodes a fraction given in 1/256 steps as its wire byte.
pub fn fraction_to_hex(frac: i32, neg: bool) -> (r: [u8; 1])
    requires
        -256 < frac < 256,
        neg ==> frac <= 0,
        !neg ==> frac >= 0,
    ensures
        r@ == seq![spec_fraction_byte(frac as int, neg)],
{
    let v: i32 = if neg {
        (256 + frac) % 256
    } else {
        frac
    };
    let r: [u8; 1] = [v as u8];
    assert(r@ =~= seq![spec_fraction_byte(frac as int, neg)]);
    r
}

/// Applies the decoder's coarse rounding to a fraction byte.
pub fn hex_to_fraction(hex_byte: u8, neg: bool) -> (r: i32)
    ensures
        r as int == spec_fraction_round(hex_byte, neg),
{
    let nearest: i32 = if hex_byte >= 128 {
        1
    } else {
        0
    };
    if neg {
        nearest - 1
    } else {
        nearest
    }
}

/// Encodes a torque given in 1/256 steps into its two wire bytes.
pub fn tau_to_hex(raw: i16) -> (r: [u8; 2])
    ensures
        r@ == spec_tau_bytes(raw as int),
{
    if raw >= 0 {
        let u: u16 = raw as u16;
        let fb = fraction_to_hex((u % 256) as i32, false);
        let r: [u8; 2] = [((u / 256) % 256) as u8, fb[0]];
        assert(r@ =~= spec_tau_bytes(raw as int));
        r
    } else {
        let m: u32 = (-(raw as i32)) as u32;
        let fb = fraction_to_hex(-((m % 256) as i32), true);
        let r: [u8; 2] = [((256 - m / 256) % 256) as u8, fb[0]];
        assert(r@ =~= spec_tau_bytes(raw as int));
        r
    }
}

/// Decodes the two torque wire bytes to the nearest whole number of N.m.
pub fn hex_to_tau(hex_bytes: &[u8]) -> (r: i32)
    requires
        hex_bytes@.len() == 2,
    ensures
        r as int == spec_tau_from_bytes(hex_bytes@[0], hex_bytes@[1]),
{
    let b0 = hex_bytes[0];
    let neg = b0 > 126;
    let iv: i32 = if neg {
        b0 as i32 - 256
    } else {
        b0 as i32
    };
    iv + hex_to_fraction(hex_bytes[1], neg)
}

/// A torque encode / decode round trip lands within one whole-number step of
/// the original value, except in the narrow band of fractional torques just
/// below zero, where the decoder's sign convention rounds upward across zero.
pub proof fn lemma_tau_round_trip(raw: int)
    requires
        -32768 <= raw <= 32511,
        !(-128 <= raw <= -1),
    ensures
        -256 <= 256 * spec_tau_from_bytes(spec_tau_bytes(raw)[0], spec_tau_bytes(raw)[1]) - raw
            <= 256,
{
    if raw >= 0 {
        let ip = raw / 256;
        let fr = raw % 256;
        assert(raw == 256 * ip + fr && 0 <= fr < 256 && 0 <= ip <= 126) by (nonlinear_arith)
            requires
                0 <= raw <= 32511,
                ip == raw / 256,
                fr == raw % 256,
        ;
        assert(spec_tau_bytes(raw)[0] == ip as u8);
        assert(spec_tau_bytes(raw)[1] == fr as u8);
    } else {
        let m = -raw;
        let ip = m / 256;
        let fr = m % 256;
        assert(m == 256 * ip + fr && 0 <= fr < 256 && 0 <= ip <= 128) by (nonlinear_arith)
            requires
                0 < m <= 32768,
                ip == m / 256,
                fr == m % 256,
        ;
        let b1 = spec_fraction_byte(-fr, true);
        assert(spec_tau_bytes(raw)[1] == b1);
        if ip == 0 {
            // raw in [-255, -129]: the integer byte is zero, so the decoder
            // treats the value as non-negative and rounds the fraction down.
            assert(fr == m && 129 <= fr <= 255);
            assert(spec_tau_bytes(raw)[0] == 0u8);
            assert(b1 == 256 - fr);
            assert(b1 < 128);
        } else {
            let b0 = ((256 - ip) % 256) as u8;
            assert(spec_tau_bytes(raw)[0] == b0);
            assert(b0 == 256 - ip);
            if fr == 0 {
                assert(b1 == 0);
            } else {
                assert(b1 == 256 - fr);
            }
        }
    }
}

// ---------------------------------------------------------------------------
// Quantized position stiffness (kp).
//
// A stiffness is carried in tenths. On the wire: integer part times 32 plus
// a per-digit correction for the tenths digit, packed as a 16-bit value with
// its two bytes in swapped (big-endian) order.
// ---------------------------------------------------------------------------

/// The packed 16-bit stiffness value before byte swapping.
pub open spec fn spec_kp_val(tenths: int) -> int {
    let base = tenths / 10;
    let fr = tenths % 10;
    base * 32 + if fr < 5 {
        3 * fr
    } else {
        3 * (fr - 1) + 4
    }
}

/// The two wire bytes of a stiffness given in tenths.
pub open spec fn spec_kp_bytes(tenths: int) -> Seq<u8> {
    let v = spec_kp_val(tenths) % 0x10000;
    seq![((v / 256) % 256) as u8, (v % 256) as u8]
}

/// The stiffness in tenths read back from its two wire bytes.
pub open spec fn spec_kp_from_bytes(s: Seq<u8>) -> int
    recommends
        s.len() == 2,
{
    let v = (s[0] as int) * 256 + (s[1] as int);
    let base = v / 32;
    let rem = v % 32;
    let digit = if rem < 15 {
        rem / 3
    } else {
        (rem - 4) / 3 + 1
    };
    base * 10 + digit
}

/// Encodes a stiffness given in tenths into its two wire bytes.
pub fn kp_to_hex(tenths: u16) -> (r: [u8; 2])
    ensures
        r@ == spec_kp_bytes(tenths as int),
{
    let base: u32 = (tenths / 10) as u32;
    let fr: u32 = (tenths % 10) as u32;
    let corr: u32 = if fr < 5 {
        3 * fr
    } else {
        3 * (fr - 1) + 4
    };
    let v: u32 = (base * 32 + corr) % 0x10000;
    let r: [u8; 2] = [((v / 256) % 256) as u8, (v % 256) as u8];
    assert(r@ =~= spec_kp_bytes(tenths as int));
    r
}

/// Decodes the two stiffness wire bytes back to tenths.
pub fn hex_to_kp(byte_arr: &[u8]) -> (tenths: u16)
    requires
        byte_arr@.len() == 2,
    ensures
        tenths as int == spec_kp_from_bytes(byte_arr@),
{
    let v: u32 = (byte_arr[0] as u32) * 256 + (byte_arr[1] as u32);
    let base: u32 = v / 32;
    let rem: u32 = v % 32;
    let digit: u32 = if rem < 15 {
        rem / 3
    } else {
        (rem - 4) / 3 + 1
    };
    assert(base <= 2047 && rem <= 31 && (rem >= 15 ==> digit == (rem - 4) / 3 + 1 && digit <= 10)
        && (rem < 15 ==> digit <= 4)) by (nonlinear_arith)
        requires
            v <= 0xffff,
            base == v / 32,
            rem == v % 32,
            rem < 15 ==> digit == rem / 3,
            rem >= 15 ==> digit == (rem - 4) / 3 + 1,
    ;
    (base * 10 + digit) as u16
}

/// A stiffness encode / decode round trip is exact in tenths for every value
/// whose packed form fits the 16-bit wire field.
pub proof fn lemma_kp_round_trip(tenths: int)
    requires
        0 <= tenths <= 20479,
    ensures
        spec_kp_from_bytes(spec_kp_bytes(tenths)) == tenths,
{
    let base = tenths / 10;
    let fr = tenths % 10;
    assert(tenths == 10 * base + fr && 0 <= fr < 10 && 0 <= base <= 2047) by (nonlinear_arith)
        requires
            0 <= tenths <= 20479,
            base == tenths / 10,
            fr == tenths % 10,
    ;
    let corr = if fr < 5 {
        3 * fr
    } else {
        3 * (fr - 1) + 4
    };
    let v = spec_kp_val(tenths);
    assert(v == base * 32 + corr);
    assert(0 <= corr <= 28);
    assert(0 <= v < 0x10000) by (nonlinear_arith)
        requires
            v == base * 32 + corr,
            0 <= base <= 2047,
            0 <= corr <= 28,
    ;
    assert(v % 0x10000 == v);
    let b0 = (v / 256) % 256;
    let b1 = v % 256;
    assert(b0 * 256 + b1 == v) by (nonlinear_arith)
        requires
            0 <= v < 0x10000,
            b0 == (v / 256) % 256,
            b1 == v % 256,
    ;
    assert(v / 32 == base && v % 32 == corr) by (nonlinear_arith)
        requires
            v == base * 32 + corr,
            0 <= corr < 32,
            0 <= base,
    ;
    assert(spec_kp_bytes(tenths)[0] == b0 as u8);
    assert(spec_kp_bytes(tenths)[1] == b1 as u8);
}

// ---------------------------------------------------------------------------
// Quantized velocity stiffness (kd, damping).
//
// A damping is carried in tenths. On the wire its integer part becomes
// three hexadecimal digits and its tenths digit maps through a fixed
// ten-entry nibble table; the four nibbles are packed into two raw bytes
// whose order is then reversed.
// ---------------------------------------------------------------------------

/// The wire nibble for a tenths digit.
pub open spec fn spec_frac_nibble(d: int) -> u8 {
    if d == 0 {
        0x0
    } else if d == 1 {
        0x1
    } else if d == 2 {
        0x3
    } else if d == 3 {
        0x4
    } else if d == 4 {
        0x6
    } else if d == 5 {
        0x8
    } else if d == 6 {
        0x9
    } else if d == 7 {
        0xb
    } else if d == 8 {
        0xc
    } else if d == 9 {
        0xe
    } else {
        0x0
    }
}

/// The tenths digit for a wire nibble; a nibble outside the table reads as 0.
pub open spec fn spec_nibble_frac(n: int) -> int {
    if n == 0x0 {
        0
    } else if n == 0x1 {
        1
    } else if n == 0x3 {
        2
    } else if n == 0x4 {
        3
    } else if n == 0x6 {
        4
    } else if n == 0x8 {
        5
    } else if n == 0x9 {
        6
    } else if n == 0xb {
        7
    } else if n == 0xc {
        8
    } else if n == 0xe {
        9
    } else {
        0
    }
}

/// The two wire bytes of a damping given in tenths.
pub open spec fn spec_kd_bytes(tenths: int) -> Seq<u8> {
    let ip = (tenths / 10) % 0x1000;
    let nib = spec_frac_nibble(tenths % 10) as int;
    seq![((ip % 16) * 16 + nib) as u8, ((ip / 256) * 16 + (ip / 16) % 16) as u8]
}

/// The damping in tenths read back from its two wire bytes.
pub open spec fn spec_kd_from_bytes(s: Seq<u8>) -> int
    recommends
        s.len() == 2,
{
    let ip = (s[1] as int) * 16 + (s[0] as int) / 16;
    ip * 10 + spec_nibble_frac((s[0] as int) % 16)
}

/// Maps a tenths digit to its wire nibble.
pub fn get_hex_frac(d: u8) -> (n: u8)
    ensures
        n == spec_frac_nibble(d as int),
{
    if d == 0 {
        0x0
    } else if d == 1 {
        0x1
    } else if d == 2 {
        0x3
    } else if d == 3 {
        0x4
    } else if d == 4 {
        0x6
    } else if d == 5 {
        0x8
    } else if d == 6 {
        0x9
    } else if d == 7 {
        0xb
    } else if d == 8 {
        0xc
    } else if d == 9 {
        0xe
    } else {
        0x0
    }
}

/// Maps a wire nibble back to its tenths digit (unknown nibbles read as 0).
pub fn get_frac_hex(n: u8) -> (d: u8)
    ensures
        d as int == spec_nibble_frac(n as int),
{
    if n == 0x0 {
        0
    } else if n == 0x1 {
        1
    } else if n == 0x3 {
        2
    } else if n == 0x4 {
        3
    } else if n == 0x6 {
        4
    } else if n == 0x8 {
        5
    } else if n == 0x9 {
        6
    } else if n == 0xb {
        7
    } else if n == 0xc {
        8
    } else if n == 0xe {
        9
    } else {
        0
    }
}

/// Encodes a damping given in tenths into its two wire bytes.
pub fn kd_to_hex(tenths: u16) -> (r: [u8; 2])
    ensures
        r@ == spec_kd_bytes(tenths as int),
{
    let ip: u32 = ((tenths / 10) % 0x1000) as u32;
    let nib: u32 = get_hex_frac((tenths % 10) as u8) as u32;
    let r: [u8; 2] = [((ip % 16) * 16 + nib) as u8, ((ip / 256) * 16 + (ip / 16) % 16) as u8];
    assert(r@ =~= spec_kd_bytes(tenths as int));
    r
}

/// Decodes the two damping wire bytes back to tenths.
pub fn hex_to_kd(hex_bytes: &[u8]) -> (tenths: u16)
    requires
        hex_bytes@.len() == 2,
    ensures
        tenths as int == spec_kd_from_bytes(hex_bytes@),
{
    let ip: u32 = (hex_bytes[1] as u32) * 16 + (hex_bytes[0] as u32) / 16;
    let d: u32 = get_frac_hex(hex_bytes[0] % 16) as u32;
    (ip * 10 + d) as u16
}

/// A damping encode / decode round trip is exact in tenths for every value
/// whose integer part fits the three hexadecimal wire digits.
pub proof fn lemma_kd_round_trip(tenths: int)
    requires
        0 <= tenths <= 40959,
    ensures
        spec_kd_from_bytes(spec_kd_bytes(tenths)) == tenths,
{
    let ip = tenths / 10;
    let fr = tenths % 10;
    assert(tenths == 10 * ip + fr && 0 <= fr < 10 && 0 <= ip <= 4095) by (nonlinear_arith)
        requires
            0 <= tenths <= 40959,
            ip == tenths / 10,
            fr == tenths % 10,
    ;
    assert(ip % 0x1000 == ip);
    let nib = spec_frac_nibble(fr) as int;
    assert(0 <= nib <= 14 && spec_nibble_frac(nib) == fr);
    let x = ip / 256;
    let y = (ip / 16) % 16;
    let z = ip % 16;
    let b0 = z * 16 + nib;
    let b1 = x * 16 + y;
    assert(0 <= z <= 15 && 0 <= y <= 15 && 0 <= x <= 15) by (nonlinear_arith)
        requires
            0 <= ip <= 4095,
            x == ip / 256,
            y == (ip / 16) % 16,
            z == ip % 16,
    ;
    assert(spec_kd_bytes(tenths)[0] == b0 as u8);
    assert(spec_kd_bytes(tenths)[1] == b1 as u8);
    assert(b0 / 16 == z && b0 % 16 == nib) by (nonlinear_arith)
        requires
            b0 == z * 16 + nib,
            0 <= nib <= 14,
            0 <= z,
    ;
    assert(b1 * 16 + b0 / 16 == ip) by (nonlinear_arith)
        requires
            b1 == x * 16 + y,
            b0 / 16 == z,
            x == ip / 256,
            y == (ip / 16) % 16,
            z == ip % 16,
            0 <= ip <= 4095,
    ;
}

// ---------------------------------------------------------------------------
// Serial-number and version decoding.
// ---------------------------------------------------------------------------

/// The robot family name for the first serial-number byte.
pub open spec fn spec_type_name(b: u8) -> Seq<char> {
    if b == 1 {
        "Laikago"@
    } else if b == 2 {
        "Aliengo"@
    } else if b == 3 {
        "A1"@
    } else if b == 4 {
        "Go1"@
    } else if b == 5 {
        "B1"@
    } else {
        "UNKNOWN"@
    }
}

/// The robot model name for the second serial-number byte.
pub open spec fn spec_model_name(b: u8) -> Seq<char> {
    if b == 1 {
        "AIR"@
    } else if b == 2 {
        "PRO"@
    } else if b == 3 {
        "EDU"@
    } else if b == 4 {
        "PC"@
    } else if b == 5 {
        "XX"@
    } else {
        "UNKNOWN"@
    }
}

/// The decimal digit character for a value 0 through 9.
pub open spec fn spec_digit_char(d: int) -> char {
    if d == 0 {
        '0'
    } else if d == 1 {
        '1'
    } else if d == 2 {
        '2'
    } else if d == 3 {
        '3'
    } else if d == 4 {
        '4'
    } else if d == 5 {
        '5'
    } else if d == 6 {
        '6'
    } else if d == 7 {
        '7'
    } else if d == 8 {
        '8'
    } else {
        '9'
    }
}

/// The decimal digit characters of a byte, without leading zeros.
pub open spec fn spec_dec_u8(n: u8) -> Seq<char> {
    if n < 10 {
        seq![spec_digit_char(n as int)]
    } else if n < 100 {
        seq![spec_digit_char(n as int / 10), spec_digit_char(n as int % 10)]
    } else {
        seq![
            spec_digit_char(n as int / 100),
            spec_digit_char((n as int / 10) % 10),
            spec_digit_char(n as int % 10),
        ]
    }
}

/// The product string decoded from the first two serial-number bytes.
pub open spec fn spec_sn_product(t: u8, m: u8) -> Seq<char> {
    spec_type_name(t) + seq!['_'] + spec_model_name(m)
}

/// The id string decoded from the last four serial-number bytes.
pub open spec fn spec_sn_id(a: u8, b: u8, c: u8, d: u8) -> Seq<char> {
    spec_dec_u8(a) + seq!['-'] + spec_dec_u8(b) + seq!['-'] + spec_dec_u8(c) + seq!['[']
        + spec_dec_u8(d) + seq![']']
}

/// A dotted three-part version string.
pub open spec fn spec_version_triple(a: u8, b: u8, c: u8) -> Seq<char> {
    spec_dec_u8(a) + seq!['.'] + spec_dec_u8(b) + seq!['.'] + spec_dec_u8(c)
}

/// Relies on `format!` with the `"{}_{}"` template: the result is the first
/// string, an underscore, then the second string.
#[verifier::external_body]
fn join_with_underscore(t: &str, m: &str) -> (r: String)
    ensures
        r@ == t@ + seq!['_'] + m@,
{
    format!("{}_{}", t, m)
}

/// Relies on `format!` with the `"{}-{}-{}[{}]"` template: each byte is
/// printed as its decimal digits without leading zeros.
#[verifier::external_body]
fn format_sn_id(a: u8, b: u8, c: u8, d: u8) -> (r: String)
    ensures
        r@ == spec_sn_id(a, b, c, d),
{
    format!("{}-{}-{}[{}]", a, b, c, d)
}

/// Relies on `format!` with the `"{}.{}.{}"` template: each byte is printed
/// as its decimal digits without leading zeros.
#[verifier::external_body]
fn format_dotted_triple(a: u8, b: u8, c: u8) -> (r: String)
    ensures
        r@ == spec_version_triple(a, b, c),
{
    format!("{}.{}.{}", a, b, c)
}

/// Decodes the six serial-number bytes into a product string and an id
/// string.
pub fn decode_sn(data: &[u8; 6]) -> (r: (String, String))
    ensures
        r.0@ == spec_sn_product(data[0], data[1]),
        r.1@ == spec_sn_id(data[2], data[3], data[4], data[5]),
{
    let family: &str = if data[0] == 1 {
        "Laikago"
    } else if data[0] == 2 {
        "Aliengo"
    } else if data[0] == 3 {
        "A1"
    } else if data[0] == 4 {
        "Go1"
    } else if data[0] == 5 {
        "B1"
    } else {
        "UNKNOWN"
    };
    let model_name: &str = if data[1] == 1 {
        "AIR"
    } else if data[1] == 2 {
        "PRO"
    } else if data[1] == 3 {
        "EDU"
    } else if data[1] == 4 {
        "PC"
    } else if data[1] == 5 {
        "XX"
    } else {
        "UNKNOWN"
    };
    let product_name = join_with_underscore(family, model_name);
    let id = format_sn_id(data[2], data[3], data[4], data[5]);
    (product_name, id)
}

/// Decodes the six version bytes into hardware and software version strings.
pub fn decode_version(data: &[u8; 6]) -> (r: (String, String))
    ensures
        r.0@ == spec_version_triple(data[0], data[1], data[2]),
        r.1@ == spec_version_triple(data[3], data[4], data[5]),
{
    let hardware_version = format_dotted_triple(data[0], data[1], data[2]);
    let software_version = format_dotted_triple(data[3], data[4], data[5]);
    (hardware_version, software_version)
}

// ---------------------------------------------------------------------------
// Checksum engine.
//
// The packet checksum is a CRC-32 variant: polynomial 0x04C11DB7, initial
// register 0xFFFFFFFF, no final xor, consuming the covered bytes four at a
// time as little-endian 32-bit words, most significant bit first. The
// covered region's length must be a multiple of four bytes; each packet
// kind fixes how many leading bytes are covered.
// ---------------------------------------------------------------------------

/// One shift-and-conditionally-xor step of the checksum register.
pub open spec fn spec_crc_round(crc: u32, bit: u32) -> u32 {
    let shifted = crc << 1;
    if ((crc >> 31) & 1) != bit {
        shifted ^ 0x04C11DB7u32
    } else {
        shifted
    }
}

/// The register after consuming the first `k` bits of a word, most
/// significant first.
pub open spec fn spec_crc_word_partial(crc: u32, word: u32, k: int) -> u32
    decreases k,
{
    if k <= 0 {
        crc
    } else {
        spec_crc_round(spec_crc_word_partial(crc, word, k - 1), (word >> ((32 - k) as u32)) & 1)
    }
}

/// The register after consuming one whole 32-bit word.
pub open spec fn spec_crc_word(crc: u32, word: u32) -> u32 {
    spec_crc_word_partial(crc, word, 32)
}

/// The register after consuming a sequence of words in order.
pub open spec fn spec_crc_words(ws: Seq<u32>, acc: u32) -> u32
    decreases ws.len(),
{
    if ws.len() == 0 {
        acc
    } else {
        spec_crc_words(ws.drop_first(), spec_crc_word(acc, ws[0]))
    }
}

/// The little-endian 32-bit words of a byte sequence.
pub open spec fn spec_words_of_bytes(s: Seq<u8>) -> Seq<u32> {
    Seq::new((s.len() / 4) as nat, |i: int| spec_u32_from_le_bytes(s.subrange(4 * i, 4 * i + 4)))
}

/// The checksum of a covered region.
pub open spec fn spec_gen_crc(s: Seq<u8>) -> u32
    recommends
        s.len() % 4 == 0,
{
    spec_crc_words(spec_words_of_bytes(s), 0xFFFFFFFFu32)
}

/// Computes the packet checksum of a covered region.
pub fn gen_crc(bytes: &[u8]) -> (crc: u32)
    requires
        bytes@.len() % 4 == 0,
    ensures
        crc == spec_gen_crc(bytes@),
{
    let ghost words = spec_words_of_bytes(bytes@);
    let len: usize = bytes.len();
    let n: usize = len / 4;
    let mut crc: u32 = 0xFFFFFFFF;
    let mut i: usize = 0;
    proof {
        assert(words.skip(0) =~= words);
    }
    while i < n
        invariant
            bytes@.len() <= usize::MAX,
            4 * n == bytes@.len(),
            0 <= i <= n,
            words == spec_words_of_bytes(bytes@),
            spec_crc_words(words.skip(i as int), crc) == spec_gen_crc(bytes@),
        decreases n - i,
    {
        let w: u32 = (bytes[4 * i] as u32) | ((bytes[4 * i + 1] as u32) << 8) | ((bytes[4 * i + 2]
            as u32) << 16) | ((bytes[4 * i + 3] as u32) << 24);
        proof {
            let sub = bytes@.subrange(4 * i as int, 4 * i as int + 4);
            assert(sub[0] == bytes@[4 * i as int] && sub[1] == bytes@[4 * i as int + 1] && sub[2]
                == bytes@[4 * i as int + 2] && sub[3] == bytes@[4 * i as int + 3]);
            assert(w == words[i as int]);
        }
        let ghost entry_crc = crc;
        let mut b: u32 = 0;
        while b < 32
            invariant
                0 <= b <= 32,
            crc == spec_crc_word_partial(entry_crc, w, b as int),
            decreases 32 - b,
        {
            let bit: u32 = (w >> (31 - b)) & 1;
            let x: u32 = (crc >> 31) & 1;
            let shifted: u32 = crc << 1;
            crc = if x != bit {
                shifted ^ 0x04C11DB7
            } else {
                shifted
            };
            b = b + 1;
        }
        proof {
            assert(crc == spec_crc_word(entry_crc, w));
            assert(words.skip(i as int).drop_first() =~= words.skip(i as int + 1));
            assert(words.skip(i as int)[0] == words[i as int]);
        }
        i = i + 1;
    }
    proof {
        assert(words.skip(n as int) =~= Seq::<u32>::empty());
    }
    crc
}

// ---------------------------------------------------------------------------
// Checksum obfuscation and validation.
// ---------------------------------------------------------------------------

/// The trailing four bytes of a packet whose checksum travels unobfuscated.
pub open spec fn spec_plain_crc_bytes(c: u32) -> Seq<u8> {
    spec_u32_le_bytes(c)
}

/// The trailing four bytes of a packet whose checksum is obfuscated: the
/// checksum is xored with a fixed mask and its little-endian bytes rotated.
pub open spec fn spec_encrypt_crc(c: u32) -> Seq<u8> {
    let b = spec_u32_le_bytes(c ^ 0xEDCAB9DEu32);
    seq![b[1], b[2], b[3], b[0]]
}

/// Obfuscates a checksum into its four trailing wire bytes.
pub fn encrypt_crc(crc_val: u32) -> (r: [u8; 4])
    ensures
        r@ == spec_encrypt_crc(crc_val),
{
    let x: u32 = crc_val ^ 0xEDCAB9DE;
    let b = u32_to_le(x);
    let r: [u8; 4] = [b[1], b[2], b[3], b[0]];
    assert(r@ =~= spec_encrypt_crc(crc_val));
    r
}

/// How a packet's trailing checksum bytes relate to the checksum of its
/// covered region.
#[derive(Debug, Clone, Copy, PartialEq, Eq)]
pub enum CrcStatus {
    /// The trailing bytes hold the raw checksum.
    Plain,
    /// The trailing bytes hold the obfuscated checksum.
    Obfuscated,
    /// The trailing bytes match neither form.
    Mismatch,
}

/// The status a decoder reports for trailing bytes `t` against checksum `c`;
/// the raw form is checked first.
pub open spec fn spec_crc_status(c: u32, t: Seq<u8>) -> CrcStatus
    recommends
        t.len() == 4,
{
    if t == spec_plain_crc_bytes(c) {
        CrcStatus::Plain
    } else if t == spec_encrypt_crc(c) {
        CrcStatus::Obfuscated
    } else {
        CrcStatus::Mismatch
    }
}

/// Compares a packet's four trailing bytes against a computed checksum.
pub fn check_crc_bytes(t0: u8, t1: u8, t2: u8, t3: u8, crc: u32) -> (st: CrcStatus)
    ensures
        st == spec_crc_status(crc, seq![t0, t1, t2, t3]),
{
    let ghost t = seq![t0, t1, t2, t3];
    let p = u32_to_le(crc);
    let e = encrypt_crc(crc);
    if t0 == p[0] && t1 == p[1] && t2 == p[2] && t3 == p[3] {
        proof {
            assert(t =~= spec_plain_crc_bytes(crc));
        }
        CrcStatus::Plain
    } else if t0 == e[0] && t1 == e[1] && t2 == e[2] && t3 == e[3] {
        proof {
            assert(t != spec_plain_crc_bytes(crc));
            assert(t =~= spec_encrypt_crc(crc));
        }
        CrcStatus::Obfuscated
    } else {
        proof {
            assert(t != spec_plain_crc_bytes(crc));
            assert(t != spec_encrypt_crc(crc));
        }
        CrcStatus::Mismatch
    }
}

} // verus!
