//! Entity codecs: the composite command and telemetry structures and their
//! fixed-length byte forms. Each entity's `get_bytes` produces exactly its
//! declared width, and each `from_bytes` rejects any slice of another
//! length with a length-mismatch error.

use vstd::prelude::*;

use crate::CodecError;
use crate::common::spec_i32_from_le_bytes;
use crate::common::spec_i32_le_bytes;
use crate::common::spec_kd_bytes;
use crate::common::spec_kd_from_bytes;
use crate::common::spec_kp_bytes;
use crate::common::spec_kp_from_bytes;
use crate::common::spec_tau_bytes;
use crate::common::spec_tau_from_bytes;
use crate::common::spec_u16_le_bytes;
use crate::common::spec_u16_from_le_bytes;
use crate::common::spec_u32_le_bytes;
use crate::common::spec_u32_from_le_bytes;
use crate::common::spec_u32_swapped_bytes;
use crate::common::spec_u32_from_swapped_bytes;
use crate::common::float_to_hex;
use crate::common::hex_to_float;
use crate::common::hex_to_kd;
use crate::common::hex_to_kp;
use crate::common::hex_to_tau;
use crate::common::i32_from_le;
use crate::common::i32_to_le;
use crate::common::kd_to_hex;
use crate::common::kp_to_hex;
use crate::common::tau_to_hex;
use crate::common::u16_from_le;
use crate::common::u16_to_le;
use crate::common::u32_from_le;
use crate::common::u32_to_le;

verus! {

// ---------------------------------------------------------------------------
// Battery-management command.
// ---------------------------------------------------------------------------

/// Command to the battery management subsystem: a power-off flag and three
/// reserved bytes. Serialized width: 4 bytes.
#[derive(Debug, Clone, Copy, PartialEq, Eq)]
pub struct BmsCmd {
    pub off: u8,
    pub reserve: [u8; 3],
}

/// The four wire bytes of a battery-management command.
pub open spec fn spec_bms_cmd_bytes(b: BmsCmd) -> Seq<u8> {
    seq![b.off, b.reserve[0], b.reserve[1], b.reserve[2]]
}

/// The battery-management command read back from four wire bytes.
pub open spec fn spec_bms_cmd_from_bytes(s: Seq<u8>) -> BmsCmd
    recommends
        s.len() == 4,
{
    BmsCmd { off: s[0], reserve: [s[1], s[2], s[3]] }
}

impl BmsCmd {
    pub fn new(off: u8, reserve: [u8; 3]) -> (r: BmsCmd)
        ensures
            r.off == off,
            r.reserve == reserve,
    {
        BmsCmd { off, reserve }
    }

    /// Serializes this command into its four wire bytes.
    pub fn get_bytes(&self) -> (r: Vec<u8>)
        ensures
            r@ == spec_bms_cmd_bytes(*self),
            r@.len() == 4,
    {
        let mut bytes: Vec<u8> = Vec::new();
        bytes.push(self.off);
        bytes.push(self.reserve[0]);
        bytes.push(self.reserve[1]);
        bytes.push(self.reserve[2]);
        assert(bytes@ =~= spec_bms_cmd_bytes(*self));
        bytes
    }

    /// Deserializes a command from a slice of exactly four bytes.
    pub fn from_bytes(data: &[u8]) -> (r: Result<BmsCmd, CodecError>)
        ensures
            data@.len() == 4 ==> r == Ok::<BmsCmd, CodecError>(spec_bms_cmd_from_bytes(data@)),
            data@.len() != 4 ==> r == Err::<BmsCmd, CodecError>(CodecError::LengthMismatch),
    {
        if data.len() != 4 {
            return Err(CodecError::LengthMismatch);
        }
        let r = BmsCmd { off: data[0], reserve: [data[1], data[2], data[3]] };
        assert(r.reserve@ =~= spec_bms_cmd_from_bytes(data@).reserve@);
        Ok(r)
    }
}

/// A battery-management command survives a byte round trip unchanged.
pub proof fn lemma_bms_cmd_round_trip(b: BmsCmd)
    ensures
        spec_bms_cmd_from_bytes(spec_bms_cmd_bytes(b)) == b,
{
    let r = spec_bms_cmd_from_bytes(spec_bms_cmd_bytes(b));
    assert(r.reserve =~= b.reserve);
}

// ---------------------------------------------------------------------------
// Led command.
// ---------------------------------------------------------------------------

/// Face-led color command. Serialized width: 4 bytes (a trailing zero pad).
#[derive(Debug, Clone, Copy, PartialEq, Eq)]
pub struct Led {
    pub r: u8,
    pub g: u8,
    pub b: u8,
}

/// The four wire bytes of a led command: the three channels and a zero pad.
pub open spec fn spec_led_bytes(l: Led) -> Seq<u8> {
    seq![l.r, l.g, l.b, 0u8]
}

impl Led {
    pub fn new(r: u8, g: u8, b: u8) -> (l: Led)
        ensures
            l.r == r,
            l.g == g,
            l.b == b,
    {
        Led { r, g, b }
    }

    /// Serializes this command into its four wire bytes.
    pub fn get_bytes(&self) -> (out: Vec<u8>)
        ensures
            out@ == spec_led_bytes(*self),
            out@.len() == 4,
    {
        let mut bytes: Vec<u8> = Vec::new();
        bytes.push(self.r);
        bytes.push(self.g);
        bytes.push(self.b);
        bytes.push(0);
        assert(bytes@ =~= spec_led_bytes(*self));
        bytes
    }
}

// ---------------------------------------------------------------------------
// Body-relative coordinate.
// ---------------------------------------------------------------------------

/// A coordinate relative to the body frame; each component is a plain-float
/// bit pattern. Serialized width: 12 bytes.
#[derive(Debug, Clone, Copy, PartialEq, Eq)]
pub struct Cartesian {
    pub x: u32,
    pub y: u32,
    pub z: u32,
}

/// The twelve wire bytes of a coordinate.
pub open spec fn spec_cartesian_bytes(c: Cartesian) -> Seq<u8> {
    spec_u32_swapped_bytes(c.x) + spec_u32_swapped_bytes(c.y) + spec_u32_swapped_bytes(c.z)
}

/// The coordinate read back from twelve wire bytes.
pub open spec fn spec_cartesian_from_bytes(s: Seq<u8>) -> Cartesian
    recommends
        s.len() == 12,
{
    Cartesian {
        x: spec_u32_from_swapped_bytes(s.subrange(0, 4)),
        y: spec_u32_from_swapped_bytes(s.subrange(4, 8)),
        z: spec_u32_from_swapped_bytes(s.subrange(8, 12)),
    }
}

impl Cartesian {
    pub fn new(x: u32, y: u32, z: u32) -> (c: Cartesian)
        ensures
            c.x == x,
            c.y == y,
            c.z == z,
    {
        Cartesian { x, y, z }
    }

    /// Serializes this coordinate into its twelve wire bytes.
    pub fn get_bytes(&self) -> (out: Vec<u8>)
        ensures
            out@ == spec_cartesian_bytes(*self),
            out@.len() == 12,
    {
        let mut bytes: Vec<u8> = Vec::new();
        let xb = float_to_hex(self.x);
        let yb = float_to_hex(self.y);
        let zb = float_to_hex(self.z);
        bytes.extend_from_slice(xb.as_slice());
        bytes.extend_from_slice(yb.as_slice());
        bytes.extend_from_slice(zb.as_slice());
        assert(bytes@ =~= spec_cartesian_bytes(*self));
        bytes
    }

    /// Deserializes a coordinate from a slice of exactly twelve bytes.
    pub fn from_bytes(data: &[u8]) -> (r: Result<Cartesian, CodecError>)
        ensures
            data@.len() == 12 ==> r == Ok::<Cartesian, CodecError>(
                spec_cartesian_from_bytes(data@),
            ),
            data@.len() != 12 ==> r == Err::<Cartesian, CodecError>(CodecError::LengthMismatch),
    {
        if data.len() != 12 {
            return Err(CodecError::LengthMismatch);
        }
        Ok(
            Cartesian {
                x: hex_to_float(&data[0..4]),
                y: hex_to_float(&data[4..8]),
                z: hex_to_float(&data[8..12]),
            },
        )
    }
}

/// A coordinate survives a byte round trip bit-exactly.
pub proof fn lemma_cartesian_round_trip(c: Cartesian)
    ensures
        spec_cartesian_from_bytes(spec_cartesian_bytes(c)) == c,
{
    let s = spec_cartesian_bytes(c);
    assert(s.subrange(0, 4) =~= spec_u32_swapped_bytes(c.x));
    assert(s.subrange(4, 8) =~= spec_u32_swapped_bytes(c.y));
    assert(s.subrange(8, 12) =~= spec_u32_swapped_bytes(c.z));
    crate::common::lemma_u32_swapped_round_trip(c.x);
    crate::common::lemma_u32_swapped_round_trip(c.y);
    crate::common::lemma_u32_swapped_round_trip(c.z);
}

// ---------------------------------------------------------------------------
// Measured per-actuator state.
// ---------------------------------------------------------------------------

/// Measured state of one actuator. All physical quantities are plain-float
/// bit patterns (measurement is never quantized). Serialized width: 32
/// bytes.
#[derive(Debug, Clone, Copy, PartialEq, Eq)]
pub struct MotorState {
    pub mode: u8,
    pub q: u32,
    pub dq: u32,
    pub ddq: u32,
    pub tau_est: u32,
    pub q_raw: u32,
    pub dq_raw: u32,
    pub ddq_raw: u32,
    pub temperature: u8,
    pub reserve: [u8; 2],
}

/// The 32 wire bytes of a motor state.
pub open spec fn spec_motor_state_bytes(m: MotorState) -> Seq<u8> {
    seq![m.mode] + spec_u32_swapped_bytes(m.q) + spec_u32_swapped_bytes(m.dq)
        + spec_u32_swapped_bytes(m.ddq) + spec_u32_swapped_bytes(m.tau_est)
        + spec_u32_swapped_bytes(m.q_raw) + spec_u32_swapped_bytes(m.dq_raw)
        + spec_u32_swapped_bytes(m.ddq_raw) + seq![m.temperature, m.reserve[0], m.reserve[1]]
}

/// The motor state read back from 32 wire bytes.
pub open spec fn spec_motor_state_from_bytes(s: Seq<u8>) -> MotorState
    recommends
        s.len() == 32,
{
    MotorState {
        mode: s[0],
        q: spec_u32_from_swapped_bytes(s.subrange(1, 5)),
        dq: spec_u32_from_swapped_bytes(s.subrange(5, 9)),
        ddq: spec_u32_from_swapped_bytes(s.subrange(9, 13)),
        tau_est: spec_u32_from_swapped_bytes(s.subrange(13, 17)),
        q_raw: spec_u32_from_swapped_bytes(s.subrange(17, 21)),
        dq_raw: spec_u32_from_swapped_bytes(s.subrange(21, 25)),
        ddq_raw: spec_u32_from_swapped_bytes(s.subrange(25, 29)),
        temperature: s[29],
        reserve: [s[30], s[31]],
    }
}

impl MotorState {
    /// Serializes this state into its 32 wire bytes.
    pub fn get_bytes(&self) -> (out: Vec<u8>)
        ensures
            out@ == spec_motor_state_bytes(*self),
            out@.len() == 32,
    {
        let mut bytes: Vec<u8> = Vec::new();
        bytes.push(self.mode);
        let qb = float_to_hex(self.q);
        bytes.extend_from_slice(qb.as_slice());
        let dqb = float_to_hex(self.dq);
        bytes.extend_from_slice(dqb.as_slice());
        let ddqb = float_to_hex(self.ddq);
        bytes.extend_from_slice(ddqb.as_slice());
        let taub = float_to_hex(self.tau_est);
        bytes.extend_from_slice(taub.as_slice());
        let qrb = float_to_hex(self.q_raw);
        bytes.extend_from_slice(qrb.as_slice());
        let dqrb = float_to_hex(self.dq_raw);
        bytes.extend_from_slice(dqrb.as_slice());
        let ddqrb = float_to_hex(self.ddq_raw);
        bytes.extend_from_slice(ddqrb.as_slice());
        bytes.push(self.temperature);
        bytes.push(self.reserve[0]);
        bytes.push(self.reserve[1]);
        assert(bytes@ =~= spec_motor_state_bytes(*self));
        bytes
    }

    /// Deserializes a motor state from a slice of exactly 32 bytes.
    pub fn from_bytes(data: &[u8]) -> (r: Result<MotorState, CodecError>)
        ensures
            data@.len() == 32 ==> r == Ok::<MotorState, CodecError>(
                spec_motor_state_from_bytes(data@),
            ),
            data@.len() != 32 ==> r == Err::<MotorState, CodecError>(CodecError::LengthMismatch),
    {
        if data.len() != 32 {
            return Err(CodecError::LengthMismatch);
        }
        let r = MotorState {
            mode: data[0],
            q: hex_to_float(&data[1..5]),
            dq: hex_to_float(&data[5..9]),
            ddq: hex_to_float(&data[9..13]),
            tau_est: hex_to_float(&data[13..17]),
            q_raw: hex_to_float(&data[17..21]),
            dq_raw: hex_to_float(&data[21..25]),
            ddq_raw: hex_to_float(&data[25..29]),
            temperature: data[29],
            reserve: [data[30], data[31]],
        };
        assert(r.reserve =~= spec_motor_state_from_bytes(data@).reserve);
        Ok(r)
    }
}

/// A motor state survives a byte round trip bit-exactly.
pub proof fn lemma_motor_state_round_trip(m: MotorState)
    ensures
        spec_motor_state_from_bytes(spec_motor_state_bytes(m)) == m,
{
    let s = spec_motor_state_bytes(m);
    assert(s.subrange(1, 5) =~= spec_u32_swapped_bytes(m.q));
    assert(s.subrange(5, 9) =~= spec_u32_swapped_bytes(m.dq));
    assert(s.subrange(9, 13) =~= spec_u32_swapped_bytes(m.ddq));
    assert(s.subrange(13, 17) =~= spec_u32_swapped_bytes(m.tau_est));
    assert(s.subrange(17, 21) =~= spec_u32_swapped_bytes(m.q_raw));
    assert(s.subrange(21, 25) =~= spec_u32_swapped_bytes(m.dq_raw));
    assert(s.subrange(25, 29) =~= spec_u32_swapped_bytes(m.ddq_raw));
    crate::common::lemma_u32_swapped_round_trip(m.q);
    crate::common::lemma_u32_swapped_round_trip(m.dq);
    crate::common::lemma_u32_swapped_round_trip(m.ddq);
    crate::common::lemma_u32_swapped_round_trip(m.tau_est);
    crate::common::lemma_u32_swapped_round_trip(m.q_raw);
    crate::common::lemma_u32_swapped_round_trip(m.dq_raw);
    crate::common::lemma_u32_swapped_round_trip(m.ddq_raw);
    let r = spec_motor_state_from_bytes(s);
    assert(r.reserve =~= m.reserve);
}

// ---------------------------------------------------------------------------
// Inertial measurement sample.
// ---------------------------------------------------------------------------

/// One inertial-measurement snapshot: quaternion, gyroscope, accelerometer,
/// roll / pitch / yaw (all plain-float bit patterns) and a one-byte
/// temperature. Serialized width: 53 bytes.
#[derive(Debug, Clone, Copy, PartialEq, Eq)]
pub struct Imu {
    pub quaternion: [u32; 4],
    pub gyroscope: [u32; 3],
    pub accelerometer: [u32; 3],
    pub rpy: [u32; 3],
    pub temperature: u8,
}

/// The 53 wire bytes of an inertial sample.
pub open spec fn spec_imu_bytes(m: Imu) -> Seq<u8> {
    spec_u32_swapped_bytes(m.quaternion[0]) + spec_u32_swapped_bytes(m.quaternion[1])
        + spec_u32_swapped_bytes(m.quaternion[2]) + spec_u32_swapped_bytes(m.quaternion[3])
        + spec_u32_swapped_bytes(m.gyroscope[0]) + spec_u32_swapped_bytes(m.gyroscope[1])
        + spec_u32_swapped_bytes(m.gyroscope[2]) + spec_u32_swapped_bytes(m.accelerometer[0])
        + spec_u32_swapped_bytes(m.accelerometer[1]) + spec_u32_swapped_bytes(m.accelerometer[2])
        + spec_u32_swapped_bytes(m.rpy[0]) + spec_u32_swapped_bytes(m.rpy[1])
        + spec_u32_swapped_bytes(m.rpy[2]) + seq![m.temperature]
}

/// The inertial sample read back from 53 wire bytes.
pub open spec fn spec_imu_from_bytes(s: Seq<u8>) -> Imu
    recommends
        s.len() == 53,
{
    Imu {
        quaternion: [
            spec_u32_from_swapped_bytes(s.subrange(0, 4)),
            spec_u32_from_swapped_bytes(s.subrange(4, 8)),
            spec_u32_from_swapped_bytes(s.subrange(8, 12)),
            spec_u32_from_swapped_bytes(s.subrange(12, 16)),
        ],
        gyroscope: [
            spec_u32_from_swapped_bytes(s.subrange(16, 20)),
            spec_u32_from_swapped_bytes(s.subrange(20, 24)),
            spec_u32_from_swapped_bytes(s.subrange(24, 28)),
        ],
        accelerometer: [
            spec_u32_from_swapped_bytes(s.subrange(28, 32)),
            spec_u32_from_swapped_bytes(s.subrange(32, 36)),
            spec_u32_from_swapped_bytes(s.subrange(36, 40)),
        ],
        rpy: [
            spec_u32_from_swapped_bytes(s.subrange(40, 44)),
            spec_u32_from_swapped_bytes(s.subrange(44, 48)),
            spec_u32_from_swapped_bytes(s.subrange(48, 52)),
        ],
        temperature: s[52],
    }
}

impl Imu {
    /// Serializes this sample into its 53 wire bytes.
    pub fn get_bytes(&self) -> (out: Vec<u8>)
        ensures
            out@ == spec_imu_bytes(*self),
            out@.len() == 53,
    {
        let mut bytes: Vec<u8> = Vec::new();
        let q0 = float_to_hex(self.quaternion[0]);
        bytes.extend_from_slice(q0.as_slice());
        let q1 = float_to_hex(self.quaternion[1]);
        bytes.extend_from_slice(q1.as_slice());
        let q2 = float_to_hex(self.quaternion[2]);
        bytes.extend_from_slice(q2.as_slice());
        let q3 = float_to_hex(self.quaternion[3]);
        bytes.extend_from_slice(q3.as_slice());
        let g0 = float_to_hex(self.gyroscope[0]);
        bytes.extend_from_slice(g0.as_slice());
        let g1 = float_to_hex(self.gyroscope[1]);
        bytes.extend_from_slice(g1.as_slice());
        let g2 = float_to_hex(self.gyroscope[2]);
        bytes.extend_from_slice(g2.as_slice());
        let a0 = float_to_hex(self.accelerometer[0]);
        bytes.extend_from_slice(a0.as_slice());
        let a1 = float_to_hex(self.accelerometer[1]);
        bytes.extend_from_slice(a1.as_slice());
        let a2 = float_to_hex(self.accelerometer[2]);
        bytes.extend_from_slice(a2.as_slice());
        let r0 = float_to_hex(self.rpy[0]);
        bytes.extend_from_slice(r0.as_slice());
        let r1 = float_to_hex(self.rpy[1]);
        bytes.extend_from_slice(r1.as_slice());
        let r2 = float_to_hex(self.rpy[2]);
        bytes.extend_from_slice(r2.as_slice());
        bytes.push(self.temperature);
        assert(bytes@ =~= spec_imu_bytes(*self));
        bytes
    }

    /// Deserializes an inertial sample from a slice of exactly 53 bytes.
    pub fn from_bytes(data: &[u8]) -> (r: Result<Imu, CodecError>)
        ensures
            data@.len() == 53 ==> r == Ok::<Imu, CodecError>(spec_imu_from_bytes(data@)),
            data@.len() != 53 ==> r == Err::<Imu, CodecError>(CodecError::LengthMismatch),
    {
        if data.len() != 53 {
            return Err(CodecError::LengthMismatch);
        }
        let r = Imu {
            quaternion: [
                hex_to_float(&data[0..4]),
                hex_to_float(&data[4..8]),
                hex_to_float(&data[8..12]),
                hex_to_float(&data[12..16]),
            ],
            gyroscope: [
                hex_to_float(&data[16..20]),
                hex_to_float(&data[20..24]),
                hex_to_float(&data[24..28]),
            ],
            accelerometer: [
                hex_to_float(&data[28..32]),
                hex_to_float(&data[32..36]),
                hex_to_float(&data[36..40]),
            ],
            rpy: [
                hex_to_float(&data[40..44]),
                hex_to_float(&data[44..48]),
                hex_to_float(&data[48..52]),
            ],
            temperature: data[52],
        };
        let ghost m = spec_imu_from_bytes(data@);
        assert(r.quaternion =~= m.quaternion);
        assert(r.gyroscope =~= m.gyroscope);
        assert(r.accelerometer =~= m.accelerometer);
        assert(r.rpy =~= m.rpy);
        Ok(r)
    }
}

/// An inertial sample survives a byte round trip bit-exactly.
pub proof fn lemma_imu_round_trip(m: Imu)
    ensures
        spec_imu_from_bytes(spec_imu_bytes(m)) == m,
{
    let s = spec_imu_bytes(m);
    assert(s.subrange(0, 4) =~= spec_u32_swapped_bytes(m.quaternion[0]));
    assert(s.subrange(4, 8) =~= spec_u32_swapped_bytes(m.quaternion[1]));
    assert(s.subrange(8, 12) =~= spec_u32_swapped_bytes(m.quaternion[2]));
    assert(s.subrange(12, 16) =~= spec_u32_swapped_bytes(m.quaternion[3]));
    assert(s.subrange(16, 20) =~= spec_u32_swapped_bytes(m.gyroscope[0]));
    assert(s.subrange(20, 24) =~= spec_u32_swapped_bytes(m.gyroscope[1]));
    assert(s.subrange(24, 28) =~= spec_u32_swapped_bytes(m.gyroscope[2]));
    assert(s.subrange(28, 32) =~= spec_u32_swapped_bytes(m.accelerometer[0]));
    assert(s.subrange(32, 36) =~= spec_u32_swapped_bytes(m.accelerometer[1]));
    assert(s.subrange(36, 40) =~= spec_u32_swapped_bytes(m.accelerometer[2]));
    assert(s.subrange(40, 44) =~= spec_u32_swapped_bytes(m.rpy[0]));
    assert(s.subrange(44, 48) =~= spec_u32_swapped_bytes(m.rpy[1]));
    assert(s.subrange(48, 52) =~= spec_u32_swapped_bytes(m.rpy[2]));
    crate::common::lemma_u32_swapped_round_trip(m.quaternion[0]);
    crate::common::lemma_u32_swapped_round_trip(m.quaternion[1]);
    crate::common::lemma_u32_swapped_round_trip(m.quaternion[2]);
    crate::common::lemma_u32_swapped_round_trip(m.quaternion[3]);
    crate::common::lemma_u32_swapped_round_trip(m.gyroscope[0]);
    crate::common::lemma_u32_swapped_round_trip(m.gyroscope[1]);
    crate::common::lemma_u32_swapped_round_trip(m.gyroscope[2]);
    crate::common::lemma_u32_swapped_round_trip(m.accelerometer[0]);
    crate::common::lemma_u32_swapped_round_trip(m.accelerometer[1]);
    crate::common::lemma_u32_swapped_round_trip(m.accelerometer[2]);
    crate::common::lemma_u32_swapped_round_trip(m.rpy[0]);
    crate::common::lemma_u32_swapped_round_trip(m.rpy[1]);
    crate::common::lemma_u32_swapped_round_trip(m.rpy[2]);
    let r = spec_imu_from_bytes(s);
    assert(r.quaternion =~= m.quaternion);
    assert(r.gyroscope =~= m.gyroscope);
    assert(r.accelerometer =~= m.accelerometer);
    assert(r.rpy =~= m.rpy);
}

// ---------------------------------------------------------------------------
// Battery-management state.
// ---------------------------------------------------------------------------

/// Telemetry from the battery management subsystem. The wire layout carries
/// exactly ten cell-voltage slots. Serialized width: 34 bytes.
#[derive(Debug, Clone, Copy, PartialEq, Eq)]
pub struct BmsState {
    pub version_h: u8,
    pub version_l: u8,
    pub bms_status: u8,
    /// State of charge, 0 through 100 percent.
    pub soc: u8,
    /// Current in mA, negative while discharging.
    pub current: i32,
    /// Charge-cycle count.
    pub cycle: u16,
    /// BQ-chip temperatures in whole degrees centigrade.
    pub bq_ntc: [i8; 2],
    /// MCU temperatures in whole degrees centigrade.
    pub mcu_ntc: [i8; 2],
    /// Per-cell voltages in mV.
    pub cell_vol: [u16; 10],
}

/// The 34 wire bytes of a battery-management state.
pub open spec fn spec_bms_state_bytes(b: BmsState) -> Seq<u8> {
    seq![b.version_h, b.version_l, b.bms_status, b.soc] + spec_i32_le_bytes(b.current)
        + spec_u16_le_bytes(b.cycle) + seq![
        b.bq_ntc[0] as u8,
        b.bq_ntc[1] as u8,
        b.mcu_ntc[0] as u8,
        b.mcu_ntc[1] as u8,
    ] + spec_u16_le_bytes(b.cell_vol[0]) + spec_u16_le_bytes(b.cell_vol[1]) + spec_u16_le_bytes(
        b.cell_vol[2],
    ) + spec_u16_le_bytes(b.cell_vol[3]) + spec_u16_le_bytes(b.cell_vol[4]) + spec_u16_le_bytes(
        b.cell_vol[5],
    ) + spec_u16_le_bytes(b.cell_vol[6]) + spec_u16_le_bytes(b.cell_vol[7]) + spec_u16_le_bytes(
        b.cell_vol[8],
    ) + spec_u16_le_bytes(b.cell_vol[9])
}

/// The battery-management state read back from 34 wire bytes.
pub open spec fn spec_bms_state_from_bytes(s: Seq<u8>) -> BmsState
    recommends
        s.len() == 34,
{
    BmsState {
        version_h: s[0],
        version_l: s[1],
        bms_status: s[2],
        soc: s[3],
        current: spec_i32_from_le_bytes(s.subrange(4, 8)),
        cycle: spec_u16_from_le_bytes(s.subrange(8, 10)),
        bq_ntc: [s[10] as i8, s[11] as i8],
        mcu_ntc: [s[12] as i8, s[13] as i8],
        cell_vol: [
            spec_u16_from_le_bytes(s.subrange(14, 16)),
            spec_u16_from_le_bytes(s.subrange(16, 18)),
            spec_u16_from_le_bytes(s.subrange(18, 20)),
            spec_u16_from_le_bytes(s.subrange(20, 22)),
            spec_u16_from_le_bytes(s.subrange(22, 24)),
            spec_u16_from_le_bytes(s.subrange(24, 26)),
            spec_u16_from_le_bytes(s.subrange(26, 28)),
            spec_u16_from_le_bytes(s.subrange(28, 30)),
            spec_u16_from_le_bytes(s.subrange(30, 32)),
            spec_u16_from_le_bytes(s.subrange(32, 34)),
        ],
    }
}

impl BmsState {
    /// Serializes this state into its 34 wire bytes.
    pub fn get_bytes(&self) -> (out: Vec<u8>)
        ensures
            out@ == spec_bms_state_bytes(*self),
            out@.len() == 34,
    {
        let mut bytes: Vec<u8> = Vec::new();
        bytes.push(self.version_h);
        bytes.push(self.version_l);
        bytes.push(self.bms_status);
        bytes.push(self.soc);
        let cur = i32_to_le(self.current);
        bytes.extend_from_slice(cur.as_slice());
        let cyc = u16_to_le(self.cycle);
        bytes.extend_from_slice(cyc.as_slice());
        bytes.push(self.bq_ntc[0] as u8);
        bytes.push(self.bq_ntc[1] as u8);
        bytes.push(self.mcu_ntc[0] as u8);
        bytes.push(self.mcu_ntc[1] as u8);
        let c0 = u16_to_le(self.cell_vol[0]);
        bytes.extend_from_slice(c0.as_slice());
        let c1 = u16_to_le(self.cell_vol[1]);
        bytes.extend_from_slice(c1.as_slice());
        let c2 = u16_to_le(self.cell_vol[2]);
        bytes.extend_from_slice(c2.as_slice());
        let c3 = u16_to_le(self.cell_vol[3]);
        bytes.extend_from_slice(c3.as_slice());
        let c4 = u16_to_le(self.cell_vol[4]);
        bytes.extend_from_slice(c4.as_slice());
        let c5 = u16_to_le(self.cell_vol[5]);
        bytes.extend_from_slice(c5.as_slice());
        let c6 = u16_to_le(self.cell_vol[6]);
        bytes.extend_from_slice(c6.as_slice());
        let c7 = u16_to_le(self.cell_vol[7]);
        bytes.extend_from_slice(c7.as_slice());
        let c8 = u16_to_le(self.cell_vol[8]);
        bytes.extend_from_slice(c8.as_slice());
        let c9 = u16_to_le(self.cell_vol[9]);
        bytes.extend_from_slice(c9.as_slice());
        assert(bytes@ =~= spec_bms_state_bytes(*self));
        bytes
    }

    /// Deserializes a battery-management state from a slice of exactly 34
    /// bytes.
    pub fn from_bytes(data: &[u8]) -> (r: Result<BmsState, CodecError>)
        ensures
            data@.len() == 34 ==> r == Ok::<BmsState, CodecError>(
                spec_bms_state_from_bytes(data@),
            ),
            data@.len() != 34 ==> r == Err::<BmsState, CodecError>(CodecError::LengthMismatch),
    {
        if data.len() != 34 {
            return Err(CodecError::LengthMismatch);
        }
        let r = BmsState {
            version_h: data[0],
            version_l: data[1],
            bms_status: data[2],
            soc: data[3],
            current: i32_from_le(data[4], data[5], data[6], data[7]),
            cycle: u16_from_le(data[8], data[9]),
            bq_ntc: [data[10] as i8, data[11] as i8],
            mcu_ntc: [data[12] as i8, data[13] as i8],
            cell_vol: [
                u16_from_le(data[14], data[15]),
                u16_from_le(data[16], data[17]),
                u16_from_le(data[18], data[19]),
                u16_from_le(data[20], data[21]),
                u16_from_le(data[22], data[23]),
                u16_from_le(data[24], data[25]),
                u16_from_le(data[26], data[27]),
                u16_from_le(data[28], data[29]),
                u16_from_le(data[30], data[31]),
                u16_from_le(data[32], data[33]),
            ],
        };
        let ghost m = spec_bms_state_from_bytes(data@);
        proof {
            assert(data@.subrange(4, 8) =~= seq![data@[4], data@[5], data@[6], data@[7]]);
            assert(data@.subrange(8, 10) =~= seq![data@[8], data@[9]]);
            assert(data@.subrange(14, 16) =~= seq![data@[14], data@[15]]);
            assert(data@.subrange(16, 18) =~= seq![data@[16], data@[17]]);
            assert(data@.subrange(18, 20) =~= seq![data@[18], data@[19]]);
            assert(data@.subrange(20, 22) =~= seq![data@[20], data@[21]]);
            assert(data@.subrange(22, 24) =~= seq![data@[22], data@[23]]);
            assert(data@.subrange(24, 26) =~= seq![data@[24], data@[25]]);
            assert(data@.subrange(26, 28) =~= seq![data@[26], data@[27]]);
            assert(data@.subrange(28, 30) =~= seq![data@[28], data@[29]]);
            assert(data@.subrange(30, 32) =~= seq![data@[30], data@[31]]);
            assert(data@.subrange(32, 34) =~= seq![data@[32], data@[33]]);
            assert(r.bq_ntc =~= m.bq_ntc);
            assert(r.mcu_ntc =~= m.mcu_ntc);
            assert(r.cell_vol =~= m.cell_vol);
        }
        Ok(r)
    }
}

/// A signed temperature byte survives a cast through its wire byte.
proof fn lemma_i8_byte_round_trip(v: i8)
    ensures
        (v as u8) as i8 == v,
{
    assert((v as u8) as i8 == v) by (bit_vector);
}

/// A battery-management state survives a byte round trip unchanged.
pub proof fn lemma_bms_state_round_trip(b: BmsState)
    ensures
        spec_bms_state_from_bytes(spec_bms_state_bytes(b)) == b,
{
    let s = spec_bms_state_bytes(b);
    assert(s.subrange(4, 8) =~= spec_i32_le_bytes(b.current));
    assert(s.subrange(8, 10) =~= spec_u16_le_bytes(b.cycle));
    crate::common::lemma_i32_le_round_trip(b.current);
    crate::common::lemma_u16_le_round_trip(b.cycle);
    lemma_i8_byte_round_trip(b.bq_ntc[0]);
    lemma_i8_byte_round_trip(b.bq_ntc[1]);
    lemma_i8_byte_round_trip(b.mcu_ntc[0]);
    lemma_i8_byte_round_trip(b.mcu_ntc[1]);
    assert(s.subrange(14, 16) =~= spec_u16_le_bytes(b.cell_vol[0]));
    assert(s.subrange(16, 18) =~= spec_u16_le_bytes(b.cell_vol[1]));
    assert(s.subrange(18, 20) =~= spec_u16_le_bytes(b.cell_vol[2]));
    assert(s.subrange(20, 22) =~= spec_u16_le_bytes(b.cell_vol[3]));
    assert(s.subrange(22, 24) =~= spec_u16_le_bytes(b.cell_vol[4]));
    assert(s.subrange(24, 26) =~= spec_u16_le_bytes(b.cell_vol[5]));
    assert(s.subrange(26, 28) =~= spec_u16_le_bytes(b.cell_vol[6]));
    assert(s.subrange(28, 30) =~= spec_u16_le_bytes(b.cell_vol[7]));
    assert(s.subrange(30, 32) =~= spec_u16_le_bytes(b.cell_vol[8]));
    assert(s.subrange(32, 34) =~= spec_u16_le_bytes(b.cell_vol[9]));
    crate::common::lemma_u16_le_round_trip(b.cell_vol[0]);
    crate::common::lemma_u16_le_round_trip(b.cell_vol[1]);
    crate::common::lemma_u16_le_round_trip(b.cell_vol[2]);
    crate::common::lemma_u16_le_round_trip(b.cell_vol[3]);
    crate::common::lemma_u16_le_round_trip(b.cell_vol[4]);
    crate::common::lemma_u16_le_round_trip(b.cell_vol[5]);
    crate::common::lemma_u16_le_round_trip(b.cell_vol[6]);
    crate::common::lemma_u16_le_round_trip(b.cell_vol[7]);
    crate::common::lemma_u16_le_round_trip(b.cell_vol[8]);
    crate::common::lemma_u16_le_round_trip(b.cell_vol[9]);
    let r = spec_bms_state_from_bytes(s);
    assert(r.bq_ntc =~= b.bq_ntc);
    assert(r.mcu_ntc =~= b.mcu_ntc);
    assert(r.cell_vol =~= b.cell_vol);
}

// ---------------------------------------------------------------------------
// Per-actuator command.
// ---------------------------------------------------------------------------

/// Command for one actuator. `q` and `dq` are plain-float bit patterns;
/// `tau` is fixed-point in 1/256 N.m steps; `kp` and `kd` are in tenths.
/// Serialized width: 27 bytes.
#[derive(Debug, Clone, Copy, PartialEq, Eq)]
pub struct MotorCmd {
    pub mode: u8,
    pub q: u32,
    pub dq: u32,
    pub tau: i32,
    pub kp: u16,
    pub kd: u16,
    pub reserve: [u32; 3],
}

/// The 27 wire bytes of a motor command.
pub open spec fn spec_motor_cmd_bytes(c: MotorCmd) -> Seq<u8> {
    seq![c.mode] + spec_u32_swapped_bytes(c.q) + spec_u32_swapped_bytes(c.dq) + spec_tau_bytes(
        c.tau as int,
    ) + spec_kp_bytes(c.kp as int) + spec_kd_bytes(c.kd as int) + spec_u32_le_bytes(c.reserve[0])
        + spec_u32_le_bytes(c.reserve[1]) + spec_u32_le_bytes(c.reserve[2])
}

/// The motor command read back from 27 wire bytes. The torque comes back as
/// the decoder's whole-number value rescaled to 1/256 steps.
pub open spec fn spec_motor_cmd_from_bytes(s: Seq<u8>) -> MotorCmd
    recommends
        s.len() == 27,
{
    MotorCmd {
        mode: s[0],
        q: spec_u32_from_swapped_bytes(s.subrange(1, 5)),
        dq: spec_u32_from_swapped_bytes(s.subrange(5, 9)),
        tau: (256 * spec_tau_from_bytes(s[9], s[10])) as i32,
        kp: spec_kp_from_bytes(s.subrange(11, 13)) as u16,
        kd: spec_kd_from_bytes(s.subrange(13, 15)) as u16,
        reserve: [
            spec_u32_from_le_bytes(s.subrange(15, 19)),
            spec_u32_from_le_bytes(s.subrange(19, 23)),
            spec_u32_from_le_bytes(s.subrange(23, 27)),
        ],
    }
}

impl MotorCmd {
    /// True when every quantized field lies in the range its wire form can
    /// carry faithfully: torque magnitude below 127 N.m, stiffness below
    /// 2048 and damping below 4096 units.
    pub open spec fn wf(self) -> bool {
        &&& -32768 <= self.tau <= 32511
        &&& self.kp <= 20479
        &&& self.kd <= 40959
    }

    pub fn new(mode: u8, q: u32, dq: u32, tau: i32, kp: u16, kd: u16, reserve: [u32; 3]) -> (c:
        MotorCmd)
        ensures
            c == (MotorCmd { mode, q, dq, tau, kp, kd, reserve }),
    {
        MotorCmd { mode, q, dq, tau, kp, kd, reserve }
    }

    /// Serializes this command into its 27 wire bytes. The torque must fit
    /// the 16-bit fixed-point wire range.
    pub fn get_bytes(&self) -> (out: Vec<u8>)
        requires
            -32768 <= self.tau <= 32767,
        ensures
            out@ == spec_motor_cmd_bytes(*self),
            out@.len() == 27,
    {
        let mut bytes: Vec<u8> = Vec::new();
        bytes.push(self.mode);
        let qb = float_to_hex(self.q);
        bytes.extend_from_slice(qb.as_slice());
        let dqb = float_to_hex(self.dq);
        bytes.extend_from_slice(dqb.as_slice());
        let tb = tau_to_hex(self.tau as i16);
        bytes.extend_from_slice(tb.as_slice());
        let kpb = kp_to_hex(self.kp);
        bytes.extend_from_slice(kpb.as_slice());
        let kdb = kd_to_hex(self.kd);
        bytes.extend_from_slice(kdb.as_slice());
        let r0 = u32_to_le(self.reserve[0]);
        bytes.extend_from_slice(r0.as_slice());
        let r1 = u32_to_le(self.reserve[1]);
        bytes.extend_from_slice(r1.as_slice());
        let r2 = u32_to_le(self.reserve[2]);
        bytes.extend_from_slice(r2.as_slice());
        assert(bytes@ =~= spec_motor_cmd_bytes(*self));
        bytes
    }

    /// Deserializes a motor command from a slice of exactly 27 bytes.
    pub fn from_bytes(data: &[u8]) -> (r: Result<MotorCmd, CodecError>)
        ensures
            data@.len() == 27 ==> r == Ok::<MotorCmd, CodecError>(
                spec_motor_cmd_from_bytes(data@),
            ),
            data@.len() != 27 ==> r == Err::<MotorCmd, CodecError>(CodecError::LengthMismatch),
    {
        if data.len() != 27 {
            return Err(CodecError::LengthMismatch);
        }
        Ok(read_motor_cmd(data))
    }
}

/// Reads one 27-byte motor-command chunk.
fn read_motor_cmd(data: &[u8]) -> (c: MotorCmd)
    requires
        data@.len() == 27,
    ensures
        c == spec_motor_cmd_from_bytes(data@),
{
    let tau_whole = hex_to_tau(&data[9..11]);
    assert(-130 <= spec_tau_from_bytes(data@[9], data@[10]) <= 127);
    let c = MotorCmd {
        mode: data[0],
        q: hex_to_float(&data[1..5]),
        dq: hex_to_float(&data[5..9]),
        tau: tau_whole * 256,
        kp: hex_to_kp(&data[11..13]),
        kd: hex_to_kd(&data[13..15]),
        reserve: [
            u32_from_le(data[15], data[16], data[17], data[18]),
            u32_from_le(data[19], data[20], data[21], data[22]),
            u32_from_le(data[23], data[24], data[25], data[26]),
        ],
    };
    let ghost m = spec_motor_cmd_from_bytes(data@);
    proof {
        assert(data@.subrange(9, 11)[0] == data@[9] && data@.subrange(9, 11)[1] == data@[10]);
        assert(data@.subrange(15, 19) =~= seq![data@[15], data@[16], data@[17], data@[18]]);
        assert(data@.subrange(19, 23) =~= seq![data@[19], data@[20], data@[21], data@[22]]);
        assert(data@.subrange(23, 27) =~= seq![data@[23], data@[24], data@[25], data@[26]]);
        assert(c.reserve =~= m.reserve);
    }
    c
}

/// Round trip of one actuator command (all valid commands): mode, angle,
/// velocity, reserve words, stiffness and damping come back exactly; the
/// torque comes back within one whole-number step. Fractional torques just
/// below zero are the one exception: there the decoder's sign convention
/// rounds upward across zero.
pub proof fn lemma_motor_cmd_round_trip(c: MotorCmd)
    requires
        c.wf(),
        !(-128 <= c.tau <= -1),
    ensures
        spec_motor_cmd_from_bytes(spec_motor_cmd_bytes(c)).mode == c.mode,
        spec_motor_cmd_from_bytes(spec_motor_cmd_bytes(c)).q == c.q,
        spec_motor_cmd_from_bytes(spec_motor_cmd_bytes(c)).dq == c.dq,
        spec_motor_cmd_from_bytes(spec_motor_cmd_bytes(c)).kp == c.kp,
        spec_motor_cmd_from_bytes(spec_motor_cmd_bytes(c)).kd == c.kd,
        spec_motor_cmd_from_bytes(spec_motor_cmd_bytes(c)).reserve == c.reserve,
        -256 <= spec_motor_cmd_from_bytes(spec_motor_cmd_bytes(c)).tau - c.tau <= 256,
{
    let s = spec_motor_cmd_bytes(c);
    assert(s.len() == 27);
    assert(s.subrange(1, 5) =~= spec_u32_swapped_bytes(c.q));
    assert(s.subrange(5, 9) =~= spec_u32_swapped_bytes(c.dq));
    assert(s[9] == spec_tau_bytes(c.tau as int)[0] && s[10] == spec_tau_bytes(c.tau as int)[1]);
    assert(s.subrange(11, 13) =~= spec_kp_bytes(c.kp as int));
    assert(s.subrange(13, 15) =~= spec_kd_bytes(c.kd as int));
    assert(s.subrange(15, 19) =~= spec_u32_le_bytes(c.reserve[0]));
    assert(s.subrange(19, 23) =~= spec_u32_le_bytes(c.reserve[1]));
    assert(s.subrange(23, 27) =~= spec_u32_le_bytes(c.reserve[2]));
    crate::common::lemma_u32_swapped_round_trip(c.q);
    crate::common::lemma_u32_swapped_round_trip(c.dq);
    crate::common::lemma_tau_round_trip(c.tau as int);
    crate::common::lemma_kp_round_trip(c.kp as int);
    crate::common::lemma_kd_round_trip(c.kd as int);
    crate::common::lemma_u32_le_round_trip(c.reserve[0]);
    crate::common::lemma_u32_le_round_trip(c.reserve[1]);
    crate::common::lemma_u32_le_round_trip(c.reserve[2]);
    let r = spec_motor_cmd_from_bytes(s);
    assert(r.reserve =~= c.reserve);
}

// ---------------------------------------------------------------------------
// The 20-slot motor-command array.
// ---------------------------------------------------------------------------

/// The low-level tier's full actuator command: 20 slots in fixed order, the
/// 12 named leg joints first, then 8 reserved slots. Serialized width:
/// 20 x 27 = 540 bytes.
#[derive(Debug, Clone, PartialEq, Eq)]
pub struct MotorCmdArray {
    pub cmds: Vec<MotorCmd>,
}

/// The default slot content: servo mode, all targets zero.
pub open spec fn spec_default_motor_cmd() -> MotorCmd {
    MotorCmd { mode: 0x0A, q: 0, dq: 0, tau: 0, kp: 0, kd: 0, reserve: [0u32, 0u32, 0u32] }
}

/// The 540 wire bytes of a whole motor array: the 20 slot encodings
/// concatenated in slot order.
pub open spec fn spec_motor_array_bytes(a: MotorCmdArray) -> Seq<u8>
    recommends
        a.wf(),
{
    Seq::new(540, |k: int| spec_motor_cmd_bytes(a.cmds@[k / 27])[k % 27])
}

impl MotorCmdArray {
    /// A motor array always holds exactly 20 slots.
    pub open spec fn wf(self) -> bool {
        self.cmds@.len() == 20
    }

    /// True when every slot's torque fits the 16-bit fixed-point wire range.
    pub open spec fn encodable(self) -> bool {
        &&& self.wf()
        &&& forall|i: int| 0 <= i < 20 ==> -32768 <= (#[trigger] self.cmds@[i]).tau <= 32767
    }

    /// A fresh array: every slot in servo mode with zero targets.
    pub fn new() -> (r: MotorCmdArray)
        ensures
            r.wf(),
            r.encodable(),
            forall|i: int| 0 <= i < 20 ==> r.cmds@[i] == spec_default_motor_cmd(),
    {
        let default_motor_cmd = MotorCmd {
            mode: 0x0A,
            q: 0,
            dq: 0,
            tau: 0,
            kp: 0,
            kd: 0,
            reserve: [0u32, 0u32, 0u32],
        };
        assert(default_motor_cmd == spec_default_motor_cmd());
        let mut cmds: Vec<MotorCmd> = Vec::new();
        let mut i: usize = 0;
        while i < 20
            invariant
                cmds@.len() == i,
                0 <= i <= 20,
                default_motor_cmd == spec_default_motor_cmd(),
                forall|j: int| 0 <= j < i ==> cmds@[j] == spec_default_motor_cmd(),
            decreases 20 - i,
        {
            cmds.push(default_motor_cmd);
            i = i + 1;
        }
        MotorCmdArray { cmds }
    }

    /// Replaces the command in one actuator slot. An index at or beyond 20
    /// is reported as invalid and leaves the array untouched.
    pub fn set_motor_cmd(&mut self, motor_index: usize, cmd: MotorCmd) -> (r: Result<
        (),
        CodecError,
    >)
        ensures
            motor_index < 20 && old(self).wf() ==> r == Ok::<(), CodecError>(())
                && final(self).cmds@ == old(self).cmds@.update(motor_index as int, cmd),
            motor_index >= 20 || !old(self).wf() ==> r == Err::<(), CodecError>(
                CodecError::InvalidIndex,
            ) && *final(self) == *old(self),
    {
        if motor_index < 20 && self.cmds.len() == 20 {
            self.cmds[motor_index] = cmd;
            Ok(())
        } else {
            Err(CodecError::InvalidIndex)
        }
    }

    /// Serializes all 20 slots in order into the 540 wire bytes.
    pub fn get_bytes(&self) -> (out: Vec<u8>)
        requires
            self.encodable(),
        ensures
            out@.len() == 540,
            out@ == spec_motor_array_bytes(*self),
            forall|i: int|
                0 <= i < 20 ==> out@.subrange(27 * i, 27 * i + 27) == spec_motor_cmd_bytes(
                    self.cmds@[i],
                ),
    {
        let mut bytes: Vec<u8> = Vec::new();
        let mut i: usize = 0;
        while i < 20
            invariant
                self.encodable(),
                bytes@.len() == 27 * i,
                0 <= i <= 20,
                forall|j: int|
                    0 <= j < i ==> bytes@.subrange(27 * j, 27 * j + 27) == spec_motor_cmd_bytes(
                        self.cmds@[j],
                    ),
            decreases 20 - i,
        {
            let ghost prev = bytes@;
            let mut b = self.cmds[i].get_bytes();
            bytes.append(&mut b);
            proof {
                assert forall|j: int|
                    0 <= j < i + 1 implies bytes@.subrange(27 * j, 27 * j + 27)
                    == spec_motor_cmd_bytes(self.cmds@[j]) by {
                    if j < i {
                        assert(bytes@.subrange(27 * j, 27 * j + 27) =~= prev.subrange(
                            27 * j,
                            27 * j + 27,
                        ));
                    } else {
                        assert(bytes@.subrange(27 * j, 27 * j + 27) =~= spec_motor_cmd_bytes(
                            self.cmds@[j],
                        ));
                    }
                }
            }
            i = i + 1;
        }
        proof {
            assert forall|k: int| 0 <= k < 540 implies bytes@[k] == spec_motor_array_bytes(
                *self,
            )[k] by {
                let i = k / 27;
                assert(0 <= i < 20 && 0 <= k - 27 * i < 27 && k - 27 * i == k % 27)
                    by (nonlinear_arith)
                    requires
                        0 <= k < 540,
                        i == k / 27,
                ;
                assert(bytes@.subrange(27 * i, 27 * i + 27) == spec_motor_cmd_bytes(
                    self.cmds@[i],
                ));
                assert(bytes@.subrange(27 * i, 27 * i + 27)[k - 27 * i] == bytes@[k]);
            }
            assert(bytes@ =~= spec_motor_array_bytes(*self));
        }
        bytes
    }

    /// Overwrites all 20 slots from a slice of exactly 540 bytes.
    pub fn from_bytes(&mut self, data: &[u8]) -> (r: Result<(), CodecError>)
        ensures
            data@.len() == 540 ==> r == Ok::<(), CodecError>(()) && final(self).cmds@.len() == 20
                && forall|i: int|
                0 <= i < 20 ==> final(self).cmds@[i] == spec_motor_cmd_from_bytes(
                    data@.subrange(27 * i, 27 * i + 27),
                ),
            data@.len() != 540 ==> r == Err::<(), CodecError>(CodecError::LengthMismatch)
                && *final(self) == *old(self),
    {
        if data.len() != 540 {
            return Err(CodecError::LengthMismatch);
        }
        let mut cmds: Vec<MotorCmd> = Vec::new();
        let mut i: usize = 0;
        while i < 20
            invariant
                data@.len() == 540,
                cmds@.len() == i,
                0 <= i <= 20,
                forall|j: int|
                    0 <= j < i ==> cmds@[j] == spec_motor_cmd_from_bytes(
                        data@.subrange(27 * j, 27 * j + 27),
                    ),
            decreases 20 - i,
        {
            let chunk = &data[27 * i..27 * i + 27];
            let c = read_motor_cmd(chunk);
            cmds.push(c);
            i = i + 1;
        }
        self.cmds = cmds;
        Ok(())
    }
}

} // verus!
