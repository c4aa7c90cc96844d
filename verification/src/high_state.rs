//! The high-level telemetry packet: aggregate robot state (inertial sample,
//! per-actuator states, battery state, foot forces, odometry). Fixed total
//! length 1087 bytes; the checksum covers the first 1080 bytes and sits in
//! the trailing four. Several fields are separated by multi-byte slack that
//! the wire layout fixes; the slack bytes write as zero and are ignored on
//! parse.

use vstd::prelude::*;

use crate::CodecError;
use crate::common::CrcStatus;
use crate::common::check_crc_bytes;
use crate::common::encrypt_crc;
use crate::common::float_to_hex;
use crate::common::gen_crc;
use crate::common::hex_to_float;
use crate::common::spec_crc_status;
use crate::common::spec_encrypt_crc;
use crate::common::spec_gen_crc;
use crate::common::spec_plain_crc_bytes;
use crate::common::spec_u16_from_le_bytes;
use crate::common::spec_u16_le_bytes;
use crate::common::spec_u32_from_swapped_bytes;
use crate::common::spec_u32_swapped_bytes;
use crate::common::u16_from_le;
use crate::common::u16_to_le;
use crate::common::u32_to_le;
use crate::complex::BmsState;
use crate::complex::Cartesian;
use crate::complex::Imu;
use crate::complex::MotorState;
use crate::complex::spec_bms_state_bytes;
use crate::complex::spec_bms_state_from_bytes;
use crate::complex::spec_cartesian_bytes;
use crate::complex::spec_cartesian_from_bytes;
use crate::complex::spec_imu_bytes;
use crate::complex::spec_imu_from_bytes;
use crate::complex::spec_motor_state_bytes;
use crate::complex::spec_motor_state_from_bytes;
use crate::enums::GaitType;
use crate::enums::MotorModeHigh;
use crate::enums::spec_gait_byte;
use crate::enums::spec_gait_from_byte;
use crate::enums::spec_mode_high_byte;
use crate::enums::spec_mode_high_from_byte;

verus! {

/// Total serialized length of a high-level state packet.
pub const HIGH_STATE_LENGTH: usize = 1087;

/// How many leading bytes the checksum covers.
pub const HIGH_STATE_CRC_COVERED: usize = 1080;

/// High-level telemetry. Float-valued fields hold plain-float bit
/// patterns; the 20 per-actuator states are kept in slot order.
#[derive(Debug, Clone, PartialEq, Eq)]
pub struct HighState {
    pub head: [u8; 2],
    pub level_flag: u8,
    pub frame_reserve: u8,
    pub sn: [u8; 8],
    pub version: [u8; 8],
    pub band_width: [u8; 2],
    pub imu: Imu,
    pub motor_state: Vec<MotorState>,
    pub bms: BmsState,
    pub foot_force: [u16; 4],
    pub foot_force_est: [u16; 4],
    pub mode: MotorModeHigh,
    pub progress: u32,
    pub gait_type: GaitType,
    pub foot_raise_height: u32,
    pub position: [u32; 2],
    pub body_height: u32,
    pub velocity: [u32; 3],
    pub yaw_speed: u32,
    pub range_obstacle: [u32; 4],
    pub foot_position_to_body: [Cartesian; 4],
    pub foot_speed_to_body: [Cartesian; 4],
    pub wireless_remote: [u8; 40],
    pub reserve: [u8; 4],
    pub crc: [u8; 4],
}

/// The 640 wire bytes of the 20 per-actuator states, in slot order.
pub open spec fn spec_motor_states_bytes(ms: Seq<MotorState>) -> Seq<u8>
    recommends
        ms.len() == 20,
{
    Seq::new(640, |k: int| spec_motor_state_bytes(ms[k / 32])[k % 32])
}

/// The zeroed motor state every fresh telemetry value starts from.
pub open spec fn spec_default_motor_state() -> MotorState {
    MotorState {
        mode: 0,
        q: 0,
        dq: 0,
        ddq: 0,
        tau_est: 0,
        q_raw: 0,
        dq_raw: 0,
        ddq_raw: 0,
        temperature: 0,
        reserve: [0u8, 0u8],
    }
}

/// The first 1083 bytes of a serialized high-level state: every field at
/// its fixed offset, with the layout's slack bytes as zero.
pub open spec fn spec_high_state_payload(s: HighState) -> Seq<u8> {
    s.head@ + seq![s.level_flag, s.frame_reserve] + s.sn@ + s.version@ + s.band_width@
        + spec_imu_bytes(s.imu) + spec_motor_states_bytes(s.motor_state@) + Seq::new(
        120,
        |j: int| 0u8,
    ) + spec_bms_state_bytes(s.bms) + spec_u16_le_bytes(s.foot_force[0]) + spec_u16_le_bytes(
        s.foot_force[1],
    ) + spec_u16_le_bytes(s.foot_force[2]) + spec_u16_le_bytes(s.foot_force[3])
        + spec_u16_le_bytes(s.foot_force_est[0]) + spec_u16_le_bytes(s.foot_force_est[1])
        + spec_u16_le_bytes(s.foot_force_est[2]) + spec_u16_le_bytes(s.foot_force_est[3]) + seq![
        spec_mode_high_byte(s.mode),
    ] + spec_u32_swapped_bytes(s.progress) + seq![spec_gait_byte(s.gait_type)]
        + spec_u32_swapped_bytes(s.foot_raise_height) + spec_u32_swapped_bytes(s.position[0])
        + spec_u32_swapped_bytes(s.position[1]) + seq![0u8, 0u8, 0u8, 0u8]
        + spec_u32_swapped_bytes(s.body_height) + spec_u32_swapped_bytes(s.velocity[0])
        + spec_u32_swapped_bytes(s.velocity[1]) + spec_u32_swapped_bytes(s.velocity[2])
        + spec_u32_swapped_bytes(s.yaw_speed) + spec_u32_swapped_bytes(s.range_obstacle[0])
        + spec_u32_swapped_bytes(s.range_obstacle[1]) + spec_u32_swapped_bytes(
        s.range_obstacle[2],
    ) + spec_u32_swapped_bytes(s.range_obstacle[3]) + spec_cartesian_bytes(
        s.foot_position_to_body[0],
    ) + spec_cartesian_bytes(s.foot_position_to_body[1]) + spec_cartesian_bytes(
        s.foot_position_to_body[2],
    ) + spec_cartesian_bytes(s.foot_position_to_body[3]) + spec_cartesian_bytes(
        s.foot_speed_to_body[0],
    ) + spec_cartesian_bytes(s.foot_speed_to_body[1]) + spec_cartesian_bytes(
        s.foot_speed_to_body[2],
    ) + spec_cartesian_bytes(s.foot_speed_to_body[3]) + s.wireless_remote@ + s.reserve@
}

/// A whole serialized high-level state: the payload followed by the
/// checksum of the covered prefix, obfuscated when `encrypt` is set.
pub open spec fn spec_high_state_bytes(s: HighState, encrypt: bool) -> Seq<u8> {
    let body = spec_high_state_payload(s);
    let crc = spec_gen_crc(body.take(HIGH_STATE_CRC_COVERED as int));
    body + if encrypt {
        spec_encrypt_crc(crc)
    } else {
        spec_plain_crc_bytes(crc)
    }
}

impl HighState {
    /// A telemetry value always holds exactly 20 per-actuator states.
    pub open spec fn wf(self) -> bool {
        self.motor_state@.len() == 20
    }

    /// A fresh, zeroed telemetry value.
    pub fn new() -> (r: HighState)
        ensures
            r.wf(),
            forall|i: int| 0 <= i < 20 ==> r.motor_state@[i] == spec_default_motor_state(),
            r.head@ == seq![0u8, 0u8],
            r.level_flag == 0,
            r.frame_reserve == 0,
            r.sn@ =~= Seq::new(8, |i: int| 0u8),
            r.version@ =~= Seq::new(8, |i: int| 0u8),
            r.band_width@ == seq![0u8, 0u8],
            r.mode == MotorModeHigh::Idle,
            r.gait_type == GaitType::Idle,
            r.progress == 0,
            r.foot_raise_height == 0,
            r.body_height == 0,
            r.yaw_speed == 0,
            r.wireless_remote@ =~= Seq::new(40, |i: int| 0u8),
            r.reserve@ =~= Seq::new(4, |i: int| 0u8),
            r.crc@ =~= Seq::new(4, |i: int| 0u8),
    {
        let default_state = MotorState {
            mode: 0,
            q: 0,
            dq: 0,
            ddq: 0,
            tau_est: 0,
            q_raw: 0,
            dq_raw: 0,
            ddq_raw: 0,
            temperature: 0,
            reserve: [0, 0],
        };
        assert(default_state == spec_default_motor_state());
        let mut motor_state: Vec<MotorState> = Vec::new();
        let mut i: usize = 0;
        while i < 20
            invariant
                motor_state@.len() == i,
                0 <= i <= 20,
                default_state == spec_default_motor_state(),
                forall|j: int| 0 <= j < i ==> motor_state@[j] == spec_default_motor_state(),
            decreases 20 - i,
        {
            motor_state.push(default_state);
            i = i + 1;
        }
        let r = HighState {
            head: [0, 0],
            level_flag: 0,
            frame_reserve: 0,
            sn: [0; 8],
            version: [0; 8],
            band_width: [0; 2],
            imu: Imu {
                quaternion: [0, 0, 0, 0],
                gyroscope: [0, 0, 0],
                accelerometer: [0, 0, 0],
                rpy: [0, 0, 0],
                temperature: 0,
            },
            motor_state,
            bms: BmsState {
                version_h: 0,
                version_l: 0,
                bms_status: 0,
                soc: 0,
                current: 0,
                cycle: 0,
                bq_ntc: [0, 0],
                mcu_ntc: [0, 0],
                cell_vol: [0; 10],
            },
            foot_force: [0; 4],
            foot_force_est: [0; 4],
            mode: MotorModeHigh::Idle,
            progress: 0,
            gait_type: GaitType::Idle,
            foot_raise_height: 0,
            position: [0; 2],
            body_height: 0,
            velocity: [0; 3],
            yaw_speed: 0,
            range_obstacle: [0; 4],
            foot_position_to_body: [Cartesian { x: 0, y: 0, z: 0 }; 4],
            foot_speed_to_body: [Cartesian { x: 0, y: 0, z: 0 }; 4],
            wireless_remote: [0; 40],
            reserve: [0; 4],
            crc: [0; 4],
        };
        assert(r.head@ =~= seq![0u8, 0u8]);
        assert(r.band_width@ =~= seq![0u8, 0u8]);
        r
    }

    /// Decodes a 34-byte slice into a battery-management state.
    pub fn data_to_bms_state(&self, data: &[u8]) -> (r: Result<BmsState, CodecError>)
        ensures
            data@.len() == 34 ==> r == Ok::<BmsState, CodecError>(
                spec_bms_state_from_bytes(data@),
            ),
            data@.len() != 34 ==> r == Err::<BmsState, CodecError>(CodecError::LengthMismatch),
    {
        BmsState::from_bytes(data)
    }

    /// Decodes a 53-byte slice into an inertial sample.
    pub fn data_to_imu(&self, data: &[u8]) -> (r: Result<Imu, CodecError>)
        ensures
            data@.len() == 53 ==> r == Ok::<Imu, CodecError>(spec_imu_from_bytes(data@)),
            data@.len() != 53 ==> r == Err::<Imu, CodecError>(CodecError::LengthMismatch),
    {
        Imu::from_bytes(data)
    }

    /// Decodes a 32-byte slice into a per-actuator state.
    pub fn data_to_motor_state(&self, data: &[u8]) -> (r: Result<MotorState, CodecError>)
        ensures
            data@.len() == 32 ==> r == Ok::<MotorState, CodecError>(
                spec_motor_state_from_bytes(data@),
            ),
            data@.len() != 32 ==> r == Err::<MotorState, CodecError>(CodecError::LengthMismatch),
    {
        MotorState::from_bytes(data)
    }

    /// Overwrites every field of this telemetry value from a 1087-byte
    /// buffer and reports how the trailing checksum bytes relate to the
    /// covered region. A checksum mismatch is not a failure: the state is
    /// still overwritten and the mismatch reported alongside.
    #[verifier::rlimit(100)]
    pub fn parse_data(&mut self, data: &[u8]) -> (r: Result<CrcStatus, CodecError>)
        ensures
            data@.len() != HIGH_STATE_LENGTH ==> r == Err::<CrcStatus, CodecError>(
                CodecError::LengthMismatch,
            ) && *final(self) == *old(self),
            data@.len() == HIGH_STATE_LENGTH ==> r is Ok && {
                let st = r->Ok_0;
                &&& final(self).head@ == data@.subrange(0, 2)
                &&& final(self).level_flag == data@[2]
                &&& final(self).frame_reserve == data@[3]
                &&& final(self).sn@ == data@.subrange(4, 12)
                &&& final(self).version@ == data@.subrange(12, 20)
                &&& final(self).band_width@ == data@.subrange(20, 22)
                &&& final(self).imu == spec_imu_from_bytes(data@.subrange(22, 75))
                &&& final(self).motor_state@.len() == 20
                &&& forall|i: int|
                    0 <= i < 20 ==> final(self).motor_state@[i] == spec_motor_state_from_bytes(
                        data@.subrange(75 + 32 * i, 107 + 32 * i),
                    )
                &&& final(self).bms == spec_bms_state_from_bytes(data@.subrange(835, 869))
                &&& final(self).foot_force@ == seq![
                    spec_u16_from_le_bytes(data@.subrange(869, 871)),
                    spec_u16_from_le_bytes(data@.subrange(871, 873)),
                    spec_u16_from_le_bytes(data@.subrange(873, 875)),
                    spec_u16_from_le_bytes(data@.subrange(875, 877)),
                ]
                &&& final(self).foot_force_est@ == seq![
                    spec_u16_from_le_bytes(data@.subrange(877, 879)),
                    spec_u16_from_le_bytes(data@.subrange(879, 881)),
                    spec_u16_from_le_bytes(data@.subrange(881, 883)),
                    spec_u16_from_le_bytes(data@.subrange(883, 885)),
                ]
                &&& final(self).mode == spec_mode_high_from_byte(data@[885])
                &&& final(self).progress == spec_u32_from_swapped_bytes(
                    data@.subrange(886, 890),
                )
                &&& final(self).gait_type == spec_gait_from_byte(data@[890])
                &&& final(self).foot_raise_height == spec_u32_from_swapped_bytes(
                    data@.subrange(891, 895),
                )
                &&& final(self).position@ == seq![
                    spec_u32_from_swapped_bytes(data@.subrange(895, 899)),
                    spec_u32_from_swapped_bytes(data@.subrange(899, 903)),
                ]
                &&& final(self).body_height == spec_u32_from_swapped_bytes(
                    data@.subrange(907, 911),
                )
                &&& final(self).velocity@ == seq![
                    spec_u32_from_swapped_bytes(data@.subrange(911, 915)),
                    spec_u32_from_swapped_bytes(data@.subrange(915, 919)),
                    spec_u32_from_swapped_bytes(data@.subrange(919, 923)),
                ]
                &&& final(self).yaw_speed == spec_u32_from_swapped_bytes(
                    data@.subrange(923, 927),
                )
                &&& final(self).range_obstacle@ == seq![
                    spec_u32_from_swapped_bytes(data@.subrange(927, 931)),
                    spec_u32_from_swapped_bytes(data@.subrange(931, 935)),
                    spec_u32_from_swapped_bytes(data@.subrange(935, 939)),
                    spec_u32_from_swapped_bytes(data@.subrange(939, 943)),
                ]
                &&& final(self).foot_position_to_body@ == seq![
                    spec_cartesian_from_bytes(data@.subrange(943, 955)),
                    spec_cartesian_from_bytes(data@.subrange(955, 967)),
                    spec_cartesian_from_bytes(data@.subrange(967, 979)),
                    spec_cartesian_from_bytes(data@.subrange(979, 991)),
                ]
                &&& final(self).foot_speed_to_body@ == seq![
                    spec_cartesian_from_bytes(data@.subrange(991, 1003)),
                    spec_cartesian_from_bytes(data@.subrange(1003, 1015)),
                    spec_cartesian_from_bytes(data@.subrange(1015, 1027)),
                    spec_cartesian_from_bytes(data@.subrange(1027, 1039)),
                ]
                &&& final(self).wireless_remote@ == data@.subrange(1039, 1079)
                &&& final(self).reserve@ == data@.subrange(1079, 1083)
                &&& final(self).crc@ == data@.subrange(1083, 1087)
                &&& st == spec_crc_status(
                    spec_gen_crc(data@.subrange(0, HIGH_STATE_CRC_COVERED as int)),
                    data@.subrange(1083, 1087),
                )
            },
    {
        if data.len() != HIGH_STATE_LENGTH {
            return Err(CodecError::LengthMismatch);
        }
        let imu = match Imu::from_bytes(&data[22..75]) {
            Ok(v) => v,
            Err(_) => {
                // A 53-byte slice is never rejected; this arm is dead.
                proof {
                    assert(false);
                }
                return Err(CodecError::LengthMismatch);
            },
        };
        let mut motor_state: Vec<MotorState> = Vec::new();
        let mut i: usize = 0;
        while i < 20
            invariant
                data@.len() == 1087,
                motor_state@.len() == i,
                0 <= i <= 20,
                forall|j: int|
                    0 <= j < i ==> motor_state@[j] == spec_motor_state_from_bytes(
                        data@.subrange(75 + 32 * j, 107 + 32 * j),
                    ),
            decreases 20 - i,
        {
            let m = read_motor_state(data, 75 + 32 * i);
            motor_state.push(m);
            i = i + 1;
        }
        let bms = match BmsState::from_bytes(&data[835..869]) {
            Ok(v) => v,
            Err(_) => {
                // A 34-byte slice is never rejected; this arm is dead.
                proof {
                    assert(false);
                }
                return Err(CodecError::LengthMismatch);
            },
        };
        let hs = HighState {
            head: [data[0], data[1]],
            level_flag: data[2],
            frame_reserve: data[3],
            sn: [data[4], data[5], data[6], data[7], data[8], data[9], data[10], data[11]],
            version: [
                data[12],
                data[13],
                data[14],
                data[15],
                data[16],
                data[17],
                data[18],
                data[19],
            ],
            band_width: [data[20], data[21]],
            imu,
            motor_state,
            bms,
            foot_force: read_u16_quad(data, 869),
            foot_force_est: read_u16_quad(data, 877),
            mode: MotorModeHigh::from_u8(data[885]),
            progress: hex_to_float(&data[886..890]),
            gait_type: GaitType::from_u8(data[890]),
            foot_raise_height: hex_to_float(&data[891..895]),
            position: [hex_to_float(&data[895..899]), hex_to_float(&data[899..903])],
            body_height: hex_to_float(&data[907..911]),
            velocity: [
                hex_to_float(&data[911..915]),
                hex_to_float(&data[915..919]),
                hex_to_float(&data[919..923]),
            ],
            yaw_speed: hex_to_float(&data[923..927]),
            range_obstacle: [
                hex_to_float(&data[927..931]),
                hex_to_float(&data[931..935]),
                hex_to_float(&data[935..939]),
                hex_to_float(&data[939..943]),
            ],
            foot_position_to_body: read_cartesian_quad(data, 943),
            foot_speed_to_body: read_cartesian_quad(data, 991),
            wireless_remote: read_bytes_40(data, 1039),
            reserve: [data[1079], data[1080], data[1081], data[1082]],
            crc: [data[1083], data[1084], data[1085], data[1086]],
        };
        *self = hs;
        let crc_val = gen_crc(&data[0..HIGH_STATE_CRC_COVERED]);
        let st = check_crc_bytes(data[1083], data[1084], data[1085], data[1086], crc_val);
        proof {
            assert(self.head@ =~= data@.subrange(0, 2));
            assert(self.sn@ =~= data@.subrange(4, 12));
            assert(self.version@ =~= data@.subrange(12, 20));
            assert(self.band_width@ =~= data@.subrange(20, 22));
            assert(self.position@ =~= seq![
                spec_u32_from_swapped_bytes(data@.subrange(895, 899)),
                spec_u32_from_swapped_bytes(data@.subrange(899, 903)),
            ]);
            assert(self.velocity@ =~= seq![
                spec_u32_from_swapped_bytes(data@.subrange(911, 915)),
                spec_u32_from_swapped_bytes(data@.subrange(915, 919)),
                spec_u32_from_swapped_bytes(data@.subrange(919, 923)),
            ]);
            assert(self.range_obstacle@ =~= seq![
                spec_u32_from_swapped_bytes(data@.subrange(927, 931)),
                spec_u32_from_swapped_bytes(data@.subrange(931, 935)),
                spec_u32_from_swapped_bytes(data@.subrange(935, 939)),
                spec_u32_from_swapped_bytes(data@.subrange(939, 943)),
            ]);
            assert(self.reserve@ =~= data@.subrange(1079, 1083));
            assert(self.crc@ =~= data@.subrange(1083, 1087));
            assert(seq![data@[1083], data@[1084], data@[1085], data@[1086]] =~= data@.subrange(
                1083,
                1087,
            ));
        }
        Ok(st)
    }
}

/// Reads four consecutive little-endian 16-bit values at a fixed offset.
fn read_u16_quad(data: &[u8], off: usize) -> (r: [u16; 4])
    requires
        off + 8 <= data@.len(),
    ensures
        r@ == seq![
            spec_u16_from_le_bytes(data@.subrange(off as int, off as int + 2)),
            spec_u16_from_le_bytes(data@.subrange(off as int + 2, off as int + 4)),
            spec_u16_from_le_bytes(data@.subrange(off as int + 4, off as int + 6)),
            spec_u16_from_le_bytes(data@.subrange(off as int + 6, off as int + 8)),
        ],
{
    let len: usize = data.len();
    assert(off + 8 <= len);
    let r: [u16; 4] = [
        u16_from_le(data[off], data[off + 1]),
        u16_from_le(data[off + 2], data[off + 3]),
        u16_from_le(data[off + 4], data[off + 5]),
        u16_from_le(data[off + 6], data[off + 7]),
    ];
    proof {
        assert(data@.subrange(off as int, off as int + 2) =~= seq![
            data@[off as int],
            data@[off as int + 1],
        ]);
        assert(data@.subrange(off as int + 2, off as int + 4) =~= seq![
            data@[off as int + 2],
            data@[off as int + 3],
        ]);
        assert(data@.subrange(off as int + 4, off as int + 6) =~= seq![
            data@[off as int + 4],
            data@[off as int + 5],
        ]);
        assert(data@.subrange(off as int + 6, off as int + 8) =~= seq![
            data@[off as int + 6],
            data@[off as int + 7],
        ]);
        assert(r@ =~= seq![
            spec_u16_from_le_bytes(data@.subrange(off as int, off as int + 2)),
            spec_u16_from_le_bytes(data@.subrange(off as int + 2, off as int + 4)),
            spec_u16_from_le_bytes(data@.subrange(off as int + 4, off as int + 6)),
            spec_u16_from_le_bytes(data@.subrange(off as int + 6, off as int + 8)),
        ]);
    }
    r
}

/// Reads four consecutive 12-byte coordinates at a fixed offset.
fn read_cartesian_quad(data: &[u8], off: usize) -> (r: [Cartesian; 4])
    requires
        off + 48 <= data@.len(),
    ensures
        r@ == seq![
            spec_cartesian_from_bytes(data@.subrange(off as int, off as int + 12)),
            spec_cartesian_from_bytes(data@.subrange(off as int + 12, off as int + 24)),
            spec_cartesian_from_bytes(data@.subrange(off as int + 24, off as int + 36)),
            spec_cartesian_from_bytes(data@.subrange(off as int + 36, off as int + 48)),
        ],
{
    let len: usize = data.len();
    assert(off + 48 <= len);
    let r: [Cartesian; 4] = [
        read_cartesian(data, off),
        read_cartesian(data, off + 12),
        read_cartesian(data, off + 24),
        read_cartesian(data, off + 36),
    ];
    proof {
        assert(r@ =~= seq![
            spec_cartesian_from_bytes(data@.subrange(off as int, off as int + 12)),
            spec_cartesian_from_bytes(data@.subrange(off as int + 12, off as int + 24)),
            spec_cartesian_from_bytes(data@.subrange(off as int + 24, off as int + 36)),
            spec_cartesian_from_bytes(data@.subrange(off as int + 36, off as int + 48)),
        ]);
    }
    r
}

/// Copies forty raw bytes at a fixed offset.
fn read_bytes_40(data: &[u8], off: usize) -> (r: [u8; 40])
    requires
        off + 40 <= data@.len(),
    ensures
        r@ == data@.subrange(off as int, off as int + 40),
{
    let len: usize = data.len();
    assert(off + 40 <= len);
    let mut r: [u8; 40] = [0; 40];
    let mut i: usize = 0;
    while i < 40
        invariant
            0 <= i <= 40,
            off + 40 <= data@.len(),
            off + 40 <= usize::MAX,
            r@.len() == 40,
            forall|j: int| 0 <= j < i ==> r@[j] == data@[off + j],
        decreases 40 - i,
    {
        r[i] = data[off + i];
        i = i + 1;
    }
    proof {
        assert(r@ =~= data@.subrange(off as int, off as int + 40));
    }
    r
}

impl HighState {
    /// Serializes this telemetry value into its 1087 wire bytes, appending
    /// the checksum of the covered prefix, obfuscated when `encrypt` is
    /// set. Slack bytes write as zero.
    #[verifier::rlimit(100)]
    pub fn build_state(&self, encrypt: bool) -> (r: Vec<u8>)
        requires
            self.wf(),
        ensures
            r@ == spec_high_state_bytes(*self, encrypt),
            r@.len() == HIGH_STATE_LENGTH,
    {
        let ghost pl = spec_high_state_payload(*self);
        proof {
            assert(pl.len() == 1083);
        }
        let mut cmd: Vec<u8> = Vec::new();
        cmd.push(self.head[0]);
        cmd.push(self.head[1]);
        cmd.push(self.level_flag);
        cmd.push(self.frame_reserve);
        proof {
            assert(cmd@ =~= pl.take(4));
        }
        let mut i: usize = 0;
        while i < 8
            invariant
                0 <= i <= 8,
                cmd@.len() == 4 + i,
                pl == spec_high_state_payload(*self),
                cmd@ =~= pl.take(4 + i as int),
            decreases 8 - i,
        {
            cmd.push(self.sn[i]);
            proof {
                assert(cmd@ =~= pl.take(4 + (i + 1) as int));
            }
            i = i + 1;
        }
        let mut i: usize = 0;
        while i < 8
            invariant
                0 <= i <= 8,
                cmd@.len() == 12 + i,
                pl == spec_high_state_payload(*self),
                cmd@ =~= pl.take(12 + i as int),
            decreases 8 - i,
        {
            cmd.push(self.version[i]);
            proof {
                assert(cmd@ =~= pl.take(12 + (i + 1) as int));
            }
            i = i + 1;
        }
        cmd.push(self.band_width[0]);
        cmd.push(self.band_width[1]);
        proof {
            assert(cmd@ =~= pl.take(22));
        }
        let mut imu_b = self.imu.get_bytes();
        cmd.append(&mut imu_b);
        proof {
            assert(cmd@ =~= pl.take(75));
        }
        let mut i: usize = 0;
        while i < 20
            invariant
                self.wf(),
                0 <= i <= 20,
                cmd@.len() == 75 + 32 * i,
                pl == spec_high_state_payload(*self),
                pl.len() == 1083,
                cmd@ =~= pl.take(75 + 32 * i as int),
            decreases 20 - i,
        {
            let mut b = self.motor_state[i].get_bytes();
            let ghost bv = b@;
            cmd.append(&mut b);
            proof {
                let lo = 75 + 32 * (i as int);
                assert forall|j: int| lo <= j < lo + 32 implies pl[j] == bv[j - lo] by {
                    let k = j - 75;
                    assert(k / 32 == i as int && k % 32 == j - lo) by (nonlinear_arith)
                        requires
                            k == j - 75,
                            lo == 75 + 32 * (i as int),
                            lo <= j < lo + 32,
                            0 <= i < 20,
                    ;
                    assert(pl[j] == spec_motor_states_bytes(self.motor_state@)[k]);
                }
                assert(cmd@ =~= pl.take(lo + 32));
            }
            i = i + 1;
        }
        proof {
            assert(cmd@ =~= pl.take(715));
        }
        let mut i: usize = 0;
        while i < 120
            invariant
                0 <= i <= 120,
                cmd@.len() == 715 + i,
                pl == spec_high_state_payload(*self),
                cmd@ =~= pl.take(715 + i as int),
            decreases 120 - i,
        {
            cmd.push(0);
            proof {
                assert(pl[715 + i as int] == 0);
                assert(cmd@ =~= pl.take(715 + (i + 1) as int));
            }
            i = i + 1;
        }
        let mut bms_b = self.bms.get_bytes();
        cmd.append(&mut bms_b);
        proof {
            assert(cmd@ =~= pl.take(869));
        }
        let f0 = u16_to_le(self.foot_force[0]);
        cmd.extend_from_slice(f0.as_slice());
        let f1 = u16_to_le(self.foot_force[1]);
        cmd.extend_from_slice(f1.as_slice());
        let f2 = u16_to_le(self.foot_force[2]);
        cmd.extend_from_slice(f2.as_slice());
        let f3 = u16_to_le(self.foot_force[3]);
        cmd.extend_from_slice(f3.as_slice());
        let e0 = u16_to_le(self.foot_force_est[0]);
        cmd.extend_from_slice(e0.as_slice());
        let e1 = u16_to_le(self.foot_force_est[1]);
        cmd.extend_from_slice(e1.as_slice());
        let e2 = u16_to_le(self.foot_force_est[2]);
        cmd.extend_from_slice(e2.as_slice());
        let e3 = u16_to_le(self.foot_force_est[3]);
        cmd.extend_from_slice(e3.as_slice());
        cmd.push(self.mode.to_u8());
        proof {
            assert(cmd@ =~= pl.take(886));
        }
        let pr = float_to_hex(self.progress);
        cmd.extend_from_slice(pr.as_slice());
        cmd.push(self.gait_type.to_u8());
        let frh = float_to_hex(self.foot_raise_height);
        cmd.extend_from_slice(frh.as_slice());
        let p0 = float_to_hex(self.position[0]);
        cmd.extend_from_slice(p0.as_slice());
        let p1 = float_to_hex(self.position[1]);
        cmd.extend_from_slice(p1.as_slice());
        cmd.push(0);
        cmd.push(0);
        cmd.push(0);
        cmd.push(0);
        let bh = float_to_hex(self.body_height);
        cmd.extend_from_slice(bh.as_slice());
        proof {
            assert(cmd@ =~= pl.take(911));
        }
        let v0 = float_to_hex(self.velocity[0]);
        cmd.extend_from_slice(v0.as_slice());
        let v1 = float_to_hex(self.velocity[1]);
        cmd.extend_from_slice(v1.as_slice());
        let v2 = float_to_hex(self.velocity[2]);
        cmd.extend_from_slice(v2.as_slice());
        let ys = float_to_hex(self.yaw_speed);
        cmd.extend_from_slice(ys.as_slice());
        let r0 = float_to_hex(self.range_obstacle[0]);
        cmd.extend_from_slice(r0.as_slice());
        let r1 = float_to_hex(self.range_obstacle[1]);
        cmd.extend_from_slice(r1.as_slice());
        let r2 = float_to_hex(self.range_obstacle[2]);
        cmd.extend_from_slice(r2.as_slice());
        let r3 = float_to_hex(self.range_obstacle[3]);
        cmd.extend_from_slice(r3.as_slice());
        proof {
            assert(cmd@ =~= pl.take(943));
        }
        let mut fp0 = self.foot_position_to_body[0].get_bytes();
        cmd.append(&mut fp0);
        let mut fp1 = self.foot_position_to_body[1].get_bytes();
        cmd.append(&mut fp1);
        let mut fp2 = self.foot_position_to_body[2].get_bytes();
        cmd.append(&mut fp2);
        let mut fp3 = self.foot_position_to_body[3].get_bytes();
        cmd.append(&mut fp3);
        let mut fs0 = self.foot_speed_to_body[0].get_bytes();
        cmd.append(&mut fs0);
        let mut fs1 = self.foot_speed_to_body[1].get_bytes();
        cmd.append(&mut fs1);
        let mut fs2 = self.foot_speed_to_body[2].get_bytes();
        cmd.append(&mut fs2);
        let mut fs3 = self.foot_speed_to_body[3].get_bytes();
        cmd.append(&mut fs3);
        proof {
            assert(cmd@ =~= pl.take(1039));
        }
        let mut i: usize = 0;
        while i < 40
            invariant
                0 <= i <= 40,
                cmd@.len() == 1039 + i,
                pl == spec_high_state_payload(*self),
                cmd@ =~= pl.take(1039 + i as int),
            decreases 40 - i,
        {
            cmd.push(self.wireless_remote[i]);
            proof {
                assert(cmd@ =~= pl.take(1039 + (i + 1) as int));
            }
            i = i + 1;
        }
        cmd.push(self.reserve[0]);
        cmd.push(self.reserve[1]);
        cmd.push(self.reserve[2]);
        cmd.push(self.reserve[3]);
        proof {
            assert(cmd@ =~= pl);
        }
        let crc = gen_crc(&cmd[0..HIGH_STATE_CRC_COVERED]);
        proof {
            assert(cmd@.subrange(0, HIGH_STATE_CRC_COVERED as int) =~= pl.take(
                HIGH_STATE_CRC_COVERED as int,
            ));
        }
        if encrypt {
            let tail = encrypt_crc(crc);
            cmd.extend_from_slice(tail.as_slice());
        } else {
            let tail = u32_to_le(crc);
            cmd.extend_from_slice(tail.as_slice());
        }
        assert(cmd@ =~= spec_high_state_bytes(*self, encrypt));
        cmd
    }
}

/// Checksum self-consistency of the high-level state packet: parsing a
/// freshly built packet never reports a checksum mismatch; without
/// obfuscation the checksum reads back as plain, and with obfuscation it
/// reads back as obfuscated whenever the two checksum forms differ.
#[verifier::rlimit(100)]
#[verifier::spinoff_prover]
pub proof fn lemma_high_state_checksum_round_trip(s: HighState, encrypt: bool)
    ensures
        ({
            let built = spec_high_state_bytes(s, encrypt);
            let crc = spec_gen_crc(built.subrange(0, HIGH_STATE_CRC_COVERED as int));
            let st = spec_crc_status(crc, built.subrange(1083, 1087));
            &&& st != CrcStatus::Mismatch
            &&& !encrypt ==> st == CrcStatus::Plain
            &&& (encrypt && spec_encrypt_crc(crc) != spec_plain_crc_bytes(crc)) ==> st
                == CrcStatus::Obfuscated
        }),
{
    let body = spec_high_state_payload(s);
    let built = spec_high_state_bytes(s, encrypt);
    assert(body.len() == 1083);
    assert(built.subrange(0, HIGH_STATE_CRC_COVERED as int) =~= body.take(
        HIGH_STATE_CRC_COVERED as int,
    ));
    let crc = spec_gen_crc(body.take(HIGH_STATE_CRC_COVERED as int));
    if encrypt {
        assert(built.subrange(1083, 1087) =~= spec_encrypt_crc(crc));
    } else {
        assert(built.subrange(1083, 1087) =~= spec_plain_crc_bytes(crc));
    }
}

/// Reads one 32-byte motor-state chunk at a fixed offset.
fn read_motor_state(data: &[u8], off: usize) -> (m: MotorState)
    requires
        off + 32 <= data@.len(),
    ensures
        m == spec_motor_state_from_bytes(data@.subrange(off as int, off as int + 32)),
{
    let len: usize = data.len();
    assert(off + 32 <= len);
    match MotorState::from_bytes(&data[off..off + 32]) {
        Ok(m) => m,
        Err(_) => {
            // A 32-byte slice is never rejected; this arm is dead.
            proof {
                assert(false);
            }
            MotorState {
                mode: 0,
                q: 0,
                dq: 0,
                ddq: 0,
                tau_est: 0,
                q_raw: 0,
                dq_raw: 0,
                ddq_raw: 0,
                temperature: 0,
                reserve: [0, 0],
            }
        },
    }
}

/// Reads one 12-byte coordinate chunk at a fixed offset.
fn read_cartesian(data: &[u8], off: usize) -> (c: Cartesian)
    requires
        off + 12 <= data@.len(),
    ensures
        c == spec_cartesian_from_bytes(data@.subrange(off as int, off as int + 12)),
{
    let len: usize = data.len();
    assert(off + 12 <= len);
    let c = Cartesian {
        x: hex_to_float(&data[off..off + 4]),
        y: hex_to_float(&data[off + 4..off + 8]),
        z: hex_to_float(&data[off + 8..off + 12]),
    };
    proof {
        let sub = data@.subrange(off as int, off as int + 12);
        assert(sub.subrange(0, 4) =~= data@.subrange(off as int, off as int + 4));
        assert(sub.subrange(4, 8) =~= data@.subrange(off as int + 4, off as int + 8));
        assert(sub.subrange(8, 12) =~= data@.subrange(off as int + 8, off as int + 12));
    }
    c
}

} // verus!
