//! The high-level command packet: body velocity / pose targets for the
//! motion controller. Fixed total length 129 bytes; the checksum covers the
//! first 120 bytes and sits in the trailing four.

use vstd::prelude::*;

use crate::CodecError;
use crate::common::CrcStatus;
use crate::common::check_crc_bytes;
use crate::common::encrypt_crc;
use crate::common::float_to_hex;
use crate::common::gen_crc;
use crate::common::hex_to_float;
use crate::common::spec_crc_status;
use crate::common::spec_encrypt_crc;
use crate::common::spec_gen_crc;
use crate::common::spec_plain_crc_bytes;
use crate::common::spec_u32_from_swapped_bytes;
use crate::common::spec_u32_swapped_bytes;
use crate::common::u32_to_le;
use crate::complex::BmsCmd;
use crate::complex::Led;
use crate::complex::spec_bms_cmd_bytes;
use crate::complex::spec_bms_cmd_from_bytes;
use crate::complex::spec_led_bytes;
use crate::enums::GaitType;
use crate::enums::MotorModeHigh;
use crate::enums::SpeedLevel;
use crate::enums::spec_gait_byte;
use crate::enums::spec_gait_from_byte;
use crate::enums::spec_mode_high_byte;
use crate::enums::spec_mode_high_from_byte;
use crate::enums::spec_speed_byte;
use crate::enums::spec_speed_from_byte;

verus! {

/// Total serialized length of a high-level command packet.
pub const HIGH_CMD_LENGTH: usize = 129;

/// How many leading bytes the checksum covers (the largest multiple of four
/// below the two exempted bytes and the checksum itself).
pub const HIGH_CMD_CRC_COVERED: usize = 120;

/// A high-level command. Float-valued fields hold plain-float bit patterns.
#[derive(Debug, Clone, Copy, PartialEq, Eq)]
pub struct HighCmd {
    pub head: [u8; 2],
    pub level_flag: u8,
    pub frame_reserve: u8,
    pub sn: [u8; 8],
    pub version: [u8; 8],
    pub band_width: [u8; 2],
    pub mode: MotorModeHigh,
    pub gait_type: GaitType,
    pub speed_level: SpeedLevel,
    pub foot_raise_height: u32,
    pub body_height: u32,
    pub position: [u32; 2],
    pub euler: [u32; 3],
    pub velocity: [u32; 2],
    pub yaw_speed: u32,
    pub bms: BmsCmd,
    pub led: Led,
    pub wireless_remote: [u8; 40],
    pub reserve: [u8; 4],
}

/// The first 125 bytes of a serialized high-level command: every field at
/// its fixed offset, then eight bytes of zero slack before the checksum.
pub open spec fn spec_high_cmd_payload(c: HighCmd) -> Seq<u8> {
    c.head@ + seq![c.level_flag, c.frame_reserve] + c.sn@ + c.version@ + c.band_width@ + seq![
        spec_mode_high_byte(c.mode),
        spec_gait_byte(c.gait_type),
        spec_speed_byte(c.speed_level),
    ] + spec_u32_swapped_bytes(c.foot_raise_height) + spec_u32_swapped_bytes(c.body_height)
        + spec_u32_swapped_bytes(c.position[0]) + spec_u32_swapped_bytes(c.position[1])
        + spec_u32_swapped_bytes(c.euler[0]) + spec_u32_swapped_bytes(c.euler[1])
        + spec_u32_swapped_bytes(c.euler[2]) + spec_u32_swapped_bytes(c.velocity[0])
        + spec_u32_swapped_bytes(c.velocity[1]) + spec_u32_swapped_bytes(c.yaw_speed)
        + spec_bms_cmd_bytes(c.bms) + spec_led_bytes(c.led) + c.wireless_remote@ + c.reserve@
        + seq![0u8, 0u8, 0u8, 0u8, 0u8, 0u8, 0u8, 0u8]
}

/// A whole serialized high-level command: the payload followed by the
/// checksum of the covered prefix, obfuscated when `encrypt` is set.
pub open spec fn spec_high_cmd_bytes(c: HighCmd, encrypt: bool) -> Seq<u8> {
    let body = spec_high_cmd_payload(c);
    let crc = spec_gen_crc(body.take(HIGH_CMD_CRC_COVERED as int));
    body + if encrypt {
        spec_encrypt_crc(crc)
    } else {
        spec_plain_crc_bytes(crc)
    }
}

impl HighCmd {
    /// A fresh command: magic header, everything else idle / zero.
    pub fn new() -> (r: HighCmd)
        ensures
            r.head@ == seq![0xFEu8, 0xEFu8],
            r.level_flag == 0,
            r.frame_reserve == 0,
            r.sn@ =~= Seq::new(8, |i: int| 0u8),
            r.version@ =~= Seq::new(8, |i: int| 0u8),
            r.band_width@ == seq![0u8, 0u8],
            r.mode == MotorModeHigh::Idle,
            r.gait_type == GaitType::Idle,
            r.speed_level == SpeedLevel::LowSpeed,
            r.foot_raise_height == 0,
            r.body_height == 0,
            r.position@ == seq![0u32, 0u32],
            r.euler@ == seq![0u32, 0u32, 0u32],
            r.velocity@ == seq![0u32, 0u32],
            r.yaw_speed == 0,
            r.bms == (BmsCmd { off: 0, reserve: [0u8, 0u8, 0u8] }),
            r.led == (Led { r: 0, g: 0, b: 0 }),
            r.wireless_remote@ =~= Seq::new(40, |i: int| 0u8),
            r.reserve@ =~= Seq::new(4, |i: int| 0u8),
    {
        let r = HighCmd {
            head: [0xFE, 0xEF],
            level_flag: 0x00,
            frame_reserve: 0,
            sn: [0; 8],
            version: [0; 8],
            band_width: [0; 2],
            mode: MotorModeHigh::Idle,
            gait_type: GaitType::Idle,
            speed_level: SpeedLevel::LowSpeed,
            foot_raise_height: 0,
            body_height: 0,
            position: [0, 0],
            euler: [0, 0, 0],
            velocity: [0, 0],
            yaw_speed: 0,
            bms: BmsCmd { off: 0, reserve: [0, 0, 0] },
            led: Led { r: 0, g: 0, b: 0 },
            wireless_remote: [0; 40],
            reserve: [0; 4],
        };
        assert(r.head@ =~= seq![0xFEu8, 0xEFu8]);
        assert(r.band_width@ =~= seq![0u8, 0u8]);
        assert(r.position@ =~= seq![0u32, 0u32]);
        assert(r.euler@ =~= seq![0u32, 0u32, 0u32]);
        assert(r.velocity@ =~= seq![0u32, 0u32]);
        r
    }

    /// Serializes this command into its 129 wire bytes, appending the
    /// checksum of the covered prefix, obfuscated when `encrypt` is set.
    pub fn build_cmd(&self, encrypt: bool) -> (r: Vec<u8>)
        ensures
            r@ == spec_high_cmd_bytes(*self, encrypt),
            r@.len() == HIGH_CMD_LENGTH,
    {
        let ghost pl = spec_high_cmd_payload(*self);
        proof {
            assert(pl.len() == 125);
        }
        let mut cmd: Vec<u8> = Vec::new();
        cmd.push(self.head[0]);
        cmd.push(self.head[1]);
        cmd.push(self.level_flag);
        cmd.push(self.frame_reserve);
        proof {
            assert(cmd@ =~= pl.take(4));
        }
        let mut i: usize = 0;
        while i < 8
            invariant
                0 <= i <= 8,
                cmd@.len() == 4 + i,
                pl == spec_high_cmd_payload(*self),
                cmd@ =~= pl.take(4 + i as int),
            decreases 8 - i,
        {
            cmd.push(self.sn[i]);
            proof {
                assert(cmd@ =~= pl.take(4 + (i + 1) as int));
            }
            i = i + 1;
        }
        let mut i: usize = 0;
        while i < 8
            invariant
                0 <= i <= 8,
                cmd@.len() == 12 + i,
                pl == spec_high_cmd_payload(*self),
                cmd@ =~= pl.take(12 + i as int),
            decreases 8 - i,
        {
            cmd.push(self.version[i]);
            proof {
                assert(cmd@ =~= pl.take(12 + (i + 1) as int));
            }
            i = i + 1;
        }
        cmd.push(self.band_width[0]);
        cmd.push(self.band_width[1]);
        cmd.push(self.mode.to_u8());
        cmd.push(self.gait_type.to_u8());
        cmd.push(self.speed_level.to_u8());
        proof {
            assert(cmd@ =~= pl.take(25));
        }
        let frh = float_to_hex(self.foot_raise_height);
        cmd.extend_from_slice(frh.as_slice());
        let bh = float_to_hex(self.body_height);
        cmd.extend_from_slice(bh.as_slice());
        let p0 = float_to_hex(self.position[0]);
        cmd.extend_from_slice(p0.as_slice());
        let p1 = float_to_hex(self.position[1]);
        cmd.extend_from_slice(p1.as_slice());
        proof {
            assert(cmd@ =~= pl.take(41));
        }
        let e0 = float_to_hex(self.euler[0]);
        cmd.extend_from_slice(e0.as_slice());
        let e1 = float_to_hex(self.euler[1]);
        cmd.extend_from_slice(e1.as_slice());
        let e2 = float_to_hex(self.euler[2]);
        cmd.extend_from_slice(e2.as_slice());
        let v0 = float_to_hex(self.velocity[0]);
        cmd.extend_from_slice(v0.as_slice());
        let v1 = float_to_hex(self.velocity[1]);
        cmd.extend_from_slice(v1.as_slice());
        let ys = float_to_hex(self.yaw_speed);
        cmd.extend_from_slice(ys.as_slice());
        proof {
            assert(cmd@ =~= pl.take(65));
        }
        let mut bms_b = self.bms.get_bytes();
        cmd.append(&mut bms_b);
        let mut led_b = self.led.get_bytes();
        cmd.append(&mut led_b);
        proof {
            assert(cmd@ =~= pl.take(73));
        }
        let mut i: usize = 0;
        while i < 40
            invariant
                0 <= i <= 40,
                cmd@.len() == 73 + i,
                pl == spec_high_cmd_payload(*self),
                cmd@ =~= pl.take(73 + i as int),
            decreases 40 - i,
        {
            cmd.push(self.wireless_remote[i]);
            proof {
                assert(cmd@ =~= pl.take(73 + (i + 1) as int));
            }
            i = i + 1;
        }
        cmd.push(self.reserve[0]);
        cmd.push(self.reserve[1]);
        cmd.push(self.reserve[2]);
        cmd.push(self.reserve[3]);
        proof {
            assert(cmd@ =~= pl.take(117));
        }
        let mut i: usize = 0;
        while i < 8
            invariant
                0 <= i <= 8,
                cmd@.len() == 117 + i,
                pl == spec_high_cmd_payload(*self),
                cmd@ =~= pl.take(117 + i as int),
            decreases 8 - i,
        {
            cmd.push(0);
            proof {
                assert(cmd@ =~= pl.take(117 + (i + 1) as int));
            }
            i = i + 1;
        }
        proof {
            assert(cmd@ =~= spec_high_cmd_payload(*self));
        }
        let crc = gen_crc(&cmd[0..HIGH_CMD_CRC_COVERED]);
        proof {
            assert(cmd@.subrange(0, HIGH_CMD_CRC_COVERED as int) =~= spec_high_cmd_payload(
                *self,
            ).take(HIGH_CMD_CRC_COVERED as int));
        }
        if encrypt {
            let tail = encrypt_crc(crc);
            cmd.extend_from_slice(tail.as_slice());
        } else {
            let tail = u32_to_le(crc);
            cmd.extend_from_slice(tail.as_slice());
        }
        assert(cmd@ =~= spec_high_cmd_bytes(*self, encrypt));
        cmd
    }

    /// Parses a 129-byte buffer back into a command, reporting how the
    /// trailing checksum bytes relate to the covered region. A checksum
    /// mismatch is not a failure: the decoded state is still returned.
    pub fn from_bytes(data: &[u8]) -> (r: Result<(HighCmd, CrcStatus), CodecError>)
        ensures
            data@.len() != HIGH_CMD_LENGTH ==> r == Err::<(HighCmd, CrcStatus), CodecError>(
                CodecError::LengthMismatch,
            ),
            data@.len() == HIGH_CMD_LENGTH ==> r is Ok && {
                let (h, st) = r->Ok_0;
                &&& h.head@ == data@.subrange(0, 2)
                &&& h.level_flag == data@[2]
                &&& h.frame_reserve == data@[3]
                &&& h.sn@ == data@.subrange(4, 12)
                &&& h.version@ == data@.subrange(12, 20)
                &&& h.band_width@ == data@.subrange(20, 22)
                &&& h.mode == spec_mode_high_from_byte(data@[22])
                &&& h.gait_type == spec_gait_from_byte(data@[23])
                &&& h.speed_level == spec_speed_from_byte(data@[24])
                &&& h.foot_raise_height == spec_u32_from_swapped_bytes(data@.subrange(25, 29))
                &&& h.body_height == spec_u32_from_swapped_bytes(data@.subrange(29, 33))
                &&& h.position@ == seq![
                    spec_u32_from_swapped_bytes(data@.subrange(33, 37)),
                    spec_u32_from_swapped_bytes(data@.subrange(37, 41)),
                ]
                &&& h.euler@ == seq![
                    spec_u32_from_swapped_bytes(data@.subrange(41, 45)),
                    spec_u32_from_swapped_bytes(data@.subrange(45, 49)),
                    spec_u32_from_swapped_bytes(data@.subrange(49, 53)),
                ]
                &&& h.velocity@ == seq![
                    spec_u32_from_swapped_bytes(data@.subrange(53, 57)),
                    spec_u32_from_swapped_bytes(data@.subrange(57, 61)),
                ]
                &&& h.yaw_speed == spec_u32_from_swapped_bytes(data@.subrange(61, 65))
                &&& h.bms == spec_bms_cmd_from_bytes(data@.subrange(65, 69))
                &&& h.led == (Led { r: data@[69], g: data@[70], b: data@[71] })
                &&& h.wireless_remote@ == data@.subrange(73, 113)
                &&& h.reserve@ == data@.subrange(113, 117)
                &&& st == spec_crc_status(
                    spec_gen_crc(data@.subrange(0, HIGH_CMD_CRC_COVERED as int)),
                    data@.subrange(125, 129),
                )
            },
    {
        if data.len() != HIGH_CMD_LENGTH {
            return Err(CodecError::LengthMismatch);
        }
        let mut wireless: [u8; 40] = [0; 40];
        let mut i: usize = 0;
        while i < 40
            invariant
                0 <= i <= 40,
                data@.len() == 129,
                wireless@.len() == 40,
                forall|j: int| 0 <= j < i ==> wireless@[j] == data@[73 + j],
            decreases 40 - i,
        {
            wireless[i] = data[73 + i];
            i = i + 1;
        }
        let h = HighCmd {
            head: [data[0], data[1]],
            level_flag: data[2],
            frame_reserve: data[3],
            sn: [data[4], data[5], data[6], data[7], data[8], data[9], data[10], data[11]],
            version: [
                data[12],
                data[13],
                data[14],
                data[15],
                data[16],
                data[17],
                data[18],
                data[19],
            ],
            band_width: [data[20], data[21]],
            mode: MotorModeHigh::from_u8(data[22]),
            gait_type: GaitType::from_u8(data[23]),
            speed_level: SpeedLevel::from_u8(data[24]),
            foot_raise_height: hex_to_float(&data[25..29]),
            body_height: hex_to_float(&data[29..33]),
            position: [hex_to_float(&data[33..37]), hex_to_float(&data[37..41])],
            euler: [
                hex_to_float(&data[41..45]),
                hex_to_float(&data[45..49]),
                hex_to_float(&data[49..53]),
            ],
            velocity: [hex_to_float(&data[53..57]), hex_to_float(&data[57..61])],
            yaw_speed: hex_to_float(&data[61..65]),
            bms: BmsCmd { off: data[65], reserve: [data[66], data[67], data[68]] },
            led: Led { r: data[69], g: data[70], b: data[71] },
            wireless_remote: wireless,
            reserve: [data[113], data[114], data[115], data[116]],
        };
        let crc = gen_crc(&data[0..HIGH_CMD_CRC_COVERED]);
        let st = check_crc_bytes(data[125], data[126], data[127], data[128], crc);
        proof {
            assert(h.head@ =~= data@.subrange(0, 2));
            assert(h.sn@ =~= data@.subrange(4, 12));
            assert(h.version@ =~= data@.subrange(12, 20));
            assert(h.band_width@ =~= data@.subrange(20, 22));
            assert(h.bms.reserve@ =~= spec_bms_cmd_from_bytes(data@.subrange(65, 69)).reserve@);
            assert(h.bms.reserve =~= spec_bms_cmd_from_bytes(data@.subrange(65, 69)).reserve);
            assert(h.wireless_remote@ =~= data@.subrange(73, 113));
            assert(h.reserve@ =~= data@.subrange(113, 117));
            assert(seq![data@[125], data@[126], data@[127], data@[128]] =~= data@.subrange(
                125,
                129,
            ));
        }
        Ok((h, st))
    }
}

/// Checksum self-consistency of the high-level command packet: parsing a
/// freshly built packet never reports a checksum mismatch; without
/// obfuscation the checksum reads back as plain, and with obfuscation it
/// reads back as obfuscated whenever the two checksum forms differ.
pub proof fn lemma_high_cmd_checksum_round_trip(c: HighCmd, encrypt: bool)
    ensures
        ({
            let built = spec_high_cmd_bytes(c, encrypt);
            let crc = spec_gen_crc(built.subrange(0, HIGH_CMD_CRC_COVERED as int));
            let st = spec_crc_status(crc, built.subrange(125, 129));
            &&& st != CrcStatus::Mismatch
            &&& !encrypt ==> st == CrcStatus::Plain
            &&& (encrypt && spec_encrypt_crc(crc) != spec_plain_crc_bytes(crc)) ==> st
                == CrcStatus::Obfuscated
        }),
{
    let body = spec_high_cmd_payload(c);
    let built = spec_high_cmd_bytes(c, encrypt);
    assert(built.subrange(0, HIGH_CMD_CRC_COVERED as int) =~= body.take(
        HIGH_CMD_CRC_COVERED as int,
    ));
    let crc = spec_gen_crc(body.take(HIGH_CMD_CRC_COVERED as int));
    if encrypt {
        assert(built.subrange(125, 129) =~= spec_encrypt_crc(crc));
    } else {
        assert(built.subrange(125, 129) =~= spec_plain_crc_bytes(crc));
    }
}

/// Corruption detection for the high-level command packet: flip any single
/// bit inside the checksum-covered region of a packet built without
/// obfuscation, and parsing the damaged buffer no longer reports the
/// checksum as plain-valid.
pub proof fn lemma_high_cmd_flip_detected(c: HighCmd, d: Seq<u8>, i: int, k: u32)
    requires
        d.len() == HIGH_CMD_LENGTH,
        0 <= i < HIGH_CMD_CRC_COVERED,
        k < 8,
        d[i] == spec_high_cmd_bytes(c, false)[i] ^ (1u8 << k),
        forall|j: int|
            0 <= j < HIGH_CMD_LENGTH && j != i ==> d[j] == spec_high_cmd_bytes(c, false)[j],
    ensures
        spec_crc_status(
            spec_gen_crc(d.subrange(0, HIGH_CMD_CRC_COVERED as int)),
            d.subrange(125, 129),
        ) != CrcStatus::Plain,
{
    let b = spec_high_cmd_bytes(c, false);
    let body = spec_high_cmd_payload(c);
    let s1 = b.subrange(0, HIGH_CMD_CRC_COVERED as int);
    let s2 = d.subrange(0, HIGH_CMD_CRC_COVERED as int);
    assert(s1 =~= body.take(HIGH_CMD_CRC_COVERED as int));
    assert(s2[i] == s1[i] ^ (1u8 << k));
    assert(forall|j: int| 0 <= j < s1.len() && j != i ==> s1[j] == s2[j]);
    assert(d.subrange(125, 129) =~= b.subrange(125, 129));
    assert(b.subrange(125, 129) =~= spec_plain_crc_bytes(spec_gen_crc(s1)));
    crate::crc_props::lemma_flip_not_plain_valid(s1, s2, i, k, d.subrange(125, 129));
}

} // verus!
