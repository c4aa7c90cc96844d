//! The low-level command packet: per-actuator targets for all 20 slots.
//! Fixed total length 614 bytes; the checksum covers the first 608 bytes
//! and sits in the trailing four.

use vstd::prelude::*;

use crate::CodecError;
use crate::common::CrcStatus;
use crate::common::check_crc_bytes;
use crate::common::encrypt_crc;
use crate::common::gen_crc;
use crate::common::spec_crc_status;
use crate::common::spec_encrypt_crc;
use crate::common::spec_gen_crc;
use crate::common::spec_plain_crc_bytes;
use crate::common::u32_to_le;
use crate::complex::BmsCmd;
use crate::complex::MotorCmdArray;
use crate::complex::spec_bms_cmd_bytes;
use crate::complex::spec_bms_cmd_from_bytes;
use crate::complex::spec_motor_array_bytes;
use crate::complex::spec_motor_cmd_from_bytes;

verus! {

/// Total serialized length of a low-level command packet.
pub const LOW_CMD_LENGTH: usize = 614;

/// How many leading bytes the checksum covers.
pub const LOW_CMD_CRC_COVERED: usize = 608;

/// A low-level command: header, the 20-slot motor array, the
/// battery-management command, remote bytes and reserve.
#[derive(Debug, Clone, PartialEq, Eq)]
pub struct LowCmd {
    pub head: [u8; 2],
    pub level_flag: u8,
    pub frame_reserve: u8,
    pub sn: [u8; 8],
    pub version: [u8; 8],
    pub band_width: [u8; 2],
    pub motor_cmd: MotorCmdArray,
    pub bms: BmsCmd,
    pub wireless_remote: [u8; 40],
    pub reserve: [u8; 4],
}

/// The first 610 bytes of a serialized low-level command: every field at
/// its fixed offset.
pub open spec fn spec_low_cmd_payload(c: LowCmd) -> Seq<u8> {
    c.head@ + seq![c.level_flag, c.frame_reserve] + c.sn@ + c.version@ + c.band_width@
        + spec_motor_array_bytes(c.motor_cmd) + spec_bms_cmd_bytes(c.bms) + c.wireless_remote@
        + c.reserve@
}

/// A whole serialized low-level command: the payload followed by the
/// checksum of the covered prefix, obfuscated when `encrypt` is set.
pub open spec fn spec_low_cmd_bytes(c: LowCmd, encrypt: bool) -> Seq<u8> {
    let body = spec_low_cmd_payload(c);
    let crc = spec_gen_crc(body.take(LOW_CMD_CRC_COVERED as int));
    body + if encrypt {
        spec_encrypt_crc(crc)
    } else {
        spec_plain_crc_bytes(crc)
    }
}

impl LowCmd {
    /// A fresh command: magic header, low-level flag, default bandwidth,
    /// every motor slot in servo mode with zero targets.
    pub fn new() -> (r: LowCmd)
        ensures
            r.head@ == seq![0xFEu8, 0xEFu8],
            r.level_flag == 0xFF,
            r.frame_reserve == 0,
            r.sn@ =~= Seq::new(8, |i: int| 0u8),
            r.version@ =~= Seq::new(8, |i: int| 0u8),
            r.band_width@ == seq![0x3Au8, 0xC0u8],
            r.motor_cmd.wf(),
            r.motor_cmd.encodable(),
            forall|i: int|
                0 <= i < 20 ==> r.motor_cmd.cmds@[i]
                    == crate::complex::spec_default_motor_cmd(),
            r.bms == (BmsCmd { off: 0, reserve: [0u8, 0u8, 0u8] }),
            r.wireless_remote@ =~= Seq::new(40, |i: int| 0u8),
            r.reserve@ =~= Seq::new(4, |i: int| 0u8),
    {
        let r = LowCmd {
            head: [0xFE, 0xEF],
            level_flag: 0xFF,
            frame_reserve: 0,
            sn: [0; 8],
            version: [0; 8],
            band_width: [0x3A, 0xC0],
            motor_cmd: MotorCmdArray::new(),
            bms: BmsCmd { off: 0, reserve: [0, 0, 0] },
            wireless_remote: [0; 40],
            reserve: [0; 4],
        };
        assert(r.head@ =~= seq![0xFEu8, 0xEFu8]);
        assert(r.band_width@ =~= seq![0x3Au8, 0xC0u8]);
        r
    }

    /// Serializes this command into its 614 wire bytes, appending the
    /// checksum of the covered prefix, obfuscated when `encrypt` is set.
    pub fn build_cmd(&self, encrypt: bool) -> (r: Vec<u8>)
        requires
            self.motor_cmd.encodable(),
        ensures
            r@ == spec_low_cmd_bytes(*self, encrypt),
            r@.len() == LOW_CMD_LENGTH,
    {
        let ghost pl = spec_low_cmd_payload(*self);
        proof {
            assert(pl.len() == 610);
        }
        let mut cmd: Vec<u8> = Vec::new();
        cmd.push(self.head[0]);
        cmd.push(self.head[1]);
        cmd.push(self.level_flag);
        cmd.push(self.frame_reserve);
        proof {
            assert(cmd@ =~= pl.take(4));
        }
        let mut i: usize = 0;
        while i < 8
            invariant
                0 <= i <= 8,
                cmd@.len() == 4 + i,
                pl == spec_low_cmd_payload(*self),
                cmd@ =~= pl.take(4 + i as int),
            decreases 8 - i,
        {
            cmd.push(self.sn[i]);
            proof {
                assert(cmd@ =~= pl.take(4 + (i + 1) as int));
            }
            i = i + 1;
        }
        let mut i: usize = 0;
        while i < 8
            invariant
                0 <= i <= 8,
                cmd@.len() == 12 + i,
                pl == spec_low_cmd_payload(*self),
                cmd@ =~= pl.take(12 + i as int),
            decreases 8 - i,
        {
            cmd.push(self.version[i]);
            proof {
                assert(cmd@ =~= pl.take(12 + (i + 1) as int));
            }
            i = i + 1;
        }
        cmd.push(self.band_width[0]);
        cmd.push(self.band_width[1]);
        proof {
            assert(cmd@ =~= pl.take(22));
        }
        let mut mb = self.motor_cmd.get_bytes();
        cmd.append(&mut mb);
        proof {
            assert(cmd@ =~= pl.take(562));
        }
        let mut bms_b = self.bms.get_bytes();
        cmd.append(&mut bms_b);
        proof {
            assert(cmd@ =~= pl.take(566));
        }
        let mut i: usize = 0;
        while i < 40
            invariant
                0 <= i <= 40,
                cmd@.len() == 566 + i,
                pl == spec_low_cmd_payload(*self),
                cmd@ =~= pl.take(566 + i as int),
            decreases 40 - i,
        {
            cmd.push(self.wireless_remote[i]);
            proof {
                assert(cmd@ =~= pl.take(566 + (i + 1) as int));
            }
            i = i + 1;
        }
        cmd.push(self.reserve[0]);
        cmd.push(self.reserve[1]);
        cmd.push(self.reserve[2]);
        cmd.push(self.reserve[3]);
        proof {
            assert(cmd@ =~= pl);
        }
        let crc = gen_crc(&cmd[0..LOW_CMD_CRC_COVERED]);
        proof {
            assert(cmd@.subrange(0, LOW_CMD_CRC_COVERED as int) =~= pl.take(
                LOW_CMD_CRC_COVERED as int,
            ));
        }
        if encrypt {
            let tail = encrypt_crc(crc);
            cmd.extend_from_slice(tail.as_slice());
        } else {
            let tail = u32_to_le(crc);
            cmd.extend_from_slice(tail.as_slice());
        }
        assert(cmd@ =~= spec_low_cmd_bytes(*self, encrypt));
        cmd
    }

    /// Parses a 614-byte buffer back into a command, reporting how the
    /// trailing checksum bytes relate to the covered region. A checksum
    /// mismatch is not a failure: the decoded state is still returned.
    pub fn low_cmd_from_bytes(data: &[u8]) -> (r: Result<(LowCmd, CrcStatus), CodecError>)
        ensures
            data@.len() != LOW_CMD_LENGTH ==> r == Err::<(LowCmd, CrcStatus), CodecError>(
                CodecError::LengthMismatch,
            ),
            data@.len() == LOW_CMD_LENGTH ==> r is Ok && {
                let (l, st) = r->Ok_0;
                &&& l.head@ == data@.subrange(0, 2)
                &&& l.level_flag == data@[2]
                &&& l.frame_reserve == data@[3]
                &&& l.sn@ == data@.subrange(4, 12)
                &&& l.version@ == data@.subrange(12, 20)
                &&& l.band_width@ == data@.subrange(20, 22)
                &&& l.motor_cmd.wf()
                &&& forall|i: int|
                    0 <= i < 20 ==> l.motor_cmd.cmds@[i] == spec_motor_cmd_from_bytes(
                        data@.subrange(22 + 27 * i, 49 + 27 * i),
                    )
                &&& l.bms == spec_bms_cmd_from_bytes(data@.subrange(562, 566))
                &&& l.wireless_remote@ == data@.subrange(566, 606)
                &&& l.reserve@ == data@.subrange(606, 610)
                &&& st == spec_crc_status(
                    spec_gen_crc(data@.subrange(0, LOW_CMD_CRC_COVERED as int)),
                    data@.subrange(610, 614),
                )
            },
    {
        if data.len() != LOW_CMD_LENGTH {
            return Err(CodecError::LengthMismatch);
        }
        let mut motor_cmd = MotorCmdArray::new();
        let chunk = &data[22..562];
        let res = motor_cmd.from_bytes(chunk);
        if res.is_err() {
            // A 540-byte slice is never rejected; this arm is unreachable.
            return Err(CodecError::LengthMismatch);
        }
        proof {
            assert forall|i: int| 0 <= i < 20 implies motor_cmd.cmds@[i]
                == spec_motor_cmd_from_bytes(data@.subrange(22 + 27 * i, 49 + 27 * i)) by {
                assert(motor_cmd.cmds@[i] == spec_motor_cmd_from_bytes(
                    data@.subrange(22, 562).subrange(27 * i, 27 * i + 27),
                ));
                assert(data@.subrange(22, 562).subrange(27 * i, 27 * i + 27) =~= data@.subrange(
                    22 + 27 * i,
                    49 + 27 * i,
                ));
            }
        }
        let mut wireless: [u8; 40] = [0; 40];
        let mut i: usize = 0;
        while i < 40
            invariant
                0 <= i <= 40,
                data@.len() == 614,
                wireless@.len() == 40,
                forall|j: int| 0 <= j < i ==> wireless@[j] == data@[566 + j],
            decreases 40 - i,
        {
            wireless[i] = data[566 + i];
            i = i + 1;
        }
        let l = LowCmd {
            head: [data[0], data[1]],
            level_flag: data[2],
            frame_reserve: data[3],
            sn: [data[4], data[5], data[6], data[7], data[8], data[9], data[10], data[11]],
            version: [
                data[12],
                data[13],
                data[14],
                data[15],
                data[16],
                data[17],
                data[18],
                data[19],
            ],
            band_width: [data[20], data[21]],
            motor_cmd,
            bms: BmsCmd { off: data[562], reserve: [data[563], data[564], data[565]] },
            wireless_remote: wireless,
            reserve: [data[606], data[607], data[608], data[609]],
        };
        let crc = gen_crc(&data[0..LOW_CMD_CRC_COVERED]);
        let st = check_crc_bytes(data[610], data[611], data[612], data[613], crc);
        proof {
            assert(l.head@ =~= data@.subrange(0, 2));
            assert(l.sn@ =~= data@.subrange(4, 12));
            assert(l.version@ =~= data@.subrange(12, 20));
            assert(l.band_width@ =~= data@.subrange(20, 22));
            assert(l.bms.reserve =~= spec_bms_cmd_from_bytes(data@.subrange(562, 566)).reserve);
            assert(l.wireless_remote@ =~= data@.subrange(566, 606));
            assert(l.reserve@ =~= data@.subrange(606, 610));
            assert(seq![data@[610], data@[611], data@[612], data@[613]] =~= data@.subrange(
                610,
                614,
            ));
        }
        Ok((l, st))
    }
}

/// Checksum self-consistency of the low-level command packet: parsing a
/// freshly built packet never reports a checksum mismatch; without
/// obfuscation the checksum reads back as plain, and with obfuscation it
/// reads back as obfuscated whenever the two checksum forms differ.
pub proof fn lemma_low_cmd_checksum_round_trip(c: LowCmd, encrypt: bool)
    ensures
        ({
            let built = spec_low_cmd_bytes(c, encrypt);
            let crc = spec_gen_crc(built.subrange(0, LOW_CMD_CRC_COVERED as int));
            let st = spec_crc_status(crc, built.subrange(610, 614));
            &&& st != CrcStatus::Mismatch
            &&& !encrypt ==> st == CrcStatus::Plain
            &&& (encrypt && spec_encrypt_crc(crc) != spec_plain_crc_bytes(crc)) ==> st
                == CrcStatus::Obfuscated
        }),
{
    let body = spec_low_cmd_payload(c);
    let built = spec_low_cmd_bytes(c, encrypt);
    assert(built.subrange(0, LOW_CMD_CRC_COVERED as int) =~= body.take(
        LOW_CMD_CRC_COVERED as int,
    ));
    let crc = spec_gen_crc(body.take(LOW_CMD_CRC_COVERED as int));
    if encrypt {
        assert(built.subrange(610, 614) =~= spec_encrypt_crc(crc));
    } else {
        assert(built.subrange(610, 614) =~= spec_plain_crc_bytes(crc));
    }
}

} // verus!
