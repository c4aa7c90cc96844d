//! Whole-packet properties: fixed lengths, checksum self-consistency with
//! and without obfuscation, corruption detection, and field round trips.

use ucl::common::CrcStatus;
use ucl::complex::MotorCmd;
use ucl::enums::GaitType;
use ucl::enums::MotorModeHigh;
use ucl::enums::SpeedLevel;
use ucl::high_cmd::HighCmd;
use ucl::high_state::HighState;
use ucl::low_cmd::LowCmd;
use ucl::CodecError;

#[test]
fn high_cmd_has_fixed_length() {
    let hc = HighCmd::new();
    assert_eq!(hc.build_cmd(false).len(), 129);
    assert_eq!(hc.build_cmd(true).len(), 129);
}

#[test]
fn high_cmd_magic_header() {
    let built = HighCmd::new().build_cmd(false);
    assert_eq!(&built[0..2], &[0xFE, 0xEF]);
}

#[test]
fn high_cmd_checksum_self_consistency() {
    let mut hc = HighCmd::new();
    hc.mode = MotorModeHigh::VelWalk;
    hc.gait_type = GaitType::Trot;
    hc.speed_level = SpeedLevel::MediumSpeed;
    hc.velocity = [0.3f32.to_bits(), 0.0f32.to_bits()];
    hc.yaw_speed = 0.5f32.to_bits();
    let plain = hc.build_cmd(false);
    let (_, st) = HighCmd::from_bytes(&plain).unwrap();
    assert_eq!(st, CrcStatus::Plain);
    let obf = hc.build_cmd(true);
    let (_, st) = HighCmd::from_bytes(&obf).unwrap();
    assert_eq!(st, CrcStatus::Obfuscated);
}

#[test]
fn high_cmd_field_round_trip() {
    let mut hc = HighCmd::new();
    hc.mode = MotorModeHigh::Path;
    hc.gait_type = GaitType::ClimbStair;
    hc.speed_level = SpeedLevel::HighSpeed;
    hc.foot_raise_height = 0.09f32.to_bits();
    hc.body_height = 0.28f32.to_bits();
    hc.position = [1.0f32.to_bits(), 2.0f32.to_bits()];
    hc.euler = [0.1f32.to_bits(), 0.2f32.to_bits(), 0.3f32.to_bits()];
    hc.velocity = [0.4f32.to_bits(), (-0.1f32).to_bits()];
    hc.yaw_speed = 1.5f32.to_bits();
    hc.wireless_remote[0] = 0xAB;
    hc.reserve = [1, 2, 3, 4];
    let built = hc.build_cmd(false);
    let (back, st) = HighCmd::from_bytes(&built).unwrap();
    assert_eq!(st, CrcStatus::Plain);
    assert_eq!(back, hc);
}

#[test]
fn high_cmd_wrong_length_is_rejected() {
    assert!(matches!(
        HighCmd::from_bytes(&[0u8; 128]),
        Err(CodecError::LengthMismatch)
    ));
    assert!(matches!(
        HighCmd::from_bytes(&[0u8; 130]),
        Err(CodecError::LengthMismatch)
    ));
}

#[test]
fn high_cmd_single_bit_corruption_is_detected() {
    let built = HighCmd::new().build_cmd(false);
    for i in 0..120 {
        for k in 0..8 {
            let mut damaged = built.clone();
            damaged[i] ^= 1u8 << k;
            let (_, st) = HighCmd::from_bytes(&damaged).unwrap();
            assert_eq!(st, CrcStatus::Mismatch, "flip at byte {i} bit {k}");
        }
    }
}

#[test]
fn low_cmd_has_fixed_length_and_defaults() {
    let lc = LowCmd::new();
    let built = lc.build_cmd(true);
    assert_eq!(built.len(), 614);
    assert_eq!(&built[0..2], &[0xFE, 0xEF]);
    assert_eq!(built[2], 0xFF);
    assert_eq!(&built[20..22], &[0x3A, 0xC0]);
    // Every motor slot defaults to servo mode.
    for slot in 0..20 {
        assert_eq!(built[22 + slot * 27], 0x0A);
    }
}

#[test]
fn low_cmd_checksum_self_consistency() {
    let lc = LowCmd::new();
    let plain = lc.build_cmd(false);
    let (_, st) = LowCmd::low_cmd_from_bytes(&plain).unwrap();
    assert_eq!(st, CrcStatus::Plain);
    let obf = lc.build_cmd(true);
    let (_, st) = LowCmd::low_cmd_from_bytes(&obf).unwrap();
    assert_eq!(st, CrcStatus::Obfuscated);
}

#[test]
fn low_cmd_motor_slot_round_trip() {
    let mut lc = LowCmd::new();
    let cmd = MotorCmd::new(0x0A, 0.75f32.to_bits(), 0, 256, 150, 30, [0, 0, 0]);
    lc.motor_cmd.set_motor_cmd(7, cmd).unwrap();
    let built = lc.build_cmd(true);
    let (back, st) = LowCmd::low_cmd_from_bytes(&built).unwrap();
    assert_eq!(st, CrcStatus::Obfuscated);
    let slot = &back.motor_cmd.cmds[7];
    assert_eq!(slot.q, 0.75f32.to_bits());
    assert_eq!(slot.kp, 150);
    assert_eq!(slot.kd, 30);
    assert_eq!(slot.tau, 256);
}

#[test]
fn low_cmd_wrong_length_is_rejected() {
    assert!(matches!(
        LowCmd::low_cmd_from_bytes(&[0u8; 613]),
        Err(CodecError::LengthMismatch)
    ));
}

#[test]
fn low_cmd_single_bit_corruption_is_detected() {
    let built = LowCmd::new().build_cmd(false);
    // Sample bit positions across the whole covered region.
    for i in (0..608).step_by(13) {
        for k in 0..8 {
            let mut damaged = built.clone();
            damaged[i] ^= 1u8 << k;
            let (_, st) = LowCmd::low_cmd_from_bytes(&damaged).unwrap();
            assert_eq!(st, CrcStatus::Mismatch, "flip at byte {i} bit {k}");
        }
    }
}

#[test]
fn high_state_build_parse_round_trip() {
    let mut hs = HighState::new();
    hs.head = [0xFE, 0xEF];
    hs.level_flag = 0xEE;
    hs.sn = [4, 3, 1, 2, 3, 4, 0, 0];
    hs.version = [1, 2, 3, 4, 5, 6, 0, 0];
    hs.imu.quaternion = [
        1.0f32.to_bits(),
        0.0f32.to_bits(),
        0.0f32.to_bits(),
        0.0f32.to_bits(),
    ];
    hs.imu.temperature = 45;
    hs.motor_state[3].q = 0.5f32.to_bits();
    hs.motor_state[3].temperature = 50;
    hs.bms.soc = 77;
    hs.bms.current = -1200;
    hs.bms.cycle = 9;
    hs.foot_force = [10, 20, 30, 40];
    hs.foot_force_est = [11, 21, 31, 41];
    hs.mode = MotorModeHigh::ForceStand;
    hs.progress = 0.5f32.to_bits();
    hs.gait_type = GaitType::Trot;
    hs.body_height = 0.3f32.to_bits();
    hs.velocity = [0.1f32.to_bits(), 0.2f32.to_bits(), 0.3f32.to_bits()];
    hs.yaw_speed = 0.4f32.to_bits();
    hs.foot_position_to_body[2].x = 0.25f32.to_bits();
    hs.wireless_remote[39] = 0x5A;
    hs.reserve = [9, 9, 9, 9];
    let built = hs.build_state(false);
    assert_eq!(built.len(), 1087);
    let mut back = HighState::new();
    let st = back.parse_data(&built).unwrap();
    assert_eq!(st, CrcStatus::Plain);
    assert_eq!(back.head, hs.head);
    assert_eq!(back.level_flag, hs.level_flag);
    assert_eq!(back.sn, hs.sn);
    assert_eq!(back.version, hs.version);
    assert_eq!(back.imu, hs.imu);
    assert_eq!(back.motor_state, hs.motor_state);
    assert_eq!(back.bms, hs.bms);
    assert_eq!(back.foot_force, hs.foot_force);
    assert_eq!(back.foot_force_est, hs.foot_force_est);
    assert_eq!(back.mode, hs.mode);
    assert_eq!(back.progress, hs.progress);
    assert_eq!(back.gait_type, hs.gait_type);
    assert_eq!(back.position, hs.position);
    assert_eq!(back.body_height, hs.body_height);
    assert_eq!(back.velocity, hs.velocity);
    assert_eq!(back.yaw_speed, hs.yaw_speed);
    assert_eq!(back.range_obstacle, hs.range_obstacle);
    assert_eq!(back.foot_position_to_body, hs.foot_position_to_body);
    assert_eq!(back.foot_speed_to_body, hs.foot_speed_to_body);
    assert_eq!(back.wireless_remote, hs.wireless_remote);
    assert_eq!(back.reserve, hs.reserve);
    // The parsed value stores the trailing checksum bytes it saw.
    assert_eq!(&back.crc, &built[1083..1087]);
}

#[test]
fn high_state_obfuscated_checksum_recovered() {
    let hs = HighState::new();
    let built = hs.build_state(true);
    let mut back = HighState::new();
    let st = back.parse_data(&built).unwrap();
    assert_eq!(st, CrcStatus::Obfuscated);
}

#[test]
fn high_state_wrong_length_is_rejected() {
    let mut hs = HighState::new();
    assert_eq!(
        hs.parse_data(&[0u8; 1086]),
        Err(CodecError::LengthMismatch)
    );
    assert_eq!(
        hs.parse_data(&[0u8; 1088]),
        Err(CodecError::LengthMismatch)
    );
}

#[test]
fn high_state_single_bit_corruption_is_detected() {
    let built = HighState::new().build_state(false);
    // Sample bit positions across the whole covered region.
    for i in (0..1080).step_by(23) {
        for k in 0..8 {
            let mut damaged = built.clone();
            damaged[i] ^= 1u8 << k;
            let mut back = HighState::new();
            let st = back.parse_data(&damaged).unwrap();
            assert_eq!(st, CrcStatus::Mismatch, "flip at byte {i} bit {k}");
        }
    }
}

#[test]
fn high_state_entity_decoders_check_length() {
    let hs = HighState::new();
    assert!(hs.data_to_imu(&[0u8; 53]).is_ok());
    assert_eq!(
        hs.data_to_imu(&[0u8; 54]),
        Err(CodecError::LengthMismatch)
    );
    assert!(hs.data_to_motor_state(&[0u8; 32]).is_ok());
    assert_eq!(
        hs.data_to_motor_state(&[0u8; 2]),
        Err(CodecError::LengthMismatch)
    );
    assert!(hs.data_to_bms_state(&[0u8; 34]).is_ok());
    assert_eq!(
        hs.data_to_bms_state(&[0u8; 0]),
        Err(CodecError::LengthMismatch)
    );
}
