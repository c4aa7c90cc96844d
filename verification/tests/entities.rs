//! Entity codec round trips, length-mismatch errors and enum safety.

use ucl::complex::BmsCmd;
use ucl::complex::BmsState;
use ucl::complex::Cartesian;
use ucl::complex::Imu;
use ucl::complex::Led;
use ucl::complex::MotorCmd;
use ucl::complex::MotorCmdArray;
use ucl::complex::MotorState;
use ucl::enums::GaitType;
use ucl::enums::Motor;
use ucl::enums::MotorModeHigh;
use ucl::enums::MotorModeLow;
use ucl::enums::SpeedLevel;
use ucl::CodecError;

#[test]
fn motor_cmd_round_trip() {
    let cmd = MotorCmd::new(
        MotorModeLow::Servo.to_u8(),
        1.5f32.to_bits(),
        (-0.25f32).to_bits(),
        576, // 2.25 N.m in 1/256 steps
        253, // kp 25.3 in tenths
        57,  // kd 5.7 in tenths
        [7, 8, 9],
    );
    let bytes = cmd.get_bytes();
    assert_eq!(bytes.len(), 27);
    let back = MotorCmd::from_bytes(&bytes).unwrap();
    assert_eq!(back.mode, cmd.mode);
    assert_eq!(back.q, cmd.q);
    assert_eq!(back.dq, cmd.dq);
    assert_eq!(back.kp, cmd.kp);
    assert_eq!(back.kd, cmd.kd);
    assert_eq!(back.reserve, cmd.reserve);
    // The torque decodes coarsely to the nearest whole step: 2.25 -> 2.0.
    assert_eq!(back.tau, 512);
    assert!((back.tau - cmd.tau).abs() <= 256);
}

#[test]
fn motor_cmd_wrong_length_is_rejected() {
    assert_eq!(
        MotorCmd::from_bytes(&[0u8; 26]),
        Err(CodecError::LengthMismatch)
    );
    assert_eq!(
        MotorCmd::from_bytes(&[0u8; 28]),
        Err(CodecError::LengthMismatch)
    );
}

#[test]
fn motor_cmd_array_defaults_to_servo() {
    let arr = MotorCmdArray::new();
    let bytes = arr.get_bytes();
    assert_eq!(bytes.len(), 540);
    for slot in 0..20 {
        assert_eq!(bytes[slot * 27], 0x0A, "mode byte of slot {slot}");
    }
}

#[test]
fn motor_cmd_array_set_and_serialize() {
    let mut arr = MotorCmdArray::new();
    let cmd = MotorCmd::new(MotorModeLow::Damping.to_u8(), 0, 0, 0, 100, 10, [0, 0, 0]);
    let slot = Motor::Fl2.slot();
    assert_eq!(slot, 5);
    assert_eq!(arr.set_motor_cmd(slot, cmd), Ok(()));
    let bytes = arr.get_bytes();
    let chunk = &bytes[slot * 27..slot * 27 + 27];
    assert_eq!(MotorCmd::from_bytes(chunk).unwrap().kp, 100);
}

#[test]
fn motor_cmd_array_invalid_index_is_a_no_op() {
    let mut arr = MotorCmdArray::new();
    let before = arr.get_bytes();
    let cmd = MotorCmd::new(0, 0, 0, 0, 1, 1, [0, 0, 0]);
    assert_eq!(arr.set_motor_cmd(20, cmd), Err(CodecError::InvalidIndex));
    assert_eq!(arr.get_bytes(), before);
}

#[test]
fn motor_cmd_array_rejects_539_bytes() {
    let mut arr = MotorCmdArray::new();
    assert_eq!(
        arr.from_bytes(&[0u8; 539]),
        Err(CodecError::LengthMismatch)
    );
}

#[test]
fn motor_cmd_array_round_trip() {
    let mut src = MotorCmdArray::new();
    let cmd = MotorCmd::new(0x0A, 0.5f32.to_bits(), 0, -896, 100, 57, [1, 2, 3]);
    src.set_motor_cmd(11, cmd).unwrap();
    let bytes = src.get_bytes();
    let mut dst = MotorCmdArray::new();
    dst.from_bytes(&bytes).unwrap();
    let again = dst.get_bytes();
    // Everything but the coarsely decoded torque fraction survives; slot 11
    // carries the set values.
    let c = MotorCmd::from_bytes(&again[11 * 27..12 * 27]).unwrap();
    assert_eq!(c.q, 0.5f32.to_bits());
    assert_eq!(c.kp, 100);
    assert_eq!(c.kd, 57);
    assert_eq!(c.reserve, [1, 2, 3]);
}

#[test]
fn bms_cmd_round_trip() {
    let b = BmsCmd::new(1, [2, 3, 4]);
    let bytes = b.get_bytes();
    assert_eq!(bytes, vec![1, 2, 3, 4]);
    assert_eq!(BmsCmd::from_bytes(&bytes).unwrap(), b);
    assert_eq!(
        BmsCmd::from_bytes(&[0u8; 3]),
        Err(CodecError::LengthMismatch)
    );
}

#[test]
fn led_serializes_with_zero_pad() {
    assert_eq!(Led::new(10, 20, 30).get_bytes(), vec![10, 20, 30, 0]);
}

#[test]
fn cartesian_round_trip() {
    let c = Cartesian::new(1.0f32.to_bits(), (-2.0f32).to_bits(), 0.125f32.to_bits());
    let bytes = c.get_bytes();
    assert_eq!(bytes.len(), 12);
    assert_eq!(Cartesian::from_bytes(&bytes).unwrap(), c);
    assert_eq!(
        Cartesian::from_bytes(&[0u8; 11]),
        Err(CodecError::LengthMismatch)
    );
}

#[test]
fn motor_state_round_trip() {
    let m = MotorState {
        mode: 1,
        q: 0.5f32.to_bits(),
        dq: 1.5f32.to_bits(),
        ddq: 2.5f32.to_bits(),
        tau_est: (-1.0f32).to_bits(),
        q_raw: 3.5f32.to_bits(),
        dq_raw: 4.5f32.to_bits(),
        ddq_raw: 5.5f32.to_bits(),
        temperature: 37,
        reserve: [9, 8],
    };
    let bytes = m.get_bytes();
    assert_eq!(bytes.len(), 32);
    assert_eq!(MotorState::from_bytes(&bytes).unwrap(), m);
    assert_eq!(
        MotorState::from_bytes(&[0u8; 31]),
        Err(CodecError::LengthMismatch)
    );
}

#[test]
fn imu_round_trip() {
    let imu = Imu {
        quaternion: [
            1.0f32.to_bits(),
            0.0f32.to_bits(),
            0.5f32.to_bits(),
            (-0.5f32).to_bits(),
        ],
        gyroscope: [0.1f32.to_bits(), 0.2f32.to_bits(), 0.3f32.to_bits()],
        accelerometer: [9.8f32.to_bits(), 0.0f32.to_bits(), 0.0f32.to_bits()],
        rpy: [0.0f32.to_bits(), 0.0f32.to_bits(), 3.14f32.to_bits()],
        temperature: 41,
    };
    let bytes = imu.get_bytes();
    assert_eq!(bytes.len(), 53);
    assert_eq!(Imu::from_bytes(&bytes).unwrap(), imu);
    assert_eq!(Imu::from_bytes(&[0u8; 52]), Err(CodecError::LengthMismatch));
}

#[test]
fn bms_state_round_trip() {
    let b = BmsState {
        version_h: 1,
        version_l: 2,
        bms_status: 3,
        soc: 88,
        current: -1500,
        cycle: 42,
        bq_ntc: [25, -3],
        mcu_ntc: [30, 31],
        cell_vol: [4100, 4101, 4102, 4103, 4104, 4105, 4106, 4107, 4108, 4109],
    };
    let bytes = b.get_bytes();
    assert_eq!(bytes.len(), 34);
    assert_eq!(BmsState::from_bytes(&bytes).unwrap(), b);
    assert_eq!(
        BmsState::from_bytes(&[0u8; 33]),
        Err(CodecError::LengthMismatch)
    );
}

#[test]
fn unknown_mode_byte_decodes_to_unknown() {
    assert_eq!(MotorModeHigh::from_u8(0xFF), MotorModeHigh::Unknown);
    assert_eq!(MotorModeHigh::from_u8(14), MotorModeHigh::Unknown);
    assert_eq!(MotorModeHigh::from_u8(2), MotorModeHigh::VelWalk);
    assert_eq!(GaitType::from_u8(0xFF), GaitType::Unknown);
    assert_eq!(GaitType::from_u8(1), GaitType::Trot);
    assert_eq!(SpeedLevel::from_u8(0xFF), SpeedLevel::Unknown);
    assert_eq!(MotorModeLow::from_u8(0x0A), MotorModeLow::Servo);
    assert_eq!(MotorModeLow::from_u8(0x05), MotorModeLow::Unknown);
}

#[test]
fn known_mode_bytes_round_trip() {
    for b in 0u8..=13 {
        let m = MotorModeHigh::from_u8(b);
        assert_ne!(m, MotorModeHigh::Unknown);
        assert_eq!(m.to_u8(), b);
    }
}
