//! Wire enumerations of the protocol. Every byte value here is a stable
//! wire constant; a byte outside the known set decodes to an explicit
//! `Unknown` variant, never to a reinterpreted integer.

use vstd::prelude::*;

verus! {

/// Operating mode of the high-level tier.
#[derive(Debug, Clone, Copy, PartialEq, Eq)]
pub enum MotorModeHigh {
    Idle,
    ForceStand,
    VelWalk,
    PosWalk,
    Path,
    StandDown,
    StandUp,
    Damping,
    Recovery,
    Backflip,
    Jumpyaw,
    Straighthand,
    Dance1,
    Dance2,
    /// A byte value outside the known set.
    Unknown,
}

/// The wire byte of a high-level mode (`Unknown` writes as 0xFF).
pub open spec fn spec_mode_high_byte(m: MotorModeHigh) -> u8 {
    match m {
        MotorModeHigh::Idle => 0,
        MotorModeHigh::ForceStand => 1,
        MotorModeHigh::VelWalk => 2,
        MotorModeHigh::PosWalk => 3,
        MotorModeHigh::Path => 4,
        MotorModeHigh::StandDown => 5,
        MotorModeHigh::StandUp => 6,
        MotorModeHigh::Damping => 7,
        MotorModeHigh::Recovery => 8,
        MotorModeHigh::Backflip => 9,
        MotorModeHigh::Jumpyaw => 10,
        MotorModeHigh::Straighthand => 11,
        MotorModeHigh::Dance1 => 12,
        MotorModeHigh::Dance2 => 13,
        MotorModeHigh::Unknown => 0xFF,
    }
}

/// The high-level mode a wire byte decodes to; bytes above 13 decode to
/// `Unknown`.
pub open spec fn spec_mode_high_from_byte(b: u8) -> MotorModeHigh {
    if b == 0 {
        MotorModeHigh::Idle
    } else if b == 1 {
        MotorModeHigh::ForceStand
    } else if b == 2 {
        MotorModeHigh::VelWalk
    } else if b == 3 {
        MotorModeHigh::PosWalk
    } else if b == 4 {
        MotorModeHigh::Path
    } else if b == 5 {
        MotorModeHigh::StandDown
    } else if b == 6 {
        MotorModeHigh::StandUp
    } else if b == 7 {
        MotorModeHigh::Damping
    } else if b == 8 {
        MotorModeHigh::Recovery
    } else if b == 9 {
        MotorModeHigh::Backflip
    } else if b == 10 {
        MotorModeHigh::Jumpyaw
    } else if b == 11 {
        MotorModeHigh::Straighthand
    } else if b == 12 {
        MotorModeHigh::Dance1
    } else if b == 13 {
        MotorModeHigh::Dance2
    } else {
        MotorModeHigh::Unknown
    }
}

impl MotorModeHigh {
    /// Encodes this mode as its wire byte.
    pub fn to_u8(self) -> (b: u8)
        ensures
            b == spec_mode_high_byte(self),
    {
        match self {
            MotorModeHigh::Idle => 0,
            MotorModeHigh::ForceStand => 1,
            MotorModeHigh::VelWalk => 2,
            MotorModeHigh::PosWalk => 3,
            MotorModeHigh::Path => 4,
            MotorModeHigh::StandDown => 5,
            MotorModeHigh::StandUp => 6,
            MotorModeHigh::Damping => 7,
            MotorModeHigh::Recovery => 8,
            MotorModeHigh::Backflip => 9,
            MotorModeHigh::Jumpyaw => 10,
            MotorModeHigh::Straighthand => 11,
            MotorModeHigh::Dance1 => 12,
            MotorModeHigh::Dance2 => 13,
            MotorModeHigh::Unknown => 0xFF,
        }
    }

    /// Decodes a wire byte; any byte outside the known set yields `Unknown`.
    pub fn from_u8(b: u8) -> (m: MotorModeHigh)
        ensures
            m == spec_mode_high_from_byte(b),
            b > 13 ==> m == MotorModeHigh::Unknown,
    {
        if b == 0 {
            MotorModeHigh::Idle
        } else if b == 1 {
            MotorModeHigh::ForceStand
        } else if b == 2 {
            MotorModeHigh::VelWalk
        } else if b == 3 {
            MotorModeHigh::PosWalk
        } else if b == 4 {
            MotorModeHigh::Path
        } else if b == 5 {
            MotorModeHigh::StandDown
        } else if b == 6 {
            MotorModeHigh::StandUp
        } else if b == 7 {
            MotorModeHigh::Damping
        } else if b == 8 {
            MotorModeHigh::Recovery
        } else if b == 9 {
            MotorModeHigh::Backflip
        } else if b == 10 {
            MotorModeHigh::Jumpyaw
        } else if b == 11 {
            MotorModeHigh::Straighthand
        } else if b == 12 {
            MotorModeHigh::Dance1
        } else if b == 13 {
            MotorModeHigh::Dance2
        } else {
            MotorModeHigh::Unknown
        }
    }
}

/// Every known high-level mode survives an encode / decode round trip.
pub proof fn lemma_mode_high_round_trip(m: MotorModeHigh)
    requires
        m != MotorModeHigh::Unknown,
    ensures
        spec_mode_high_from_byte(spec_mode_high_byte(m)) == m,
{
}

/// Gait selector of the high-level tier.
#[derive(Debug, Clone, Copy, PartialEq, Eq)]
pub enum GaitType {
    Idle,
    Trot,
    TrotRunning,
    ClimbStair,
    TrotObstacle,
    /// A byte value outside the known set.
    Unknown,
}

/// The wire byte of a gait type (`Unknown` writes as 0xFF).
pub open spec fn spec_gait_byte(g: GaitType) -> u8 {
    match g {
        GaitType::Idle => 0,
        GaitType::Trot => 1,
        GaitType::TrotRunning => 2,
        GaitType::ClimbStair => 3,
        GaitType::TrotObstacle => 4,
        GaitType::Unknown => 0xFF,
    }
}

/// The gait type a wire byte decodes to; bytes above 4 decode to `Unknown`.
pub open spec fn spec_gait_from_byte(b: u8) -> GaitType {
    if b == 0 {
        GaitType::Idle
    } else if b == 1 {
        GaitType::Trot
    } else if b == 2 {
        GaitType::TrotRunning
    } else if b == 3 {
        GaitType::ClimbStair
    } else if b == 4 {
        GaitType::TrotObstacle
    } else {
        GaitType::Unknown
    }
}

impl GaitType {
    /// Encodes this gait type as its wire byte.
    pub fn to_u8(self) -> (b: u8)
        ensures
            b == spec_gait_byte(self),
    {
        match self {
            GaitType::Idle => 0,
            GaitType::Trot => 1,
            GaitType::TrotRunning => 2,
            GaitType::ClimbStair => 3,
            GaitType::TrotObstacle => 4,
            GaitType::Unknown => 0xFF,
        }
    }

    /// Decodes a wire byte; any byte outside the known set yields `Unknown`.
    pub fn from_u8(b: u8) -> (g: GaitType)
        ensures
            g == spec_gait_from_byte(b),
            b > 4 ==> g == GaitType::Unknown,
    {
        if b == 0 {
            GaitType::Idle
        } else if b == 1 {
            GaitType::Trot
        } else if b == 2 {
            GaitType::TrotRunning
        } else if b == 3 {
            GaitType::ClimbStair
        } else if b == 4 {
            GaitType::TrotObstacle
        } else {
            GaitType::Unknown
        }
    }
}

/// Speed limit selector of the high-level tier.
#[derive(Debug, Clone, Copy, PartialEq, Eq)]
pub enum SpeedLevel {
    LowSpeed,
    MediumSpeed,
    HighSpeed,
    /// A byte value outside the known set.
    Unknown,
}

/// The wire byte of a speed level (`Unknown` writes as 0xFF).
pub open spec fn spec_speed_byte(s: SpeedLevel) -> u8 {
    match s {
        SpeedLevel::LowSpeed => 0,
        SpeedLevel::MediumSpeed => 1,
        SpeedLevel::HighSpeed => 2,
        SpeedLevel::Unknown => 0xFF,
    }
}

/// The speed level a wire byte decodes to; bytes above 2 decode to
/// `Unknown`.
pub open spec fn spec_speed_from_byte(b: u8) -> SpeedLevel {
    if b == 0 {
        SpeedLevel::LowSpeed
    } else if b == 1 {
        SpeedLevel::MediumSpeed
    } else if b == 2 {
        SpeedLevel::HighSpeed
    } else {
        SpeedLevel::Unknown
    }
}

impl SpeedLevel {
    /// Encodes this speed level as its wire byte.
    pub fn to_u8(self) -> (b: u8)
        ensures
            b == spec_speed_byte(self),
    {
        match self {
            SpeedLevel::LowSpeed => 0,
            SpeedLevel::MediumSpeed => 1,
            SpeedLevel::HighSpeed => 2,
            SpeedLevel::Unknown => 0xFF,
        }
    }

    /// Decodes a wire byte; any byte outside the known set yields `Unknown`.
    pub fn from_u8(b: u8) -> (s: SpeedLevel)
        ensures
            s == spec_speed_from_byte(b),
            b > 2 ==> s == SpeedLevel::Unknown,
    {
        if b == 0 {
            SpeedLevel::LowSpeed
        } else if b == 1 {
            SpeedLevel::MediumSpeed
        } else if b == 2 {
            SpeedLevel::HighSpeed
        } else {
            SpeedLevel::Unknown
        }
    }
}

/// The twelve named leg joints, in actuator-slot order (slots 12 through 19
/// of a motor array are reserved and carry no name).
#[derive(Debug, Clone, Copy, PartialEq, Eq)]
pub enum Motor {
    Fr0,
    Fr1,
    Fr2,
    Fl0,
    Fl1,
    Fl2,
    Rr0,
    Rr1,
    Rr2,
    Rl0,
    Rl1,
    Rl2,
}

/// The actuator slot of a named joint.
pub open spec fn spec_motor_slot(m: Motor) -> int {
    match m {
        Motor::Fr0 => 0,
        Motor::Fr1 => 1,
        Motor::Fr2 => 2,
        Motor::Fl0 => 3,
        Motor::Fl1 => 4,
        Motor::Fl2 => 5,
        Motor::Rr0 => 6,
        Motor::Rr1 => 7,
        Motor::Rr2 => 8,
        Motor::Rl0 => 9,
        Motor::Rl1 => 10,
        Motor::Rl2 => 11,
    }
}

impl Motor {
    /// The actuator slot this joint occupies in a motor array.
    pub fn slot(self) -> (i: usize)
        ensures
            i == spec_motor_slot(self),
            i < 12,
    {
        match self {
            Motor::Fr0 => 0,
            Motor::Fr1 => 1,
            Motor::Fr2 => 2,
            Motor::Fl0 => 3,
            Motor::Fl1 => 4,
            Motor::Fl2 => 5,
            Motor::Rr0 => 6,
            Motor::Rr1 => 7,
            Motor::Rr2 => 8,
            Motor::Rl0 => 9,
            Motor::Rl1 => 10,
            Motor::Rl2 => 11,
        }
    }
}

/// Per-actuator operating mode of the low-level tier.
#[derive(Debug, Clone, Copy, PartialEq, Eq)]
pub enum MotorModeLow {
    Damping,
    Servo,
    Overheat,
    /// A byte value outside the known set.
    Unknown,
}

/// The wire byte of a low-level motor mode (`Unknown` writes as 0xFF).
pub open spec fn spec_mode_low_byte(m: MotorModeLow) -> u8 {
    match m {
        MotorModeLow::Damping => 0x00,
        MotorModeLow::Servo => 0x0A,
        MotorModeLow::Overheat => 0x08,
        MotorModeLow::Unknown => 0xFF,
    }
}

/// The low-level motor mode a wire byte decodes to; bytes outside
/// {0x00, 0x0A, 0x08} decode to `Unknown`.
pub open spec fn spec_mode_low_from_byte(b: u8) -> MotorModeLow {
    if b == 0x00 {
        MotorModeLow::Damping
    } else if b == 0x0A {
        MotorModeLow::Servo
    } else if b == 0x08 {
        MotorModeLow::Overheat
    } else {
        MotorModeLow::Unknown
    }
}

impl MotorModeLow {
    /// Encodes this mode as its wire byte.
    pub fn to_u8(self) -> (b: u8)
        ensures
            b == spec_mode_low_byte(self),
    {
        match self {
            MotorModeLow::Damping => 0x00,
            MotorModeLow::Servo => 0x0A,
            MotorModeLow::Overheat => 0x08,
            MotorModeLow::Unknown => 0xFF,
        }
    }

    /// Decodes a wire byte; any byte outside the known set yields `Unknown`.
    pub fn from_u8(b: u8) -> (m: MotorModeLow)
        ensures
            m == spec_mode_low_from_byte(b),
    {
        if b == 0x00 {
            MotorModeLow::Damping
        } else if b == 0x0A {
            MotorModeLow::Servo
        } else if b == 0x08 {
            MotorModeLow::Overheat
        } else {
            MotorModeLow::Unknown
        }
    }
}

} // verus!
