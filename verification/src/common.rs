use vstd::prelude::*;

verus! {

/// The six joints of the arm.
#[derive(Clone, Copy, Debug, PartialEq, Eq)]
pub enum Angle {
    J1,
    J2,
    J3,
    J4,
    J5,
    J6,
}

impl Angle {
    /// The joint's number on the wire (1 to 6).
    pub open spec fn code(self) -> u8 {
        match self {
            Angle::J1 => 1,
            Angle::J2 => 2,
            Angle::J3 => 3,
            Angle::J4 => 4,
            Angle::J5 => 5,
            Angle::J6 => 6,
        }
    }

    pub fn as_u8(self) -> (r: u8)
        ensures
            r == self.code(),
    {
        match self {
            Angle::J1 => 1,
            Angle::J2 => 2,
            Angle::J3 => 3,
            Angle::J4 => 4,
            Angle::J5 => 5,
            Angle::J6 => 6,
        }
    }
}

/// The six axes of a Cartesian pose: position, then orientation.
#[derive(Clone, Copy, Debug, PartialEq, Eq)]
pub enum Coord {
    X,
    Y,
    Z,
    Rx,
    Ry,
    Rz,
}

impl Coord {
    /// The axis' number (1 to 6).
    pub open spec fn code(self) -> u8 {
        match self {
            Coord::X => 1,
            Coord::Y => 2,
            Coord::Z => 3,
            Coord::Rx => 4,
            Coord::Ry => 5,
            Coord::Rz => 6,
        }
    }

    pub fn as_u8(self) -> (r: u8)
        ensures
            r == self.code(),
    {
        match self {
            Coord::X => 1,
            Coord::Y => 2,
            Coord::Z => 3,
            Coord::Rx => 4,
            Coord::Ry => 5,
            Coord::Rz => 6,
        }
    }

    /// The axis whose number is `n`, if there is one.
    pub fn from_u32(n: u32) -> (r: Option<Coord>)
        ensures
            r.is_some() == (1 <= n <= 6),
            r matches Some(c) ==> c.code() == n,
    {
        match n {
            1 => Some(Coord::X),
            2 => Some(Coord::Y),
            3 => Some(Coord::Z),
            4 => Some(Coord::Rx),
            5 => Some(Coord::Ry),
            6 => Some(Coord::Rz),
            _ => None,
        }
    }
}

/// Numbering an axis loses nothing: `from_u32` gives back the axis that a
/// number names, and two axes never share a number.
pub proof fn lemma_coord_code_inverse(c: Coord, d: Coord)
    ensures
        1 <= c.code() <= 6,
        c.code() == d.code() ==> c == d,
{
}

/// Direction of a jog.
#[derive(Clone, Copy, Debug, PartialEq, Eq)]
pub enum Direction {
    Decrease,
    Increase,
}

impl Direction {
    pub open spec fn code(self) -> u8 {
        match self {
            Direction::Decrease => 0,
            Direction::Increase => 1,
        }
    }

    pub fn as_u8(self) -> (r: u8)
        ensures
            r == self.code(),
    {
        match self {
            Direction::Decrease => 0,
            Direction::Increase => 1,
        }
    }
}

/// How the arm moves towards a Cartesian target.
#[derive(Clone, Copy, Debug, PartialEq, Eq)]
pub enum Mode {
    Normal,
    Angular,
    Linear,
}

impl Mode {
    pub open spec fn code(self) -> u8 {
        match self {
            Mode::Normal => 0,
            Mode::Angular => 1,
            Mode::Linear => 2,
        }
    }

    pub fn as_u8(self) -> (r: u8)
        ensures
            r == self.code(),
    {
        match self {
            Mode::Normal => 0,
            Mode::Angular => 1,
            Mode::Linear => 2,
        }
    }
}

/// Mode of a digital pin of the end effector.
#[derive(Clone, Copy, Debug, PartialEq, Eq)]
pub enum PinMode {
    Input,
    Output,
    InputPullup,
}

impl PinMode {
    pub open spec fn code(self) -> u8 {
        match self {
            PinMode::Input => 0,
            PinMode::Output => 1,
            PinMode::InputPullup => 2,
        }
    }

    pub fn as_u8(self) -> (r: u8)
        ensures
            r == self.code(),
    {
        match self {
            PinMode::Input => 0,
            PinMode::Output => 1,
            PinMode::InputPullup => 2,
        }
    }
}

/// Target state of the gripper.
#[derive(Clone, Copy, Debug, PartialEq, Eq)]
pub enum GripperState {
    Open,
    Close,
}

impl GripperState {
    pub open spec fn code(self) -> u8 {
        match self {
            GripperState::Open => 0,
            GripperState::Close => 1,
        }
    }

    pub fn as_u8(self) -> (r: u8)
        ensures
            r == self.code(),
    {
        match self {
            GripperState::Open => 0,
            GripperState::Close => 1,
        }
    }
}

/// Bytes of the serial protocol: frame delimiters and command numbers.
#[non_exhaustive]
pub struct Command;

impl Command {
    pub const HEADER: u8 = 0xFE;
    pub const FOOTER: u8 = 0xFA;

    pub const VERSION: u8 = 0x00;

    pub const POWER_ON: u8 = 0x10;
    pub const POWER_OFF: u8 = 0x11;
    pub const IS_POWER_ON: u8 = 0x12;
    pub const RELEASE_ALL_SERVOS: u8 = 0x13;
    pub const IS_CONTROLLER_CONNECTED: u8 = 0x14;
    pub const READ_NEXT_ERROR: u8 = 0x15;
    pub const SET_FREE_MODE: u8 = 0x1A;
    pub const IS_FREE_MODE: u8 = 0x1B;

    pub const GET_ANGLES: u8 = 0x20;
    pub const SEND_ANGLE: u8 = 0x21;
    pub const SEND_ANGLES: u8 = 0x22;
    pub const GET_COORDS: u8 = 0x23;
    pub const SEND_COORD: u8 = 0x24;
    pub const SEND_COORDS: u8 = 0x25;
    pub const PAUSE: u8 = 0x26;
    pub const IS_PAUSED: u8 = 0x27;
    pub const RESUME: u8 = 0x28;
    pub const STOP: u8 = 0x29;
    pub const IS_IN_POSITION: u8 = 0x2A;
    pub const IS_MOVING: u8 = 0x2B;

    pub const JOG_ANGLE: u8 = 0x30;
    pub const JOG_COORD: u8 = 0x32;
    pub const JOG_STOP: u8 = 0x34;
    pub const SET_ENCODER: u8 = 0x3A;
    pub const GET_ENCODER: u8 = 0x3B;
    pub const SET_ENCODERS: u8 = 0x3C;
    pub const GET_ENCODERS: u8 = 0x3D;

    pub const GET_SPEED: u8 = 0x40;
    pub const SET_SPEED: u8 = 0x41;
    pub const GET_FEED_OVERRIDE: u8 = 0x42;
    pub const GET_ACCELERATION: u8 = 0x44;
    pub const GET_JOINT_MIN_ANGLE: u8 = 0x4A;
    pub const GET_JOINT_MAX_ANGLE: u8 = 0x4B;

    pub const IS_SERVO_ENABLE: u8 = 0x50;
    pub const IS_ALL_SERVO_ENABLE: u8 = 0x51;
    pub const SET_SERVO_DATA: u8 = 0x52;
    pub const GET_SERVO_DATA: u8 = 0x53;
    pub const SET_SERVO_CALIBRATION: u8 = 0x54;
    pub const RELEASE_SERVO: u8 = 0x56;
    pub const FOCUS_SERVO: u8 = 0x57;

    pub const SET_PIN_MODE: u8 = 0x60;
    pub const SET_DIGITAL_OUTPUT: u8 = 0x61;
    pub const GET_DIGITAL_OUTPUT: u8 = 0x62;
    pub const GET_DIGITAL_INPUT: u8 = 0x62;
    pub const SET_PWM_MODE: u8 = 0x63;
    pub const GET_PWM_MODE: u8 = 0x64;
    pub const SET_PWM_OUTPUT: u8 = 0x64;
    pub const GET_GRIPPER_VALUE: u8 = 0x65;
    pub const SET_GRIPPER_STATE: u8 = 0x66;
    pub const SET_GRIPPER_VALUE: u8 = 0x67;
    pub const SET_GRIPPER_INI: u8 = 0x68;
    pub const IS_GRIPPER_MOVING: u8 = 0x69;
    pub const SET_COLOR: u8 = 0x6A;

    pub const SET_BASIC_OUTPUT: u8 = 0xA0;
    pub const GET_BASIC_INPUT: u8 = 0xA1;
}

} // verus!

verus! {

/// Each joint goes on the wire as its own number: joint k is k, so the six
/// joints have the numbers 1 to 6, no two alike.
pub proof fn lemma_angle_numbers(a: Angle, b: Angle)
    ensures
        Angle::J1.code() == 1,
        Angle::J2.code() == 2,
        Angle::J3.code() == 3,
        Angle::J4.code() == 4,
        Angle::J5.code() == 5,
        Angle::J6.code() == 6,
        1 <= a.code() <= 6,
        a.code() == b.code() ==> a == b,
{
}

/// The axes are numbered in the order of a pose: X, Y, Z are 1, 2, 3 and Rx,
/// Ry, Rz are 4, 5, 6.
pub proof fn lemma_coord_numbers()
    ensures
        Coord::X.code() == 1,
        Coord::Y.code() == 2,
        Coord::Z.code() == 3,
        Coord::Rx.code() == 4,
        Coord::Ry.code() == 5,
        Coord::Rz.code() == 6,
{
}

/// A jog decreases with 0 and increases with 1.
pub proof fn lemma_direction_numbers()
    ensures
        Direction::Decrease.code() == 0,
        Direction::Increase.code() == 1,
{
}

/// The motion modes are numbered Normal 0, Angular 1, Linear 2.
pub proof fn lemma_mode_numbers()
    ensures
        Mode::Normal.code() == 0,
        Mode::Angular.code() == 1,
        Mode::Linear.code() == 2,
{
}

/// The pin modes are numbered Input 0, Output 1, InputPullup 2.
pub proof fn lemma_pin_mode_numbers()
    ensures
        PinMode::Input.code() == 0,
        PinMode::Output.code() == 1,
        PinMode::InputPullup.code() == 2,
{
}

/// The gripper opens with 0 and closes with 1.
pub proof fn lemma_gripper_state_numbers()
    ensures
        GripperState::Open.code() == 0,
        GripperState::Close.code() == 1,
{
}

} // verus!
