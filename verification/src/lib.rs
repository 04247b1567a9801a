//! Client library for the myCobot robot arm: the serial command protocol, its
//! frames, and the decoding of the arm's replies.

pub mod common;
pub mod utils;
pub mod io;
pub mod operator;




pub use common::{Angle, Command, Coord, Direction, GripperState, Mode, PinMode};
