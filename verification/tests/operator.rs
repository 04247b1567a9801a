use mycobot::common::{Angle, Command, Coord, Direction, GripperState, PinMode};
use mycobot::io::Connection;
use mycobot::operator::MyCobotOperator;
use std::cell::RefCell;
use std::collections::VecDeque;
use std::io;
use std::rc::Rc;

type Log = Rc<RefCell<Vec<Vec<u8>>>>;

struct Mock {
    written: Log,
    replies: VecDeque<Result<Vec<u8>, io::Error>>,
}

impl Connection for Mock {
    fn write(&mut self, command: &[u8]) -> Result<(), io::Error> {
        self.written.borrow_mut().push(command.to_vec());
        Ok(())
    }
    fn read(&mut self) -> Result<Vec<u8>, io::Error> {
        self.replies.pop_front().unwrap_or_else(|| Ok(Vec::new()))
    }
    fn write_and_read(&mut self, command: &[u8]) -> Result<Vec<u8>, io::Error> {
        self.written.borrow_mut().push(command.to_vec());
        self.replies.pop_front().unwrap_or_else(|| Ok(Vec::new()))
    }
}

type Op = MyCobotOperator<Mock>;

fn frame(genre: u8, data: &[u8]) -> Vec<u8> {
    Op::concat_message(genre, data)
}

fn op_with(replies: Vec<Result<Vec<u8>, io::Error>>) -> (Op, Log) {
    let log: Log = Rc::new(RefCell::new(Vec::new()));
    let mock = Mock { written: log.clone(), replies: replies.into_iter().collect() };
    (MyCobotOperator::from_connection(mock), log)
}

#[test]
fn concat_message_layout() {
    assert_eq!(frame(0x10, &[]), vec![0xFE, 0xFE, 0x02, 0x10, 0xFA]);
    assert_eq!(frame(0x6A, &[255, 0, 0]), vec![0xFE, 0xFE, 0x05, 0x6A, 0xFF, 0x00, 0x00, 0xFA]);
    let long = vec![7u8; 300];
    let f = frame(0x22, &long);
    assert_eq!(f.len(), 305);
    assert_eq!(f[2], ((300 + 2) % 256) as u8);
    assert_eq!(f[304], 0xFA);
}

#[test]
fn is_frame_header_checks_two_bytes() {
    assert!(Op::is_frame_header(&[0xFE, 0xFE], 0));
    assert!(!Op::is_frame_header(&[0xFE, 0xFA], 0));
    assert!(Op::is_frame_header(&[0x00, 0xFE, 0xFE], 1));
}

#[test]
fn process_received_six_values() {
    let payload = [0x00, 0x01, 0xFF, 0xFE, 0x01, 0x2C, 0x00, 0x00, 0x80, 0x00, 0x7F, 0xFF];
    let reply = frame(Command::GET_ANGLES, &payload);
    assert!(Op::is_valid_reply(&reply, Command::GET_ANGLES));
    assert_eq!(Op::process_received(&reply, Command::GET_ANGLES), vec![1, -2, 300, 0, -32768, 32767]);
}

#[test]
fn process_received_one_value() {
    let reply = frame(Command::GET_ENCODER, &[0x08, 0x00]);
    assert_eq!(Op::process_received(&reply, Command::GET_ENCODER), vec![2048]);
}

#[test]
fn process_received_servo_enable_reads_second_byte() {
    let reply = frame(Command::IS_SERVO_ENABLE, &[0x05, 0x01]);
    assert_eq!(Op::process_received(&reply, Command::IS_SERVO_ENABLE), vec![1]);
    let reply = frame(Command::IS_SERVO_ENABLE, &[0x05, 0xFF]);
    assert_eq!(Op::process_received(&reply, Command::IS_SERVO_ENABLE), vec![-1]);
}

#[test]
fn process_received_one_byte() {
    let reply = frame(Command::IS_POWER_ON, &[0x01]);
    assert_eq!(Op::process_received(&reply, Command::IS_POWER_ON), vec![1]);
    let reply = frame(Command::IS_MOVING, &[0xFE, 0x00, 0x00]);
    assert_eq!(Op::process_received(&reply, Command::IS_MOVING), vec![-2]);
}

#[test]
fn process_received_no_frame() {
    assert_eq!(Op::process_received(&[], Command::IS_POWER_ON), Vec::<i16>::new());
    assert_eq!(Op::process_received(&[0x00; 32], Command::IS_POWER_ON), Vec::<i16>::new());
    assert_eq!(Op::process_received(&[0x01, 0xFE, 0x02], Command::IS_POWER_ON), Vec::<i16>::new());
}

#[test]
fn process_received_other_command() {
    let reply = frame(Command::IS_PAUSED, &[0x01]);
    assert!(Op::is_valid_reply(&reply, Command::IS_POWER_ON));
    assert_eq!(Op::process_received(&reply, Command::IS_POWER_ON), Vec::<i16>::new());
}

#[test]
fn process_received_skips_leading_bytes() {
    let mut reply = vec![0x00, 0xFE, 0x13, 0xFA];
    reply.extend(frame(Command::IS_POWER_ON, &[0x01]));
    reply.extend(vec![0x00; 10]);
    assert_eq!(Op::process_received(&reply, Command::IS_POWER_ON), vec![1]);
}

#[test]
fn is_valid_reply_rejects_broken_frames() {
    // the frame stops before its command byte
    assert!(!Op::is_valid_reply(&[0xFE, 0xFE, 0x03], Command::IS_POWER_ON));
    // it announces less than the command byte
    assert!(!Op::is_valid_reply(&[0xFE, 0xFE, 0x01, 0x12, 0x00], Command::IS_POWER_ON));
    // it announces more payload than there is
    assert!(!Op::is_valid_reply(&[0xFE, 0xFE, 0x06, 0x12, 0x00], Command::IS_POWER_ON));
    // it announces an empty payload
    assert!(!Op::is_valid_reply(&[0xFE, 0xFE, 0x02, 0x12, 0xFA], Command::IS_POWER_ON));
    // an empty payload for another command does not matter
    assert!(Op::is_valid_reply(&[0xFE, 0xFE, 0x02, 0x13, 0xFA], Command::IS_POWER_ON));
    assert!(Op::is_valid_reply(&[], Command::IS_POWER_ON));
}

#[test]
fn write_commands_send_their_frames() {
    let (mut op, log) = op_with(vec![]);
    op.power_on().unwrap();
    op.set_color(255, 0, 0).unwrap();
    op.jog_angle(Angle::J2, Direction::Increase, 50).unwrap();
    op.jog_coord(Coord::Z, Direction::Decrease, 10).unwrap();
    op.send_angle_int(Angle::J1, -9000, 50).unwrap();
    op.send_coord_int(Coord::Y, 258, 20).unwrap();
    op.send_angles_int(&[0, 1, -1, 0, 3000, 0], 50).unwrap();
    op.send_coords_int(&[1, 2, 3, 4, 5, 6], 50, 2).unwrap();
    op.set_encoder(Angle::J3, 2048).unwrap();
    op.set_encoders(&[1, 2], 9).unwrap();
    op.set_pin_mode(3, PinMode::Output).unwrap();
    op.set_digital_output(4, true).unwrap();
    op.set_basic_output(5, false).unwrap();
    op.set_pwm_output(1, 1000, 128).unwrap();
    op.set_gripper_state(GripperState::Close, 70).unwrap();
    op.set_gripper_value(30, 40).unwrap();
    op.set_servo_data(1, 2, 3).unwrap();
    op.release_servo(Angle::J6).unwrap();
    op.focus_servo(Angle::J4).unwrap();
    op.set_speed(80).unwrap();
    let expected: Vec<Vec<u8>> = vec![
        vec![0xFE, 0xFE, 2, 0x10, 0xFA],
        vec![0xFE, 0xFE, 5, 0x6A, 255, 0, 0, 0xFA],
        vec![0xFE, 0xFE, 5, 0x30, 2, 1, 50, 0xFA],
        vec![0xFE, 0xFE, 5, 0x32, 3, 0, 10, 0xFA],
        vec![0xFE, 0xFE, 6, 0x21, 1, 0xDC, 0xD8, 50, 0xFA],
        vec![0xFE, 0xFE, 6, 0x24, 1, 0x01, 0x02, 20, 0xFA],
        vec![0xFE, 0xFE, 15, 0x22, 0, 0, 0, 1, 0xFF, 0xFF, 0, 0, 0x0B, 0xB8, 0, 0, 50, 0xFA],
        vec![0xFE, 0xFE, 16, 0x25, 0, 1, 0, 2, 0, 3, 0, 4, 0, 5, 0, 6, 50, 2, 0xFA],
        vec![0xFE, 0xFE, 5, 0x3A, 3, 0x08, 0x00, 0xFA],
        vec![0xFE, 0xFE, 7, 0x3C, 0, 1, 0, 2, 9, 0xFA],
        vec![0xFE, 0xFE, 4, 0x60, 3, 1, 0xFA],
        vec![0xFE, 0xFE, 4, 0x61, 4, 1, 0xFA],
        vec![0xFE, 0xFE, 4, 0xA0, 5, 0, 0xFA],
        vec![0xFE, 0xFE, 6, 0x64, 1, 0x03, 0xE8, 128, 0xFA],
        vec![0xFE, 0xFE, 4, 0x66, 1, 70, 0xFA],
        vec![0xFE, 0xFE, 4, 0x67, 30, 40, 0xFA],
        vec![0xFE, 0xFE, 5, 0x52, 1, 2, 3, 0xFA],
        vec![0xFE, 0xFE, 3, 0x56, 6, 0xFA],
        vec![0xFE, 0xFE, 3, 0x57, 4, 0xFA],
        vec![0xFE, 0xFE, 3, 0x41, 80, 0xFA],
    ];
    assert_eq!(*log.borrow(), expected);
}

#[test]
fn status_commands_decode_replies() {
    let (mut op, log) = op_with(vec![
        Ok(frame(Command::IS_POWER_ON, &[0x01])),
        Ok(vec![0x00; 32]),
        Ok(frame(Command::GET_ENCODER, &[0x08, 0x00])),
        Ok(frame(Command::IS_SERVO_ENABLE, &[0x02, 0x01])),
        Ok(frame(Command::IS_PAUSED, &[0x00])),
    ]);
    assert_eq!(op.is_power_on().unwrap(), 1);
    assert_eq!(op.is_moving().unwrap(), -1);
    assert_eq!(op.get_encoder(Angle::J2).unwrap(), 2048);
    assert_eq!(op.is_servo_enable(Angle::J2).unwrap(), 1);
    // a reply to another command gives no value
    assert_eq!(op.is_gripper_moving().unwrap(), -1);
    assert_eq!(
        *log.borrow(),
        vec![
            vec![0xFE, 0xFE, 2, 0x12, 0xFA],
            vec![0xFE, 0xFE, 2, 0x2B, 0xFA],
            vec![0xFE, 0xFE, 3, 0x3B, 2, 0xFA],
            vec![0xFE, 0xFE, 3, 0x50, 2, 0xFA],
            vec![0xFE, 0xFE, 2, 0x69, 0xFA],
        ]
    );
}

#[test]
fn value_commands_decode_replies() {
    let six = [0x00, 0x01, 0x00, 0x02, 0x00, 0x03, 0xFF, 0xFF, 0x00, 0x05, 0x00, 0x06];
    let (mut op, log) = op_with(vec![
        Ok(frame(Command::GET_ANGLES, &six)),
        Ok(frame(Command::GET_COORDS, &six)),
        Ok(frame(Command::GET_ENCODERS, &six)),
        Ok(frame(Command::GET_SPEED, &[0x00, 0x32])),
        Ok(frame(Command::GET_JOINT_MIN_ANGLE, &[0xDC, 0xD8])),
        Ok(frame(Command::GET_DIGITAL_INPUT, &[0x05])),
    ]);
    assert_eq!(op.get_angles_int().unwrap(), vec![1, 2, 3, -1, 5, 6]);
    assert_eq!(op.get_coords_int().unwrap(), vec![1, 2, 3, -1, 5, 6]);
    assert_eq!(op.get_encoders().unwrap(), vec![1, 2, 3, -1, 5, 6]);
    assert_eq!(op.get_speed().unwrap(), vec![50]);
    assert_eq!(op.get_joint_min_angle(Angle::J1).unwrap(), vec![-9000]);
    assert_eq!(op.get_gripper_value().unwrap(), vec![5]);
    assert_eq!(log.borrow().len(), 6);
    assert_eq!(log.borrow()[4], vec![0xFE, 0xFE, 3, 0x4A, 1, 0xFA]);
    assert_eq!(log.borrow()[5], vec![0xFE, 0xFE, 2, 0x62, 0xFA]);
}

#[test]
fn position_queries_send_their_values() {
    let (mut op, log) = op_with(vec![
        Ok(frame(Command::IS_IN_POSITION, &[0x01])),
        Ok(frame(Command::IS_IN_POSITION, &[0x00])),
    ]);
    assert_eq!(op.is_in_angle_position_int(&[1, 2]).unwrap(), 1);
    assert_eq!(op.is_in_coord_position_int(&[3]).unwrap(), 0);
    assert_eq!(log.borrow()[0], vec![0xFE, 0xFE, 7, 0x2A, 0, 1, 0, 2, 0, 0xFA]);
    assert_eq!(log.borrow()[1], vec![0xFE, 0xFE, 5, 0x2A, 0, 3, 1, 0xFA]);
}

#[test]
fn broken_reply_is_an_error() {
    let (mut op, _log) = op_with(vec![Ok(vec![0xFE, 0xFE, 0x06, 0x12, 0x01]), Ok(vec![0xFE, 0xFE])]);
    let err = op.is_power_on().unwrap_err();
    assert_eq!(err.kind(), io::ErrorKind::InvalidData);
    assert!(op.get_speed().is_err());
}

#[test]
fn connection_error_is_passed_on() {
    let (mut op, log) = op_with(vec![Err(io::Error::new(io::ErrorKind::TimedOut, "no reply"))]);
    let err = op.is_paused().unwrap_err();
    assert_eq!(err.kind(), io::ErrorKind::TimedOut);
    assert_eq!(log.borrow().len(), 1);
}

#[test]
fn version_reads_bytes_as_characters() {
    let (mut op, log) = op_with(vec![Ok(vec![b'v', b'2', 0xE9])]);
    assert_eq!(op.version().unwrap(), "v2\u{e9}".to_string());
    assert_eq!(log.borrow()[0], vec![0xFE, 0xFE, 2, 0x00, 0xFA]);
}

#[test]
fn empty_commands_send_bare_frames() {
    let (mut op, log) = op_with(vec![]);
    op.power_off().unwrap();
    op.release_all_servos().unwrap();
    op.jog_stop().unwrap();
    op.pause().unwrap();
    op.resume().unwrap();
    op.stop().unwrap();
    op.set_servo_calibration().unwrap();
    op.set_gripper_ini().unwrap();
    let genres: Vec<u8> = log.borrow().iter().map(|f| f[3]).collect();
    assert_eq!(genres, vec![0x11, 0x13, 0x34, 0x26, 0x28, 0x29, 0x54, 0x68]);
    assert!(log.borrow().iter().all(|f| f.len() == 5 && f[2] == 2));
}

#[test]
fn remaining_status_commands() {
    let (mut op, log) = op_with(vec![
        Ok(frame(Command::IS_CONTROLLER_CONNECTED, &[0x01])),
        Ok(frame(Command::IS_ALL_SERVO_ENABLE, &[0x01])),
        Ok(frame(Command::GET_DIGITAL_INPUT, &[0x00])),
        Ok(frame(Command::GET_BASIC_INPUT, &[0x01])),
        Ok(frame(Command::GET_JOINT_MAX_ANGLE, &[0x23, 0x28])),
        Ok(frame(Command::GET_SERVO_DATA, &[0x07])),
    ]);
    assert_eq!(op.is_controller_connected().unwrap(), 1);
    assert_eq!(op.is_all_servo_enable().unwrap(), 1);
    assert_eq!(op.get_digital_intput(3).unwrap(), 0);
    assert_eq!(op.get_basic_input(2).unwrap(), 1);
    assert_eq!(op.get_joint_max_angle(Angle::J5).unwrap(), vec![9000]);
    assert_eq!(op.get_servo_data(1, 2).unwrap(), vec![7]);
    assert_eq!(log.borrow()[2], vec![0xFE, 0xFE, 3, 0x62, 3, 0xFA]);
    assert_eq!(log.borrow()[3], vec![0xFE, 0xFE, 3, 0xA1, 2, 0xFA]);
    assert_eq!(log.borrow()[5], vec![0xFE, 0xFE, 4, 0x53, 1, 2, 0xFA]);
}
