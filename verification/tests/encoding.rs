use mycobot::common::{Angle, Coord, Direction, GripperState, Mode, PinMode};
use mycobot::utils::{decode_int16, decode_int16_vec, decode_int8, encode_int16, encode_int16_vec};

#[test]
fn encode_int16_is_big_endian() {
    assert_eq!(encode_int16(258), [0x01, 0x02]);
    assert_eq!(encode_int16(0), [0x00, 0x00]);
    assert_eq!(encode_int16(-1), [0xFF, 0xFF]);
    assert_eq!(encode_int16(i16::MIN), [0x80, 0x00]);
    assert_eq!(encode_int16(i16::MAX), [0x7F, 0xFF]);
    assert_eq!(encode_int16(-9000), [0xDC, 0xD8]);
}

#[test]
fn decode_int16_reads_first_two_bytes() {
    assert_eq!(decode_int16(&[0x01, 0x02]), 258);
    assert_eq!(decode_int16(&[0xFF, 0xFE]), -2);
    assert_eq!(decode_int16(&[0x80, 0x00, 0x55]), i16::MIN);
}

#[test]
fn decode_int8_is_signed() {
    assert_eq!(decode_int8(&[0x00]), 0);
    assert_eq!(decode_int8(&[0x7F]), 127);
    assert_eq!(decode_int8(&[0x80]), -128);
    assert_eq!(decode_int8(&[0xFF, 0x01]), -1);
}

#[test]
fn encode_int16_vec_concatenates() {
    assert_eq!(encode_int16_vec(&[]), Vec::<u8>::new());
    assert_eq!(encode_int16_vec(&[1, -2, 300]), vec![0x00, 0x01, 0xFF, 0xFE, 0x01, 0x2C]);
}

#[test]
fn decode_int16_vec_pairs() {
    assert_eq!(decode_int16_vec(&[]), Vec::<i16>::new());
    assert_eq!(decode_int16_vec(&[0x00, 0x01, 0xFF, 0xFE, 0x01, 0x2C]), vec![1, -2, 300]);
}

#[test]
fn int16_roundtrip_law() {
    for v in [i16::MIN, -12345, -256, -1, 0, 1, 255, 256, 12345, i16::MAX] {
        assert_eq!(decode_int16(&encode_int16(v)), v);
    }
    for hi in [0u8, 1, 0x7F, 0x80, 0xFF] {
        for lo in [0u8, 0x10, 0xFF] {
            assert_eq!(encode_int16(decode_int16(&[hi, lo])), [hi, lo]);
        }
    }
    let values = vec![-7000, 0, 9000, 32767, -32768, 42];
    assert_eq!(decode_int16_vec(&encode_int16_vec(&values)), values);
    let bytes = vec![0xDE, 0xAD, 0xBE, 0xEF];
    assert_eq!(encode_int16_vec(&decode_int16_vec(&bytes)), bytes);
}

#[test]
fn enum_codes() {
    assert_eq!(Angle::J1.as_u8(), 1);
    assert_eq!(Angle::J6.as_u8(), 6);
    assert_eq!(Coord::X.as_u8(), 1);
    assert_eq!(Coord::Rz.as_u8(), 6);
    assert_eq!(Direction::Decrease.as_u8(), 0);
    assert_eq!(Direction::Increase.as_u8(), 1);
    assert_eq!(Mode::Normal.as_u8(), 0);
    assert_eq!(Mode::Linear.as_u8(), 2);
    assert_eq!(PinMode::InputPullup.as_u8(), 2);
    assert_eq!(GripperState::Close.as_u8(), 1);
}

#[test]
fn coord_from_u32_inverts_numbering() {
    assert_eq!(Coord::from_u32(0), None);
    assert_eq!(Coord::from_u32(7), None);
    assert_eq!(Coord::from_u32(1), Some(Coord::X));
    assert_eq!(Coord::from_u32(3), Some(Coord::Z));
    for c in [Coord::X, Coord::Y, Coord::Z, Coord::Rx, Coord::Ry, Coord::Rz] {
        assert_eq!(Coord::from_u32(c.as_u8() as u32), Some(c));
    }
}
