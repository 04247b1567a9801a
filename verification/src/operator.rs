//! Commanding the arm: building command frames, handing them to a
//! connection, and decoding the arm's replies.

use crate::common::{Angle, Command, Coord, Direction, GripperState, PinMode};
use crate::io::{invalid_reply_error, Connection, Exchange};
use crate::utils::{
    decode_i16_seq, decode_int16, decode_int16_vec, decode_int8, encode_i16_seq, encode_int16,
    encode_int16_vec, i16_from_be, i16_to_be, i8_from_byte, lemma_i16_be_roundtrip,
    lemma_i16_seq_roundtrip,
};
use vstd::prelude::*;
use vstd::slice::slice_subrange;

verus! {

// ----- frames -----

/// The length byte of a frame whose payload has `n` bytes: the payload and
/// the command byte, modulo 256.
pub open spec fn frame_len_byte(n: nat) -> u8 {
    ((n + 2) % 256) as u8
}

/// The frame that carries command `genre` with payload `data`: two header
/// bytes, the length byte, the command byte, the payload, the footer byte.
pub open spec fn message_frame(genre: u8, data: Seq<u8>) -> Seq<u8> {
    seq![Command::HEADER, Command::HEADER, frame_len_byte(data.len()), genre] + data + seq![
        Command::FOOTER,
    ]
}

/// Two header bytes start at `i`.
pub open spec fn header_at(data: Seq<u8>, i: int) -> bool {
    &&& 0 <= i
    &&& i + 1 < data.len()
    &&& data[i] == Command::HEADER
    &&& data[i + 1] == Command::HEADER
}

/// `i` is the first place where two header bytes start.
pub open spec fn is_first_header(data: Seq<u8>, i: int) -> bool {
    &&& header_at(data, i)
    &&& forall|j: int| 0 <= j < i ==> !#[trigger] header_at(data, j)
}

/// Where the first frame of `data` starts, if any does.
pub open spec fn first_header(data: Seq<u8>) -> Option<int> {
    if exists|i: int| is_first_header(data, i) {
        Some(choose|i: int| is_first_header(data, i))
    } else {
        None
    }
}

/// The payload length that the frame starting at `idx` announces.
pub open spec fn payload_len(data: Seq<u8>, idx: int) -> int {
    data[idx + 2] - 2
}

/// The reply `data` to command `genre` can be read: no frame, or a frame
/// whose length and command bytes are there, that announces at least the
/// command byte, and, if it answers `genre`, holds a non-empty payload of the
/// announced length.
pub open spec fn reply_is_decodable(data: Seq<u8>, genre: u8) -> bool {
    match first_header(data) {
        None => true,
        Some(idx) => {
            &&& idx + 3 < data.len()
            &&& data[idx + 2] >= 2
            &&& data[idx + 3] == genre ==> {
                &&& idx + 4 + payload_len(data, idx) <= data.len()
                &&& payload_len(data, idx) != 0
            }
        },
    }
}

/// The values that the payload of a reply to `genre` carries: six big-endian
/// values in twelve bytes; one big-endian value in two bytes (for
/// `IS_SERVO_ENABLE`, the second byte as a signed byte); else the first byte
/// as a signed byte.
pub open spec fn payload_values(payload: Seq<u8>, genre: u8) -> Seq<i16> {
    if payload.len() == 12 {
        decode_i16_seq(payload)
    } else if payload.len() == 2 {
        if genre == Command::IS_SERVO_ENABLE {
            seq![i8_from_byte(payload[1]) as i16]
        } else {
            seq![i16_from_be(payload[0], payload[1])]
        }
    } else {
        seq![i8_from_byte(payload[0]) as i16]
    }
}

/// The values that reply `data` gives to command `genre`: none when it holds
/// no frame or its first frame answers another command.
pub open spec fn received_values(data: Seq<u8>, genre: u8) -> Seq<i16> {
    match first_header(data) {
        None => seq![],
        Some(idx) => {
            if data[idx + 3] != genre {
                seq![]
            } else {
                payload_values(data.subrange(idx + 4, idx + 4 + payload_len(data, idx)), genre)
            }
        },
    }
}

/// The status that a list of reply values stands for: its first value, or
/// -1 when there is none.
pub open spec fn status_of(values: Seq<i16>) -> i32 {
    if values.len() == 0 {
        -1i32
    } else {
        values[0] as i32
    }
}

/// The characters whose code points are the bytes of `bytes`.
pub open spec fn latin1(bytes: Seq<u8>) -> Seq<char> {
    Seq::new(bytes.len(), |i: int| bytes[i] as char)
}

// ----- exchanges with the connection -----

/// `after` is `before` with one more call: `write_and_read` of `command`.
pub open spec fn one_exchange(before: Seq<Exchange>, after: Seq<Exchange>, command: Seq<u8>) -> bool {
    &&& after.len() == before.len() + 1
    &&& after.drop_last() == before
    &&& after.last() matches Exchange::WriteRead { command: c, .. } && c == command
}

/// What a query answers, given the last call in `history`: the connection's
/// error unchanged; for a reply that can be read as one to `genre`, the values
/// it gives; for one that cannot, an error.
pub open spec fn values_answer(
    history: Seq<Exchange>,
    genre: u8,
    res: Result<Vec<i16>, std::io::Error>,
) -> bool {
    match history.last() {
        Exchange::WriteRead { reply: Err(e), .. } => res == Err::<Vec<i16>, std::io::Error>(e),
        Exchange::WriteRead { reply: Ok(r), .. } => {
            &&& reply_is_decodable(r, genre) ==> (res matches Ok(v) && v@ == received_values(
                r,
                genre,
            ))
            &&& !reply_is_decodable(r, genre) ==> res is Err
        },
        _ => false,
    }
}

/// What a status query answers, given the last call in `history`: as
/// `values_answer`, with the status that the values stand for.
pub open spec fn status_answer(
    history: Seq<Exchange>,
    genre: u8,
    res: Result<i32, std::io::Error>,
) -> bool {
    match history.last() {
        Exchange::WriteRead { reply: Err(e), .. } => res == Err::<i32, std::io::Error>(e),
        Exchange::WriteRead { reply: Ok(r), .. } => {
            &&& reply_is_decodable(r, genre) ==> res == Ok::<i32, std::io::Error>(
                status_of(received_values(r, genre)),
            )
            &&& !reply_is_decodable(r, genre) ==> res is Err
        },
        _ => false,
    }
}

/// The first frame starts at `i`, exactly when it is the first place where
/// two header bytes start.
proof fn lemma_first_header_is(data: Seq<u8>, i: int)
    requires
        is_first_header(data, i),
    ensures
        first_header(data) == Some(i),
{
    let c = choose|k: int| is_first_header(data, k);
    assert(is_first_header(data, c));
    if c < i {
        assert(header_at(data, c));
    } else if c > i {
        assert(header_at(data, i));
    }
}

// ----- laws of frames and replies -----

/// A reply laid out like a command frame, answering `genre` with a payload of
/// 1 to 253 bytes, can be read, and gives the values that its payload carries.
pub proof fn lemma_frame_reply_decodes(genre: u8, data: Seq<u8>)
    requires
        1 <= data.len() <= 253,
    ensures
        reply_is_decodable(message_frame(genre, data), genre),
        received_values(message_frame(genre, data), genre) == payload_values(data, genre),
{
    let f = message_frame(genre, data);
    assert(is_first_header(f, 0));
    lemma_first_header_is(f, 0);
    assert(payload_len(f, 0) == data.len());
    assert(f.subrange(4, 4 + payload_len(f, 0)) =~= data);
}

/// A reply laid out like a command frame that answers another command than
/// `genre` can be read as a reply to `genre`, and gives no value.
pub proof fn lemma_frame_reply_other_command(other: u8, genre: u8, data: Seq<u8>)
    requires
        other != genre,
        data.len() <= 253,
    ensures
        reply_is_decodable(message_frame(other, data), genre),
        received_values(message_frame(other, data), genre) == Seq::<i16>::empty(),
{
    let f = message_frame(other, data);
    assert(is_first_header(f, 0));
    lemma_first_header_is(f, 0);
}

/// A reply frame that carries six values in twelve bytes gives those values.
pub proof fn lemma_frame_reply_six_values(genre: u8, values: Seq<i16>)
    requires
        values.len() == 6,
    ensures
        reply_is_decodable(message_frame(genre, encode_i16_seq(values)), genre),
        received_values(message_frame(genre, encode_i16_seq(values)), genre) == values,
{
    lemma_i16_seq_roundtrip(values);
    lemma_frame_reply_decodes(genre, encode_i16_seq(values));
}

/// A reply frame that carries one value in two bytes gives that value, but
/// for `IS_SERVO_ENABLE`, whose reply gives its second byte as a signed byte.
pub proof fn lemma_frame_reply_one_value(genre: u8, value: i16)
    ensures
        reply_is_decodable(message_frame(genre, i16_to_be(value)), genre),
        genre != Command::IS_SERVO_ENABLE ==> received_values(
            message_frame(genre, i16_to_be(value)),
            genre,
        ) == seq![value],
        genre == Command::IS_SERVO_ENABLE ==> received_values(
            message_frame(genre, i16_to_be(value)),
            genre,
        ) == seq![i8_from_byte(i16_to_be(value)[1]) as i16],
{
    lemma_i16_be_roundtrip(value);
    lemma_frame_reply_decodes(genre, i16_to_be(value));
}

/// Bytes put before a reply are skipped when no two header bytes in a row
/// start among them.
pub proof fn lemma_reply_skips_leading_noise(noise: Seq<u8>, reply: Seq<u8>, genre: u8)
    requires
        forall|j: int| 0 <= j < noise.len() ==> !#[trigger] header_at(noise + reply, j),
    ensures
        reply_is_decodable(noise + reply, genre) == reply_is_decodable(reply, genre),
        reply_is_decodable(reply, genre) ==> received_values(noise + reply, genre)
            == received_values(reply, genre),
{
    let d = noise + reply;
    let n = noise.len() as int;
    assert forall|i: int| 0 <= i < reply.len() implies #[trigger] d[n + i] == reply[i] by {}
    assert forall|i: int| header_at(reply, i) <==> #[trigger] header_at(d, n + i) by {
        if 0 <= i && i + 1 < reply.len() {
            assert(d[n + i] == reply[i]);
            assert(d[n + i + 1] == reply[i + 1]);
        }
    }
    match first_header(reply) {
        Some(i) => {
            assert(is_first_header(reply, i));
            assert forall|j: int| 0 <= j < n + i implies !#[trigger] header_at(d, j) by {
                if j >= n {
                    assert(header_at(reply, j - n) <==> header_at(d, n + (j - n)));
                }
            }
            assert(header_at(d, n + i));
            assert(is_first_header(d, n + i));
            lemma_first_header_is(d, n + i);
            if reply_is_decodable(reply, genre) && reply[i + 3] == genre {
                assert(d.subrange(n + i + 4, n + i + 4 + payload_len(d, n + i)) =~= reply.subrange(
                    i + 4,
                    i + 4 + payload_len(reply, i),
                ));
            }
        },
        None => {
            if exists|k: int| is_first_header(d, k) {
                let k = choose|k: int| is_first_header(d, k);
                assert(header_at(d, k));
                assert(k >= n);
                assert(header_at(reply, k - n) <==> header_at(d, n + (k - n)));
                assert(header_at(reply, k - n));
                assert forall|j: int| 0 <= j < k - n implies !#[trigger] header_at(reply, j) by {
                    assert(header_at(reply, j) <==> header_at(d, n + j));
                }
                assert(is_first_header(reply, k - n));
            }
        },
    }
}

/// Bytes after a frame do not matter: a reply laid out like a command frame,
/// answering `genre` with a payload of 1 to 253 bytes and followed by any
/// bytes, can be read, and gives the values that its payload carries.
pub proof fn lemma_frame_reply_with_trailing_bytes(genre: u8, data: Seq<u8>, trailing: Seq<u8>)
    requires
        1 <= data.len() <= 253,
    ensures
        reply_is_decodable(message_frame(genre, data) + trailing, genre),
        received_values(message_frame(genre, data) + trailing, genre) == payload_values(
            data,
            genre,
        ),
{
    let f = message_frame(genre, data) + trailing;
    assert(f[0] == Command::HEADER && f[1] == Command::HEADER);
    assert(is_first_header(f, 0));
    lemma_first_header_is(f, 0);
    assert(f[2] == frame_len_byte(data.len()));
    assert(f[3] == genre);
    assert(payload_len(f, 0) == data.len());
    assert(f.subrange(4, 4 + payload_len(f, 0)) =~= data);
}

/// A reply whose payload is neither two nor twelve bytes long gives one
/// value: its first payload byte read as a signed byte (0xFF is -1); its
/// status is that value.
pub proof fn lemma_reply_first_byte_signed(genre: u8, data: Seq<u8>, trailing: Seq<u8>)
    requires
        1 <= data.len() <= 253,
        data.len() != 2,
        data.len() != 12,
    ensures
        received_values(message_frame(genre, data) + trailing, genre).len() == 1,
        data[0] < 128 ==> received_values(message_frame(genre, data) + trailing, genre)[0] as int
            == data[0] as int,
        data[0] >= 128 ==> received_values(message_frame(genre, data) + trailing, genre)[0] as int
            == data[0] as int - 256,
        data[0] < 128 ==> status_of(received_values(message_frame(genre, data) + trailing, genre))
            as int == data[0] as int,
        data[0] >= 128 ==> status_of(received_values(message_frame(genre, data) + trailing, genre))
            as int == data[0] as int - 256,
{
    lemma_frame_reply_with_trailing_bytes(genre, data, trailing);
}

/// A reply with a two-byte payload gives one value: the signed big-endian
/// value of the two bytes, or, for `IS_SERVO_ENABLE`, the second byte read as
/// a signed byte.
pub proof fn lemma_reply_two_bytes(genre: u8, hi: u8, lo: u8, trailing: Seq<u8>)
    ensures
        received_values(message_frame(genre, seq![hi, lo]) + trailing, genre).len() == 1,
        genre != Command::IS_SERVO_ENABLE && hi < 128 ==> received_values(
            message_frame(genre, seq![hi, lo]) + trailing,
            genre,
        )[0] as int == hi * 256 + lo,
        genre != Command::IS_SERVO_ENABLE && hi >= 128 ==> received_values(
            message_frame(genre, seq![hi, lo]) + trailing,
            genre,
        )[0] as int == hi * 256 + lo - 65536,
        genre == Command::IS_SERVO_ENABLE && lo < 128 ==> received_values(
            message_frame(genre, seq![hi, lo]) + trailing,
            genre,
        )[0] as int == lo as int,
        genre == Command::IS_SERVO_ENABLE && lo >= 128 ==> received_values(
            message_frame(genre, seq![hi, lo]) + trailing,
            genre,
        )[0] as int == lo as int - 256,
{
    lemma_frame_reply_with_trailing_bytes(genre, seq![hi, lo], trailing);
}

/// A reply with a twelve-byte payload gives six values, the i-th the signed
/// big-endian value of payload bytes 2i and 2i+1.
pub proof fn lemma_reply_twelve_bytes(genre: u8, data: Seq<u8>, trailing: Seq<u8>)
    requires
        data.len() == 12,
    ensures
        received_values(message_frame(genre, data) + trailing, genre).len() == 6,
        forall|i: int|
            0 <= i < 6 && data[2 * i] < 128 ==> #[trigger] received_values(
                message_frame(genre, data) + trailing,
                genre,
            )[i] as int == data[2 * i] * 256 + data[2 * i + 1],
        forall|i: int|
            0 <= i < 6 && data[2 * i] >= 128 ==> #[trigger] received_values(
                message_frame(genre, data) + trailing,
                genre,
            )[i] as int == data[2 * i] * 256 + data[2 * i + 1] - 65536,
{
    lemma_frame_reply_with_trailing_bytes(genre, data, trailing);
}

/// A reply whose first frame answers another command gives no value, so its
/// status is -1, whatever bytes follow the frame.
pub proof fn lemma_reply_to_other_command_status(
    other: u8,
    genre: u8,
    data: Seq<u8>,
    trailing: Seq<u8>,
)
    requires
        other != genre,
        data.len() <= 253,
    ensures
        reply_is_decodable(message_frame(other, data) + trailing, genre),
        received_values(message_frame(other, data) + trailing, genre).len() == 0,
        status_of(received_values(message_frame(other, data) + trailing, genre)) == -1,
{
    let f = message_frame(other, data) + trailing;
    assert(f[0] == Command::HEADER && f[1] == Command::HEADER);
    assert(is_first_header(f, 0));
    lemma_first_header_is(f, 0);
    assert(f[3] == other);
}

/// A command frame is the bytes 0xFE, 0xFE, then the payload length plus two
/// (modulo 256), then the command byte, then the payload, then 0xFA: five
/// bytes more than its payload.
pub proof fn lemma_message_frame_layout(genre: u8, data: Seq<u8>)
    ensures
        message_frame(genre, data).len() == data.len() + 5,
        message_frame(genre, data)[0] == 0xFE,
        message_frame(genre, data)[1] == 0xFE,
        message_frame(genre, data)[2] as int == (data.len() + 2) % 256,
        message_frame(genre, data)[3] == genre,
        forall|i: int| 0 <= i < data.len() ==> #[trigger] message_frame(genre, data)[4 + i] == data[i],
        message_frame(genre, data)[data.len() + 4int] == 0xFA,
{
}

/// `String::push` of std: appends `c` to `s`.
#[verifier::external_body]
fn push_char(s: &mut String, c: char)
    ensures
        final(s)@ == old(s)@.push(c),
{
    s.push(c)
}

/// The characters whose code points are the bytes of `bytes`.
fn latin1_string(bytes: &[u8]) -> (r: String)
    ensures
        r@ == latin1(bytes@),
{
    let mut s = String::new();
    let mut i: usize = 0;
    while i < bytes.len()
        invariant
            i <= bytes.len(),
            s@ =~= latin1(bytes@.take(i as int)),
        decreases bytes.len() - i,
    {
        push_char(&mut s, bytes[i] as char);
        i = i + 1;
        assert(s@ =~= latin1(bytes@.take(i as int)));
    }
    assert(bytes@.take(i as int) =~= bytes@);
    s
}

fn status_of_values(values: &Vec<i16>) -> (r: i32)
    ensures
        r == status_of(values@),
{
    if values.len() == 0 {
        -1
    } else {
        values[0] as i32
    }
}

/// Commands the arm over a connection.
pub struct MyCobotOperator<T: Connection> {
    connection: T,
}

impl<T: Connection> MyCobotOperator<T> {
    /// The connection that the operator commands the arm through.
    pub closed spec fn connection(&self) -> T {
        self.connection
    }

    /// An operator on `connection`; no call is made on it.
    pub fn from_connection(connection: T) -> (r: MyCobotOperator<T>)
        ensures
            r.connection() == connection,
    {
        MyCobotOperator { connection }
    }

    /// The frame that carries command `genre` with payload `command_data`.
    pub fn concat_message(genre: u8, command_data: &[u8]) -> (r: Vec<u8>)
        ensures
            r@ == message_frame(genre, command_data@),
    {
        let len_byte = (((command_data.len() % 256) + 2) % 256) as u8;
        let mut msg: Vec<u8> = Vec::new();
        msg.push(Command::HEADER);
        msg.push(Command::HEADER);
        msg.push(len_byte);
        msg.push(genre);
        let ghost head = msg@;
        let mut i: usize = 0;
        while i < command_data.len()
            invariant
                i <= command_data.len(),
                msg@ =~= head + command_data@.take(i as int),
            decreases command_data.len() - i,
        {
            msg.push(command_data[i]);
            i = i + 1;
            assert(msg@ =~= head + command_data@.take(i as int));
        }
        msg.push(Command::FOOTER);
        assert(command_data@.take(i as int) =~= command_data@);
        assert(msg@ =~= message_frame(genre, command_data@));
        msg
    }

    /// Two header bytes start at `pos`.
    pub fn is_frame_header(data: &[u8], pos: usize) -> (r: bool)
        requires
            pos + 1 < data@.len(),
        ensures
            r == header_at(data@, pos as int),
    {
        data[pos] == Command::HEADER && data[pos + 1] == Command::HEADER
    }

    /// Where the first frame of `data` starts, if any does.
    fn find_frame_header(data: &[u8]) -> (r: Option<usize>)
        ensures
            r matches Some(i) ==> first_header(data@) == Some(i as int),
            r is None ==> first_header(data@) is None,
    {
        if data.len() == 0 {
            return None;
        }
        let mut i: usize = 0;
        while i < data.len() - 1
            invariant
                data@.len() >= 1,
                i <= data@.len() - 1,
                forall|j: int| 0 <= j < i ==> !#[trigger] header_at(data@, j),
            decreases data.len() - 1 - i,
        {
            if Self::is_frame_header(data, i) {
                proof {
                    lemma_first_header_is(data@, i as int);
                }
                return Some(i);
            }
            i = i + 1;
        }
        proof {
            if exists|k: int| is_first_header(data@, k) {
                let k = choose|k: int| is_first_header(data@, k);
                assert(header_at(data@, k));
            }
        }
        None
    }

    /// Whether `data` can be read as a reply to command `genre`.
    pub fn is_valid_reply(data: &[u8], genre: u8) -> (r: bool)
        ensures
            r == reply_is_decodable(data@, genre),
    {
        match Self::find_frame_header(data) {
            None => true,
            Some(idx) => {
                if data.len() - idx <= 3 {
                    false
                } else if data[idx + 2] < 2 {
                    false
                } else if data[idx + 3] != genre {
                    true
                } else {
                    let data_len = (data[idx + 2] - 2) as usize;
                    data_len <= data.len() - idx - 4 && data_len != 0
                }
            },
        }
    }

    /// The values that reply `data` gives to command `genre`.
    pub fn process_received(data: &[u8], genre: u8) -> (r: Vec<i16>)
        requires
            reply_is_decodable(data@, genre),
        ensures
            r@ == received_values(data@, genre),
    {
        if data.len() == 0 {
            return Vec::new();
        }
        match Self::find_frame_header(data) {
            Some(idx) => {
                let data_len = (data[idx + 2] - 2) as usize;
                let cmd_id = data[idx + 3];
                if cmd_id != genre {
                    return Vec::new();
                }
                let data_pos = idx + 4;
                let valid_data = slice_subrange(data, data_pos, data_pos + data_len);
                assert(valid_data@ == data@.subrange(
                    idx + 4,
                    idx + 4 + payload_len(data@, idx as int),
                ));
                match data_len {
                    12 => decode_int16_vec(valid_data),
                    2 => {
                        if genre == Command::IS_SERVO_ENABLE {
                            let v = decode_int8(slice_subrange(valid_data, 1, 2)) as i16;
                            let r = vec![v];
                            assert(r@ =~= payload_values(valid_data@, genre));
                            r
                        } else {
                            let v = decode_int16(valid_data);
                            let r = vec![v];
                            assert(r@ =~= payload_values(valid_data@, genre));
                            r
                        }
                    },
                    _ => {
                        let v = decode_int8(valid_data) as i16;
                        let r = vec![v];
                        assert(r@ =~= payload_values(valid_data@, genre));
                        r
                    },
                }
            },
            None => Vec::new(),
        }
    }

    /// Hand the frame of command `genre` with payload `command_data` to the
    /// connection's `write`, and give back what it gave.
    fn write_command(&mut self, genre: u8, command_data: &[u8]) -> (res: Result<(), std::io::Error>)
        ensures
            final(self).connection().history() == old(self).connection().history().push(
                Exchange::Write { command: message_frame(genre, command_data@), outcome: res },
            ),
    {
        let command = Self::concat_message(genre, command_data);
        self.connection.write(command.as_slice())
    }

    /// Hand the frame of command `genre` with payload `command_data` to the
    /// connection's `write_and_read`, and decode the values that the reply
    /// gives. A reply that cannot be read as one to `genre` gives an error.
    fn write_command_and_receive(&mut self, genre: u8, command_data: &[u8]) -> (res: Result<
        Vec<i16>,
        std::io::Error,
    >)
        ensures
            one_exchange(
                old(self).connection().history(),
                final(self).connection().history(),
                message_frame(genre, command_data@),
            ),
            values_answer(final(self).connection().history(), genre, res),
    {
        let command = Self::concat_message(genre, command_data);
        let reply = self.connection.write_and_read(command.as_slice());
        assert(self.connection.history().drop_last() =~= old(self).connection.history());
        match reply {
            Err(e) => Err(e),
            Ok(data) => {
                if Self::is_valid_reply(data.as_slice(), genre) {
                    Ok(Self::process_received(data.as_slice(), genre))
                } else {
                    Err(invalid_reply_error())
                }
            },
        }
    }

    /// Ask for the firmware version; the reply's bytes, each as the
    /// character of that code point.
    pub fn version(&mut self) -> (res: Result<String, std::io::Error>)
        ensures
            one_exchange(
                old(self).connection().history(),
                final(self).connection().history(),
                message_frame(Command::VERSION, seq![]),
            ),
            match final(self).connection().history().last() {
                Exchange::WriteRead { reply: Err(e), .. } => res == Err::<String, std::io::Error>(e),
                Exchange::WriteRead { reply: Ok(r), .. } => res matches Ok(s) && s@ == latin1(r),
                _ => false,
            },
    {
        let command_data: Vec<u8> = Vec::new();
        assert(command_data@ =~= seq![]);
        let command = Self::concat_message(Command::VERSION, command_data.as_slice());
        let reply = self.connection.write_and_read(command.as_slice());
        assert(self.connection.history().drop_last() =~= old(self).connection.history());
        match reply {
            Err(e) => Err(e),
            Ok(data) => Ok(latin1_string(data.as_slice())),
        }
    }

    /// Switch the arm's power on.
    pub fn power_on(&mut self) -> (res: Result<(), std::io::Error>)
        ensures
            final(self).connection().history() == old(self).connection().history().push(
                Exchange::Write { command: message_frame(Command::POWER_ON, seq![]), outcome: res },
            ),
    {
        let command_data: Vec<u8> = Vec::new();
        assert(command_data@ =~= seq![]);
        self.write_command(Command::POWER_ON, command_data.as_slice())
    }

    /// Switch the arm's power off.
    pub fn power_off(&mut self) -> (res: Result<(), std::io::Error>)
        ensures
            final(self).connection().history() == old(self).connection().history().push(
                Exchange::Write { command: message_frame(Command::POWER_OFF, seq![]), outcome: res },
            ),
    {
        let command_data: Vec<u8> = Vec::new();
        assert(command_data@ =~= seq![]);
        self.write_command(Command::POWER_OFF, command_data.as_slice())
    }

    /// Ask whether the arm is powered on.
    pub fn is_power_on(&mut self) -> (res: Result<i32, std::io::Error>)
        ensures
            one_exchange(old(self).connection().history(), final(self).connection().history(), message_frame(Command::IS_POWER_ON, seq![])),
            status_answer(final(self).connection().history(), Command::IS_POWER_ON, res),
    {
        let command_data: Vec<u8> = Vec::new();
        assert(command_data@ =~= seq![]);
        match self.write_command_and_receive(Command::IS_POWER_ON, command_data.as_slice()) {
            Ok(values) => Ok(status_of_values(&values)),
            Err(e) => Err(e),
        }
    }

    /// Release every servo.
    pub fn release_all_servos(&mut self) -> (res: Result<(), std::io::Error>)
        ensures
            final(self).connection().history() == old(self).connection().history().push(
                Exchange::Write { command: message_frame(Command::RELEASE_ALL_SERVOS, seq![]), outcome: res },
            ),
    {
        let command_data: Vec<u8> = Vec::new();
        assert(command_data@ =~= seq![]);
        self.write_command(Command::RELEASE_ALL_SERVOS, command_data.as_slice())
    }

    /// Ask whether the controller is connected.
    pub fn is_controller_connected(&mut self) -> (res: Result<i32, std::io::Error>)
        ensures
            one_exchange(old(self).connection().history(), final(self).connection().history(), message_frame(Command::IS_CONTROLLER_CONNECTED, seq![])),
            status_answer(final(self).connection().history(), Command::IS_CONTROLLER_CONNECTED, res),
    {
        let command_data: Vec<u8> = Vec::new();
        assert(command_data@ =~= seq![]);
        match self.write_command_and_receive(Command::IS_CONTROLLER_CONNECTED, command_data.as_slice()) {
            Ok(values) => Ok(status_of_values(&values)),
            Err(e) => Err(e),
        }
    }

    /// Ask for the joint angles, in hundredths of a degree.
    pub fn get_angles_int(&mut self) -> (res: Result<Vec<i16>, std::io::Error>)
        ensures
            one_exchange(old(self).connection().history(), final(self).connection().history(), message_frame(Command::GET_ANGLES, seq![])),
            values_answer(final(self).connection().history(), Command::GET_ANGLES, res),
    {
        let command_data: Vec<u8> = Vec::new();
        assert(command_data@ =~= seq![]);
        self.write_command_and_receive(Command::GET_ANGLES, command_data.as_slice())
    }

    /// Move joint `id` to `value` hundredths of a degree.
    pub fn send_angle_int(&mut self, id: Angle, value: i16, speed: u8) -> (res: Result<(), std::io::Error>)
        ensures
            final(self).connection().history() == old(self).connection().history().push(
                Exchange::Write { command: message_frame(Command::SEND_ANGLE, seq![id.code()] + i16_to_be(value) + seq![speed]), outcome: res },
            ),
    {
        let b = encode_int16(value);
        let command_data: Vec<u8> = vec![id.as_u8(), b[0], b[1], speed];
        assert(command_data@ =~= seq![id.code()] + i16_to_be(value) + seq![speed]);
        self.write_command(Command::SEND_ANGLE, command_data.as_slice())
    }

    /// Move every joint to the given angles, in hundredths of a degree.
    pub fn send_angles_int(&mut self, values: &[i16], speed: u8) -> (res: Result<(), std::io::Error>)
        ensures
            final(self).connection().history() == old(self).connection().history().push(
                Exchange::Write { command: message_frame(Command::SEND_ANGLES, encode_i16_seq(values@).push(speed)), outcome: res },
            ),
    {
        let mut command_data = encode_int16_vec(values);
        command_data.push(speed);
        assert(command_data@ =~= encode_i16_seq(values@).push(speed));
        self.write_command(Command::SEND_ANGLES, command_data.as_slice())
    }

    /// Ask for the pose: positions in tenths of a millimetre, then angles in hundredths of a degree.
    pub fn get_coords_int(&mut self) -> (res: Result<Vec<i16>, std::io::Error>)
        ensures
            one_exchange(old(self).connection().history(), final(self).connection().history(), message_frame(Command::GET_COORDS, seq![])),
            values_answer(final(self).connection().history(), Command::GET_COORDS, res),
    {
        let command_data: Vec<u8> = Vec::new();
        assert(command_data@ =~= seq![]);
        self.write_command_and_receive(Command::GET_COORDS, command_data.as_slice())
    }

    /// Move axis `id` of the pose to the encoded `value`.
    pub fn send_coord_int(&mut self, id: Coord, value: i16, speed: u8) -> (res: Result<(), std::io::Error>)
        ensures
            final(self).connection().history() == old(self).connection().history().push(
                Exchange::Write { command: message_frame(Command::SEND_COORD, seq![(id.code() - 1) as u8] + i16_to_be(value) + seq![speed]), outcome: res },
            ),
    {
        let b = encode_int16(value);
        let command_data: Vec<u8> = vec![id.as_u8() - 1, b[0], b[1], speed];
        assert(command_data@ =~= seq![(id.code() - 1) as u8] + i16_to_be(value) + seq![speed]);
        self.write_command(Command::SEND_COORD, command_data.as_slice())
    }

    /// Move to the encoded pose `values`.
    pub fn send_coords_int(&mut self, values: &[i16], speed: u8, mode: u8) -> (res: Result<(), std::io::Error>)
        ensures
            final(self).connection().history() == old(self).connection().history().push(
                Exchange::Write { command: message_frame(Command::SEND_COORDS, encode_i16_seq(values@).push(speed).push(mode)), outcome: res },
            ),
    {
        let mut command_data = encode_int16_vec(values);
        command_data.push(speed);
        command_data.push(mode);
        assert(command_data@ =~= encode_i16_seq(values@).push(speed).push(mode));
        self.write_command(Command::SEND_COORDS, command_data.as_slice())
    }

    /// Ask whether the joints are at the given angles, in hundredths of a degree.
    pub fn is_in_angle_position_int(&mut self, values: &[i16]) -> (res: Result<i32, std::io::Error>)
        ensures
            one_exchange(old(self).connection().history(), final(self).connection().history(), message_frame(Command::IS_IN_POSITION, encode_i16_seq(values@).push(0u8))),
            status_answer(final(self).connection().history(), Command::IS_IN_POSITION, res),
    {
        let mut command_data = encode_int16_vec(values);
        command_data.push(0u8);
        assert(command_data@ =~= encode_i16_seq(values@).push(0u8));
        match self.write_command_and_receive(Command::IS_IN_POSITION, command_data.as_slice()) {
            Ok(values) => Ok(status_of_values(&values)),
            Err(e) => Err(e),
        }
    }

    /// Ask whether the arm is at the encoded pose `values`.
    pub fn is_in_coord_position_int(&mut self, values: &[i16]) -> (res: Result<i32, std::io::Error>)
        ensures
            one_exchange(old(self).connection().history(), final(self).connection().history(), message_frame(Command::IS_IN_POSITION, encode_i16_seq(values@).push(1u8))),
            status_answer(final(self).connection().history(), Command::IS_IN_POSITION, res),
    {
        let mut command_data = encode_int16_vec(values);
        command_data.push(1u8);
        assert(command_data@ =~= encode_i16_seq(values@).push(1u8));
        match self.write_command_and_receive(Command::IS_IN_POSITION, command_data.as_slice()) {
            Ok(values) => Ok(status_of_values(&values)),
            Err(e) => Err(e),
        }
    }

    /// Ask whether the arm is moving.
    pub fn is_moving(&mut self) -> (res: Result<i32, std::io::Error>)
        ensures
            one_exchange(old(self).connection().history(), final(self).connection().history(), message_frame(Command::IS_MOVING, seq![])),
            status_answer(final(self).connection().history(), Command::IS_MOVING, res),
    {
        let command_data: Vec<u8> = Vec::new();
        assert(command_data@ =~= seq![]);
        match self.write_command_and_receive(Command::IS_MOVING, command_data.as_slice()) {
            Ok(values) => Ok(status_of_values(&values)),
            Err(e) => Err(e),
        }
    }

    /// Start jogging joint `id`.
    pub fn jog_angle(&mut self, id: Angle, direction: Direction, speed: u8) -> (res: Result<(), std::io::Error>)
        ensures
            final(self).connection().history() == old(self).connection().history().push(
                Exchange::Write { command: message_frame(Command::JOG_ANGLE, seq![id.code(), direction.code(), speed]), outcome: res },
            ),
    {
        let command_data: Vec<u8> = vec![id.as_u8(), direction.as_u8(), speed];
        assert(command_data@ =~= seq![id.code(), direction.code(), speed]);
        self.write_command(Command::JOG_ANGLE, command_data.as_slice())
    }

    /// Start jogging axis `id`.
    pub fn jog_coord(&mut self, id: Coord, direction: Direction, speed: u8) -> (res: Result<(), std::io::Error>)
        ensures
            final(self).connection().history() == old(self).connection().history().push(
                Exchange::Write { command: message_frame(Command::JOG_COORD, seq![id.code(), direction.code(), speed]), outcome: res },
            ),
    {
        let command_data: Vec<u8> = vec![id.as_u8(), direction.as_u8(), speed];
        assert(command_data@ =~= seq![id.code(), direction.code(), speed]);
        self.write_command(Command::JOG_COORD, command_data.as_slice())
    }

    /// Stop jogging.
    pub fn jog_stop(&mut self) -> (res: Result<(), std::io::Error>)
        ensures
            final(self).connection().history() == old(self).connection().history().push(
                Exchange::Write { command: message_frame(Command::JOG_STOP, seq![]), outcome: res },
            ),
    {
        let command_data: Vec<u8> = Vec::new();
        assert(command_data@ =~= seq![]);
        self.write_command(Command::JOG_STOP, command_data.as_slice())
    }

    /// Pause the current motion.
    pub fn pause(&mut self) -> (res: Result<(), std::io::Error>)
        ensures
            final(self).connection().history() == old(self).connection().history().push(
                Exchange::Write { command: message_frame(Command::PAUSE, seq![]), outcome: res },
            ),
    {
        let command_data: Vec<u8> = Vec::new();
        assert(command_data@ =~= seq![]);
        self.write_command(Command::PAUSE, command_data.as_slice())
    }

    /// Ask whether the motion is paused.
    pub fn is_paused(&mut self) -> (res: Result<i32, std::io::Error>)
        ensures
            one_exchange(old(self).connection().history(), final(self).connection().history(), message_frame(Command::IS_PAUSED, seq![])),
            status_answer(final(self).connection().history(), Command::IS_PAUSED, res),
    {
        let command_data: Vec<u8> = Vec::new();
        assert(command_data@ =~= seq![]);
        match self.write_command_and_receive(Command::IS_PAUSED, command_data.as_slice()) {
            Ok(values) => Ok(status_of_values(&values)),
            Err(e) => Err(e),
        }
    }

    /// Resume the paused motion.
    pub fn resume(&mut self) -> (res: Result<(), std::io::Error>)
        ensures
            final(self).connection().history() == old(self).connection().history().push(
                Exchange::Write { command: message_frame(Command::RESUME, seq![]), outcome: res },
            ),
    {
        let command_data: Vec<u8> = Vec::new();
        assert(command_data@ =~= seq![]);
        self.write_command(Command::RESUME, command_data.as_slice())
    }

    /// Stop the current motion.
    pub fn stop(&mut self) -> (res: Result<(), std::io::Error>)
        ensures
            final(self).connection().history() == old(self).connection().history().push(
                Exchange::Write { command: message_frame(Command::STOP, seq![]), outcome: res },
            ),
    {
        let command_data: Vec<u8> = Vec::new();
        assert(command_data@ =~= seq![]);
        self.write_command(Command::STOP, command_data.as_slice())
    }

    /// Set the encoder of joint `id`.
    pub fn set_encoder(&mut self, id: Angle, encoder: i16) -> (res: Result<(), std::io::Error>)
        ensures
            final(self).connection().history() == old(self).connection().history().push(
                Exchange::Write { command: message_frame(Command::SET_ENCODER, seq![id.code()] + i16_to_be(encoder)), outcome: res },
            ),
    {
        let b = encode_int16(encoder);
        let command_data: Vec<u8> = vec![id.as_u8(), b[0], b[1]];
        assert(command_data@ =~= seq![id.code()] + i16_to_be(encoder));
        self.write_command(Command::SET_ENCODER, command_data.as_slice())
    }

    /// Ask for the encoder of joint `id`.
    pub fn get_encoder(&mut self, id: Angle) -> (res: Result<i32, std::io::Error>)
        ensures
            one_exchange(old(self).connection().history(), final(self).connection().history(), message_frame(Command::GET_ENCODER, seq![id.code()])),
            status_answer(final(self).connection().history(), Command::GET_ENCODER, res),
    {
        let command_data: Vec<u8> = vec![id.as_u8()];
        assert(command_data@ =~= seq![id.code()]);
        match self.write_command_and_receive(Command::GET_ENCODER, command_data.as_slice()) {
            Ok(values) => Ok(status_of_values(&values)),
            Err(e) => Err(e),
        }
    }

    /// Set the encoders of every joint.
    pub fn set_encoders(&mut self, encoders: &[i16], sp: u8) -> (res: Result<(), std::io::Error>)
        ensures
            final(self).connection().history() == old(self).connection().history().push(
                Exchange::Write { command: message_frame(Command::SET_ENCODERS, encode_i16_seq(encoders@).push(sp)), outcome: res },
            ),
    {
        let mut command_data = encode_int16_vec(encoders);
        command_data.push(sp);
        assert(command_data@ =~= encode_i16_seq(encoders@).push(sp));
        self.write_command(Command::SET_ENCODERS, command_data.as_slice())
    }

    /// Ask for the encoders of every joint.
    pub fn get_encoders(&mut self) -> (res: Result<Vec<i16>, std::io::Error>)
        ensures
            one_exchange(old(self).connection().history(), final(self).connection().history(), message_frame(Command::GET_ENCODERS, seq![])),
            values_answer(final(self).connection().history(), Command::GET_ENCODERS, res),
    {
        let command_data: Vec<u8> = Vec::new();
        assert(command_data@ =~= seq![]);
        self.write_command_and_receive(Command::GET_ENCODERS, command_data.as_slice())
    }

    /// Ask for the speed.
    pub fn get_speed(&mut self) -> (res: Result<Vec<i16>, std::io::Error>)
        ensures
            one_exchange(old(self).connection().history(), final(self).connection().history(), message_frame(Command::GET_SPEED, seq![])),
            values_answer(final(self).connection().history(), Command::GET_SPEED, res),
    {
        let command_data: Vec<u8> = Vec::new();
        assert(command_data@ =~= seq![]);
        self.write_command_and_receive(Command::GET_SPEED, command_data.as_slice())
    }

    /// Set the speed.
    pub fn set_speed(&mut self, speed: u8) -> (res: Result<(), std::io::Error>)
        ensures
            final(self).connection().history() == old(self).connection().history().push(
                Exchange::Write { command: message_frame(Command::SET_SPEED, seq![speed]), outcome: res },
            ),
    {
        let command_data: Vec<u8> = vec![speed];
        assert(command_data@ =~= seq![speed]);
        self.write_command(Command::SET_SPEED, command_data.as_slice())
    }

    /// Ask for the lowest angle of joint `id`.
    pub fn get_joint_min_angle(&mut self, id: Angle) -> (res: Result<Vec<i16>, std::io::Error>)
        ensures
            one_exchange(old(self).connection().history(), final(self).connection().history(), message_frame(Command::GET_JOINT_MIN_ANGLE, seq![id.code()])),
            values_answer(final(self).connection().history(), Command::GET_JOINT_MIN_ANGLE, res),
    {
        let command_data: Vec<u8> = vec![id.as_u8()];
        assert(command_data@ =~= seq![id.code()]);
        self.write_command_and_receive(Command::GET_JOINT_MIN_ANGLE, command_data.as_slice())
    }

    /// Ask for the highest angle of joint `id`.
    pub fn get_joint_max_angle(&mut self, id: Angle) -> (res: Result<Vec<i16>, std::io::Error>)
        ensures
            one_exchange(old(self).connection().history(), final(self).connection().history(), message_frame(Command::GET_JOINT_MAX_ANGLE, seq![id.code()])),
            values_answer(final(self).connection().history(), Command::GET_JOINT_MAX_ANGLE, res),
    {
        let command_data: Vec<u8> = vec![id.as_u8()];
        assert(command_data@ =~= seq![id.code()]);
        self.write_command_and_receive(Command::GET_JOINT_MAX_ANGLE, command_data.as_slice())
    }

    /// Ask whether the servo of joint `id` is enabled.
    pub fn is_servo_enable(&mut self, id: Angle) -> (res: Result<i32, std::io::Error>)
        ensures
            one_exchange(old(self).connection().history(), final(self).connection().history(), message_frame(Command::IS_SERVO_ENABLE, seq![id.code()])),
            status_answer(final(self).connection().history(), Command::IS_SERVO_ENABLE, res),
    {
        let command_data: Vec<u8> = vec![id.as_u8()];
        assert(command_data@ =~= seq![id.code()]);
        match self.write_command_and_receive(Command::IS_SERVO_ENABLE, command_data.as_slice()) {
            Ok(values) => Ok(status_of_values(&values)),
            Err(e) => Err(e),
        }
    }

    /// Ask whether every servo is enabled.
    pub fn is_all_servo_enable(&mut self) -> (res: Result<i32, std::io::Error>)
        ensures
            one_exchange(old(self).connection().history(), final(self).connection().history(), message_frame(Command::IS_ALL_SERVO_ENABLE, seq![])),
            status_answer(final(self).connection().history(), Command::IS_ALL_SERVO_ENABLE, res),
    {
        let command_data: Vec<u8> = Vec::new();
        assert(command_data@ =~= seq![]);
        match self.write_command_and_receive(Command::IS_ALL_SERVO_ENABLE, command_data.as_slice()) {
            Ok(values) => Ok(status_of_values(&values)),
            Err(e) => Err(e),
        }
    }

    /// Set a data item of a servo.
    pub fn set_servo_data(&mut self, servo_no: u8, data_id: u8, value: u8) -> (res: Result<(), std::io::Error>)
        ensures
            final(self).connection().history() == old(self).connection().history().push(
                Exchange::Write { command: message_frame(Command::SET_SERVO_DATA, seq![servo_no, data_id, value]), outcome: res },
            ),
    {
        let command_data: Vec<u8> = vec![servo_no, data_id, value];
        assert(command_data@ =~= seq![servo_no, data_id, value]);
        self.write_command(Command::SET_SERVO_DATA, command_data.as_slice())
    }

    /// Ask for a data item of a servo.
    pub fn get_servo_data(&mut self, servo_no: u8, data_id: u8) -> (res: Result<Vec<i16>, std::io::Error>)
        ensures
            one_exchange(old(self).connection().history(), final(self).connection().history(), message_frame(Command::GET_SERVO_DATA, seq![servo_no, data_id])),
            values_answer(final(self).connection().history(), Command::GET_SERVO_DATA, res),
    {
        let command_data: Vec<u8> = vec![servo_no, data_id];
        assert(command_data@ =~= seq![servo_no, data_id]);
        self.write_command_and_receive(Command::GET_SERVO_DATA, command_data.as_slice())
    }

    /// Calibrate the servos.
    pub fn set_servo_calibration(&mut self) -> (res: Result<(), std::io::Error>)
        ensures
            final(self).connection().history() == old(self).connection().history().push(
                Exchange::Write { command: message_frame(Command::SET_SERVO_CALIBRATION, seq![]), outcome: res },
            ),
    {
        let command_data: Vec<u8> = Vec::new();
        assert(command_data@ =~= seq![]);
        self.write_command(Command::SET_SERVO_CALIBRATION, command_data.as_slice())
    }

    /// Release the servo of a joint.
    pub fn release_servo(&mut self, servo_id: Angle) -> (res: Result<(), std::io::Error>)
        ensures
            final(self).connection().history() == old(self).connection().history().push(
                Exchange::Write { command: message_frame(Command::RELEASE_SERVO, seq![servo_id.code()]), outcome: res },
            ),
    {
        let command_data: Vec<u8> = vec![servo_id.as_u8()];
        assert(command_data@ =~= seq![servo_id.code()]);
        self.write_command(Command::RELEASE_SERVO, command_data.as_slice())
    }

    /// Hold the servo of a joint.
    pub fn focus_servo(&mut self, servo_id: Angle) -> (res: Result<(), std::io::Error>)
        ensures
            final(self).connection().history() == old(self).connection().history().push(
                Exchange::Write { command: message_frame(Command::FOCUS_SERVO, seq![servo_id.code()]), outcome: res },
            ),
    {
        let command_data: Vec<u8> = vec![servo_id.as_u8()];
        assert(command_data@ =~= seq![servo_id.code()]);
        self.write_command(Command::FOCUS_SERVO, command_data.as_slice())
    }

    /// Set the colour of the arm's light.
    pub fn set_color(&mut self, r: u8, g: u8, b: u8) -> (res: Result<(), std::io::Error>)
        ensures
            final(self).connection().history() == old(self).connection().history().push(
                Exchange::Write { command: message_frame(Command::SET_COLOR, seq![r, g, b]), outcome: res },
            ),
    {
        let command_data: Vec<u8> = vec![r, g, b];
        assert(command_data@ =~= seq![r, g, b]);
        self.write_command(Command::SET_COLOR, command_data.as_slice())
    }

    /// Set the mode of a pin.
    pub fn set_pin_mode(&mut self, pin_no: u8, pin_mode: PinMode) -> (res: Result<(), std::io::Error>)
        ensures
            final(self).connection().history() == old(self).connection().history().push(
                Exchange::Write { command: message_frame(Command::SET_PIN_MODE, seq![pin_no, pin_mode.code()]), outcome: res },
            ),
    {
        let command_data: Vec<u8> = vec![pin_no, pin_mode.as_u8()];
        assert(command_data@ =~= seq![pin_no, pin_mode.code()]);
        self.write_command(Command::SET_PIN_MODE, command_data.as_slice())
    }

    /// Set a digital output pin.
    pub fn set_digital_output(&mut self, pin_no: u8, pin_signal: bool) -> (res: Result<(), std::io::Error>)
        ensures
            final(self).connection().history() == old(self).connection().history().push(
                Exchange::Write { command: message_frame(Command::SET_DIGITAL_OUTPUT, seq![pin_no, if pin_signal { 1u8 } else { 0u8 }]), outcome: res },
            ),
    {
        let signal: u8 = if pin_signal { 1 } else { 0 };
        let command_data: Vec<u8> = vec![pin_no, signal];
        assert(command_data@ =~= seq![pin_no, if pin_signal { 1u8 } else { 0u8 }]);
        self.write_command(Command::SET_DIGITAL_OUTPUT, command_data.as_slice())
    }

    /// Ask for the level of a digital input pin.
    pub fn get_digital_intput(&mut self, pin_no: u8) -> (res: Result<i32, std::io::Error>)
        ensures
            one_exchange(old(self).connection().history(), final(self).connection().history(), message_frame(Command::GET_DIGITAL_INPUT, seq![pin_no])),
            status_answer(final(self).connection().history(), Command::GET_DIGITAL_INPUT, res),
    {
        let command_data: Vec<u8> = vec![pin_no];
        assert(command_data@ =~= seq![pin_no]);
        match self.write_command_and_receive(Command::GET_DIGITAL_INPUT, command_data.as_slice()) {
            Ok(values) => Ok(status_of_values(&values)),
            Err(e) => Err(e),
        }
    }

    /// Drive a PWM output.
    pub fn set_pwm_output(&mut self, channel: u8, frequency: i16, pin_val: u8) -> (res: Result<(), std::io::Error>)
        ensures
            final(self).connection().history() == old(self).connection().history().push(
                Exchange::Write { command: message_frame(Command::SET_PWM_OUTPUT, seq![channel] + i16_to_be(frequency) + seq![pin_val]), outcome: res },
            ),
    {
        let b = encode_int16(frequency);
        let command_data: Vec<u8> = vec![channel, b[0], b[1], pin_val];
        assert(command_data@ =~= seq![channel] + i16_to_be(frequency) + seq![pin_val]);
        self.write_command(Command::SET_PWM_OUTPUT, command_data.as_slice())
    }

    /// Ask for the gripper's value.
    pub fn get_gripper_value(&mut self) -> (res: Result<Vec<i16>, std::io::Error>)
        ensures
            one_exchange(old(self).connection().history(), final(self).connection().history(), message_frame(Command::GET_DIGITAL_INPUT, seq![])),
            values_answer(final(self).connection().history(), Command::GET_DIGITAL_INPUT, res),
    {
        let command_data: Vec<u8> = Vec::new();
        assert(command_data@ =~= seq![]);
        self.write_command_and_receive(Command::GET_DIGITAL_INPUT, command_data.as_slice())
    }

    /// Open or close the gripper.
    pub fn set_gripper_state(&mut self, state: GripperState, speed: u8) -> (res: Result<(), std::io::Error>)
        ensures
            final(self).connection().history() == old(self).connection().history().push(
                Exchange::Write { command: message_frame(Command::SET_GRIPPER_STATE, seq![state.code(), speed]), outcome: res },
            ),
    {
        let command_data: Vec<u8> = vec![state.as_u8(), speed];
        assert(command_data@ =~= seq![state.code(), speed]);
        self.write_command(Command::SET_GRIPPER_STATE, command_data.as_slice())
    }

    /// Move the gripper to `value`.
    pub fn set_gripper_value(&mut self, value: u8, speed: u8) -> (res: Result<(), std::io::Error>)
        ensures
            final(self).connection().history() == old(self).connection().history().push(
                Exchange::Write { command: message_frame(Command::SET_GRIPPER_VALUE, seq![value, speed]), outcome: res },
            ),
    {
        let command_data: Vec<u8> = vec![value, speed];
        assert(command_data@ =~= seq![value, speed]);
        self.write_command(Command::SET_GRIPPER_VALUE, command_data.as_slice())
    }

    /// Take the gripper's current position as its zero.
    pub fn set_gripper_ini(&mut self) -> (res: Result<(), std::io::Error>)
        ensures
            final(self).connection().history() == old(self).connection().history().push(
                Exchange::Write { command: message_frame(Command::SET_GRIPPER_INI, seq![]), outcome: res },
            ),
    {
        let command_data: Vec<u8> = Vec::new();
        assert(command_data@ =~= seq![]);
        self.write_command(Command::SET_GRIPPER_INI, command_data.as_slice())
    }

    /// Ask whether the gripper is moving.
    pub fn is_gripper_moving(&mut self) -> (res: Result<i32, std::io::Error>)
        ensures
            one_exchange(old(self).connection().history(), final(self).connection().history(), message_frame(Command::IS_GRIPPER_MOVING, seq![])),
            status_answer(final(self).connection().history(), Command::IS_GRIPPER_MOVING, res),
    {
        let command_data: Vec<u8> = Vec::new();
        assert(command_data@ =~= seq![]);
        match self.write_command_and_receive(Command::IS_GRIPPER_MOVING, command_data.as_slice()) {
            Ok(values) => Ok(status_of_values(&values)),
            Err(e) => Err(e),
        }
    }

    /// Set a pin of the base.
    pub fn set_basic_output(&mut self, pin_no: u8, pin_signal: bool) -> (res: Result<(), std::io::Error>)
        ensures
            final(self).connection().history() == old(self).connection().history().push(
                Exchange::Write { command: message_frame(Command::SET_BASIC_OUTPUT, seq![pin_no, if pin_signal { 1u8 } else { 0u8 }]), outcome: res },
            ),
    {
        let signal: u8 = if pin_signal { 1 } else { 0 };
        let command_data: Vec<u8> = vec![pin_no, signal];
        assert(command_data@ =~= seq![pin_no, if pin_signal { 1u8 } else { 0u8 }]);
        self.write_command(Command::SET_BASIC_OUTPUT, command_data.as_slice())
    }

    /// Ask for the level of a pin of the base.
    pub fn get_basic_input(&mut self, pin_no: u8) -> (res: Result<i32, std::io::Error>)
        ensures
            one_exchange(old(self).connection().history(), final(self).connection().history(), message_frame(Command::GET_BASIC_INPUT, seq![pin_no])),
            status_answer(final(self).connection().history(), Command::GET_BASIC_INPUT, res),
    {
        let command_data: Vec<u8> = vec![pin_no];
        assert(command_data@ =~= seq![pin_no]);
        match self.write_command_and_receive(Command::GET_BASIC_INPUT, command_data.as_slice()) {
            Ok(values) => Ok(status_of_values(&values)),
            Err(e) => Err(e),
        }
    }

}

} // verus!
