//! Katapult bootloader frame encoding and transport-neutral session logic.
use vstd::prelude::*;

use crate::bytes;
use crate::text;

pub mod adapter;
pub mod bootstrap;
pub mod can;
pub mod endpoint;
pub mod serial;
pub mod session;
pub mod system;

verus! {

const MAX_PAYLOAD_BYTES: usize = 1020;

const MIN_FRAME_LENGTH: usize = 8;

/// The status byte of a reply that accepts its request.
pub const ACK_SUCCESS: u8 = 0xa0;

/// The maximum size of a complete Katapult reply frame.
pub const MAX_RESPONSE_FRAME_BYTES: usize = 1028;

/// Commands understood by Katapult's bootloader protocol.
#[derive(Clone, Copy, Debug, PartialEq, Eq, Structural)]
pub enum Command {
    /// Negotiate protocol and target geometry.
    Connect,
    /// Write one padded firmware block.
    SendBlock,
    /// Finalize a firmware transfer.
    SendEof,
    /// Read one firmware block back.
    RequestBlock,
    /// Exit the bootloader and start the application.
    Complete,
    /// Return Katapult's CAN UUID.
    GetCanbusId,
}

/// Errors that prevent a valid Katapult frame or response from being decoded.
#[derive(Clone, Copy, Debug, PartialEq, Eq, Structural)]
pub enum FrameError {
    /// The payload cannot be expressed as complete four-byte words.
    PayloadNotWordAligned { length: usize },
    /// The one-byte word count cannot represent this payload.
    PayloadTooLarge { length: usize },
    /// A reply is shorter than the smallest Katapult frame.
    ResponseTooShort { length: usize },
    /// A reply exceeds Katapult's representable frame size.
    ResponseTooLarge { length: usize },
    /// The reply does not begin with Katapult's header.
    InvalidResponseHeader,
    /// The reply does not end with Katapult's trailer.
    InvalidResponseTrailer,
    /// The declared payload length and received frame length disagree.
    ResponseLengthMismatch { expected: usize, actual: usize },
    /// The response CRC is invalid.
    ResponseCrcMismatch { expected: u16, actual: u16 },
    /// Katapult rejected the request.
    ResponseRejected { status: u8 },
    /// A successful reply omitted the echoed command word.
    ResponseMissingCommand,
}

/// A successful Katapult response with its echoed command removed from data.
#[derive(Clone, Debug, PartialEq, Eq)]
pub struct Response {
    /// The echoed Katapult command.
    pub command: u32,
    /// Command-specific response bytes.
    pub data: Vec<u8>,
}

impl Command {
    /// The byte that names this command on the wire.
    pub open spec fn spec_code(self) -> u8 {
        match self {
            Command::Connect => 0x11,
            Command::SendBlock => 0x12,
            Command::SendEof => 0x13,
            Command::RequestBlock => 0x14,
            Command::Complete => 0x15,
            Command::GetCanbusId => 0x16,
        }
    }

    /// The byte that names this command on the wire.
    pub fn code(self) -> (code: u8)
        ensures
            code == self.spec_code(),
    {
        match self {
            Command::Connect => 0x11,
            Command::SendBlock => 0x12,
            Command::SendEof => 0x13,
            Command::RequestBlock => 0x14,
            Command::Complete => 0x15,
            Command::GetCanbusId => 0x16,
        }
    }

    /// The name of this command.
    pub open spec fn spec_name(self) -> Seq<char> {
        match self {
            Command::Connect => "Connect"@,
            Command::SendBlock => "SendBlock"@,
            Command::SendEof => "SendEof"@,
            Command::RequestBlock => "RequestBlock"@,
            Command::Complete => "Complete"@,
            Command::GetCanbusId => "GetCanbusId"@,
        }
    }

    /// The name of this command.
    pub fn name(self) -> (name: &'static str)
        ensures
            name@ == self.spec_name(),
    {
        match self {
            Command::Connect => "Connect",
            Command::SendBlock => "SendBlock",
            Command::SendEof => "SendEof",
            Command::RequestBlock => "RequestBlock",
            Command::Complete => "Complete",
            Command::GetCanbusId => "GetCanbusId",
        }
    }
}

/// One bit of the CRC16-CCITT shift register, least significant bit first.
pub open spec fn crc_bit(crc: u16) -> u16 {
    if crc & 1 == 1 {
        (crc >> 1) ^ 0x8408
    } else {
        crc >> 1
    }
}

/// One byte of the CRC16-CCITT shift register.
pub open spec fn crc_byte(crc: u16, byte: u8) -> u16 {
    crc_bit(crc_bit(crc_bit(crc_bit(crc_bit(crc_bit(crc_bit(crc_bit(crc ^ (byte as u16)))))))))
}

/// The reflected CRC16-CCITT of `bytes`, started at all ones and not inverted.
pub open spec fn crc16(bytes: Seq<u8>) -> u16
    decreases bytes.len(),
{
    if bytes.len() == 0 {
        0xffff
    } else {
        crc_byte(crc16(bytes.drop_last()), bytes.last())
    }
}

proof fn lemma_crc_byte_by_nibbles(crc: u16, byte: u8)
    ensures
        ({
            let mixed: u16 = (byte as u16) ^ (crc & 0xff);
            let data: u16 = mixed ^ ((mixed & 0x0f) << 4);
            crc_byte(crc, byte) == (((data << 8) | (crc >> 8)) ^ (data >> 4)) ^ (data << 3)
        }),
{
    assert({
        let mixed: u16 = (byte as u16) ^ (crc & 0xff);
        let data: u16 = mixed ^ ((mixed & 0x0f) << 4);
        crc_byte(crc, byte) == (((data << 8) | (crc >> 8)) ^ (data >> 4)) ^ (data << 3)
    }) by (bit_vector);
}

/// Calculates Katapult's CRC16-CCITT variant.
pub fn crc16_ccitt(buffer: &[u8]) -> (crc: u16)
    ensures
        crc == crc16(buffer@),
{
    let mut crc: u16 = 0xffff;
    let mut i: usize = 0;
    while i < buffer.len()
        invariant
            i <= buffer@.len(),
            crc == crc16(buffer@.take(i as int)),
        decreases buffer@.len() - i,
    {
        let byte: u8 = buffer[i];
        let mixed: u16 = (byte as u16) ^ (crc & 0xff);
        let data: u16 = mixed ^ ((mixed & 0x0f) << 4);
        proof {
            lemma_crc_byte_by_nibbles(crc, byte);
            assert(buffer@.take(i + 1).drop_last() =~= buffer@.take(i as int));
        }
        crc = (((data << 8) | (crc >> 8)) ^ (data >> 4)) ^ (data << 3);
        i += 1;
    }
    assert(buffer@.take(buffer@.len() as int) =~= buffer@);
    crc
}

/// A complete frame: header, kind, length in words, payload, checksum and trailer.
pub open spec fn frame_of(kind: u8, payload: Seq<u8>) -> Seq<u8> {
    let body = seq![kind, (payload.len() / 4) as u8] + payload;
    seq![0x01u8, 0x88u8] + body + bytes::le_bytes(crc16(body) as nat, 2) + seq![0x99u8, 0x03u8]
}

/// Whether a payload fills whole words and its word count fits one byte.
pub open spec fn frames_payload(payload: Seq<u8>) -> bool {
    payload.len() % 4 == 0 && payload.len() <= 1020
}

/// The request frame of a command, or why its payload cannot be framed.
pub open spec fn command_frame(command: Command, payload: Seq<u8>) -> Result<Seq<u8>, FrameError> {
    if payload.len() % 4 != 0 {
        Err(FrameError::PayloadNotWordAligned { length: payload.len() as usize })
    } else if payload.len() > 1020 {
        Err(FrameError::PayloadTooLarge { length: payload.len() as usize })
    } else {
        Ok(frame_of(command.spec_code(), payload))
    }
}

/// Encodes one word-aligned Katapult bootloader command.
pub fn encode_command(command: Command, payload: &[u8]) -> (frame: Result<Vec<u8>, FrameError>)
    ensures
        match frame {
            Ok(bytes) => command_frame(command, payload@) == Ok::<Seq<u8>, FrameError>(bytes@),
            Err(error) => command_frame(command, payload@) == Err::<Seq<u8>, FrameError>(error),
        },
{
    if payload.len() % 4 != 0 {
        return Err(FrameError::PayloadNotWordAligned { length: payload.len() });
    }
    if payload.len() > MAX_PAYLOAD_BYTES {
        return Err(FrameError::PayloadTooLarge { length: payload.len() });
    }
    let mut body: Vec<u8> = Vec::new();
    body.push(command.code());
    body.push((payload.len() / 4) as u8);
    bytes::append(&mut body, payload);
    assert(body@ =~= seq![command.spec_code(), (payload@.len() / 4) as u8] + payload@);
    let crc: u16 = crc16_ccitt(body.as_slice());
    let mut frame: Vec<u8> = Vec::new();
    frame.push(0x01);
    frame.push(0x88);
    bytes::append(&mut frame, body.as_slice());
    bytes::append(&mut frame, bytes::u16_le(crc).as_slice());
    frame.push(0x99);
    frame.push(0x03);
    assert(frame@ =~= frame_of(command.spec_code(), payload@));
    Ok(frame)
}

/// What a reply frame says: the echoed command and its data, or the first check that it fails.
pub open spec fn reply_of(frame: Seq<u8>) -> Result<(u32, Seq<u8>), FrameError> {
    let n = frame.len() as int;
    if n < 8 {
        Err(FrameError::ResponseTooShort { length: n as usize })
    } else if n > 1028 {
        Err(FrameError::ResponseTooLarge { length: n as usize })
    } else if !(frame[0] == 0x01 && frame[1] == 0x88) {
        Err(FrameError::InvalidResponseHeader)
    } else if !(frame[n - 2] == 0x99 && frame[n - 1] == 0x03) {
        Err(FrameError::InvalidResponseTrailer)
    } else if n != 8 + 4 * frame[3] {
        Err(
            FrameError::ResponseLengthMismatch {
                expected: (8 + 4 * frame[3]) as usize,
                actual: n as usize,
            },
        )
    } else if bytes::le_value(frame.subrange(n - 4, n - 2)) != crc16(frame.subrange(2, n - 4)) {
        Err(
            FrameError::ResponseCrcMismatch {
                expected: crc16(frame.subrange(2, n - 4)),
                actual: bytes::le_value(frame.subrange(n - 4, n - 2)) as u16,
            },
        )
    } else if frame[2] != ACK_SUCCESS {
        Err(FrameError::ResponseRejected { status: frame[2] })
    } else if frame[3] == 0 {
        Err(FrameError::ResponseMissingCommand)
    } else {
        Ok((bytes::le_value(frame.subrange(4, 8)) as u32, frame.subrange(8, n - 4)))
    }
}

/// Validates and decodes one complete Katapult response frame.
pub fn decode_response(frame: &[u8]) -> (response: Result<Response, FrameError>)
    ensures
        match response {
            Ok(reply) => reply_of(frame@) == Ok::<(u32, Seq<u8>), FrameError>(
                (reply.command, reply.data@),
            ),
            Err(error) => reply_of(frame@) == Err::<(u32, Seq<u8>), FrameError>(error),
        },
{
    let length: usize = frame.len();
    if length < MIN_FRAME_LENGTH {
        return Err(FrameError::ResponseTooShort { length });
    }
    if length > MAX_RESPONSE_FRAME_BYTES {
        return Err(FrameError::ResponseTooLarge { length });
    }
    if !(frame[0] == 0x01 && frame[1] == 0x88) {
        return Err(FrameError::InvalidResponseHeader);
    }
    if !(frame[length - 2] == 0x99 && frame[length - 1] == 0x03) {
        return Err(FrameError::InvalidResponseTrailer);
    }
    let payload_length: usize = (frame[3] as usize) * 4;
    let expected_length: usize = MIN_FRAME_LENGTH + payload_length;
    if length != expected_length {
        return Err(
            FrameError::ResponseLengthMismatch { expected: expected_length, actual: length },
        );
    }
    let actual_crc: u16 = bytes::le_u16(frame[length - 4], frame[length - 3]);
    assert(frame@.subrange(length - 4, length - 2) =~= seq![
        frame@[length - 4],
        frame@[length - 3],
    ]);
    let body: Vec<u8> = bytes::copy_range(frame, 2, length - 4);
    let expected_crc: u16 = crc16_ccitt(body.as_slice());
    if actual_crc != expected_crc {
        return Err(
            FrameError::ResponseCrcMismatch { expected: expected_crc, actual: actual_crc },
        );
    }
    if frame[2] != ACK_SUCCESS {
        return Err(FrameError::ResponseRejected { status: frame[2] });
    }
    if payload_length < 4 {
        return Err(FrameError::ResponseMissingCommand);
    }
    let command: u32 = bytes::le_u32_at(frame, 4);
    let data: Vec<u8> = bytes::copy_range(frame, 8, length - 4);
    Ok(Response { command, data })
}

impl FrameError {
    /// The diagnostic form of this error: its name and fields.
    pub open spec fn text(self) -> Seq<char> {
        match self {
            FrameError::PayloadNotWordAligned { length } => "PayloadNotWordAligned { length: "@
                + text::decimal(length as nat) + " }"@,
            FrameError::PayloadTooLarge { length } => "PayloadTooLarge { length: "@ + text::decimal(
                length as nat,
            ) + " }"@,
            FrameError::ResponseTooShort { length } => "ResponseTooShort { length: "@
                + text::decimal(length as nat) + " }"@,
            FrameError::ResponseTooLarge { length } => "ResponseTooLarge { length: "@
                + text::decimal(length as nat) + " }"@,
            FrameError::InvalidResponseHeader => "InvalidResponseHeader"@,
            FrameError::InvalidResponseTrailer => "InvalidResponseTrailer"@,
            FrameError::ResponseLengthMismatch { expected, actual } =>
            "ResponseLengthMismatch { expected: "@ + text::decimal(expected as nat) + ", actual: "@
                + text::decimal(actual as nat) + " }"@,
            FrameError::ResponseCrcMismatch { expected, actual } =>
            "ResponseCrcMismatch { expected: "@ + text::decimal(expected as nat) + ", actual: "@
                + text::decimal(actual as nat) + " }"@,
            FrameError::ResponseRejected { status } => "ResponseRejected { status: "@
                + text::decimal(status as nat) + " }"@,
            FrameError::ResponseMissingCommand => "ResponseMissingCommand"@,
        }
    }

    /// The diagnostic form of this error: its name and fields.
    pub fn message(self) -> (message: String)
        ensures
            message@ == self.text(),
    {
        match self {
            FrameError::PayloadNotWordAligned { length } => one_field(
                "PayloadNotWordAligned { length: ",
                length as u64,
            ),
            FrameError::PayloadTooLarge { length } => one_field(
                "PayloadTooLarge { length: ",
                length as u64,
            ),
            FrameError::ResponseTooShort { length } => one_field(
                "ResponseTooShort { length: ",
                length as u64,
            ),
            FrameError::ResponseTooLarge { length } => one_field(
                "ResponseTooLarge { length: ",
                length as u64,
            ),
            FrameError::InvalidResponseHeader => "InvalidResponseHeader".to_owned(),
            FrameError::InvalidResponseTrailer => "InvalidResponseTrailer".to_owned(),
            FrameError::ResponseLengthMismatch { expected, actual } => two_fields(
                "ResponseLengthMismatch { expected: ",
                expected as u64,
                actual as u64,
            ),
            FrameError::ResponseCrcMismatch { expected, actual } => two_fields(
                "ResponseCrcMismatch { expected: ",
                expected as u64,
                actual as u64,
            ),
            FrameError::ResponseRejected { status } => one_field(
                "ResponseRejected { status: ",
                status as u64,
            ),
            FrameError::ResponseMissingCommand => "ResponseMissingCommand".to_owned(),
        }
    }
}

fn one_field(head: &str, value: u64) -> (message: String)
    ensures
        message@ == head@ + text::decimal(value as nat) + " }"@,
{
    let mut message: String = head.to_owned();
    message.append(text::decimal_text(value).as_str());
    message.append(" }");
    message
}

fn two_fields(head: &str, expected: u64, actual: u64) -> (message: String)
    ensures
        message@ == head@ + text::decimal(expected as nat) + ", actual: "@ + text::decimal(
            actual as nat,
        ) + " }"@,
{
    let mut message: String = head.to_owned();
    message.append(text::decimal_text(expected).as_str());
    message.append(", actual: ");
    message.append(text::decimal_text(actual).as_str());
    message.append(" }");
    message
}

/// An acknowledging frame decodes to the command and data that it was made of.
pub proof fn law_reply_round_trip(command: u32, data: Seq<u8>)
    requires
        frames_payload(bytes::le_bytes(command as nat, 4) + data),
    ensures
        reply_of(frame_of(ACK_SUCCESS, bytes::le_bytes(command as nat, 4) + data)) == Ok::<
            (u32, Seq<u8>),
            FrameError,
        >((command, data)),
{
    let word = bytes::le_bytes(command as nat, 4);
    let payload = word + data;
    let frame = frame_of(ACK_SUCCESS, payload);
    let body = seq![ACK_SUCCESS, (payload.len() / 4) as u8] + payload;
    let n = frame.len() as int;
    bytes::lemma_le_round_trip(command as nat, 4);
    bytes::lemma_le_round_trip(crc16(body) as nat, 2);
    reveal_with_fuel(bytes::pow256, 5);
    assert(frame.subrange(2, n - 4) =~= body);
    assert(frame.subrange(n - 4, n - 2) =~= bytes::le_bytes(crc16(body) as nat, 2));
    assert(frame.subrange(4, 8) =~= word);
    assert(frame.subrange(8, n - 4) =~= data);
}

/// A frame is accepted only if it is, byte for byte, the acknowledging frame of what it decodes to.
pub proof fn law_accepted_frame_is_canonical(frame: Seq<u8>)
    requires
        reply_of(frame) is Ok,
    ensures
        ({
            let reply = reply_of(frame)->Ok_0;
            frame == frame_of(ACK_SUCCESS, bytes::le_bytes(reply.0 as nat, 4) + reply.1)
        }),
{
    let n = frame.len() as int;
    let word = frame.subrange(4, 8);
    let check = frame.subrange(n - 4, n - 2);
    let data = frame.subrange(8, n - 4);
    reveal_with_fuel(bytes::pow256, 5);
    bytes::lemma_le_bytes_of_value(word);
    bytes::lemma_le_bytes_of_value(check);
    assert(bytes::le_value(word) < 0x1_0000_0000);
    let payload = word + data;
    let body = seq![ACK_SUCCESS, (payload.len() / 4) as u8] + payload;
    assert(frame.subrange(2, n - 4) =~= body);
    assert(frame =~= frame_of(ACK_SUCCESS, payload));
}

/// A request that comes back as it was sent is never taken for a reply.
pub proof fn law_echoed_request_is_rejected(command: Command, payload: Seq<u8>)
    requires
        command_frame(command, payload) is Ok,
    ensures
        reply_of(command_frame(command, payload)->Ok_0) == Err::<(u32, Seq<u8>), FrameError>(
            FrameError::ResponseRejected { status: command.spec_code() },
        ),
{
    let frame = frame_of(command.spec_code(), payload);
    let body = seq![command.spec_code(), (payload.len() / 4) as u8] + payload;
    let n = frame.len() as int;
    bytes::lemma_le_round_trip(crc16(body) as nat, 2);
    reveal_with_fuel(bytes::pow256, 3);
    assert(frame.subrange(2, n - 4) =~= body);
    assert(frame.subrange(n - 4, n - 2) =~= bytes::le_bytes(crc16(body) as nat, 2));
}

/// The commands have consecutive codes, which begin at 0x11.
pub proof fn law_commands_are_told_apart(command: Command, other: Command)
    ensures
        command.spec_code() == 0x11 + (match command {
            Command::Connect => 0int,
            Command::SendBlock => 1,
            Command::SendEof => 2,
            Command::RequestBlock => 3,
            Command::Complete => 4,
            Command::GetCanbusId => 5,
        }),
        command.spec_code() == other.spec_code() ==> command == other,
        command.spec_code() != ACK_SUCCESS,
{
}

/// A payload of whole words, at most 255 of them, goes into a frame of eight bytes more: the two
/// bytes of the header, the command, the number of words, the payload, its check in little-endian
/// order, and the two bytes of the trailer. Any other payload is refused with its length.
pub proof fn law_frame_holds_its_payload(command: Command, payload: Seq<u8>)
    requires
        payload.len() <= usize::MAX,
    ensures
        payload.len() % 4 == 0 && payload.len() <= 1020 ==> ({
            let n = payload.len() as int;
            let frame = command_frame(command, payload)->Ok_0;
            &&& command_frame(command, payload) is Ok
            &&& frame.len() == n + 8
            &&& frame[0] == 0x01 && frame[1] == 0x88
            &&& frame[2] == command.spec_code()
            &&& 4 * frame[3] == n
            &&& frame.subrange(4, n + 4) == payload
            &&& frame[n + 4] + 0x100 * frame[n + 5] == crc16(frame.subrange(2, n + 4))
            &&& frame[n + 6] == 0x99 && frame[n + 7] == 0x03
        }),
        payload.len() % 4 != 0 ==> command_frame(command, payload) == Err::<Seq<u8>, FrameError>(
            FrameError::PayloadNotWordAligned { length: payload.len() as usize },
        ),
        payload.len() % 4 == 0 && payload.len() > 1020 ==> command_frame(command, payload) == Err::<
            Seq<u8>,
            FrameError,
        >(FrameError::PayloadTooLarge { length: payload.len() as usize }),
{
    if payload.len() % 4 == 0 && payload.len() <= 1020 {
        let n = payload.len() as int;
        let frame = frame_of(command.spec_code(), payload);
        let body = seq![command.spec_code(), (payload.len() / 4) as u8] + payload;
        let check = bytes::le_bytes(crc16(body) as nat, 2);
        bytes::lemma_le_round_trip(crc16(body) as nat, 2);
        reveal_with_fuel(bytes::pow256, 3);
        bytes::law_pair_is_little_endian(check[0], check[1]);
        assert(check =~= seq![check[0], check[1]]);
        assert(frame.subrange(2, n + 4) =~= body);
        assert(frame.subrange(4, n + 4) =~= payload);
    }
}

/// The check begins at 0xffff and takes in one byte after another, by its low and its high half.
pub proof fn law_check_takes_in_every_byte(buffer: Seq<u8>, byte: u8)
    ensures
        crc16(Seq::empty()) == 0xffff,
        ({
            let crc = crc16(buffer);
            let mixed: u16 = (byte as u16) ^ (crc & 0xff);
            let data: u16 = mixed ^ ((mixed & 0x0f) << 4);
            crc16(buffer.push(byte)) == (((data << 8) | (crc >> 8)) ^ (data >> 4)) ^ (data << 3)
        }),
{
    lemma_crc_byte_by_nibbles(crc16(buffer), byte);
    assert(buffer.push(byte).drop_last() =~= buffer);
}

/// A frame that is no acknowledgement is refused with its status, and an acknowledgement without
/// a command word is refused too.
pub proof fn law_only_acknowledgements_answer(kind: u8, payload: Seq<u8>)
    requires
        payload.len() % 4 == 0,
        payload.len() <= 1020,
    ensures
        kind != 0xa0 ==> reply_of(frame_of(kind, payload)) == Err::<(u32, Seq<u8>), FrameError>(
            FrameError::ResponseRejected { status: kind },
        ),
        kind == 0xa0 && payload.len() == 0 ==> reply_of(frame_of(kind, payload)) == Err::<
            (u32, Seq<u8>),
            FrameError,
        >(FrameError::ResponseMissingCommand),
{
    let frame = frame_of(kind, payload);
    let body = seq![kind, (payload.len() / 4) as u8] + payload;
    let n = frame.len() as int;
    bytes::lemma_le_round_trip(crc16(body) as nat, 2);
    reveal_with_fuel(bytes::pow256, 3);
    assert(frame.subrange(2, n - 4) =~= body);
    assert(frame.subrange(n - 4, n - 2) =~= bytes::le_bytes(crc16(body) as nat, 2));
}

/// A frame is refused for the first thing that is wrong with it: its length, its header, its
/// trailer, its declared length, and then its check.
pub proof fn law_damaged_frame_is_refused(frame: Seq<u8>)
    requires
        frame.len() <= usize::MAX,
    ensures
        ({
            let n = frame.len() as int;
            let refused = |error: FrameError|
                reply_of(frame) == Err::<(u32, Seq<u8>), FrameError>(error);
            let bracketed = 8 <= n <= 1028 && frame[0] == 0x01 && frame[1] == 0x88 && frame[n - 2]
                == 0x99 && frame[n - 1] == 0x03;
            let check = frame[n - 4] + 0x100 * frame[n - 3];
            &&& n < 8 ==> refused(FrameError::ResponseTooShort { length: n as usize })
            &&& n > 1028 ==> refused(FrameError::ResponseTooLarge { length: n as usize })
            &&& 8 <= n <= 1028 && (frame[0] != 0x01 || frame[1] != 0x88) ==> refused(
                FrameError::InvalidResponseHeader,
            )
            &&& 8 <= n <= 1028 && frame[0] == 0x01 && frame[1] == 0x88 && (frame[n - 2] != 0x99
                || frame[n - 1] != 0x03) ==> refused(FrameError::InvalidResponseTrailer)
            &&& bracketed && n != 8 + 4 * frame[3] ==> refused(
                FrameError::ResponseLengthMismatch {
                    expected: (8 + 4 * frame[3]) as usize,
                    actual: n as usize,
                },
            )
            &&& bracketed && n == 8 + 4 * frame[3] && check != crc16(frame.subrange(2, n - 4))
                ==> refused(
                FrameError::ResponseCrcMismatch {
                    expected: crc16(frame.subrange(2, n - 4)),
                    actual: check as u16,
                },
            )
        }),
{
    let n = frame.len() as int;
    if n >= 8 {
        bytes::law_pair_is_little_endian(frame[n - 4], frame[n - 3]);
        assert(frame.subrange(n - 4, n - 2) =~= seq![frame[n - 4], frame[n - 3]]);
    }
}

} // verus!
