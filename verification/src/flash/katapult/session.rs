//! Retry and response-validation logic shared by Katapult transports.
use core::fmt;

use sha1::Digest;
use vstd::prelude::*;

use crate::bytes;
use crate::flash::katapult::{decode_response, encode_command, Command, FrameError};
use crate::flash::katapult;
use crate::text;

verus! {

/// How often one command is tried.
pub const MAX_ATTEMPTS: usize = 5;

/// How often one block is written or read while another address is acknowledged.
pub const BLOCK_ATTEMPTS: usize = 3;

/// The SHA-1 digest of `data`.
pub uninterp spec fn sha1_digest(data: Seq<u8>) -> Seq<u8>;

/// `sha1::Sha1::digest` hashes one whole byte sequence; the digest depends on the bytes alone.
#[verifier::external_body]
fn sha1_of(data: &[u8]) -> (digest: [u8; 20])
    ensures
        digest@ == sha1_digest(data@),
{
    sha1::Sha1::digest(data).into()
}

/// `format!` with `{:?}` renders a value by its own `Debug` implementation. Nothing is claimed of
/// the text: it is whatever that implementation writes.
#[verifier::external_body]
fn debug_text<E: fmt::Debug>(value: &E) -> (text: String) {
    format!("{:?}", value)
}

/// One request and what came back for it.
#[verifier::ext_equal]
pub struct Exchange<E> {
    pub request: Seq<u8>,
    pub reply: Result<Seq<u8>, E>,
}

/// What a reply holds, by its bytes.
pub open spec fn reply_view<E>(reply: Result<Vec<u8>, E>) -> Result<Seq<u8>, E> {
    match reply {
        Ok(bytes) => Ok(bytes@),
        Err(error) => Err(error),
    }
}

/// Exchanges complete Katapult frames over one sequential transport.
pub trait Transport: Sized {
    /// Transport-specific error type.
    type Error;

    /// Every exchange so far, in order.
    /// Nothing is known of it by default: an implementation says what it is.
    open spec fn history(&self) -> Seq<Exchange<Self::Error>> {
        arbitrary()
    }

    /// Sends one complete request and returns one complete response.
    fn exchange(&mut self, request: &[u8]) -> (reply: Result<Vec<u8>, Self::Error>)
        ensures
            final(self).history() == old(self).history().push(
                (Exchange { request: request@, reply: reply_view(reply) }),
            ),
    ;
}

/// Errors returned by a Katapult session.
#[derive(Clone, Debug, PartialEq, Eq)]
pub enum SessionError {
    /// The request frame could not be encoded.
    Encode(FrameError),
    /// Katapult advertised unsupported target geometry.
    Target(TargetError),
    /// The bounded retry policy could not obtain a valid response.
    RetriesExhausted { command: Command, last_failure: String },
    /// A response did not contain required data.
    ResponseDataTooShort { command: Command, expected: usize, actual: usize },
    /// A response did not have the exact required data length.
    ResponseDataLengthMismatch { command: Command, expected: usize, actual: usize },
    /// Katapult acknowledged a different address than requested.
    AddressMismatch { command: Command, expected: u32, actual: u32 },
    /// Firmware block addressing exceeded a 32-bit application address.
    AddressOverflow,
    /// Readback SHA-1 does not match the transmitted padded data.
    ChecksumMismatch,
    /// Katapult's CAN UUID does not match Moonraker's configured UUID.
    CanbusUuidMismatch { expected: u64, actual: u64 },
}

/// A session error without the wording of the last failed attempt.
pub enum SessionFailure {
    Encode(FrameError),
    Target(TargetError),
    RetriesExhausted { command: Command },
    ResponseDataTooShort { command: Command, expected: int, actual: int },
    ResponseDataLengthMismatch { command: Command, expected: int, actual: int },
    AddressMismatch { command: Command, expected: u32, actual: u32 },
    AddressOverflow,
    ChecksumMismatch,
    CanbusUuidMismatch { expected: u64, actual: u64 },
}

impl View for SessionError {
    type V = SessionFailure;

    open spec fn view(&self) -> SessionFailure {
        match *self {
            SessionError::Encode(error) => SessionFailure::Encode(error),
            SessionError::Target(error) => SessionFailure::Target(error),
            SessionError::RetriesExhausted { command, last_failure } =>
            SessionFailure::RetriesExhausted { command },
            SessionError::ResponseDataTooShort { command, expected, actual } =>
            SessionFailure::ResponseDataTooShort {
                command,
                expected: expected as int,
                actual: actual as int,
            },
            SessionError::ResponseDataLengthMismatch { command, expected, actual } =>
            SessionFailure::ResponseDataLengthMismatch {
                command,
                expected: expected as int,
                actual: actual as int,
            },
            SessionError::AddressMismatch { command, expected, actual } =>
            SessionFailure::AddressMismatch { command, expected, actual },
            SessionError::AddressOverflow => SessionFailure::AddressOverflow,
            SessionError::ChecksumMismatch => SessionFailure::ChecksumMismatch,
            SessionError::CanbusUuidMismatch { expected, actual } =>
            SessionFailure::CanbusUuidMismatch { expected, actual },
        }
    }
}

/// An unsupported Katapult target geometry.
#[derive(Clone, Copy, Debug, PartialEq, Eq, Structural)]
pub enum TargetError {
    /// Katapult advertised a block size not supported by the protocol implementation.
    UnsupportedBlockSize { block_size: u32 },
}

/// Katapult firmware geometry reported by `CONNECT`.
#[derive(Clone, Copy, Debug, PartialEq, Eq, Structural)]
pub struct KatapultTarget {
    application_start: u32,
    block_size: usize,
}

/// The block sizes that the protocol supports.
pub open spec fn supported_block_size(block_size: int) -> bool {
    block_size == 64 || block_size == 128 || block_size == 256 || block_size == 512
}

impl KatapultTarget {
    #[verifier::type_invariant]
    spec fn supported(self) -> bool {
        supported_block_size(self.block_size as int)
    }

    /// Where the application begins.
    pub closed spec fn start(self) -> u32 {
        self.application_start
    }

    /// The size of one block.
    pub closed spec fn block(self) -> nat {
        self.block_size as nat
    }

    /// Validates supported geometry supplied by Katapult.
    pub fn new(application_start: u32, block_size: u32) -> (target: Result<Self, TargetError>)
        ensures
            match target {
                Ok(target) => supported_block_size(block_size as int) && target.start()
                    == application_start && target.block() == block_size,
                Err(error) => !supported_block_size(block_size as int) && error
                    == (TargetError::UnsupportedBlockSize { block_size }),
            },
    {
        if block_size == 64 || block_size == 128 || block_size == 256 || block_size == 512 {
            Ok(KatapultTarget { application_start, block_size: block_size as usize })
        } else {
            Err(TargetError::UnsupportedBlockSize { block_size })
        }
    }
}

/// Details of a Katapult upload and readback verification.
#[derive(Clone, Copy, Debug, PartialEq, Eq, Structural)]
pub struct UploadResult {
    /// Pages Katapult reports it wrote after EOF.
    pub pages_written: u32,
    /// Transferred bytes including `0xff` padding.
    pub padded_bytes: usize,
}

/// Katapult's negotiated protocol version and target geometry.
#[derive(Clone, Copy, Debug, PartialEq, Eq)]
pub struct KatapultConnection {
    /// Four-byte protocol version.
    pub protocol_version: [u8; 4],
    /// Validated application target geometry.
    pub target: KatapultTarget,
}

/// How a run of exchanges that began at a given point went: its outcome, the point after its last
/// exchange, and whether every request in between was the one that the protocol asks for there.
#[verifier::ext_equal]
pub struct Run<T> {
    pub result: Result<T, SessionFailure>,
    pub next: int,
    pub faithful: bool,
}

/// The data of a reply that answers `command`; none for a failed or foreign reply.
pub open spec fn accepted_data<E>(command: Command, reply: Result<Seq<u8>, E>) -> Option<Seq<u8>> {
    match reply {
        Ok(frame) => match katapult::reply_of(frame) {
            Ok((code, data)) => if code == command.spec_code() {
                Some(data)
            } else {
                None
            },
            Err(_) => None,
        },
        Err(_) => None,
    }
}

/// Whether `text` says why `reply` does not answer `command`. The wording of a transport error is
/// that of its own `Debug` implementation.
pub open spec fn explains_failure<E>(
    text: Seq<char>,
    command: Command,
    reply: Result<Seq<u8>, E>,
) -> bool {
    match reply {
        Ok(frame) => match katapult::reply_of(frame) {
            Ok((code, data)) => text == "expected command "@ + command.spec_name() + ", got 0x"@
                + text::hexadecimal(code as nat),
            Err(error) => text == "invalid response: "@ + error.text(),
        },
        Err(_) => "transport error: "@.is_prefix_of(text),
    }
}

/// Sends `frame` until a reply answers `command`, at most `left` times.
pub open spec fn attempts_run<E>(
    tape: Seq<Exchange<E>>,
    at: int,
    command: Command,
    frame: Seq<u8>,
    left: nat,
) -> Run<Seq<u8>>
    decreases left,
{
    if left == 0 {
        Run { result: Err(SessionFailure::RetriesExhausted { command }), next: at, faithful: true }
    } else {
        let sent = tape[at].request == frame;
        match accepted_data(command, tape[at].reply) {
            Some(data) => Run { result: Ok(data), next: at + 1, faithful: sent },
            None => {
                let rest = attempts_run(tape, at + 1, command, frame, (left - 1) as nat);
                Run { result: rest.result, next: rest.next, faithful: sent && rest.faithful }
            },
        }
    }
}

/// One command: at most five attempts of its frame, none where the payload cannot be framed.
pub open spec fn command_run<E>(
    tape: Seq<Exchange<E>>,
    at: int,
    command: Command,
    payload: Seq<u8>,
) -> Run<Seq<u8>> {
    match katapult::command_frame(command, payload) {
        Ok(frame) => attempts_run(tape, at, command, frame, MAX_ATTEMPTS as nat),
        Err(error) => Run { result: Err(SessionFailure::Encode(error)), next: at, faithful: true },
    }
}

/// What `CONNECT` data negotiates: the protocol version, the application start and the block size.
pub open spec fn connection_of(data: Seq<u8>) -> Result<(Seq<u8>, u32, u32), SessionFailure> {
    if data.len() < 12 {
        Err(
            SessionFailure::ResponseDataTooShort {
                command: Command::Connect,
                expected: 12,
                actual: data.len() as int,
            },
        )
    } else {
        let start = bytes::le_value(data.subrange(4, 8)) as u32;
        let block_size = bytes::le_value(data.subrange(8, 12)) as u32;
        if supported_block_size(block_size as int) {
            Ok((data.take(4), start, block_size))
        } else {
            Err(SessionFailure::Target(TargetError::UnsupportedBlockSize { block_size }))
        }
    }
}

/// The number that `bytes` write with the most significant byte first.
pub open spec fn be_value(bytes: Seq<u8>) -> nat
    decreases bytes.len(),
{
    if bytes.len() == 0 {
        0
    } else {
        256 * be_value(bytes.drop_last()) + bytes.last() as nat
    }
}

/// Whether `GET_CANBUS_ID` data names the expected UUID.
pub open spec fn uuid_check(data: Seq<u8>, expected: u64) -> Result<(), SessionFailure> {
    if data.len() < 6 {
        Err(
            SessionFailure::ResponseDataTooShort {
                command: Command::GetCanbusId,
                expected: 6,
                actual: data.len() as int,
            },
        )
    } else if be_value(data.take(6)) == expected {
        Ok(())
    } else {
        Err(
            SessionFailure::CanbusUuidMismatch {
                expected,
                actual: be_value(data.take(6)) as u64,
            },
        )
    }
}

/// The number in the first word of a reply's data.
pub open spec fn first_number(command: Command, data: Seq<u8>) -> Result<u32, SessionFailure> {
    if data.len() < 4 {
        Err(
            SessionFailure::ResponseDataTooShort {
                command,
                expected: 4,
                actual: data.len() as int,
            },
        )
    } else {
        Ok(bytes::le_value(data.take(4)) as u32)
    }
}

/// Writes one block, again where another address is acknowledged, at most `left` times.
pub open spec fn write_block_run<E>(
    tape: Seq<Exchange<E>>,
    at: int,
    address: u32,
    block: Seq<u8>,
    actual: u32,
    left: nat,
) -> Run<()>
    decreases left,
{
    if left == 0 {
        Run {
            result: Err(
                SessionFailure::AddressMismatch {
                    command: Command::SendBlock,
                    expected: address,
                    actual,
                },
            ),
            next: at,
            faithful: true,
        }
    } else {
        let sent = command_run(
            tape,
            at,
            Command::SendBlock,
            bytes::le_bytes(address as nat, 4) + block,
        );
        match sent.result {
            Err(error) => Run { result: Err(error), next: sent.next, faithful: sent.faithful },
            Ok(data) => match first_number(Command::SendBlock, data) {
                Err(error) => Run { result: Err(error), next: sent.next, faithful: sent.faithful },
                Ok(acknowledged) => if acknowledged == address {
                    Run { result: Ok(()), next: sent.next, faithful: sent.faithful }
                } else {
                    let rest = write_block_run(
                        tape,
                        sent.next,
                        address,
                        block,
                        acknowledged,
                        (left - 1) as nat,
                    );
                    Run {
                        result: rest.result,
                        next: rest.next,
                        faithful: sent.faithful && rest.faithful,
                    }
                },
            },
        }
    }
}

/// Reads one block, again where another address is acknowledged, at most `left` times.
pub open spec fn read_block_run<E>(
    tape: Seq<Exchange<E>>,
    at: int,
    address: u32,
    block_size: nat,
    actual: u32,
    left: nat,
) -> Run<Seq<u8>>
    decreases left,
{
    if left == 0 {
        Run {
            result: Err(
                SessionFailure::AddressMismatch {
                    command: Command::RequestBlock,
                    expected: address,
                    actual,
                },
            ),
            next: at,
            faithful: true,
        }
    } else {
        let sent = command_run(
            tape,
            at,
            Command::RequestBlock,
            bytes::le_bytes(address as nat, 4),
        );
        match sent.result {
            Err(error) => Run { result: Err(error), next: sent.next, faithful: sent.faithful },
            Ok(data) => if data.len() != 4 + block_size {
                Run {
                    result: Err(
                        SessionFailure::ResponseDataLengthMismatch {
                            command: Command::RequestBlock,
                            expected: 4 + block_size as int,
                            actual: data.len() as int,
                        },
                    ),
                    next: sent.next,
                    faithful: sent.faithful,
                }
            } else {
                let acknowledged = bytes::le_value(data.take(4)) as u32;
                if acknowledged == address {
                    Run { result: Ok(data.skip(4)), next: sent.next, faithful: sent.faithful }
                } else {
                    let rest = read_block_run(
                        tape,
                        sent.next,
                        address,
                        block_size,
                        acknowledged,
                        (left - 1) as nat,
                    );
                    Run {
                        result: rest.result,
                        next: rest.next,
                        faithful: sent.faithful && rest.faithful,
                    }
                }
            },
        }
    }
}

/// How many blocks of `block_size` bytes hold `length` bytes.
pub open spec fn block_count(length: nat, block_size: nat) -> nat {
    if block_size == 0 {
        0
    } else {
        ((length + block_size - 1) / block_size as int) as nat
    }
}

/// `firmware` filled up with `0xff` to whole blocks.
pub open spec fn padded_image(firmware: Seq<u8>, block_size: nat) -> Seq<u8> {
    Seq::new(
        block_count(firmware.len(), block_size) * block_size,
        |i: int|
            if i < firmware.len() {
                firmware[i]
            } else {
                0xffu8
            },
    )
}

/// The block of `image` with the given index.
pub open spec fn image_block(image: Seq<u8>, block_size: nat, index: nat) -> Seq<u8> {
    image.subrange((index * block_size) as int, (index * block_size + block_size) as int)
}

/// Writes the first `count` blocks of `image` in order, each at its own address.
pub open spec fn write_blocks_run<E>(
    tape: Seq<Exchange<E>>,
    at: int,
    start: u32,
    block_size: nat,
    image: Seq<u8>,
    count: nat,
) -> Run<()>
    decreases count,
{
    if count == 0 {
        Run { result: Ok(()), next: at, faithful: true }
    } else {
        let index = (count - 1) as nat;
        let before = write_blocks_run(tape, at, start, block_size, image, index);
        if before.result is Err {
            before
        } else if start + index * block_size > u32::MAX {
            Run {
                result: Err(SessionFailure::AddressOverflow),
                next: before.next,
                faithful: before.faithful,
            }
        } else {
            let one = write_block_run(
                tape,
                before.next,
                (start + index * block_size) as u32,
                image_block(image, block_size, index),
                0,
                BLOCK_ATTEMPTS as nat,
            );
            Run {
                result: one.result,
                next: one.next,
                faithful: before.faithful && one.faithful,
            }
        }
    }
}

/// Reads the first `count` blocks back in order, each from its own address.
pub open spec fn read_blocks_run<E>(
    tape: Seq<Exchange<E>>,
    at: int,
    start: u32,
    block_size: nat,
    count: nat,
) -> Run<Seq<u8>>
    decreases count,
{
    if count == 0 {
        Run { result: Ok(Seq::empty()), next: at, faithful: true }
    } else {
        let index = (count - 1) as nat;
        let before = read_blocks_run(tape, at, start, block_size, index);
        match before.result {
            Err(_) => before,
            Ok(read) => if start + index * block_size > u32::MAX {
                Run {
                    result: Err(SessionFailure::AddressOverflow),
                    next: before.next,
                    faithful: before.faithful,
                }
            } else {
                let one = read_block_run(
                    tape,
                    before.next,
                    (start + index * block_size) as u32,
                    block_size,
                    0,
                    BLOCK_ATTEMPTS as nat,
                );
                Run {
                    result: match one.result {
                        Ok(block) => Ok(read + block),
                        Err(error) => Err(error),
                    },
                    next: one.next,
                    faithful: before.faithful && one.faithful,
                }
            },
        }
    }
}

/// A whole upload: every padded block is written, the transfer is finalized, every block is read
/// back, and the digests of what was written and what was read must agree.
pub open spec fn upload_run<E>(
    tape: Seq<Exchange<E>>,
    at: int,
    start: u32,
    block_size: nat,
    firmware: Seq<u8>,
) -> Run<(u32, nat)> {
    let image = padded_image(firmware, block_size);
    let count = block_count(firmware.len(), block_size);
    let written = write_blocks_run(tape, at, start, block_size, image, count);
    match written.result {
        Err(error) => Run { result: Err(error), next: written.next, faithful: written.faithful },
        Ok(_) => {
            let finished = command_run(tape, written.next, Command::SendEof, Seq::empty());
            let sent = written.faithful && finished.faithful;
            match finished.result {
                Err(error) => Run { result: Err(error), next: finished.next, faithful: sent },
                Ok(data) => match first_number(Command::SendEof, data) {
                    Err(error) => Run { result: Err(error), next: finished.next, faithful: sent },
                    Ok(pages) => {
                        let read = read_blocks_run(
                            tape,
                            finished.next,
                            start,
                            block_size,
                            count,
                        );
                        let result = match read.result {
                            Err(error) => Err(error),
                            Ok(copy) => if sha1_digest(image) == sha1_digest(copy) {
                                Ok((pages, image.len()))
                            } else {
                                Err(SessionFailure::ChecksumMismatch)
                            },
                        };
                        Run { result, next: read.next, faithful: sent && read.faithful }
                    },
                },
            }
        },
    }
}

proof fn lemma_attempts<E>(
    tape: Seq<Exchange<E>>,
    longer: Seq<Exchange<E>>,
    at: int,
    command: Command,
    frame: Seq<u8>,
    left: nat,
)
    requires
        0 <= at,
        tape.is_prefix_of(longer),
    ensures
        attempts_run(tape, at, command, frame, left).next >= at,
        attempts_run(tape, at, command, frame, left).next <= tape.len() ==> attempts_run(
            longer,
            at,
            command,
            frame,
            left,
        ) == attempts_run(tape, at, command, frame, left),
    decreases left,
{
    if left > 0 {
        lemma_attempts(tape, longer, at + 1, command, frame, (left - 1) as nat);
        if at < tape.len() {
            assert(longer[at] == tape[at]);
        }
    }
}

/// More exchanges after a command do not change how it went.
pub proof fn lemma_command<E>(
    tape: Seq<Exchange<E>>,
    longer: Seq<Exchange<E>>,
    at: int,
    command: Command,
    payload: Seq<u8>,
)
    requires
        0 <= at,
        tape.is_prefix_of(longer),
    ensures
        command_run(tape, at, command, payload).next >= at,
        command_run(tape, at, command, payload).next <= tape.len() ==> command_run(
            longer,
            at,
            command,
            payload,
        ) == command_run(tape, at, command, payload),
{
    if let Ok(frame) = katapult::command_frame(command, payload) {
        lemma_attempts(tape, longer, at, command, frame, MAX_ATTEMPTS as nat);
    }
}

proof fn lemma_write_block<E>(
    tape: Seq<Exchange<E>>,
    longer: Seq<Exchange<E>>,
    at: int,
    address: u32,
    block: Seq<u8>,
    actual: u32,
    left: nat,
)
    requires
        0 <= at,
        tape.is_prefix_of(longer),
    ensures
        write_block_run(tape, at, address, block, actual, left).next >= at,
        write_block_run(tape, at, address, block, actual, left).next <= tape.len()
            ==> write_block_run(longer, at, address, block, actual, left) == write_block_run(
            tape,
            at,
            address,
            block,
            actual,
            left,
        ),
    decreases left,
{
    if left > 0 {
        let payload = bytes::le_bytes(address as nat, 4) + block;
        lemma_command(tape, longer, at, Command::SendBlock, payload);
        let sent = command_run(tape, at, Command::SendBlock, payload);
        if let Ok(data) = sent.result {
            if let Ok(acknowledged) = first_number(Command::SendBlock, data) {
                lemma_write_block(
                    tape,
                    longer,
                    sent.next,
                    address,
                    block,
                    acknowledged,
                    (left - 1) as nat,
                );
            }
        }
    }
}

proof fn lemma_read_block<E>(
    tape: Seq<Exchange<E>>,
    longer: Seq<Exchange<E>>,
    at: int,
    address: u32,
    block_size: nat,
    actual: u32,
    left: nat,
)
    requires
        0 <= at,
        tape.is_prefix_of(longer),
    ensures
        read_block_run(tape, at, address, block_size, actual, left).next >= at,
        read_block_run(tape, at, address, block_size, actual, left).next <= tape.len()
            ==> read_block_run(longer, at, address, block_size, actual, left) == read_block_run(
            tape,
            at,
            address,
            block_size,
            actual,
            left,
        ),
    decreases left,
{
    if left > 0 {
        let payload = bytes::le_bytes(address as nat, 4);
        lemma_command(tape, longer, at, Command::RequestBlock, payload);
        let sent = command_run(tape, at, Command::RequestBlock, payload);
        if let Ok(data) = sent.result {
            let acknowledged = bytes::le_value(data.take(4)) as u32;
            lemma_read_block(
                tape,
                longer,
                sent.next,
                address,
                block_size,
                acknowledged,
                (left - 1) as nat,
            );
        }
    }
}

proof fn lemma_write_blocks<E>(
    tape: Seq<Exchange<E>>,
    longer: Seq<Exchange<E>>,
    at: int,
    start: u32,
    block_size: nat,
    image: Seq<u8>,
    count: nat,
)
    requires
        0 <= at,
        tape.is_prefix_of(longer),
    ensures
        write_blocks_run(tape, at, start, block_size, image, count).next >= at,
        write_blocks_run(tape, at, start, block_size, image, count).next <= tape.len()
            ==> write_blocks_run(longer, at, start, block_size, image, count) == write_blocks_run(
            tape,
            at,
            start,
            block_size,
            image,
            count,
        ),
    decreases count,
{
    if count > 0 {
        let index = (count - 1) as nat;
        let before = write_blocks_run(tape, at, start, block_size, image, index);
        lemma_write_blocks(tape, longer, at, start, block_size, image, index);
        lemma_write_block(
            tape,
            longer,
            before.next,
            (start + index * block_size) as u32,
            image_block(image, block_size, index),
            0,
            BLOCK_ATTEMPTS as nat,
        );
    }
}

proof fn lemma_read_blocks<E>(
    tape: Seq<Exchange<E>>,
    longer: Seq<Exchange<E>>,
    at: int,
    start: u32,
    block_size: nat,
    count: nat,
)
    requires
        0 <= at,
        tape.is_prefix_of(longer),
    ensures
        read_blocks_run(tape, at, start, block_size, count).next >= at,
        read_blocks_run(tape, at, start, block_size, count).next <= tape.len() ==> read_blocks_run(
            longer,
            at,
            start,
            block_size,
            count,
        ) == read_blocks_run(tape, at, start, block_size, count),
    decreases count,
{
    if count > 0 {
        let index = (count - 1) as nat;
        let before = read_blocks_run(tape, at, start, block_size, index);
        lemma_read_blocks(tape, longer, at, start, block_size, index);
        lemma_read_block(
            tape,
            longer,
            before.next,
            (start + index * block_size) as u32,
            block_size,
            0,
            BLOCK_ATTEMPTS as nat,
        );
    }
}

proof fn lemma_write_blocks_stop<E>(
    tape: Seq<Exchange<E>>,
    at: int,
    start: u32,
    block_size: nat,
    image: Seq<u8>,
    stop: nat,
    count: nat,
)
    requires
        stop <= count,
        write_blocks_run(tape, at, start, block_size, image, stop).result is Err,
    ensures
        write_blocks_run(tape, at, start, block_size, image, count) == write_blocks_run(
            tape,
            at,
            start,
            block_size,
            image,
            stop,
        ),
    decreases count,
{
    if stop < count {
        lemma_write_blocks_stop(tape, at, start, block_size, image, stop, (count - 1) as nat);
    }
}

proof fn lemma_read_blocks_stop<E>(
    tape: Seq<Exchange<E>>,
    at: int,
    start: u32,
    block_size: nat,
    stop: nat,
    count: nat,
)
    requires
        stop <= count,
        read_blocks_run(tape, at, start, block_size, stop).result is Err,
    ensures
        read_blocks_run(tape, at, start, block_size, count) == read_blocks_run(
            tape,
            at,
            start,
            block_size,
            stop,
        ),
    decreases count,
{
    if stop < count {
        lemma_read_blocks_stop(tape, at, start, block_size, stop, (count - 1) as nat);
    }
}

/// More exchanges after an upload do not change how it went.
pub proof fn lemma_upload<E>(
    tape: Seq<Exchange<E>>,
    longer: Seq<Exchange<E>>,
    at: int,
    start: u32,
    block_size: nat,
    firmware: Seq<u8>,
)
    requires
        0 <= at,
        tape.is_prefix_of(longer),
        upload_run(tape, at, start, block_size, firmware).next <= tape.len(),
    ensures
        upload_run(longer, at, start, block_size, firmware) == upload_run(
            tape,
            at,
            start,
            block_size,
            firmware,
        ),
{
    let image = padded_image(firmware, block_size);
    let count = block_count(firmware.len(), block_size);
    let written = write_blocks_run(tape, at, start, block_size, image, count);
    lemma_write_blocks(tape, longer, at, start, block_size, image, count);
    let finished = command_run(tape, written.next, Command::SendEof, Seq::empty());
    lemma_command(tape, longer, written.next, Command::SendEof, Seq::empty());
    lemma_read_blocks(tape, longer, finished.next, start, block_size, count);
}

/// Whether the exchanges after `before` are exactly those of `run`, and `result` is its outcome.
pub open spec fn settles<E, T>(
    before: Seq<Exchange<E>>,
    after: Seq<Exchange<E>>,
    run: Run<T>,
    result: Result<T, SessionFailure>,
) -> bool {
    &&& before.is_prefix_of(after)
    &&& run.next == after.len()
    &&& run.faithful
    &&& run.result == result
}

/// Whether an error that gives up on a command words the last exchange's failure.
pub open spec fn explained<E>(error: SessionError, tape: Seq<Exchange<E>>) -> bool {
    match error {
        SessionError::RetriesExhausted { command, last_failure } => tape.len() > 0
            && explains_failure(last_failure@, command, tape.last().reply),
        _ => true,
    }
}

/// A Katapult session over an arbitrary sequential transport.
pub struct KatapultSession<T> {
    transport: T,
}

impl<T> KatapultSession<T> {
    /// The underlying transport.
    pub closed spec fn link(&self) -> T {
        self.transport
    }

    /// Creates a session around `transport`.
    pub fn new(transport: T) -> (session: Self)
        ensures
            session.link() == transport,
    {
        KatapultSession { transport }
    }

    /// Returns ownership of the underlying transport.
    pub fn into_transport(self) -> (transport: T)
        ensures
            transport == self.link(),
    {
        self.transport
    }
}

impl<T: Transport> KatapultSession<T> where T::Error: fmt::Debug {
    /// Every exchange so far, in order.
    pub open spec fn history(&self) -> Seq<Exchange<T::Error>> {
        self.link().history()
    }

    /// Connects and validates the advertised target geometry.
    pub fn connect(&mut self) -> (result: Result<KatapultConnection, SessionError>)
        ensures
            ({
                let run = command_run(
                    final(self).history(),
                    old(self).history().len() as int,
                    Command::Connect,
                    Seq::empty(),
                );
                &&& old(self).history().is_prefix_of(final(self).history())
                &&& run.next == final(self).history().len()
                &&& run.faithful
                &&& match result {
                    Ok(connection) => supported_block_size(connection.target.block() as int)
                        && run.result is Ok && connection_of(run.result->Ok_0) == Ok::<
                        (Seq<u8>, u32, u32),
                        SessionFailure,
                    >(
                        (
                            connection.protocol_version@,
                            connection.target.start(),
                            connection.target.block() as u32,
                        ),
                    ),
                    Err(error) => explained(error, final(self).history()) && match run.result {
                        Ok(data) => connection_of(data) == Err::<
                            (Seq<u8>, u32, u32),
                            SessionFailure,
                        >(error@),
                        Err(failure) => failure == error@,
                    },
                }
            }),
    {
        let none: [u8; 0] = [];
        assert(none@ =~= Seq::<u8>::empty());
        let response: Vec<u8> = match self.command(Command::Connect, &none) {
            Ok(response) => response,
            Err(error) => {
                return Err(error);
            },
        };
        if response.len() < 12 {
            return Err(
                SessionError::ResponseDataTooShort {
                    command: Command::Connect,
                    expected: 12,
                    actual: response.len(),
                },
            );
        }
        let protocol_version: [u8; 4] = [response[0], response[1], response[2], response[3]];
        assert(protocol_version@ =~= response@.take(4));
        let application_start: u32 = bytes::le_u32_at(response.as_slice(), 4);
        let block_size: u32 = bytes::le_u32_at(response.as_slice(), 8);
        match KatapultTarget::new(application_start, block_size) {
            Ok(target) => Ok(KatapultConnection { protocol_version, target }),
            Err(error) => Err(SessionError::Target(error)),
        }
    }

    /// Verifies Katapult's reported CAN UUID.
    pub fn verify_canbus_uuid(&mut self, expected: u64) -> (result: Result<(), SessionError>)
        ensures
            ({
                let run = command_run(
                    final(self).history(),
                    old(self).history().len() as int,
                    Command::GetCanbusId,
                    Seq::empty(),
                );
                &&& old(self).history().is_prefix_of(final(self).history())
                &&& run.next == final(self).history().len()
                &&& run.faithful
                &&& match result {
                    Ok(_) => run.result is Ok && uuid_check(run.result->Ok_0, expected) is Ok,
                    Err(error) => explained(error, final(self).history()) && match run.result {
                        Ok(data) => uuid_check(data, expected) == Err::<(), SessionFailure>(error@),
                        Err(failure) => failure == error@,
                    },
                }
            }),
    {
        let none: [u8; 0] = [];
        assert(none@ =~= Seq::<u8>::empty());
        let response: Vec<u8> = match self.command(Command::GetCanbusId, &none) {
            Ok(response) => response,
            Err(error) => {
                return Err(error);
            },
        };
        if response.len() < 6 {
            return Err(
                SessionError::ResponseDataTooShort {
                    command: Command::GetCanbusId,
                    expected: 6,
                    actual: response.len(),
                },
            );
        }
        let actual: u64 = (response[0] as u64) * 0x100_0000_0000 + (response[1] as u64)
            * 0x1_0000_0000 + (response[2] as u64) * 0x100_0000 + (response[3] as u64) * 0x1_0000
            + (response[4] as u64) * 0x100 + (response[5] as u64);
        proof {
            let six = response@.take(6);
            assert(six.drop_last() =~= response@.take(5));
            assert(response@.take(5).drop_last() =~= response@.take(4));
            assert(response@.take(4).drop_last() =~= response@.take(3));
            assert(response@.take(3).drop_last() =~= response@.take(2));
            assert(response@.take(2).drop_last() =~= response@.take(1));
            assert(response@.take(1).drop_last() =~= Seq::<u8>::empty());
            reveal_with_fuel(be_value, 7);
            assert(actual == be_value(six));
        }
        if actual == expected {
            Ok(())
        } else {
            Err(SessionError::CanbusUuidMismatch { expected, actual })
        }
    }

    /// Exits Katapult and starts its application.
    pub fn complete(&mut self) -> (result: Result<(), SessionError>)
        ensures
            ({
                let run = command_run(
                    final(self).history(),
                    old(self).history().len() as int,
                    Command::Complete,
                    Seq::empty(),
                );
                &&& old(self).history().is_prefix_of(final(self).history())
                &&& run.next == final(self).history().len()
                &&& run.faithful
                &&& match result {
                    Ok(_) => run.result is Ok,
                    Err(error) => explained(error, final(self).history()) && run.result == Err::<
                        Seq<u8>,
                        SessionFailure,
                    >(error@),
                }
            }),
    {
        let none: [u8; 0] = [];
        assert(none@ =~= Seq::<u8>::empty());
        match self.command(Command::Complete, &none) {
            Ok(_) => Ok(()),
            Err(error) => Err(error),
        }
    }

    /// Sends one command after bounded response validation retries.
    pub fn command(&mut self, command: Command, payload: &[u8]) -> (result: Result<
        Vec<u8>,
        SessionError,
    >)
        ensures
            settles(
                old(self).history(),
                final(self).history(),
                command_run(
                    final(self).history(),
                    old(self).history().len() as int,
                    command,
                    payload@,
                ),
                match result {
                    Ok(data) => Ok(data@),
                    Err(error) => Err(error@),
                },
            ),
            result is Err ==> explained(result->Err_0, final(self).history()),
    {
        let request: Vec<u8> = match encode_command(command, payload) {
            Ok(request) => request,
            Err(error) => {
                return Err(SessionError::Encode(error));
            },
        };
        self.attempt(command, request.as_slice(), "no response received".to_owned(), MAX_ATTEMPTS)
    }

    fn attempt(
        &mut self,
        command: Command,
        request: &[u8],
        last_failure: String,
        left: usize,
    ) -> (result: Result<Vec<u8>, SessionError>)
        ensures
            settles(
                old(self).history(),
                final(self).history(),
                attempts_run(
                    final(self).history(),
                    old(self).history().len() as int,
                    command,
                    request@,
                    left as nat,
                ),
                match result {
                    Ok(data) => Ok(data@),
                    Err(error) => Err(error@),
                },
            ),
            match result {
                Err(SessionError::RetriesExhausted { command: given_up, last_failure: reason }) =>
                given_up == command && if left == 0 {
                    reason == last_failure
                } else {
                    final(self).history().len() > 0 && explains_failure(
                        reason@,
                        command,
                        final(self).history().last().reply,
                    )
                },
                Err(_) => false,
                Ok(_) => true,
            },
        decreases left,
    {
        if left == 0 {
            return Err(SessionError::RetriesExhausted { command, last_failure });
        }
        let ghost before = self.history();
        let reply: Result<Vec<u8>, T::Error> = self.transport.exchange(request);
        let ghost seen = self.history();
        assert(before.is_prefix_of(seen));
        let failure: String = match reply {
            Ok(frame) => match decode_response(frame.as_slice()) {
                Ok(response) => {
                    if response.command == command.code() as u32 {
                        return Ok(response.data);
                    }
                    let mut failure: String = "expected command ".to_owned();
                    failure.append(command.name());
                    failure.append(", got 0x");
                    failure.append(text::hexadecimal_text(response.command as u64).as_str());
                    failure
                },
                Err(error) => {
                    let mut failure: String = "invalid response: ".to_owned();
                    failure.append(error.message().as_str());
                    failure
                },
            },
            Err(error) => {
                let mut failure: String = "transport error: ".to_owned();
                failure.append(debug_text(&error).as_str());
                failure
            },
        };
        assert(explains_failure(failure@, command, seen.last().reply));
        self.attempt(command, request, failure, left - 1)
    }

    /// Uploads padded firmware blocks, reads them back, and verifies protocol-required SHA-1.
    #[verifier::rlimit(50)]
    pub fn upload(&mut self, firmware: &[u8], target: KatapultTarget) -> (result: Result<
        UploadResult,
        SessionError,
    >)
        ensures
            settles(
                old(self).history(),
                final(self).history(),
                upload_run(
                    final(self).history(),
                    old(self).history().len() as int,
                    target.start(),
                    target.block(),
                    firmware@,
                ),
                match result {
                    Ok(done) => Ok((done.pages_written, done.padded_bytes as nat)),
                    Err(error) => Err(error@),
                },
            ),
            result is Err ==> explained(result->Err_0, final(self).history()),
    {
        proof {
            use_type_invariant(&target);
        }
        let image: Vec<u8> = padded(firmware, target.block_size);
        let count: usize = image.len() / target.block_size;
        let ghost at = self.history().len() as int;
        let ghost start = target.start();
        let ghost size = target.block();
        proof {
            lemma_whole_blocks(firmware@.len(), size);
        }
        let mut index: usize = 0;
        while index < count
            invariant
                index <= count,
                supported_block_size(size as int),
                size == target.block(),
                start == target.start(),
                image@.len() == count * size,
                at == old(self).history().len(),
                count == block_count(firmware@.len(), size),
                image@ == padded_image(firmware@, size),
                settles(
                    old(self).history(),
                    self.history(),
                    write_blocks_run(self.history(), at, start, size, image@, index as nat),
                    Ok(()),
                ),
            decreases count - index,
        {
            let ghost seen = self.history();
            let address: u32 = match block_address(target, index) {
                Some(address) => address,
                None => {
                    proof {
                        lemma_write_blocks_stop(
                            seen,
                            at,
                            start,
                            size,
                            image@,
                            (index + 1) as nat,
                            count as nat,
                        );
                    }
                    return Err(SessionError::AddressOverflow);
                },
            };
            proof {
                lemma_block_bounds(index as nat, count as nat, size);
            }
            let block: Vec<u8> = bytes::copy_range(
                image.as_slice(),
                index * target.block_size,
                index * target.block_size + target.block_size,
            );
            let written: Result<(), SessionError> = self.write_block(
                address,
                block.as_slice(),
                0,
                BLOCK_ATTEMPTS,
            );
            proof {
                lemma_write_blocks(
                    seen,
                    self.history(),
                    at,
                    start,
                    size,
                    image@,
                    index as nat,
                );
            }
            if let Err(error) = written {
                proof {
                    lemma_write_blocks_stop(
                        self.history(),
                        at,
                        start,
                        size,
                        image@,
                        (index + 1) as nat,
                        count as nat,
                    );
                }
                return Err(error);
            }
            index += 1;
        }
        let ghost written_tape = self.history();
        let none: [u8; 0] = [];
        assert(none@ =~= Seq::<u8>::empty());
        let finished: Result<Vec<u8>, SessionError> = self.command(Command::SendEof, &none);
        let ghost finished_tape = self.history();
        proof {
            lemma_write_blocks(
                written_tape,
                finished_tape,
                at,
                start,
                size,
                image@,
                count as nat,
            );
        }
        let data: Vec<u8> = match finished {
            Ok(data) => data,
            Err(error) => {
                return Err(error);
            },
        };
        let pages_written: u32 = match response_u32(Command::SendEof, data.as_slice()) {
            Ok(pages) => pages,
            Err(error) => {
                return Err(error);
            },
        };
        let ghost read_at = self.history().len() as int;
        let mut copy: Vec<u8> = Vec::new();
        assert(copy@ =~= Seq::<u8>::empty());
        let mut index: usize = 0;
        while index < count
            invariant
                index <= count,
                supported_block_size(size as int),
                size == target.block(),
                start == target.start(),
                image@.len() == count * size,
                at == old(self).history().len(),
                count == block_count(firmware@.len(), size),
                image@ == padded_image(firmware@, size),
                read_at == finished_tape.len(),
                old(self).history().is_prefix_of(finished_tape),
                settles(
                    finished_tape,
                    self.history(),
                    read_blocks_run(self.history(), read_at, start, size, index as nat),
                    Ok(copy@),
                ),
                settles(
                    old(self).history(),
                    written_tape,
                    write_blocks_run(written_tape, at, start, size, image@, count as nat),
                    Ok(()),
                ),
                settles(
                    written_tape,
                    finished_tape,
                    command_run(
                        finished_tape,
                        written_tape.len() as int,
                        Command::SendEof,
                        Seq::empty(),
                    ),
                    Ok(data@),
                ),
                first_number(Command::SendEof, data@) == Ok::<u32, SessionFailure>(pages_written),
            decreases count - index,
        {
            let ghost seen = self.history();
            let address: u32 = match block_address(target, index) {
                Some(address) => address,
                None => {
                    proof {
                        lemma_read_blocks_stop(
                            seen,
                            read_at,
                            start,
                            size,
                            (index + 1) as nat,
                            count as nat,
                        );
                        lemma_write_blocks(written_tape, seen, at, start, size, image@, count as nat);
                        lemma_command(
                            finished_tape,
                            seen,
                            written_tape.len() as int,
                            Command::SendEof,
                            Seq::empty(),
                        );
                    }
                    return Err(SessionError::AddressOverflow);
                },
            };
            let read: Result<Vec<u8>, SessionError> = self.read_block(
                address,
                target.block_size,
                0,
                BLOCK_ATTEMPTS,
            );
            proof {
                lemma_read_blocks(seen, self.history(), read_at, start, size, index as nat);
            }
            match read {
                Ok(block) => {
                    bytes::append(&mut copy, block.as_slice());
                },
                Err(error) => {
                    proof {
                        let now = self.history();
                        lemma_read_blocks_stop(
                            now,
                            read_at,
                            start,
                            size,
                            (index + 1) as nat,
                            count as nat,
                        );
                        lemma_write_blocks(written_tape, now, at, start, size, image@, count as nat);
                        lemma_command(
                            finished_tape,
                            now,
                            written_tape.len() as int,
                            Command::SendEof,
                            Seq::empty(),
                        );
                    }
                    return Err(error);
                },
            }
            index += 1;
        }
        proof {
            let now = self.history();
            lemma_write_blocks(written_tape, now, at, start, size, image@, count as nat);
            lemma_command(
                finished_tape,
                now,
                written_tape.len() as int,
                Command::SendEof,
                Seq::empty(),
            );
        }
        let expected: [u8; 20] = sha1_of(image.as_slice());
        let actual: [u8; 20] = sha1_of(copy.as_slice());
        if !bytes::same_bytes(expected.as_slice(), actual.as_slice()) {
            return Err(SessionError::ChecksumMismatch);
        }
        Ok(UploadResult { pages_written, padded_bytes: image.len() })
    }

    fn write_block(&mut self, address: u32, block: &[u8], actual: u32, left: usize) -> (result:
        Result<(), SessionError>)
        ensures
            settles(
                old(self).history(),
                final(self).history(),
                write_block_run(
                    final(self).history(),
                    old(self).history().len() as int,
                    address,
                    block@,
                    actual,
                    left as nat,
                ),
                match result {
                    Ok(_) => Ok(()),
                    Err(error) => Err(error@),
                },
            ),
            result is Err ==> explained(result->Err_0, final(self).history()),
        decreases left,
    {
        if left == 0 {
            return Err(
                SessionError::AddressMismatch {
                    command: Command::SendBlock,
                    expected: address,
                    actual,
                },
            );
        }
        let mut payload: Vec<u8> = bytes::u32_le(address);
        bytes::append(&mut payload, block);
        let ghost before = self.history();
        let data: Vec<u8> = match self.command(Command::SendBlock, payload.as_slice()) {
            Ok(data) => data,
            Err(error) => {
                return Err(error);
            },
        };
        let acknowledged: u32 = match response_u32(Command::SendBlock, data.as_slice()) {
            Ok(acknowledged) => acknowledged,
            Err(error) => {
                return Err(error);
            },
        };
        if acknowledged == address {
            return Ok(());
        }
        let ghost seen = self.history();
        let result: Result<(), SessionError> = self.write_block(
            address,
            block,
            acknowledged,
            left - 1,
        );
        proof {
            lemma_command(
                seen,
                self.history(),
                before.len() as int,
                Command::SendBlock,
                payload@,
            );
        }
        result
    }

    fn read_block(&mut self, address: u32, block_size: usize, actual: u32, left: usize) -> (result:
        Result<Vec<u8>, SessionError>)
        requires
            block_size <= 512,
        ensures
            settles(
                old(self).history(),
                final(self).history(),
                read_block_run(
                    final(self).history(),
                    old(self).history().len() as int,
                    address,
                    block_size as nat,
                    actual,
                    left as nat,
                ),
                match result {
                    Ok(block) => Ok(block@),
                    Err(error) => Err(error@),
                },
            ),
            result is Err ==> explained(result->Err_0, final(self).history()),
        decreases left,
    {
        if left == 0 {
            return Err(
                SessionError::AddressMismatch {
                    command: Command::RequestBlock,
                    expected: address,
                    actual,
                },
            );
        }
        let payload: Vec<u8> = bytes::u32_le(address);
        let ghost before = self.history();
        let data: Vec<u8> = match self.command(Command::RequestBlock, payload.as_slice()) {
            Ok(data) => data,
            Err(error) => {
                return Err(error);
            },
        };
        if data.len() != 4 + block_size {
            return Err(
                SessionError::ResponseDataLengthMismatch {
                    command: Command::RequestBlock,
                    expected: 4 + block_size,
                    actual: data.len(),
                },
            );
        }
        let acknowledged: u32 = bytes::le_u32_at(data.as_slice(), 0);
        assert(data@.subrange(0, 4) =~= data@.take(4));
        if acknowledged == address {
            let block: Vec<u8> = bytes::copy_range(data.as_slice(), 4, data.len());
            assert(block@ =~= data@.skip(4));
            return Ok(block);
        }
        let ghost seen = self.history();
        let result: Result<Vec<u8>, SessionError> = self.read_block(
            address,
            block_size,
            acknowledged,
            left - 1,
        );
        proof {
            lemma_command(
                seen,
                self.history(),
                before.len() as int,
                Command::RequestBlock,
                payload@,
            );
        }
        result
    }
}

proof fn lemma_whole_blocks(length: nat, block_size: nat)
    requires
        supported_block_size(block_size as int),
    ensures
        (block_count(length, block_size) * block_size) / block_size == block_count(
            length,
            block_size,
        ),
        (block_count(length, block_size) * block_size) % block_size == 0,
        length <= block_count(length, block_size) * block_size < length + block_size,
{
}

proof fn lemma_block_bounds(index: nat, count: nat, block_size: nat)
    requires
        index < count,
        supported_block_size(block_size as int),
    ensures
        index * block_size + block_size <= count * block_size,
{
    assert((index + 1) * block_size <= count * block_size) by (nonlinear_arith)
        requires
            index + 1 <= count,
    ;
    assert((index + 1) * block_size == index * block_size + block_size) by (nonlinear_arith);
}

fn block_address(target: KatapultTarget, index: usize) -> (address: Option<u32>)
    ensures
        match address {
            Some(address) => address == target.start() + index * target.block(),
            None => target.start() + index * target.block() > u32::MAX,
        },
{
    proof {
        use_type_invariant(&target);
    }
    assert(index * target.block_size <= usize::MAX * 512) by (nonlinear_arith)
        requires
            index <= usize::MAX,
            target.block_size <= 512,
    ;
    let offset: u128 = (index as u128) * (target.block_size as u128);
    let address: u128 = (target.application_start as u128) + offset;
    if address <= 0xffff_ffff {
        Some(address as u32)
    } else {
        None
    }
}

fn padded(firmware: &[u8], block_size: usize) -> (image: Vec<u8>)
    requires
        supported_block_size(block_size as int),
    ensures
        image@ == padded_image(firmware@, block_size as nat),
{
    let mut image: Vec<u8> = Vec::new();
    bytes::append(&mut image, firmware);
    let ghost total: nat = block_count(firmware@.len(), block_size as nat) * (block_size as nat);
    proof {
        lemma_whole_blocks(firmware@.len(), block_size as nat);
    }
    while image.len() % block_size != 0
        invariant
            supported_block_size(block_size as int),
            total % (block_size as nat) == 0,
            total < firmware@.len() + block_size,
            firmware@.len() <= image@.len() <= total,
            forall|i: int|
                0 <= i < image@.len() ==> image@[i] == (if i < firmware@.len() {
                    firmware@[i]
                } else {
                    0xffu8
                }),
        decreases total - image@.len(),
    {
        image.push(0xff);
    }
    proof {
        lemma_same_multiple(image@.len(), total, block_size as nat);
    }
    assert(image@ =~= padded_image(firmware@, block_size as nat));
    image
}

proof fn lemma_same_multiple(low: nat, high: nat, block_size: nat)
    requires
        supported_block_size(block_size as int),
        low % block_size == 0,
        high % block_size == 0,
        low <= high < low + block_size,
    ensures
        low == high,
{
    if block_size == 64 {
        assert(low % 64 == 0 && high % 64 == 0);
    } else if block_size == 128 {
        assert(low % 128 == 0 && high % 128 == 0);
    } else if block_size == 256 {
        assert(low % 256 == 0 && high % 256 == 0);
    } else {
        assert(low % 512 == 0 && high % 512 == 0);
    }
}

fn response_u32(command: Command, data: &[u8]) -> (result: Result<u32, SessionError>)
    ensures
        match result {
            Ok(value) => first_number(command, data@) == Ok::<u32, SessionFailure>(value),
            Err(error) => first_number(command, data@) == Err::<u32, SessionFailure>(error@) && !(
            error is RetriesExhausted),
        },
{
    if data.len() < 4 {
        return Err(
            SessionError::ResponseDataTooShort { command, expected: 4, actual: data.len() },
        );
    }
    assert(data@.subrange(0, 4) =~= data@.take(4));
    Ok(bytes::le_u32_at(data, 0))
}

impl TargetError {
    /// The wording of this error.
    pub open spec fn text(self) -> Seq<char> {
        match self {
            TargetError::UnsupportedBlockSize { block_size } =>
            "unsupported Katapult block size: "@ + text::decimal(block_size as nat),
        }
    }

    /// The wording of this error.
    pub fn message(self) -> (message: String)
        ensures
            message@ == self.text(),
    {
        match self {
            TargetError::UnsupportedBlockSize { block_size } => {
                let mut message: String = "unsupported Katapult block size: ".to_owned();
                message.append(text::decimal_text(block_size as u64).as_str());
                message
            },
        }
    }
}

impl SessionError {
    /// The wording of this error.
    pub open spec fn text(self) -> Seq<char> {
        match self {
            SessionError::Encode(error) => "could not encode request frame: "@ + error.text(),
            SessionError::Target(error) => "unsupported target geometry: "@ + error.text(),
            SessionError::RetriesExhausted { command, last_failure } => "no valid response to "@
                + command.spec_name() + " after retrying: "@ + last_failure@,
            SessionError::ResponseDataTooShort { command, expected, actual } => command.spec_name()
                + " response too short: expected at least "@ + text::decimal(expected as nat)
                + " bytes, got "@ + text::decimal(actual as nat),
            SessionError::ResponseDataLengthMismatch { command, expected, actual } =>
            command.spec_name() + " response length mismatch: expected "@ + text::decimal(
                expected as nat,
            ) + " bytes, got "@ + text::decimal(actual as nat),
            SessionError::AddressMismatch { command, expected, actual } => command.spec_name()
                + " acknowledged address 0x"@ + text::hexadecimal(actual as nat) + ", expected 0x"@
                + text::hexadecimal(expected as nat),
            SessionError::AddressOverflow =>
            "firmware block address exceeds a 32-bit application address"@,
            SessionError::ChecksumMismatch =>
            "readback SHA-1 does not match the transmitted padded data"@,
            SessionError::CanbusUuidMismatch { expected, actual } => "Katapult CAN UUID 0x"@
                + text::hexadecimal(actual as nat) + " does not match configured UUID 0x"@
                + text::hexadecimal(expected as nat),
        }
    }

    /// The wording of this error.
    pub fn message(&self) -> (message: String)
        ensures
            message@ == self.text(),
    {
        match self {
            SessionError::Encode(error) => {
                let mut message: String = "could not encode request frame: ".to_owned();
                message.append(error.message().as_str());
                message
            },
            SessionError::Target(error) => {
                let mut message: String = "unsupported target geometry: ".to_owned();
                message.append(error.message().as_str());
                message
            },
            SessionError::RetriesExhausted { command, last_failure } => {
                let mut message: String = "no valid response to ".to_owned();
                message.append(command.name());
                message.append(" after retrying: ");
                message.append(last_failure.as_str());
                message
            },
            SessionError::ResponseDataTooShort { command, expected, actual } => {
                let mut message: String = command.name().to_owned();
                message.append(" response too short: expected at least ");
                message.append(text::decimal_text(*expected as u64).as_str());
                message.append(" bytes, got ");
                message.append(text::decimal_text(*actual as u64).as_str());
                message
            },
            SessionError::ResponseDataLengthMismatch { command, expected, actual } => {
                let mut message: String = command.name().to_owned();
                message.append(" response length mismatch: expected ");
                message.append(text::decimal_text(*expected as u64).as_str());
                message.append(" bytes, got ");
                message.append(text::decimal_text(*actual as u64).as_str());
                message
            },
            SessionError::AddressMismatch { command, expected, actual } => {
                let mut message: String = command.name().to_owned();
                message.append(" acknowledged address 0x");
                message.append(text::hexadecimal_text(*actual as u64).as_str());
                message.append(", expected 0x");
                message.append(text::hexadecimal_text(*expected as u64).as_str());
                message
            },
            SessionError::AddressOverflow =>
            "firmware block address exceeds a 32-bit application address".to_owned(),
            SessionError::ChecksumMismatch =>
            "readback SHA-1 does not match the transmitted padded data".to_owned(),
            SessionError::CanbusUuidMismatch { expected, actual } => {
                let mut message: String = "Katapult CAN UUID 0x".to_owned();
                message.append(text::hexadecimal_text(*actual).as_str());
                message.append(" does not match configured UUID 0x");
                message.append(text::hexadecimal_text(*expected).as_str());
                message
            },
        }
    }
}

/// A command is sent at most five times, and at least once where its payload can be framed.
pub proof fn law_command_attempts<E>(
    tape: Seq<Exchange<E>>,
    at: int,
    command: Command,
    payload: Seq<u8>,
)
    ensures
        at <= command_run(tape, at, command, payload).next <= at + MAX_ATTEMPTS,
        katapult::command_frame(command, payload) is Ok ==> at < command_run(
            tape,
            at,
            command,
            payload,
        ).next,
{
    if let Ok(frame) = katapult::command_frame(command, payload) {
        lemma_attempts_count(tape, at, command, frame, MAX_ATTEMPTS as nat);
    }
}

proof fn lemma_attempts_count<E>(
    tape: Seq<Exchange<E>>,
    at: int,
    command: Command,
    frame: Seq<u8>,
    left: nat,
)
    ensures
        at <= attempts_run(tape, at, command, frame, left).next <= at + left,
        left > 0 ==> at < attempts_run(tape, at, command, frame, left).next,
        attempts_run(tape, at, command, frame, left).result is Ok ==> {
            let run = attempts_run(tape, at, command, frame, left);
            accepted_data(command, tape[run.next - 1].reply) == Some(run.result->Ok_0)
        },
        forall|k: int|
            at <= k < attempts_run(tape, at, command, frame, left).next - 1 ==> accepted_data(
                command,
                #[trigger] tape[k].reply,
            ) is None,
    decreases left,
{
    if left > 0 {
        lemma_attempts_count(tape, at + 1, command, frame, (left - 1) as nat);
    }
}

/// A command succeeds exactly with the data of the first reply that answers it, and every reply
/// before that one failed to.
pub proof fn law_command_returns_first_answer<E>(
    tape: Seq<Exchange<E>>,
    at: int,
    command: Command,
    payload: Seq<u8>,
)
    requires
        command_run(tape, at, command, payload).result is Ok,
    ensures
        ({
            let run = command_run(tape, at, command, payload);
            &&& accepted_data(command, tape[run.next - 1].reply) == Some(run.result->Ok_0)
            &&& forall|k: int|
                at <= k < run.next - 1 ==> accepted_data(command, #[trigger] tape[k].reply) is None
        }),
{
    if let Ok(frame) = katapult::command_frame(command, payload) {
        lemma_attempts_count(tape, at, command, frame, MAX_ATTEMPTS as nat);
    }
}

/// The padded image begins with the firmware, ends in `0xff`, and is the smallest number of whole
/// blocks that holds the firmware.
pub proof fn law_padded_image(firmware: Seq<u8>, block_size: nat)
    requires
        supported_block_size(block_size as int),
    ensures
        ({
            let image = padded_image(firmware, block_size);
            &&& firmware.is_prefix_of(image)
            &&& image.len() % block_size == 0
            &&& image.len() < firmware.len() + block_size
            &&& forall|i: int| firmware.len() <= i < image.len() ==> #[trigger] image[i] == 0xff
        }),
{
    lemma_whole_blocks(firmware.len(), block_size);
    let image = padded_image(firmware, block_size);
    assert(image.take(firmware.len() as int) =~= firmware);
}

/// An upload that reports success wrote every block of the padded image without an address beyond
/// 32 bits and read the image's own digest back.
pub proof fn law_successful_upload_is_verified<E>(
    tape: Seq<Exchange<E>>,
    at: int,
    start: u32,
    block_size: nat,
    firmware: Seq<u8>,
)
    requires
        upload_run(tape, at, start, block_size, firmware).result is Ok,
    ensures
        ({
            let image = padded_image(firmware, block_size);
            let count = block_count(firmware.len(), block_size);
            let written = write_blocks_run(tape, at, start, block_size, image, count);
            let finished = command_run(tape, written.next, Command::SendEof, Seq::empty());
            let read = read_blocks_run(tape, finished.next, start, block_size, count);
            &&& written.result is Ok
            &&& finished.result is Ok
            &&& read.result is Ok
            &&& sha1_digest(read.result->Ok_0) == sha1_digest(image)
            &&& upload_run(tape, at, start, block_size, firmware).result->Ok_0.1 == image.len()
            &&& forall|i: nat|
                i < count ==> start + #[trigger] (i * block_size) <= u32::MAX
        }),
{
    let image = padded_image(firmware, block_size);
    let count = block_count(firmware.len(), block_size);
    assert forall|i: nat| i < count implies start + #[trigger] (i * block_size) <= u32::MAX by {
        lemma_written_addresses(tape, at, start, block_size, image, count, i);
    }
}

proof fn lemma_written_addresses<E>(
    tape: Seq<Exchange<E>>,
    at: int,
    start: u32,
    block_size: nat,
    image: Seq<u8>,
    count: nat,
    i: nat,
)
    requires
        write_blocks_run(tape, at, start, block_size, image, count).result is Ok,
        i < count,
    ensures
        start + i * block_size <= u32::MAX,
    decreases count,
{
    if i + 1 < count {
        lemma_written_addresses(tape, at, start, block_size, image, (count - 1) as nat, i);
    }
}

/// The reply that acknowledges `command` with `data`.
pub open spec fn acknowledges<E>(reply: Result<Seq<u8>, E>, command: Command, data: Seq<u8>) -> bool {
    reply == Ok::<Seq<u8>, E>(
        katapult::frame_of(0xa0, bytes::le_bytes(command.spec_code() as nat, 4) + data),
    )
}

/// Whether the data of an acknowledgement fits into a frame.
pub open spec fn fits_a_reply(data: Seq<u8>) -> bool {
    data.len() % 4 == 0 && data.len() <= 1016
}

proof fn lemma_acknowledged<E>(reply: Result<Seq<u8>, E>, command: Command, data: Seq<u8>)
    requires
        acknowledges(reply, command, data),
        fits_a_reply(data),
    ensures
        accepted_data(command, reply) == Some(data),
{
    bytes::lemma_le_round_trip(command.spec_code() as nat, 4);
    katapult::law_reply_round_trip(command.spec_code() as u32, data);
}

proof fn lemma_accepted<E>(reply: Result<Seq<u8>, E>, command: Command, data: Seq<u8>)
    requires
        accepted_data(command, reply) == Some(data),
    ensures
        acknowledges(reply, command, data),
{
    katapult::law_accepted_frame_is_canonical(reply->Ok_0);
}

/// A command is sent again until it is acknowledged, and what the first acknowledgement holds is
/// its result. Without one in five tries the command fails.
pub proof fn law_command_is_repeated_until_acknowledged<E>(
    tape: Seq<Exchange<E>>,
    at: int,
    command: Command,
    payload: Seq<u8>,
    tries: int,
    data: Seq<u8>,
)
    requires
        payload.len() % 4 == 0,
        payload.len() <= 1020,
        fits_a_reply(data),
        0 <= tries <= 5,
        forall|k: int, other: Seq<u8>|
            at <= k < at + tries ==> !#[trigger] acknowledges(tape[k].reply, command, other),
    ensures
        ({
            let run = command_run(tape, at, command, payload);
            let frame = katapult::frame_of(command.spec_code(), payload);
            &&& tries == 5 ==> run.result == Err::<Seq<u8>, SessionFailure>(
                SessionFailure::RetriesExhausted { command },
            ) && run.next == at + 5
            &&& tries < 5 && acknowledges(tape[at + tries].reply, command, data) ==> run.result
                == Ok::<Seq<u8>, SessionFailure>(data) && run.next == at + tries + 1
            &&& run.faithful ==> forall|k: int|
                at <= k < run.next ==> (#[trigger] tape[k]).request == frame
            &&& (forall|k: int| at <= k < run.next ==> (#[trigger] tape[k]).request == frame)
                ==> run.faithful
        }),
{
    let frame = katapult::frame_of(command.spec_code(), payload);
    lemma_repeated(tape, at, command, frame, tries, data, 5);
    lemma_requests(tape, at, command, frame, 5);
}

proof fn lemma_repeated<E>(
    tape: Seq<Exchange<E>>,
    at: int,
    command: Command,
    frame: Seq<u8>,
    tries: int,
    data: Seq<u8>,
    left: nat,
)
    requires
        fits_a_reply(data),
        0 <= tries <= left,
        forall|k: int, other: Seq<u8>|
            at <= k < at + tries ==> !#[trigger] acknowledges(tape[k].reply, command, other),
    ensures
        ({
            let run = attempts_run(tape, at, command, frame, left);
            &&& tries == left ==> run.result == Err::<Seq<u8>, SessionFailure>(
                SessionFailure::RetriesExhausted { command },
            ) && run.next == at + left
            &&& tries < left && acknowledges(tape[at + tries].reply, command, data) ==> run.result
                == Ok::<Seq<u8>, SessionFailure>(data) && run.next == at + tries + 1
        }),
    decreases left,
{
    if left > 0 {
        if tries > 0 {
            if let Some(other) = accepted_data(command, tape[at].reply) {
                lemma_accepted(tape[at].reply, command, other);
                assert(acknowledges(tape[at].reply, command, other));
            }
            lemma_repeated(tape, at + 1, command, frame, tries - 1, data, (left - 1) as nat);
        } else if acknowledges(tape[at].reply, command, data) {
            lemma_acknowledged(tape[at].reply, command, data);
        }
    }
}

proof fn lemma_requests<E>(
    tape: Seq<Exchange<E>>,
    at: int,
    command: Command,
    frame: Seq<u8>,
    left: nat,
)
    ensures
        ({
            let run = attempts_run(tape, at, command, frame, left);
            &&& at <= run.next
            &&& run.faithful == (forall|k: int|
                at <= k < run.next ==> (#[trigger] tape[k]).request == frame)
        }),
    decreases left,
{
    if left > 0 {
        lemma_requests(tape, at + 1, command, frame, (left - 1) as nat);
        let run = attempts_run(tape, at, command, frame, left);
        assert(run.faithful ==> tape[at].request == frame);
        if accepted_data(command, tape[at].reply) is None {
            let rest = attempts_run(tape, at + 1, command, frame, (left - 1) as nat);
            if rest.faithful && tape[at].request == frame {
                assert forall|k: int| at <= k < run.next implies (#[trigger] tape[k]).request
                    == frame by {
                    if k > at {
                        assert(at + 1 <= k < rest.next);
                    }
                }
            }
            if !rest.faithful {
                let k = choose|k: int|
                    at + 1 <= k < rest.next && (#[trigger] tape[k]).request != frame;
                assert(tape[k].request != frame);
            }
        }
    }
}

/// A connection is read from the protocol version, the start of the application and the block
/// size, in this order; what follows them is not looked at. Shorter data is refused, and so is a
/// block size that is not 64, 128, 256 or 512.
pub proof fn law_connection_reads_back(
    version: Seq<u8>,
    start: u32,
    block_size: u32,
    rest: Seq<u8>,
    short: Seq<u8>,
)
    requires
        version.len() == 4,
        short.len() < 12,
    ensures
        ({
            let data = version + bytes::le_bytes(start as nat, 4) + bytes::le_bytes(
                block_size as nat,
                4,
            ) + rest;
            let supported = block_size == 64 || block_size == 128 || block_size == 256
                || block_size == 512;
            &&& supported ==> connection_of(data) == Ok::<(Seq<u8>, u32, u32), SessionFailure>(
                (version, start, block_size),
            )
            &&& !supported ==> connection_of(data) == Err::<(Seq<u8>, u32, u32), SessionFailure>(
                SessionFailure::Target(TargetError::UnsupportedBlockSize { block_size }),
            )
        }),
        connection_of(short) == Err::<(Seq<u8>, u32, u32), SessionFailure>(
            SessionFailure::ResponseDataTooShort {
                command: Command::Connect,
                expected: 12,
                actual: short.len() as int,
            },
        ),
{
    let first = bytes::le_bytes(start as nat, 4);
    let second = bytes::le_bytes(block_size as nat, 4);
    let data = version + first + second + rest;
    reveal_with_fuel(bytes::pow256, 5);
    bytes::lemma_le_round_trip(start as nat, 4);
    bytes::lemma_le_round_trip(block_size as nat, 4);
    assert(data.subrange(4, 8) =~= first);
    assert(data.subrange(8, 12) =~= second);
    assert(data.take(4) =~= version);
}

/// A node is the expected one exactly if the first six bytes of its answer write the expected
/// UUID with the most significant byte first.
pub proof fn law_node_must_have_the_uuid(data: Seq<u8>, expected: u64)
    requires
        data.len() >= 6,
    ensures
        ({
            let uuid = 0x100_0000_0000 * data[0] + 0x1_0000_0000 * data[1] + 0x100_0000 * data[2]
                + 0x1_0000 * data[3] + 0x100 * data[4] + data[5];
            &&& uuid == expected ==> uuid_check(data, expected) is Ok
            &&& uuid != expected ==> uuid_check(data, expected) == Err::<(), SessionFailure>(
                SessionFailure::CanbusUuidMismatch { expected, actual: uuid as u64 },
            )
        }),
{
    reveal_with_fuel(be_value, 7);
    let six = data.take(6);
    assert(six.drop_last() =~= data.take(5));
    assert(data.take(5).drop_last() =~= data.take(4));
    assert(data.take(4).drop_last() =~= data.take(3));
    assert(data.take(3).drop_last() =~= data.take(2));
    assert(data.take(2).drop_last() =~= data.take(1));
    assert(data.take(1).drop_last() =~= data.take(0));
}

/// A number of a reply is read from its first four bytes, least significant first; a reply of
/// fewer bytes is refused.
pub proof fn law_reply_number_reads_back(command: Command, number: u32, rest: Seq<u8>, short: Seq<
    u8,
>)
    requires
        short.len() < 4,
    ensures
        first_number(command, bytes::le_bytes(number as nat, 4) + rest) == Ok::<
            u32,
            SessionFailure,
        >(number),
        first_number(command, short) == Err::<u32, SessionFailure>(
            SessionFailure::ResponseDataTooShort {
                command,
                expected: 4,
                actual: short.len() as int,
            },
        ),
{
    let word = bytes::le_bytes(number as nat, 4);
    reveal_with_fuel(bytes::pow256, 5);
    bytes::lemma_le_round_trip(number as nat, 4);
    assert((word + rest).take(4) =~= word);
}

/// The address of block `index`.
pub open spec fn address_of(start: u32, block_size: nat, index: nat) -> Seq<u8> {
    bytes::le_bytes((start + index * block_size) as nat, 4)
}

/// Whether `tape` holds, at `k`, the request to write `block` to `address` and its
/// acknowledgement.
pub open spec fn wrote<E>(tape: Seq<Exchange<E>>, k: int, address: Seq<u8>, block: Seq<u8>) -> bool {
    &&& tape[k].request == katapult::frame_of(0x12, address + block)
    &&& exists|rest: Seq<u8>|
        #[trigger] acknowledges(tape[k].reply, Command::SendBlock, address + rest)
}

/// Whether `tape` holds, at `k`, the request to read the block at `address` and the block itself.
pub open spec fn read_at<E>(tape: Seq<Exchange<E>>, k: int, address: Seq<u8>, block: Seq<u8>) -> bool {
    &&& tape[k].request == katapult::frame_of(0x14, address)
    &&& acknowledges(tape[k].reply, Command::RequestBlock, address + block)
}

/// A command that succeeded ended with its own request and the acknowledgement of that request.
pub proof fn lemma_answered<E>(
    tape: Seq<Exchange<E>>,
    at: int,
    command: Command,
    payload: Seq<u8>,
)
    requires
        command_run(tape, at, command, payload).result is Ok,
        command_run(tape, at, command, payload).faithful,
    ensures
        ({
            let run = command_run(tape, at, command, payload);
            &&& at < run.next
            &&& tape[run.next - 1].request == katapult::frame_of(command.spec_code(), payload)
            &&& acknowledges(tape[run.next - 1].reply, command, run.result->Ok_0)
        }),
{
    let run = command_run(tape, at, command, payload);
    law_command_attempts(tape, at, command, payload);
    law_command_returns_first_answer(tape, at, command, payload);
    lemma_accepted(tape[run.next - 1].reply, command, run.result->Ok_0);
    let frame = katapult::frame_of(command.spec_code(), payload);
    lemma_requests(tape, at, command, frame, 5);
    assert(tape[run.next - 1].request == frame);
}

/// A block that was written was sent with its address, and the same address was acknowledged.
pub proof fn law_block_is_written_at_its_address<E>(
    tape: Seq<Exchange<E>>,
    at: int,
    address: u32,
    block: Seq<u8>,
    actual: u32,
    left: nat,
)
    requires
        write_block_run(tape, at, address, block, actual, left).result is Ok,
        write_block_run(tape, at, address, block, actual, left).faithful,
    ensures
        ({
            let run = write_block_run(tape, at, address, block, actual, left);
            &&& at < run.next
            &&& wrote(tape, run.next - 1, bytes::le_bytes(address as nat, 4), block)
        }),
    decreases left,
{
    if left > 0 {
        let word = bytes::le_bytes(address as nat, 4);
        let sent = command_run(tape, at, Command::SendBlock, word + block);
        lemma_answered(tape, at, Command::SendBlock, word + block);
        let data = sent.result->Ok_0;
        let acknowledged = first_number(Command::SendBlock, data)->Ok_0;
        if acknowledged == address {
            bytes::lemma_le_bytes_of_value(data.take(4));
            reveal_with_fuel(bytes::pow256, 5);
            assert(word =~= data.take(4));
            assert(data =~= word + data.skip(4));
            assert(acknowledges(tape[sent.next - 1].reply, Command::SendBlock, word + data.skip(4)));
        } else {
            law_block_is_written_at_its_address(
                tape,
                sent.next,
                address,
                block,
                acknowledged,
                (left - 1) as nat,
            );
        }
    }
}

/// A block that was read was asked for by its address, and came with the same address.
pub proof fn law_block_is_read_at_its_address<E>(
    tape: Seq<Exchange<E>>,
    at: int,
    address: u32,
    block_size: nat,
    actual: u32,
    left: nat,
)
    requires
        read_block_run(tape, at, address, block_size, actual, left).result is Ok,
        read_block_run(tape, at, address, block_size, actual, left).faithful,
    ensures
        ({
            let run = read_block_run(tape, at, address, block_size, actual, left);
            &&& at < run.next
            &&& run.result->Ok_0.len() == block_size
            &&& read_at(
                tape,
                run.next - 1,
                bytes::le_bytes(address as nat, 4),
                run.result->Ok_0,
            )
        }),
    decreases left,
{
    if left > 0 {
        let word = bytes::le_bytes(address as nat, 4);
        let sent = command_run(tape, at, Command::RequestBlock, word);
        lemma_answered(tape, at, Command::RequestBlock, word);
        let data = sent.result->Ok_0;
        let acknowledged = bytes::le_value(data.take(4)) as u32;
        if acknowledged == address {
            bytes::lemma_le_bytes_of_value(data.take(4));
            reveal_with_fuel(bytes::pow256, 5);
            assert(word =~= data.take(4));
            assert(data =~= word + data.skip(4));
        } else {
            law_block_is_read_at_its_address(
                tape,
                sent.next,
                address,
                block_size,
                acknowledged,
                (left - 1) as nat,
            );
        }
    }
}

proof fn lemma_every_block_written<E>(
    tape: Seq<Exchange<E>>,
    at: int,
    start: u32,
    block_size: nat,
    image: Seq<u8>,
    count: nat,
    i: nat,
)
    requires
        write_blocks_run(tape, at, start, block_size, image, count).result is Ok,
        write_blocks_run(tape, at, start, block_size, image, count).faithful,
    ensures
        at <= write_blocks_run(tape, at, start, block_size, image, count).next,
        i < count ==> exists|k: int|
            at <= k < write_blocks_run(tape, at, start, block_size, image, count).next
                && #[trigger] wrote(
                tape,
                k,
                address_of(start, block_size, i),
                image_block(image, block_size, i),
            ),
    decreases count,
{
    if count > 0 {
        let index = (count - 1) as nat;
        lemma_every_block_written(tape, at, start, block_size, image, index, i);
        let before = write_blocks_run(tape, at, start, block_size, image, index);
        let address = (start + index * block_size) as u32;
        law_block_is_written_at_its_address(
            tape,
            before.next,
            address,
            image_block(image, block_size, index),
            0,
            BLOCK_ATTEMPTS as nat,
        );
        assert(0 <= index * block_size) by (nonlinear_arith);
        let run = write_blocks_run(tape, at, start, block_size, image, count);
        assert(run.next > before.next);
        if i == index {
            assert(wrote(
                tape,
                run.next - 1,
                address_of(start, block_size, i),
                image_block(image, block_size, i),
            ));
        } else if i < index {
            let k = choose|k: int|
                at <= k < before.next && #[trigger] wrote(
                    tape,
                    k,
                    address_of(start, block_size, i),
                    image_block(image, block_size, i),
                );
            assert(at <= k < run.next);
        }
    }
}

proof fn lemma_every_block_read<E>(
    tape: Seq<Exchange<E>>,
    at: int,
    start: u32,
    block_size: nat,
    count: nat,
    i: nat,
)
    requires
        read_blocks_run(tape, at, start, block_size, count).result is Ok,
        read_blocks_run(tape, at, start, block_size, count).faithful,
    ensures
        ({
            let run = read_blocks_run(tape, at, start, block_size, count);
            &&& at <= run.next
            &&& run.result->Ok_0.len() == count * block_size
            &&& i < count ==> exists|k: int|
                at <= k < run.next && #[trigger] read_at(
                    tape,
                    k,
                    address_of(start, block_size, i),
                    image_block(run.result->Ok_0, block_size, i),
                )
        }),
    decreases count,
{
    if count > 0 {
        let index = (count - 1) as nat;
        lemma_every_block_read(tape, at, start, block_size, index, i);
        let before = read_blocks_run(tape, at, start, block_size, index);
        let run = read_blocks_run(tape, at, start, block_size, count);
        let address = (start + index * block_size) as u32;
        law_block_is_read_at_its_address(
            tape,
            before.next,
            address,
            block_size,
            0,
            BLOCK_ATTEMPTS as nat,
        );
        assert(0 <= index * block_size) by (nonlinear_arith);
        assert(count * block_size == index * block_size + block_size) by (nonlinear_arith)
            requires
                count == index + 1,
        ;
        let one = read_block_run(
            tape,
            before.next,
            address,
            block_size,
            0,
            BLOCK_ATTEMPTS as nat,
        );
        let copy = run.result->Ok_0;
        assert(copy =~= before.result->Ok_0 + one.result->Ok_0);
        assert(image_block(copy, block_size, index) =~= one.result->Ok_0);
        if i < index {
            assert(i * block_size + block_size <= index * block_size) by (nonlinear_arith)
                requires
                    i < index,
            ;
            assert(image_block(copy, block_size, i) =~= image_block(
                before.result->Ok_0,
                block_size,
                i,
            ));
            let k = choose|k: int|
                at <= k < before.next && #[trigger] read_at(
                    tape,
                    k,
                    address_of(start, block_size, i),
                    image_block(before.result->Ok_0, block_size, i),
                );
            assert(read_at(
                tape,
                k,
                address_of(start, block_size, i),
                image_block(copy, block_size, i),
            ));
        } else if i == index {
            assert(read_at(
                tape,
                run.next - 1,
                address_of(start, block_size, i),
                image_block(copy, block_size, i),
            ));
        }
    } else {
        assert(count * block_size == 0) by (nonlinear_arith)
            requires
                count == 0,
        ;
    }
}

/// An upload that reports success sent every block of the padded firmware to its own address, one
/// block after another from the start of the application, then the end of the file, and then read
/// every block back from its own address. What it read has the digest of what it sent.
pub proof fn law_upload_sends_and_reads_every_block<E>(
    tape: Seq<Exchange<E>>,
    at: int,
    start: u32,
    block_size: nat,
    firmware: Seq<u8>,
    i: nat,
)
    requires
        upload_run(tape, at, start, block_size, firmware).result is Ok,
        upload_run(tape, at, start, block_size, firmware).faithful,
        supported_block_size(block_size as int),
    ensures
        ({
            let run = upload_run(tape, at, start, block_size, firmware);
            let image = padded_image(firmware, block_size);
            exists|eof: int, copy: Seq<u8>|
                {
                    &&& at <= eof < run.next
                    &&& tape[eof].request == katapult::frame_of(0x13, Seq::empty())
                    &&& copy.len() == image.len()
                    &&& sha1_digest(copy) == sha1_digest(image)
                    &&& i * block_size < firmware.len() ==> (exists|k: int|
                        at <= k < eof && #[trigger] wrote(
                            tape,
                            k,
                            address_of(start, block_size, i),
                            image_block(image, block_size, i),
                        )) && (exists|k: int|
                        eof < k < run.next && #[trigger] read_at(
                            tape,
                            k,
                            address_of(start, block_size, i),
                            #[trigger] image_block(copy, block_size, i),
                        ))
                    &&& exists|rest: Seq<u8>|
                        #[trigger] acknowledges(
                            (#[trigger] tape[eof]).reply,
                            Command::SendEof,
                            bytes::le_bytes(run.result->Ok_0.0 as nat, 4) + rest,
                        )
                }
        }),
{
    let image = padded_image(firmware, block_size);
    let count = block_count(firmware.len(), block_size);
    let written = write_blocks_run(tape, at, start, block_size, image, count);
    let finished = command_run(tape, written.next, Command::SendEof, Seq::empty());
    let read = read_blocks_run(tape, finished.next, start, block_size, count);
    lemma_answered(tape, written.next, Command::SendEof, Seq::empty());
    lemma_every_block_written(tape, at, start, block_size, image, count, i);
    lemma_every_block_read(tape, finished.next, start, block_size, count, i);
    lemma_whole_blocks(firmware.len(), block_size);
    let eof = finished.next - 1;
    let copy = read.result->Ok_0;
    let data = finished.result->Ok_0;
    let pages = upload_run(tape, at, start, block_size, firmware).result->Ok_0.0;
    bytes::lemma_le_bytes_of_value(data.take(4));
    reveal_with_fuel(bytes::pow256, 5);
    assert(bytes::le_bytes(pages as nat, 4) =~= data.take(4));
    assert(data =~= data.take(4) + data.skip(4));
    assert(acknowledges(
        tape[eof].reply,
        Command::SendEof,
        bytes::le_bytes(pages as nat, 4) + data.skip(4),
    ));
    if i * block_size < firmware.len() && i >= count {
        assert(i * block_size >= count * block_size) by (nonlinear_arith)
            requires
                i >= count,
        ;
    }
    assert(image_block(copy, block_size, i) == image_block(copy, block_size, i));
}

/// A command that is acknowledged at once succeeds in one exchange.
pub proof fn lemma_answered_at_once<E>(
    tape: Seq<Exchange<E>>,
    at: int,
    command: Command,
    payload: Seq<u8>,
    data: Seq<u8>,
)
    requires
        payload.len() % 4 == 0,
        payload.len() <= 1020,
        fits_a_reply(data),
        acknowledges(tape[at].reply, command, data),
    ensures
        ({
            let run = command_run(tape, at, command, payload);
            &&& run.result == Ok::<Seq<u8>, SessionFailure>(data)
            &&& run.next == at + 1
        }),
{
    law_command_is_repeated_until_acknowledged(tape, at, command, payload, 0, data);
}

proof fn lemma_all_writes_answered<E>(
    tape: Seq<Exchange<E>>,
    at: int,
    start: u32,
    block_size: nat,
    image: Seq<u8>,
    count: nat,
)
    requires
        supported_block_size(block_size as int),
        image.len() >= count * block_size,
        start + count * block_size <= 0x1_0000_0000,
        forall|i: nat|
            i < count ==> acknowledges(
                tape[at + i].reply,
                Command::SendBlock,
                #[trigger] address_of(start, block_size, i),
            ),
    ensures
        ({
            let run = write_blocks_run(tape, at, start, block_size, image, count);
            &&& run.result is Ok
            &&& run.next == at + count
        }),
    decreases count,
{
    if count > 0 {
        let index = (count - 1) as nat;
        assert(count * block_size == index * block_size + block_size) by (nonlinear_arith)
            requires
                count == index + 1,
        ;
        assert(0 <= index * block_size) by (nonlinear_arith);
        lemma_all_writes_answered(tape, at, start, block_size, image, index);
        let address = (start + index * block_size) as u32;
        let word = bytes::le_bytes(address as nat, 4);
        let block = image_block(image, block_size, index);
        assert(word == address_of(start, block_size, index));
        bytes::lemma_le_round_trip(address as nat, 4);
        lemma_answered_at_once(tape, at + index, Command::SendBlock, word + block, word);
        law_reply_number_reads_back(Command::SendBlock, address, Seq::empty(), Seq::empty());
        assert(word + Seq::<u8>::empty() =~= word);
        reveal_with_fuel(write_block_run, 2);
    }
}

proof fn lemma_all_reads_answered<E>(
    tape: Seq<Exchange<E>>,
    at: int,
    start: u32,
    block_size: nat,
    image: Seq<u8>,
    count: nat,
)
    requires
        supported_block_size(block_size as int),
        image.len() >= count * block_size,
        start + count * block_size <= 0x1_0000_0000,
        forall|i: nat|
            i < count ==> acknowledges(
                tape[at + i].reply,
                Command::RequestBlock,
                (#[trigger] address_of(start, block_size, i)) + image_block(image, block_size, i),
            ),
    ensures
        ({
            let run = read_blocks_run(tape, at, start, block_size, count);
            &&& run.result == Ok::<Seq<u8>, SessionFailure>(image.take((count * block_size) as int))
            &&& run.next == at + count
        }),
    decreases count,
{
    if count > 0 {
        let index = (count - 1) as nat;
        assert(count * block_size == index * block_size + block_size) by (nonlinear_arith)
            requires
                count == index + 1,
        ;
        assert(0 <= index * block_size) by (nonlinear_arith);
        lemma_all_reads_answered(tape, at, start, block_size, image, index);
        let address = (start + index * block_size) as u32;
        let word = bytes::le_bytes(address as nat, 4);
        let block = image_block(image, block_size, index);
        assert(word == address_of(start, block_size, index));
        bytes::lemma_le_round_trip(address as nat, 4);
        reveal_with_fuel(bytes::pow256, 5);
        assert((word + block).take(4) =~= word);
        assert((word + block).skip(4) =~= block);
        lemma_answered_at_once(tape, at + index, Command::RequestBlock, word, word + block);
        reveal_with_fuel(read_block_run, 2);
        assert(image.take((count * block_size) as int) =~= image.take((index * block_size) as int)
            + block);
    } else {
        assert(count * block_size == 0) by (nonlinear_arith)
            requires
                count == 0,
        ;
        assert(image.take(0) =~= Seq::<u8>::empty());
    }
}

/// A device that acknowledges every block, and gives every block back as it was sent, is flashed:
/// the upload succeeds with the number of pages that the device reports and the length of the
/// padded firmware, after two exchanges for each block and one for the end of the file.
pub proof fn law_answering_device_is_flashed<E>(
    tape: Seq<Exchange<E>>,
    at: int,
    start: u32,
    block_size: nat,
    firmware: Seq<u8>,
    count: nat,
    pages: u32,
)
    requires
        supported_block_size(block_size as int),
        padded_image(firmware, block_size).len() == count * block_size,
        start + count * block_size <= 0x1_0000_0000,
        forall|i: nat|
            i < count ==> acknowledges(
                tape[at + i].reply,
                Command::SendBlock,
                #[trigger] address_of(start, block_size, i),
            ),
        acknowledges(
            tape[at + count].reply,
            Command::SendEof,
            bytes::le_bytes(pages as nat, 4),
        ),
        forall|i: nat|
            i < count ==> acknowledges(
                tape[at + count + 1 + i].reply,
                Command::RequestBlock,
                (#[trigger] address_of(start, block_size, i)) + image_block(
                    padded_image(firmware, block_size),
                    block_size,
                    i,
                ),
            ),
    ensures
        ({
            let run = upload_run(tape, at, start, block_size, firmware);
            &&& run.result == Ok::<(u32, nat), SessionFailure>((pages, count * block_size))
            &&& run.next == at + 2 * count + 1
        }),
{
    let image = padded_image(firmware, block_size);
    lemma_whole_blocks(firmware.len(), block_size);
    let blocks = block_count(firmware.len(), block_size);
    assert(blocks == count) by {
        if block_size == 64 {
        } else if block_size == 128 {
        } else if block_size == 256 {
        } else {
            assert(block_size == 512);
        }
    }
    lemma_all_writes_answered(tape, at, start, block_size, image, count);
    let word = bytes::le_bytes(pages as nat, 4);
    bytes::lemma_le_round_trip(pages as nat, 4);
    lemma_answered_at_once(tape, at + count, Command::SendEof, Seq::empty(), word);
    law_reply_number_reads_back(Command::SendEof, pages, Seq::empty(), Seq::empty());
    assert(word + Seq::<u8>::empty() =~= word);
    lemma_all_reads_answered(tape, at + count + 1, start, block_size, image, count);
    assert(image.take((count * block_size) as int) =~= image);
}

} // verus!
