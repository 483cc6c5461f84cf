//! Katapult CAN addressing, framing, and transport assembly.
//!
//! Wire mapping follows Katapult's CAN flasher implementation:
//! <https://github.com/Arksine/katapult/blob/master/scripts/flashtool.py>.
use vstd::prelude::*;

use crate::bytes;
use crate::failure::IoFailure;
use crate::flash::katapult;
use crate::flash::katapult::session::{Exchange, Transport};
use crate::flash::katapult::session;
use crate::flash::katapult::MAX_RESPONSE_FRAME_BYTES;
use crate::text;

verus! {

/// The CAN identifier of administrative commands.
pub const CAN_ADMIN_ID: u16 = 0x3f0;

/// The administrative command that assigns a node number.
pub const CAN_ADMIN_SET_NODE_ID: u8 = 0x11;

/// Klipper's administrative command that enters the bootloader.
pub const KLIPPER_ADMIN_REBOOT: u8 = 0x02;

/// The temporary node number of Katapult.
pub const KATAPULT_NODE_ID: u8 = 129;

/// The CAN identifier of host-to-Katapult fragments: twice the node number, above `0x100`.
pub const KATAPULT_REQUEST_ID: u16 = 0x202;

/// The CAN identifier of Katapult-to-host fragments.
pub const KATAPULT_RESPONSE_ID: u16 = 0x203;

const CLASSIC_CAN_MAX_DATA: usize = 8;

const MAX_CAN_UUID: u64 = 0xffff_ffff_ffff;

/// A classic CAN frame used by the Katapult transport.
#[derive(Debug, PartialEq, Eq)]
pub struct CanFrame {
    id: u16,
    data: Vec<u8>,
}

/// What a classic CAN frame holds.
#[verifier::ext_equal]
pub struct FrameContent {
    pub id: u16,
    pub data: Seq<u8>,
}

impl View for CanFrame {
    type V = FrameContent;

    closed spec fn view(&self) -> FrameContent {
        FrameContent { id: self.id, data: self.data@ }
    }
}

/// An invalid classic CAN frame or Katapult CAN address.
#[derive(Clone, Copy, Debug, PartialEq, Eq, Structural)]
pub enum CanError {
    /// The identifier does not fit a standard 11-bit CAN frame.
    IdentifierOutOfRange {
        /// The rejected identifier.
        id: u16,
    },
    /// The payload exceeds classic CAN's eight-byte data limit.
    PayloadTooLarge {
        /// The rejected payload length.
        length: usize,
    },
    /// The supplied UUID does not fit Katapult's six-byte CAN UUID field.
    UuidOutOfRange {
        /// The rejected UUID.
        uuid: u64,
    },
}

impl CanError {
    /// The wording of this error.
    pub open spec fn text(self) -> Seq<char> {
        match self {
            CanError::IdentifierOutOfRange { id } => "CAN identifier 0x"@ + text::hexadecimal(
                id as nat,
            ) + " does not fit a standard 11-bit CAN frame"@,
            CanError::PayloadTooLarge { length } => "CAN payload of "@ + text::decimal(
                length as nat,
            ) + " bytes exceeds the classic CAN limit of 8 bytes"@,
            CanError::UuidOutOfRange { uuid } => "CAN UUID 0x"@ + text::hexadecimal(uuid as nat)
                + " does not fit Katapult's six-byte CAN UUID field"@,
        }
    }

    /// The wording of this error.
    pub fn message(self) -> (message: String)
        ensures
            message@ == self.text(),
    {
        match self {
            CanError::IdentifierOutOfRange { id } => {
                let mut message: String = "CAN identifier 0x".to_owned();
                message.append(text::hexadecimal_text(id as u64).as_str());
                message.append(" does not fit a standard 11-bit CAN frame");
                message
            },
            CanError::PayloadTooLarge { length } => {
                let mut message: String = "CAN payload of ".to_owned();
                message.append(text::decimal_text(length as u64).as_str());
                message.append(" bytes exceeds the classic CAN limit of 8 bytes");
                message
            },
            CanError::UuidOutOfRange { uuid } => {
                let mut message: String = "CAN UUID 0x".to_owned();
                message.append(text::hexadecimal_text(uuid).as_str());
                message.append(" does not fit Katapult's six-byte CAN UUID field");
                message
            },
        }
    }
}

impl CanFrame {
    #[verifier::type_invariant]
    spec fn classic(self) -> bool {
        self.id <= 0x7ff && self.data@.len() <= 8
    }

    /// Creates a standard 11-bit CAN data frame.
    pub fn new(id: u16, data: &[u8]) -> (frame: Result<Self, CanError>)
        ensures
            match frame {
                Ok(frame) => id <= 0x7ff && data@.len() <= 8 && frame@ == (FrameContent {
                    id,
                    data: data@,
                }),
                Err(CanError::IdentifierOutOfRange { id: rejected }) => id > 0x7ff && rejected
                    == id,
                Err(CanError::PayloadTooLarge { length }) => id <= 0x7ff && data@.len() > 8
                    && length == data@.len(),
                Err(CanError::UuidOutOfRange { .. }) => false,
            },
    {
        if id > 0x7ff {
            return Err(CanError::IdentifierOutOfRange { id });
        }
        if data.len() > CLASSIC_CAN_MAX_DATA {
            return Err(CanError::PayloadTooLarge { length: data.len() });
        }
        let copy: Vec<u8> = bytes::copy_range(data, 0, data.len());
        assert(copy@ =~= data@);
        Ok(CanFrame { id, data: copy })
    }

    /// Returns the standard CAN identifier.
    pub fn id(&self) -> (id: u16)
        ensures
            id == self@.id,
            id <= 0x7ff,
    {
        proof {
            use_type_invariant(self);
        }
        self.id
    }

    /// Returns the frame payload.
    pub fn data(&self) -> (data: &[u8])
        ensures
            data@ == self@.data,
            data@.len() <= 8,
    {
        proof {
            use_type_invariant(self);
        }
        self.data.as_slice()
    }
}

impl Clone for CanFrame {
    fn clone(&self) -> (copy: Self)
        ensures
            copy@ == self@,
    {
        proof {
            use_type_invariant(self);
        }
        let data: Vec<u8> = bytes::copy_range(self.data.as_slice(), 0, self.data.len());
        assert(data@ =~= self.data@);
        CanFrame { id: self.id, data }
    }
}

/// One use of a CAN interface.
#[verifier::ext_equal]
pub enum CanEvent<E> {
    /// A frame handed to the interface.
    Wrote { frame: FrameContent, result: Result<(), E> },
    /// A frame asked of the interface.
    Read { result: Result<FrameContent, E> },
}

/// What a received frame holds.
pub open spec fn frame_view<E>(result: Result<CanFrame, E>) -> Result<FrameContent, E> {
    match result {
        Ok(frame) => Ok(frame@),
        Err(error) => Err(error),
    }
}

/// Sends and receives classic CAN frames.
///
/// Implementations must apply a read timeout so unrelated CAN traffic cannot
/// make a Katapult request wait indefinitely.
pub trait CanIo: Sized {
    /// The CAN implementation's error type.
    type Error;

    /// Every use so far, in order.
    /// Nothing is known of it by default: an implementation says what it is.
    open spec fn log(&self) -> Seq<CanEvent<Self::Error>> {
        arbitrary()
    }

    /// How many frames can still arrive before the read timeout ends the wait.
    /// Nothing is known of it by default: an implementation says what it is.
    open spec fn patience(&self) -> nat {
        arbitrary()
    }

    /// Sends one classic CAN frame.
    fn write(&mut self, frame: CanFrame) -> (result: Result<(), Self::Error>)
        ensures
            final(self).log() == old(self).log().push(
                (CanEvent::Wrote { frame: frame@, result }),
            ),
    ;

    /// Receives one classic CAN frame.
    fn read(&mut self) -> (result: Result<CanFrame, Self::Error>)
        ensures
            final(self).log() == old(self).log().push(
                (CanEvent::Read { result: frame_view(result) }),
            ),
            result is Ok ==> final(self).patience() < old(self).patience(),
    ;
}

/// An error while exchanging Katapult protocol frames over CAN.
#[derive(Clone, Debug, PartialEq, Eq)]
pub enum CanTransportError<E> {
    /// The underlying CAN implementation failed.
    Io(E),
    /// The response is larger than Katapult can represent.
    ResponseTooLarge {
        /// Number of bytes observed before rejecting the response.
        length: usize,
    },
    /// The response exceeded its payload-length declaration.
    ResponseLengthExceeded {
        /// Length declared in the response header.
        expected: usize,
        /// Number of bytes actually received.
        actual: usize,
    },
}

impl CanTransportError<IoFailure> {
    /// The wording of this error.
    pub open spec fn text(self) -> Seq<char> {
        match self {
            CanTransportError::Io(_) => "CAN transport error"@,
            CanTransportError::ResponseTooLarge { length } => "CAN response of "@ + text::decimal(
                length as nat,
            ) + " bytes exceeds the maximum 1028 bytes"@,
            CanTransportError::ResponseLengthExceeded { expected, actual } => "CAN response of "@
                + text::decimal(actual as nat) + " bytes exceeds the "@ + text::decimal(
                expected as nat,
            ) + " bytes declared by its header"@,
        }
    }

    /// The wording of this error.
    pub fn message(&self) -> (message: String)
        ensures
            message@ == self.text(),
    {
        match self {
            CanTransportError::Io(_) => "CAN transport error".to_owned(),
            CanTransportError::ResponseTooLarge { length } => {
                let mut message: String = "CAN response of ".to_owned();
                message.append(text::decimal_text(*length as u64).as_str());
                message.append(" bytes exceeds the maximum 1028 bytes");
                message
            },
            CanTransportError::ResponseLengthExceeded { expected, actual } => {
                let mut message: String = "CAN response of ".to_owned();
                message.append(text::decimal_text(*actual as u64).as_str());
                message.append(" bytes exceeds the ");
                message.append(text::decimal_text(*expected as u64).as_str());
                message.append(" bytes declared by its header");
                message
            },
        }
    }

    /// The wording of what caused this error, if anything did.
    pub fn source(&self) -> (source: Option<String>)
        ensures
            match *self {
                CanTransportError::Io(failure) => source == Some(failure.message),
                _ => source is None,
            },
    {
        match self {
            CanTransportError::Io(failure) => Some(failure.message.clone()),
            CanTransportError::ResponseTooLarge { .. }
            | CanTransportError::ResponseLengthExceeded { .. } => None,
        }
    }
}

/// The six bytes of a UUID, the most significant first.
pub open spec fn uuid_bytes(uuid: u64) -> Seq<u8> {
    seq![
        (uuid / 0x100_0000_0000 % 256) as u8,
        (uuid / 0x1_0000_0000 % 256) as u8,
        (uuid / 0x100_0000 % 256) as u8,
        (uuid / 0x1_0000 % 256) as u8,
        (uuid / 0x100 % 256) as u8,
        (uuid % 256) as u8,
    ]
}

/// Katapult's temporary classic-CAN routing for one explicitly supplied UUID.
#[derive(Clone, Copy, Debug, PartialEq, Eq, Structural)]
pub struct KatapultCanAddress {
    uuid: u64,
}

impl KatapultCanAddress {
    #[verifier::type_invariant]
    spec fn six_bytes(self) -> bool {
        self.uuid <= 0xffff_ffff_ffff
    }

    /// The UUID of this address.
    pub closed spec fn id(self) -> u64 {
        self.uuid
    }

    /// Creates an address for a six-byte Katapult CAN UUID.
    pub fn new(uuid: u64) -> (address: Result<Self, CanError>)
        ensures
            match address {
                Ok(address) => uuid <= 0xffff_ffff_ffff && address.id() == uuid,
                Err(error) => uuid > 0xffff_ffff_ffff && error == (CanError::UuidOutOfRange {
                    uuid,
                }),
            },
    {
        if uuid > MAX_CAN_UUID {
            return Err(CanError::UuidOutOfRange { uuid });
        }
        Ok(KatapultCanAddress { uuid })
    }

    fn uuid_bytes(self) -> (data: Vec<u8>)
        ensures
            data@ == uuid_bytes(self.id()),
    {
        let mut data: Vec<u8> = Vec::new();
        data.push((self.uuid / 0x100_0000_0000 % 256) as u8);
        data.push((self.uuid / 0x1_0000_0000 % 256) as u8);
        data.push((self.uuid / 0x100_0000 % 256) as u8);
        data.push((self.uuid / 0x1_0000 % 256) as u8);
        data.push((self.uuid / 0x100 % 256) as u8);
        data.push((self.uuid % 256) as u8);
        assert(data@ =~= uuid_bytes(self.uuid));
        data
    }

    /// Returns the CAN-admin command that assigns Katapult its temporary node ID.
    pub fn assignment_frame(self) -> (frame: CanFrame)
        ensures
            frame@ == assignment_content(self.id()),
    {
        let mut data: Vec<u8> = Vec::new();
        data.push(CAN_ADMIN_SET_NODE_ID);
        bytes::append(&mut data, self.uuid_bytes().as_slice());
        data.push(KATAPULT_NODE_ID);
        assert(data@ =~= assignment_content(self.id()).data);
        CanFrame { id: CAN_ADMIN_ID, data }
    }

    /// Returns the Klipper CAN-admin command that enters Katapult.
    pub fn bootloader_entry_frame(self) -> (frame: CanFrame)
        ensures
            frame@ == entry_content(self.id()),
    {
        let mut data: Vec<u8> = Vec::new();
        data.push(KLIPPER_ADMIN_REBOOT);
        bytes::append(&mut data, self.uuid_bytes().as_slice());
        assert(data@ =~= entry_content(self.id()).data);
        CanFrame { id: CAN_ADMIN_ID, data }
    }

    /// Returns the CAN identifier for host-to-Katapult protocol fragments.
    pub fn request_id(self) -> (id: u16)
        ensures
            id == KATAPULT_REQUEST_ID,
    {
        KATAPULT_REQUEST_ID
    }

    /// Returns the CAN identifier for Katapult-to-host protocol fragments.
    pub fn response_id(self) -> (id: u16)
        ensures
            id == KATAPULT_RESPONSE_ID,
    {
        KATAPULT_RESPONSE_ID
    }

    /// Splits one complete Katapult protocol frame into classic CAN fragments.
    pub fn fragment_request(self, request: &[u8]) -> (frames: Vec<CanFrame>)
        ensures
            frames@.len() == fragment_count(request@),
            forall|i: int|
                0 <= i < frames@.len() ==> (#[trigger] frames@[i])@ == fragment(
                    KATAPULT_REQUEST_ID,
                    request@,
                    i,
                ),
    {
        let mut frames: Vec<CanFrame> = Vec::new();
        let mut start: usize = 0;
        while start < request.len()
            invariant
                start == 8 * frames@.len() || start == request@.len(),
                start <= request@.len(),
                frames@.len() == (start + 7) / 8,
                forall|i: int|
                    0 <= i < frames@.len() ==> (#[trigger] frames@[i])@ == fragment(
                        KATAPULT_REQUEST_ID,
                        request@,
                        i,
                    ),
            decreases request@.len() - start,
        {
            let end: usize = if request.len() - start > CLASSIC_CAN_MAX_DATA {
                start + CLASSIC_CAN_MAX_DATA
            } else {
                request.len()
            };
            let data: Vec<u8> = bytes::copy_range(request, start, end);
            assert(start == 8 * frames@.len());
            assert(data@ =~= fragment(KATAPULT_REQUEST_ID, request@, frames@.len() as int).data);
            frames.push(CanFrame { id: KATAPULT_REQUEST_ID, data });
            start = end;
        }
        frames
    }
}

/// The administrative frame that gives the node with this UUID Katapult's node number.
pub open spec fn assignment_content(uuid: u64) -> FrameContent {
    FrameContent {
        id: CAN_ADMIN_ID,
        data: seq![CAN_ADMIN_SET_NODE_ID] + uuid_bytes(uuid) + seq![KATAPULT_NODE_ID],
    }
}

/// The administrative frame that makes the Klipper node with this UUID enter its bootloader.
pub open spec fn entry_content(uuid: u64) -> FrameContent {
    FrameContent { id: CAN_ADMIN_ID, data: seq![KLIPPER_ADMIN_REBOOT] + uuid_bytes(uuid) }
}

/// How many fragments carry `message`.
pub open spec fn fragment_count(message: Seq<u8>) -> nat {
    ((message.len() + 7) / 8) as nat
}

/// The fragment of `message` with the given index: eight bytes, or what is left.
pub open spec fn fragment(id: u16, message: Seq<u8>, index: int) -> FrameContent {
    FrameContent {
        id,
        data: message.subrange(
            8 * index,
            if 8 * index + 8 <= message.len() {
                8 * index + 8
            } else {
                message.len() as int
            },
        ),
    }
}

/// How far the answer to a request has come in.
#[verifier::ext_equal]
pub enum Assembly<E> {
    /// These bytes so far.
    Pending(Seq<u8>),
    /// The complete answer.
    Complete(Seq<u8>),
    /// The answer is given up.
    Failed(CanTransportError<E>),
}

/// What one more received frame makes of the bytes so far. Frames of other senders pass by; the
/// fourth byte of the answer declares its length.
pub open spec fn assembled<E>(bytes: Seq<u8>, result: Result<FrameContent, E>) -> Assembly<E> {
    match result {
        Err(error) => Assembly::Failed(CanTransportError::Io(error)),
        Ok(frame) => {
            let all = bytes + frame.data;
            if frame.id != KATAPULT_RESPONSE_ID {
                Assembly::Pending(bytes)
            } else if all.len() > MAX_RESPONSE_FRAME_BYTES {
                Assembly::Failed(CanTransportError::ResponseTooLarge { length: all.len() as usize })
            } else if all.len() < 4 || all.len() < 8 + 4 * all[3] {
                Assembly::Pending(all)
            } else if all.len() == 8 + 4 * all[3] {
                Assembly::Complete(all)
            } else {
                Assembly::Failed(
                    CanTransportError::ResponseLengthExceeded {
                        expected: (8 + 4 * all[3]) as usize,
                        actual: all.len() as usize,
                    },
                )
            }
        },
    }
}

/// The state of the answer after the first `count` reads from position `at` on.
pub open spec fn received<E>(tape: Seq<CanEvent<E>>, at: int, count: nat) -> Assembly<E>
    decreases count,
{
    if count == 0 {
        Assembly::Pending(Seq::empty())
    } else {
        match received(tape, at, (count - 1) as nat) {
            Assembly::Pending(bytes) => match tape[at + count - 1] {
                CanEvent::Read { result } => assembled(bytes, result),
                CanEvent::Wrote { .. } => Assembly::Pending(bytes),
            },
            settled => settled,
        }
    }
}

/// Whether the uses from position `at` on are the first `count` fragments of `request`, all sent.
pub open spec fn sent_fragments<E>(
    tape: Seq<CanEvent<E>>,
    at: int,
    request: Seq<u8>,
    count: nat,
) -> bool {
    forall|i: int|
        0 <= i < count ==> #[trigger] tape[at + i] == (CanEvent::Wrote {
            frame: fragment(KATAPULT_REQUEST_ID, request, i),
            result: Ok::<(), E>(()),
        })
}

/// Whether everything from position `at` on is one request: its fragments are written in order
/// until one fails; then frames are read until the answer is complete or fails.
pub open spec fn exchange_run<E>(
    tape: Seq<CanEvent<E>>,
    at: int,
    request: Seq<u8>,
    reply: Result<Seq<u8>, CanTransportError<E>>,
) -> bool {
    let fragments = fragment_count(request);
    let used = (tape.len() - at) as nat;
    ||| {
        &&& 0 < used <= fragments
        &&& sent_fragments(tape, at, request, (used - 1) as nat)
        &&& reply is Err
        &&& reply->Err_0 is Io
        &&& tape.last() == (CanEvent::Wrote {
            frame: fragment(KATAPULT_REQUEST_ID, request, used - 1),
            result: Err::<(), E>(reply->Err_0->Io_0),
        })
    }
    ||| {
        &&& fragments < used
        &&& sent_fragments(tape, at, request, fragments)
        &&& forall|i: int| at + fragments <= i < tape.len() ==> #[trigger] tape[i] is Read
        &&& received(tape, at + fragments, (used - fragments - 1) as nat) is Pending
        &&& received(tape, at + fragments, (used - fragments) as nat) == match reply {
            Ok(bytes) => Assembly::Complete(bytes),
            Err(error) => Assembly::Failed(error),
        }
    }
}

/// A sequential Katapult protocol transport over classic CAN.
pub struct KatapultCanTransport<T: CanIo> {
    io: T,
    address: KatapultCanAddress,
    exchanges: Ghost<Seq<Exchange<CanTransportError<T::Error>>>>,
}

impl<T: CanIo> KatapultCanTransport<T> {
    /// The underlying CAN I/O implementation.
    pub closed spec fn line(&self) -> T {
        self.io
    }

    /// The address of the Katapult node.
    pub closed spec fn node(&self) -> KatapultCanAddress {
        self.address
    }

    /// Creates a transport without sending a CAN-admin assignment command.
    pub fn new(io: T, address: KatapultCanAddress) -> (transport: Self)
        ensures
            transport.line() == io,
            transport.node() == address,
            transport.history() == Seq::<Exchange<CanTransportError<T::Error>>>::empty(),
    {
        KatapultCanTransport { io, address, exchanges: Ghost(Seq::empty()) }
    }

    /// Returns the underlying CAN I/O implementation.
    pub fn into_io(self) -> (io: T)
        ensures
            io == self.line(),
    {
        self.io
    }

    /// Requests that the configured Klipper CAN MCU enter Katapult.
    ///
    /// This does not wait for bootloader startup or assign Katapult's temporary
    /// node ID. Call [`Self::assign_node`] only after bootloader entry.
    pub fn request_bootloader_entry(&mut self) -> (result: Result<(), CanTransportError<T::Error>>)
        ensures
            final(self).node() == old(self).node(),
            final(self).history() == old(self).history(),
            wrote_one(
                old(self).line().log(),
                final(self).line().log(),
                entry_content(old(self).node().id()),
                result,
            ),
    {
        match self.io.write(self.address.bootloader_entry_frame()) {
            Ok(done) => Ok(done),
            Err(error) => Err(CanTransportError::Io(error)),
        }
    }

    /// Assigns Katapult's temporary node ID for this explicitly supplied UUID.
    pub fn assign_node(&mut self) -> (result: Result<(), CanTransportError<T::Error>>)
        ensures
            final(self).node() == old(self).node(),
            final(self).history() == old(self).history(),
            wrote_one(
                old(self).line().log(),
                final(self).line().log(),
                assignment_content(old(self).node().id()),
                result,
            ),
    {
        match self.io.write(self.address.assignment_frame()) {
            Ok(done) => Ok(done),
            Err(error) => Err(CanTransportError::Io(error)),
        }
    }
}

/// Whether exactly `frame` was written between two logs, and `result` is how that went.
pub open spec fn wrote_one<E>(
    before: Seq<CanEvent<E>>,
    after: Seq<CanEvent<E>>,
    frame: FrameContent,
    result: Result<(), CanTransportError<E>>,
) -> bool {
    match result {
        Ok(done) => after == before.push(CanEvent::Wrote { frame, result: Ok(done) }),
        Err(CanTransportError::Io(error)) => after == before.push(
            CanEvent::Wrote { frame, result: Err(error) },
        ),
        Err(_) => false,
    }
}

proof fn lemma_received<E>(tape: Seq<CanEvent<E>>, longer: Seq<CanEvent<E>>, at: int, count: nat)
    requires
        0 <= at,
        at + count <= tape.len(),
        tape.is_prefix_of(longer),
    ensures
        received(longer, at, count) == received(tape, at, count),
    decreases count,
{
    if count > 0 {
        lemma_received(tape, longer, at, (count - 1) as nat);
        assert(longer[at + count - 1] == tape[at + count - 1]);
    }
}

impl<T: CanIo> Transport for KatapultCanTransport<T> {
    type Error = CanTransportError<T::Error>;

    closed spec fn history(&self) -> Seq<Exchange<CanTransportError<T::Error>>> {
        self.exchanges@
    }

    fn exchange(&mut self, request: &[u8]) -> (reply: Result<Vec<u8>, CanTransportError<T::Error>>)
        ensures
            final(self).node() == old(self).node(),
            old(self).line().log().is_prefix_of(final(self).line().log()),
            exchange_run(
                final(self).line().log(),
                old(self).line().log().len() as int,
                request@,
                session::reply_view(reply),
            ),
    {
        let reply: Result<Vec<u8>, CanTransportError<T::Error>> = self.send_and_receive(request);
        proof {
            self.exchanges@ = self.exchanges@.push(
                Exchange { request: request@, reply: session::reply_view(reply) },
            );
        }
        reply
    }
}

impl<T: CanIo> KatapultCanTransport<T> {
    fn send_and_receive(&mut self, request: &[u8]) -> (reply: Result<
        Vec<u8>,
        CanTransportError<T::Error>,
    >)
        ensures
            final(self).address == old(self).address,
            final(self).exchanges == old(self).exchanges,
            old(self).io.log().is_prefix_of(final(self).io.log()),
            exchange_run(
                final(self).io.log(),
                old(self).io.log().len() as int,
                request@,
                session::reply_view(reply),
            ),
    {
        let frames: Vec<CanFrame> = self.address.fragment_request(request);
        let ghost at = self.io.log().len() as int;
        let ghost before = self.io.log();
        let mut i: usize = 0;
        while i < frames.len()
            invariant
                i <= frames@.len(),
                frames@.len() == fragment_count(request@),
                forall|k: int|
                    0 <= k < frames@.len() ==> (#[trigger] frames@[k])@ == fragment(
                        KATAPULT_REQUEST_ID,
                        request@,
                        k,
                    ),
                self.address == old(self).address,
                self.exchanges == old(self).exchanges,
                before == old(self).io.log(),
                at == before.len(),
                before.is_prefix_of(self.io.log()),
                self.io.log().len() == at + i,
                sent_fragments(self.io.log(), at, request@, i as nat),
            decreases frames@.len() - i,
        {
            let ghost seen = self.io.log();
            let written: Result<(), T::Error> = self.io.write(frames[i].clone());
            assert forall|k: int| 0 <= k < i implies #[trigger] self.io.log()[at + k] == (
            CanEvent::Wrote {
                frame: fragment(KATAPULT_REQUEST_ID, request@, k),
                result: Ok::<(), T::Error>(()),
            }) by {
                assert(seen[at + k] == self.io.log()[at + k]);
            }
            if let Err(error) = written {
                return Err(CanTransportError::Io(error));
            }
            assert(written->Ok_0 == ());
            i += 1;
        }
        let ghost sent = self.io.log();
        let ghost count = 0nat;
        let mut response: Vec<u8> = Vec::new();
        assert(response@ =~= Seq::<u8>::empty());
        loop
            invariant
                self.address == old(self).address,
                self.exchanges == old(self).exchanges,
                before == old(self).io.log(),
                at == before.len(),
                before.is_prefix_of(self.io.log()),
                sent_fragments(self.io.log(), at, request@, fragment_count(request@)),
                self.io.log().len() == at + fragment_count(request@) + count,
                forall|k: int|
                    at + fragment_count(request@) <= k < self.io.log().len()
                        ==> #[trigger] self.io.log()[k] is Read,
                received(self.io.log(), at + fragment_count(request@), count)
                    == Assembly::<T::Error>::Pending(response@),
                response@.len() <= MAX_RESPONSE_FRAME_BYTES,
                response@.len() >= 4 ==> response@.len() < 8 + 4 * response@[3],
            decreases self.io.patience(),
        {
            let ghost seen = self.io.log();
            let ghost start = at + fragment_count(request@);
            let read: Result<CanFrame, T::Error> = self.io.read();
            proof {
                let now = self.io.log();
                count = count + 1;
                lemma_received(seen, now, start, (count - 1) as nat);
                assert(now[start + count - 1] == (CanEvent::Read { result: frame_view(read) }));
                assert forall|k: int| 0 <= k < fragment_count(request@) implies #[trigger] now[at
                    + k] == (CanEvent::Wrote {
                    frame: fragment(KATAPULT_REQUEST_ID, request@, k),
                    result: Ok::<(), T::Error>(()),
                }) by {
                    assert(seen[at + k] == now[at + k]);
                }
                assert forall|k: int| start <= k < now.len() implies #[trigger] now[k] is Read by {
                    if k < seen.len() {
                        assert(seen[k] == now[k]);
                    }
                }
                assert(received(now, start, count) == assembled(response@, frame_view(read)));
            }
            let frame: CanFrame = match read {
                Ok(frame) => frame,
                Err(error) => {
                    return Err(CanTransportError::Io(error));
                },
            };
            if frame.id() != self.address.response_id() {
                continue ;
            }
            let length: usize = response.len() + frame.data().len();
            if length > MAX_RESPONSE_FRAME_BYTES {
                return Err(CanTransportError::ResponseTooLarge { length });
            }
            bytes::append(&mut response, frame.data());
            if response.len() >= 4 {
                let expected: usize = 8 + (response[3] as usize) * 4;
                if response.len() == expected {
                    return Ok(response);
                }
                if response.len() > expected {
                    return Err(
                        CanTransportError::ResponseLengthExceeded {
                            expected,
                            actual: response.len(),
                        },
                    );
                }
            }
        }
    }
}

/// The fragments of a message, put together again, are the message, and none is empty or longer
/// than a classic CAN frame allows.
pub proof fn law_fragments_rejoin(id: u16, message: Seq<u8>, count: int)
    requires
        0 <= count <= fragment_count(message),
    ensures
        rejoined(id, message, count) == message.take(
            if 8 * count <= message.len() {
                8 * count
            } else {
                message.len() as int
            },
        ),
        forall|i: int|
            0 <= i < count ==> 0 < (#[trigger] fragment(id, message, i)).data.len() <= 8,
    decreases count,
{
    if count > 0 {
        law_fragments_rejoin(id, message, count - 1);
    }
    assert(rejoined(id, message, count) =~= message.take(
        if 8 * count <= message.len() {
            8 * count
        } else {
            message.len() as int
        },
    ));
}

/// The bytes of the first `count` fragments of a message, in order.
pub open spec fn rejoined(id: u16, message: Seq<u8>, count: int) -> Seq<u8>
    decreases count,
{
    if count <= 0 {
        Seq::empty()
    } else {
        rejoined(id, message, count - 1) + fragment(id, message, count - 1).data
    }
}

/// An answer counts as complete exactly at the length that its fourth byte declares, which is never
/// above the protocol's limit.
pub proof fn law_complete_answer_has_declared_length<E>(
    tape: Seq<CanEvent<E>>,
    at: int,
    count: nat,
)
    requires
        received(tape, at, count) is Complete,
    ensures
        ({
            let answer = received(tape, at, count)->Complete_0;
            answer.len() == 8 + 4 * answer[3] && answer.len() <= MAX_RESPONSE_FRAME_BYTES
        }),
    decreases count,
{
    if count > 0 && !(received(tape, at, (count - 1) as nat) is Pending) {
        law_complete_answer_has_declared_length(tape, at, (count - 1) as nat);
    }
}

/// A frame that Katapult sends in fragments is assembled to that very frame.
pub proof fn law_fragmented_answer_is_assembled<E>(
    tape: Seq<CanEvent<E>>,
    at: int,
    kind: u8,
    payload: Seq<u8>,
)
    requires
        katapult::frames_payload(payload),
        forall|i: int|
            0 <= i < fragment_count(katapult::frame_of(kind, payload)) ==> #[trigger] tape[at + i]
                == (CanEvent::Read {
                result: Ok::<FrameContent, E>(
                    fragment(KATAPULT_RESPONSE_ID, katapult::frame_of(kind, payload), i),
                ),
            }),
    ensures
        received(tape, at, fragment_count(katapult::frame_of(kind, payload))) == Assembly::<
            E,
        >::Complete(katapult::frame_of(kind, payload)),
{
    let frame = katapult::frame_of(kind, payload);
    bytes::lemma_le_round_trip(
        katapult::crc16(seq![kind, (payload.len() / 4) as u8] + payload) as nat,
        2,
    );
    assert(frame.len() == 8 + payload.len());
    assert(frame[3] == (payload.len() / 4) as u8);
    lemma_assembles(tape, at, frame, (fragment_count(frame) - 1) as nat);
    let last = fragment_count(frame) - 1;
    assert(tape[at + last] == (CanEvent::Read {
        result: Ok::<FrameContent, E>(fragment(KATAPULT_RESPONSE_ID, frame, last)),
    }));
    assert(frame.take(8 * last) + fragment(KATAPULT_RESPONSE_ID, frame, last).data =~= frame);
}

proof fn lemma_assembles<E>(tape: Seq<CanEvent<E>>, at: int, frame: Seq<u8>, count: nat)
    requires
        8 <= frame.len() <= MAX_RESPONSE_FRAME_BYTES,
        frame.len() == 8 + 4 * frame[3],
        count < fragment_count(frame),
        forall|i: int|
            0 <= i < fragment_count(frame) ==> #[trigger] tape[at + i] == (CanEvent::Read {
                result: Ok::<FrameContent, E>(fragment(KATAPULT_RESPONSE_ID, frame, i)),
            }),
    ensures
        received(tape, at, count) == Assembly::<E>::Pending(frame.take(8 * count as int)),
    decreases count,
{
    if count > 0 {
        lemma_assembles(tape, at, frame, (count - 1) as nat);
        let i = count - 1;
        assert(tape[at + i] == (CanEvent::Read {
            result: Ok::<FrameContent, E>(fragment(KATAPULT_RESPONSE_ID, frame, i)),
        }));
        assert(frame.take(8 * i) + fragment(KATAPULT_RESPONSE_ID, frame, i).data =~= frame.take(
            8 * count as int,
        ));
    } else {
        assert(frame.take(0) =~= Seq::<u8>::empty());
    }
}

/// The UUID of a node is written in six bytes, the most significant one first, so that the bytes
/// of one UUID are those with which the node of that UUID answers.
pub proof fn law_uuid_is_written_in_six_bytes(uuid: u64, rest: Seq<u8>)
    requires
        uuid <= 0xffff_ffff_ffff,
    ensures
        ({
            let data = uuid_bytes(uuid);
            &&& data.len() == 6
            &&& 0x100_0000_0000 * data[0] + 0x1_0000_0000 * data[1] + 0x100_0000 * data[2]
                + 0x1_0000 * data[3] + 0x100 * data[4] + data[5] == uuid
            &&& session::uuid_check(data + rest, uuid) is Ok
        }),
{
    lemma_six_digits(uuid);
    let data = uuid_bytes(uuid) + rest;
    assert(forall|i: int| 0 <= i < 6 ==> data[i] == uuid_bytes(uuid)[i]);
    session::law_node_must_have_the_uuid(data, uuid);
}

proof fn lemma_six_digits(uuid: u64)
    requires
        uuid <= 0xffff_ffff_ffff,
    ensures
        0x100_0000_0000 * (uuid / 0x100_0000_0000 % 256) + 0x1_0000_0000 * (uuid / 0x1_0000_0000
            % 256) + 0x100_0000 * (uuid / 0x100_0000 % 256) + 0x1_0000 * (uuid / 0x1_0000 % 256)
            + 0x100 * (uuid / 0x100 % 256) + uuid % 256 == uuid,
{
    let n = uuid as int;
    let a = n / 256;
    let b = a / 256;
    let c = b / 256;
    let d = c / 256;
    let e = d / 256;
    assert(b == n / 0x1_0000);
    assert(c == n / 0x100_0000);
    assert(d == n / 0x1_0000_0000);
    assert(e == n / 0x100_0000_0000);
    assert(e < 256);
}

/// The administrative frames go to identifier 0x3f0. An assignment begins with 0x11, goes on with
/// the UUID and ends with the node number; a request to enter the bootloader is 0x02 and the UUID.
/// A node of number `n` is spoken to at `0x100 + 2 * n` and answers at the next identifier.
pub proof fn law_node_is_addressed_by_its_uuid(uuid: u64)
    ensures
        ({
            let assignment = assignment_content(uuid);
            let n = assignment.data[7];
            &&& assignment.id == 0x3f0
            &&& assignment.data.len() == 8
            &&& assignment.data[0] == 0x11
            &&& assignment.data.subrange(1, 7) == uuid_bytes(uuid)
            &&& n == 129
            &&& KATAPULT_REQUEST_ID == 0x100 + 2 * n
            &&& KATAPULT_RESPONSE_ID == 0x100 + 2 * n + 1
        }),
        entry_content(uuid).id == 0x3f0,
        entry_content(uuid).data.len() == 7,
        entry_content(uuid).data[0] == 0x02,
        entry_content(uuid).data.skip(1) == uuid_bytes(uuid),
{
    assert(assignment_content(uuid).data.subrange(1, 7) =~= uuid_bytes(uuid));
    assert(entry_content(uuid).data.skip(1) =~= uuid_bytes(uuid));
}

/// A frame of another node adds nothing to an answer, a frame of the node adds its data, and a
/// failed read ends the exchange with its error. An answer of more than 1028 bytes, or of more
/// than it declares in its fourth byte, ends the exchange too.
pub proof fn law_answer_is_of_the_nodes_frames<E>(
    bytes: Seq<u8>,
    frame: FrameContent,
    error: E,
)
    requires
        bytes.len() + frame.data.len() <= usize::MAX,
    ensures
        frame.id != 0x203 ==> assembled(bytes, Ok::<FrameContent, E>(frame)) == Assembly::<
            E,
        >::Pending(bytes),
        assembled(bytes, Err::<FrameContent, E>(error)) == Assembly::Failed(
            CanTransportError::Io(error),
        ),
        frame.id == 0x203 ==> ({
            let all = bytes + frame.data;
            let next = assembled(bytes, Ok::<FrameContent, E>(frame));
            &&& next is Complete <==> 8 <= all.len() <= 1028 && all.len() == 8 + 4 * all[3]
            &&& next is Complete ==> next->Complete_0 == all
            &&& next is Pending <==> all.len() <= 1028 && (all.len() < 4 || all.len() < 8 + 4
                * all[3])
            &&& next is Pending ==> next->Pending_0 == all
            &&& all.len() > 1028 ==> next == Assembly::<E>::Failed(
                CanTransportError::ResponseTooLarge { length: all.len() as usize },
            )
            &&& 4 <= all.len() <= 1028 && all.len() > 8 + 4 * all[3] ==> next == Assembly::<
                E,
            >::Failed(
                CanTransportError::ResponseLengthExceeded {
                    expected: (8 + 4 * all[3]) as usize,
                    actual: all.len() as usize,
                },
            )
        }),
{
}

/// An exchange that was answered wrote the whole request to the node, in order and in frames of at
/// most eight bytes, before it read anything.
pub proof fn law_answered_request_was_sent_whole<E>(
    tape: Seq<CanEvent<E>>,
    at: int,
    request: Seq<u8>,
    answer: Seq<u8>,
    i: int,
)
    requires
        0 <= at,
        exchange_run(tape, at, request, Ok::<Seq<u8>, CanTransportError<E>>(answer)),
        0 <= 8 * i < request.len(),
    ensures
        tape[at + i] is Wrote,
        tape[at + i]->frame.id == 0x202,
        tape[at + i]->Wrote_result is Ok,
        0 < tape[at + i]->frame.data.len() <= 8,
        forall|k: int|
            0 <= k < tape[at + i]->frame.data.len() ==> (#[trigger] tape[at + i]->frame.data[k])
                == request[8 * i + k],
        tape[at + i]->frame.data.len() == 8 || 8 * i + tape[at + i]->frame.data.len()
            == request.len(),
        forall|k: int| at + (request.len() + 7) / 8 <= k < tape.len() ==> #[trigger] tape[k] is Read,
{
    assert(tape[at + i] == (CanEvent::Wrote {
        frame: fragment(KATAPULT_REQUEST_ID, request, i),
        result: Ok::<(), E>(()),
    }));
}

/// What was written and read decides the reply.
pub proof fn law_exchange_has_one_reply<E>(
    tape: Seq<CanEvent<E>>,
    at: int,
    request: Seq<u8>,
    reply: Result<Seq<u8>, CanTransportError<E>>,
    other: Result<Seq<u8>, CanTransportError<E>>,
)
    requires
        0 <= at <= tape.len(),
        exchange_run(tape, at, request, reply),
        exchange_run(tape, at, request, other),
    ensures
        reply == other,
{
}

} // verus!
