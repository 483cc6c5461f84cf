//! Katapult serial transport framing.
//!
//! The bootloader entry sequence and protocol framing follow
//! <https://github.com/Arksine/katapult/blob/master/scripts/flashtool.py>.
use vstd::prelude::*;

use crate::bytes;
use crate::failure::IoFailure;
use crate::flash::katapult::session::{Exchange, Transport};
use crate::flash::katapult::session;
use crate::flash::katapult::MAX_RESPONSE_FRAME_BYTES;
use crate::flash::usb_bootloader;
use crate::flash::usb_bootloader::{
    classify_usb_identity,
    ObservedUsbBootloader,
    UsbBootloaderKind,
    UsbDeviceDirectory,
};
use crate::flash::usb_sysfs;
use crate::flash::usb_sysfs::{SysfsNode, UsbIdentity};
use crate::text;

verus! {

/// Klipper's explicit request to reboot a serial MCU into its bootloader.
///
/// The bytes spell `~ \x1c Request Serial Bootloader!! ~`.
pub const BOOTLOADER_ENTRY_REQUEST: [u8; 33] = [
    0x7e, 0x20, 0x1c, 0x20, 0x52, 0x65, 0x71, 0x75, 0x65, 0x73, 0x74, 0x20, 0x53, 0x65, 0x72, 0x69,
    0x61, 0x6c, 0x20, 0x42, 0x6f, 0x6f, 0x74, 0x6c, 0x6f, 0x61, 0x64, 0x65, 0x72, 0x21, 0x21, 0x20,
    0x7e,
];

/// Returns whether USB identity fields identify a Katapult bootloader.
pub fn is_katapult_usb(usb_id: &str, manufacturer: &str) -> (katapult: bool)
    ensures
        katapult == (usb_bootloader::identity_kind(usb_id@, manufacturer@) == Some(
            UsbBootloaderKind::Katapult,
        )),
{
    matches!(classify_usb_identity(usb_id, manufacturer), Some(UsbBootloaderKind::Katapult))
}

/// One use of a serial device.
#[verifier::ext_equal]
pub enum SerialEvent<E> {
    /// Bytes handed to the device.
    Wrote { bytes: Seq<u8>, result: Result<(), E> },
    /// Bytes asked of the device.
    Read { result: Result<Seq<u8>, E> },
}

/// Sends and receives bounded byte chunks from a serial device.
pub trait SerialIo: Sized {
    /// The serial implementation's error type.
    type Error;

    /// Every use so far, in order.
    /// Nothing is known of it by default: an implementation says what it is.
    open spec fn log(&self) -> Seq<SerialEvent<Self::Error>> {
        arbitrary()
    }

    /// Sends all bytes from one Katapult request frame.
    fn write_all(&mut self, bytes: &[u8]) -> (result: Result<(), Self::Error>)
        ensures
            final(self).log() == old(self).log().push(
                (SerialEvent::Wrote { bytes: bytes@, result }),
            ),
    ;

    /// Receives the next non-empty serial chunk.
    fn read(&mut self) -> (result: Result<Vec<u8>, Self::Error>)
        ensures
            final(self).log() == old(self).log().push(
                (SerialEvent::Read { result: session::reply_view(result) }),
            ),
            result is Ok ==> result->Ok_0@.len() > 0,
    ;
}

/// An error while exchanging Katapult protocol frames over serial.
#[derive(Clone, Debug, PartialEq, Eq)]
pub enum SerialTransportError<E> {
    /// The underlying serial implementation failed.
    Io(E),
    /// The response is larger than Katapult can represent.
    ResponseTooLarge {
        /// Number of bytes observed before rejecting the response.
        length: usize,
    },
    /// The response exceeded its payload-length declaration.
    ResponseLengthExceeded {
        /// Length declared in the response header.
        expected: usize,
        /// Number of bytes actually received.
        actual: usize,
    },
}

impl SerialTransportError<IoFailure> {
    /// The wording of this error.
    pub open spec fn text(self) -> Seq<char> {
        match self {
            SerialTransportError::Io(_) => "serial transport error"@,
            SerialTransportError::ResponseTooLarge { length } => "serial response of "@
                + text::decimal(length as nat) + " bytes exceeds the maximum 1028 bytes"@,
            SerialTransportError::ResponseLengthExceeded { expected, actual } =>
            "serial response of "@ + text::decimal(actual as nat) + " bytes exceeds the "@
                + text::decimal(expected as nat) + " bytes declared by its header"@,
        }
    }

    /// The wording of this error.
    pub fn message(&self) -> (message: String)
        ensures
            message@ == self.text(),
    {
        match self {
            SerialTransportError::Io(_) => "serial transport error".to_owned(),
            SerialTransportError::ResponseTooLarge { length } => {
                let mut message: String = "serial response of ".to_owned();
                message.append(text::decimal_text(*length as u64).as_str());
                message.append(" bytes exceeds the maximum 1028 bytes");
                message
            },
            SerialTransportError::ResponseLengthExceeded { expected, actual } => {
                let mut message: String = "serial response of ".to_owned();
                message.append(text::decimal_text(*actual as u64).as_str());
                message.append(" bytes exceeds the ");
                message.append(text::decimal_text(*expected as u64).as_str());
                message.append(" bytes declared by its header");
                message
            },
        }
    }

    /// The wording of what caused this error, if anything did.
    pub fn source(&self) -> (source: Option<String>)
        ensures
            match *self {
                SerialTransportError::Io(failure) => source == Some(failure.message),
                _ => source is None,
            },
    {
        match self {
            SerialTransportError::Io(failure) => Some(failure.message.clone()),
            SerialTransportError::ResponseTooLarge { .. }
            | SerialTransportError::ResponseLengthExceeded { .. } => None,
        }
    }
}

/// How far the answer to a request has come in.
#[verifier::ext_equal]
pub enum Assembly<E> {
    /// These bytes so far.
    Pending(Seq<u8>),
    /// The complete answer.
    Complete(Seq<u8>),
    /// The answer is given up.
    Failed(SerialTransportError<E>),
}

/// What one more received chunk makes of the bytes so far; the fourth byte of the answer declares
/// its length.
pub open spec fn assembled<E>(bytes: Seq<u8>, result: Result<Seq<u8>, E>) -> Assembly<E> {
    match result {
        Err(error) => Assembly::Failed(SerialTransportError::Io(error)),
        Ok(chunk) => {
            let all = bytes + chunk;
            if all.len() > MAX_RESPONSE_FRAME_BYTES {
                Assembly::Failed(
                    SerialTransportError::ResponseTooLarge { length: all.len() as usize },
                )
            } else if all.len() < 4 || all.len() < 8 + 4 * all[3] {
                Assembly::Pending(all)
            } else if all.len() == 8 + 4 * all[3] {
                Assembly::Complete(all)
            } else {
                Assembly::Failed(
                    SerialTransportError::ResponseLengthExceeded {
                        expected: (8 + 4 * all[3]) as usize,
                        actual: all.len() as usize,
                    },
                )
            }
        },
    }
}

/// The state of the answer after the first `count` reads from position `at` on.
pub open spec fn received<E>(tape: Seq<SerialEvent<E>>, at: int, count: nat) -> Assembly<E>
    decreases count,
{
    if count == 0 {
        Assembly::Pending(Seq::empty())
    } else {
        match received(tape, at, (count - 1) as nat) {
            Assembly::Pending(bytes) => match tape[at + count - 1] {
                SerialEvent::Read { result } => assembled(bytes, result),
                SerialEvent::Wrote { .. } => Assembly::Pending(bytes),
            },
            settled => settled,
        }
    }
}

/// Whether everything from position `at` on is one request: it is written whole, and unless that
/// fails, chunks are read until the answer is complete or fails.
pub open spec fn exchange_run<E>(
    tape: Seq<SerialEvent<E>>,
    at: int,
    request: Seq<u8>,
    reply: Result<Seq<u8>, SerialTransportError<E>>,
) -> bool {
    let reads = (tape.len() - at - 1) as nat;
    &&& at < tape.len()
    &&& tape[at] is Wrote
    &&& tape[at]->bytes == request
    &&& match tape[at]->Wrote_result {
        Err(error) => reads == 0 && reply == Err::<Seq<u8>, SerialTransportError<E>>(
            SerialTransportError::Io(error),
        ),
        Ok(_) => {
            &&& reads > 0
            &&& forall|i: int| at < i < tape.len() ==> #[trigger] tape[i] is Read
            &&& received(tape, at + 1, (reads - 1) as nat) is Pending
            &&& received(tape, at + 1, reads) == match reply {
                Ok(bytes) => Assembly::Complete(bytes),
                Err(error) => Assembly::Failed(error),
            }
        },
    }
}

proof fn lemma_received<E>(
    tape: Seq<SerialEvent<E>>,
    longer: Seq<SerialEvent<E>>,
    at: int,
    count: nat,
)
    requires
        0 <= at,
        at + count <= tape.len(),
        tape.is_prefix_of(longer),
    ensures
        received(longer, at, count) == received(tape, at, count),
    decreases count,
{
    if count > 0 {
        lemma_received(tape, longer, at, (count - 1) as nat);
        assert(longer[at + count - 1] == tape[at + count - 1]);
    }
}

/// A sequential Katapult transport over serial bytes.
pub struct KatapultSerialTransport<T: SerialIo> {
    io: T,
    exchanges: Ghost<Seq<Exchange<SerialTransportError<T::Error>>>>,
}

impl<T: SerialIo> KatapultSerialTransport<T> {
    /// The underlying serial I/O implementation.
    pub closed spec fn line(&self) -> T {
        self.io
    }

    /// Creates a transport over an already-open serial I/O implementation.
    pub fn new(io: T) -> (transport: Self)
        ensures
            transport.line() == io,
            transport.history() == Seq::<Exchange<SerialTransportError<T::Error>>>::empty(),
    {
        KatapultSerialTransport { io, exchanges: Ghost(Seq::empty()) }
    }

    /// Returns the underlying serial I/O implementation.
    pub fn into_io(self) -> (io: T)
        ensures
            io == self.line(),
    {
        self.io
    }

    fn send_and_receive(&mut self, request: &[u8]) -> (reply: Result<
        Vec<u8>,
        SerialTransportError<T::Error>,
    >)
        ensures
            final(self).exchanges == old(self).exchanges,
            old(self).io.log().is_prefix_of(final(self).io.log()),
            exchange_run(
                final(self).io.log(),
                old(self).io.log().len() as int,
                request@,
                session::reply_view(reply),
            ),
    {
        let ghost before = self.io.log();
        let ghost at = before.len() as int;
        let written: Result<(), T::Error> = self.io.write_all(request);
        if let Err(error) = written {
            return Err(SerialTransportError::Io(error));
        }
        let ghost sent = self.io.log()[at];
        let ghost count = 0nat;
        let mut response: Vec<u8> = Vec::new();
        assert(response@ =~= Seq::<u8>::empty());
        loop
            invariant
                self.exchanges == old(self).exchanges,
                before == old(self).io.log(),
                at == before.len(),
                before.is_prefix_of(self.io.log()),
                self.io.log().len() == at + 1 + count,
                self.io.log()[at] == sent,
                sent is Wrote,
                sent->bytes == request@,
                sent->Wrote_result is Ok,
                forall|k: int|
                    at < k < self.io.log().len() ==> #[trigger] self.io.log()[k] is Read,
                received(self.io.log(), at + 1, count) == Assembly::<T::Error>::Pending(response@),
                response@.len() <= MAX_RESPONSE_FRAME_BYTES,
                response@.len() >= 4 ==> response@.len() < 8 + 4 * response@[3],
            decreases MAX_RESPONSE_FRAME_BYTES - response@.len(),
        {
            let ghost seen = self.io.log();
            let read: Result<Vec<u8>, T::Error> = self.io.read();
            proof {
                let now = self.io.log();
                count = count + 1;
                lemma_received(seen, now, at + 1, (count - 1) as nat);
                assert(now[at + count] == (SerialEvent::Read {
                    result: session::reply_view(read),
                }));
                assert(now[at] == seen[at]);
                assert forall|k: int| at < k < now.len() implies #[trigger] now[k] is Read by {
                    if k < seen.len() {
                        assert(seen[k] == now[k]);
                    }
                }
                assert(received(now, at + 1, count) == assembled(
                    response@,
                    session::reply_view(read),
                ));
            }
            let chunk: Vec<u8> = match read {
                Ok(chunk) => chunk,
                Err(error) => {
                    return Err(SerialTransportError::Io(error));
                },
            };
            if chunk.len() > MAX_RESPONSE_FRAME_BYTES - response.len() {
                bytes::append(&mut response, chunk.as_slice());
                return Err(SerialTransportError::ResponseTooLarge { length: response.len() });
            }
            bytes::append(&mut response, chunk.as_slice());
            if response.len() >= 4 {
                let expected: usize = 8 + (response[3] as usize) * 4;
                if response.len() == expected {
                    return Ok(response);
                }
                if response.len() > expected {
                    return Err(
                        SerialTransportError::ResponseLengthExceeded {
                            expected,
                            actual: response.len(),
                        },
                    );
                }
            }
        }
    }
}

impl<T: SerialIo> Transport for KatapultSerialTransport<T> {
    type Error = SerialTransportError<T::Error>;

    closed spec fn history(&self) -> Seq<Exchange<SerialTransportError<T::Error>>> {
        self.exchanges@
    }

    fn exchange(&mut self, request: &[u8]) -> (reply: Result<
        Vec<u8>,
        SerialTransportError<T::Error>,
    >)
        ensures
            old(self).line().log().is_prefix_of(final(self).line().log()),
            exchange_run(
                final(self).line().log(),
                old(self).line().log().len() as int,
                request@,
                session::reply_view(reply),
            ),
    {
        let reply: Result<Vec<u8>, SerialTransportError<T::Error>> = self.send_and_receive(request);
        proof {
            self.exchanges@ = self.exchanges@.push(
                Exchange { request: request@, reply: session::reply_view(reply) },
            );
        }
        reply
    }
}

/// An answer counts as complete exactly at the length that its fourth byte declares, which is never
/// above the protocol's limit.
pub proof fn law_complete_answer_has_declared_length<E>(
    tape: Seq<SerialEvent<E>>,
    at: int,
    count: nat,
)
    requires
        received(tape, at, count) is Complete,
    ensures
        ({
            let answer = received(tape, at, count)->Complete_0;
            answer.len() == 8 + 4 * answer[3] && answer.len() <= MAX_RESPONSE_FRAME_BYTES
        }),
    decreases count,
{
    if count > 0 && !(received(tape, at, (count - 1) as nat) is Pending) {
        law_complete_answer_has_declared_length(tape, at, (count - 1) as nat);
    }
}

/// A failed USB Katapult bootloader transition.
#[derive(Clone, Debug, PartialEq, Eq)]
pub enum UsbBootloaderError {
    /// The configured serial device could not be related to a USB device.
    NotUsbDevice {
        /// The configured serial device.
        device: String,
    },
    /// Katapult did not appear at the same USB topology before the timeout.
    NotDetected {
        /// The configured serial device.
        device: String,
        /// A best-effort reset error, if opening the device failed before it disconnected.
        reset_error: Option<String>,
    },
    /// The device never left its pre-reset identity before the timeout.
    NoEffect {
        /// The configured serial device or observed USB topology.
        device: String,
    },
}

impl UsbBootloaderError {
    /// The diagnostic form of this error.
    pub open spec fn diagnostic(self) -> Seq<char> {
        match self {
            UsbBootloaderError::NotUsbDevice { device } => text::field(
                "NotUsbDevice { device: "@,
                device@,
            ) + " }"@,
            UsbBootloaderError::NotDetected { device, reset_error } => text::field(
                "NotDetected { device: "@,
                device@,
            ) + match reset_error {
                Some(error) => text::field(", reset_error: Some("@, error@) + ") }"@,
                None => ", reset_error: None }"@,
            },
            UsbBootloaderError::NoEffect { device } => text::field(
                "NoEffect { device: "@,
                device@,
            ) + " }"@,
        }
    }

    /// The diagnostic form of this error.
    pub fn describe(&self) -> (description: String)
        ensures
            description@ == self.diagnostic(),
    {
        let mut description: String = String::new();
        match self {
            UsbBootloaderError::NotUsbDevice { device } => {
                text::append_field(&mut description, "NotUsbDevice { device: ", device.as_str());
                description.append(" }");
            },
            UsbBootloaderError::NotDetected { device, reset_error } => {
                text::append_field(&mut description, "NotDetected { device: ", device.as_str());
                match reset_error {
                    Some(error) => {
                        text::append_field(&mut description, ", reset_error: Some(", error.as_str());
                        description.append(") }");
                    },
                    None => {
                        description.append(", reset_error: None }");
                    },
                }
            },
            UsbBootloaderError::NoEffect { device } => {
                text::append_field(&mut description, "NoEffect { device: ", device.as_str());
                description.append(" }");
            },
        }
        assert(description@ =~= self.diagnostic());
        description
    }

    /// The wording of this error.
    pub open spec fn text(self) -> Seq<char> {
        match self {
            UsbBootloaderError::NotUsbDevice { device } => device@ + " is not a USB device"@,
            UsbBootloaderError::NotDetected { device, reset_error } => {
                let message = "no bootloader appeared at "@ + device@ + " before the timeout"@;
                match reset_error {
                    Some(error) => message + " (reset error: "@ + error@ + ")"@,
                    None => message,
                }
            },
            UsbBootloaderError::NoEffect { device } => device@
                + " never left application firmware; the reset request had no effect"@,
        }
    }

    /// The wording of this error.
    pub fn message(&self) -> (message: String)
        ensures
            message@ == self.text(),
    {
        match self {
            UsbBootloaderError::NotUsbDevice { device } => {
                let mut message: String = device.clone();
                message.append(" is not a USB device");
                message
            },
            UsbBootloaderError::NotDetected { device, reset_error } => {
                let mut message: String = "no bootloader appeared at ".to_owned();
                message.append(device.as_str());
                message.append(" before the timeout");
                if let Some(error) = reset_error {
                    message.append(" (reset error: ");
                    message.append(error.as_str());
                    message.append(")");
                }
                message
            },
            UsbBootloaderError::NoEffect { device } => {
                let mut message: String = device.clone();
                message.append(
                    " never left application firmware; the reset request had no effect",
                );
                message
            },
        }
    }
}

/// Whether a device has come back as something else that can be used: with a complete identity
/// other than the one before the reset, and one serial device or a ROM bootloader's identity.
pub open spec fn usable_bootloader(
    initial: usb_sysfs::IdentityFields,
    device: SysfsNode,
) -> bool {
    let identity = usb_sysfs::identity_of(device);
    let kind = usb_bootloader::identity_kind(identity.usb_id, identity.manufacturer);
    &&& identity != initial
    &&& usb_sysfs::complete_usb_id(identity.usb_id)
    &&& usb_sysfs::device_ttys(device).len() == 1 || kind == Some(UsbBootloaderKind::Stm32Dfu)
        || kind == Some(UsbBootloaderKind::PicoBoot)
}

/// A wait for a device to come back at its USB topology as something else.
#[derive(Debug, PartialEq, Eq)]
pub struct UsbWatch {
    initial: UsbIdentity,
    last: UsbIdentity,
}

impl UsbWatch {
    /// The identity before the reset.
    pub closed spec fn initial_identity(&self) -> usb_sysfs::IdentityFields {
        self.initial@
    }

    /// The identity seen last.
    pub closed spec fn last_identity(&self) -> usb_sysfs::IdentityFields {
        self.last@
    }

    /// Starts a wait from the identity before the reset.
    pub fn new(initial: UsbIdentity) -> (watch: Self)
        ensures
            watch.initial_identity() == initial@,
            watch.last_identity() == initial@,
    {
        let last: UsbIdentity = initial.clone();
        UsbWatch { initial, last }
    }

    /// Takes note of the identity at the topology and returns whether it is a new, complete one
    /// that the caller also accepts. Only then is the device ready to be looked at.
    pub fn observe(&mut self, identity: UsbIdentity, accepted: bool) -> (changed: bool)
        ensures
            final(self).initial_identity() == old(self).initial_identity(),
            final(self).last_identity() == identity@,
            changed == (identity@ != old(self).initial_identity()
                && usb_sysfs::complete_usb_id(identity.usb_id@) && accepted),
    {
        let changed: bool = !identity.same(&self.initial) && identity.is_complete() && accepted;
        self.last = identity;
        changed
    }

    /// Looks at the device directory at the topology and returns the bootloader in it, once the
    /// identity has changed and the bootloader can be used: through its one serial device, or as a
    /// ROM bootloader that exposes none.
    pub fn observe_any_usb_bootloader(&mut self, directory: &UsbDeviceDirectory) -> (observed:
        Option<ObservedUsbBootloader>)
        ensures
            final(self).initial_identity() == old(self).initial_identity(),
            final(self).last_identity() == usb_sysfs::identity_of(directory.node),
            match observed {
                Some(observed) => usable_bootloader(
                    old(self).initial_identity(),
                    directory.node,
                ) && usb_bootloader::observes(*directory, observed),
                None => !usable_bootloader(old(self).initial_identity(), directory.node),
            },
    {
        let identity: UsbIdentity = usb_sysfs::usb_identity(&directory.node);
        let serial_device: Option<String> = usb_sysfs::usb_tty(&directory.node);
        let usable: bool = match classify_usb_identity(
            identity.usb_id.as_str(),
            identity.manufacturer.as_str(),
        ) {
            Some(UsbBootloaderKind::Stm32Dfu) => true,
            Some(UsbBootloaderKind::PicoBoot) => true,
            _ => serial_device.is_some(),
        };
        let usb_id: String = identity.usb_id.clone();
        let manufacturer: String = identity.manufacturer.clone();
        if self.observe(identity, usable) {
            Some(
                ObservedUsbBootloader {
                    sysfs_path: directory.path.clone(),
                    usb_id,
                    manufacturer,
                    serial_device,
                },
            )
        } else {
            None
        }
    }

    /// What a wait that ran out means: no effect where the device still shows its first identity,
    /// else that no usable bootloader was found.
    pub fn timeout_outcome(&self, device: &str, reset_error: Option<String>) -> (error:
        UsbBootloaderError)
        ensures
            if self.last_identity() == self.initial_identity() {
                error is NoEffect && error->NoEffect_device@ == device@
            } else {
                error is NotDetected && error->NotDetected_device@ == device@ && error->reset_error
                    == reset_error
            },
    {
        if self.last.same(&self.initial) {
            UsbBootloaderError::NoEffect { device: device.to_owned() }
        } else {
            UsbBootloaderError::NotDetected { device: device.to_owned(), reset_error }
        }
    }
}

/// What a read brings is added to the answer, and a failed read ends the exchange with its error.
/// The answer is complete when it has the length that its fourth byte declares; one of more than
/// 1028 bytes, or of more than it declares, ends the exchange.
pub proof fn law_answer_is_of_what_was_read<E>(bytes: Seq<u8>, chunk: Seq<u8>, error: E)
    requires
        bytes.len() + chunk.len() <= usize::MAX,
    ensures
        assembled(bytes, Err::<Seq<u8>, E>(error)) == Assembly::Failed(
            SerialTransportError::Io(error),
        ),
        ({
            let all = bytes + chunk;
            let next = assembled(bytes, Ok::<Seq<u8>, E>(chunk));
            &&& next is Complete <==> 8 <= all.len() <= 1028 && all.len() == 8 + 4 * all[3]
            &&& next is Complete ==> next->Complete_0 == all
            &&& next is Pending <==> all.len() <= 1028 && (all.len() < 4 || all.len() < 8 + 4
                * all[3])
            &&& next is Pending ==> next->Pending_0 == all
            &&& all.len() > 1028 ==> next == Assembly::<E>::Failed(
                SerialTransportError::ResponseTooLarge { length: all.len() as usize },
            )
            &&& 4 <= all.len() <= 1028 && all.len() > 8 + 4 * all[3] ==> next == Assembly::<
                E,
            >::Failed(
                SerialTransportError::ResponseLengthExceeded {
                    expected: (8 + 4 * all[3]) as usize,
                    actual: all.len() as usize,
                },
            )
        }),
{
}

/// An exchange writes the request once, before anything is read, and what was written and read
/// decides the reply. A request that could not be written is answered with that error.
pub proof fn law_request_is_written_once<E>(
    tape: Seq<SerialEvent<E>>,
    at: int,
    request: Seq<u8>,
    reply: Result<Seq<u8>, SerialTransportError<E>>,
    other: Result<Seq<u8>, SerialTransportError<E>>,
)
    requires
        0 <= at <= tape.len(),
        exchange_run(tape, at, request, reply),
        exchange_run(tape, at, request, other),
    ensures
        reply == other,
        tape[at] is Wrote,
        tape[at]->bytes == request,
        forall|k: int| at < k < tape.len() ==> #[trigger] tape[k] is Read,
        tape[at]->Wrote_result is Err ==> reply == Err::<Seq<u8>, SerialTransportError<E>>(
            SerialTransportError::Io(tape[at]->Wrote_result->Err_0),
        ),
{
}

/// An answer that comes in two reads is the two joined, wherever it is divided.
pub proof fn law_divided_answer_is_joined<E>(
    tape: Seq<SerialEvent<E>>,
    at: int,
    request: Seq<u8>,
    first: Seq<u8>,
    second: Seq<u8>,
)
    requires
        0 <= at,
        tape.len() == at + 3,
        tape[at] == (SerialEvent::Wrote { bytes: request, result: Ok::<(), E>(()) }),
        tape[at + 1] == (SerialEvent::Read { result: Ok::<Seq<u8>, E>(first) }),
        tape[at + 2] == (SerialEvent::Read { result: Ok::<Seq<u8>, E>(second) }),
        0 < second.len(),
        8 <= (first + second).len() <= 1028,
        (first + second).len() == 8 + 4 * (first + second)[3],
    ensures
        exchange_run(
            tape,
            at,
            request,
            Ok::<Seq<u8>, SerialTransportError<E>>(first + second),
        ),
{
    reveal_with_fuel(received, 3);
    assert(Seq::<u8>::empty() + first =~= first);
    if first.len() >= 4 {
        assert(first[3] == (first + second)[3]);
    }
}

/// The identity that the application had is never taken for a bootloader, nor is one without both
/// of its numbers. Another identity is taken for one if the device has one serial port, or needs
/// none because it is an STM32 or PicoBoot bootloader.
pub proof fn law_application_is_no_bootloader(
    initial: usb_sysfs::IdentityFields,
    device: SysfsNode,
)
    ensures
        ({
            let identity = usb_sysfs::identity_of(device);
            let kind = usb_bootloader::identity_kind(identity.usb_id, identity.manufacturer);
            &&& usable_bootloader(usb_sysfs::identity_of(device), device) == false
            &&& usable_bootloader(initial, device) ==> identity != initial
                && usb_sysfs::complete_usb_id(identity.usb_id)
            &&& identity != initial && usb_sysfs::complete_usb_id(identity.usb_id)
                && usb_sysfs::device_ttys(device).len() == 1 ==> usable_bootloader(initial, device)
            &&& identity != initial && usb_sysfs::complete_usb_id(identity.usb_id) && (kind
                == Some(UsbBootloaderKind::Stm32Dfu) || kind == Some(UsbBootloaderKind::PicoBoot))
                ==> usable_bootloader(initial, device)
            &&& usable_bootloader(initial, device) && usb_sysfs::device_ttys(device).len() != 1
                ==> kind == Some(UsbBootloaderKind::Stm32Dfu) || kind == Some(
                UsbBootloaderKind::PicoBoot,
            )
        }),
{
}

} // verus!
