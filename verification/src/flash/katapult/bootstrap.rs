//! Explicit transitions from a running MCU transport to a ready Katapult backend.
use vstd::prelude::*;

use crate::failure::IoFailure;
use crate::flash::katapult::adapter::KatapultAdapter;
use crate::flash::katapult::can;
use crate::flash::katapult::can::{
    CanError,
    CanIo,
    CanTransportError,
    KatapultCanAddress,
    KatapultCanTransport,
};
use crate::flash::katapult::serial::UsbBootloaderError;
use crate::flash::usb_bootloader::{SelectedUsbBootloader, UsbBootloaderSelectionError};
use crate::text;

verus! {

/// A failure while transitioning a CAN MCU into a ready Katapult session.
#[derive(Clone, Debug, PartialEq, Eq)]
pub enum CanBootstrapError<E> {
    /// The configured CAN UUID cannot be represented by Katapult.
    Address(CanError),
    /// The CAN reboot or node-assignment command failed.
    Transport(CanTransportError<E>),
}

impl CanBootstrapError<IoFailure> {
    /// The wording of this error.
    pub open spec fn text(self) -> Seq<char> {
        match self {
            CanBootstrapError::Address(error) => error.text(),
            CanBootstrapError::Transport(error) => error.text(),
        }
    }

    /// The wording of this error.
    pub fn message(&self) -> (message: String)
        ensures
            message@ == self.text(),
    {
        match self {
            CanBootstrapError::Address(error) => error.message(),
            CanBootstrapError::Transport(error) => error.message(),
        }
    }

    /// The wording of what caused this error, if anything did.
    pub fn source(&self) -> (source: Option<String>)
        ensures
            match *self {
                CanBootstrapError::Transport(CanTransportError::Io(failure)) => source == Some(
                    failure.message,
                ),
                _ => source is None,
            },
    {
        match self {
            CanBootstrapError::Address(_) => None,
            CanBootstrapError::Transport(error) => error.source(),
        }
    }
}

/// What kind of failure a serial port reports.
#[derive(Clone, Debug, PartialEq, Eq)]
pub enum SerialErrorKind {
    /// The device is not available.
    NoDevice,
    /// A parameter was incorrect.
    InvalidInput,
    /// The failure is of no known kind.
    Unknown,
    /// An input or output operation failed, with the system's name for its kind.
    Io(String),
}

impl SerialErrorKind {
    /// The diagnostic form of this kind.
    pub open spec fn diagnostic(self) -> Seq<char> {
        match self {
            SerialErrorKind::NoDevice => "NoDevice"@,
            SerialErrorKind::InvalidInput => "InvalidInput"@,
            SerialErrorKind::Unknown => "Unknown"@,
            SerialErrorKind::Io(kind) => "Io("@ + kind@ + ")"@,
        }
    }

    /// The diagnostic form of this kind.
    pub fn describe(&self) -> (description: String)
        ensures
            description@ == self.diagnostic(),
    {
        match self {
            SerialErrorKind::NoDevice => "NoDevice".to_owned(),
            SerialErrorKind::InvalidInput => "InvalidInput".to_owned(),
            SerialErrorKind::Unknown => "Unknown".to_owned(),
            SerialErrorKind::Io(kind) => {
                let mut description: String = "Io(".to_owned();
                description.append(kind.as_str());
                description.append(")");
                description
            },
        }
    }
}

/// A serial port that could not be opened.
#[derive(Clone, Debug, PartialEq, Eq)]
pub struct SerialOpenError {
    /// The kind of the failure.
    pub kind: SerialErrorKind,
    /// The serial port's wording of the failure.
    pub description: String,
}

impl SerialOpenError {
    /// The diagnostic form of this error.
    pub open spec fn diagnostic(self) -> Seq<char> {
        "Error { kind: "@ + self.kind.diagnostic() + text::field(
            ", description: "@,
            self.description@,
        ) + " }"@
    }

    /// The diagnostic form of this error.
    pub fn describe(&self) -> (description: String)
        ensures
            description@ == self.diagnostic(),
    {
        let mut description: String = "Error { kind: ".to_owned();
        description.append(self.kind.describe().as_str());
        text::append_field(&mut description, ", description: ", self.description.as_str());
        description.append(" }");
        assert(description@ =~= self.diagnostic());
        description
    }
}

/// A failure while creating a ready serial Katapult backend.
#[derive(Clone, Debug, PartialEq, Eq)]
pub enum SerialBootstrapError {
    /// The running USB device did not re-enumerate as Katapult.
    Bootloader(UsbBootloaderError),
    /// The observed bootloader is unsupported or cannot be used safely.
    Selection(UsbBootloaderSelectionError),
    /// A supported but non-Katapult bootloader appeared at the selected topology.
    UnexpectedBootloader(SelectedUsbBootloader),
    /// The detected Katapult serial device could not be opened.
    Open(SerialOpenError),
}

impl SerialBootstrapError {
    /// The diagnostic form of this error.
    pub open spec fn diagnostic(self) -> Seq<char> {
        match self {
            SerialBootstrapError::Bootloader(error) => "Bootloader("@ + error.diagnostic() + ")"@,
            SerialBootstrapError::Selection(error) => "Selection("@ + error.diagnostic() + ")"@,
            SerialBootstrapError::UnexpectedBootloader(selected) => "UnexpectedBootloader("@
                + selected.text() + ")"@,
            SerialBootstrapError::Open(error) => "Open("@ + error.diagnostic() + ")"@,
        }
    }

    /// The diagnostic form of this error.
    pub fn describe(&self) -> (description: String)
        ensures
            description@ == self.diagnostic(),
    {
        let mut description: String = String::new();
        match self {
            SerialBootstrapError::Bootloader(error) => {
                description.append("Bootloader(");
                description.append(error.describe().as_str());
            },
            SerialBootstrapError::Selection(error) => {
                description.append("Selection(");
                description.append(error.describe().as_str());
            },
            SerialBootstrapError::UnexpectedBootloader(selected) => {
                description.append("UnexpectedBootloader(");
                description.append(selected.describe().as_str());
            },
            SerialBootstrapError::Open(error) => {
                description.append("Open(");
                description.append(error.describe().as_str());
            },
        }
        description.append(")");
        assert(description@ =~= self.diagnostic());
        description
    }

    /// The wording of this error.
    pub open spec fn text(self) -> Seq<char> {
        match self {
            SerialBootstrapError::Bootloader(error) =>
            "running USB device did not re-enumerate as Katapult: "@ + error.text(),
            SerialBootstrapError::Selection(error) =>
            "observed bootloader is unsupported or cannot be used safely: "@ + error.text(),
            SerialBootstrapError::UnexpectedBootloader(selected) =>
            "expected a Katapult bootloader, found "@ + selected.text()
                + " at the selected topology"@,
            SerialBootstrapError::Open(error) => error.description@,
        }
    }

    /// The wording of this error.
    pub fn message(&self) -> (message: String)
        ensures
            message@ == self.text(),
    {
        match self {
            SerialBootstrapError::Bootloader(error) => {
                let mut message: String =
                    "running USB device did not re-enumerate as Katapult: ".to_owned();
                message.append(error.message().as_str());
                message
            },
            SerialBootstrapError::Selection(error) => {
                let mut message: String =
                    "observed bootloader is unsupported or cannot be used safely: ".to_owned();
                message.append(error.message().as_str());
                message
            },
            SerialBootstrapError::UnexpectedBootloader(selected) => {
                let mut message: String = "expected a Katapult bootloader, found ".to_owned();
                message.append(selected.describe().as_str());
                message.append(" at the selected topology");
                message
            },
            SerialBootstrapError::Open(error) => error.description.clone(),
        }
    }
}

/// The serial device of a selected bootloader, which must be Katapult.
pub fn katapult_serial_device(
    selected: Result<SelectedUsbBootloader, UsbBootloaderSelectionError>,
) -> (device: Result<String, SerialBootstrapError>)
    ensures
        device == serial_device_of(selected),
{
    match selected {
        Ok(SelectedUsbBootloader::Katapult { serial_device, .. }) => Ok(serial_device),
        Ok(bootloader) => Err(SerialBootstrapError::UnexpectedBootloader(bootloader)),
        Err(error) => Err(SerialBootstrapError::Selection(error)),
    }
}

/// A CAN target that has been asked to enter Katapult but is not yet connected.
///
/// The caller is responsible for waiting for the bootloader to start before
/// calling [`Self::connect`]. This prevents a timing assumption from being
/// hidden inside the transport factory.
pub struct CanKatapultBootstrap<T: CanIo> {
    transport: KatapultCanTransport<T>,
    uuid: u64,
}

impl<T: CanIo> CanKatapultBootstrap<T> {
    /// The underlying transport.
    pub closed spec fn link(&self) -> KatapultCanTransport<T> {
        self.transport
    }

    /// The configured UUID.
    pub closed spec fn id(&self) -> u64 {
        self.uuid
    }

    /// Returns the transport without assigning Katapult's temporary node ID.
    pub fn into_transport(self) -> (transport: KatapultCanTransport<T>)
        ensures
            transport == self.link(),
    {
        self.transport
    }

    /// Assigns Katapult's temporary node ID and returns a ready flashing backend.
    pub fn connect(self) -> (result: Result<
        KatapultAdapter<KatapultCanTransport<T>>,
        CanBootstrapError<T::Error>,
    >)
        ensures
            match result {
                Ok(adapter) => {
                    &&& adapter.expected_uuid() == Some(self.id())
                    &&& adapter.link().node() == self.link().node()
                    &&& can::wrote_one(
                        self.link().line().log(),
                        adapter.link().line().log(),
                        can::assignment_content(self.link().node().id()),
                        Ok(()),
                    )
                },
                Err(error) => error is Transport && exists|line: T|
                    #[trigger] can::wrote_one(
                        self.link().line().log(),
                        line.log(),
                        can::assignment_content(self.link().node().id()),
                        Err(error->Transport_0),
                    ),
            },
    {
        let mut transport: KatapultCanTransport<T> = self.transport;
        match transport.assign_node() {
            Ok(done) => {
                assert(done == ());
                Ok(KatapultAdapter::for_canbus(transport, self.uuid))
            },
            Err(error) => {
                assert(can::wrote_one(
                    self.link().line().log(),
                    transport.line().log(),
                    can::assignment_content(self.link().node().id()),
                    Err(error),
                ));
                Err(CanBootstrapError::Transport(error))
            },
        }
    }
}

/// Requests bootloader entry for a configured CAN UUID without assigning a node.
pub fn request_can_bootloader<T: CanIo>(io: T, uuid: u64) -> (result: Result<
    CanKatapultBootstrap<T>,
    CanBootstrapError<T::Error>,
>)
    ensures
        match result {
            Ok(bootstrap) => {
                &&& uuid <= 0xffff_ffff_ffff
                &&& bootstrap.id() == uuid
                &&& bootstrap.link().node().id() == uuid
                &&& can::wrote_one(
                    io.log(),
                    bootstrap.link().line().log(),
                    can::entry_content(uuid),
                    Ok(()),
                )
            },
            Err(CanBootstrapError::Address(error)) => uuid > 0xffff_ffff_ffff && error == (
            CanError::UuidOutOfRange { uuid }),
            Err(CanBootstrapError::Transport(error)) => uuid <= 0xffff_ffff_ffff && exists|line: T|
                #[trigger] can::wrote_one(
                    io.log(),
                    line.log(),
                    can::entry_content(uuid),
                    Err(error),
                ),
        },
{
    let address: KatapultCanAddress = match KatapultCanAddress::new(uuid) {
        Ok(address) => address,
        Err(error) => {
            return Err(CanBootstrapError::Address(error));
        },
    };
    let mut transport: KatapultCanTransport<T> = KatapultCanTransport::new(io, address);
    match transport.request_bootloader_entry() {
        Ok(done) => {
            assert(done == ());
            Ok(CanKatapultBootstrap { transport, uuid })
        },
        Err(error) => {
            assert(can::wrote_one(
                io.log(),
                transport.line().log(),
                can::entry_content(uuid),
                Err(error),
            ));
            Err(CanBootstrapError::Transport(error))
        },
    }
}

/// The serial device of a selected Katapult bootloader.
pub open spec fn serial_device_of(
    selected: Result<SelectedUsbBootloader, UsbBootloaderSelectionError>,
) -> Result<String, SerialBootstrapError> {
    match selected {
        Ok(SelectedUsbBootloader::Katapult { sysfs_path, serial_device }) => Ok(serial_device),
        Ok(other) => Err(SerialBootstrapError::UnexpectedBootloader(other)),
        Err(error) => Err(SerialBootstrapError::Selection(error)),
    }
}

/// Only a Katapult bootloader is spoken to, at its own serial device. Any other bootloader, and a
/// selection that failed, is handed back as the error.
pub proof fn law_only_katapult_is_spoken_to(
    selected: Result<SelectedUsbBootloader, UsbBootloaderSelectionError>,
)
    ensures
        ({
            let device = serial_device_of(selected);
            &&& device is Ok <==> selected is Ok && selected->Ok_0 is Katapult
            &&& device is Ok ==> device->Ok_0 == selected->Ok_0->Katapult_serial_device
            &&& selected is Err ==> device->Err_0 == SerialBootstrapError::Selection(
                selected->Err_0,
            )
            &&& selected is Ok && !(selected->Ok_0 is Katapult) ==> device->Err_0
                == SerialBootstrapError::UnexpectedBootloader(selected->Ok_0)
        }),
{
}

} // verus!
