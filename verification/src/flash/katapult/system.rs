//! Settings and failures of an explicitly approved Katapult flash.
use vstd::prelude::*;

use crate::failure::IoFailure;
use crate::flash::katapult::adapter::KatapultFlashError;
use crate::flash::katapult::bootstrap::{CanBootstrapError, SerialBootstrapError};
use crate::flash::katapult::endpoint;
use crate::flash::katapult::endpoint::{endpoint_for, EndpointError, KatapultEndpoint};
use crate::flash::FlashResult;
use crate::moonraker::McuTransport;
use crate::prepare::PreparedBuild;
use crate::text;

verus! {

/// Timing and baud settings for a native Katapult flash. Times are in milliseconds.
#[derive(Clone, Copy, Debug, PartialEq, Eq, Structural)]
pub struct SystemKatapultOptions {
    /// Katapult serial baud rate.
    pub baud_rate: u32,
    /// Maximum time to wait for USB Katapult re-enumeration.
    pub bootloader_timeout_ms: u64,
    /// Poll interval while watching USB topology.
    pub poll_interval_ms: u64,
    /// Per-attempt serial or SocketCAN response timeout.
    ///
    /// Katapult's own `flashtool.py` waits up to 5s per `SEND_BLOCK` attempt
    /// because a block write can trigger a flash sector erase; since aldis
    /// doesn't vary the timeout per command, it must be at least that long
    /// for every command, not just the fast ones like `CONNECT`.
    pub read_timeout_ms: u64,
    /// Delay between a CAN reboot request and temporary-node assignment.
    pub can_bootloader_settle_ms: u64,
}

impl SystemKatapultOptions {
    /// The settings that updates and flashes use.
    pub fn standard() -> (options: Self)
        ensures
            options == (SystemKatapultOptions {
                baud_rate: 250_000,
                bootloader_timeout_ms: 10_000,
                poll_interval_ms: 50,
                read_timeout_ms: 5_000,
                can_bootloader_settle_ms: 100,
            }),
    {
        SystemKatapultOptions {
            baud_rate: 250_000,
            bootloader_timeout_ms: 10_000,
            poll_interval_ms: 50,
            read_timeout_ms: 5_000,
            can_bootloader_settle_ms: 100,
        }
    }
}

/// A failure while selecting, bootstrapping, or flashing Katapult on Linux.
#[derive(Clone, Debug, PartialEq, Eq)]
pub enum SystemKatapultError {
    /// The prepared target has no supported transport.
    Endpoint(EndpointError),
    /// Serial bootloader transition failed.
    Serial(SerialBootstrapError),
    /// SocketCAN could not be opened.
    CanSocket(IoFailure),
    /// CAN bootstrap transition failed.
    Can(CanBootstrapError<IoFailure>),
    /// Katapult rejected or could not verify the transfer.
    Flash(KatapultFlashError),
}

/// How far a Katapult flash has come; each stage asks for one operation.
#[derive(Debug, PartialEq, Eq)]
pub enum KatapultRun {
    /// The bootloader is to be entered and opened at the device of the running application.
    EnterSerial {
        /// The configured serial device.
        running_device: String,
    },
    /// The CAN interface is to be opened.
    OpenCan {
        /// The configured interface.
        interface: String,
        /// The configured UUID.
        uuid: u64,
    },
    /// The CAN node is to be asked into its bootloader.
    RequestCan {
        /// The configured UUID.
        uuid: u64,
    },
    /// After a pause, the CAN node is to be given its temporary number.
    ConnectCan,
    /// The firmware is to be transferred.
    Transfer,
    /// Nothing is left to do.
    Finished(Result<FlashResult, SystemKatapultError>),
}

/// The outcome of a pending operation.
#[derive(Debug, PartialEq, Eq)]
pub enum KatapultEvent {
    /// The operation succeeded.
    Done,
    /// Entering or opening the serial bootloader failed.
    SerialFailed(SerialBootstrapError),
    /// The CAN interface could not be opened.
    CanSocketFailed(IoFailure),
    /// The CAN transition failed.
    CanFailed(CanBootstrapError<IoFailure>),
    /// The transfer ended.
    Transferred(Result<FlashResult, KatapultFlashError>),
}

impl KatapultRun {
    /// Begins a flash of one prepared target after the caller has stopped Klipper.
    pub fn flash_system(prepared: &PreparedBuild) -> (run: Self)
        ensures
            run == begun(*prepared),
    {
        match endpoint_for(prepared) {
            Ok(KatapultEndpoint::Serial { running_device }) => KatapultRun::EnterSerial {
                running_device,
            },
            Ok(KatapultEndpoint::Can { interface, uuid }) => KatapultRun::OpenCan {
                interface,
                uuid,
            },
            Err(error) => KatapultRun::Finished(Err(SystemKatapultError::Endpoint(error))),
        }
    }

    /// How the flash goes on after the pending operation's outcome. An outcome that does not answer
    /// the pending operation changes nothing.
    pub open spec fn after(self, event: KatapultEvent) -> Self {
        match (self, event) {
            (KatapultRun::EnterSerial { .. }, KatapultEvent::Done) => KatapultRun::Transfer,
            (KatapultRun::EnterSerial { .. }, KatapultEvent::SerialFailed(error)) =>
            KatapultRun::Finished(Err(SystemKatapultError::Serial(error))),
            (KatapultRun::OpenCan { interface, uuid }, KatapultEvent::Done) =>
            KatapultRun::RequestCan { uuid },
            (KatapultRun::OpenCan { .. }, KatapultEvent::CanSocketFailed(failure)) =>
            KatapultRun::Finished(Err(SystemKatapultError::CanSocket(failure))),
            (KatapultRun::RequestCan { .. }, KatapultEvent::Done) => KatapultRun::ConnectCan,
            (KatapultRun::RequestCan { .. }, KatapultEvent::CanFailed(error)) =>
            KatapultRun::Finished(Err(SystemKatapultError::Can(error))),
            (KatapultRun::ConnectCan, KatapultEvent::Done) => KatapultRun::Transfer,
            (KatapultRun::ConnectCan, KatapultEvent::CanFailed(error)) => KatapultRun::Finished(
                Err(SystemKatapultError::Can(error)),
            ),
            (KatapultRun::Transfer, KatapultEvent::Transferred(Ok(result))) =>
            KatapultRun::Finished(Ok(result)),
            (KatapultRun::Transfer, KatapultEvent::Transferred(Err(error))) =>
            KatapultRun::Finished(Err(SystemKatapultError::Flash(error))),
            _ => self,
        }
    }

    /// Takes the pending operation's outcome.
    pub fn step(self, event: KatapultEvent) -> (next: Self)
        ensures
            next == self.after(event),
    {
        match (self, event) {
            (KatapultRun::EnterSerial { .. }, KatapultEvent::Done) => KatapultRun::Transfer,
            (KatapultRun::EnterSerial { .. }, KatapultEvent::SerialFailed(error)) =>
            KatapultRun::Finished(Err(SystemKatapultError::Serial(error))),
            (KatapultRun::OpenCan { uuid, .. }, KatapultEvent::Done) => KatapultRun::RequestCan {
                uuid,
            },
            (KatapultRun::OpenCan { .. }, KatapultEvent::CanSocketFailed(failure)) =>
            KatapultRun::Finished(Err(SystemKatapultError::CanSocket(failure))),
            (KatapultRun::RequestCan { .. }, KatapultEvent::Done) => KatapultRun::ConnectCan,
            (KatapultRun::RequestCan { .. }, KatapultEvent::CanFailed(error)) =>
            KatapultRun::Finished(Err(SystemKatapultError::Can(error))),
            (KatapultRun::ConnectCan, KatapultEvent::Done) => KatapultRun::Transfer,
            (KatapultRun::ConnectCan, KatapultEvent::CanFailed(error)) => KatapultRun::Finished(
                Err(SystemKatapultError::Can(error)),
            ),
            (KatapultRun::Transfer, KatapultEvent::Transferred(Ok(result))) =>
            KatapultRun::Finished(Ok(result)),
            (KatapultRun::Transfer, KatapultEvent::Transferred(Err(error))) =>
            KatapultRun::Finished(Err(SystemKatapultError::Flash(error))),
            (run, _) => run,
        }
    }
}

impl SystemKatapultError {
    /// The wording of this error.
    pub open spec fn text(self) -> Seq<char> {
        match self {
            SystemKatapultError::Endpoint(EndpointError::MissingTransport { target_name }) =>
            "no supported Katapult transport: MissingTransport { target_name: "@ + text::quoted(
                target_name@,
            ) + " }"@,
            SystemKatapultError::Serial(error) => "serial bootloader transition failed: "@
                + error.diagnostic(),
            SystemKatapultError::CanSocket(failure) => "could not open SocketCAN interface: "@
                + failure.message@,
            SystemKatapultError::Can(error) => "CAN bootstrap transition failed: "@ + error.text(),
            SystemKatapultError::Flash(error) => "Katapult flash failed: "@ + error.text(),
        }
    }

    /// The wording of this error.
    pub fn message(&self) -> (message: String)
        ensures
            message@ == self.text(),
    {
        match self {
            SystemKatapultError::Endpoint(EndpointError::MissingTransport { target_name }) => {
                let mut message: String =
                    "no supported Katapult transport: MissingTransport { target_name: ".to_owned();
                message.append(text::quote(target_name.as_str()).as_str());
                message.append(" }");
                message
            },
            SystemKatapultError::Serial(error) => {
                let mut message: String = "serial bootloader transition failed: ".to_owned();
                message.append(error.describe().as_str());
                message
            },
            SystemKatapultError::CanSocket(failure) => {
                let mut message: String = "could not open SocketCAN interface: ".to_owned();
                message.append(failure.message.as_str());
                message
            },
            SystemKatapultError::Can(error) => {
                let mut message: String = "CAN bootstrap transition failed: ".to_owned();
                message.append(error.message().as_str());
                message
            },
            SystemKatapultError::Flash(error) => {
                let mut message: String = "Katapult flash failed: ".to_owned();
                message.append(error.message().as_str());
                message
            },
        }
    }
}

/// How the flash of a prepared build begins.
pub open spec fn begun(prepared: PreparedBuild) -> KatapultRun {
    match endpoint::endpoint_of(prepared) {
        Ok(KatapultEndpoint::Serial { running_device }) => KatapultRun::EnterSerial {
            running_device,
        },
        Ok(KatapultEndpoint::Can { interface, uuid }) => KatapultRun::OpenCan { interface, uuid },
        Err(error) => KatapultRun::Finished(Err(SystemKatapultError::Endpoint(error))),
    }
}

/// A flash begins over the transport that the MCU was discovered with, at its own device, or on
/// its own interface with its own UUID. Without a transport it ends at once.
pub proof fn law_flash_begins_over_the_discovered_transport(prepared: PreparedBuild)
    ensures
        prepared.transport matches Some(McuTransport::Serial { device }) ==> begun(prepared) == (
        KatapultRun::EnterSerial { running_device: device }),
        prepared.transport matches Some(McuTransport::Can { interface, uuid }) ==> begun(prepared)
            == (KatapultRun::OpenCan { interface, uuid }),
        prepared.transport is None ==> begun(prepared) is Finished && begun(
            prepared,
        )->Finished_0 is Err,
{
}

/// A serial MCU that entered its bootloader is written; a CAN node is asked to enter its own, by
/// its UUID, and connected before it is written. The flash ends as the transfer did.
pub proof fn law_flash_goes_through_every_stage(
    device: String,
    interface: String,
    uuid: u64,
    transferred: Result<FlashResult, KatapultFlashError>,
)
    ensures
        ({
            let serial = KatapultRun::EnterSerial { running_device: device };
            let can = KatapultRun::OpenCan { interface, uuid };
            let requested = can.after(KatapultEvent::Done);
            let connecting = requested.after(KatapultEvent::Done);
            let done = KatapultRun::Transfer.after(KatapultEvent::Transferred(transferred));
            &&& serial.after(KatapultEvent::Done) == KatapultRun::Transfer
            &&& requested == (KatapultRun::RequestCan { uuid })
            &&& connecting == KatapultRun::ConnectCan
            &&& connecting.after(KatapultEvent::Done) == KatapultRun::Transfer
            &&& done is Finished
            &&& match transferred {
                Ok(result) => done->Finished_0 == Ok::<FlashResult, SystemKatapultError>(result),
                Err(error) => done->Finished_0 == Err::<FlashResult, SystemKatapultError>(
                    SystemKatapultError::Flash(error),
                ),
            }
        }),
{
}

/// A stage that fails ends the flash with its own error, so that nothing is written; an ended
/// flash stays as it ended; and only the transfer ends a flash with success.
pub proof fn law_failed_stage_ends_the_flash(run: KatapultRun, event: KatapultEvent)
    ensures
        run is EnterSerial && event is SerialFailed ==> run.after(event) == KatapultRun::Finished(
            Err(SystemKatapultError::Serial(event->SerialFailed_0)),
        ),
        run is OpenCan && event is CanSocketFailed ==> run.after(event) == KatapultRun::Finished(
            Err(SystemKatapultError::CanSocket(event->CanSocketFailed_0)),
        ),
        (run is RequestCan || run is ConnectCan) && event is CanFailed ==> run.after(event)
            == KatapultRun::Finished(Err(SystemKatapultError::Can(event->CanFailed_0))),
        run is Finished ==> run.after(event) == run,
        !(run is Finished) && run.after(event) is Finished && run.after(event)->Finished_0 is Ok
            ==> run is Transfer && event is Transferred,
        !(run is Transfer) && run.after(event) is Transfer ==> event is Done && (run is EnterSerial
            || run is ConnectCan),
{
}

} // verus!
