//! Topology-scoped native flashing dispatch for prepared MCU updates.
use vstd::prelude::*;

use crate::builder::{CommandCall, CommandPort};
use crate::bytes;
use crate::failure::IoFailure;
use crate::flash::katapult::adapter::KatapultFlashError;
use crate::flash::katapult::bootstrap::CanBootstrapError;
use crate::flash::katapult::serial::UsbBootloaderError;
use crate::flash::katapult::session::SessionError;
use crate::flash::katapult::system::SystemKatapultOptions;
use crate::flash::katapult::Command;
use crate::flash::linux_host;
use crate::flash::linux_host::{HostArchitecture, LinuxHostError};
use crate::flash::picoboot::PicoBootError;
use crate::flash::stm32_dfu;
use crate::flash::stm32_dfu::{
    ApplicationProbeResult,
    Stm32DfuError,
    Stm32DfuTarget,
};
use crate::flash::usb_bootloader;
use crate::flash::usb_bootloader::{
    select_usb_bootloader,
    ObservedUsbBootloader,
    SelectedUsbBootloader,
    UsbBootloaderKind,
    UsbBootloaderSelectionError,
};
use crate::flash::usb_sysfs::{UsbIdentity, UsbTopologySnapshot};
use crate::flash::FlashResult;
use crate::kconfig;
use crate::moonraker;
use crate::moonraker::McuTransport;
use crate::prepare::PreparedBuild;
use crate::progress::{ProgressPort, UpdateProgress};
use crate::text;

verus! {

/// A selected USB transfer route bound to the observed USB topology.
#[derive(Clone, Debug, PartialEq, Eq)]
pub enum SerialFlashRoute {
    /// Katapult's serial bootloader device.
    Katapult {
        /// The serial device at the observed topology.
        serial_device: String,
    },
    /// STM32 ROM DFU and its Kconfig-derived application target.
    Stm32Dfu {
        /// USB topology retained across re-enumeration.
        sysfs_path: String,
        /// Application placement derived from the prepared Kconfig.
        target: Stm32DfuTarget,
    },
    /// RP2040/RP2350 PicoBoot at one USB topology.
    PicoBoot {
        /// USB topology retained across re-enumeration.
        sysfs_path: String,
    },
}

/// Settings for topology-scoped native flashing backends.
#[derive(Debug, PartialEq, Eq)]
pub struct SystemFlashOptions {
    /// Timing and baud settings for Katapult.
    pub katapult: SystemKatapultOptions,
    /// The systemd unit of the Linux host MCU.
    pub host_mcu_unit_file: String,
    /// The kind of machine that the host is.
    pub host: HostArchitecture,
}

impl Clone for SystemFlashOptions {
    fn clone(&self) -> (copy: Self)
        ensures
            copy == *self,
    {
        SystemFlashOptions {
            katapult: self.katapult,
            host_mcu_unit_file: self.host_mcu_unit_file.clone(),
            host: self.host,
        }
    }
}

/// A visible phase of a native bootloader transfer.
#[derive(Clone, Copy, Debug, PartialEq, Eq, Structural)]
pub enum SystemFlashProgress {
    /// The running firmware is being asked to enter its bootloader.
    EnteringBootloader,
    /// The expected bootloader has re-enumerated at the selected topology.
    BootloaderReady,
    /// The firmware transfer is beginning.
    Flashing,
    /// The Linux host MCU binary is being installed.
    Installing,
}

impl SystemFlashProgress {
    /// The update phase that this phase is shown as.
    pub open spec fn shown(self) -> UpdateProgress {
        match self {
            SystemFlashProgress::EnteringBootloader => UpdateProgress::EnteringBootloader,
            SystemFlashProgress::BootloaderReady => UpdateProgress::BootloaderReady,
            SystemFlashProgress::Flashing => UpdateProgress::StartingFlash,
            SystemFlashProgress::Installing => UpdateProgress::Installing,
        }
    }

    /// The update phase that this phase is shown as.
    pub fn update_phase(self) -> (phase: UpdateProgress)
        ensures
            phase == self.shown(),
    {
        match self {
            SystemFlashProgress::EnteringBootloader => UpdateProgress::EnteringBootloader,
            SystemFlashProgress::BootloaderReady => UpdateProgress::BootloaderReady,
            SystemFlashProgress::Flashing => UpdateProgress::StartingFlash,
            SystemFlashProgress::Installing => UpdateProgress::Installing,
        }
    }
}

/// A selected update cannot be dispatched to a native backend.
#[derive(Debug, PartialEq, Eq)]
pub enum SystemFlashError {
    /// The prepared target did not retain a configured transport.
    MissingTransport,
    /// USB bootloader entry or topology observation failed.
    Bootloader(UsbBootloaderError),
    /// The re-enumerated USB device was not accessible before the timeout.
    UsbAccess(IoFailure),
    /// The observed USB identity has no safe native backend.
    Selection(UsbBootloaderSelectionError),
    /// The observed STM32 route has no valid application address.
    Stm32Target(Stm32DfuError),
    /// The firmware file is linked for another address than the application that it would replace.
    Stm32OffsetMismatch {
        /// The address that the file's vector table points into.
        file: u32,
        /// The address of the application in flash, where there is exactly one.
        device: Option<u32>,
    },
    /// The Katapult USB serial device could not be opened.
    KatapultOpen(IoFailure),
    /// Katapult rejected or could not verify its USB serial transfer.
    KatapultFlash(KatapultFlashError),
    /// STM32 ROM DfuSe flashing failed.
    Stm32Dfu(Stm32DfuError),
    /// PicoBoot flashing failed.
    PicoBoot(PicoBootError),
    /// The CAN socket could not be opened.
    CanSocket(IoFailure),
    /// A USB-CAN bridge could not be related to its USB topology.
    CanUsbTopology(IoFailure),
    /// Katapult CAN bootloader entry or node assignment failed.
    Can(CanBootstrapError<IoFailure>),
    /// Katapult rejected or could not verify its CAN transfer.
    CanFlash(KatapultFlashError),
    /// The Linux host MCU could not be installed.
    LinuxHost(LinuxHostError),
}

impl SystemFlashError {
    /// The wording of this error.
    pub open spec fn text(self) -> Seq<char> {
        match self {
            SystemFlashError::CanFlash(
                KatapultFlashError::Session(SessionError::RetriesExhausted { command, .. }),
            ) if command == Command::Connect =>
            "the CAN bootloader did not respond to a connection request"@,
            SystemFlashError::CanFlash(_) =>
            "the CAN bootloader rejected or could not verify the firmware transfer"@,
            SystemFlashError::Can(_) => "could not enter the bootloader over CAN"@,
            SystemFlashError::CanSocket(error) =>
            "could not open the configured CAN interface: "@ + error.message@,
            SystemFlashError::CanUsbTopology(error) => "could not identify the USB CAN adapter: "@
                + error.message@,
            SystemFlashError::Bootloader(_) =>
            "the expected USB bootloader did not appear before the timeout"@,
            SystemFlashError::UsbAccess(error) => "the USB bootloader was not accessible: "@
                + error.message@,
            SystemFlashError::KatapultOpen(error) => "could not open the Katapult bootloader: "@
                + error.message@,
            SystemFlashError::KatapultFlash(_) =>
            "the Katapult bootloader rejected or could not verify the firmware transfer"@,
            SystemFlashError::Stm32Dfu(_) => "STM32 DFU flashing failed"@,
            SystemFlashError::PicoBoot(_) => "RP PicoBoot flashing failed"@,
            SystemFlashError::Stm32Target(_) =>
            "the STM32 firmware configuration has no valid flash address"@,
            SystemFlashError::Stm32OffsetMismatch { file, device } => {
                let message = "the firmware file is built for flash address 0x"@
                    + text::hexadecimal(file as nat);
                match device {
                    Some(device) => message + ", but the device runs its application at 0x"@
                        + text::hexadecimal(device as nat),
                    None => message + ", where the device has no application"@,
                }
            },
            SystemFlashError::Selection(_) =>
            "the re-enumerated bootloader is not supported for automatic flashing"@,
            SystemFlashError::MissingTransport => "the MCU does not expose a configured transport"@,
            SystemFlashError::LinuxHost(error) => error.text(),
        }
    }

    /// The wording of this error.
    pub fn message(&self) -> (message: String)
        ensures
            message@ == self.text(),
    {
        match self {
            SystemFlashError::CanFlash(
                KatapultFlashError::Session(SessionError::RetriesExhausted { command, .. }),
            ) if *command == Command::Connect =>
            "the CAN bootloader did not respond to a connection request".to_owned(),
            SystemFlashError::CanFlash(_) =>
            "the CAN bootloader rejected or could not verify the firmware transfer".to_owned(),
            SystemFlashError::Can(_) => "could not enter the bootloader over CAN".to_owned(),
            SystemFlashError::CanSocket(error) => with_detail(
                "could not open the configured CAN interface: ",
                error,
            ),
            SystemFlashError::CanUsbTopology(error) => with_detail(
                "could not identify the USB CAN adapter: ",
                error,
            ),
            SystemFlashError::Bootloader(_) =>
            "the expected USB bootloader did not appear before the timeout".to_owned(),
            SystemFlashError::UsbAccess(error) => with_detail(
                "the USB bootloader was not accessible: ",
                error,
            ),
            SystemFlashError::KatapultOpen(error) => with_detail(
                "could not open the Katapult bootloader: ",
                error,
            ),
            SystemFlashError::KatapultFlash(_) =>
            "the Katapult bootloader rejected or could not verify the firmware transfer".to_owned(),
            SystemFlashError::Stm32Dfu(_) => "STM32 DFU flashing failed".to_owned(),
            SystemFlashError::PicoBoot(_) => "RP PicoBoot flashing failed".to_owned(),
            SystemFlashError::Stm32Target(_) =>
            "the STM32 firmware configuration has no valid flash address".to_owned(),
            SystemFlashError::Stm32OffsetMismatch { file, device } => {
                let mut message: String =
                    "the firmware file is built for flash address 0x".to_owned();
                message.append(text::hexadecimal_text(*file as u64).as_str());
                match device {
                    Some(device) => {
                        message.append(", but the device runs its application at 0x");
                        message.append(text::hexadecimal_text(*device as u64).as_str());
                    },
                    None => {
                        message.append(", where the device has no application");
                    },
                }
                message
            },
            SystemFlashError::Selection(_) =>
            "the re-enumerated bootloader is not supported for automatic flashing".to_owned(),
            SystemFlashError::MissingTransport =>
            "the MCU does not expose a configured transport".to_owned(),
            SystemFlashError::LinuxHost(error) => error.message(),
        }
    }
}

fn with_detail(head: &str, failure: &IoFailure) -> (message: String)
    ensures
        message@ == head@ + failure.message@,
{
    let mut message: String = head.to_owned();
    message.append(failure.message.as_str());
    message
}

/// Whether `route` is the one native USB route of an observed bootloader, or why there is none.
pub open spec fn routes(
    observed: ObservedUsbBootloader,
    config: Seq<char>,
    snapshot: UsbTopologySnapshot,
    route: Result<SerialFlashRoute, SystemFlashError>,
) -> bool {
    match observed.spec_kind() {
        Some(UsbBootloaderKind::Katapult) => match observed.serial_device {
            Some(serial_device) => route == Ok::<SerialFlashRoute, SystemFlashError>(
                (SerialFlashRoute::Katapult { serial_device }),
            ),
            None => route == Err::<SerialFlashRoute, SystemFlashError>(
                SystemFlashError::Selection(
                    UsbBootloaderSelectionError::KatapultSerialDeviceMissing(observed.sysfs_path),
                ),
            ),
        },
        Some(UsbBootloaderKind::Stm32Dfu) => {
            let selected = stm32_dfu::selected_starts(
                config,
                stm32_dfu::FLASH_START_COUNT as int,
            );
            if selected.len() == 1 {
                route == Ok::<SerialFlashRoute, SystemFlashError>(
                    (SerialFlashRoute::Stm32Dfu {
                        sysfs_path: observed.sysfs_path,
                        target: Stm32DfuTarget {
                            application_start: stm32_dfu::candidate_address(selected[0]),
                        },
                    }),
                )
            } else {
                route == Err::<SerialFlashRoute, SystemFlashError>(
                    SystemFlashError::Stm32Target(Stm32DfuError::InvalidFlashStartConfiguration),
                )
            }
        },
        Some(UsbBootloaderKind::PicoBoot) => route == Ok::<SerialFlashRoute, SystemFlashError>(
            (SerialFlashRoute::PicoBoot { sysfs_path: observed.sysfs_path }),
        ),
        None => {
            &&& route is Err
            &&& route->Err_0 is Selection
            &&& route->Err_0->Selection_0 is Unsupported
            &&& {
                let identity = *route->Err_0->Selection_0->Unsupported_0;
                &&& identity.usb_id == observed.usb_id
                &&& identity.manufacturer == observed.manufacturer
                &&& identity.product@ == usb_bootloader::non_empty(snapshot.product@, "unknown"@)
                &&& identity.serial@ == usb_bootloader::non_empty(snapshot.serial@, "none"@)
                &&& identity.device_class == snapshot.device_class
                &&& identity.device_subclass == snapshot.device_subclass
                &&& identity.device_protocol == snapshot.device_protocol
                &&& identity.sysfs_path == observed.sysfs_path
            }
        },
    }
}

/// Derives exactly one native USB route from one observed bootloader.
pub fn serial_route(
    observed: ObservedUsbBootloader,
    config: &str,
    snapshot: &UsbTopologySnapshot,
) -> (route: Result<SerialFlashRoute, SystemFlashError>)
    ensures
        routes(observed, config@, *snapshot, route),
{
    match select_usb_bootloader(observed, snapshot) {
        Ok(SelectedUsbBootloader::Katapult { serial_device, .. }) => Ok(
            SerialFlashRoute::Katapult { serial_device },
        ),
        Ok(SelectedUsbBootloader::Stm32Dfu { sysfs_path }) => {
            match stm32_dfu::target_from_kconfig(config) {
                Ok(target) => Ok(SerialFlashRoute::Stm32Dfu { sysfs_path, target }),
                Err(error) => Err(SystemFlashError::Stm32Target(error)),
            }
        },
        Ok(SelectedUsbBootloader::PicoBoot { sysfs_path }) => Ok(
            SerialFlashRoute::PicoBoot { sysfs_path },
        ),
        Err(error) => Err(SystemFlashError::Selection(error)),
    }
}

/// Whether a line, without surrounding white space, selects a machine.
pub open spec fn selects_machine(line: Seq<char>) -> bool {
    "CONFIG_MACH_"@.is_prefix_of(text::trimmed(line)) && "=y"@.is_suffix_of(text::trimmed(line))
}

/// The first line from index `i` on that selects a machine; empty where there is none.
pub open spec fn machine_from(lines: Seq<Seq<char>>, i: int) -> Seq<char>
    decreases lines.len() - i,
{
    if i < 0 || i >= lines.len() {
        Seq::empty()
    } else if selects_machine(lines[i]) {
        text::trimmed(lines[i])
    } else {
        machine_from(lines, i + 1)
    }
}

/// The selected machine symbol in an embedded Kconfig, for diagnostics.
pub fn kconfig_machine(config: &str) -> (machine: String)
    ensures
        machine@ == machine_from(text::text_lines(config@), 0),
{
    let lines: Vec<String> = text::lines(config);
    let ghost view = text::text_lines(config@);
    let mut i: usize = 0;
    assert(lines@.len() == view.len());
    while i < lines.len()
        invariant
            i <= lines@.len(),
            lines@.len() == view.len(),
            view == text::texts(lines@),
            view == text::text_lines(config@),
            machine_from(view, 0) == machine_from(view, i as int),
        decreases lines@.len() - i,
    {
        assert(view[i as int] == lines@[i as int]@);
        let line: &str = text::trim(lines[i].as_str());
        if text::starts_with(line, "CONFIG_MACH_") && text::ends_with(line, "=y") {
            return line.to_owned();
        }
        i += 1;
    }
    let none: String = String::new();
    assert(none@ =~= Seq::<char>::empty());
    none
}

/// Whether a line, without surrounding white space, enables a flash start.
pub open spec fn enables_flash_start(line: Seq<char>) -> bool {
    text::contains_text(text::trimmed(line), "_FLASH_START_"@) && "=y"@.is_suffix_of(
        text::trimmed(line),
    )
}

/// The flash-start symbols among the first `count` lines, in order.
pub open spec fn flash_start_symbols(lines: Seq<Seq<char>>, count: int) -> Seq<Seq<char>>
    decreases count,
{
    if count <= 0 {
        Seq::empty()
    } else {
        let before = flash_start_symbols(lines, count - 1);
        if enables_flash_start(lines[count - 1]) {
            before.push(text::trimmed(lines[count - 1]))
        } else {
            before
        }
    }
}

/// Every enabled flash-start symbol in an embedded Kconfig, for diagnostics.
pub fn kconfig_flash_start_symbols(config: &str) -> (symbols: Vec<String>)
    ensures
        text::texts(symbols@) == flash_start_symbols(
            text::text_lines(config@),
            text::text_lines(config@).len() as int,
        ),
{
    let lines: Vec<String> = text::lines(config);
    let ghost view = text::text_lines(config@);
    let mut symbols: Vec<String> = Vec::new();
    let mut i: usize = 0;
    assert(lines@.len() == view.len());
    assert(text::texts(symbols@) =~= flash_start_symbols(view, 0));
    while i < lines.len()
        invariant
            i <= lines@.len(),
            lines@.len() == view.len(),
            view == text::texts(lines@),
            view == text::text_lines(config@),
            text::texts(symbols@) == flash_start_symbols(view, i as int),
        decreases lines@.len() - i,
    {
        assert(view[i as int] == lines@[i as int]@);
        let line: &str = text::trim(lines[i].as_str());
        let ghost before = text::texts(symbols@);
        if text::contains(line, "_FLASH_START_") && text::ends_with(line, "=y") {
            symbols.push(line.to_owned());
            assert(text::texts(symbols@) =~= before.push(line@));
        }
        i += 1;
    }
    symbols
}

/// Whether an MCU's Kconfig makes it a USB CAN bridge.
pub fn usb_can_bridge(config: &str) -> (bridge: bool)
    ensures
        bridge == kconfig::has_entry(config@, "CONFIG_USBCANBUS=y"@),
{
    kconfig::contains_entry(config, "CONFIG_USBCANBUS=y")
}

/// The device node of a bus and device number as sysfs spells them; none where one is no number.
pub open spec fn device_node(busnum: Seq<char>, devnum: Seq<char>) -> Option<Seq<char>> {
    match (
        text::parsed_unsigned(text::trimmed(busnum), 10, u16::MAX as nat),
        text::parsed_unsigned(text::trimmed(devnum), 10, u16::MAX as nat),
    ) {
        (Some(bus), Some(device)) => Some(
            "/dev/bus/usb/"@ + text::padded_start(text::decimal(bus), 3, '0') + "/"@
                + text::padded_start(text::decimal(device), 3, '0'),
        ),
        _ => None,
    }
}

/// The device node of a bus and device number as sysfs spells them; none where one is no number.
pub fn usb_device_node(busnum: &str, devnum: &str) -> (node: Option<String>)
    ensures
        match node {
            Some(node) => device_node(busnum@, devnum@) == Some(node@),
            None => device_node(busnum@, devnum@) is None,
        },
{
    let bus: u64 = match text::parse_unsigned(text::trim(busnum), 10, u16::MAX as u64) {
        Some(bus) => bus,
        None => {
            return None;
        },
    };
    let device: u64 = match text::parse_unsigned(text::trim(devnum), 10, u16::MAX as u64) {
        Some(device) => device,
        None => {
            return None;
        },
    };
    let bus_digits: String = text::decimal_text(bus);
    let device_digits: String = text::decimal_text(device);
    let mut node: String = "/dev/bus/usb/".to_owned();
    node.append(text::pad_start(bus_digits.as_str(), 3, '0').as_str());
    node.append("/");
    node.append(text::pad_start(device_digits.as_str(), 3, '0').as_str());
    Some(node)
}

/// How long a re-enumerated USB device may take to become accessible, in nanoseconds.
pub const USB_ACCESS_TIMEOUT_NANOS: u128 = 5_000_000_000;

/// How long a wait for a USB device pauses between two attempts, in nanoseconds.
pub const USB_ACCESS_POLL_NANOS: u128 = 50_000_000;

/// The failure of a wait for a USB device that did not become accessible.
pub fn device_access_failure(device_node: &str, failure: &IoFailure) -> (reported: IoFailure)
    ensures
        reported.message@ == device_node@ + " was not readable and writable within 5s: "@
            + failure.message@,
{
    let mut message: String = device_node.to_owned();
    message.append(" was not readable and writable within 5s: ");
    message.append(failure.message.as_str());
    IoFailure { message }
}

/// The failure of a search for the USB device of a CAN interface.
pub fn missing_can_usb(interface: &str) -> (failure: IoFailure)
    ensures
        failure.message@ == "could not find a USB device for CAN interface "@ + text::quoted(
            interface@,
        ),
{
    let mut message: String = "could not find a USB device for CAN interface ".to_owned();
    message.append(text::quote(interface).as_str());
    IoFailure { message }
}

/// Context for diagnosing an unsupported bootloader identity. Attached only
/// to the debug log; it never affects backend selection.
#[derive(Clone, Debug, PartialEq, Eq)]
pub struct UnsupportedBootloaderContext {
    /// The MCU transport that was asked to enter its bootloader.
    pub transport: String,
    /// Milliseconds between the reset request and the final observation.
    pub reset_elapsed: Option<u64>,
}

impl UnsupportedBootloaderContext {
    /// The context of an MCU that was reached over CAN.
    pub fn over_can(interface: &str, uuid: u64, reset_elapsed: Option<u64>) -> (context: Self)
        ensures
            context.transport@ == "CAN "@ + interface@ + " (uuid "@ + text::padded_start(
                text::hexadecimal(uuid as nat),
                16,
                '0',
            ) + ")"@,
            context.reset_elapsed == reset_elapsed,
    {
        let mut transport: String = "CAN ".to_owned();
        transport.append(interface);
        transport.append(" (uuid ");
        transport.append(
            text::pad_start(text::hexadecimal_text(uuid).as_str(), 16, '0').as_str(),
        );
        transport.append(")");
        UnsupportedBootloaderContext { transport, reset_elapsed }
    }
}

/// A USB bootloader that must become accessible before its transfer.
#[derive(Debug, PartialEq, Eq)]
pub enum UsbRoute {
    /// STM32 ROM DFU.
    Stm32Dfu {
        /// USB topology retained across re-enumeration.
        sysfs_path: String,
        /// Application placement.
        target: Stm32DfuTarget,
    },
    /// RP2040/RP2350 PicoBoot.
    PicoBoot {
        /// USB topology retained across re-enumeration.
        sysfs_path: String,
    },
}

/// The USB device that a CAN interface runs through.
#[derive(Debug, PartialEq, Eq)]
pub struct CanBridge {
    /// USB topology of the device.
    pub usb_path: String,
    /// Its identity before the bootloader is entered.
    pub identity: UsbIdentity,
}

/// How far a flash has come; each stage asks for one operation.
#[derive(Debug, PartialEq, Eq)]
pub enum FlashStage {
    /// The Linux host MCU's systemd unit is to be looked for.
    CheckHostUnit,
    /// Bootloader entry is to be requested at a serial device, and the bootloader awaited.
    ObserveSerial {
        /// The serial device of the running application.
        device: String,
    },
    /// The USB device of a CAN interface is to be found.
    FindCanUsb {
        /// The CAN interface.
        interface: String,
        /// The configured UUID.
        uuid: u64,
    },
    /// The CAN interface is to be opened and bootloader entry requested.
    RequestCan {
        /// The CAN interface.
        interface: String,
        /// The configured UUID.
        uuid: u64,
        /// The USB device of the interface, where the MCU is the bridge itself.
        bridge: Option<CanBridge>,
    },
    /// The bootloader that replaces the bridge's USB device is to be awaited.
    ObserveBridge {
        /// The bridge before its bootloader was entered.
        bridge: CanBridge,
    },
    /// After a pause, the CAN node is to be given its temporary number.
    ConnectCan,
    /// The firmware is to be transferred over CAN.
    FlashCan,
    /// The Katapult serial device is to be opened and the firmware transferred.
    FlashKatapult {
        /// Katapult's serial device.
        serial_device: String,
    },
    /// The USB device is to become accessible.
    WaitAccess {
        /// Where the transfer goes.
        route: UsbRoute,
    },
    /// The application in flash is to be looked for.
    ProbeDfu {
        /// USB topology of the device.
        sysfs_path: String,
        /// Where the firmware file goes.
        target: Stm32DfuTarget,
    },
    /// The device is to be sent back into its application.
    LeaveDfu {
        /// USB topology of the device.
        sysfs_path: String,
        /// Where its application is.
        device: u32,
        /// Where the firmware file would go.
        file: u32,
    },
    /// The firmware is to be transferred through ROM DFU.
    FlashDfu {
        /// USB topology of the device.
        sysfs_path: String,
        /// Where the firmware goes.
        target: Stm32DfuTarget,
    },
    /// The firmware is to be transferred through PicoBoot.
    FlashPico {
        /// USB topology of the device.
        sysfs_path: String,
    },
    /// Nothing is left to do.
    Finished(Result<FlashResult, SystemFlashError>),
}

/// What is flashed, and how.
#[derive(Debug, PartialEq, Eq)]
pub struct FlashJob {
    /// The Kconfig of the target.
    pub kconfig: String,
    /// The firmware.
    pub firmware: Vec<u8>,
    /// The settings of the backends.
    pub options: SystemFlashOptions,
    /// For a firmware file rather than a fresh build: whether a mismatch of flash addresses is
    /// overridden.
    pub file: Option<bool>,
}

/// One flash under way.
#[derive(Debug, PartialEq, Eq)]
pub struct SystemFlashRun {
    /// What is flashed.
    pub job: FlashJob,
    /// How far the flash has come.
    pub stage: FlashStage,
}

/// The outcome of a pending operation.
#[derive(Debug, PartialEq, Eq)]
pub enum FlashEvent {
    /// Whether the systemd unit is there.
    UnitFile(bool),
    /// A bootloader appeared, with the descriptors of its topology.
    Observed { observed: ObservedUsbBootloader, snapshot: UsbTopologySnapshot },
    /// No bootloader appeared.
    ObserveFailed(UsbBootloaderError),
    /// The USB device of the CAN interface.
    CanUsb(CanBridge),
    /// The USB device of the CAN interface could not be found.
    CanUsbFailed(IoFailure),
    /// The CAN interface could not be opened.
    CanSocketFailed(IoFailure),
    /// Bootloader entry was requested over CAN.
    CanRequested,
    /// The CAN node has its temporary number.
    CanConnected,
    /// Bootloader entry or node assignment failed.
    CanFailed(CanBootstrapError<IoFailure>),
    /// The Katapult serial device could not be opened.
    OpenFailed(IoFailure),
    /// The Katapult transfer ended.
    Katapult(Result<FlashResult, KatapultFlashError>),
    /// The USB device is accessible.
    Accessible,
    /// The USB device did not become accessible.
    AccessFailed(IoFailure),
    /// The application in flash was looked for.
    Probed(Result<ApplicationProbeResult, Stm32DfuError>),
    /// The device was sent back into its application, or could not be.
    Left(Result<(), Stm32DfuError>),
    /// The DFU transfer ended.
    Dfu(Result<FlashResult, Stm32DfuError>),
    /// The PicoBoot transfer ended.
    Pico(Result<FlashResult, PicoBootError>),
}

/// Whether an image's own vector table is plausible and `start` is the greatest flash start that is
/// not above its reset handler.
pub open spec fn starts_at(firmware: Seq<u8>, start: u32) -> bool {
    let reset = bytes::le_value(firmware.subrange(4, 8)) as int;
    &&& firmware.len() >= 8
    &&& stm32_dfu::plausible_bytes(firmware.subrange(0, 8))
    &&& start <= reset
    &&& exists|i: int|
        0 <= i < stm32_dfu::FLASH_START_COUNT && start == #[trigger] stm32_dfu::candidate_address(i)
    &&& forall|i: int|
        0 <= i < stm32_dfu::FLASH_START_COUNT && #[trigger] stm32_dfu::candidate_address(i) <= reset
            ==> stm32_dfu::candidate_address(i) <= start
}

/// Derives where an STM32 image goes from its own vector table.
pub fn image_start(firmware: &[u8]) -> (start: Option<u32>)
    ensures
        match start {
            Some(start) => starts_at(firmware@, start),
            None => firmware@.len() < 8 || !stm32_dfu::plausible_bytes(firmware@.subrange(0, 8)),
        },
{
    if firmware.len() < 8 {
        return None;
    }
    let table: Vec<u8> = bytes::copy_range(firmware, 0, 8);
    if !stm32_dfu::is_plausible(table.as_slice()) {
        return None;
    }
    let reset: u32 = bytes::le_u32_at(firmware, 4);
    proof {
        assert(table@.subrange(4, 8) =~= firmware@.subrange(4, 8));
        assert(stm32_dfu::candidate_address(13) == stm32_dfu::FLASH_START);
    }
    let mut start: u32 = stm32_dfu::FLASH_START;
    let mut i: usize = 0;
    while i < stm32_dfu::FLASH_START_COUNT
        invariant
            i <= stm32_dfu::FLASH_START_COUNT,
            start <= reset,
            exists|k: int|
                0 <= k < stm32_dfu::FLASH_START_COUNT && start
                    == #[trigger] stm32_dfu::candidate_address(k),
            forall|k: int|
                0 <= k < i && #[trigger] stm32_dfu::candidate_address(k) <= reset
                    ==> stm32_dfu::candidate_address(k) <= start,
        decreases stm32_dfu::FLASH_START_COUNT - i,
    {
        let candidate: u32 = stm32_dfu::candidate(i);
        if candidate <= reset && candidate > start {
            start = candidate;
        }
        i += 1;
    }
    Some(start)
}

impl SystemFlashRun {
    /// This flash at another stage.
    pub open spec fn at(self, stage: FlashStage) -> Self {
        SystemFlashRun { stage, ..self }
    }

    /// This flash, ended with an error.
    pub open spec fn failed(self, error: SystemFlashError) -> Self {
        self.at(FlashStage::Finished(Err(error)))
    }
}

/// How a flash of a prepared target begins: the Linux host MCU is installed; any other MCU needs a
/// transport, whose bootloader is entered. Gives the first stage and the phase that it reports.
pub open spec fn first_stage(config: Seq<char>, transport: Option<McuTransport>) -> Result<
    (FlashStage, UpdateProgress),
    SystemFlashError,
> {
    if kconfig::has_entry(config, "CONFIG_MACH_LINUX=y"@) {
        Ok((FlashStage::CheckHostUnit, UpdateProgress::Installing))
    } else {
        match transport {
            None => Err(SystemFlashError::MissingTransport),
            Some(McuTransport::Serial { device }) => Ok(
                (FlashStage::ObserveSerial { device }, UpdateProgress::EnteringBootloader),
            ),
            Some(McuTransport::Can { interface, uuid }) => Ok(
                (
                    if kconfig::has_entry(config, "CONFIG_USBCANBUS=y"@) {
                        FlashStage::FindCanUsb { interface, uuid }
                    } else {
                        FlashStage::RequestCan { interface, uuid, bridge: None }
                    },
                    UpdateProgress::EnteringBootloader,
                ),
            ),
        }
    }
}

/// Begins to flash one prepared artifact while reporting native bootloader phases.
pub fn flash_prepared_system_with_progress<P: ProgressPort>(
    prepared: &PreparedBuild,
    firmware: Vec<u8>,
    options: SystemFlashOptions,
    file: Option<bool>,
    progress: &mut P,
) -> (run: Result<SystemFlashRun, SystemFlashError>)
    ensures
        match run {
            Ok(run) => {
                &&& run.job.kconfig == prepared.request.kconfig
                &&& run.job.firmware == firmware
                &&& run.job.options == options
                &&& run.job.file == file
                &&& first_stage(prepared.request.kconfig@, prepared.transport) is Ok
                &&& run.stage == first_stage(
                    prepared.request.kconfig@,
                    prepared.transport,
                )->Ok_0.0
                &&& final(progress).reported() == old(progress).reported().push(
                    first_stage(prepared.request.kconfig@, prepared.transport)->Ok_0.1,
                )
            },
            Err(error) => first_stage(prepared.request.kconfig@, prepared.transport) == Err::<
                (FlashStage, UpdateProgress),
                SystemFlashError,
            >(error) && final(progress).reported() == old(progress).reported(),
        },
{
    let config: &str = prepared.request.kconfig.as_str();
    let stage: FlashStage = if linux_host::is_linux_host(config) {
        progress.report(SystemFlashProgress::Installing.update_phase());
        FlashStage::CheckHostUnit
    } else {
        match moonraker::copy_transport(&prepared.transport) {
            None => {
                return Err(SystemFlashError::MissingTransport);
            },
            Some(McuTransport::Serial { device }) => {
                progress.report(SystemFlashProgress::EnteringBootloader.update_phase());
                FlashStage::ObserveSerial { device }
            },
            Some(McuTransport::Can { interface, uuid }) => {
                progress.report(SystemFlashProgress::EnteringBootloader.update_phase());
                if usb_can_bridge(config) {
                    FlashStage::FindCanUsb { interface, uuid }
                } else {
                    FlashStage::RequestCan { interface, uuid, bridge: None }
                }
            },
        }
    };
    Ok(
        SystemFlashRun {
            job: FlashJob { kconfig: prepared.request.kconfig.clone(), firmware, options, file },
            stage,
        },
    )
}

/// Whether a flash goes on to `next` with the bootloader that was observed, and what it reports. A
/// firmware file for STM32 DFU goes where its own vector table says; everything else goes where
/// the bootloader's identity and the Kconfig say.
pub open spec fn dispatches(
    run: SystemFlashRun,
    observed: ObservedUsbBootloader,
    snapshot: UsbTopologySnapshot,
    next: SystemFlashRun,
    reported: Seq<UpdateProgress>,
) -> bool {
    let ready = seq![UpdateProgress::BootloaderReady];
    if run.job.file is Some && observed.spec_kind() == Some(UsbBootloaderKind::Stm32Dfu) {
        &&& reported == ready
        &&& if run.job.firmware@.len() >= 8 && stm32_dfu::plausible_bytes(
            run.job.firmware@.subrange(0, 8),
        ) {
            &&& next.stage is WaitAccess
            &&& next.stage->route is Stm32Dfu
            &&& starts_at(run.job.firmware@, next.stage->route->target.application_start)
            &&& next == run.at(
                FlashStage::WaitAccess {
                    route: UsbRoute::Stm32Dfu {
                        sysfs_path: observed.sysfs_path,
                        target: next.stage->route->target,
                    },
                },
            )
        } else {
            next == run.failed(
                SystemFlashError::Stm32Target(Stm32DfuError::InvalidFlashStartConfiguration),
            )
        }
    } else {
        exists|route: Result<SerialFlashRoute, SystemFlashError>|
            {
                &&& #[trigger] routes(observed, run.job.kconfig@, snapshot, route)
                &&& match route {
                    Err(error) => next == run.failed(error) && reported == ready,
                    Ok(SerialFlashRoute::Katapult { serial_device }) => next == run.at(
                        FlashStage::FlashKatapult { serial_device },
                    ) && reported == ready.push(UpdateProgress::StartingFlash),
                    Ok(SerialFlashRoute::Stm32Dfu { sysfs_path, target }) => next == run.at(
                        FlashStage::WaitAccess { route: UsbRoute::Stm32Dfu { sysfs_path, target } },
                    ) && reported == ready,
                    Ok(SerialFlashRoute::PicoBoot { sysfs_path }) => next == run.at(
                        FlashStage::WaitAccess { route: UsbRoute::PicoBoot { sysfs_path } },
                    ) && reported == ready,
                }
            }
    }
}

/// What becomes of a firmware file after the application in flash was looked for: one that would
/// go elsewhere than the application it replaces is refused unless that is overridden, and the
/// device is sent back into its application.
pub open spec fn cross_checked(
    run: SystemFlashRun,
    sysfs_path: String,
    target: Stm32DfuTarget,
    probed: Result<ApplicationProbeResult, Stm32DfuError>,
) -> (SystemFlashRun, Seq<UpdateProgress>) {
    let file = target.application_start;
    let forced = run.job.file == Some(true);
    let flash = (
        run.at(FlashStage::FlashDfu { sysfs_path, target }),
        seq![UpdateProgress::StartingFlash],
    );
    match probed {
        Ok(ApplicationProbeResult::Found(device)) => if device == file || forced {
            flash
        } else {
            (run.at(FlashStage::LeaveDfu { sysfs_path, device, file }), Seq::empty())
        },
        Ok(ApplicationProbeResult::NotFound) => flash,
        Ok(ApplicationProbeResult::Ambiguous(list)) => if list@.contains(file) || forced {
            flash
        } else {
            (
                run.failed(SystemFlashError::Stm32OffsetMismatch { file, device: None }),
                Seq::empty(),
            )
        },
        Err(error) => if forced {
            flash
        } else {
            (run.failed(SystemFlashError::Stm32Dfu(error)), Seq::empty())
        },
    }
}

/// How a flash goes on after an outcome that neither runs commands nor chooses a route. An outcome
/// that does not answer the pending operation changes nothing.
pub open spec fn plain_step(run: SystemFlashRun, event: FlashEvent) -> (
    SystemFlashRun,
    Seq<UpdateProgress>,
) {
    let quiet = Seq::<UpdateProgress>::empty();
    match (run.stage, event) {
        (FlashStage::ObserveSerial { .. }, FlashEvent::ObserveFailed(error)) => (
            run.failed(SystemFlashError::Bootloader(error)),
            quiet,
        ),
        (FlashStage::ObserveBridge { .. }, FlashEvent::ObserveFailed(error)) => (
            run.failed(SystemFlashError::Bootloader(error)),
            quiet,
        ),
        (FlashStage::FindCanUsb { interface, uuid }, FlashEvent::CanUsb(bridge)) => (
            run.at(FlashStage::RequestCan { interface, uuid, bridge: Some(bridge) }),
            quiet,
        ),
        (FlashStage::FindCanUsb { .. }, FlashEvent::CanUsbFailed(failure)) => (
            run.failed(SystemFlashError::CanUsbTopology(failure)),
            quiet,
        ),
        (FlashStage::RequestCan { .. }, FlashEvent::CanSocketFailed(failure)) => (
            run.failed(SystemFlashError::CanSocket(failure)),
            quiet,
        ),
        (FlashStage::RequestCan { .. }, FlashEvent::CanFailed(error)) => (
            run.failed(SystemFlashError::Can(error)),
            quiet,
        ),
        (FlashStage::RequestCan { interface, uuid, bridge }, FlashEvent::CanRequested) => (
            match bridge {
                Some(bridge) => run.at(FlashStage::ObserveBridge { bridge }),
                None => run.at(FlashStage::ConnectCan),
            },
            quiet,
        ),
        (FlashStage::ConnectCan, FlashEvent::CanFailed(error)) => (
            run.failed(SystemFlashError::Can(error)),
            quiet,
        ),
        (FlashStage::ConnectCan, FlashEvent::CanConnected) => (
            run.at(FlashStage::FlashCan),
            seq![UpdateProgress::BootloaderReady, UpdateProgress::StartingFlash],
        ),
        (FlashStage::FlashCan, FlashEvent::Katapult(Ok(result))) => (
            run.at(FlashStage::Finished(Ok(result))),
            quiet,
        ),
        (FlashStage::FlashCan, FlashEvent::Katapult(Err(error))) => (
            run.failed(SystemFlashError::CanFlash(error)),
            quiet,
        ),
        (FlashStage::FlashKatapult { .. }, FlashEvent::OpenFailed(failure)) => (
            run.failed(SystemFlashError::KatapultOpen(failure)),
            quiet,
        ),
        (FlashStage::FlashKatapult { .. }, FlashEvent::Katapult(Ok(result))) => (
            run.at(FlashStage::Finished(Ok(result))),
            quiet,
        ),
        (FlashStage::FlashKatapult { .. }, FlashEvent::Katapult(Err(error))) => (
            run.failed(SystemFlashError::KatapultFlash(error)),
            quiet,
        ),
        (FlashStage::WaitAccess { .. }, FlashEvent::AccessFailed(failure)) => (
            run.failed(SystemFlashError::UsbAccess(failure)),
            quiet,
        ),
        (FlashStage::WaitAccess { route }, FlashEvent::Accessible) => match route {
            UsbRoute::Stm32Dfu { sysfs_path, target } => if run.job.file is Some {
                (run.at(FlashStage::ProbeDfu { sysfs_path, target }), quiet)
            } else {
                (
                    run.at(FlashStage::FlashDfu { sysfs_path, target }),
                    seq![UpdateProgress::StartingFlash],
                )
            },
            UsbRoute::PicoBoot { sysfs_path } => (
                run.at(FlashStage::FlashPico { sysfs_path }),
                seq![UpdateProgress::StartingFlash],
            ),
        },
        (FlashStage::ProbeDfu { sysfs_path, target }, FlashEvent::Probed(probed)) => cross_checked(
            run,
            sysfs_path,
            target,
            probed,
        ),
        (FlashStage::LeaveDfu { sysfs_path, device, file }, FlashEvent::Left(_)) => (
            run.failed(SystemFlashError::Stm32OffsetMismatch { file, device: Some(device) }),
            quiet,
        ),
        (FlashStage::FlashDfu { .. }, FlashEvent::Dfu(Ok(result))) => (
            run.at(FlashStage::Finished(Ok(result))),
            quiet,
        ),
        (FlashStage::FlashDfu { .. }, FlashEvent::Dfu(Err(error))) => (
            run.failed(SystemFlashError::Stm32Dfu(error)),
            quiet,
        ),
        (FlashStage::FlashPico { .. }, FlashEvent::Pico(Ok(result))) => (
            run.at(FlashStage::Finished(Ok(result))),
            quiet,
        ),
        (FlashStage::FlashPico { .. }, FlashEvent::Pico(Err(error))) => (
            run.failed(SystemFlashError::PicoBoot(error)),
            quiet,
        ),
        _ => (run, quiet),
    }
}

/// Whether a flash goes from `run` to `next` on `event`, with the phases that it reports and the
/// commands that it runs; only an install of the host MCU runs any.
pub open spec fn flash_step(
    run: SystemFlashRun,
    event: FlashEvent,
    next: SystemFlashRun,
    reported: Seq<UpdateProgress>,
    before: Seq<CommandCall>,
    after: Seq<CommandCall>,
) -> bool {
    match (run.stage, event) {
        (FlashStage::CheckHostUnit, FlashEvent::UnitFile(exists)) => {
            &&& reported == Seq::<UpdateProgress>::empty()
            &&& next.stage is Finished
            &&& next == run.at(next.stage)
            &&& exists|result: Result<FlashResult, LinuxHostError>|
                {
                    &&& #[trigger] linux_host::installs(
                        before,
                        after,
                        run.job.firmware@,
                        run.job.options.host,
                        run.job.options.host_mcu_unit_file,
                        exists,
                        result,
                    )
                    &&& next.stage->Finished_0 == match result {
                        Ok(done) => Ok::<FlashResult, SystemFlashError>(done),
                        Err(error) => Err(SystemFlashError::LinuxHost(error)),
                    }
                }
        },
        (FlashStage::ObserveSerial { .. }, FlashEvent::Observed { observed, snapshot }) => after
            == before && dispatches(run, observed, snapshot, next, reported),
        (FlashStage::ObserveBridge { .. }, FlashEvent::Observed { observed, snapshot }) => after
            == before && dispatches(run, observed, snapshot, next, reported),
        _ => after == before && (next, reported) == plain_step(run, event),
    }
}

/// The phases that `after` holds beyond `before`.
pub open spec fn newly_reported(
    before: Seq<UpdateProgress>,
    after: Seq<UpdateProgress>,
) -> Seq<UpdateProgress> {
    after.skip(before.len() as int)
}

fn contains_address(list: &Vec<u32>, address: u32) -> (found: bool)
    ensures
        found == list@.contains(address),
{
    let mut i: usize = 0;
    while i < list.len()
        invariant
            i <= list@.len(),
            forall|k: int| 0 <= k < i ==> list@[k] != address,
        decreases list@.len() - i,
    {
        if list[i] == address {
            assert(list@[i as int] == address);
            return true;
        }
        i += 1;
    }
    false
}

impl SystemFlashRun {
    /// Goes on with the bootloader that was observed.
    fn flash_observed_usb<P: ProgressPort>(
        self,
        observed: ObservedUsbBootloader,
        snapshot: &UsbTopologySnapshot,
        progress: &mut P,
    ) -> (next: Self)
        ensures
            old(progress).reported().is_prefix_of(final(progress).reported()),
            dispatches(
                self,
                observed,
                *snapshot,
                next,
                newly_reported(old(progress).reported(), final(progress).reported()),
            ),
    {
        let ghost before = progress.reported();
        let ghost observed_view = observed;
        progress.report(SystemFlashProgress::BootloaderReady.update_phase());
        proof {
            assert(newly_reported(before, progress.reported()) =~= seq![
                UpdateProgress::BootloaderReady,
            ]);
        }
        let SystemFlashRun { job, stage: _ } = self;
        let stm32: bool = match observed.kind() {
            Some(UsbBootloaderKind::Stm32Dfu) => true,
            _ => false,
        };
        if job.file.is_some() && stm32 {
            let stage: FlashStage = match image_start(job.firmware.as_slice()) {
                Some(application_start) => FlashStage::WaitAccess {
                    route: UsbRoute::Stm32Dfu {
                        sysfs_path: observed.sysfs_path,
                        target: Stm32DfuTarget { application_start },
                    },
                },
                None => FlashStage::Finished(
                    Err(
                        SystemFlashError::Stm32Target(
                            Stm32DfuError::InvalidFlashStartConfiguration,
                        ),
                    ),
                ),
            };
            return SystemFlashRun { job, stage };
        }
        let route: Result<SerialFlashRoute, SystemFlashError> = serial_route(
            observed,
            job.kconfig.as_str(),
            snapshot,
        );
        let ghost selected = route;
        let stage: FlashStage = match route {
            Err(error) => FlashStage::Finished(Err(error)),
            Ok(SerialFlashRoute::Katapult { serial_device }) => {
                progress.report(SystemFlashProgress::Flashing.update_phase());
                FlashStage::FlashKatapult { serial_device }
            },
            Ok(SerialFlashRoute::Stm32Dfu { sysfs_path, target }) => FlashStage::WaitAccess {
                route: UsbRoute::Stm32Dfu { sysfs_path, target },
            },
            Ok(SerialFlashRoute::PicoBoot { sysfs_path }) => FlashStage::WaitAccess {
                route: UsbRoute::PicoBoot { sysfs_path },
            },
        };
        proof {
            assert(routes(observed_view, job.kconfig@, *snapshot, selected));
            if selected is Ok && selected->Ok_0 is Katapult {
                assert(newly_reported(before, progress.reported()) =~= seq![
                    UpdateProgress::BootloaderReady,
                ].push(UpdateProgress::StartingFlash));
            }
        }
        SystemFlashRun { job, stage }
    }

    /// Decides on a firmware file after the application in flash was looked for.
    fn cross_check<P: ProgressPort>(
        job: FlashJob,
        sysfs_path: String,
        target: Stm32DfuTarget,
        probed: Result<ApplicationProbeResult, Stm32DfuError>,
        progress: &mut P,
    ) -> (next: Self)
        ensures
            old(progress).reported().is_prefix_of(final(progress).reported()),
            forall|stage: FlashStage|
                (
                next,
                newly_reported(old(progress).reported(), final(progress).reported()),
                ) == #[trigger] cross_checked(
                    (SystemFlashRun { job, stage }),
                    sysfs_path,
                    target,
                    probed,
                ),
    {
        let ghost before = progress.reported();
        let file: u32 = target.application_start;
        let forced: bool = match job.file {
            Some(force) => force,
            None => false,
        };
        let refused: Option<FlashStage> = match probed {
            Ok(ApplicationProbeResult::Found(device)) => if device == file || forced {
                None
            } else {
                Some(FlashStage::LeaveDfu { sysfs_path: sysfs_path.clone(), device, file })
            },
            Ok(ApplicationProbeResult::NotFound) => None,
            Ok(ApplicationProbeResult::Ambiguous(list)) => if contains_address(&list, file)
                || forced {
                None
            } else {
                Some(
                    FlashStage::Finished(
                        Err(SystemFlashError::Stm32OffsetMismatch { file, device: None }),
                    ),
                )
            },
            Err(error) => if forced {
                None
            } else {
                Some(FlashStage::Finished(Err(SystemFlashError::Stm32Dfu(error))))
            },
        };
        match refused {
            Some(stage) => {
                assert(newly_reported(before, progress.reported()) =~= Seq::empty());
                SystemFlashRun { job, stage }
            },
            None => {
                progress.report(SystemFlashProgress::Flashing.update_phase());
                assert(newly_reported(before, progress.reported()) =~= seq![
                    UpdateProgress::StartingFlash,
                ]);
                SystemFlashRun { job, stage: FlashStage::FlashDfu { sysfs_path, target } }
            },
        }
    }

    /// Goes on with the outcome of the pending operation. An outcome that does not answer it
    /// changes nothing.
    pub fn step<R: CommandPort, P: ProgressPort>(
        self,
        event: FlashEvent,
        runner: &mut R,
        progress: &mut P,
    ) -> (next: Self)
        ensures
            old(progress).reported().is_prefix_of(final(progress).reported()),
            flash_step(
                self,
                event,
                next,
                newly_reported(old(progress).reported(), final(progress).reported()),
                old(runner).history(),
                final(runner).history(),
            ),
    {
        let ghost run = self;
        let ghost before = progress.reported();
        proof {
            assert(newly_reported(before, before) =~= Seq::empty());
        }
        let SystemFlashRun { job, stage } = self;
        let next: FlashStage = match (stage, event) {
            (FlashStage::CheckHostUnit, FlashEvent::UnitFile(exists)) => {
                match linux_host::install_with(
                    runner,
                    job.firmware.as_slice(),
                    job.options.host,
                    &job.options.host_mcu_unit_file,
                    exists,
                ) {
                    Ok(result) => FlashStage::Finished(Ok(result)),
                    Err(error) => FlashStage::Finished(Err(SystemFlashError::LinuxHost(error))),
                }
            },
            (FlashStage::ObserveSerial { device }, FlashEvent::Observed { observed, snapshot }) => {
                return (SystemFlashRun {
                    job,
                    stage: FlashStage::ObserveSerial { device },
                }).flash_observed_usb(observed, &snapshot, progress);
            },
            (FlashStage::ObserveBridge { bridge }, FlashEvent::Observed { observed, snapshot }) => {
                return (SystemFlashRun {
                    job,
                    stage: FlashStage::ObserveBridge { bridge },
                }).flash_observed_usb(observed, &snapshot, progress);
            },
            (FlashStage::ObserveSerial { .. }, FlashEvent::ObserveFailed(error)) => {
                FlashStage::Finished(Err(SystemFlashError::Bootloader(error)))
            },
            (FlashStage::ObserveBridge { .. }, FlashEvent::ObserveFailed(error)) => {
                FlashStage::Finished(Err(SystemFlashError::Bootloader(error)))
            },
            (FlashStage::FindCanUsb { interface, uuid }, FlashEvent::CanUsb(bridge)) => {
                FlashStage::RequestCan { interface, uuid, bridge: Some(bridge) }
            },
            (FlashStage::FindCanUsb { .. }, FlashEvent::CanUsbFailed(failure)) => {
                FlashStage::Finished(Err(SystemFlashError::CanUsbTopology(failure)))
            },
            (FlashStage::RequestCan { .. }, FlashEvent::CanSocketFailed(failure)) => {
                FlashStage::Finished(Err(SystemFlashError::CanSocket(failure)))
            },
            (FlashStage::RequestCan { .. }, FlashEvent::CanFailed(error)) => {
                FlashStage::Finished(Err(SystemFlashError::Can(error)))
            },
            (FlashStage::RequestCan { bridge, .. }, FlashEvent::CanRequested) => {
                match bridge {
                    Some(bridge) => FlashStage::ObserveBridge { bridge },
                    None => FlashStage::ConnectCan,
                }
            },
            (FlashStage::ConnectCan, FlashEvent::CanFailed(error)) => {
                FlashStage::Finished(Err(SystemFlashError::Can(error)))
            },
            (FlashStage::ConnectCan, FlashEvent::CanConnected) => {
                progress.report(SystemFlashProgress::BootloaderReady.update_phase());
                progress.report(SystemFlashProgress::Flashing.update_phase());
                assert(newly_reported(before, progress.reported()) =~= seq![
                    UpdateProgress::BootloaderReady,
                    UpdateProgress::StartingFlash,
                ]);
                FlashStage::FlashCan
            },
            (FlashStage::FlashCan, FlashEvent::Katapult(Ok(result))) => {
                FlashStage::Finished(Ok(result))
            },
            (FlashStage::FlashCan, FlashEvent::Katapult(Err(error))) => {
                FlashStage::Finished(Err(SystemFlashError::CanFlash(error)))
            },
            (FlashStage::FlashKatapult { .. }, FlashEvent::OpenFailed(failure)) => {
                FlashStage::Finished(Err(SystemFlashError::KatapultOpen(failure)))
            },
            (FlashStage::FlashKatapult { .. }, FlashEvent::Katapult(Ok(result))) => {
                FlashStage::Finished(Ok(result))
            },
            (FlashStage::FlashKatapult { .. }, FlashEvent::Katapult(Err(error))) => {
                FlashStage::Finished(Err(SystemFlashError::KatapultFlash(error)))
            },
            (FlashStage::WaitAccess { .. }, FlashEvent::AccessFailed(failure)) => {
                FlashStage::Finished(Err(SystemFlashError::UsbAccess(failure)))
            },
            (FlashStage::WaitAccess { route }, FlashEvent::Accessible) => {
                if job.file.is_some() {
                    if let UsbRoute::Stm32Dfu { sysfs_path, target } = route {
                        return SystemFlashRun {
                            job,
                            stage: FlashStage::ProbeDfu { sysfs_path, target },
                        };
                    }
                }
                progress.report(SystemFlashProgress::Flashing.update_phase());
                assert(newly_reported(before, progress.reported()) =~= seq![
                    UpdateProgress::StartingFlash,
                ]);
                match route {
                    UsbRoute::Stm32Dfu { sysfs_path, target } => FlashStage::FlashDfu {
                        sysfs_path,
                        target,
                    },
                    UsbRoute::PicoBoot { sysfs_path } => FlashStage::FlashPico { sysfs_path },
                }
            },
            (FlashStage::ProbeDfu { sysfs_path, target }, FlashEvent::Probed(probed)) => {
                return Self::cross_check(job, sysfs_path, target, probed, progress);
            },
            (FlashStage::LeaveDfu { device, file, .. }, FlashEvent::Left(_)) => {
                FlashStage::Finished(
                    Err(SystemFlashError::Stm32OffsetMismatch { file, device: Some(device) }),
                )
            },
            (FlashStage::FlashDfu { .. }, FlashEvent::Dfu(Ok(result))) => {
                FlashStage::Finished(Ok(result))
            },
            (FlashStage::FlashDfu { .. }, FlashEvent::Dfu(Err(error))) => {
                FlashStage::Finished(Err(SystemFlashError::Stm32Dfu(error)))
            },
            (FlashStage::FlashPico { .. }, FlashEvent::Pico(Ok(result))) => {
                FlashStage::Finished(Ok(result))
            },
            (FlashStage::FlashPico { .. }, FlashEvent::Pico(Err(error))) => {
                FlashStage::Finished(Err(SystemFlashError::PicoBoot(error)))
            },
            (stage, _) => stage,
        };
        SystemFlashRun { job, stage: next }
    }
}

/// Whether a stage transfers firmware to a bootloader.
pub open spec fn transfers(stage: FlashStage) -> bool {
    stage is FlashCan || stage is FlashKatapult || stage is FlashDfu || stage is FlashPico
}

/// Whether a stage comes after the bootloader was reported ready.
pub open spec fn bootloader_entered(stage: FlashStage) -> bool {
    transfers(stage) || stage is WaitAccess || stage is ProbeDfu || stage is LeaveDfu
}

/// Whether the phases reported so far fit the stage of a flash: the bootloader is ready before
/// anything is transferred, and both were reported.
pub open spec fn orderly(stage: FlashStage, reported: Seq<UpdateProgress>) -> bool {
    &&& bootloader_entered(stage) ==> reported.contains(UpdateProgress::BootloaderReady)
    &&& transfers(stage) ==> reported.contains(UpdateProgress::StartingFlash)
    &&& ready_first(reported)
}

/// Whether every report of a transfer comes after a report that the bootloader is ready.
pub open spec fn ready_first(reported: Seq<UpdateProgress>) -> bool {
    forall|i: int|
        0 <= i < reported.len() && reported[i] == UpdateProgress::StartingFlash
            ==> #[trigger] reported.take(i).contains(UpdateProgress::BootloaderReady)
}

/// A flash begins with its phases in order: nothing is transferred before the bootloader is
/// entered.
pub proof fn law_flash_begins_in_order(config: Seq<char>, transport: Option<McuTransport>)
    requires
        first_stage(config, transport) is Ok,
    ensures
        orderly(
            first_stage(config, transport)->Ok_0.0,
            seq![first_stage(config, transport)->Ok_0.1],
        ),
{
}

/// What a step may report, given the stages on either side of it.
pub open spec fn reports_in_order(
    stage: FlashStage,
    next: FlashStage,
    reported: Seq<UpdateProgress>,
) -> bool {
    ||| {
        &&& reported =~= Seq::empty()
        &&& transfers(next) ==> transfers(stage)
        &&& bootloader_entered(next) ==> bootloader_entered(stage)
    }
    ||| reported =~= seq![UpdateProgress::BootloaderReady] && !transfers(next)
    ||| reported =~= seq![UpdateProgress::BootloaderReady, UpdateProgress::StartingFlash]
    ||| reported =~= seq![UpdateProgress::StartingFlash] && bootloader_entered(stage)
}

proof fn lemma_step_reports_in_order(
    run: SystemFlashRun,
    event: FlashEvent,
    next: SystemFlashRun,
    reported: Seq<UpdateProgress>,
    before: Seq<CommandCall>,
    after: Seq<CommandCall>,
)
    requires
        flash_step(run, event, next, reported, before, after),
    ensures
        reports_in_order(run.stage, next.stage, reported),
{
    match (run.stage, event) {
        (FlashStage::CheckHostUnit, FlashEvent::UnitFile(_)) => {},
        (FlashStage::ObserveSerial { .. }, FlashEvent::Observed { observed, snapshot }) => {},
        (FlashStage::ObserveBridge { .. }, FlashEvent::Observed { observed, snapshot }) => {},
        (FlashStage::ProbeDfu { sysfs_path, target }, FlashEvent::Probed(probed)) => {},
        _ => {},
    }
}

proof fn lemma_one_more_report(reported: Seq<UpdateProgress>, phase: UpdateProgress)
    requires
        ready_first(reported),
        phase == UpdateProgress::StartingFlash ==> reported.contains(
            UpdateProgress::BootloaderReady,
        ),
    ensures
        ready_first(reported.push(phase)),
        reported.push(phase).contains(phase),
        reported.contains(UpdateProgress::BootloaderReady) ==> reported.push(phase).contains(
            UpdateProgress::BootloaderReady,
        ),
{
    let all = reported.push(phase);
    assert(all[reported.len() as int] == phase);
    assert forall|i: int|
        0 <= i < all.len() && all[i]
            == UpdateProgress::StartingFlash implies #[trigger] all.take(i).contains(
        UpdateProgress::BootloaderReady,
    ) by {
        if i < reported.len() {
            assert(all.take(i) =~= reported.take(i));
        } else {
            assert(all.take(i) =~= reported);
        }
    }
    if reported.contains(UpdateProgress::BootloaderReady) {
        let k = choose|k: int|
            0 <= k < reported.len() && reported[k] == UpdateProgress::BootloaderReady;
        assert(all[k] == UpdateProgress::BootloaderReady);
    }
}

proof fn lemma_reports_keep_order(
    stage: FlashStage,
    next: FlashStage,
    earlier: Seq<UpdateProgress>,
    reported: Seq<UpdateProgress>,
)
    requires
        orderly(stage, earlier),
        reports_in_order(stage, next, reported),
    ensures
        orderly(next, earlier + reported),
{
    if reported.len() == 0 {
        assert(earlier + reported =~= earlier);
    } else {
        lemma_one_more_report(earlier, reported[0]);
        if reported.len() == 1 {
            assert(earlier + reported =~= earlier.push(reported[0]));
        } else {
            lemma_one_more_report(earlier.push(reported[0]), reported[1]);
            assert(earlier + reported =~= earlier.push(reported[0]).push(reported[1]));
        }
    }
}

/// No step puts a transfer before the report that the bootloader is ready: what begins in order
/// stays in order.
pub proof fn law_flash_stays_in_order(
    run: SystemFlashRun,
    event: FlashEvent,
    next: SystemFlashRun,
    earlier: Seq<UpdateProgress>,
    reported: Seq<UpdateProgress>,
    before: Seq<CommandCall>,
    after: Seq<CommandCall>,
)
    requires
        orderly(run.stage, earlier),
        flash_step(run, event, next, reported, before, after),
    ensures
        orderly(next.stage, earlier + reported),
{
    lemma_step_reports_in_order(run, event, next, reported, before, after);
    lemma_reports_keep_order(run.stage, next.stage, earlier, reported);
}

/// Only the install of the Linux host MCU runs commands; every other step of a flash leaves the
/// services alone.
pub proof fn law_only_a_host_install_runs_commands(
    run: SystemFlashRun,
    event: FlashEvent,
    next: SystemFlashRun,
    reported: Seq<UpdateProgress>,
    before: Seq<CommandCall>,
    after: Seq<CommandCall>,
)
    requires
        flash_step(run, event, next, reported, before, after),
        !(run.stage is CheckHostUnit),
    ensures
        after == before,
        next.job == run.job,
{
}

/// A flash that has ended stays as it is, whatever comes.
pub proof fn law_ended_flash_stays_ended(
    run: SystemFlashRun,
    event: FlashEvent,
    next: SystemFlashRun,
    reported: Seq<UpdateProgress>,
    before: Seq<CommandCall>,
    after: Seq<CommandCall>,
)
    requires
        flash_step(run, event, next, reported, before, after),
        run.stage is Finished,
    ensures
        next == run,
        reported.len() == 0,
        after == before,
{
}

/// A firmware file that is built for another address than the one application found in flash is
/// never transferred unless that is overridden: the device is sent back into its application, and
/// the flash ends with the mismatch.
pub proof fn law_mismatched_file_is_refused(
    run: SystemFlashRun,
    device: u32,
    left: Result<(), Stm32DfuError>,
    probed: SystemFlashRun,
    refused: SystemFlashRun,
    first: Seq<UpdateProgress>,
    second: Seq<UpdateProgress>,
    calls: Seq<CommandCall>,
)
    requires
        run.job.file == Some(false),
        run.stage is ProbeDfu,
        run.stage->ProbeDfu_target.application_start != device,
        flash_step(
            run,
            FlashEvent::Probed(Ok(ApplicationProbeResult::Found(device))),
            probed,
            first,
            calls,
            calls,
        ),
        flash_step(probed, FlashEvent::Left(left), refused, second, calls, calls),
    ensures
        probed.stage is LeaveDfu,
        probed.stage->LeaveDfu_sysfs_path == run.stage->ProbeDfu_sysfs_path,
        refused.stage == FlashStage::Finished(
            Err(
                SystemFlashError::Stm32OffsetMismatch {
                    file: run.stage->ProbeDfu_target.application_start,
                    device: Some(device),
                },
            ),
        ),
        (first + second).len() == 0,
{
}


/// How a flash begins follows from the target alone: the Linux host MCU is installed, any other is
/// sent into its bootloader over the transport that it has, and a CAN bridge over USB is looked for
/// on the bus first; without a transport there is nothing to do.
pub proof fn law_flash_begins_over_the_targets_transport(
    config: Seq<char>,
    transport: Option<McuTransport>,
)
    ensures
        kconfig::has_entry(config, "CONFIG_MACH_LINUX=y"@) ==> first_stage(config, transport) == Ok::<
            (FlashStage, UpdateProgress),
            SystemFlashError,
        >((FlashStage::CheckHostUnit, UpdateProgress::Installing)),
        !kconfig::has_entry(config, "CONFIG_MACH_LINUX=y"@) ==> {
            &&& transport is None ==> first_stage(config, transport) == Err::<
                (FlashStage, UpdateProgress),
                SystemFlashError,
            >(SystemFlashError::MissingTransport)
            &&& transport is Some ==> first_stage(config, transport) is Ok && first_stage(
                config,
                transport,
            )->Ok_0.1 == UpdateProgress::EnteringBootloader
            &&& transport is Some && transport->Some_0 is Serial ==> first_stage(
                config,
                transport,
            )->Ok_0.0 == (FlashStage::ObserveSerial { device: transport->Some_0->device })
            &&& transport is Some && transport->Some_0 is Can && kconfig::has_entry(
                config,
                "CONFIG_USBCANBUS=y"@,
            ) ==> first_stage(config, transport)->Ok_0.0 == (FlashStage::FindCanUsb {
                interface: transport->Some_0->interface,
                uuid: transport->Some_0->uuid,
            })
            &&& transport is Some && transport->Some_0 is Can && !kconfig::has_entry(
                config,
                "CONFIG_USBCANBUS=y"@,
            ) ==> first_stage(config, transport)->Ok_0.0 == (FlashStage::RequestCan {
                interface: transport->Some_0->interface,
                uuid: transport->Some_0->uuid,
                bridge: None,
            })
        },
{
}

/// The bootloader that is observed decides where a flash goes, and nothing else does: a PicoBoot one
/// waits for PicoBoot's transfer and a Katapult one goes to its serial device, both at the observed
/// topology; an STM32's ROM waits for the transfer to the address that the Kconfig selects; and a
/// bootloader that is not known ends the flash.
pub proof fn law_observed_bootloader_decides_the_route(
    run: SystemFlashRun,
    observed: ObservedUsbBootloader,
    snapshot: UsbTopologySnapshot,
    next: SystemFlashRun,
    reported: Seq<UpdateProgress>,
    before: Seq<CommandCall>,
    after: Seq<CommandCall>,
)
    requires
        run.stage is ObserveSerial || run.stage is ObserveBridge,
        flash_step(
            run,
            FlashEvent::Observed { observed, snapshot },
            next,
            reported,
            before,
            after,
        ),
    ensures
        next.job == run.job,
        observed.spec_kind() == Some(UsbBootloaderKind::PicoBoot) ==> next.stage
            == (FlashStage::WaitAccess {
            route: UsbRoute::PicoBoot { sysfs_path: observed.sysfs_path },
        }),
        observed.spec_kind() == Some(UsbBootloaderKind::Katapult) && observed.serial_device is Some
            ==> next.stage == (FlashStage::FlashKatapult {
            serial_device: observed.serial_device->Some_0,
        }),
        observed.spec_kind() == Some(UsbBootloaderKind::Katapult) && observed.serial_device is None
            ==> next.stage is Finished && next.stage->Finished_0 is Err,
        observed.spec_kind() is None ==> next.stage is Finished && next.stage->Finished_0 is Err,
        observed.spec_kind() == Some(UsbBootloaderKind::Stm32Dfu) && run.job.file is None ==> {
            match stm32_dfu::configured_start(run.job.kconfig@) {
                Some(start) => {
                    &&& next.stage is WaitAccess
                    &&& next.stage->route is Stm32Dfu
                    &&& next.stage->route->Stm32Dfu_sysfs_path == observed.sysfs_path
                    &&& next.stage->route->target.application_start == start
                },
                None => next.stage is Finished && next.stage->Finished_0 is Err,
            }
        },
        observed.spec_kind() == Some(UsbBootloaderKind::Stm32Dfu) && run.job.file is Some
            && !(next.stage is Finished) ==> {
            &&& next.stage is WaitAccess
            &&& next.stage->route is Stm32Dfu
            &&& next.stage->route->Stm32Dfu_sysfs_path == observed.sysfs_path
            &&& starts_at(run.job.firmware@, next.stage->route->target.application_start)
        },
{
    let config = run.job.kconfig@;
    let count = stm32_dfu::FLASH_START_COUNT as int;
    let chosen = stm32_dfu::selected_starts(config, count);
    if chosen.len() == 1 {
        assert(stm32_dfu::flash_start(chosen[0]).1 <= 0x20200);
    }
}

/// A device that becomes accessible goes to the transfer of its own bootloader, at its own topology:
/// PicoBoot's for PicoBoot, and DFU's for an STM32, where the application in flash is looked for
/// first if a firmware file is flashed.
pub proof fn law_accessible_device_goes_to_its_own_backend(
    run: SystemFlashRun,
    next: SystemFlashRun,
    reported: Seq<UpdateProgress>,
    before: Seq<CommandCall>,
    after: Seq<CommandCall>,
)
    requires
        run.stage is WaitAccess,
        flash_step(run, FlashEvent::Accessible, next, reported, before, after),
    ensures
        match run.stage->route {
            UsbRoute::PicoBoot { sysfs_path } => next.stage == (FlashStage::FlashPico { sysfs_path }),
            UsbRoute::Stm32Dfu { sysfs_path, target } => {
                &&& run.job.file is None ==> next.stage == (FlashStage::FlashDfu {
                    sysfs_path,
                    target,
                })
                &&& run.job.file is Some ==> next.stage == (FlashStage::ProbeDfu {
                    sysfs_path,
                    target,
                })
            },
        },
        next.job == run.job,
{
}

/// A transfer begins only for a bootloader of its own kind, at the topology where that was observed.
pub proof fn law_backends_are_entered_for_their_own_kind(
    run: SystemFlashRun,
    event: FlashEvent,
    next: SystemFlashRun,
    reported: Seq<UpdateProgress>,
    before: Seq<CommandCall>,
    after: Seq<CommandCall>,
)
    requires
        flash_step(run, event, next, reported, before, after),
        next.stage != run.stage,
    ensures
        next.stage is FlashPico ==> run.stage is WaitAccess && event is Accessible
            && run.stage->route == (UsbRoute::PicoBoot {
            sysfs_path: next.stage->FlashPico_sysfs_path,
        }),
        next.stage is FlashDfu ==> (run.stage is WaitAccess && event is Accessible
            && run.stage->route == (UsbRoute::Stm32Dfu {
            sysfs_path: next.stage->FlashDfu_sysfs_path,
            target: next.stage->FlashDfu_target,
        })) || (run.stage is ProbeDfu && event is Probed && run.stage->ProbeDfu_sysfs_path
            == next.stage->FlashDfu_sysfs_path && run.stage->ProbeDfu_target
            == next.stage->FlashDfu_target),
        next.stage is ProbeDfu ==> run.stage is WaitAccess && event is Accessible
            && run.stage->route == (UsbRoute::Stm32Dfu {
            sysfs_path: next.stage->ProbeDfu_sysfs_path,
            target: next.stage->ProbeDfu_target,
        }),
        next.stage is WaitAccess && next.stage->route is PicoBoot ==> event is Observed
            && event->observed.spec_kind() == Some(UsbBootloaderKind::PicoBoot)
            && event->observed.sysfs_path == next.stage->route->PicoBoot_sysfs_path,
        next.stage is WaitAccess && next.stage->route is Stm32Dfu ==> event is Observed
            && event->observed.spec_kind() == Some(UsbBootloaderKind::Stm32Dfu)
            && event->observed.sysfs_path == next.stage->route->Stm32Dfu_sysfs_path,
        next.stage is FlashKatapult ==> event is Observed && event->observed.spec_kind() == Some(
            UsbBootloaderKind::Katapult,
        ) && event->observed.serial_device == Some(next.stage->serial_device),
        next.stage is FlashCan ==> run.stage is ConnectCan && event is CanConnected,
{
    match (run.stage, event) {
        (FlashStage::CheckHostUnit, FlashEvent::UnitFile(_)) => {},
        (FlashStage::ObserveSerial { .. }, FlashEvent::Observed { observed, snapshot }) => {},
        (FlashStage::ObserveBridge { .. }, FlashEvent::Observed { observed, snapshot }) => {},
        (FlashStage::ProbeDfu { sysfs_path, target }, FlashEvent::Probed(probed)) => {},
        _ => {},
    }
}

/// An MCU on CAN is asked for under its own UUID on its own interface: the USB device of a bridge is
/// found first and its bootloader then awaited there; any other node is given its number.
pub proof fn law_can_node_keeps_its_address(
    run: SystemFlashRun,
    event: FlashEvent,
    next: SystemFlashRun,
    reported: Seq<UpdateProgress>,
    before: Seq<CommandCall>,
    after: Seq<CommandCall>,
)
    requires
        flash_step(run, event, next, reported, before, after),
    ensures
        run.stage is FindCanUsb && event is CanUsb ==> next.stage == (FlashStage::RequestCan {
            interface: run.stage->FindCanUsb_interface,
            uuid: run.stage->FindCanUsb_uuid,
            bridge: Some(event->CanUsb_0),
        }),
        run.stage is RequestCan && event is CanRequested && run.stage->RequestCan_bridge is Some
            ==> next.stage == (FlashStage::ObserveBridge {
            bridge: run.stage->RequestCan_bridge->Some_0,
        }),
        run.stage is RequestCan && event is CanRequested && run.stage->RequestCan_bridge is None
            ==> next.stage is ConnectCan,
        run.stage is ConnectCan && event is CanConnected ==> next.stage is FlashCan,
{
}

/// A flash succeeds with exactly what its transfer came to, and fails where that failed.
pub proof fn law_flash_ends_as_its_transfer_does(
    run: SystemFlashRun,
    event: FlashEvent,
    next: SystemFlashRun,
    reported: Seq<UpdateProgress>,
    before: Seq<CommandCall>,
    after: Seq<CommandCall>,
)
    requires
        flash_step(run, event, next, reported, before, after),
    ensures
        next.stage is Finished && next.stage->Finished_0 is Ok && !(run.stage is Finished)
            && !(run.stage is CheckHostUnit) ==> {
            ||| (run.stage is FlashCan || run.stage is FlashKatapult) && event is Katapult
                && event->Katapult_0 is Ok && event->Katapult_0->Ok_0 == next.stage->Finished_0->Ok_0
            ||| run.stage is FlashDfu && event is Dfu && event->Dfu_0 is Ok && event->Dfu_0->Ok_0
                == next.stage->Finished_0->Ok_0
            ||| run.stage is FlashPico && event is Pico && event->Pico_0 is Ok
                && event->Pico_0->Ok_0 == next.stage->Finished_0->Ok_0
        },
        run.stage is FlashPico && event is Pico ==> next.stage is Finished
            && next.stage->Finished_0 is Ok == event->Pico_0 is Ok,
        run.stage is FlashDfu && event is Dfu ==> next.stage is Finished && next.stage->Finished_0
            is Ok == event->Dfu_0 is Ok,
        (run.stage is FlashCan || run.stage is FlashKatapult) && event is Katapult ==> next.stage
            is Finished && next.stage->Finished_0 is Ok == event->Katapult_0 is Ok,
{
    match (run.stage, event) {
        (FlashStage::ObserveSerial { .. }, FlashEvent::Observed { observed, snapshot }) => {},
        (FlashStage::ObserveBridge { .. }, FlashEvent::Observed { observed, snapshot }) => {},
        (FlashStage::ProbeDfu { sysfs_path, target }, FlashEvent::Probed(probed)) => {},
        _ => {},
    }
}

/// Every operation that fails ends the flash with its own error.
pub proof fn law_failed_operation_ends_the_flash(
    run: SystemFlashRun,
    event: FlashEvent,
    next: SystemFlashRun,
    reported: Seq<UpdateProgress>,
    before: Seq<CommandCall>,
    after: Seq<CommandCall>,
)
    requires
        flash_step(run, event, next, reported, before, after),
    ensures
        (run.stage is ObserveSerial || run.stage is ObserveBridge) && event is ObserveFailed
            ==> next.stage == FlashStage::Finished(
            Err(SystemFlashError::Bootloader(event->ObserveFailed_0)),
        ),
        run.stage is FindCanUsb && event is CanUsbFailed ==> next.stage == FlashStage::Finished(
            Err(SystemFlashError::CanUsbTopology(event->CanUsbFailed_0)),
        ),
        run.stage is RequestCan && event is CanSocketFailed ==> next.stage == FlashStage::Finished(
            Err(SystemFlashError::CanSocket(event->CanSocketFailed_0)),
        ),
        (run.stage is RequestCan || run.stage is ConnectCan) && event is CanFailed ==> next.stage
            == FlashStage::Finished(Err(SystemFlashError::Can(event->CanFailed_0))),
        run.stage is FlashKatapult && event is OpenFailed ==> next.stage == FlashStage::Finished(
            Err(SystemFlashError::KatapultOpen(event->OpenFailed_0)),
        ),
        run.stage is WaitAccess && event is AccessFailed ==> next.stage == FlashStage::Finished(
            Err(SystemFlashError::UsbAccess(event->AccessFailed_0)),
        ),
{
}

/// A firmware file is written over an application in flash only where it goes to the same address,
/// where there is none, where it is among several, or where that is overridden; otherwise nothing is
/// written.
pub proof fn law_firmware_file_replaces_its_own_application(
    run: SystemFlashRun,
    probed: Result<ApplicationProbeResult, Stm32DfuError>,
    next: SystemFlashRun,
    reported: Seq<UpdateProgress>,
    before: Seq<CommandCall>,
    after: Seq<CommandCall>,
)
    requires
        run.stage is ProbeDfu,
        flash_step(run, FlashEvent::Probed(probed), next, reported, before, after),
    ensures
        ({
            let file = run.stage->ProbeDfu_target.application_start;
            let fits = probed is Ok && match probed->Ok_0 {
                ApplicationProbeResult::Found(device) => device == file,
                ApplicationProbeResult::NotFound => true,
                ApplicationProbeResult::Ambiguous(list) => list@.contains(file),
            };
            next.stage is FlashDfu == (fits || run.job.file == Some(true))
        }),
        !(next.stage is FlashDfu) ==> next.stage is LeaveDfu || (next.stage is Finished
            && next.stage->Finished_0 is Err),
{
}

/// A firmware file goes to the greatest flash start that is not above its reset handler, which is one
/// address alone.
pub proof fn law_image_goes_to_one_start(firmware: Seq<u8>, start: u32, other: u32, i: int)
    requires
        starts_at(firmware, start),
        starts_at(firmware, other),
    ensures
        start == other,
        ({
            let reset = firmware[4] + 0x100 * firmware[5] + 0x1_0000 * firmware[6] + 0x100_0000
                * firmware[7];
            &&& start <= reset
            &&& exists|k: int|
                0 <= k < stm32_dfu::FLASH_START_COUNT && start == 0x0800_0000 + (
                #[trigger] stm32_dfu::flash_start(k)).1
            &&& 0 <= i < stm32_dfu::FLASH_START_COUNT && 0x0800_0000 + stm32_dfu::flash_start(i).1
                <= reset ==> 0x0800_0000 + stm32_dfu::flash_start(i).1 <= start
        }),
{
    let table = firmware.subrange(4, 8);
    stm32_dfu::lemma_word(table);
    let k = choose|k: int|
        0 <= k < stm32_dfu::FLASH_START_COUNT && start == #[trigger] stm32_dfu::candidate_address(k);
    let l = choose|l: int|
        0 <= l < stm32_dfu::FLASH_START_COUNT && other == #[trigger] stm32_dfu::candidate_address(l);
    assert(stm32_dfu::candidate_address(k) <= other);
    assert(stm32_dfu::candidate_address(l) <= start);
    assert(stm32_dfu::flash_start(k).1 <= 0x20200);
    assert(stm32_dfu::flash_start(i).1 <= 0x20200);
    assert(start == 0x0800_0000 + stm32_dfu::flash_start(k).1);
    assert(stm32_dfu::candidate_address(i) == 0x0800_0000 + stm32_dfu::flash_start(i).1);
}

/// The node of a USB device is made of its bus and device numbers, which sysfs writes in decimal with
/// white space around them, each as three digits at least.
pub proof fn law_device_node_is_of_its_numbers(bus: nat, device: nat)
    requires
        bus <= u16::MAX,
        device <= u16::MAX,
    ensures
        device_node(text::decimal(bus) + seq!['\n'], text::decimal(device) + seq!['\n']) is Some,
        device_node(text::decimal(bus) + seq!['\n'], text::decimal(device) + seq!['\n'])->Some_0
            == "/dev/bus/usb/"@ + text::padded_start(text::decimal(bus), 3, '0') + "/"@
            + text::padded_start(text::decimal(device), 3, '0'),
{
    lemma_number_line(bus);
    lemma_number_line(device);
}

proof fn lemma_number_line(n: nat)
    requires
        n <= u16::MAX,
    ensures
        text::parsed_unsigned(
            text::trimmed(text::decimal(n) + seq!['\n']),
            10,
            u16::MAX as nat,
        ) == Some(n),
{
    let digits = text::decimal(n);
    text::law_decimal_reads_back(n, u16::MAX as nat);
    lemma_decimal_ends(n);
    text::law_printed_ascii_is_no_white_space(digits[0]);
    text::law_printed_ascii_is_no_white_space(digits.last());
    text::law_printed_ascii_is_no_white_space('\n');
    text::law_trimming_takes_only_white_space(Seq::empty(), digits, seq!['\n']);
    assert(Seq::<char>::empty() + digits + seq!['\n'] =~= digits + seq!['\n']);
}

proof fn lemma_decimal_ends(n: nat)
    ensures
        text::decimal(n).len() > 0,
        '0' <= text::decimal(n)[0] <= '9',
        '0' <= text::decimal(n).last() <= '9',
    decreases n,
{
    if n >= 10 {
        lemma_decimal_ends(n / 10);
        text::law_digits_follow_the_alphabet(n % 10);
    } else {
        text::law_digits_follow_the_alphabet(n);
    }
}

/// The bootloader that was observed is used at its own topology, and a Katapult bootloader at its
/// own serial device; what cannot be used is told by what was observed of it.
pub proof fn law_route_is_of_the_observed_bootloader(
    observed: ObservedUsbBootloader,
    config: Seq<char>,
    snapshot: UsbTopologySnapshot,
    route: Result<SerialFlashRoute, SystemFlashError>,
)
    requires
        routes(observed, config, snapshot, route),
    ensures
        route is Ok && route->Ok_0 is Katapult ==> observed.serial_device == Some(
            route->Ok_0->serial_device,
        ) && observed.spec_kind() == Some(UsbBootloaderKind::Katapult),
        route is Ok && route->Ok_0 is Stm32Dfu ==> route->Ok_0->Stm32Dfu_sysfs_path
            == observed.sysfs_path && observed.spec_kind() == Some(UsbBootloaderKind::Stm32Dfu),
        route is Ok && route->Ok_0 is PicoBoot ==> route->Ok_0->PicoBoot_sysfs_path
            == observed.sysfs_path && observed.spec_kind() == Some(UsbBootloaderKind::PicoBoot),
        observed.spec_kind() is None ==> route is Err && route->Err_0 is Selection
            && route->Err_0->Selection_0 is Unsupported && ({
            let identity = *route->Err_0->Selection_0->Unsupported_0;
            &&& identity.usb_id == observed.usb_id
            &&& identity.manufacturer == observed.manufacturer
            &&& identity.sysfs_path == observed.sysfs_path
            &&& identity.device_class == snapshot.device_class
            &&& identity.device_subclass == snapshot.device_subclass
            &&& identity.device_protocol == snapshot.device_protocol
        }),
        observed.spec_kind() == Some(UsbBootloaderKind::Katapult) && observed.serial_device is None
            ==> route is Err && route->Err_0 is Selection,
{
}

proof fn lemma_machine(lines: Seq<Seq<char>>, from: int, i: int)
    requires
        0 <= from <= i < lines.len(),
        selects_machine(lines[i]),
        forall|k: int| from <= k < i ==> !selects_machine(#[trigger] lines[k]),
    ensures
        machine_from(lines, from) == text::trimmed(lines[i]),
    decreases i - from,
{
    if from < i {
        lemma_machine(lines, from + 1, i);
    }
}

proof fn lemma_no_machine(lines: Seq<Seq<char>>, from: int)
    requires
        0 <= from,
        forall|k: int| from <= k < lines.len() ==> !selects_machine(#[trigger] lines[k]),
    ensures
        machine_from(lines, from).len() == 0,
    decreases lines.len() - from,
{
    if from < lines.len() {
        lemma_no_machine(lines, from + 1);
    }
}

/// The machine of a Kconfig is its first line `CONFIG_MACH_...=y`, without the white space around
/// it; without such a line there is none.
pub proof fn law_machine_is_the_first_selected(lines: Seq<Seq<char>>, i: int, name: Seq<char>)
    ensures
        text::trimmed("CONFIG_MACH_"@ + name + "=y"@) == "CONFIG_MACH_"@ + name + "=y"@
            ==> selects_machine("CONFIG_MACH_"@ + name + "=y"@),
        0 <= i < lines.len() && selects_machine(lines[i]) && (forall|k: int|
            0 <= k < i ==> !selects_machine(#[trigger] lines[k])) ==> machine_from(lines, 0)
            == text::trimmed(lines[i]),
        (forall|k: int| 0 <= k < lines.len() ==> !selects_machine(#[trigger] lines[k]))
            ==> machine_from(lines, 0).len() == 0,
        0 <= i < lines.len() && selects_machine(lines[i]) ==> "CONFIG_MACH_"@.is_prefix_of(
            text::trimmed(lines[i]),
        ) && "=y"@.is_suffix_of(text::trimmed(lines[i])),
{
    let whole = "CONFIG_MACH_"@ + name + "=y"@;
    assert(whole.take("CONFIG_MACH_"@.len() as int) =~= "CONFIG_MACH_"@);
    assert(whole.skip(whole.len() - "=y"@.len()) =~= "=y"@);
    if 0 <= i < lines.len() && selects_machine(lines[i]) && (forall|k: int|
        0 <= k < i ==> !selects_machine(#[trigger] lines[k])) {
        lemma_machine(lines, 0, i);
    }
    if forall|k: int| 0 <= k < lines.len() ==> !selects_machine(#[trigger] lines[k]) {
        lemma_no_machine(lines, 0);
    }
}

/// The flash-start symbols of a Kconfig are, in their order, the lines that hold `_FLASH_START_` and
/// end with `=y`.
pub proof fn law_every_flash_start_symbol_is_listed(lines: Seq<Seq<char>>, count: int)
    requires
        0 <= count < lines.len(),
    ensures
        ({
            let line = text::trimmed(lines[count]);
            let listed = text::contains_text(line, "_FLASH_START_"@) && "=y"@.is_suffix_of(line);
            &&& flash_start_symbols(lines, 0).len() == 0
            &&& listed ==> flash_start_symbols(lines, count + 1) == flash_start_symbols(
                lines,
                count,
            ).push(line)
            &&& !listed ==> flash_start_symbols(lines, count + 1) == flash_start_symbols(
                lines,
                count,
            )
        }),
{
}

/// A firmware file for a device in DFU mode goes to that device where its first two words are a
/// stack pointer in SRAM and a reset handler in flash, and to a start that is not above the reset
/// handler. A file that is too short for the two words, or holds others, is refused.
pub proof fn law_firmware_file_goes_where_its_vectors_point(
    run: SystemFlashRun,
    observed: ObservedUsbBootloader,
    snapshot: UsbTopologySnapshot,
    next: SystemFlashRun,
    reported: Seq<UpdateProgress>,
)
    requires
        dispatches(run, observed, snapshot, next, reported),
        run.job.file is Some,
        observed.spec_kind() == Some(UsbBootloaderKind::Stm32Dfu),
    ensures
        ({
            let image = run.job.firmware@;
            let stack = image[0] + 0x100 * image[1] + 0x1_0000 * image[2] + 0x100_0000 * image[3];
            let reset = image[4] + 0x100 * image[5] + 0x1_0000 * image[6] + 0x100_0000 * image[7];
            let fits = image.len() >= 8 && 0x2000_0000 <= stack < 0x2020_0000 && stack % 4 == 0
                && 0x0800_0000 <= reset < 0x0820_0000 && reset % 2 == 1;
            &&& reported == seq![UpdateProgress::BootloaderReady]
            &&& next.job == run.job
            &&& fits ==> next.stage is WaitAccess && next.stage->route is Stm32Dfu
                && next.stage->route->Stm32Dfu_sysfs_path == observed.sysfs_path
                && next.stage->route->target.application_start <= reset
            &&& !fits ==> next.stage == FlashStage::Finished(
                Err(SystemFlashError::Stm32Target(Stm32DfuError::InvalidFlashStartConfiguration)),
            )
        }),
{
    let image = run.job.firmware@;
    if image.len() >= 8 {
        let table = image.subrange(0, 8);
        stm32_dfu::law_vector_table_points_to_sram_and_flash(table);
        stm32_dfu::lemma_word(image.subrange(4, 8));
    }
}

} // verus!
