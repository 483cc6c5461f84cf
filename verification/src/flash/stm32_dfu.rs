//! STM32 USB-DFU backend boundaries.
use vstd::prelude::*;

use crate::bytes;
use crate::flash::FlashResult;
use crate::kconfig;
use crate::text;

verus! {

/// Lowest address STM32 SRAM can plausibly begin at.
pub const SRAM_START: u32 = 0x2000_0000;

/// An upper bound generous enough to cover every STM32 SRAM Klipper targets.
pub const SRAM_END: u32 = 0x2020_0000;

/// Lowest address STM32 internal flash begins at.
pub const FLASH_START: u32 = 0x0800_0000;

/// An upper bound generous enough to cover every STM32 flash Klipper targets.
pub const FLASH_END: u32 = 0x0820_0000;

/// How many flash-start offsets Klipper's STM32 Kconfig can select.
pub const FLASH_START_COUNT: usize = 14;

/// An explicitly selected STM32 DFU USB identity.
#[derive(Clone, Copy, Debug, PartialEq, Eq, Structural)]
pub struct Stm32DfuDevice {
    /// USB vendor identifier.
    pub vendor_id: u16,
    /// USB product identifier.
    pub product_id: u16,
}

impl Stm32DfuDevice {
    /// STMicroelectronics' built-in ROM DFU bootloader identity.
    pub fn rom_bootloader() -> (device: Self)
        ensures
            device.vendor_id == 0x0483,
            device.product_id == 0xdf11,
    {
        Stm32DfuDevice { vendor_id: 0x0483, product_id: 0xdf11 }
    }
}

/// STM32 flash placement required by the DFU backend.
#[derive(Clone, Copy, Debug, PartialEq, Eq, Structural)]
pub struct Stm32DfuTarget {
    /// Explicit application start address from the embedded build configuration.
    pub application_start: u32,
}

/// A native STM32 DFU transfer failure.
#[derive(Clone, Debug, PartialEq, Eq)]
pub enum Stm32DfuError {
    /// Embedded Kconfig did not select exactly one STM32 flash-start symbol.
    InvalidFlashStartConfiguration,
    /// DFU enumeration or device opening failed.
    Discovery(String),
    /// No DFU device matched the explicitly configured USB identity.
    DeviceNotFound(Stm32DfuDevice),
    /// More than one DFU device matched the configured USB identity.
    AmbiguousDevice { device: Stm32DfuDevice, matches: usize },
    /// The DFU transport rejected an operation.
    Transport(String),
    /// Uploaded bytes did not match the firmware artifact.
    VerificationMismatch,
}

/// A USB identifier as `0x` and at least four hexadecimal digits.
pub open spec fn usb_hex(id: u16) -> Seq<char> {
    "0x"@ + text::padded_start(text::hexadecimal(id as nat), 4, '0')
}

fn append_usb_hex(message: &mut String, id: u16)
    ensures
        final(message)@ == old(message)@ + usb_hex(id),
{
    let digits: String = text::hexadecimal_text(id as u64);
    let mut hex: String = "0x".to_owned();
    hex.append(text::pad_start(digits.as_str(), 4, '0').as_str());
    message.append(hex.as_str());
}

impl Stm32DfuError {
    /// The wording of this error.
    pub open spec fn text(self) -> Seq<char> {
        match self {
            Stm32DfuError::InvalidFlashStartConfiguration =>
            "embedded Kconfig did not select exactly one STM32 flash-start symbol"@,
            Stm32DfuError::Discovery(error) => "STM32 DFU device discovery failed: "@ + error@,
            Stm32DfuError::DeviceNotFound(device) => "no STM32 DFU device found for vendor "@
                + usb_hex(device.vendor_id) + " product "@ + usb_hex(device.product_id),
            Stm32DfuError::AmbiguousDevice { device, matches } => text::decimal(matches as nat)
                + " STM32 DFU devices matched vendor "@ + usb_hex(device.vendor_id) + " product "@
                + usb_hex(device.product_id) + ", expected exactly one"@,
            Stm32DfuError::Transport(error) => "STM32 DFU transport error: "@ + error@,
            Stm32DfuError::VerificationMismatch =>
            "flash readback did not match the written firmware"@,
        }
    }

    /// The wording of this error.
    pub fn message(&self) -> (message: String)
        ensures
            message@ == self.text(),
    {
        match self {
            Stm32DfuError::InvalidFlashStartConfiguration =>
            "embedded Kconfig did not select exactly one STM32 flash-start symbol".to_owned(),
            Stm32DfuError::Discovery(error) => {
                let mut message: String = "STM32 DFU device discovery failed: ".to_owned();
                message.append(error.as_str());
                message
            },
            Stm32DfuError::DeviceNotFound(device) => {
                let mut message: String = "no STM32 DFU device found for vendor ".to_owned();
                append_usb_hex(&mut message, device.vendor_id);
                message.append(" product ");
                append_usb_hex(&mut message, device.product_id);
                message
            },
            Stm32DfuError::AmbiguousDevice { device, matches } => {
                let mut message: String = text::decimal_text(*matches as u64);
                message.append(" STM32 DFU devices matched vendor ");
                append_usb_hex(&mut message, device.vendor_id);
                message.append(" product ");
                append_usb_hex(&mut message, device.product_id);
                message.append(", expected exactly one");
                message
            },
            Stm32DfuError::Transport(error) => {
                let mut message: String = "STM32 DFU transport error: ".to_owned();
                message.append(error.as_str());
                message
            },
            Stm32DfuError::VerificationMismatch =>
            "flash readback did not match the written firmware".to_owned(),
        }
    }
}

/// The flash-start offset with the given index: how Kconfig spells it, and its value.
pub open spec fn flash_start(index: int) -> (Seq<char>, u32) {
    if index == 0 {
        ("800"@, 0x800)
    } else if index == 1 {
        ("1000"@, 0x1000)
    } else if index == 2 {
        ("2000"@, 0x2000)
    } else if index == 3 {
        ("4000"@, 0x4000)
    } else if index == 4 {
        ("5000"@, 0x5000)
    } else if index == 5 {
        ("7000"@, 0x7000)
    } else if index == 6 {
        ("8000"@, 0x8000)
    } else if index == 7 {
        ("8800"@, 0x8800)
    } else if index == 8 {
        ("9000"@, 0x9000)
    } else if index == 9 {
        ("C000"@, 0xc000)
    } else if index == 10 {
        ("10000"@, 0x10000)
    } else if index == 11 {
        ("20000"@, 0x20000)
    } else if index == 12 {
        ("20200"@, 0x20200)
    } else {
        ("0000"@, 0)
    }
}

fn flash_start_at(index: usize) -> (offset: (&'static str, u32))
    ensures
        offset.0@ == flash_start(index as int).0,
        offset.1 == flash_start(index as int).1,
{
    match index {
        0 => ("800", 0x800),
        1 => ("1000", 0x1000),
        2 => ("2000", 0x2000),
        3 => ("4000", 0x4000),
        4 => ("5000", 0x5000),
        5 => ("7000", 0x7000),
        6 => ("8000", 0x8000),
        7 => ("8800", 0x8800),
        8 => ("9000", 0x9000),
        9 => ("C000", 0xc000),
        10 => ("10000", 0x10000),
        11 => ("20000", 0x20000),
        12 => ("20200", 0x20200),
        _ => ("0000", 0),
    }
}

/// Whether Kconfig selects the flash start with the given index.
pub open spec fn selects_start(config: Seq<char>, index: int) -> bool {
    kconfig::has_entry(
        config,
        "CONFIG_STM32_FLASH_START_"@ + flash_start(index).0 + "=y"@,
    )
}

/// The selected flash starts among the first `count`, in order.
pub open spec fn selected_starts(config: Seq<char>, count: int) -> Seq<int>
    decreases count,
{
    if count <= 0 {
        Seq::empty()
    } else {
        let before = selected_starts(config, count - 1);
        if selects_start(config, count - 1) {
            before.push(count - 1)
        } else {
            before
        }
    }
}

/// The application address that a Kconfig selects; none where it does not select exactly one.
pub open spec fn configured_start(config: Seq<char>) -> Option<int> {
    let selected = selected_starts(config, FLASH_START_COUNT as int);
    if selected.len() == 1 {
        Some(FLASH_START + flash_start(selected[0]).1)
    } else {
        None
    }
}

/// Derives the STM32 application address from Klipper's embedded Kconfig.
pub fn target_from_kconfig(config: &str) -> (target: Result<Stm32DfuTarget, Stm32DfuError>)
    ensures
        match target {
            Ok(target) => configured_start(config@) == Some(target.application_start as int),
            Err(error) => configured_start(config@) is None
                && error is InvalidFlashStartConfiguration,
        },
{
    let mut count: usize = 0;
    let mut chosen: u32 = 0;
    let mut i: usize = 0;
    while i < FLASH_START_COUNT
        invariant
            i <= FLASH_START_COUNT,
            count <= i,
            count == selected_starts(config@, i as int).len(),
            chosen <= 0x20200,
            count > 0 ==> chosen == flash_start(selected_starts(config@, i as int).last()).1,
        decreases FLASH_START_COUNT - i,
    {
        let (name, offset) = flash_start_at(i);
        let mut entry: String = "CONFIG_STM32_FLASH_START_".to_owned();
        entry.append(name);
        entry.append("=y");
        if kconfig::contains_entry(config, entry.as_str()) {
            count += 1;
            chosen = offset;
        }
        i += 1;
    }
    if count != 1 {
        return Err(Stm32DfuError::InvalidFlashStartConfiguration);
    }
    Ok(Stm32DfuTarget { application_start: FLASH_START + chosen })
}

/// One interface of a USB device.
#[derive(Clone, Copy, Debug, PartialEq, Eq, Structural)]
pub struct UsbInterfaceRecord {
    /// The interface's number.
    pub number: u8,
    /// The interface's class.
    pub class: u8,
    /// The interface's subclass.
    pub subclass: u8,
}

/// One USB device on the bus.
#[derive(Clone, Debug, PartialEq, Eq)]
pub struct UsbDeviceRecord {
    /// Linux sysfs path identifying the physical USB topology.
    pub sysfs_path: String,
    /// USB vendor identifier.
    pub vendor_id: u16,
    /// USB product identifier.
    pub product_id: u16,
    /// The device's interfaces, in order.
    pub interfaces: Vec<UsbInterfaceRecord>,
}

/// The number of the first DFU interface from index `i` on.
pub open spec fn dfu_interface(interfaces: Seq<UsbInterfaceRecord>, i: int) -> Option<u8>
    decreases interfaces.len() - i,
{
    if i < 0 || i >= interfaces.len() {
        None
    } else if interfaces[i].class == 0xfe && interfaces[i].subclass == 0x01 {
        Some(interfaces[i].number)
    } else {
        dfu_interface(interfaces, i + 1)
    }
}

/// Whether a device has the wanted identity, stands at the wanted topology where one is given, and
/// offers a DFU interface.
pub open spec fn is_candidate(
    device: UsbDeviceRecord,
    identity: Stm32DfuDevice,
    topology: Option<Seq<char>>,
) -> bool {
    &&& topology is Some ==> device.sysfs_path@ == topology->Some_0
    &&& device.vendor_id == identity.vendor_id
    &&& device.product_id == identity.product_id
    &&& dfu_interface(device.interfaces@, 0) is Some
}

/// The positions of the candidates among the first `count` devices.
pub open spec fn candidates(
    devices: Seq<UsbDeviceRecord>,
    identity: Stm32DfuDevice,
    topology: Option<Seq<char>>,
    count: int,
) -> Seq<int>
    decreases count,
{
    if count <= 0 {
        Seq::empty()
    } else {
        let before = candidates(devices, identity, topology, count - 1);
        if is_candidate(devices[count - 1], identity, topology) {
            before.push(count - 1)
        } else {
            before
        }
    }
}

/// The one candidate and its DFU interface, or why there is not exactly one.
pub open spec fn chosen_device(
    devices: Seq<UsbDeviceRecord>,
    identity: Stm32DfuDevice,
    topology: Option<Seq<char>>,
) -> Result<(int, u8), Stm32DfuError> {
    let found = candidates(devices, identity, topology, devices.len() as int);
    if found.len() == 0 {
        Err(Stm32DfuError::DeviceNotFound(identity))
    } else if found.len() == 1 {
        Ok((found[0], dfu_interface(devices[found[0]].interfaces@, 0)->Some_0))
    } else {
        Err(Stm32DfuError::AmbiguousDevice { device: identity, matches: found.len() as usize })
    }
}

fn first_dfu_interface(interfaces: &Vec<UsbInterfaceRecord>) -> (number: Option<u8>)
    ensures
        number == dfu_interface(interfaces@, 0),
{
    let mut i: usize = 0;
    while i < interfaces.len()
        invariant
            i <= interfaces@.len(),
            dfu_interface(interfaces@, 0) == dfu_interface(interfaces@, i as int),
        decreases interfaces@.len() - i,
    {
        if interfaces[i].class == 0xfe && interfaces[i].subclass == 0x01 {
            return Some(interfaces[i].number);
        }
        i += 1;
    }
    None
}

fn select_device(
    devices: &Vec<UsbDeviceRecord>,
    identity: Stm32DfuDevice,
    topology: Option<&str>,
) -> (chosen: Result<(usize, u8), Stm32DfuError>)
    ensures
        ({
            let wanted = match topology {
                Some(path) => Some(path@),
                None => None,
            };
            match chosen {
                Ok((index, interface)) => index < devices@.len() && chosen_device(
                    devices@,
                    identity,
                    wanted,
                ) == Ok::<(int, u8), Stm32DfuError>((index as int, interface)),
                Err(error) => chosen_device(devices@, identity, wanted) == Err::<
                    (int, u8),
                    Stm32DfuError,
                >(error),
            }
        }),
{
    let ghost wanted: Option<Seq<char>> = match topology {
        Some(path) => Some(path@),
        None => None,
    };
    let mut count: usize = 0;
    let mut index: usize = 0;
    let mut interface: u8 = 0;
    let mut i: usize = 0;
    while i < devices.len()
        invariant
            i <= devices@.len(),
            count <= i,
            wanted == match topology {
                Some(path) => Some(path@),
                None => None,
            },
            count == candidates(devices@, identity, wanted, i as int).len(),
            count > 0 ==> {
                &&& index < devices@.len()
                &&& candidates(devices@, identity, wanted, i as int).last() == index
                &&& dfu_interface(devices@[index as int].interfaces@, 0) == Some(interface)
            },
        decreases devices@.len() - i,
    {
        let device: &UsbDeviceRecord = &devices[i];
        let at_topology: bool = match topology {
            Some(path) => text::same_text(device.sysfs_path.as_str(), path),
            None => true,
        };
        if at_topology && device.vendor_id == identity.vendor_id && device.product_id
            == identity.product_id {
            if let Some(number) = first_dfu_interface(&device.interfaces) {
                count += 1;
                index = i;
                interface = number;
            }
        }
        i += 1;
    }
    if count == 0 {
        Err(Stm32DfuError::DeviceNotFound(identity))
    } else if count == 1 {
        Ok((index, interface))
    } else {
        Err(Stm32DfuError::AmbiguousDevice { device: identity, matches: count })
    }
}

/// Finds exactly one internal-flash DFU device matching `identity`: its position and its DFU
/// interface's number.
pub fn find_device(identity: Stm32DfuDevice, devices: &Vec<UsbDeviceRecord>) -> (chosen: Result<
    (usize, u8),
    Stm32DfuError,
>)
    ensures
        match chosen {
            Ok((index, interface)) => index < devices@.len() && chosen_device(
                devices@,
                identity,
                None,
            ) == Ok::<(int, u8), Stm32DfuError>((index as int, interface)),
            Err(error) => chosen_device(devices@, identity, None) == Err::<
                (int, u8),
                Stm32DfuError,
            >(error),
        },
{
    select_device(devices, identity, None)
}

/// Finds the internal-flash DFU device matching `identity` at `sysfs_path`.
///
/// The path is retained from a serial MCU's USB topology across bootloader
/// re-enumeration, so an unrelated ROM DFU device cannot be selected.
pub fn find_device_at_path(
    identity: Stm32DfuDevice,
    sysfs_path: &str,
    devices: &Vec<UsbDeviceRecord>,
) -> (chosen: Result<(usize, u8), Stm32DfuError>)
    ensures
        match chosen {
            Ok((index, interface)) => index < devices@.len() && chosen_device(
                devices@,
                identity,
                Some(sysfs_path@),
            ) == Ok::<(int, u8), Stm32DfuError>((index as int, interface)),
            Err(error) => chosen_device(devices@, identity, Some(sysfs_path@)) == Err::<
                (int, u8),
                Stm32DfuError,
            >(error),
        },
{
    select_device(devices, identity, Some(sysfs_path))
}

/// A device chosen at a topology stands at that topology and has the wanted identity; no other
/// device on the bus fits as well.
pub proof fn law_chosen_device_is_unique(
    devices: Seq<UsbDeviceRecord>,
    identity: Stm32DfuDevice,
    topology: Option<Seq<char>>,
    other: int,
)
    requires
        chosen_device(devices, identity, topology) is Ok,
        0 <= other < devices.len(),
        is_candidate(devices[other], identity, topology),
    ensures
        chosen_device(devices, identity, topology)->Ok_0.0 == other,
{
    lemma_candidate_listed(devices, identity, topology, devices.len() as int, other);
}

proof fn lemma_candidate_listed(
    devices: Seq<UsbDeviceRecord>,
    identity: Stm32DfuDevice,
    topology: Option<Seq<char>>,
    count: int,
    index: int,
)
    requires
        0 <= index < count <= devices.len(),
        is_candidate(devices[index], identity, topology),
    ensures
        candidates(devices, identity, topology, count).contains(index),
    decreases count,
{
    let list = candidates(devices, identity, topology, count);
    if index < count - 1 {
        lemma_candidate_listed(devices, identity, topology, count - 1, index);
        let before = candidates(devices, identity, topology, count - 1);
        let i = choose|i: int| 0 <= i < before.len() && before[i] == index;
        assert(list[i] == index);
    } else {
        assert(list[list.len() - 1] == index);
    }
}

/// What a use of a DFU device is for.
#[derive(Debug, PartialEq, Eq)]
pub enum DfuJob {
    /// Erase, write, read back, and manifest one application image.
    Flash {
        /// Where the image goes.
        target: Stm32DfuTarget,
        /// The image.
        firmware: Vec<u8>,
    },
    /// Start the application at an address, without writing new firmware.
    ///
    /// STM32's ROM DFU bootloader has no address-less "leave" command; this
    /// mirrors `dfu-util`'s `<address>:leave` idiom by setting the address
    /// pointer and sending a zero-length download to trigger manifestation.
    Leave {
        /// Where the application begins.
        application_start: u32,
    },
}

/// How far a use of a DFU device has come.
#[derive(Debug, PartialEq, Eq)]
pub enum DfuStage {
    /// The devices on the bus are to be listed.
    Finding,
    /// The chosen device is to be opened and its interface claimed.
    Opening {
        /// The position of the device in the list.
        device: usize,
        /// The number of its DFU interface.
        interface: u8,
    },
    /// A DFU session is to be opened.
    Connecting,
    /// The address is to be set and the job's bytes are to be downloaded to it.
    Downloading,
    /// As many bytes as were downloaded are to be read back from the address.
    Uploading,
    /// The new application is to be started.
    Manifesting,
    /// Nothing is left to do.
    Finished(Result<Option<FlashResult>, Stm32DfuError>),
}

/// The outcome of the operation that a stage asks for.
#[derive(Debug, PartialEq, Eq)]
pub enum DfuEvent {
    /// The devices on the bus.
    Devices(Vec<UsbDeviceRecord>),
    /// The operation succeeded.
    Done,
    /// The bytes read back.
    ReadBack(Vec<u8>),
    /// The device stalled the transfer, as it may when it already leaves the bootloader.
    Stalled(String),
    /// The operation failed for another reason.
    Failed(String),
}

impl DfuEvent {
    /// This outcome where a stall is a failure like any other.
    pub open spec fn or_stalled(self) -> DfuEvent {
        match self {
            DfuEvent::Stalled(error) => DfuEvent::Failed(error),
            _ => self,
        }
    }

    fn take_stall(self) -> (event: DfuEvent)
        ensures
            event == self.or_stalled(),
    {
        match self {
            DfuEvent::Stalled(error) => DfuEvent::Failed(error),
            event => event,
        }
    }
}

/// One use of a DFU device.
#[derive(Debug, PartialEq, Eq)]
pub struct DfuRun {
    /// The identity of the device.
    pub identity: Stm32DfuDevice,
    /// The USB topology of the device, where it is known.
    pub topology: Option<String>,
    /// What the use is for.
    pub job: DfuJob,
    /// How far the use has come.
    pub stage: DfuStage,
}

/// A wanted topology by its characters.
pub open spec fn topology_view(topology: Option<String>) -> Option<Seq<char>> {
    match topology {
        Some(path) => Some(path@),
        None => None,
    }
}

impl DfuRun {
    /// Begins a use of the DFU device.
    pub fn new(identity: Stm32DfuDevice, topology: Option<String>, job: DfuJob) -> (run: Self)
        ensures
            run == (DfuRun { identity, topology, job, stage: DfuStage::Finding }),
    {
        DfuRun { identity, topology, job, stage: DfuStage::Finding }
    }

    /// The address that the job is about.
    pub fn address(&self) -> (address: u32)
        ensures
            address == match self.job {
                DfuJob::Flash { target, .. } => target.application_start,
                DfuJob::Leave { application_start } => application_start,
            },
    {
        match &self.job {
            DfuJob::Flash { target, .. } => target.application_start,
            DfuJob::Leave { application_start } => *application_start,
        }
    }

    /// This use at another stage.
    pub open spec fn at(self, stage: DfuStage) -> Self {
        DfuRun { stage, ..self }
    }

    /// How the use goes on after the pending operation's outcome. An outcome that does not answer
    /// the pending operation changes nothing.
    pub open spec fn after(self, event: DfuEvent) -> Self {
        let event = if self.stage is Manifesting {
            event
        } else {
            event.or_stalled()
        };
        match (self.stage, event) {
            (DfuStage::Finished(_), _) => self,
            (DfuStage::Finding, DfuEvent::Failed(error)) => self.at(
                DfuStage::Finished(Err(Stm32DfuError::Discovery(error))),
            ),
            (DfuStage::Opening { .. }, DfuEvent::Failed(error)) => self.at(
                DfuStage::Finished(Err(Stm32DfuError::Discovery(error))),
            ),
            (_, DfuEvent::Failed(error)) => self.at(
                DfuStage::Finished(Err(Stm32DfuError::Transport(error))),
            ),
            (DfuStage::Finding, DfuEvent::Devices(devices)) => match chosen_device(
                devices@,
                self.identity,
                topology_view(self.topology),
            ) {
                Ok((device, interface)) => self.at(
                    DfuStage::Opening { device: device as usize, interface },
                ),
                Err(error) => self.at(DfuStage::Finished(Err(error))),
            },
            (DfuStage::Opening { .. }, DfuEvent::Done) => self.at(DfuStage::Connecting),
            (DfuStage::Connecting, DfuEvent::Done) => self.at(DfuStage::Downloading),
            (DfuStage::Downloading, DfuEvent::Done) => match self.job {
                DfuJob::Flash { .. } => self.at(DfuStage::Uploading),
                DfuJob::Leave { .. } => self.at(DfuStage::Manifesting),
            },
            (DfuStage::Uploading, DfuEvent::ReadBack(readback)) => match self.job {
                DfuJob::Flash { firmware, .. } => if readback@ == firmware@ {
                    self.at(DfuStage::Manifesting)
                } else {
                    self.at(DfuStage::Finished(Err(Stm32DfuError::VerificationMismatch)))
                },
                DfuJob::Leave { .. } => self,
            },
            (DfuStage::Manifesting, DfuEvent::Done) => self.at(self.success()),
            (DfuStage::Manifesting, DfuEvent::Stalled(_)) => self.at(self.success()),
            _ => self,
        }
    }

    /// The successful end of the job.
    pub open spec fn success(self) -> DfuStage {
        DfuStage::Finished(
            Ok(
                match self.job {
                    DfuJob::Flash { firmware, .. } => Some(
                        FlashResult {
                            reported_pages: None,
                            padded_bytes: firmware@.len() as usize,
                        },
                    ),
                    DfuJob::Leave { .. } => None,
                },
            ),
        )
    }

    fn succeed(&self) -> (stage: DfuStage)
        ensures
            stage == self.success(),
    {
        match &self.job {
            DfuJob::Flash { firmware, .. } => DfuStage::Finished(
                Ok(Some(FlashResult { reported_pages: None, padded_bytes: firmware.len() })),
            ),
            DfuJob::Leave { .. } => DfuStage::Finished(Ok(None)),
        }
    }

    /// Takes the pending operation's outcome.
    pub fn step(self, event: DfuEvent) -> (next: Self)
        ensures
            next == self.after(event),
    {
        let success: DfuStage = self.succeed();
        let event: DfuEvent = match &self.stage {
            DfuStage::Manifesting => event,
            _ => event.take_stall(),
        };
        let stage: DfuStage = match (self.stage, event) {
            (DfuStage::Finished(result), _) => DfuStage::Finished(result),
            (DfuStage::Finding, DfuEvent::Failed(error)) => DfuStage::Finished(
                Err(Stm32DfuError::Discovery(error)),
            ),
            (DfuStage::Opening { .. }, DfuEvent::Failed(error)) => DfuStage::Finished(
                Err(Stm32DfuError::Discovery(error)),
            ),
            (_, DfuEvent::Failed(error)) => DfuStage::Finished(
                Err(Stm32DfuError::Transport(error)),
            ),
            (DfuStage::Finding, DfuEvent::Devices(devices)) => {
                let chosen: Result<(usize, u8), Stm32DfuError> = match &self.topology {
                    Some(path) => find_device_at_path(self.identity, path.as_str(), &devices),
                    None => find_device(self.identity, &devices),
                };
                match chosen {
                    Ok((device, interface)) => DfuStage::Opening { device, interface },
                    Err(error) => DfuStage::Finished(Err(error)),
                }
            },
            (DfuStage::Opening { .. }, DfuEvent::Done) => DfuStage::Connecting,
            (DfuStage::Connecting, DfuEvent::Done) => DfuStage::Downloading,
            (DfuStage::Downloading, DfuEvent::Done) => match &self.job {
                DfuJob::Flash { .. } => DfuStage::Uploading,
                DfuJob::Leave { .. } => DfuStage::Manifesting,
            },
            (DfuStage::Uploading, DfuEvent::ReadBack(readback)) => match &self.job {
                DfuJob::Flash { firmware, .. } => if bytes::same_bytes(
                    readback.as_slice(),
                    firmware.as_slice(),
                ) {
                    DfuStage::Manifesting
                } else {
                    DfuStage::Finished(Err(Stm32DfuError::VerificationMismatch))
                },
                DfuJob::Leave { .. } => DfuStage::Uploading,
            },
            (DfuStage::Manifesting, DfuEvent::Done) => success,
            (DfuStage::Manifesting, DfuEvent::Stalled(_)) => success,
            (stage, _) => stage,
        };
        DfuRun { identity: self.identity, topology: self.topology, job: self.job, stage }
    }
}

/// The state after a series of outcomes.
pub open spec fn dfu_trace(run: DfuRun, events: Seq<DfuEvent>) -> DfuRun
    decreases events.len(),
{
    if events.len() == 0 {
        run
    } else {
        dfu_trace(run, events.drop_last()).after(events.last())
    }
}

proof fn lemma_dfu_keeps(run: DfuRun, events: Seq<DfuEvent>)
    ensures
        dfu_trace(run, events).job == run.job,
        dfu_trace(run, events).identity == run.identity,
        dfu_trace(run, events).topology == run.topology,
    decreases events.len(),
{
    if events.len() > 0 {
        lemma_dfu_keeps(run, events.drop_last());
    }
}

/// New firmware is started only after it was read back byte for byte.
pub proof fn law_firmware_is_verified_before_it_starts(run: DfuRun, events: Seq<DfuEvent>)
    requires
        run.job is Flash,
        run.stage is Finding,
        dfu_trace(run, events).stage is Manifesting || (dfu_trace(run, events).stage is Finished
            && dfu_trace(run, events).stage->Finished_0 is Ok),
    ensures
        exists|i: int|
            0 <= i < events.len() && (#[trigger] events[i]) is ReadBack && events[i]->ReadBack_0@
                == run.job->firmware@,
    decreases events.len(),
{
    lemma_dfu_keeps(run, events);
    if events.len() > 0 {
        let shorter = events.drop_last();
        let before = dfu_trace(run, shorter);
        lemma_dfu_keeps(run, shorter);
        if before.stage is Manifesting || (before.stage is Finished && before.stage->Finished_0
            is Ok) {
            law_firmware_is_verified_before_it_starts(run, shorter);
            let i = choose|i: int|
                0 <= i < shorter.len() && (#[trigger] shorter[i]) is ReadBack
                    && shorter[i]->ReadBack_0@ == run.job->firmware@;
            assert(events[i] == shorter[i]);
        } else {
            assert(events[events.len() - 1] is ReadBack);
        }
    }
}

/// The outcome of probing a bootloader's flash for an existing application.
#[derive(Clone, Debug, PartialEq, Eq)]
pub enum ApplicationProbeResult {
    /// Exactly one candidate offset holds a plausible vector table.
    Found(u32),
    /// No candidate offset holds a plausible vector table.
    NotFound,
    /// More than one candidate offset looks plausible; selection is unsafe.
    Ambiguous(Vec<u32>),
}

/// The eight bytes read at one flash address.
#[derive(Clone, Copy, Debug, PartialEq, Eq)]
pub struct VectorReading {
    /// The absolute flash address.
    pub address: u32,
    /// What stands there.
    pub bytes: [u8; 8],
}

/// Whether an initial stack pointer and a reset handler look like those of an application: the
/// former word-aligned in SRAM, the latter a Thumb address in flash.
pub open spec fn plausible_vector_table(stack_pointer: int, reset_vector: int) -> bool {
    &&& SRAM_START <= stack_pointer < SRAM_END
    &&& stack_pointer % 4 == 0
    &&& FLASH_START <= reset_vector < FLASH_END
    &&& reset_vector % 2 == 1
}

/// Whether eight bytes are a plausible vector table.
pub open spec fn plausible_bytes(table: Seq<u8>) -> bool {
    plausible_vector_table(
        bytes::le_value(table.subrange(0, 4)) as int,
        bytes::le_value(table.subrange(4, 8)) as int,
    )
}

/// The address of the candidate with the given index.
pub open spec fn candidate_address(index: int) -> u32 {
    (FLASH_START + flash_start(index).1) as u32
}

/// The first reading from index `i` on at the given address.
pub open spec fn reading_from(readings: Seq<VectorReading>, address: u32, i: int) -> Option<
    Seq<u8>,
>
    decreases readings.len() - i,
{
    if i < 0 || i >= readings.len() {
        None
    } else if readings[i].address == address {
        Some(readings[i].bytes@)
    } else {
        reading_from(readings, address, i + 1)
    }
}

/// Whether a candidate was read and holds a plausible vector table.
pub open spec fn plausible_candidate(readings: Seq<VectorReading>, index: int) -> bool {
    match reading_from(readings, candidate_address(index), 0) {
        Some(table) => plausible_bytes(table),
        None => false,
    }
}

/// The addresses of the plausible candidates among the first `count`, in order.
pub open spec fn plausible_addresses(readings: Seq<VectorReading>, count: int) -> Seq<u32>
    decreases count,
{
    if count <= 0 {
        Seq::empty()
    } else {
        let before = plausible_addresses(readings, count - 1);
        if plausible_candidate(readings, count - 1) {
            before.push(candidate_address(count - 1))
        } else {
            before
        }
    }
}

/// Whether `result` reports exactly these plausible addresses.
pub open spec fn reports(result: ApplicationProbeResult, addresses: Seq<u32>) -> bool {
    match result {
        ApplicationProbeResult::NotFound => addresses.len() == 0,
        ApplicationProbeResult::Found(address) => addresses == seq![address],
        ApplicationProbeResult::Ambiguous(list) => list@ == addresses && addresses.len() > 1,
    }
}

fn is_plausible_vector_table(stack_pointer: u32, reset_vector: u32) -> (plausible: bool)
    ensures
        plausible == plausible_vector_table(stack_pointer as int, reset_vector as int),
{
    SRAM_START <= stack_pointer && stack_pointer < SRAM_END && stack_pointer % 4 == 0
        && FLASH_START <= reset_vector && reset_vector < FLASH_END && reset_vector % 2 == 1
}

/// Whether eight bytes are a plausible vector table.
pub fn is_plausible(table: &[u8]) -> (plausible: bool)
    requires
        table@.len() == 8,
    ensures
        plausible == plausible_bytes(table@),
{
    is_plausible_vector_table(bytes::le_u32_at(table, 0), bytes::le_u32_at(table, 4))
}

/// The address of the candidate with the given index.
pub fn candidate(index: usize) -> (address: u32)
    ensures
        address == candidate_address(index as int),
{
    FLASH_START + flash_start_at(index).1
}

fn find_reading(readings: &Vec<VectorReading>, address: u32) -> (found: Option<[u8; 8]>)
    ensures
        match found {
            Some(table) => reading_from(readings@, address, 0) == Some(table@),
            None => reading_from(readings@, address, 0) is None,
        },
{
    let mut i: usize = 0;
    while i < readings.len()
        invariant
            i <= readings@.len(),
            reading_from(readings@, address, 0) == reading_from(readings@, address, i as int),
        decreases readings@.len() - i,
    {
        if readings[i].address == address {
            return Some(readings[i].bytes);
        }
        i += 1;
    }
    None
}

/// Looks for an existing application by checking each candidate flash-start
/// offset's would-be vector table (initial stack pointer, reset handler), without needing the
/// Kconfig that normally supplies this address.
///
/// A candidate without a reading is skipped, not treated as
/// implausible. Only ever reports [`ApplicationProbeResult::Found`] when
/// exactly one candidate looks plausible.
pub fn probe_application_start(readings: &Vec<VectorReading>) -> (result: ApplicationProbeResult)
    ensures
        reports(result, plausible_addresses(readings@, FLASH_START_COUNT as int)),
{
    let mut matches: Vec<u32> = Vec::new();
    let mut i: usize = 0;
    while i < FLASH_START_COUNT
        invariant
            i <= FLASH_START_COUNT,
            matches@ =~= plausible_addresses(readings@, i as int),
        decreases FLASH_START_COUNT - i,
    {
        let address: u32 = candidate(i);
        if let Some(table) = find_reading(readings, address) {
            if is_plausible(table.as_slice()) {
                matches.push(address);
            }
        }
        i += 1;
    }
    if matches.len() == 0 {
        ApplicationProbeResult::NotFound
    } else if matches.len() == 1 {
        assert(matches@ =~= seq![matches@[0]]);
        ApplicationProbeResult::Found(matches[0])
    } else {
        ApplicationProbeResult::Ambiguous(matches)
    }
}

/// An application is reported as found only where exactly one candidate looks plausible.
pub proof fn law_found_application_is_the_only_one(
    readings: Seq<VectorReading>,
    result: ApplicationProbeResult,
    index: int,
)
    requires
        reports(result, plausible_addresses(readings, FLASH_START_COUNT as int)),
        result is Found,
        0 <= index < FLASH_START_COUNT,
        plausible_candidate(readings, index),
    ensures
        result->Found_0 == candidate_address(index),
{
    lemma_plausible_listed(readings, FLASH_START_COUNT as int, index);
}

proof fn lemma_plausible_listed(readings: Seq<VectorReading>, count: int, index: int)
    requires
        0 <= index < count,
        plausible_candidate(readings, index),
    ensures
        plausible_addresses(readings, count).contains(candidate_address(index)),
    decreases count,
{
    let list = plausible_addresses(readings, count);
    if index < count - 1 {
        lemma_plausible_listed(readings, count - 1, index);
        let before = plausible_addresses(readings, count - 1);
        let i = choose|i: int| 0 <= i < before.len() && before[i] == candidate_address(index);
        assert(list[i] == candidate_address(index));
    } else {
        assert(list[list.len() - 1] == candidate_address(index));
    }
}

/// How far a probe has come.
#[derive(Debug, PartialEq, Eq)]
pub enum ProbeStage {
    /// The devices on the bus are to be listed.
    Finding,
    /// The chosen device is to be opened and its interface claimed.
    Opening {
        /// The position of the device in the list.
        device: usize,
        /// The number of its DFU interface.
        interface: u8,
    },
    /// A DFU session is to be opened.
    Connecting,
    /// Eight bytes are to be read at the current candidate's address.
    Reading,
    /// Nothing is left to do.
    Finished(Result<ApplicationProbeResult, Stm32DfuError>),
}

/// A probe of every candidate flash start of one DFU device.
#[derive(Debug, PartialEq, Eq)]
pub struct ProbeRun {
    /// The identity of the device.
    pub identity: Stm32DfuDevice,
    /// The USB topology of the device.
    pub topology: String,
    /// The index of the current candidate.
    pub index: usize,
    /// What was read so far.
    pub readings: Vec<VectorReading>,
    /// How far the probe has come.
    pub stage: ProbeStage,
}

/// A probe by what was read so far.
#[verifier::ext_equal]
pub struct ProbeState {
    pub identity: Stm32DfuDevice,
    pub topology: Seq<char>,
    pub index: int,
    pub readings: Seq<VectorReading>,
    pub stage: ProbePhase,
}

/// A probe's stage; a finished one carries no more than the readings imply, or an error.
pub enum ProbePhase {
    Finding,
    Opening { device: int, interface: u8 },
    Connecting,
    Reading,
    Reported,
    Failed(Stm32DfuError),
}

impl View for ProbeRun {
    type V = ProbeState;

    open spec fn view(&self) -> ProbeState {
        ProbeState {
            identity: self.identity,
            topology: self.topology@,
            index: self.index as int,
            readings: self.readings@,
            stage: match self.stage {
                ProbeStage::Finding => ProbePhase::Finding,
                ProbeStage::Opening { device, interface } => ProbePhase::Opening {
                    device: device as int,
                    interface,
                },
                ProbeStage::Connecting => ProbePhase::Connecting,
                ProbeStage::Reading => ProbePhase::Reading,
                ProbeStage::Finished(Ok(_)) => ProbePhase::Reported,
                ProbeStage::Finished(Err(error)) => ProbePhase::Failed(error),
            },
        }
    }
}

impl ProbeState {
    /// This probe at another stage.
    pub open spec fn at(self, stage: ProbePhase) -> Self {
        ProbeState { stage, ..self }
    }

    /// This probe at the next candidate, or at its end behind the last one.
    pub open spec fn advanced(self, stage: ProbePhase) -> Self {
        ProbeState {
            index: self.index + 1,
            stage: if self.index + 1 < FLASH_START_COUNT {
                stage
            } else {
                ProbePhase::Reported
            },
            ..self
        }
    }

    /// How the probe goes on after the pending operation's outcome. A candidate that cannot be
    /// read is skipped; a session survives a successful read and is opened anew after a failed
    /// one. An outcome that does not answer the pending operation changes nothing.
    pub open spec fn after(self, event: DfuEvent) -> Self {
        match (self.stage, event.or_stalled()) {
            (ProbePhase::Finding, DfuEvent::Failed(error)) => self.at(
                ProbePhase::Failed(Stm32DfuError::Discovery(error)),
            ),
            (ProbePhase::Opening { .. }, DfuEvent::Failed(error)) => self.at(
                ProbePhase::Failed(Stm32DfuError::Discovery(error)),
            ),
            (ProbePhase::Finding, DfuEvent::Devices(devices)) => match chosen_device(
                devices@,
                self.identity,
                Some(self.topology),
            ) {
                Ok((device, interface)) => self.at(ProbePhase::Opening { device, interface }),
                Err(error) => self.at(ProbePhase::Failed(error)),
            },
            (ProbePhase::Opening { .. }, DfuEvent::Done) => self.at(ProbePhase::Connecting),
            (ProbePhase::Connecting, DfuEvent::Done) => self.at(ProbePhase::Reading),
            (ProbePhase::Connecting, DfuEvent::Failed(_)) => self.advanced(ProbePhase::Connecting),
            (ProbePhase::Reading, DfuEvent::Failed(_)) => self.advanced(ProbePhase::Connecting),
            (ProbePhase::Reading, DfuEvent::ReadBack(table)) => if table@.len() == 8 {
                ProbeState {
                    readings: self.readings.push(
                        VectorReading {
                            address: candidate_address(self.index),
                            bytes: choose|bytes: [u8; 8]| bytes@ == table@,
                        },
                    ),
                    ..self.advanced(ProbePhase::Reading)
                }
            } else {
                self.advanced(ProbePhase::Reading)
            },
            _ => self,
        }
    }
}

impl ProbeRun {
    /// Whether the current index names a candidate, and a finished probe reports what its readings
    /// imply.
    pub open spec fn consistent(self) -> bool {
        match self.stage {
            ProbeStage::Finished(Ok(result)) => reports(
                result,
                plausible_addresses(self.readings@, FLASH_START_COUNT as int),
            ),
            ProbeStage::Finished(Err(_)) => true,
            _ => self.index < FLASH_START_COUNT,
        }
    }

    /// Begins a probe of the device at `topology`.
    pub fn new(identity: Stm32DfuDevice, topology: String) -> (run: Self)
        ensures
            run.consistent(),
            run@ == (ProbeState {
                identity,
                topology: topology@,
                index: 0,
                readings: Seq::empty(),
                stage: ProbePhase::Finding,
            }),
    {
        ProbeRun {
            identity,
            topology,
            index: 0,
            readings: Vec::new(),
            stage: ProbeStage::Finding,
        }
    }

    /// The address of the current candidate.
    pub fn address(&self) -> (address: u32)
        ensures
            address == candidate_address(self.index as int),
    {
        candidate(self.index)
    }

    fn advance(self, stage: ProbeStage) -> (next: Self)
        requires
            self.index < FLASH_START_COUNT,
            stage is Connecting || stage is Reading,
        ensures
            next.consistent(),
            next@ == self@.advanced(
                if stage is Connecting {
                    ProbePhase::Connecting
                } else {
                    ProbePhase::Reading
                },
            ),
    {
        let index: usize = self.index + 1;
        let stage: ProbeStage = if index < FLASH_START_COUNT {
            stage
        } else {
            ProbeStage::Finished(Ok(probe_application_start(&self.readings)))
        };
        ProbeRun {
            identity: self.identity,
            topology: self.topology,
            index,
            readings: self.readings,
            stage,
        }
    }

    /// Takes the pending operation's outcome.
    pub fn step(self, event: DfuEvent) -> (next: Self)
        requires
            self.consistent(),
        ensures
            next.consistent(),
            next@ == self@.after(event),
    {
        let mut run: ProbeRun = self;
        match (&run.stage, event.take_stall()) {
            (ProbeStage::Finding, DfuEvent::Failed(error)) => {
                run.stage = ProbeStage::Finished(Err(Stm32DfuError::Discovery(error)));
                run
            },
            (ProbeStage::Opening { .. }, DfuEvent::Failed(error)) => {
                run.stage = ProbeStage::Finished(Err(Stm32DfuError::Discovery(error)));
                run
            },
            (ProbeStage::Finding, DfuEvent::Devices(devices)) => {
                let chosen: Result<(usize, u8), Stm32DfuError> = find_device_at_path(
                    run.identity,
                    run.topology.as_str(),
                    &devices,
                );
                run.stage =
                match chosen {
                    Ok((device, interface)) => ProbeStage::Opening { device, interface },
                    Err(error) => ProbeStage::Finished(Err(error)),
                };
                run
            },
            (ProbeStage::Opening { .. }, DfuEvent::Done) => {
                run.stage = ProbeStage::Connecting;
                run
            },
            (ProbeStage::Connecting, DfuEvent::Done) => {
                run.stage = ProbeStage::Reading;
                run
            },
            (ProbeStage::Connecting, DfuEvent::Failed(_)) => run.advance(ProbeStage::Connecting),
            (ProbeStage::Reading, DfuEvent::Failed(_)) => run.advance(ProbeStage::Connecting),
            (ProbeStage::Reading, DfuEvent::ReadBack(table)) => {
                if table.len() == 8 {
                    let address: u32 = run.address();
                    let bytes: [u8; 8] = [
                        table[0],
                        table[1],
                        table[2],
                        table[3],
                        table[4],
                        table[5],
                        table[6],
                        table[7],
                    ];
                    assert(bytes@ =~= table@);
                    proof {
                        let chosen = choose|bytes: [u8; 8]| bytes@ == table@;
                        assert(chosen@ == bytes@);
                        assert(chosen =~= bytes);
                    }
                    run.readings.push(VectorReading { address, bytes });
                }
                run.advance(ProbeStage::Reading)
            },
            _ => run,
        }
    }
}


/// Begins to flash the only DFU device of an identity.
///
/// Call only after the coordinator has stopped Klipper and the operator has explicitly approved the
/// physical update.
pub fn flash_system(identity: Stm32DfuDevice, target: Stm32DfuTarget, firmware: Vec<u8>) -> (run:
    DfuRun)
    ensures
        run == (DfuRun {
            identity,
            topology: None,
            job: DfuJob::Flash { target, firmware },
            stage: DfuStage::Finding,
        }),
{
    DfuRun::new(identity, None, DfuJob::Flash { target, firmware })
}

/// Begins to flash the DFU device of an identity at one USB topology.
pub fn flash_system_at_path(
    identity: Stm32DfuDevice,
    sysfs_path: String,
    target: Stm32DfuTarget,
    firmware: Vec<u8>,
) -> (run: DfuRun)
    ensures
        run == (DfuRun {
            identity,
            topology: Some(sysfs_path),
            job: DfuJob::Flash { target, firmware },
            stage: DfuStage::Finding,
        }),
{
    DfuRun::new(identity, Some(sysfs_path), DfuJob::Flash { target, firmware })
}

/// Begins to leave the DFU device at one USB topology for the application at `application_start`,
/// without writing new firmware.
pub fn leave_system_at_path(
    identity: Stm32DfuDevice,
    sysfs_path: String,
    application_start: u32,
) -> (run: DfuRun)
    ensures
        run == (DfuRun {
            identity,
            topology: Some(sysfs_path),
            job: DfuJob::Leave { application_start },
            stage: DfuStage::Finding,
        }),
{
    DfuRun::new(identity, Some(sysfs_path), DfuJob::Leave { application_start })
}

/// An STM32 DFU flash operation bound to one USB topology and application target.
#[derive(Clone, Debug, PartialEq, Eq)]
pub struct Stm32DfuAdapter {
    identity: Stm32DfuDevice,
    sysfs_path: String,
    target: Stm32DfuTarget,
}

impl Stm32DfuAdapter {
    /// The wanted device identity.
    pub closed spec fn device(&self) -> Stm32DfuDevice {
        self.identity
    }

    /// The USB topology of this operation.
    pub closed spec fn path(&self) -> String {
        self.sysfs_path
    }

    /// Where the application goes.
    pub closed spec fn placement(&self) -> Stm32DfuTarget {
        self.target
    }

    /// Binds an STM32 DFU flash operation to its device identity, USB topology, and target.
    pub fn new(identity: Stm32DfuDevice, sysfs_path: String, target: Stm32DfuTarget) -> (adapter:
        Self)
        ensures
            adapter.device() == identity,
            adapter.path() == sysfs_path,
            adapter.placement() == target,
    {
        Stm32DfuAdapter { identity, sysfs_path, target }
    }

    /// Begins to flash `firmware` at the bound topology.
    pub fn flash(self, firmware: Vec<u8>) -> (run: DfuRun)
        ensures
            run == (DfuRun {
                identity: self.device(),
                topology: Some(self.path()),
                job: DfuJob::Flash { target: self.placement(), firmware },
                stage: DfuStage::Finding,
            }),
    {
        flash_system_at_path(self.identity, self.sysfs_path, self.target, firmware)
    }
}


proof fn lemma_hex_digit(s: Seq<char>, c: char, digit: nat)
    requires
        s.len() > 0,
        s[0] != '+',
        text::parsed_unsigned(s, 16, u32::MAX as nat) is Some,
        text::parsed_unsigned(s, 16, u32::MAX as nat)->Some_0 < 0x10000,
        digit < 16,
        c == text::digit_char(digit),
    ensures
        text::parsed_unsigned(s.push(c), 16, u32::MAX as nat) == Some(
            text::parsed_unsigned(s, 16, u32::MAX as nat)->Some_0 * 16 + digit,
        ),
{
    text::law_digits_are_positional(s, digit, 16, u32::MAX as nat);
}

proof fn lemma_first_hex_digit(digit: nat)
    requires
        digit < 10,
    ensures
        text::parsed_unsigned(seq![text::digit_char(digit)], 16, u32::MAX as nat) == Some(digit),
{
    text::law_hexadecimal_reads_back(digit, u32::MAX as nat);
    assert(text::hexadecimal(digit) =~= seq![text::digit_char(digit)]);
}

/// What four hexadecimal digits write, and the first three of them.
proof fn lemma_hex_digits(a: nat, b: nat, c: nat, d: nat, e: nat)
    requires
        a < 10,
        b < 10,
        c < 10,
        d < 10,
        e < 10,
    ensures
        ({
            let x = text::digit_char(a);
            let y = text::digit_char(b);
            let z = text::digit_char(c);
            let u = text::digit_char(d);
            let v = text::digit_char(e);
            let max = u32::MAX as nat;
            &&& text::parsed_unsigned(seq![x, y, z], 16, max) == Some(0x100 * a + 0x10 * b + c)
            &&& text::parsed_unsigned(seq![x, y, z, u], 16, max) == Some(
                0x1000 * a + 0x100 * b + 0x10 * c + d,
            )
            &&& text::parsed_unsigned(seq![x, y, z, u, v], 16, max) == Some(
                0x10000 * a + 0x1000 * b + 0x100 * c + 0x10 * d + e,
            )
        }),
{
    let x = text::digit_char(a);
    let y = text::digit_char(b);
    let z = text::digit_char(c);
    let u = text::digit_char(d);
    let v = text::digit_char(e);
    lemma_first_hex_digit(a);
    lemma_hex_digit(seq![x], y, b);
    assert(seq![x].push(y) =~= seq![x, y]);
    lemma_hex_digit(seq![x, y], z, c);
    assert(seq![x, y].push(z) =~= seq![x, y, z]);
    lemma_hex_digit(seq![x, y, z], u, d);
    assert(seq![x, y, z].push(u) =~= seq![x, y, z, u]);
    lemma_hex_digit(seq![x, y, z, u], v, e);
    assert(seq![x, y, z, u].push(v) =~= seq![x, y, z, u, v]);
}

proof fn lemma_capital_c000()
    ensures
        text::parsed_unsigned("C000"@, 16, u32::MAX as nat) == Some(0xc000nat),
{
    reveal_strlit("C000");
    let max = u32::MAX as nat;
    let first = seq!['C'];
    assert(first.drop_last() =~= Seq::<char>::empty());
    reveal_with_fuel(text::digits_value, 2);
    assert(text::parsed_unsigned(first, 16, max) == Some(0xcnat));
    lemma_hex_digit(first, '0', 0);
    assert(first.push('0') =~= seq!['C', '0']);
    lemma_hex_digit(seq!['C', '0'], '0', 0);
    assert(seq!['C', '0'].push('0') =~= seq!['C', '0', '0']);
    lemma_hex_digit(seq!['C', '0', '0'], '0', 0);
    assert(seq!['C', '0', '0'].push('0') =~= "C000"@);
}

/// The value of every flash start is the number that Kconfig spells in hexadecimal.
pub proof fn law_flash_start_is_spelled_in_hexadecimal(index: int)
    requires
        0 <= index < FLASH_START_COUNT,
    ensures
        text::parsed_unsigned(flash_start(index).0, 16, u32::MAX as nat) == Some(
            flash_start(index).1 as nat,
        ),
{
    if index == 0 {
        reveal_strlit("800");
        lemma_hex_digits(8, 0, 0, 0, 0);
        assert("800"@ =~= seq!['8', '0', '0']);
    } else if index == 1 {
        reveal_strlit("1000");
        lemma_hex_digits(1, 0, 0, 0, 0);
        assert("1000"@ =~= seq!['1', '0', '0', '0']);
    } else if index == 2 {
        reveal_strlit("2000");
        lemma_hex_digits(2, 0, 0, 0, 0);
        assert("2000"@ =~= seq!['2', '0', '0', '0']);
    } else if index == 3 {
        reveal_strlit("4000");
        lemma_hex_digits(4, 0, 0, 0, 0);
        assert("4000"@ =~= seq!['4', '0', '0', '0']);
    } else if index == 4 {
        reveal_strlit("5000");
        lemma_hex_digits(5, 0, 0, 0, 0);
        assert("5000"@ =~= seq!['5', '0', '0', '0']);
    } else if index == 5 {
        reveal_strlit("7000");
        lemma_hex_digits(7, 0, 0, 0, 0);
        assert("7000"@ =~= seq!['7', '0', '0', '0']);
    } else if index == 6 {
        reveal_strlit("8000");
        lemma_hex_digits(8, 0, 0, 0, 0);
        assert("8000"@ =~= seq!['8', '0', '0', '0']);
    } else if index == 7 {
        reveal_strlit("8800");
        lemma_hex_digits(8, 8, 0, 0, 0);
        assert("8800"@ =~= seq!['8', '8', '0', '0']);
    } else if index == 8 {
        reveal_strlit("9000");
        lemma_hex_digits(9, 0, 0, 0, 0);
        assert("9000"@ =~= seq!['9', '0', '0', '0']);
    } else if index == 9 {
        lemma_capital_c000();
    } else if index == 10 {
        reveal_strlit("10000");
        lemma_hex_digits(1, 0, 0, 0, 0);
        assert("10000"@ =~= seq!['1', '0', '0', '0', '0']);
    } else if index == 11 {
        reveal_strlit("20000");
        lemma_hex_digits(2, 0, 0, 0, 0);
        assert("20000"@ =~= seq!['2', '0', '0', '0', '0']);
    } else if index == 12 {
        reveal_strlit("20200");
        lemma_hex_digits(2, 0, 2, 0, 0);
        assert("20200"@ =~= seq!['2', '0', '2', '0', '0']);
    } else {
        reveal_strlit("0000");
        lemma_hex_digits(0, 0, 0, 0, 0);
        assert("0000"@ =~= seq!['0', '0', '0', '0']);
    }
}

/// Every offset at which Klipper can be built to start on an STM32 is known, by one index each.
pub proof fn law_flash_starts_are_known_once(offset: u32, left: int, right: int)
    requires
        offset == 0 || offset == 0x800 || offset == 0x1000 || offset == 0x2000 || offset == 0x4000
            || offset == 0x5000 || offset == 0x7000 || offset == 0x8000 || offset == 0x8800
            || offset == 0x9000 || offset == 0xc000 || offset == 0x10000 || offset == 0x20000
            || offset == 0x20200,
        0 <= left < right < FLASH_START_COUNT,
    ensures
        exists|i: int| 0 <= i < FLASH_START_COUNT && (#[trigger] flash_start(i)).1 == offset,
        flash_start(left).1 != flash_start(right).1,
{
    assert(flash_start(0).1 == 0x800 && flash_start(1).1 == 0x1000 && flash_start(2).1 == 0x2000
        && flash_start(3).1 == 0x4000 && flash_start(4).1 == 0x5000 && flash_start(5).1 == 0x7000
        && flash_start(6).1 == 0x8000 && flash_start(7).1 == 0x8800 && flash_start(8).1 == 0x9000
        && flash_start(9).1 == 0xc000 && flash_start(10).1 == 0x10000 && flash_start(11).1
        == 0x20000 && flash_start(12).1 == 0x20200 && flash_start(13).1 == 0);
}

proof fn lemma_selected_starts(config: Seq<char>, count: int, index: int)
    requires
        0 <= index < FLASH_START_COUNT,
        0 <= count <= FLASH_START_COUNT,
    ensures
        selected_starts(config, count).contains(index) == (index < count && selects_start(
            config,
            index,
        )),
        forall|i: int|
            0 <= i < selected_starts(config, count).len() ==> 0 <= #[trigger] selected_starts(
                config,
                count,
            )[i] < count,
        selected_starts(config, count).no_duplicates(),
    decreases count,
{
    if count > 0 {
        lemma_selected_starts(config, count - 1, index);
        let before = selected_starts(config, count - 1);
        let after = selected_starts(config, count);
        assert forall|i: int| 0 <= i < after.len() implies 0 <= #[trigger] after[i] < count by {
            if i < before.len() {
                assert(after[i] == before[i]);
            }
        }
        if before.contains(index) {
            let i = choose|i: int| 0 <= i < before.len() && before[i] == index;
            assert(after[i] == index);
        }
        if index == count - 1 && selects_start(config, index) {
            assert(after[after.len() - 1] == index);
        }
        if after.contains(index) && !before.contains(index) {
            let i = choose|i: int| 0 <= i < after.len() && after[i] == index;
            if i < before.len() {
                assert(before[i] == index);
            }
        }
    }
}

/// A Kconfig that selects one flash start puts the application that many bytes, as its symbol spells
/// them in hexadecimal, behind the beginning of flash.
pub proof fn law_application_goes_to_the_selected_start(config: Seq<char>, index: int)
    requires
        0 <= index < FLASH_START_COUNT,
        kconfig::has_entry(
            config,
            "CONFIG_STM32_FLASH_START_"@ + flash_start(index).0 + "=y"@,
        ),
        forall|other: int|
            0 <= other < FLASH_START_COUNT && other != index ==> !kconfig::has_entry(
                config,
                "CONFIG_STM32_FLASH_START_"@ + (#[trigger] flash_start(other)).0 + "=y"@,
            ),
    ensures
        configured_start(config) is Some,
        configured_start(config)->Some_0 == 0x0800_0000 + text::parsed_unsigned(
            flash_start(index).0,
            16,
            u32::MAX as nat,
        )->Some_0,
{
    law_flash_start_is_spelled_in_hexadecimal(index);
    let chosen = selected_starts(config, FLASH_START_COUNT as int);
    lemma_selected_starts(config, FLASH_START_COUNT as int, index);
    let at = choose|i: int| 0 <= i < chosen.len() && chosen[i] == index;
    assert forall|i: int| 0 <= i < chosen.len() implies chosen[i] == index by {
        let other = chosen[i];
        lemma_selected_starts(config, FLASH_START_COUNT as int, other);
        assert(chosen.contains(other));
        assert(selects_start(config, other));
        assert(flash_start(other) == flash_start(other));
    }
    if chosen.len() > 1 {
        assert(chosen[0] == chosen[1]);
    }
}

/// A Kconfig that selects no flash start, or two of them, puts the application nowhere.
pub proof fn law_no_application_without_one_start(config: Seq<char>, left: int, right: int)
    ensures
        (forall|i: int|
            0 <= i < FLASH_START_COUNT ==> !kconfig::has_entry(
                config,
                "CONFIG_STM32_FLASH_START_"@ + (#[trigger] flash_start(i)).0 + "=y"@,
            )) ==> configured_start(config) is None,
        0 <= left < right < FLASH_START_COUNT && kconfig::has_entry(
            config,
            "CONFIG_STM32_FLASH_START_"@ + flash_start(left).0 + "=y"@,
        ) && kconfig::has_entry(
            config,
            "CONFIG_STM32_FLASH_START_"@ + flash_start(right).0 + "=y"@,
        ) ==> configured_start(config) is None,
{
    let chosen = selected_starts(config, FLASH_START_COUNT as int);
    if configured_start(config) is Some {
        let only = chosen[0];
        lemma_selected_starts(config, FLASH_START_COUNT as int, 0);
        lemma_selected_starts(config, FLASH_START_COUNT as int, only);
        assert(chosen.contains(only));
        assert(selects_start(config, only));
        assert(flash_start(only) == flash_start(only));
        if 0 <= left < right < FLASH_START_COUNT {
            lemma_selected_starts(config, FLASH_START_COUNT as int, left);
            lemma_selected_starts(config, FLASH_START_COUNT as int, right);
        }
    }
}

proof fn lemma_dfu_interface(interfaces: Seq<UsbInterfaceRecord>, i: int)
    requires
        0 <= i,
    ensures
        match dfu_interface(interfaces, i) {
            Some(number) => exists|k: int|
                i <= k < interfaces.len() && (#[trigger] interfaces[k]).class == 0xfe
                    && interfaces[k].subclass == 1 && interfaces[k].number == number,
            None => forall|k: int|
                i <= k < interfaces.len() ==> !((#[trigger] interfaces[k]).class == 0xfe
                    && interfaces[k].subclass == 1),
        },
    decreases interfaces.len() - i,
{
    if i < interfaces.len() && !(interfaces[i].class == 0xfe && interfaces[i].subclass == 1) {
        lemma_dfu_interface(interfaces, i + 1);
    }
}

/// Whether a USB device of this identity and place has an interface of the DFU class.
pub open spec fn is_dfu_device(device: UsbDeviceRecord, vendor: u16, product: u16) -> bool {
    &&& device.vendor_id == vendor
    &&& device.product_id == product
    &&& exists|k: int|
        0 <= k < device.interfaces@.len() && (#[trigger] device.interfaces@[k]).class == 0xfe
            && device.interfaces@[k].subclass == 1
}

proof fn lemma_candidates(
    devices: Seq<UsbDeviceRecord>,
    identity: Stm32DfuDevice,
    topology: Option<Seq<char>>,
    count: int,
)
    requires
        0 <= count <= devices.len(),
    ensures
        forall|i: int|
            0 <= i < candidates(devices, identity, topology, count).len() ==> {
                let at = #[trigger] candidates(devices, identity, topology, count)[i];
                0 <= at < count && is_candidate(devices[at], identity, topology)
            },
        candidates(devices, identity, topology, count).no_duplicates(),
    decreases count,
{
    if count > 0 {
        lemma_candidates(devices, identity, topology, count - 1);
        let before = candidates(devices, identity, topology, count - 1);
        let after = candidates(devices, identity, topology, count);
        assert forall|i: int| 0 <= i < after.len() implies {
            let at = #[trigger] after[i];
            0 <= at < count && is_candidate(devices[at], identity, topology)
        } by {
            if i < before.len() {
                assert(after[i] == before[i]);
            }
        }
    }
}

/// The device that is chosen has the wanted identity and place, and the number is that of one of
/// its DFU interfaces.
pub proof fn law_chosen_device_fits(
    devices: Seq<UsbDeviceRecord>,
    identity: Stm32DfuDevice,
    topology: Option<Seq<char>>,
)
    requires
        chosen_device(devices, identity, topology) is Ok,
    ensures
        ({
            let (at, number) = chosen_device(devices, identity, topology)->Ok_0;
            &&& 0 <= at < devices.len()
            &&& is_dfu_device(devices[at], identity.vendor_id, identity.product_id)
            &&& topology is Some ==> devices[at].sysfs_path@ == topology->Some_0
            &&& exists|k: int|
                0 <= k < devices[at].interfaces@.len() && (
                #[trigger] devices[at].interfaces@[k]).class == 0xfe
                    && devices[at].interfaces@[k].subclass == 1 && devices[at].interfaces@[k].number
                    == number
        }),
{
    lemma_candidates(devices, identity, topology, devices.len() as int);
    let found = candidates(devices, identity, topology, devices.len() as int);
    let at = found[0];
    assert(found.len() == 1);
    assert(0 <= at < devices.len() && is_candidate(devices[at], identity, topology));
    let interfaces = devices[at].interfaces@;
    lemma_dfu_interface(interfaces, 0);
    let number = dfu_interface(interfaces, 0)->Some_0;
    let k = choose|k: int|
        0 <= k < interfaces.len() && (#[trigger] interfaces[k]).class == 0xfe
            && interfaces[k].subclass == 1 && interfaces[k].number == number;
    assert(devices[at].interfaces@[k].class == 0xfe);
    assert(is_dfu_device(devices[at], identity.vendor_id, identity.product_id));
}

/// A device is chosen exactly where one fits: none gives that there is none, and two give how many
/// there are.
pub proof fn law_device_must_be_the_only_one(
    devices: Seq<UsbDeviceRecord>,
    identity: Stm32DfuDevice,
    topology: Option<Seq<char>>,
    left: int,
    right: int,
)
    ensures
        (forall|i: int|
            0 <= i < devices.len() ==> !(is_dfu_device(
                #[trigger] devices[i],
                identity.vendor_id,
                identity.product_id,
            ) && (topology is Some ==> devices[i].sysfs_path@ == topology->Some_0)))
            ==> chosen_device(devices, identity, topology) == Err::<(int, u8), Stm32DfuError>(
            Stm32DfuError::DeviceNotFound(identity),
        ),
        0 <= left < right < devices.len() && is_dfu_device(
            devices[left],
            identity.vendor_id,
            identity.product_id,
        ) && is_dfu_device(devices[right], identity.vendor_id, identity.product_id) && (topology
            is Some ==> devices[left].sysfs_path@ == topology->Some_0
            && devices[right].sysfs_path@ == topology->Some_0) ==> {
            &&& chosen_device(devices, identity, topology) is Err
            &&& chosen_device(devices, identity, topology)->Err_0 is AmbiguousDevice
        },
        0 <= left < devices.len() && is_dfu_device(
            devices[left],
            identity.vendor_id,
            identity.product_id,
        ) && (topology is Some ==> devices[left].sysfs_path@ == topology->Some_0) && (forall|i: int|
            0 <= i < devices.len() && i != left ==> !(is_dfu_device(
                #[trigger] devices[i],
                identity.vendor_id,
                identity.product_id,
            ) && (topology is Some ==> devices[i].sysfs_path@ == topology->Some_0)))
            ==> chosen_device(devices, identity, topology) is Ok,
{
    let count = devices.len() as int;
    let found = candidates(devices, identity, topology, count);
    lemma_candidates(devices, identity, topology, count);
    assert forall|i: int| 0 <= i < devices.len() implies #[trigger] is_candidate(
        devices[i],
        identity,
        topology,
    ) == (is_dfu_device(devices[i], identity.vendor_id, identity.product_id) && (topology is Some
        ==> devices[i].sysfs_path@ == topology->Some_0)) by {
        lemma_dfu_interface(devices[i].interfaces@, 0);
    }
    if found.len() > 0 {
        let at = found[0];
        assert(is_candidate(devices[at], identity, topology));
    }
    if 0 <= left < devices.len() && is_candidate(devices[left], identity, topology) {
        lemma_candidate_listed(devices, identity, topology, count, left);
        if found.len() > 1 {
            let one = found[0];
            let other = found[1];
            assert(is_candidate(devices[one], identity, topology));
            assert(is_candidate(devices[other], identity, topology));
        }
    }
    if 0 <= left < right < devices.len() && is_candidate(devices[left], identity, topology)
        && is_candidate(devices[right], identity, topology) {
        lemma_candidate_listed(devices, identity, topology, count, right);
        assert(found.contains(left));
        assert(found.contains(right));
        if found.len() == 1 {
            assert(found[0] == left);
            assert(found[0] == right);
        }
    }
}

/// A vector table is plausible where its first word, the stack pointer, is a multiple of four in the
/// SRAM of an STM32, and its second, the reset handler, an odd address in its flash.
pub proof fn law_vector_table_points_to_sram_and_flash(table: Seq<u8>)
    requires
        table.len() == 8,
    ensures
        ({
            let stack = table[0] + 0x100 * table[1] + 0x1_0000 * table[2] + 0x100_0000 * table[3];
            let reset = table[4] + 0x100 * table[5] + 0x1_0000 * table[6] + 0x100_0000 * table[7];
            plausible_bytes(table) == (0x2000_0000 <= stack < 0x2020_0000 && stack % 4 == 0
                && 0x0800_0000 <= reset < 0x0820_0000 && reset % 2 == 1)
        }),
{
    let first = table.subrange(0, 4);
    let second = table.subrange(4, 8);
    lemma_word(first);
    lemma_word(second);
}

/// Four bytes write a number with the least significant one first.
pub proof fn lemma_word(word: Seq<u8>)
    requires
        word.len() == 4,
    ensures
        bytes::le_value(word) == word[0] + 0x100 * word[1] + 0x1_0000 * word[2] + 0x100_0000
            * word[3],
{
    reveal_with_fuel(bytes::le_value, 5);
    assert(word.skip(1).skip(1) =~= word.skip(2));
    assert(word.skip(2).skip(1) =~= word.skip(3));
    assert(word.skip(3).skip(1) =~= Seq::<u8>::empty());
}

proof fn lemma_reading(readings: Seq<VectorReading>, address: u32, i: int)
    requires
        0 <= i,
    ensures
        match reading_from(readings, address, i) {
            Some(table) => exists|k: int|
                i <= k < readings.len() && (#[trigger] readings[k]).address == address
                    && readings[k].bytes@ == table,
            None => forall|k: int|
                i <= k < readings.len() ==> (#[trigger] readings[k]).address != address,
        },
    decreases readings.len() - i,
{
    if i < readings.len() && readings[i].address != address {
        lemma_reading(readings, address, i + 1);
    }
}

proof fn lemma_plausible_addresses(readings: Seq<VectorReading>, count: int)
    requires
        0 <= count <= FLASH_START_COUNT,
    ensures
        forall|i: int|
            0 <= i < plausible_addresses(readings, count).len() ==> exists|k: int|
                0 <= k < readings.len() && (#[trigger] readings[k]).address
                    == #[trigger] plausible_addresses(readings, count)[i] && plausible_bytes(
                    readings[k].bytes@,
                ),
    decreases count,
{
    if count > 0 {
        lemma_plausible_addresses(readings, count - 1);
        let before = plausible_addresses(readings, count - 1);
        let after = plausible_addresses(readings, count);
        lemma_reading(readings, candidate_address(count - 1), 0);
        assert forall|i: int| 0 <= i < after.len() implies exists|k: int|
            0 <= k < readings.len() && (#[trigger] readings[k]).address == #[trigger] after[i]
                && plausible_bytes(readings[k].bytes@) by {
            if i < before.len() {
                assert(after[i] == before[i]);
            }
        }
    }
}

/// A probe reports an application only where a plausible vector table was read, and reports that
/// there is none only where none was read at any flash start.
pub proof fn law_probe_reports_what_was_read(
    readings: Seq<VectorReading>,
    result: ApplicationProbeResult,
    index: int,
    offset: u32,
)
    requires
        reports(result, plausible_addresses(readings, FLASH_START_COUNT as int)),
        0 <= index < readings.len(),
        forall|k: int, l: int|
            0 <= k < l < readings.len() ==> (#[trigger] readings[k]).address != (
            #[trigger] readings[l]).address,
        exists|i: int| 0 <= i < FLASH_START_COUNT && (#[trigger] flash_start(i)).1 == offset,
        readings[index].address == 0x0800_0000 + offset,
        plausible_bytes(readings[index].bytes@),
    ensures
        match result {
            ApplicationProbeResult::Found(address) => address == readings[index].address,
            ApplicationProbeResult::Ambiguous(list) => list@.contains(readings[index].address),
            ApplicationProbeResult::NotFound => false,
        },
{
    let i = choose|i: int| 0 <= i < FLASH_START_COUNT && (#[trigger] flash_start(i)).1 == offset;
    lemma_reading(readings, candidate_address(i), 0);
    assert(readings[index].address == candidate_address(i));
    let table = reading_from(readings, candidate_address(i), 0)->Some_0;
    let k = choose|k: int|
        0 <= k < readings.len() && (#[trigger] readings[k]).address == candidate_address(i)
            && readings[k].bytes@ == table;
    if k < index {
        assert(readings[k].address != readings[index].address);
    } else if index < k {
        assert(readings[index].address != readings[k].address);
    }
    lemma_plausible_listed(readings, FLASH_START_COUNT as int, i);
}

/// An application that a probe finds stands where a plausible vector table was read.
pub proof fn law_found_application_was_read(
    readings: Seq<VectorReading>,
    result: ApplicationProbeResult,
)
    requires
        reports(result, plausible_addresses(readings, FLASH_START_COUNT as int)),
        result is Found,
    ensures
        exists|k: int|
            0 <= k < readings.len() && (#[trigger] readings[k]).address == result->Found_0
                && plausible_bytes(readings[k].bytes@),
{
    lemma_plausible_addresses(readings, FLASH_START_COUNT as int);
    assert(plausible_addresses(readings, FLASH_START_COUNT as int)[0] == result->Found_0);
}

/// A flash that is answered in order succeeds with the size of the firmware: the device is found,
/// opened and connected, the firmware is written and read back, and the application started. One
/// that reads back anything else, or fails on the way, does not.
pub proof fn law_flash_goes_through_every_stage(run: DfuRun, devices: Vec<UsbDeviceRecord>, read:
    Vec<u8>)
    requires
        run.stage is Finding,
        run.job is Flash,
        chosen_device(devices@, run.identity, topology_view(run.topology)) is Ok,
    ensures
        ({
            let firmware = run.job->firmware;
            let opening = run.after(DfuEvent::Devices(devices));
            let connecting = opening.after(DfuEvent::Done);
            let downloading = connecting.after(DfuEvent::Done);
            let uploading = downloading.after(DfuEvent::Done);
            let checked = uploading.after(DfuEvent::ReadBack(read));
            let done = checked.after(DfuEvent::Done);
            &&& opening.stage is Opening
            &&& opening.stage->device == chosen_device(
                devices@,
                run.identity,
                topology_view(run.topology),
            )->Ok_0.0 as usize
            &&& opening.stage->interface == chosen_device(
                devices@,
                run.identity,
                topology_view(run.topology),
            )->Ok_0.1
            &&& connecting.stage is Connecting
            &&& downloading.stage is Downloading
            &&& uploading.stage is Uploading
            &&& read@ == firmware@ ==> checked.stage is Manifesting && done.stage
                == DfuStage::Finished(
                Ok(
                    Some(
                        FlashResult {
                            reported_pages: None,
                            padded_bytes: firmware@.len() as usize,
                        },
                    ),
                ),
            )
            &&& read@ != firmware@ ==> checked.stage == DfuStage::Finished(
                Err(Stm32DfuError::VerificationMismatch),
            )
            &&& done.job == run.job && done.identity == run.identity && done.topology
                == run.topology
        }),
{
}

/// Leaving the bootloader writes nothing that is read back: the device is found, opened and
/// connected, and the application started.
pub proof fn law_leaving_uploads_nothing(run: DfuRun, devices: Vec<UsbDeviceRecord>)
    requires
        run.stage is Finding,
        run.job is Leave,
        chosen_device(devices@, run.identity, topology_view(run.topology)) is Ok,
    ensures
        ({
            let connecting = run.after(DfuEvent::Devices(devices)).after(DfuEvent::Done);
            let downloading = connecting.after(DfuEvent::Done);
            let manifesting = downloading.after(DfuEvent::Done);
            &&& connecting.stage is Connecting
            &&& downloading.stage is Downloading
            &&& manifesting.stage is Manifesting
            &&& manifesting.after(DfuEvent::Done).stage == DfuStage::Finished(Ok(None))
        }),
{
}

/// A use that fails has failed: where the device is looked for or opened, as a discovery, and later
/// as a transfer. Only when the application is started is a stall as good as an answer.
pub proof fn law_failure_ends_the_use(run: DfuRun, error: String)
    requires
        !(run.stage is Finished),
    ensures
        ({
            let ended = if run.stage is Finding || run.stage is Opening {
                DfuStage::Finished(Err(Stm32DfuError::Discovery(error)))
            } else {
                DfuStage::Finished(Err(Stm32DfuError::Transport(error)))
            };
            &&& run.after(DfuEvent::Failed(error)).stage == ended
            &&& !(run.stage is Manifesting) ==> run.after(DfuEvent::Stalled(error)).stage == ended
            &&& run.stage is Manifesting ==> run.after(DfuEvent::Stalled(error)) == run.after(
                DfuEvent::Done,
            )
        }),
{
}

/// A probe reads eight bytes at every flash start in turn: what it reads is kept with the address,
/// what it cannot read is left out, and after the last one it reports.
pub proof fn law_probe_reads_every_start(probe: ProbeState, table: Vec<u8>, error: String)
    requires
        probe.stage is Reading,
        0 <= probe.index < FLASH_START_COUNT,
        table@.len() == 8,
    ensures
        ({
            let read = probe.after(DfuEvent::ReadBack(table));
            let failed = probe.after(DfuEvent::Failed(error));
            &&& read.readings.len() == probe.readings.len() + 1
            &&& read.readings.last().address == 0x0800_0000 + flash_start(probe.index).1
            &&& read.readings.last().bytes@ == table@
            &&& probe.readings.is_prefix_of(read.readings)
            &&& failed.readings == probe.readings
            &&& read.index == probe.index + 1
            &&& failed.index == probe.index + 1
            &&& read.stage is Reading == (probe.index + 1 < FLASH_START_COUNT)
            &&& failed.stage is Connecting == (probe.index + 1 < FLASH_START_COUNT)
            &&& read.stage is Reported == (probe.index + 1 == FLASH_START_COUNT)
            &&& failed.stage is Reported == (probe.index + 1 == FLASH_START_COUNT)
        }),
{
    let bytes: [u8; 8] = choose|bytes: [u8; 8]| bytes@ == table@;
    lemma_array_of(table@);
    let read = probe.after(DfuEvent::ReadBack(table));
    assert(probe.readings.is_prefix_of(read.readings));
}

proof fn lemma_array_of(bytes: Seq<u8>)
    requires
        bytes.len() == 8,
    ensures
        exists|array: [u8; 8]| array@ == bytes,
{
    let array: [u8; 8] = [
        bytes[0],
        bytes[1],
        bytes[2],
        bytes[3],
        bytes[4],
        bytes[5],
        bytes[6],
        bytes[7],
    ];
    assert(array@ =~= bytes);
}

} // verus!
