//! USB bootloader identities observed after a topology-scoped serial reset.
use vstd::prelude::*;

use crate::flash::usb_sysfs;
use crate::flash::usb_sysfs::{SysfsNode, UsbIdentity, UsbTopologySnapshot};
use crate::text;

verus! {

/// A USB bootloader supported by the native flashing backends.
#[derive(Clone, Copy, Debug, PartialEq, Eq, Structural)]
pub enum UsbBootloaderKind {
    /// Katapult's USB serial bootloader.
    Katapult,
    /// STM32's built-in USB DFU bootloader.
    Stm32Dfu,
    /// Raspberry Pi's RP2040 or RP2350 PicoBoot ROM bootloader.
    PicoBoot,
}

/// A bootloader observed at the configured MCU's re-enumerated USB topology.
#[derive(Debug, PartialEq, Eq)]
pub struct ObservedUsbBootloader {
    /// Linux sysfs path identifying the physical USB topology.
    pub sysfs_path: String,
    /// Lowercase USB vendor and product identifiers separated by a colon.
    pub usb_id: String,
    /// Lowercase USB manufacturer string, when supplied by the device.
    pub manufacturer: String,
    /// USB serial device exposed by the bootloader, when it has exactly one.
    pub serial_device: Option<String>,
}

impl Clone for ObservedUsbBootloader {
    fn clone(&self) -> (copy: Self)
        ensures
            copy == *self,
    {
        ObservedUsbBootloader {
            sysfs_path: self.sysfs_path.clone(),
            usb_id: self.usb_id.clone(),
            manufacturer: self.manufacturer.clone(),
            serial_device: match &self.serial_device {
                Some(device) => Some(device.clone()),
                None => None,
            },
        }
    }
}

/// The bootloader that a USB identity stands for: Katapult by its identifiers or its maker's name,
/// the ROM bootloaders by their identifiers alone.
pub open spec fn identity_kind(usb_id: Seq<char>, manufacturer: Seq<char>) -> Option<
    UsbBootloaderKind,
> {
    if text::same_ignoring_case(usb_id, "1d50:6177"@) || text::same_ignoring_case(
        manufacturer,
        "katapult"@,
    ) {
        Some(UsbBootloaderKind::Katapult)
    } else if text::same_ignoring_case(usb_id, "0483:df11"@) {
        Some(UsbBootloaderKind::Stm32Dfu)
    } else if text::same_ignoring_case(usb_id, "2e8a:0003"@) || text::same_ignoring_case(
        usb_id,
        "2e8a:000f"@,
    ) {
        Some(UsbBootloaderKind::PicoBoot)
    } else {
        None
    }
}

/// Classifies one USB bootloader identity without inferring from Kconfig.
pub fn classify_usb_identity(usb_id: &str, manufacturer: &str) -> (kind: Option<UsbBootloaderKind>)
    ensures
        kind == identity_kind(usb_id@, manufacturer@),
{
    if text::eq_ignore_case(usb_id, "1d50:6177") || text::eq_ignore_case(manufacturer, "katapult") {
        Some(UsbBootloaderKind::Katapult)
    } else if text::eq_ignore_case(usb_id, "0483:df11") {
        Some(UsbBootloaderKind::Stm32Dfu)
    } else if text::eq_ignore_case(usb_id, "2e8a:0003") || text::eq_ignore_case(
        usb_id,
        "2e8a:000f",
    ) {
        Some(UsbBootloaderKind::PicoBoot)
    } else {
        None
    }
}

impl ObservedUsbBootloader {
    /// The supported native backend matching this observed identity.
    pub open spec fn spec_kind(self) -> Option<UsbBootloaderKind> {
        identity_kind(self.usb_id@, self.manufacturer@)
    }

    /// Returns the supported native backend matching this observed identity.
    pub fn kind(&self) -> (kind: Option<UsbBootloaderKind>)
        ensures
            kind == self.spec_kind(),
    {
        classify_usb_identity(self.usb_id.as_str(), self.manufacturer.as_str())
    }
}

/// A supported USB bootloader bound to the topology that produced it.
#[derive(Clone, Debug, PartialEq, Eq)]
pub enum SelectedUsbBootloader {
    /// Katapult's serial bootloader device and USB topology.
    Katapult {
        /// Linux sysfs path identifying the physical USB topology.
        sysfs_path: String,
        /// Katapult's serial device at that topology.
        serial_device: String,
    },
    /// STM32 ROM DFU at one USB topology.
    Stm32Dfu {
        /// Linux sysfs path identifying the physical USB topology.
        sysfs_path: String,
    },
    /// PicoBoot ROM bootloader at one USB topology.
    PicoBoot {
        /// Linux sysfs path identifying the physical USB topology.
        sysfs_path: String,
    },
}

impl SelectedUsbBootloader {
    /// The diagnostic form of this selection.
    pub open spec fn text(self) -> Seq<char> {
        match self {
            SelectedUsbBootloader::Katapult { sysfs_path, serial_device } =>
            "Katapult { sysfs_path: "@ + text::quoted(sysfs_path@) + ", serial_device: "@
                + text::quoted(serial_device@) + " }"@,
            SelectedUsbBootloader::Stm32Dfu { sysfs_path } => "Stm32Dfu { sysfs_path: "@
                + text::quoted(sysfs_path@) + " }"@,
            SelectedUsbBootloader::PicoBoot { sysfs_path } => "PicoBoot { sysfs_path: "@
                + text::quoted(sysfs_path@) + " }"@,
        }
    }

    /// The diagnostic form of this selection.
    pub fn describe(&self) -> (description: String)
        ensures
            description@ == self.text(),
    {
        match self {
            SelectedUsbBootloader::Katapult { sysfs_path, serial_device } => {
                let mut description: String = "Katapult { sysfs_path: ".to_owned();
                description.append(text::quote(sysfs_path.as_str()).as_str());
                description.append(", serial_device: ");
                description.append(text::quote(serial_device.as_str()).as_str());
                description.append(" }");
                description
            },
            SelectedUsbBootloader::Stm32Dfu { sysfs_path } => {
                let mut description: String = "Stm32Dfu { sysfs_path: ".to_owned();
                description.append(text::quote(sysfs_path.as_str()).as_str());
                description.append(" }");
                description
            },
            SelectedUsbBootloader::PicoBoot { sysfs_path } => {
                let mut description: String = "PicoBoot { sysfs_path: ".to_owned();
                description.append(text::quote(sysfs_path.as_str()).as_str());
                description.append(" }");
                description
            },
        }
    }
}

/// Diagnostic identity of a USB bootloader no supported backend recognizes.
#[derive(Clone, Debug, PartialEq, Eq)]
pub struct UnsupportedBootloaderIdentity {
    /// USB vendor and product identifiers observed after re-enumeration.
    pub usb_id: String,
    /// USB manufacturer observed after re-enumeration.
    pub manufacturer: String,
    /// USB product string, or `"unknown"` when the device reported none.
    pub product: String,
    /// USB serial number string, or `"none"` when the device reported none.
    pub serial: String,
    /// USB device class byte, as reported (e.g. `"ef"`).
    pub device_class: String,
    /// USB device subclass byte, as reported.
    pub device_subclass: String,
    /// USB device protocol byte, as reported.
    pub device_protocol: String,
    /// Linux sysfs path identifying the physical USB topology observed.
    pub sysfs_path: String,
}

/// An observed USB bootloader cannot be used by a supported native backend.
#[derive(Clone, Debug, PartialEq, Eq)]
pub enum UsbBootloaderSelectionError {
    /// No supported backend recognizes the observed bootloader identity.
    Unsupported(Box<UnsupportedBootloaderIdentity>),
    /// Katapult appeared without a unique serial device at its topology.
    KatapultSerialDeviceMissing(String),
}

impl UnsupportedBootloaderIdentity {
    /// The diagnostic form of this identity.
    pub open spec fn diagnostic(self) -> Seq<char> {
        text::field("UnsupportedBootloaderIdentity { usb_id: "@, self.usb_id@) + text::field(
            ", manufacturer: "@,
            self.manufacturer@,
        ) + text::field(", product: "@, self.product@) + text::field(", serial: "@, self.serial@)
            + text::field(", device_class: "@, self.device_class@) + text::field(
            ", device_subclass: "@,
            self.device_subclass@,
        ) + text::field(", device_protocol: "@, self.device_protocol@) + text::field(
            ", sysfs_path: "@,
            self.sysfs_path@,
        ) + " }"@
    }

    /// The diagnostic form of this identity.
    pub fn describe(&self) -> (description: String)
        ensures
            description@ == self.diagnostic(),
    {
        let mut description: String = String::new();
        text::append_field(
            &mut description,
            "UnsupportedBootloaderIdentity { usb_id: ",
            self.usb_id.as_str(),
        );
        text::append_field(&mut description, ", manufacturer: ", self.manufacturer.as_str());
        text::append_field(&mut description, ", product: ", self.product.as_str());
        text::append_field(&mut description, ", serial: ", self.serial.as_str());
        text::append_field(&mut description, ", device_class: ", self.device_class.as_str());
        text::append_field(&mut description, ", device_subclass: ", self.device_subclass.as_str());
        text::append_field(&mut description, ", device_protocol: ", self.device_protocol.as_str());
        text::append_field(&mut description, ", sysfs_path: ", self.sysfs_path.as_str());
        description.append(" }");
        assert(description@ =~= self.diagnostic());
        description
    }
}

impl UsbBootloaderSelectionError {
    /// The diagnostic form of this error.
    pub open spec fn diagnostic(self) -> Seq<char> {
        match self {
            UsbBootloaderSelectionError::Unsupported(identity) => "Unsupported("@
                + identity.diagnostic() + ")"@,
            UsbBootloaderSelectionError::KatapultSerialDeviceMissing(path) => text::field(
                "KatapultSerialDeviceMissing("@,
                path@,
            ) + ")"@,
        }
    }

    /// The diagnostic form of this error.
    pub fn describe(&self) -> (description: String)
        ensures
            description@ == self.diagnostic(),
    {
        let mut description: String = String::new();
        match self {
            UsbBootloaderSelectionError::Unsupported(identity) => {
                description.append("Unsupported(");
                description.append(identity.describe().as_str());
            },
            UsbBootloaderSelectionError::KatapultSerialDeviceMissing(path) => {
                text::append_field(
                    &mut description,
                    "KatapultSerialDeviceMissing(",
                    path.as_str(),
                );
            },
        }
        description.append(")");
        assert(description@ =~= self.diagnostic());
        description
    }

    /// The wording of this error.
    pub open spec fn text(self) -> Seq<char> {
        match self {
            UsbBootloaderSelectionError::Unsupported(identity) => "USB device "@ + identity.usb_id@
                + " ("@ + identity.manufacturer@
                + ") is not a supported bootloader\n  product:      "@ + identity.product@
                + "\n  serial:       "@ + identity.serial@ + "\n  device class: "@
                + identity.device_class@ + "/"@ + identity.device_subclass@ + "/"@
                + identity.device_protocol@ + "\n  sysfs path:   "@ + identity.sysfs_path@,
            UsbBootloaderSelectionError::KatapultSerialDeviceMissing(path) =>
            "Katapult bootloader at "@ + path@ + " has no unique serial device"@,
        }
    }

    /// The wording of this error.
    pub fn message(&self) -> (message: String)
        ensures
            message@ == self.text(),
    {
        match self {
            UsbBootloaderSelectionError::Unsupported(identity) => {
                let mut message: String = "USB device ".to_owned();
                message.append(identity.usb_id.as_str());
                message.append(" (");
                message.append(identity.manufacturer.as_str());
                message.append(") is not a supported bootloader\n  product:      ");
                message.append(identity.product.as_str());
                message.append("\n  serial:       ");
                message.append(identity.serial.as_str());
                message.append("\n  device class: ");
                message.append(identity.device_class.as_str());
                message.append("/");
                message.append(identity.device_subclass.as_str());
                message.append("/");
                message.append(identity.device_protocol.as_str());
                message.append("\n  sysfs path:   ");
                message.append(identity.sysfs_path.as_str());
                message
            },
            UsbBootloaderSelectionError::KatapultSerialDeviceMissing(path) => {
                let mut message: String = "Katapult bootloader at ".to_owned();
                message.append(path.as_str());
                message.append(" has no unique serial device");
                message
            },
        }
    }
}

/// `value`, or `fallback` where it is empty.
pub open spec fn non_empty(value: Seq<char>, fallback: Seq<char>) -> Seq<char> {
    if value.len() == 0 {
        fallback
    } else {
        value
    }
}

fn non_empty_or(value: &str, fallback: &str) -> (chosen: String)
    ensures
        chosen@ == non_empty(value@, fallback@),
{
    if value.unicode_len() == 0 {
        fallback.to_owned()
    } else {
        value.to_owned()
    }
}

/// Selects a native backend only from one observed USB bootloader identity. The snapshot of the
/// same topology describes an identity that no backend recognizes.
pub fn select_usb_bootloader(
    observed: ObservedUsbBootloader,
    snapshot: &UsbTopologySnapshot,
) -> (selected: Result<SelectedUsbBootloader, UsbBootloaderSelectionError>)
    ensures
        selects(observed, *snapshot, selected),
{
    match observed.kind() {
        Some(UsbBootloaderKind::Katapult) => match observed.serial_device {
            Some(serial_device) => Ok(
                SelectedUsbBootloader::Katapult { sysfs_path: observed.sysfs_path, serial_device },
            ),
            None => Err(
                UsbBootloaderSelectionError::KatapultSerialDeviceMissing(observed.sysfs_path),
            ),
        },
        Some(UsbBootloaderKind::Stm32Dfu) => Ok(
            SelectedUsbBootloader::Stm32Dfu { sysfs_path: observed.sysfs_path },
        ),
        Some(UsbBootloaderKind::PicoBoot) => Ok(
            SelectedUsbBootloader::PicoBoot { sysfs_path: observed.sysfs_path },
        ),
        None => Err(
            UsbBootloaderSelectionError::Unsupported(
                Box::new(
                    UnsupportedBootloaderIdentity {
                        usb_id: observed.usb_id,
                        manufacturer: observed.manufacturer,
                        product: non_empty_or(snapshot.product.as_str(), "unknown"),
                        serial: non_empty_or(snapshot.serial.as_str(), "none"),
                        device_class: snapshot.device_class.clone(),
                        device_subclass: snapshot.device_subclass.clone(),
                        device_protocol: snapshot.device_protocol.clone(),
                        sysfs_path: observed.sysfs_path,
                    },
                ),
            ),
        ),
    }
}

/// A USB device directory and where it stands.
#[derive(Debug, PartialEq, Eq)]
pub struct UsbDeviceDirectory {
    /// Linux sysfs path of the directory.
    pub path: String,
    /// What the directory holds.
    pub node: SysfsNode,
}

/// Whether `observed` is what a device directory shows.
pub open spec fn observes(directory: UsbDeviceDirectory, observed: ObservedUsbBootloader) -> bool {
    &&& observed.sysfs_path@ == directory.path@
    &&& observed.usb_id@ == usb_sysfs::identity_of(directory.node).usb_id
    &&& observed.manufacturer@ == usb_sysfs::identity_of(directory.node).manufacturer
    &&& match observed.serial_device {
        Some(device) => usb_sysfs::device_ttys(directory.node).len() == 1 && device@ == "/dev/"@
            + usb_sysfs::device_ttys(directory.node)[0],
        None => usb_sysfs::device_ttys(directory.node).len() != 1,
    }
}

/// The positions of the known bootloaders among the first `count` directories.
pub open spec fn known_bootloaders(directories: Seq<UsbDeviceDirectory>, count: int) -> Seq<int>
    decreases count,
{
    if count <= 0 {
        Seq::empty()
    } else {
        let identity = usb_sysfs::identity_of(directories[count - 1].node);
        let before = known_bootloaders(directories, count - 1);
        if identity_kind(identity.usb_id, identity.manufacturer) is Some {
            before.push(count - 1)
        } else {
            before
        }
    }
}

/// Returns the devices whose identity classifies as a known bootloader, in order.
///
/// Unlike [`select_usb_bootloader`], this doesn't require a prior identity to
/// have changed away from: it inspects whatever is present right now, so it
/// can find a device that was already sitting in a bootloader before this
/// process started (e.g. after a failed update left it there).
pub fn scan_usb_bootloaders(directories: &Vec<UsbDeviceDirectory>) -> (found: Vec<
    ObservedUsbBootloader,
>)
    ensures
        found@.len() == known_bootloaders(directories@, directories@.len() as int).len(),
        forall|i: int|
            0 <= i < found@.len() ==> observes(
                directories@[known_bootloaders(directories@, directories@.len() as int)[i]],
                #[trigger] found@[i],
            ),
        forall|i: int| 0 <= i < found@.len() ==> (#[trigger] found@[i]).spec_kind() is Some,
{
    let mut found: Vec<ObservedUsbBootloader> = Vec::new();
    let mut i: usize = 0;
    while i < directories.len()
        invariant
            i <= directories@.len(),
            found@.len() == known_bootloaders(directories@, i as int).len(),
            forall|k: int|
                0 <= k < found@.len() ==> observes(
                    directories@[known_bootloaders(directories@, i as int)[k]],
                    #[trigger] found@[k],
                ),
            forall|k: int| 0 <= k < found@.len() ==> (#[trigger] found@[k]).spec_kind() is Some,
        decreases directories@.len() - i,
    {
        let node: &SysfsNode = &directories[i].node;
        let identity: UsbIdentity = usb_sysfs::usb_identity(node);
        let kind: Option<UsbBootloaderKind> = classify_usb_identity(
            identity.usb_id.as_str(),
            identity.manufacturer.as_str(),
        );
        let ghost before = known_bootloaders(directories@, i as int);
        if kind.is_some() {
            let observed: ObservedUsbBootloader = ObservedUsbBootloader {
                sysfs_path: directories[i].path.clone(),
                usb_id: identity.usb_id,
                manufacturer: identity.manufacturer,
                serial_device: usb_sysfs::usb_tty(node),
            };
            assert(observes(directories@[i as int], observed));
            found.push(observed);
            assert(known_bootloaders(directories@, i + 1) =~= before.push(i as int));
        }
        i += 1;
    }
    found
}

/// A device is selected for a native backend only by an identity that this backend is known by.
pub proof fn law_selection_needs_known_identity(usb_id: Seq<char>, manufacturer: Seq<char>)
    ensures
        identity_kind(usb_id, manufacturer) == Some(UsbBootloaderKind::Stm32Dfu) ==> text::lowercased(
            usb_id,
        ) == text::lowercased("0483:df11"@),
        identity_kind(usb_id, manufacturer) == Some(UsbBootloaderKind::PicoBoot) ==> text::lowercased(
            usb_id,
        ) == text::lowercased("2e8a:0003"@) || text::lowercased(usb_id) == text::lowercased(
            "2e8a:000f"@,
        ),
        identity_kind(usb_id, manufacturer) == Some(UsbBootloaderKind::Katapult) ==> text::lowercased(
            usb_id,
        ) == text::lowercased("1d50:6177"@) || text::lowercased(manufacturer) == text::lowercased(
            "katapult"@,
        ),
{
}

/// Classification does not depend on the case in which a device spells its identity.
pub proof fn law_classification_ignores_case(usb_id: Seq<char>, manufacturer: Seq<char>)
    ensures
        identity_kind(text::lowercased(usb_id), text::lowercased(manufacturer)) == identity_kind(
            usb_id,
            manufacturer,
        ),
{
    text::lemma_lowercased_twice(usb_id);
    text::lemma_lowercased_twice(manufacturer);
}


proof fn lemma_identities_differ()
    ensures
        text::lowercased("1d50:6177"@) != text::lowercased("0483:df11"@),
        text::lowercased("1d50:6177"@) != text::lowercased("2e8a:0003"@),
        text::lowercased("1d50:6177"@) != text::lowercased("2e8a:000f"@),
        text::lowercased("0483:df11"@) != text::lowercased("2e8a:0003"@),
        text::lowercased("0483:df11"@) != text::lowercased("2e8a:000f"@),
{
    reveal_strlit("1d50:6177");
    reveal_strlit("0483:df11");
    reveal_strlit("2e8a:0003");
    reveal_strlit("2e8a:000f");
    assert(text::lowercased("1d50:6177"@)[0] == '1');
    assert(text::lowercased("0483:df11"@)[0] == '0');
    assert(text::lowercased("2e8a:0003"@)[0] == '2');
    assert(text::lowercased("2e8a:000f"@)[0] == '2');
}

/// A bootloader is told by its USB identity, in any case: 1d50:6177 is Katapult, as is whatever
/// names Katapult as its manufacturer; 0483:df11 is the STM32's ROM; 2e8a:0003 and 2e8a:000f are an
/// RP2040's and an RP2350's PicoBoot; and nothing else is known.
pub proof fn law_bootloaders_are_told_by_their_identity(usb_id: Seq<char>, manufacturer: Seq<char>)
    ensures
        text::same_ignoring_case(manufacturer, "katapult"@) || text::same_ignoring_case(
            usb_id,
            "1d50:6177"@,
        ) ==> identity_kind(usb_id, manufacturer) == Some(UsbBootloaderKind::Katapult),
        !text::same_ignoring_case(manufacturer, "katapult"@) ==> {
            &&& text::same_ignoring_case(usb_id, "0483:df11"@) ==> identity_kind(
                usb_id,
                manufacturer,
            ) == Some(UsbBootloaderKind::Stm32Dfu)
            &&& text::same_ignoring_case(usb_id, "2e8a:0003"@) || text::same_ignoring_case(
                usb_id,
                "2e8a:000f"@,
            ) ==> identity_kind(usb_id, manufacturer) == Some(UsbBootloaderKind::PicoBoot)
            &&& !text::same_ignoring_case(usb_id, "1d50:6177"@) && !text::same_ignoring_case(
                usb_id,
                "0483:df11"@,
            ) && !text::same_ignoring_case(usb_id, "2e8a:0003"@) && !text::same_ignoring_case(
                usb_id,
                "2e8a:000f"@,
            ) ==> identity_kind(usb_id, manufacturer) is None
        },
{
    lemma_identities_differ();
}

proof fn lemma_known_bootloaders(directories: Seq<UsbDeviceDirectory>, count: int, index: int)
    requires
        0 <= count <= directories.len(),
    ensures
        known_bootloaders(directories, count).contains(index) == (0 <= index < count
            && identity_kind(
            usb_sysfs::identity_of(directories[index].node).usb_id,
            usb_sysfs::identity_of(directories[index].node).manufacturer,
        ) is Some),
    decreases count,
{
    if count > 0 {
        lemma_known_bootloaders(directories, count - 1, index);
        let before = known_bootloaders(directories, count - 1);
        let after = known_bootloaders(directories, count);
        if before.contains(index) {
            let i = choose|i: int| 0 <= i < before.len() && before[i] == index;
            assert(after[i] == index);
        }
        if after.len() > before.len() && index == count - 1 {
            assert(after[after.len() - 1] == index);
        }
        if after.contains(index) && !before.contains(index) {
            let i = choose|i: int| 0 <= i < after.len() && after[i] == index;
            if i < before.len() {
                assert(before[i] == index);
            }
        }
    }
}

/// A scan lists every device whose identity is that of a bootloader, and no other.
pub proof fn law_scan_lists_every_bootloader(directories: Seq<UsbDeviceDirectory>, index: int)
    ensures
        known_bootloaders(directories, directories.len() as int).contains(index) == (0 <= index
            < directories.len() && identity_kind(
            usb_sysfs::identity_of(directories[index].node).usb_id,
            usb_sysfs::identity_of(directories[index].node).manufacturer,
        ) is Some),
{
    lemma_known_bootloaders(directories, directories.len() as int, index);
}

/// Whether `selected` is what an observed bootloader is used as.
pub open spec fn selects(
    observed: ObservedUsbBootloader,
    snapshot: UsbTopologySnapshot,
    selected: Result<SelectedUsbBootloader, UsbBootloaderSelectionError>,
) -> bool {
    match observed.spec_kind() {
        Some(UsbBootloaderKind::Katapult) => match observed.serial_device {
            Some(serial_device) => selected == Ok::<
                SelectedUsbBootloader,
                UsbBootloaderSelectionError,
            >(
                (SelectedUsbBootloader::Katapult {
                    sysfs_path: observed.sysfs_path,
                    serial_device,
                }),
            ),
            None => selected == Err::<SelectedUsbBootloader, UsbBootloaderSelectionError>(
                UsbBootloaderSelectionError::KatapultSerialDeviceMissing(observed.sysfs_path),
            ),
        },
        Some(UsbBootloaderKind::Stm32Dfu) => selected == Ok::<
            SelectedUsbBootloader,
            UsbBootloaderSelectionError,
        >((SelectedUsbBootloader::Stm32Dfu { sysfs_path: observed.sysfs_path })),
        Some(UsbBootloaderKind::PicoBoot) => selected == Ok::<
            SelectedUsbBootloader,
            UsbBootloaderSelectionError,
        >((SelectedUsbBootloader::PicoBoot { sysfs_path: observed.sysfs_path })),
        None => {
            &&& selected is Err
            &&& selected->Err_0 is Unsupported
            &&& {
                let identity = *selected->Err_0->Unsupported_0;
                &&& identity.usb_id == observed.usb_id
                &&& identity.manufacturer == observed.manufacturer
                &&& identity.product@ == non_empty(snapshot.product@, "unknown"@)
                &&& identity.serial@ == non_empty(snapshot.serial@, "none"@)
                &&& identity.device_class == snapshot.device_class
                &&& identity.device_subclass == snapshot.device_subclass
                &&& identity.device_protocol == snapshot.device_protocol
                &&& identity.sysfs_path == observed.sysfs_path
            }
        },
    }
}

/// A bootloader is used as what its identity says that it is, at the topology at which it was
/// observed: Katapult by either mark of it, STM32 DFU and PicoBoot by their USB identities. Only
/// Katapult needs a serial device, and is used at its own.
pub proof fn law_selected_bootloader_is_the_observed_one(
    observed: ObservedUsbBootloader,
    snapshot: UsbTopologySnapshot,
    selected: Result<SelectedUsbBootloader, UsbBootloaderSelectionError>,
)
    requires
        selects(observed, snapshot, selected),
    ensures
        ({
            let katapult = text::same_ignoring_case(observed.usb_id@, "1d50:6177"@)
                || text::same_ignoring_case(observed.manufacturer@, "katapult"@);
            &&& selected is Ok && selected->Ok_0 is Katapult ==> katapult
                && selected->Ok_0->Katapult_sysfs_path == observed.sysfs_path
                && observed.serial_device == Some(selected->Ok_0->Katapult_serial_device)
            &&& selected is Ok && selected->Ok_0 is Stm32Dfu ==> !katapult
                && text::same_ignoring_case(observed.usb_id@, "0483:df11"@)
                && selected->Ok_0->Stm32Dfu_sysfs_path == observed.sysfs_path
            &&& selected is Ok && selected->Ok_0 is PicoBoot ==> !katapult && (
            text::same_ignoring_case(observed.usb_id@, "2e8a:0003"@) || text::same_ignoring_case(
                observed.usb_id@,
                "2e8a:000f"@,
            )) && selected->Ok_0->PicoBoot_sysfs_path == observed.sysfs_path
            &&& katapult && observed.serial_device is Some ==> selected is Ok && selected->Ok_0
                is Katapult
            &&& katapult && observed.serial_device is None ==> selected is Err && selected->Err_0
                == UsbBootloaderSelectionError::KatapultSerialDeviceMissing(observed.sysfs_path)
            &&& !katapult && text::same_ignoring_case(observed.usb_id@, "0483:df11"@) ==> selected
                is Ok && selected->Ok_0 is Stm32Dfu
        }),
{
}

/// A device that is no known bootloader is refused, and described by what was observed of it; what
/// it does not say of itself is named so.
pub proof fn law_unknown_device_is_described(
    observed: ObservedUsbBootloader,
    snapshot: UsbTopologySnapshot,
    selected: Result<SelectedUsbBootloader, UsbBootloaderSelectionError>,
)
    requires
        selects(observed, snapshot, selected),
        selected is Err,
        selected->Err_0 is Unsupported,
    ensures
        ({
            let identity = *selected->Err_0->Unsupported_0;
            &&& identity_kind(observed.usb_id@, observed.manufacturer@) is None
            &&& identity.usb_id == observed.usb_id
            &&& identity.sysfs_path == observed.sysfs_path
            &&& snapshot.product@.len() > 0 ==> identity.product@ == snapshot.product@
            &&& snapshot.product@.len() == 0 ==> identity.product@ == "unknown"@
            &&& snapshot.serial@.len() > 0 ==> identity.serial@ == snapshot.serial@
            &&& snapshot.serial@.len() == 0 ==> identity.serial@ == "none"@
        }),
{
}

/// An observed bootloader is described as its directory shows it: by its path, its identity, and
/// its serial device where it has exactly one.
pub proof fn law_observation_is_of_the_directory(
    directory: UsbDeviceDirectory,
    observed: ObservedUsbBootloader,
)
    requires
        observes(directory, observed),
    ensures
        observed.sysfs_path@ == directory.path@,
        observed.usb_id@ == usb_sysfs::identity_of(directory.node).usb_id,
        observed.manufacturer@ == usb_sysfs::identity_of(directory.node).manufacturer,
        observed.serial_device is Some <==> usb_sysfs::device_ttys(directory.node).len() == 1,
        observed.serial_device is Some ==> observed.serial_device->Some_0@ == "/dev/"@
            + usb_sysfs::device_ttys(directory.node)[0],
{
}

} // verus!
