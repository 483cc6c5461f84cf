//! Recovery: leaving an already-running bootloader without a full update.
use vstd::prelude::*;

use crate::flash::usb_bootloader;
use crate::flash::usb_bootloader::{
    scan_usb_bootloaders,
    ObservedUsbBootloader,
    UsbBootloaderKind,
    UsbDeviceDirectory,
};

verus! {

/// One USB bootloader found on the bus, already classified.
#[derive(Debug, PartialEq, Eq)]
pub struct DetectedBootloader {
    /// The bootloader's observed USB identity and topology.
    pub observed: ObservedUsbBootloader,
    /// The native backend that recognizes this identity.
    pub kind: UsbBootloaderKind,
}

/// Whether `detected` lists exactly the known bootloaders among the devices, in order.
pub open spec fn detects(
    directories: Seq<UsbDeviceDirectory>,
    detected: Seq<DetectedBootloader>,
) -> bool {
    let known = usb_bootloader::known_bootloaders(directories, directories.len() as int);
    &&& detected.len() == known.len()
    &&& forall|i: int|
        0 <= i < detected.len() ==> usb_bootloader::observes(
            directories[known[i]],
            (#[trigger] detected[i]).observed,
        ) && detected[i].observed.spec_kind() == Some(detected[i].kind)
}

/// Finds every USB device whose identity classifies as a known
/// bootloader, independent of Moonraker or any MCU's configured connection.
///
/// This is the entry point for recovering an MCU that is already stuck in a
/// bootloader: unlike the flashing path, it doesn't need to have observed the
/// MCU's application identity beforehand.
pub fn detect_bootloaders(directories: &Vec<UsbDeviceDirectory>) -> (detected: Vec<
    DetectedBootloader,
>)
    ensures
        detects(directories@, detected@),
{
    let found: Vec<ObservedUsbBootloader> = scan_usb_bootloaders(directories);
    let mut detected: Vec<DetectedBootloader> = Vec::new();
    let ghost known = usb_bootloader::known_bootloaders(directories@, directories@.len() as int);
    let mut i: usize = 0;
    while i < found.len()
        invariant
            i <= found@.len(),
            found@.len() == known.len(),
            detected@.len() == i,
            forall|k: int|
                0 <= k < found@.len() ==> usb_bootloader::observes(
                    directories@[known[k]],
                    #[trigger] found@[k],
                ),
            forall|k: int| 0 <= k < found@.len() ==> (#[trigger] found@[k]).spec_kind() is Some,
            forall|k: int|
                0 <= k < i ==> usb_bootloader::observes(
                    directories@[known[k]],
                    (#[trigger] detected@[k]).observed,
                ) && detected@[k].observed.spec_kind() == Some(detected@[k].kind),
        decreases found@.len() - i,
    {
        let observed: ObservedUsbBootloader = found[i].clone();
        if let Some(kind) = observed.kind() {
            detected.push(DetectedBootloader { observed, kind });
        }
        i += 1;
    }
    detected
}

/// Decides a wait for bootloaders: it ends with whatever was found once at least one known
/// bootloader is present or the deadline has passed (possibly with none), else it goes on.
pub fn wait_for_any_bootloader(detected: Vec<DetectedBootloader>, deadline_passed: bool) -> (found:
    Option<Vec<DetectedBootloader>>)
    ensures
        found == found_by(detected, deadline_passed),
{
    if detected.len() > 0 || deadline_passed {
        Some(detected)
    } else {
        None
    }
}

/// Decides a wait for a device to leave: `true` once it is gone (e.g. after a
/// successful reboot into its application), `false` if it is still present
/// when the deadline has passed, else the wait goes on.
pub fn wait_until_absent(present: bool, deadline_passed: bool) -> (absent: Option<bool>)
    ensures
        absent == absent_by(present, deadline_passed),
{
    if !present {
        Some(true)
    } else if deadline_passed {
        Some(false)
    } else {
        None
    }
}

/// What a look for bootloaders settles.
pub open spec fn found_by(detected: Vec<DetectedBootloader>, deadline_passed: bool) -> Option<
    Vec<DetectedBootloader>,
> {
    if detected@.len() > 0 || deadline_passed {
        Some(detected)
    } else {
        None
    }
}

/// What a look at a device that should leave settles.
pub open spec fn absent_by(present: bool, deadline_passed: bool) -> Option<bool> {
    if !present {
        Some(true)
    } else if deadline_passed {
        Some(false)
    } else {
        None
    }
}

/// The wait for a bootloader goes on while none is there and there is time; whatever it ends with
/// was detected.
pub proof fn law_wait_ends_when_a_bootloader_is_there(
    detected: Vec<DetectedBootloader>,
    deadline_passed: bool,
)
    ensures
        found_by(detected, deadline_passed) is None <==> detected@.len() == 0 && !deadline_passed,
        found_by(detected, deadline_passed) is Some ==> found_by(
            detected,
            deadline_passed,
        )->Some_0 == detected,
{
}

/// A device counts as gone exactly if it is no longer there, and as staying only when the time is
/// over.
pub proof fn law_device_is_gone_only_if_absent(present: bool, deadline_passed: bool)
    ensures
        absent_by(present, deadline_passed) == Some(true) <==> !present,
        absent_by(present, deadline_passed) == Some(false) <==> present && deadline_passed,
        absent_by(present, deadline_passed) is None <==> present && !deadline_passed,
{
}

/// A detected bootloader is one of the devices that were looked at, described as it is there and
/// with the kind that its identity tells.
pub proof fn law_detected_bootloaders_were_seen(
    directories: Seq<UsbDeviceDirectory>,
    detected: Seq<DetectedBootloader>,
    i: int,
)
    requires
        detects(directories, detected),
        0 <= i < detected.len(),
    ensures
        exists|k: int|
            0 <= k < directories.len() && usb_bootloader::observes(
                #[trigger] directories[k],
                detected[i].observed,
            ),
        usb_bootloader::identity_kind(
            detected[i].observed.usb_id@,
            detected[i].observed.manufacturer@,
        ) == Some(detected[i].kind),
{
    let known = usb_bootloader::known_bootloaders(directories, directories.len() as int);
    usb_bootloader::law_scan_lists_every_bootloader(directories, known[i]);
    assert(known.contains(known[i]));
}

} // verus!
