//! USB identities at a serial device's topology.
use aldis::flash::katapult::serial::{
    is_katapult_usb, UsbBootloaderError, UsbWatch, BOOTLOADER_ENTRY_REQUEST,
};
use aldis::flash::usb_bootloader::UsbDeviceDirectory;
use aldis::flash::usb_sysfs::{SysfsAttribute, SysfsNode, UsbIdentity};

fn attribute(name: &str, value: &str) -> SysfsAttribute {
    SysfsAttribute {
        name: name.to_owned(),
        value: value.to_owned(),
    }
}

fn directory(name: &str, children: Vec<SysfsNode>) -> SysfsNode {
    SysfsNode {
        name: name.to_owned(),
        attributes: Vec::new(),
        children,
    }
}

fn device(usb_id: &str, manufacturer: &str, tty: Option<&str>) -> UsbDeviceDirectory {
    let (vendor, product) = usb_id.split_once(':').expect("usb id has vendor:product");
    let children = match tty {
        Some(tty) => vec![directory(
            "1-1:1.0",
            vec![directory("tty", vec![directory(tty, Vec::new())])],
        )],
        None => Vec::new(),
    };
    UsbDeviceDirectory {
        path: "/sys/bus/usb/devices/1-1".to_owned(),
        node: SysfsNode {
            name: "1-1".to_owned(),
            attributes: vec![
                attribute("idVendor", &format!("{vendor}\n")),
                attribute("idProduct", &format!("{product}\n")),
                attribute("manufacturer", &format!("{manufacturer}\n")),
            ],
            children,
        },
    }
}

fn identity(usb_id: &str, manufacturer: &str) -> UsbIdentity {
    UsbIdentity {
        usb_id: usb_id.to_owned(),
        manufacturer: manufacturer.to_owned(),
    }
}

#[test]
fn rejects_the_transient_empty_usb_identity_during_disconnect() {
    assert!(!UsbIdentity {
        usb_id: ":".to_owned(),
        manufacturer: String::new(),
    }
    .is_complete());
    assert!(UsbIdentity {
        usb_id: "2e8a:0003".to_owned(),
        manufacturer: "raspberry pi".to_owned(),
    }
    .is_complete());
}

#[test]
fn waits_for_the_tty_to_appear_after_the_usb_identity_re_enumerates() {
    let mut watch = UsbWatch::new(identity("2e8a:000c", "raspberry pi"));

    let early = watch.observe_any_usb_bootloader(&device("1d50:6177", "openmoko, inc.", None));
    assert!(early.is_none());

    let observed = watch
        .observe_any_usb_bootloader(&device("1d50:6177", "openmoko, inc.", Some("ttyACM0")))
        .expect("bootloader should eventually be observed");
    assert_eq!(observed.serial_device, Some("/dev/ttyACM0".to_owned()));
}

#[test]
fn reports_no_effect_when_the_device_never_leaves_its_pre_reset_identity() {
    let mut watch = UsbWatch::new(identity("1d50:6177", "openmoko, inc."));

    assert!(watch
        .observe_any_usb_bootloader(&device("1d50:6177", "openmoko, inc.", None))
        .is_none());

    assert!(matches!(
        watch.timeout_outcome("/sys/bus/usb/devices/1-1", None),
        UsbBootloaderError::NoEffect { .. }
    ));
}

#[test]
fn reports_not_detected_when_a_new_identity_never_exposes_a_tty() {
    let mut watch = UsbWatch::new(identity("1d50:6177", "openmoko, inc."));

    assert!(watch
        .observe_any_usb_bootloader(&device("2e8a:000c", "raspberry pi", None))
        .is_none());

    assert!(matches!(
        watch.timeout_outcome("/sys/bus/usb/devices/1-1", None),
        UsbBootloaderError::NotDetected { .. }
    ));
}

#[test]
fn rom_bootloaders_are_ready_without_a_tty() {
    let mut watch = UsbWatch::new(identity("1d50:614e", "klipper"));

    let dfu = watch
        .observe_any_usb_bootloader(&device("0483:df11", "stmicroelectronics", None))
        .expect("the STM32 ROM bootloader needs no serial device");
    assert_eq!(dfu.usb_id, "0483:df11");
    assert_eq!(dfu.serial_device, None);

    let pico = watch
        .observe_any_usb_bootloader(&device("2E8A:0003", "Raspberry Pi", None))
        .expect("PicoBoot needs no serial device");
    assert_eq!(pico.usb_id, "2e8a:0003");
    assert_eq!(pico.manufacturer, "raspberry pi");
}

#[test]
fn a_disconnecting_device_is_not_a_bootloader() {
    let mut watch = UsbWatch::new(identity("1d50:614e", "klipper"));

    assert!(watch
        .observe_any_usb_bootloader(&device(":", "", Some("ttyACM0")))
        .is_none());
}

#[test]
fn words_every_failed_bootloader_transition() {
    assert_eq!(
        UsbBootloaderError::NotUsbDevice {
            device: "/dev/ttyS0".to_owned()
        }
        .message(),
        "/dev/ttyS0 is not a USB device"
    );
    assert_eq!(
        UsbBootloaderError::NotDetected {
            device: "/dev/ttyACM0".to_owned(),
            reset_error: Some("busy".to_owned())
        }
        .message(),
        "no bootloader appeared at /dev/ttyACM0 before the timeout (reset error: busy)"
    );
    assert_eq!(
        UsbBootloaderError::NoEffect {
            device: "1-1".to_owned()
        }
        .message(),
        "1-1 never left application firmware; the reset request had no effect"
    );
}

#[test]
fn recognizes_katapult_by_identifier_or_manufacturer() {
    assert!(is_katapult_usb("1D50:6177", "openmoko, inc."));
    assert!(is_katapult_usb("1234:5678", "Katapult"));
    assert!(!is_katapult_usb("2e8a:0003", "raspberry pi"));
}

#[test]
fn spells_the_bootloader_entry_request() {
    assert_eq!(
        &BOOTLOADER_ENTRY_REQUEST[..],
        b"~ \x1c Request Serial Bootloader!! ~"
    );
}
