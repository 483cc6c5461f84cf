//! USB devices as sysfs shows them.
use aldis::flash::usb_sysfs::{
    usb_device_ancestor, usb_identity, usb_topology_snapshot, usb_tty, SysfsAncestor,
    SysfsAttribute, SysfsNode,
};

fn node(name: &str, attributes: &[(&str, &str)], children: Vec<SysfsNode>) -> SysfsNode {
    SysfsNode {
        name: name.to_owned(),
        attributes: attributes
            .iter()
            .map(|(name, value)| SysfsAttribute {
                name: (*name).to_owned(),
                value: (*value).to_owned(),
            })
            .collect(),
        children,
    }
}

fn ancestor(path: &str, files: &[&str]) -> SysfsAncestor {
    SysfsAncestor {
        path: path.to_owned(),
        files: files.iter().map(|file| (*file).to_owned()).collect(),
    }
}

#[test]
fn finds_the_nearest_ancestor_with_a_complete_usb_identity() {
    let ancestors = vec![
        ancestor("/root/1-1/1-1:1.0/tty/ttyACM0", &[]),
        ancestor("/root/1-1/1-1:1.0/tty", &[]),
        ancestor("/root/1-1/1-1:1.0", &[]),
        ancestor("/root/1-1", &["idVendor", "idProduct", "busnum", "devnum"]),
        ancestor("/root", &["idVendor", "idProduct", "busnum", "devnum"]),
    ];

    assert_eq!(usb_device_ancestor(&ancestors), Some(3));
}

#[test]
fn returns_none_when_no_ancestor_has_a_complete_usb_identity() {
    let ancestors = vec![
        ancestor("/root/1-1/tty/ttyACM0", &[]),
        ancestor("/root/1-1/tty", &["idVendor", "idProduct", "busnum"]),
        ancestor("/root/1-1", &[]),
    ];

    assert_eq!(usb_device_ancestor(&ancestors), None);
}

#[test]
fn captures_device_and_interface_descriptors_at_one_topology() {
    let endpoint = node(
        "ep_81",
        &[("bEndpointAddress", "81\n"), ("wMaxPacketSize", "0040\n")],
        Vec::new(),
    );
    let interface = node(
        "1-1:1.0",
        &[("bInterfaceNumber", "00\n"), ("bInterfaceClass", "0a\n")],
        vec![endpoint],
    );
    let device = node(
        "1-1",
        &[
            ("bDeviceClass", "ef\n"),
            ("bcdUSB", "0200\n"),
            ("product", "Example Device\n"),
        ],
        vec![interface],
    );

    let snapshot = usb_topology_snapshot(&device);

    assert_eq!(snapshot.device_class, "ef");
    assert_eq!(snapshot.usb_version, "0200");
    assert_eq!(snapshot.product, "Example Device");
    assert_eq!(snapshot.interfaces.len(), 1);
    assert_eq!(snapshot.interfaces[0].number, "00");
    assert_eq!(snapshot.interfaces[0].class, "0a");
    assert_eq!(snapshot.interfaces[0].endpoints.len(), 1);
    assert_eq!(snapshot.interfaces[0].endpoints[0].address, "81");
    assert_eq!(snapshot.interfaces[0].endpoints[0].max_packet_size, "0040");
}

#[test]
fn leaves_missing_attributes_empty_instead_of_failing() {
    let snapshot = usb_topology_snapshot(&node("1-1", &[], Vec::new()));

    assert_eq!(snapshot.device_class, "");
    assert_eq!(snapshot.serial, "");
    assert!(snapshot.interfaces.is_empty());
}

#[test]
fn lowers_the_case_of_an_identity() {
    let identity = usb_identity(&node(
        "1-1",
        &[
            ("idVendor", "2E8A\n"),
            ("idProduct", "000F\n"),
            ("manufacturer", " Raspberry Pi \n"),
        ],
        Vec::new(),
    ));

    assert_eq!(identity.usb_id, "2e8a:000f");
    assert_eq!(identity.manufacturer, "raspberry pi");
}

#[test]
fn finds_a_serial_port_only_where_there_is_exactly_one() {
    let tty = |name: &str| node(name, &[], Vec::new());
    let interface = |name: &str, ttys: Vec<SysfsNode>| node(name, &[], vec![node("tty", &[], ttys)]);

    let one = node("1-1", &[], vec![interface("1-1:1.0", vec![tty("ttyACM0")])]);
    assert_eq!(usb_tty(&one), Some("/dev/ttyACM0".to_owned()));

    let two = node(
        "1-1",
        &[],
        vec![
            interface("1-1:1.0", vec![tty("ttyACM0")]),
            interface("1-1:1.1", vec![tty("ttyACM1")]),
        ],
    );
    assert_eq!(usb_tty(&two), None);

    let other = node("1-1", &[], vec![interface("1-2:1.0", vec![tty("ttyACM0")])]);
    assert_eq!(usb_tty(&other), None);
}
