//! Shared USB sysfs topology helpers.
//!
//! A directory of sysfs is held as a plain value: its name, its attribute files and its
//! subdirectories. Reading that value from the system is the caller's work.
use vstd::prelude::*;

use crate::text;

verus! {

/// One attribute file: its name and what it holds.
#[derive(Clone, Debug, PartialEq, Eq)]
pub struct SysfsAttribute {
    /// The file's name.
    pub name: String,
    /// The file's content, as read.
    pub value: String,
}

/// One sysfs directory.
#[derive(Debug, PartialEq, Eq)]
pub struct SysfsNode {
    /// The directory's name.
    pub name: String,
    /// The readable attribute files in it.
    pub attributes: Vec<SysfsAttribute>,
    /// The directories in it.
    pub children: Vec<SysfsNode>,
}

/// The first attribute file from index `i` on with the given name.
pub open spec fn attribute_from(
    attributes: Seq<SysfsAttribute>,
    name: Seq<char>,
    i: int,
) -> Option<Seq<char>>
    decreases attributes.len() - i,
{
    if i < 0 || i >= attributes.len() {
        None
    } else if attributes[i].name@ == name {
        Some(attributes[i].value@)
    } else {
        attribute_from(attributes, name, i + 1)
    }
}

/// The value of an attribute without surrounding white space; empty where there is no such file.
pub open spec fn attribute(node: SysfsNode, name: Seq<char>) -> Seq<char> {
    match attribute_from(node.attributes@, name, 0) {
        Some(value) => text::trimmed(value),
        None => Seq::empty(),
    }
}

/// Reads one attribute of a directory; a missing file reads as empty.
pub fn read_sysfs_attribute(node: &SysfsNode, name: &str) -> (value: String)
    ensures
        value@ == attribute(*node, name@),
{
    let mut i: usize = 0;
    while i < node.attributes.len()
        invariant
            i <= node.attributes@.len(),
            attribute_from(node.attributes@, name@, 0) == attribute_from(
                node.attributes@,
                name@,
                i as int,
            ),
        decreases node.attributes@.len() - i,
    {
        if text::same_text(node.attributes[i].name.as_str(), name) {
            return text::trim(node.attributes[i].value.as_str()).to_owned();
        }
        i += 1;
    }
    let value: String = String::new();
    assert(value@ =~= Seq::<char>::empty());
    value
}

/// The USB identity fields of one device.
#[derive(Debug, PartialEq, Eq)]
pub struct UsbIdentity {
    /// Lowercase USB vendor and product identifiers separated by a colon.
    pub usb_id: String,
    /// Lowercase USB manufacturer string, empty where the device supplies none.
    pub manufacturer: String,
}

impl Clone for UsbIdentity {
    fn clone(&self) -> (copy: Self)
        ensures
            copy == *self,
    {
        UsbIdentity { usb_id: self.usb_id.clone(), manufacturer: self.manufacturer.clone() }
    }
}

/// The identity fields by their characters.
pub struct IdentityFields {
    pub usb_id: Seq<char>,
    pub manufacturer: Seq<char>,
}

impl View for UsbIdentity {
    type V = IdentityFields;

    open spec fn view(&self) -> IdentityFields {
        IdentityFields { usb_id: self.usb_id@, manufacturer: self.manufacturer@ }
    }
}

/// Whether an identifier pair names both a vendor and a product.
pub open spec fn complete_usb_id(usb_id: Seq<char>) -> bool {
    match text::divided(usb_id, ":"@) {
        Some((vendor, product)) => vendor.len() > 0 && product.len() > 0,
        None => false,
    }
}

impl UsbIdentity {
    /// Whether both the vendor and the product are known; while a device disconnects, neither is.
    pub fn is_complete(&self) -> (complete: bool)
        ensures
            complete == complete_usb_id(self.usb_id@),
    {
        match text::split_once(self.usb_id.as_str(), ":") {
            Some((vendor, product)) => vendor.unicode_len() > 0 && product.unicode_len() > 0,
            None => false,
        }
    }

    /// Whether two identities hold the same fields.
    pub fn same(&self, other: &UsbIdentity) -> (same: bool)
        ensures
            same == (self@ == other@),
    {
        text::same_text(self.usb_id.as_str(), other.usb_id.as_str()) && text::same_text(
            self.manufacturer.as_str(),
            other.manufacturer.as_str(),
        )
    }
}

/// The identity that a device directory shows.
pub open spec fn identity_of(device: SysfsNode) -> IdentityFields {
    IdentityFields {
        usb_id: text::lowercased(attribute(device, "idVendor"@)) + ":"@ + text::lowercased(
            attribute(device, "idProduct"@),
        ),
        manufacturer: text::lowercased(attribute(device, "manufacturer"@)),
    }
}

/// Reads the USB identity of a device directory.
pub fn usb_identity(device: &SysfsNode) -> (identity: UsbIdentity)
    ensures
        identity@ == identity_of(*device),
{
    let vendor: String = read_sysfs_attribute(device, "idVendor");
    let product: String = read_sysfs_attribute(device, "idProduct");
    let manufacturer: String = read_sysfs_attribute(device, "manufacturer");
    let mut usb_id: String = text::to_lowercase(vendor.as_str());
    usb_id.append(":");
    usb_id.append(text::to_lowercase(product.as_str()).as_str());
    UsbIdentity { usb_id, manufacturer: text::to_lowercase(manufacturer.as_str()) }
}

/// One ancestor of a sysfs path and the files in it.
#[derive(Clone, Debug, PartialEq, Eq)]
pub struct SysfsAncestor {
    /// The ancestor's path.
    pub path: String,
    /// The names of the files in it.
    pub files: Vec<String>,
}

/// Whether a list of file names has the given one.
pub open spec fn has_file(files: Seq<String>, name: Seq<char>) -> bool {
    exists|i: int| 0 <= i < files.len() && (#[trigger] files[i])@ == name
}

/// Whether a directory with these files is a USB device: its identity and its address on the bus.
pub open spec fn is_usb_device(files: Seq<String>) -> bool {
    has_file(files, "idVendor"@) && has_file(files, "idProduct"@) && has_file(files, "busnum"@)
        && has_file(files, "devnum"@)
}

fn lists_file(files: &Vec<String>, name: &str) -> (listed: bool)
    ensures
        listed == has_file(files@, name@),
{
    let mut i: usize = 0;
    while i < files.len()
        invariant
            i <= files@.len(),
            forall|k: int| 0 <= k < i ==> (#[trigger] files@[k])@ != name@,
        decreases files@.len() - i,
    {
        if text::same_text(files[i].as_str(), name) {
            return true;
        }
        i += 1;
    }
    false
}

/// The index of the nearest ancestor, given nearest first, that is a USB device with a complete
/// identity (`idVendor`, `idProduct`, `busnum`, `devnum`).
pub fn usb_device_ancestor(ancestors: &Vec<SysfsAncestor>) -> (nearest: Option<usize>)
    ensures
        match nearest {
            Some(i) => i < ancestors@.len() && is_usb_device(ancestors@[i as int].files@)
                && forall|k: int|
                0 <= k < i ==> !is_usb_device((#[trigger] ancestors@[k]).files@),
            None => forall|k: int|
                0 <= k < ancestors@.len() ==> !is_usb_device((#[trigger] ancestors@[k]).files@),
        },
{
    let mut i: usize = 0;
    while i < ancestors.len()
        invariant
            i <= ancestors@.len(),
            forall|k: int| 0 <= k < i ==> !is_usb_device((#[trigger] ancestors@[k]).files@),
        decreases ancestors@.len() - i,
    {
        let files: &Vec<String> = &ancestors[i].files;
        if lists_file(files, "idVendor") && lists_file(files, "idProduct") && lists_file(
            files,
            "busnum",
        ) && lists_file(files, "devnum") {
            return Some(i);
        }
        i += 1;
    }
    None
}

/// Whether a directory is an interface of the device with the given name.
pub open spec fn is_interface(device: Seq<char>, name: Seq<char>) -> bool {
    (device + ":"@).is_prefix_of(name)
}

/// The names that start with `tty` among the first `count` directories, in order.
pub open spec fn tty_names(directories: Seq<SysfsNode>, count: int) -> Seq<Seq<char>>
    decreases count,
{
    if count <= 0 {
        Seq::empty()
    } else {
        let name = directories[count - 1].name@;
        let before = tty_names(directories, count - 1);
        if "tty"@.is_prefix_of(name) {
            before.push(name)
        } else {
            before
        }
    }
}

/// The serial devices in the `tty` directories among the first `count` directories, in order.
pub open spec fn tty_directory_names(directories: Seq<SysfsNode>, count: int) -> Seq<Seq<char>>
    decreases count,
{
    if count <= 0 {
        Seq::empty()
    } else {
        let directory = directories[count - 1];
        let before = tty_directory_names(directories, count - 1);
        if directory.name@ == "tty"@ {
            before + tty_names(directory.children@, directory.children@.len() as int)
        } else {
            before
        }
    }
}

/// The serial devices of the interfaces among the first `count` directories of a device, in order.
pub open spec fn interface_ttys(
    device: Seq<char>,
    directories: Seq<SysfsNode>,
    count: int,
) -> Seq<Seq<char>>
    decreases count,
{
    if count <= 0 {
        Seq::empty()
    } else {
        let directory = directories[count - 1];
        let before = interface_ttys(device, directories, count - 1);
        if is_interface(device, directory.name@) {
            before + tty_directory_names(directory.children@, directory.children@.len() as int)
        } else {
            before
        }
    }
}

/// Every serial device that the interfaces of a device expose.
pub open spec fn device_ttys(device: SysfsNode) -> Seq<Seq<char>> {
    interface_ttys(device.name@, device.children@, device.children@.len() as int)
}

fn collect_tty_names(directories: &Vec<SysfsNode>, names: &mut Vec<String>)
    ensures
        text::texts(final(names)@) == text::texts(old(names)@) + tty_names(
            directories@,
            directories@.len() as int,
        ),
{
    let mut i: usize = 0;
    assert(text::texts(names@) =~= text::texts(old(names)@) + tty_names(directories@, 0));
    while i < directories.len()
        invariant
            i <= directories@.len(),
            text::texts(names@) == text::texts(old(names)@) + tty_names(directories@, i as int),
        decreases directories@.len() - i,
    {
        let ghost before = text::texts(names@);
        let name: &String = &directories[i].name;
        if text::starts_with(name.as_str(), "tty") {
            names.push(name.clone());
            assert(text::texts(names@) =~= before.push(name@));
        }
        assert(text::texts(names@) =~= text::texts(old(names)@) + tty_names(
            directories@,
            i + 1,
        ));
        i += 1;
    }
}

fn collect_tty_directories(directories: &Vec<SysfsNode>, names: &mut Vec<String>)
    ensures
        text::texts(final(names)@) == text::texts(old(names)@) + tty_directory_names(
            directories@,
            directories@.len() as int,
        ),
{
    let mut i: usize = 0;
    assert(text::texts(names@) =~= text::texts(old(names)@) + tty_directory_names(directories@, 0));
    while i < directories.len()
        invariant
            i <= directories@.len(),
            text::texts(names@) == text::texts(old(names)@) + tty_directory_names(
                directories@,
                i as int,
            ),
        decreases directories@.len() - i,
    {
        if text::same_text(directories[i].name.as_str(), "tty") {
            collect_tty_names(&directories[i].children, names);
        }
        assert(text::texts(names@) =~= text::texts(old(names)@) + tty_directory_names(
            directories@,
            i + 1,
        ));
        i += 1;
    }
}

/// The device path of the serial port at a USB device, where there is exactly one.
pub fn usb_tty(device: &SysfsNode) -> (path: Option<String>)
    ensures
        match path {
            Some(path) => device_ttys(*device).len() == 1 && path@ == "/dev/"@ + device_ttys(
                *device,
            )[0],
            None => device_ttys(*device).len() != 1,
        },
{
    let mut names: Vec<String> = Vec::new();
    let mut prefix: String = device.name.clone();
    prefix.append(":");
    let mut i: usize = 0;
    assert(text::texts(names@) =~= interface_ttys(device.name@, device.children@, 0));
    while i < device.children.len()
        invariant
            i <= device.children@.len(),
            prefix@ == device.name@ + ":"@,
            text::texts(names@) == interface_ttys(device.name@, device.children@, i as int),
        decreases device.children@.len() - i,
    {
        if text::starts_with(device.children[i].name.as_str(), prefix.as_str()) {
            collect_tty_directories(&device.children[i].children, &mut names);
        }
        assert(text::texts(names@) =~= interface_ttys(device.name@, device.children@, i + 1));
        i += 1;
    }
    if names.len() == 1 {
        let mut path: String = "/dev/".to_owned();
        path.append(names[0].as_str());
        assert(text::texts(names@)[0] == names@[0]@);
        Some(path)
    } else {
        None
    }
}

/// One USB endpoint's descriptor fields.
#[derive(Clone, Debug, PartialEq, Eq)]
pub struct UsbEndpointSnapshot {
    pub address: String,
    pub attributes: String,
    pub max_packet_size: String,
}

/// One USB interface's descriptor fields and endpoints.
#[derive(Clone, Debug, PartialEq, Eq)]
pub struct UsbInterfaceSnapshot {
    pub number: String,
    pub class: String,
    pub subclass: String,
    pub protocol: String,
    pub endpoints: Vec<UsbEndpointSnapshot>,
}

/// A device-level snapshot of USB descriptor fields, scoped to exactly one topology path. Used to
/// diagnose an unsupported or unexpected bootloader identity.
#[derive(Clone, Debug, PartialEq, Eq)]
pub struct UsbTopologySnapshot {
    pub device_class: String,
    pub device_subclass: String,
    pub device_protocol: String,
    pub usb_version: String,
    pub device_version: String,
    pub max_packet_size0: String,
    pub num_configurations: String,
    pub product: String,
    pub serial: String,
    pub interfaces: Vec<UsbInterfaceSnapshot>,
}

/// The positions of the directories whose name starts with `prefix`, among the first `count`.
pub open spec fn prefixed(directories: Seq<SysfsNode>, prefix: Seq<char>, count: int) -> Seq<int>
    decreases count,
{
    if count <= 0 {
        Seq::empty()
    } else {
        let before = prefixed(directories, prefix, count - 1);
        if prefix.is_prefix_of(directories[count - 1].name@) {
            before.push(count - 1)
        } else {
            before
        }
    }
}

/// The sort keys of chosen directories: the values of one attribute.
pub open spec fn sort_keys(
    directories: Seq<SysfsNode>,
    chosen: Seq<int>,
    key: Seq<char>,
) -> Seq<Seq<char>> {
    chosen.map_values(|i: int| attribute(directories[i], key))
}

/// Whether `order` lists the directories whose name starts with `prefix`, sorted by one attribute.
pub open spec fn lists_sorted(
    directories: Seq<SysfsNode>,
    prefix: Seq<char>,
    key: Seq<char>,
    order: Seq<usize>,
) -> bool {
    let chosen = prefixed(directories, prefix, directories.len() as int);
    exists|places: Seq<usize>|
        {
            &&& text::is_stable_order(sort_keys(directories, chosen, key), places)
            &&& order.len() == places.len()
            &&& forall|i: int|
                0 <= i < places.len() ==> #[trigger] order[i] == chosen[places[i] as int]
        }
}

fn sorted_children(
    directories: &Vec<SysfsNode>,
    prefix: &str,
    key: &str,
) -> (order: Vec<usize>)
    ensures
        lists_sorted(directories@, prefix@, key@, order@),
        forall|i: int| 0 <= i < order@.len() ==> #[trigger] order@[i] < directories@.len(),
{
    let ghost all = prefixed(directories@, prefix@, directories@.len() as int);
    let mut chosen: Vec<usize> = Vec::new();
    let mut keys: Vec<String> = Vec::new();
    let mut i: usize = 0;
    while i < directories.len()
        invariant
            i <= directories@.len(),
            chosen@.map_values(|place: usize| place as int) =~= prefixed(
                directories@,
                prefix@,
                i as int,
            ),
            text::texts(keys@) =~= sort_keys(
                directories@,
                prefixed(directories@, prefix@, i as int),
                key@,
            ),
            forall|k: int| 0 <= k < chosen@.len() ==> #[trigger] chosen@[k] < directories@.len(),
        decreases directories@.len() - i,
    {
        let ghost earlier = prefixed(directories@, prefix@, i as int);
        let ghost listed = text::texts(keys@);
        if text::starts_with(directories[i].name.as_str(), prefix) {
            chosen.push(i);
            keys.push(read_sysfs_attribute(&directories[i], key));
            assert(text::texts(keys@) =~= listed.push(attribute(directories@[i as int], key@)));
            assert(sort_keys(directories@, earlier.push(i as int), key@) =~= sort_keys(
                directories@,
                earlier,
                key@,
            ).push(attribute(directories@[i as int], key@)));
        }
        i += 1;
    }
    let ghost view = chosen@.map_values(|place: usize| place as int);
    assert(keys@.len() == text::texts(keys@).len());
    assert(view.len() == chosen@.len());
    let places: Vec<usize> = text::stable_order(&keys);
    let mut order: Vec<usize> = Vec::new();
    let mut i: usize = 0;
    while i < places.len()
        invariant
            i <= places@.len(),
            order@.len() == i,
            view == chosen@.map_values(|place: usize| place as int),
            forall|k: int| 0 <= k < places@.len() ==> #[trigger] places@[k] < chosen@.len(),
            forall|k: int| 0 <= k < chosen@.len() ==> #[trigger] chosen@[k] < directories@.len(),
            forall|k: int| 0 <= k < i ==> #[trigger] order@[k] == view[places@[k] as int],
            forall|k: int| 0 <= k < i ==> #[trigger] order@[k] < directories@.len(),
        decreases places@.len() - i,
    {
        order.push(chosen[places[i]]);
        i += 1;
    }
    assert(view == all);
    order
}

/// Whether a snapshot holds the descriptor fields of an endpoint directory.
pub open spec fn shows_endpoint(node: SysfsNode, snapshot: UsbEndpointSnapshot) -> bool {
    &&& snapshot.address@ == attribute(node, "bEndpointAddress"@)
    &&& snapshot.attributes@ == attribute(node, "bmAttributes"@)
    &&& snapshot.max_packet_size@ == attribute(node, "wMaxPacketSize"@)
}

/// Whether a snapshot holds the descriptor fields and endpoints of an interface directory.
pub open spec fn shows_interface(node: SysfsNode, snapshot: UsbInterfaceSnapshot) -> bool {
    &&& snapshot.number@ == attribute(node, "bInterfaceNumber"@)
    &&& snapshot.class@ == attribute(node, "bInterfaceClass"@)
    &&& snapshot.subclass@ == attribute(node, "bInterfaceSubClass"@)
    &&& snapshot.protocol@ == attribute(node, "bInterfaceProtocol"@)
    &&& exists|order: Seq<usize>|
        {
            &&& #[trigger] lists_sorted(node.children@, "ep_"@, "bEndpointAddress"@, order)
            &&& snapshot.endpoints@.len() == order.len()
            &&& forall|i: int|
                0 <= i < order.len() ==> shows_endpoint(
                    node.children@[order[i] as int],
                    #[trigger] snapshot.endpoints@[i],
                )
        }
}

/// Whether a list of interface snapshots is that of a device directory.
pub open spec fn shows_interfaces(device: SysfsNode, list: Seq<UsbInterfaceSnapshot>) -> bool {
    exists|order: Seq<usize>|
        {
            &&& #[trigger] lists_sorted(
                device.children@,
                device.name@ + ":"@,
                "bInterfaceNumber"@,
                order,
            )
            &&& list.len() == order.len()
            &&& forall|i: int|
                0 <= i < order.len() ==> shows_interface(
                    device.children@[order[i] as int],
                    #[trigger] list[i],
                )
        }
}

fn usb_endpoints(interface: &SysfsNode) -> (endpoints: Vec<UsbEndpointSnapshot>)
    ensures
        exists|order: Seq<usize>|
            {
                &&& #[trigger] lists_sorted(interface.children@, "ep_"@, "bEndpointAddress"@, order)
                &&& endpoints@.len() == order.len()
                &&& forall|i: int|
                    0 <= i < order.len() ==> shows_endpoint(
                        interface.children@[order[i] as int],
                        #[trigger] endpoints@[i],
                    )
            },
{
    let order: Vec<usize> = sorted_children(&interface.children, "ep_", "bEndpointAddress");
    let mut endpoints: Vec<UsbEndpointSnapshot> = Vec::new();
    let mut i: usize = 0;
    while i < order.len()
        invariant
            i <= order@.len(),
            endpoints@.len() == i,
            forall|k: int|
                0 <= k < order@.len() ==> #[trigger] order@[k] < interface.children@.len(),
            forall|k: int|
                0 <= k < i ==> shows_endpoint(
                    interface.children@[order@[k] as int],
                    #[trigger] endpoints@[k],
                ),
        decreases order@.len() - i,
    {
        let node: &SysfsNode = &interface.children[order[i]];
        endpoints.push(
            UsbEndpointSnapshot {
                address: read_sysfs_attribute(node, "bEndpointAddress"),
                attributes: read_sysfs_attribute(node, "bmAttributes"),
                max_packet_size: read_sysfs_attribute(node, "wMaxPacketSize"),
            },
        );
        i += 1;
    }
    endpoints
}

fn usb_interfaces(device: &SysfsNode) -> (interfaces: Vec<UsbInterfaceSnapshot>)
    ensures
        shows_interfaces(*device, interfaces@),
{
    let mut prefix: String = device.name.clone();
    prefix.append(":");
    let order: Vec<usize> = sorted_children(&device.children, prefix.as_str(), "bInterfaceNumber");
    let mut interfaces: Vec<UsbInterfaceSnapshot> = Vec::new();
    let mut i: usize = 0;
    while i < order.len()
        invariant
            i <= order@.len(),
            interfaces@.len() == i,
            forall|k: int| 0 <= k < order@.len() ==> #[trigger] order@[k] < device.children@.len(),
            forall|k: int|
                0 <= k < i ==> shows_interface(
                    device.children@[order@[k] as int],
                    #[trigger] interfaces@[k],
                ),
        decreases order@.len() - i,
    {
        let node: &SysfsNode = &device.children[order[i]];
        interfaces.push(
            UsbInterfaceSnapshot {
                number: read_sysfs_attribute(node, "bInterfaceNumber"),
                class: read_sysfs_attribute(node, "bInterfaceClass"),
                subclass: read_sysfs_attribute(node, "bInterfaceSubClass"),
                protocol: read_sysfs_attribute(node, "bInterfaceProtocol"),
                endpoints: usb_endpoints(node),
            },
        );
        i += 1;
    }
    interfaces
}

/// Takes a diagnostic snapshot of a USB device: its own descriptor fields and every interface and
/// endpoint at that exact topology. A missing attribute yields an empty string.
pub fn usb_topology_snapshot(device: &SysfsNode) -> (snapshot: UsbTopologySnapshot)
    ensures
        snapshot.device_class@ == attribute(*device, "bDeviceClass"@),
        snapshot.device_subclass@ == attribute(*device, "bDeviceSubClass"@),
        snapshot.device_protocol@ == attribute(*device, "bDeviceProtocol"@),
        snapshot.usb_version@ == attribute(*device, "bcdUSB"@),
        snapshot.device_version@ == attribute(*device, "bcdDevice"@),
        snapshot.max_packet_size0@ == attribute(*device, "bMaxPacketSize0"@),
        snapshot.num_configurations@ == attribute(*device, "bNumConfigurations"@),
        snapshot.product@ == attribute(*device, "product"@),
        snapshot.serial@ == attribute(*device, "serial"@),
        shows_interfaces(*device, snapshot.interfaces@),
{
    UsbTopologySnapshot {
        device_class: read_sysfs_attribute(device, "bDeviceClass"),
        device_subclass: read_sysfs_attribute(device, "bDeviceSubClass"),
        device_protocol: read_sysfs_attribute(device, "bDeviceProtocol"),
        usb_version: read_sysfs_attribute(device, "bcdUSB"),
        device_version: read_sysfs_attribute(device, "bcdDevice"),
        max_packet_size0: read_sysfs_attribute(device, "bMaxPacketSize0"),
        num_configurations: read_sysfs_attribute(device, "bNumConfigurations"),
        product: read_sysfs_attribute(device, "product"),
        serial: read_sysfs_attribute(device, "serial"),
        interfaces: usb_interfaces(device),
    }
}

proof fn lemma_attribute_from(attributes: Seq<SysfsAttribute>, name: Seq<char>, from: int, i: int)
    requires
        0 <= from <= i < attributes.len(),
        attributes[i].name@ == name,
        forall|k: int| from <= k < i ==> (#[trigger] attributes[k]).name@ != name,
    ensures
        attribute_from(attributes, name, from) == Some(attributes[i].value@),
    decreases i - from,
{
    if from < i {
        lemma_attribute_from(attributes, name, from + 1, i);
    }
}

proof fn lemma_no_attribute(attributes: Seq<SysfsAttribute>, name: Seq<char>, from: int)
    requires
        0 <= from,
        forall|k: int| from <= k < attributes.len() ==> (#[trigger] attributes[k]).name@ != name,
    ensures
        attribute_from(attributes, name, from) is None,
    decreases attributes.len() - from,
{
    if from < attributes.len() {
        lemma_no_attribute(attributes, name, from + 1);
    }
}

/// An attribute is read from the file of its name, without the white space around it; one that is
/// not there is empty.
pub proof fn law_attribute_is_read_by_its_name(node: SysfsNode, name: Seq<char>, i: int)
    ensures
        0 <= i < node.attributes@.len() && node.attributes@[i].name@ == name && (forall|k: int|
            0 <= k < i ==> (#[trigger] node.attributes@[k]).name@ != name) ==> attribute(node, name)
            == text::trimmed(node.attributes@[i].value@),
        (forall|k: int|
            0 <= k < node.attributes@.len() ==> (#[trigger] node.attributes@[k]).name@ != name)
            ==> attribute(node, name).len() == 0,
{
    if 0 <= i < node.attributes@.len() && node.attributes@[i].name@ == name && (forall|k: int|
        0 <= k < i ==> (#[trigger] node.attributes@[k]).name@ != name) {
        lemma_attribute_from(node.attributes@, name, 0, i);
    }
    if forall|k: int|
        0 <= k < node.attributes@.len() ==> (#[trigger] node.attributes@[k]).name@ != name {
        lemma_no_attribute(node.attributes@, name, 0);
    }
}

/// A USB identity is the vendor and the product with a colon between them, in lower case, and it
/// is complete exactly if neither is empty.
pub proof fn law_identity_is_vendor_and_product(
    device: SysfsNode,
    vendor: Seq<char>,
    product: Seq<char>,
)
    requires
        attribute(device, "idVendor"@) == vendor,
        attribute(device, "idProduct"@) == product,
        !vendor.contains(':'),
    ensures
        identity_of(device).usb_id == text::lowercased(vendor + seq![':'] + product),
        identity_of(device).manufacturer == text::lowercased(attribute(device, "manufacturer"@)),
        complete_usb_id(identity_of(device).usb_id) <==> vendor.len() > 0 && product.len() > 0,
{
    reveal_strlit(":");
    assert(":"@ =~= seq![':']);
    let whole = identity_of(device).usb_id;
    assert(whole =~= text::lowercased(vendor + seq![':'] + product));
    let low = text::lowercased(vendor);
    assert(!low.contains(':')) by {
        if low.contains(':') {
            let i = choose|i: int| 0 <= i < low.len() && low[i] == ':';
            assert(low[i] == text::ascii_lower(vendor[i]));
            if 'A' <= vendor[i] <= 'Z' {
                assert(text::ascii_lower(vendor[i]) as int == vendor[i] as int + 32);
            }
            assert(vendor[i] == ':');
        }
    }
    text::law_division_finds_the_character(low, ':', text::lowercased(product));
}

/// An identity is complete exactly if something stands on both sides of its first colon.
pub proof fn law_complete_identity_has_both_numbers(vendor: Seq<char>, product: Seq<char>)
    requires
        !vendor.contains(':'),
    ensures
        complete_usb_id(vendor + seq![':'] + product) <==> vendor.len() > 0 && product.len() > 0,
        !complete_usb_id(vendor),
{
    reveal_strlit(":");
    assert(":"@ =~= seq![':']);
    text::law_division_finds_the_character(vendor, ':', product);
}

/// A directory is of a USB device exactly if it holds the files of its two numbers and of its two
/// places on the bus.
pub proof fn law_usb_device_has_four_files(files: Seq<String>)
    ensures
        is_usb_device(files) ==> has_file(files, "idVendor"@) && has_file(files, "idProduct"@)
            && has_file(files, "busnum"@) && has_file(files, "devnum"@),
        has_file(files, "idVendor"@) && has_file(files, "idProduct"@) && has_file(files, "busnum"@)
            && has_file(files, "devnum"@) ==> is_usb_device(files),
{
}

proof fn lemma_tty_names(directories: Seq<SysfsNode>, count: int, name: Seq<char>)
    requires
        0 <= count <= directories.len(),
    ensures
        tty_names(directories, count).contains(name) <==> exists|i: int|
            0 <= i < count && (#[trigger] directories[i]).name@ == name && "tty"@.is_prefix_of(name),
    decreases count,
{
    if count > 0 {
        lemma_tty_names(directories, count - 1, name);
        let before = tty_names(directories, count - 1);
        let now = tty_names(directories, count);
        let last = directories[count - 1].name@;
        if "tty"@.is_prefix_of(last) {
            lemma_push_contains(before, last, name);
        }
    }
}

proof fn lemma_push_contains(list: Seq<Seq<char>>, last: Seq<char>, name: Seq<char>)
    ensures
        list.push(last).contains(name) <==> list.contains(name) || last == name,
{
    let longer = list.push(last);
    if list.contains(name) {
        let i = choose|i: int| 0 <= i < list.len() && list[i] == name;
        assert(longer[i] == name);
    }
    assert(longer[list.len() as int] == last);
    if longer.contains(name) {
        let i = choose|i: int| 0 <= i < longer.len() && longer[i] == name;
        if i < list.len() {
            assert(list[i] == name);
        }
    }
}

proof fn lemma_joined_contains(left: Seq<Seq<char>>, right: Seq<Seq<char>>, name: Seq<char>)
    ensures
        (left + right).contains(name) <==> left.contains(name) || right.contains(name),
{
    let both = left + right;
    if left.contains(name) {
        let i = choose|i: int| 0 <= i < left.len() && left[i] == name;
        assert(both[i] == name);
    }
    if right.contains(name) {
        let i = choose|i: int| 0 <= i < right.len() && right[i] == name;
        assert(both[left.len() + i] == name);
    }
    if both.contains(name) {
        let i = choose|i: int| 0 <= i < both.len() && both[i] == name;
        if i < left.len() {
            assert(left[i] == name);
        } else {
            assert(right[i - left.len()] == name);
        }
    }
}

/// Whether a directory `tty` among these holds a port of this name.
pub open spec fn holds_tty(directories: Seq<SysfsNode>, name: Seq<char>) -> bool {
    exists|i: int, j: int|
        0 <= i < directories.len() && directories[i].name@ == "tty"@ && 0 <= j
            < directories[i].children@.len() && (
        #[trigger] directories[i].children@[j]).name@ == name && "tty"@.is_prefix_of(name)
}

proof fn lemma_tty_directories(directories: Seq<SysfsNode>, count: int, name: Seq<char>)
    requires
        0 <= count <= directories.len(),
    ensures
        tty_directory_names(directories, count).contains(name) <==> holds_tty(
            directories.take(count),
            name,
        ),
    decreases count,
{
    let now = directories.take(count);
    if count > 0 {
        let earlier = directories.take(count - 1);
        lemma_tty_directories(directories, count - 1, name);
        let last = directories[count - 1];
        let inner = tty_names(last.children@, last.children@.len() as int);
        lemma_tty_names(last.children@, last.children@.len() as int, name);
        lemma_joined_contains(tty_directory_names(directories, count - 1), inner, name);
        if holds_tty(earlier, name) {
            let (i, j) = choose|i: int, j: int|
                0 <= i < earlier.len() && earlier[i].name@ == "tty"@ && 0 <= j
                    < earlier[i].children@.len() && (#[trigger] earlier[i].children@[j]).name@
                    == name && "tty"@.is_prefix_of(name);
            assert(now[i].children@[j].name@ == name);
        }
        if last.name@ == "tty"@ && inner.contains(name) {
            let j = choose|j: int|
                0 <= j < last.children@.len() && (#[trigger] last.children@[j]).name@ == name
                    && "tty"@.is_prefix_of(name);
            assert(now[count - 1].children@[j].name@ == name);
        }
        if holds_tty(now, name) {
            let (i, j) = choose|i: int, j: int|
                0 <= i < now.len() && now[i].name@ == "tty"@ && 0 <= j < now[i].children@.len() && (
                #[trigger] now[i].children@[j]).name@ == name && "tty"@.is_prefix_of(name);
            if i < count - 1 {
                assert(earlier[i].children@[j].name@ == name);
            } else {
                assert(last.children@[j].name@ == name);
            }
        }
    }
}

proof fn lemma_interface_ttys(
    device: Seq<char>,
    directories: Seq<SysfsNode>,
    count: int,
    name: Seq<char>,
)
    requires
        0 <= count <= directories.len(),
    ensures
        interface_ttys(device, directories, count).contains(name) <==> exists|k: int|
            0 <= k < count && is_interface(device, (#[trigger] directories[k]).name@) && holds_tty(
                directories[k].children@,
                name,
            ),
    decreases count,
{
    if count > 0 {
        lemma_interface_ttys(device, directories, count - 1, name);
        let last = directories[count - 1];
        let inner = tty_directory_names(last.children@, last.children@.len() as int);
        lemma_tty_directories(last.children@, last.children@.len() as int, name);
        assert(last.children@.take(last.children@.len() as int) =~= last.children@);
        lemma_joined_contains(interface_ttys(device, directories, count - 1), inner, name);
    }
}

/// The serial ports of a device are those of its own interfaces, which are named by the device and
/// a colon: every name that begins with `tty` in their directories `tty`.
pub proof fn law_ports_are_of_the_interfaces(device: SysfsNode, name: Seq<char>)
    ensures
        device_ttys(device).contains(name) <==> exists|k: int|
            0 <= k < device.children@.len() && (device.name@ + ":"@).is_prefix_of(
                (#[trigger] device.children@[k]).name@,
            ) && holds_tty(device.children@[k].children@, name),
{
    lemma_interface_ttys(device.name@, device.children@, device.children@.len() as int, name);
}

proof fn lemma_prefixed(directories: Seq<SysfsNode>, prefix: Seq<char>, count: int, i: int)
    requires
        0 <= count <= directories.len(),
    ensures
        prefixed(directories, prefix, count).contains(i) <==> 0 <= i < count && prefix.is_prefix_of(
            directories[i].name@,
        ),
    decreases count,
{
    if count > 0 {
        lemma_prefixed(directories, prefix, count - 1, i);
        let before = prefixed(directories, prefix, count - 1);
        let now = prefixed(directories, prefix, count);
        if prefix.is_prefix_of(directories[count - 1].name@) {
            if before.contains(i) {
                let k = choose|k: int| 0 <= k < before.len() && before[k] == i;
                assert(now[k] == i);
            }
            assert(now[before.len() as int] == count - 1);
            if now.contains(i) {
                let k = choose|k: int| 0 <= k < now.len() && now[k] == i;
                if k < before.len() {
                    assert(before[k] == i);
                }
            }
        }
    }
}

/// What is listed in order begins with the prefix, and no entry comes before one with a smaller
/// key.
pub proof fn law_listing_is_sorted_by_its_key(
    directories: Seq<SysfsNode>,
    prefix: Seq<char>,
    key: Seq<char>,
    order: Seq<usize>,
    i: int,
    j: int,
)
    requires
        lists_sorted(directories, prefix, key, order),
        0 <= i < j < order.len(),
    ensures
        0 <= order[i] < directories.len(),
        prefix.is_prefix_of(directories[order[i] as int].name@),
        prefix.is_prefix_of(directories[order[j] as int].name@),
        ({
            let left = attribute(directories[order[i] as int], key);
            let right = attribute(directories[order[j] as int], key);
            text::precedes(left, right) || left == right
        }),
{
    let chosen = prefixed(directories, prefix, directories.len() as int);
    let keys = sort_keys(directories, chosen, key);
    let places = choose|places: Seq<usize>|
        {
            &&& text::is_stable_order(keys, places)
            &&& order.len() == places.len()
            &&& forall|i: int|
                0 <= i < places.len() ==> #[trigger] order[i] == chosen[places[i] as int]
        };
    assert(places[i] < keys.len() && places[j] < keys.len());
    assert(order[i] == chosen[places[i] as int]);
    assert(order[j] == chosen[places[j] as int]);
    lemma_prefixed(directories, prefix, directories.len() as int, order[i] as int);
    lemma_prefixed(directories, prefix, directories.len() as int, order[j] as int);
    assert(chosen.contains(chosen[places[i] as int]));
    assert(chosen.contains(chosen[places[j] as int]));
    assert(text::comes_first(keys, places[i] as int, places[j] as int));
}

/// A listing has as many entries as there are directories with the prefix.
pub proof fn law_listing_leaves_nothing_out(
    directories: Seq<SysfsNode>,
    prefix: Seq<char>,
    key: Seq<char>,
    order: Seq<usize>,
)
    requires
        lists_sorted(directories, prefix, key, order),
    ensures
        order.len() == prefixed(directories, prefix, directories.len() as int).len(),
{
}

/// Every interface of a device is shown once, with its own numbers and its own endpoints, and every
/// endpoint with its own.
pub proof fn law_interfaces_are_shown_as_they_are(
    device: SysfsNode,
    list: Seq<UsbInterfaceSnapshot>,
    i: int,
)
    requires
        shows_interfaces(device, list),
        0 <= i < list.len(),
    ensures
        list.len() == prefixed(
            device.children@,
            device.name@ + ":"@,
            device.children@.len() as int,
        ).len(),
        exists|k: int|
            {
                let node = #[trigger] device.children@[k];
                &&& list[i].number@ == attribute(node, "bInterfaceNumber"@)
                &&& list[i].class@ == attribute(node, "bInterfaceClass"@)
                &&& list[i].subclass@ == attribute(node, "bInterfaceSubClass"@)
                &&& list[i].protocol@ == attribute(node, "bInterfaceProtocol"@)
                &&& list[i].endpoints@.len() == prefixed(
                    node.children@,
                    "ep_"@,
                    node.children@.len() as int,
                ).len()
            },
{
    let order = choose|order: Seq<usize>|
        {
            &&& #[trigger] lists_sorted(
                device.children@,
                device.name@ + ":"@,
                "bInterfaceNumber"@,
                order,
            )
            &&& list.len() == order.len()
            &&& forall|i: int|
                0 <= i < order.len() ==> shows_interface(
                    device.children@[order[i] as int],
                    #[trigger] list[i],
                )
        };
    let node = device.children@[order[i] as int];
    assert(shows_interface(node, list[i]));
}

/// An endpoint is shown by its address, its attributes and its packet size.
pub proof fn law_endpoint_is_shown_as_it_is(node: SysfsNode, snapshot: UsbEndpointSnapshot)
    requires
        shows_endpoint(node, snapshot),
    ensures
        snapshot.address@ == attribute(node, "bEndpointAddress"@),
        snapshot.attributes@ == attribute(node, "bmAttributes"@),
        snapshot.max_packet_size@ == attribute(node, "wMaxPacketSize"@),
{
}

} // verus!
