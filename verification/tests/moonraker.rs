//! Moonraker's answers.
use aldis::by_name::{ByName, Entry};
use aldis::moonraker::{
    check_ready, map_http_error, mcu_object_names, parse_inventory, parse_transport,
    ConstantValue, DiscoveryEvent, DiscoveryRun, HttpFailure, McuSettings, McuTransport,
    MoonrakerError, MoonrakerUrls, ObjectStatus, PrintState,
};

#[test]
fn reports_klippy_not_connected_for_a_503_status() {
    assert!(matches!(
        map_http_error(HttpFailure::StatusCode(503)),
        MoonrakerError::KlippyNotConnected
    ));
}

#[test]
fn passes_other_http_errors_through_unchanged() {
    assert!(matches!(
        map_http_error(HttpFailure::StatusCode(404)),
        MoonrakerError::Http(HttpFailure::StatusCode(404))
    ));
}

#[test]
fn accepts_a_ready_printer() {
    assert!(check_ready("ready", "Printer is ready").is_ok());
}

#[test]
fn reports_klipper_still_starting_with_moonrakers_own_state_message() {
    let error = check_ready("startup", "Loading configuration...").unwrap_err();
    assert!(matches!(
        error,
        MoonrakerError::KlippyStarting(message) if message == "Loading configuration..."
    ));
}

#[test]
fn defaults_an_omitted_canbus_interface_to_can0() {
    let settings = McuSettings {
        serial: None,
        canbus_uuid: Some("e7819ed8e7d3".to_owned()),
        canbus_interface: None,
    };

    let transport = parse_transport("mcu toolhead", &settings).unwrap();

    assert_eq!(
        transport,
        Some(McuTransport::Can {
            interface: "can0".to_owned(),
            uuid: 0xe781_9ed8_e7d3,
        })
    );
}

#[test]
fn rejects_an_explicitly_empty_canbus_interface() {
    let settings = McuSettings {
        serial: None,
        canbus_uuid: Some("e7819ed8e7d3".to_owned()),
        canbus_interface: Some(String::new()),
    };

    let error = parse_transport("mcu toolhead", &settings).unwrap_err();

    assert!(matches!(error, MoonrakerError::InvalidResponse(_)));
}

fn settings(serial: Option<&str>, uuid: Option<&str>) -> McuSettings {
    McuSettings {
        serial: serial.map(str::to_owned),
        canbus_uuid: uuid.map(str::to_owned),
        canbus_interface: None,
    }
}

#[test]
fn reads_a_configured_serial_device() {
    assert_eq!(
        parse_transport("mcu", &settings(Some("/dev/ttyACM0"), None)).unwrap(),
        Some(McuTransport::Serial {
            device: "/dev/ttyACM0".to_owned()
        })
    );
    assert_eq!(parse_transport("mcu", &settings(None, None)).unwrap(), None);
}

#[test]
fn names_the_mcu_whose_can_identity_is_unusable() {
    let error = parse_transport("mcu tool", &settings(None, Some("not hex"))).unwrap_err();

    assert!(error.message().contains("\"mcu tool\""), "{}", error.message());
}

fn entry<V>(name: &str, value: V) -> Entry<V> {
    Entry {
        name: name.to_owned(),
        value,
    }
}

fn status(name: &str, mcu: Option<&str>) -> Entry<ObjectStatus> {
    let mut constants = Vec::new();
    if let Some(mcu) = mcu {
        constants.push(entry("MCU", ConstantValue::Text(mcu.to_owned())));
        constants.push(entry("CANBUS_FREQUENCY", ConstantValue::Unsigned(1_000_000)));
    }
    entry(
        name,
        ObjectStatus {
            app: Some("Klipper".to_owned()),
            mcu_version: Some("v0.13.0".to_owned()),
            mcu_constants: ByName::from_entries(constants),
            mcu_kconfig: Some("CONFIG_TEST=y\n".to_owned()),
            settings: None,
        },
    )
}

fn configfile_with(sections: Vec<Entry<McuSettings>>) -> Entry<ObjectStatus> {
    entry(
        "configfile",
        ObjectStatus {
            app: None,
            mcu_version: None,
            mcu_constants: ByName::new(),
            mcu_kconfig: None,
            settings: Some(ByName::from_entries(sections)),
        },
    )
}

fn configfile() -> Entry<ObjectStatus> {
    configfile_with(vec![entry("mcu", settings(Some("/dev/ttyACM0"), None))])
}

#[test]
fn an_inventory_stands_in_the_order_of_its_names() {
    let inventory = parse_inventory(&ByName::from_entries(vec![
        status("mcu é", Some("a")),
        status("mcu", Some("b")),
        configfile(),
        status("mcu z", Some("c")),
        status("mcu", Some("d")),
        status("mcu Z", Some("e")),
    ]))
    .unwrap();

    let read: Vec<_> = inventory
        .mcus
        .iter()
        .map(|mcu| (mcu.name.as_str(), mcu.mcu.as_str()))
        .collect();
    assert_eq!(
        read,
        [("mcu", "d"), ("mcu Z", "e"), ("mcu z", "c"), ("mcu é", "a")]
    );
}

#[test]
fn the_first_section_of_a_name_counts() {
    let inventory = parse_inventory(&ByName::from_entries(vec![
        configfile_with(vec![
            entry("mcu tool", settings(Some("/dev/lower"), None)),
            entry("MCU TOOL", settings(Some("/dev/upper"), None)),
        ]),
        status("mcu Tool", Some("rp2040")),
    ]))
    .unwrap();

    assert_eq!(
        inventory.mcus[0].transport,
        Some(McuTransport::Serial {
            device: "/dev/upper".to_owned()
        })
    );
}

#[test]
fn values_are_found_by_name_and_replaced() {
    let values = ByName::new()
        .with(entry("b", 2))
        .with(entry("a", 1))
        .with(entry("b", 3));
    assert_eq!(values.len(), 2);
    assert_eq!(values.at(0), &entry("a", 1));
    assert_eq!(values.get("b"), Some(&3));
    assert_eq!(values.get("c"), None);
}

#[test]
fn reads_an_inventory_without_its_configuration_object() {
    let inventory = parse_inventory(&ByName::from_entries(vec![
        configfile(),
        status("mcu", Some("rp2040")),
    ]))
    .unwrap();

    assert_eq!(inventory.mcus.len(), 1);
    assert_eq!(inventory.mcus[0].name, "mcu");
    assert_eq!(inventory.mcus[0].mcu, "rp2040");
    assert_eq!(
        inventory.mcus[0].transport,
        Some(McuTransport::Serial {
            device: "/dev/ttyACM0".to_owned()
        })
    );
    assert_eq!(inventory.mcus[0].kconfig, "CONFIG_TEST=y\n");
}

#[test]
fn refuses_an_mcu_without_its_model() {
    assert!(matches!(
        parse_inventory(&ByName::from_entries(vec![status("mcu", None)])),
        Err(MoonrakerError::InvalidResponse(_))
    ));
}

#[test]
fn lists_only_mcu_objects() {
    let objects = ["gcode", "mcu", "mcu toolhead", "mcuish"].map(str::to_owned).to_vec();
    assert_eq!(mcu_object_names(&objects).unwrap(), ["mcu", "mcu toolhead"]);
    assert!(mcu_object_names(&vec!["gcode".to_owned()]).is_err());
}

#[test]
fn discovers_in_three_steps() {
    let run = DiscoveryRun::Info.step(DiscoveryEvent::Info {
        state: "ready".to_owned(),
        state_message: "Printer is ready".to_owned(),
    });
    assert!(matches!(run, DiscoveryRun::List));
    let run = run.step(DiscoveryEvent::Objects(vec!["mcu".to_owned()]));
    assert!(matches!(run, DiscoveryRun::Query { .. }));
    let run = run.step(DiscoveryEvent::Statuses(ByName::from_entries(vec![
        configfile(),
        status("mcu", Some("rp2040")),
    ])));
    assert!(matches!(run, DiscoveryRun::Finished(Ok(_))));
}

#[test]
fn joins_endpoints_to_a_base_url_with_trailing_slashes() {
    let urls = MoonrakerUrls::new("http://127.0.0.1:7125//");
    assert_eq!(
        urls.endpoint("/printer/info"),
        "http://127.0.0.1:7125/printer/info"
    );
}

#[test]
fn knows_which_print_states_are_idle() {
    for (name, idle) in [
        ("standby", true),
        ("complete", true),
        ("cancelled", true),
        ("error", true),
        ("printing", false),
        ("paused", false),
        ("resuming", false),
    ] {
        let state = PrintState::from_name(name.to_owned());
        assert_eq!(state.is_idle(), idle, "{name}");
        assert_eq!(state.label(), name);
    }
}
