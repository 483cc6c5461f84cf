//! Status reports.
use aldis::checkout::{CheckoutError, CheckoutPort, RefreshResult};
use aldis::eligibility::CheckoutRevision;
use aldis::moonraker::{Mcu, McuInventory, McuTransport, MoonrakerError};
use aldis::status::{connection_label, format_status, print_inventory, refresh_label, status_report};

#[test]
fn renders_human_readable_klipper_status() {
    let inventory = McuInventory {
        mcus: vec![mcu(
            "mcu",
            "v0.12.0-123-deadbeef",
            Some("/dev/serial/by-id/mcu"),
        )],
    };

    assert_eq!(
        format_status(
            "/home/pi/klipper",
            &CheckoutRevision::Known("v0.13.0-756-g2d7717e3".to_owned()),
            &inventory,
            &None,
        ),
        "Klipper source:    /home/pi/klipper\n\
         Checkout revision: v0.13.0-756-g2d7717e3\n\
         \nmcu\n\
         \x20 firmware:     Klipper\n\
         \x20 version:      v0.12.0-123-deadbeef\n\
         \x20 model:        test\n\
         \x20 connection:   serial (/dev/serial/by-id/mcu)\n\
         \x20 supported:    yes\n\
         \x20 needs update: yes\n"
    );
}

#[test]
fn includes_refresh_details_in_the_aligned_checkout_field() {
    let refreshed = RefreshResult {
        before: CheckoutRevision::Known("v0.12.0-123-deadbeef".to_owned()),
        after: CheckoutRevision::Known("v0.13.0-756-g2d7717e3".to_owned()),
        advanced: true,
        commits_advanced: 4,
    };

    let output = format_status(
        "/home/pi/klipper",
        &refreshed.after.clone(),
        &McuInventory { mcus: Vec::new() },
        &Some(refreshed),
    );

    assert_eq!(
        output,
        "Klipper source:    /home/pi/klipper\n\
         Checkout revision: v0.12.0-123-deadbeef -> v0.13.0-756-g2d7717e3 (4 commits)\n"
    );
}

#[test]
fn reports_status_from_injected_moonraker_and_checkout_sources() {
    let discovered = Ok(McuInventory {
        mcus: vec![mcu("mcu h723", "v2", None)],
    });
    let mut checkout = FakeCheckout(Ok(CheckoutRevision::Known("v2".to_owned())));

    let report =
        status_report(discovered, &mut checkout, "/klipper").expect("status report should succeed");

    assert!(report.contains("mcu h723"));
    assert!(report.contains("v2"));
}

#[test]
fn reports_the_moonraker_error_when_discovery_fails() {
    let discovered = Err(MoonrakerError::InvalidResponse(
        "no MCU objects were reported".to_owned(),
    ));
    let mut checkout = FakeCheckout(Ok(CheckoutRevision::Indeterminate));

    let error =
        status_report(discovered, &mut checkout, "/klipper").expect_err("status report should fail");

    assert!(error.contains("no MCU objects were reported"));
    assert!(error.starts_with("failed to discover MCUs: "));
}

#[test]
fn an_unreadable_checkout_leaves_the_revision_open() {
    let discovered = Ok(McuInventory {
        mcus: vec![mcu("mcu", "v2", None)],
    });
    let mut checkout = FakeCheckout(Err(()));

    let report = status_report(discovered, &mut checkout, "/klipper").unwrap();

    assert!(report.contains("Checkout revision: unknown\n"));
    assert!(report.contains("needs update: unknown\n"));
}

struct FakeCheckout(Result<CheckoutRevision, ()>);

impl CheckoutPort for FakeCheckout {
    fn revision(&mut self, _path: &str) -> Result<CheckoutRevision, CheckoutError> {
        self.0
            .clone()
            .map_err(|_| CheckoutError::UpstreamNotConfigured)
    }

    fn refresh(&mut self, _path: &str) -> Result<RefreshResult, CheckoutError> {
        unreachable!("not exercised by these tests")
    }
}

fn mcu(name: &str, version: &str, serial: Option<&str>) -> Mcu {
    Mcu {
        name: name.to_owned(),
        app: None,
        version: Some(version.to_owned()),
        mcu: "test".to_owned(),
        canbus_frequency_hz: None,
        transport: serial.map(|device| McuTransport::Serial {
            device: device.to_owned(),
        }),
        kconfig: "CONFIG_TEST=y\n".to_owned(),
    }
}

#[test]
fn spells_a_can_connection_with_twelve_digits() {
    assert_eq!(
        connection_label(&Some(McuTransport::Can {
            interface: "can0".to_owned(),
            uuid: 0xab,
        })),
        "CAN (can0, 0000000000ab)"
    );
    assert_eq!(connection_label(&None), "not configured");
}

#[test]
fn counts_one_commit_in_the_singular() {
    let refreshed = RefreshResult {
        before: CheckoutRevision::Known("a".to_owned()),
        after: CheckoutRevision::Indeterminate,
        advanced: true,
        commits_advanced: 1,
    };
    assert_eq!(refresh_label(&refreshed), "a -> unknown (1 commit)");
}

#[test]
fn counts_the_settings_of_every_mcu() {
    let inventory = McuInventory {
        mcus: vec![mcu("mcu", "v2", None)],
    };
    assert_eq!(
        print_inventory("http://printer", &inventory),
        "phase: discover\nMoonraker: http://printer\nMCUs: 1\n\nmcu\n  chip: test\n  Kconfig settings: 1\n"
    );
}
