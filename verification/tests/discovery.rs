//! Waiting for Klipper and resolving target names.
use std::time::{Duration, Instant};

use aldis::discovery::{
    discover_mcus_with_retry, discover_mcus_with_retry_params, is_klipper_not_ready,
    resolve_target_name, waiting_message,
};
use aldis::moonraker::{HttpFailure, Mcu, McuInventory, MoonrakerError, MoonrakerPort};
use aldis::retry::RetryStep;

struct FakeMoonraker {
    responses: Vec<Result<McuInventory, MoonrakerError>>,
    calls: u32,
}

impl MoonrakerPort for FakeMoonraker {
    fn discover_mcus(&mut self) -> Result<McuInventory, MoonrakerError> {
        self.calls += 1;
        self.responses.remove(0)
    }
}

struct NeverReady;

impl MoonrakerPort for NeverReady {
    fn discover_mcus(&mut self) -> Result<McuInventory, MoonrakerError> {
        Err(MoonrakerError::KlippyStarting("still starting".to_owned()))
    }
}

fn discover(
    client: &mut impl MoonrakerPort,
    timeout: Duration,
    poll_interval: Duration,
    max_retries: u32,
) -> Result<McuInventory, MoonrakerError> {
    let deadline = Instant::now() + timeout;
    let mut retries = 0;
    loop {
        let answer = client.discover_mcus();
        let decision = discover_mcus_with_retry_params(
            retries,
            answer,
            Instant::now() >= deadline,
            false,
            poll_interval.as_nanos(),
            max_retries,
        );
        retries = decision.retries;
        match decision.step {
            RetryStep::Done(result) => return result,
            RetryStep::Pause(nanos) => {
                let next = Instant::now() + Duration::from_nanos(nanos as u64);
                while Instant::now() < next {}
            }
        }
    }
}

#[test]
fn stops_immediately_on_a_non_retryable_error() {
    let mut client = FakeMoonraker {
        responses: vec![Err(MoonrakerError::InvalidResponse(
            "no MCU objects were reported".to_owned(),
        ))],
        calls: 0,
    };

    let result = discover(
        &mut client,
        Duration::from_millis(30),
        Duration::from_millis(10),
        3,
    );

    assert!(matches!(result, Err(MoonrakerError::InvalidResponse(_))));
    assert_eq!(client.calls, 1);
}

#[test]
fn retries_while_klipper_is_starting_and_succeeds_once_ready() {
    let mut client = FakeMoonraker {
        responses: vec![
            Err(MoonrakerError::KlippyStarting("starting".to_owned())),
            Err(MoonrakerError::KlippyNotConnected),
            Ok(McuInventory { mcus: Vec::new() }),
        ],
        calls: 0,
    };

    let result = discover(
        &mut client,
        Duration::from_millis(60),
        Duration::from_millis(10),
        3,
    );

    assert!(result.is_ok());
    assert_eq!(client.calls, 3);
}

#[test]
fn returns_the_last_not_ready_error_after_the_timeout() {
    let result = discover(
        &mut NeverReady,
        Duration::from_millis(30),
        Duration::from_millis(10),
        3,
    );

    assert!(matches!(result, Err(MoonrakerError::KlippyStarting(_))));
}

fn mcu(name: &str) -> Mcu {
    Mcu {
        name: name.to_owned(),
        app: None,
        version: None,
        mcu: "test".to_owned(),
        canbus_frequency_hz: None,
        transport: None,
        kconfig: String::new(),
    }
}

#[test]
fn resolves_an_exact_name_unchanged() {
    let inventory = McuInventory {
        mcus: vec![mcu("mcu"), mcu("mcu expander")],
    };

    assert_eq!(resolve_target_name(&inventory, "mcu expander"), "mcu expander");
}

#[test]
fn resolves_an_abbreviated_label_to_its_full_name() {
    let inventory = McuInventory {
        mcus: vec![mcu("mcu"), mcu("mcu expander")],
    };

    assert_eq!(resolve_target_name(&inventory, "expander"), "mcu expander");
}

#[test]
fn resolves_an_abbreviated_label_case_insensitively() {
    let inventory = McuInventory {
        mcus: vec![mcu("mcu"), mcu("mcu RP2040")],
    };

    assert_eq!(resolve_target_name(&inventory, "rp2040"), "mcu RP2040");
}

#[test]
fn leaves_an_unresolvable_name_unchanged() {
    let inventory = McuInventory {
        mcus: vec![mcu("mcu"), mcu("mcu expander")],
    };

    assert_eq!(resolve_target_name(&inventory, "nonexistent"), "nonexistent");
}

#[test]
fn an_exact_name_wins_over_an_abbreviation() {
    let inventory = McuInventory {
        mcus: vec![mcu("mcu expander"), mcu("expander")],
    };

    assert_eq!(resolve_target_name(&inventory, "expander"), "expander");
}

#[test]
fn a_resolved_name_resolves_to_itself() {
    let inventory = McuInventory {
        mcus: vec![mcu("mcu RP2040")],
    };

    let resolved = resolve_target_name(&inventory, "rp2040");

    assert_eq!(resolve_target_name(&inventory, &resolved), resolved);
}

#[test]
fn only_a_starting_klipper_is_worth_a_retry() {
    assert!(is_klipper_not_ready(&MoonrakerError::KlippyNotConnected));
    assert!(is_klipper_not_ready(&MoonrakerError::KlippyStarting(
        "Loading".to_owned()
    )));
    assert!(!is_klipper_not_ready(&MoonrakerError::Http(
        HttpFailure::StatusCode(404)
    )));
    assert!(!is_klipper_not_ready(&MoonrakerError::Json("eof".to_owned())));
}

#[test]
fn counts_the_retries_in_the_waiting_message() {
    assert_eq!(
        waiting_message(false, 2, 3),
        "Waiting for Klipper to become ready... (2/3)\n"
    );
    assert_eq!(
        waiting_message(true, 1, 3),
        "\r\u{1b}[2KWaiting for Klipper to become ready... (1/3)"
    );
}

#[test]
fn clears_the_waiting_line_once_the_wait_is_over() {
    let waiting = discover_mcus_with_retry(0, Err(MoonrakerError::KlippyNotConnected), false, true);
    assert_eq!(waiting.retries, 1);
    assert!(matches!(waiting.step, RetryStep::Pause(5_000_000_000)));

    let done = discover_mcus_with_retry(1, Ok(McuInventory { mcus: Vec::new() }), false, true);
    assert_eq!(done.message, "\r\u{1b}[2K");
    assert!(matches!(done.step, RetryStep::Done(Ok(_))));

    let first = discover_mcus_with_retry(0, Ok(McuInventory { mcus: Vec::new() }), false, true);
    assert_eq!(first.message, "");
}
