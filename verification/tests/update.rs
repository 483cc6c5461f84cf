//! The update command.
use std::time::{Duration, Instant};

use aldis::builder::{BuildArtifact, BuildCommand, BuildError, CommandOutput};
use aldis::checkout::{CheckoutError, RefreshResult};
use aldis::coordinator::{CompletedUpdate, CoordinatorError, FlashCoordinatorError};
use aldis::eligibility::{CheckoutRevision, UpdateSelection};
use aldis::failure::IoFailure;
use aldis::flash::linux_host::{InstallStep, LinuxHostError};
use aldis::flash::system::SystemFlashError;
use aldis::flash::FlashResult;
use aldis::moonraker::{
    Mcu, McuInventory, McuTransport, MoonrakerError, MoonrakerPort, PrintState, PrinterStatePort,
};
use aldis::retry::RetryStep;
use aldis::service::ServiceState;
use aldis::ui::UiOutput;
use aldis::update::{
    ensure_printer_idle, mcu_count_label, offered_mcus, pending_mcus, run_update, selection_for,
    unknown_targets, update_failure, wait_for_application_with_timeout, wait_for_mcus,
    with_run_log, CommandEvent, CommandStage, UpdateCommand, UpdateRequest,
};
use aldis::workspace::{DirectoryFailure, RunWorkspace};

struct FakePrinter(Result<PrintState, String>);

impl PrinterStatePort for FakePrinter {
    fn print_state(&mut self) -> Result<PrintState, MoonrakerError> {
        self.0.clone().map_err(MoonrakerError::InvalidResponse)
    }
}

#[test]
fn refuses_to_stop_klipper_while_a_print_is_running_or_paused() {
    for (state, label) in [
        (PrintState::Printing, "printing"),
        (PrintState::Paused, "paused"),
    ] {
        let message = ensure_printer_idle(&mut FakePrinter(Ok(state))).unwrap_err();

        assert_eq!(
            message,
            format!("the printer is {label}; refusing to stop Klipper, run again when it is idle")
        );
    }
}

#[test]
fn refuses_to_stop_klipper_when_the_print_state_is_unrecognized() {
    let message =
        ensure_printer_idle(&mut FakePrinter(Ok(PrintState::Unknown("resuming".to_owned()))))
            .unwrap_err();

    assert!(
        message.starts_with("the printer is resuming; refusing"),
        "{message}"
    );
}

#[test]
fn refuses_to_stop_klipper_when_the_print_state_cannot_be_read() {
    let message =
        ensure_printer_idle(&mut FakePrinter(Err("connection reset".to_owned()))).unwrap_err();

    assert!(
        message.starts_with("could not confirm the printer is idle; refusing to stop Klipper"),
        "{message}"
    );
    assert!(message.contains("connection reset"), "{message}");
}

#[test]
fn proceeds_when_the_printer_is_idle() {
    for state in [
        PrintState::Standby,
        PrintState::Complete,
        PrintState::Cancelled,
        PrintState::Error,
    ] {
        assert!(ensure_printer_idle(&mut FakePrinter(Ok(state))).is_ok());
    }
}

#[test]
fn reports_mcu_counts_with_correct_pluralization() {
    assert_eq!(mcu_count_label(1), "MCU");
    assert_eq!(mcu_count_label(2), "MCUs");
}

#[test]
fn selects_required_by_default_and_all_with_the_all_flag() {
    assert_eq!(selection_for(false), UpdateSelection::Required);
    assert_eq!(selection_for(true), UpdateSelection::All);
}

#[test]
fn reports_the_host_mcu_setup_hint_in_the_final_update_error() {
    let error = FlashCoordinatorError::<SystemFlashError>::Flash(SystemFlashError::LinuxHost(
        LinuxHostError::CommandFailed {
            step: InstallStep::Install,
            output: Box::new(CommandOutput {
                success: false,
                stdout: Vec::new(),
                stderr: b"sudo: a password is required\n".to_vec(),
            }),
        },
    ));

    let message = update_failure(error, None);

    assert!(
        message.starts_with(
            "update failed: could not install /usr/local/bin/klipper_mcu: \
             sudo: a password is required; run sudo aldis setup"
        ),
        "{message}"
    );
}

#[test]
fn update_reports_build_stderr_without_debugging_command_buffers() {
    let error = FlashCoordinatorError::<SystemFlashError>::Coordinator(CoordinatorError::Build(
        BuildError::CommandFailed {
            command: Box::new(BuildCommand {
                program: "make".to_owned(),
                arguments: Vec::new(),
                current_dir: None,
                stdin: None,
            }),
            output: Box::new(CommandOutput {
                success: false,
                stdout: b"unrelated output".to_vec(),
                stderr: b"permission denied".to_vec(),
            }),
        },
    ));

    let message = update_failure(error, None);

    assert!(message.contains("make failed: permission denied"));
    assert!(!message.contains("unrelated output"));
    assert!(message.contains("may still be stopped"));
}

#[test]
fn update_reports_that_klipper_was_restored_after_a_pre_flash_failure() {
    let error = FlashCoordinatorError::<SystemFlashError>::Artifact(IoFailure {
        message: "missing artifact".to_owned(),
    });

    let message = update_failure(error, Some(Ok(())));

    assert!(message.contains("left in its state from before this update"));
    assert!(!message.contains("may still be stopped"));
}

#[test]
fn reports_when_restoring_klipper_after_a_pre_flash_failure_also_fails() {
    let error = FlashCoordinatorError::<SystemFlashError>::Artifact(IoFailure {
        message: "missing artifact".to_owned(),
    });
    let restore_error = CoordinatorError::UnexpectedKlipperState(ServiceState::Failed);

    let message = update_failure(error, Some(Err(restore_error)));

    assert!(message.contains("also failed to restore"));
    assert!(message.contains("restart it manually"));
}

#[test]
fn rejects_a_serial_mcu_that_does_not_reenumerate() {
    let mcu = mcu("mcu h723", "v1", Some("/definitely/missing"));
    let present = std::path::Path::new("/definitely/missing").exists();
    assert!(matches!(
        wait_for_application_with_timeout(&mcu, present, true),
        RetryStep::Done(Err(_))
    ));
}

#[test]
fn requires_every_selected_mcu_at_the_built_revision() {
    let selected = vec!["mcu h723".to_owned(), "mcu rp2040".to_owned()];
    let checkout = CheckoutRevision::Known("v2".to_owned());
    let only_one = McuInventory {
        mcus: vec![mcu("mcu h723", "v2", None)],
    };
    assert_eq!(
        pending_mcus(&only_one, &selected, &checkout),
        vec!["mcu rp2040 (not reported by Moonraker)".to_owned()]
    );
    let wrong_version = McuInventory {
        mcus: vec![mcu("mcu h723", "v2", None), mcu("mcu rp2040", "v1", None)],
    };
    assert_eq!(
        pending_mcus(&wrong_version, &selected, &checkout),
        vec!["mcu rp2040 (reports v1)".to_owned()]
    );
    let complete = McuInventory {
        mcus: vec![mcu("mcu h723", "v2", None), mcu("mcu rp2040", "v2", None)],
    };
    assert!(pending_mcus(&complete, &selected, &checkout).is_empty());
}

#[test]
fn wait_for_mcus_succeeds_once_the_injected_source_reports_readiness() {
    let selected = vec!["mcu h723".to_owned()];
    let checkout = CheckoutRevision::Known("v2".to_owned());
    let mut moonraker = FakeMoonraker(Ok(vec![mcu("mcu h723", "v2", None)]));

    let deadline = Instant::now() + Duration::from_secs(1);
    let result = loop {
        let answer = moonraker.discover_mcus();
        match wait_for_mcus(&answer, &selected, &checkout, Instant::now() >= deadline) {
            RetryStep::Done(result) => break result,
            RetryStep::Pause(_) => {}
        }
    };

    assert!(result.is_ok());
}

#[test]
fn reports_every_target_name_with_no_matching_inventory_mcu() {
    let inventory = McuInventory {
        mcus: vec![mcu("mcu h723", "v2", None)],
    };

    assert_eq!(
        unknown_targets(&inventory, &vec!["mcu h723".to_owned()]),
        Vec::<&str>::new()
    );
    assert_eq!(
        unknown_targets(&inventory, &vec!["mcu typo".to_owned()]),
        vec!["mcu typo"]
    );
    assert_eq!(
        unknown_targets(
            &inventory,
            &vec!["mcu h723".to_owned(), "mcu typo".to_owned()]
        ),
        vec!["mcu typo"]
    );
    assert_eq!(
        unknown_targets(
            &inventory,
            &vec!["mcu typo".to_owned(), "mcu typo".to_owned()]
        ),
        vec!["mcu typo"]
    );
}

struct FakeMoonraker(Result<Vec<Mcu>, String>);

impl MoonrakerPort for FakeMoonraker {
    fn discover_mcus(&mut self) -> Result<McuInventory, MoonrakerError> {
        match &self.0 {
            Ok(mcus) => Ok(McuInventory { mcus: mcus.clone() }),
            Err(reason) => Err(MoonrakerError::InvalidResponse(reason.clone())),
        }
    }
}

fn mcu(name: &str, version: &str, serial: Option<&str>) -> Mcu {
    Mcu {
        name: name.to_owned(),
        app: None,
        version: Some(version.to_owned()),
        mcu: "test".to_owned(),
        canbus_frequency_hz: None,
        transport: serial.map(|device| McuTransport::Serial {
            device: device.to_owned(),
        }),
        kconfig: "CONFIG_TEST=y\n".to_owned(),
    }
}

fn outdated(name: &str, serial: Option<&str>) -> Mcu {
    mcu(name, "v0.13.0-753-g8c29c0a8e", serial)
}

fn request(targets: &[&str]) -> UpdateRequest {
    UpdateRequest {
        source: "/home/pi/klipper".to_owned(),
        targets: targets.iter().map(|name| (*name).to_owned()).collect(),
        all: false,
        auto: false,
        force: false,
        pull: false,
        clean: false,
        interactive: false,
        workspace: RunWorkspace::adopt("/runs/1".to_owned()),
        run_log: "/runs/1/run.log".to_owned(),
    }
}

fn new_revision() -> CommandEvent {
    CommandEvent::Revision(Ok(CheckoutRevision::Known(
        "v0.13.0-999-g012345678".to_owned(),
    )))
}

fn yes() -> CommandEvent {
    CommandEvent::Answer(Some("y\n".to_owned()))
}

fn assessed(request: UpdateRequest, mcus: Vec<Mcu>) -> (UpdateCommand, Vec<UiOutput>) {
    let (command, _) = run_update(request);
    let (command, _) = command.step(CommandEvent::Discovered(Ok(McuInventory { mcus })));
    assert!(matches!(command.stage, CommandStage::ReadRevision { .. }));
    command.step(new_revision())
}

fn completed() -> CommandEvent {
    CommandEvent::Executed(Ok(CompletedUpdate {
        artifact: BuildArtifact {
            path: "/runs/1/artifacts/x/klipper.bin".to_owned(),
            byte_count: 10,
            kconfig: String::new(),
        },
        flash: FlashResult {
            reported_pages: None,
            padded_bytes: 64,
        },
    }))
}

fn failure(command: UpdateCommand) -> String {
    match command.stage {
        CommandStage::Finished(Err(message)) => message,
        _ => panic!("expected a failure"),
    }
}

#[test]
fn refreshes_only_where_it_was_asked_for() {
    let (command, outputs) = run_update(request(&[]));
    assert!(matches!(command.stage, CommandStage::Discover { .. }));
    assert_eq!(
        outputs[0],
        UiOutput::Action("updating from Klipper source /home/pi/klipper".to_owned())
    );

    let (command, _) = run_update(UpdateRequest {
        pull: true,
        ..request(&[])
    });
    assert!(matches!(command.stage, CommandStage::Refresh));

    let (command, _) = run_update(UpdateRequest {
        interactive: true,
        ..request(&[])
    });
    assert!(matches!(command.stage, CommandStage::ConfirmPull));
    let (command, _) = command.step(CommandEvent::Answer(Some("\n".to_owned())));
    assert!(matches!(command.stage, CommandStage::Discover { .. }));
}

#[test]
fn shows_what_a_refresh_came_to() {
    let begin = || {
        run_update(UpdateRequest {
            auto: true,
            ..request(&[])
        })
        .0
    };
    let (command, outputs) = begin().step(CommandEvent::Refreshed(Ok(RefreshResult {
        before: CheckoutRevision::Known("a".to_owned()),
        after: CheckoutRevision::Known("b".to_owned()),
        advanced: true,
        commits_advanced: 2,
    })));
    assert!(matches!(command.stage, CommandStage::Discover { .. }));
    assert_eq!(
        outputs[0],
        UiOutput::Action("checkout refresh: a -> b (2 commits)".to_owned())
    );

    let (command, _) = begin().step(CommandEvent::Refreshed(Err(
        CheckoutError::UpstreamNotConfigured,
    )));
    assert_eq!(
        failure(command),
        "failed to refresh the configured Klipper checkout: \
         the checked-out Klipper branch has no configured upstream"
    );
}

#[test]
fn stops_at_a_target_that_no_mcu_has() {
    let (command, _) = run_update(request(&["typo", "other"]));
    let (command, _) = command.step(CommandEvent::Discovered(Ok(McuInventory {
        mcus: vec![outdated("mcu", None)],
    })));
    assert_eq!(failure(command), "unknown target MCUs: typo, other");
}

#[test]
fn offers_nothing_when_everything_is_current() {
    let (command, outputs) = assessed(
        request(&[]),
        vec![mcu("mcu", "v0.13.0-999-g012345678", None)],
    );
    assert!(matches!(command.stage, CommandStage::Finished(Ok(()))));
    assert_eq!(
        outputs[1],
        UiOutput::Block("\nno eligible MCUs require an update\n".to_owned())
    );
}

#[test]
fn asks_for_every_mcu_and_checks_the_printer_once() {
    let (command, outputs) = assessed(
        request(&[]),
        vec![outdated("mcu", None), outdated("mcu tool", Some("/dev/ttyACM0"))],
    );
    assert_eq!(
        outputs[1],
        UiOutput::Prompt(
            "Update mcu from v0.13.0-753-g8c29c0a8e to v0.13.0-999-g012345678?".to_owned()
        )
    );
    let (command, _) = command.step(yes());
    assert!(matches!(command.stage, CommandStage::CreateDirectories(_)));
    let directories = command.awaited_directories().unwrap();
    assert_eq!(directories.config_dir, "/runs/1/targets/6d6375");
    assert_eq!(directories.artifact_dir, "/runs/1/artifacts/6d6375");
    let (command, outputs) = command.step(CommandEvent::Directories(Ok(())));
    assert!(outputs.is_empty());
    assert!(command.awaited_directories().is_none());
    assert!(matches!(command.stage, CommandStage::CheckPrinter { .. }));
    let (command, _) = command.step(CommandEvent::Printer(Ok(PrintState::Standby)));
    assert!(matches!(command.stage, CommandStage::Execute { .. }));
    let (command, outputs) = command.step(completed());
    assert_eq!(outputs[0], UiOutput::Success("flashed 64 bytes".to_owned()));
    assert_eq!(
        outputs[2],
        UiOutput::Success("MCU restart confirmed".to_owned())
    );
    assert!(matches!(command.stage, CommandStage::Offer(_)));

    let (command, _) = command.step(yes());
    let (command, _) = command.step(CommandEvent::Directories(Ok(())));
    assert!(matches!(command.stage, CommandStage::Execute { .. }));
    let (command, _) = command.step(completed());
    assert!(matches!(command.stage, CommandStage::WaitApplication(_)));
    assert_eq!(command.awaited_device().as_deref(), Some("/dev/ttyACM0"));
    let (command, _) = command.step(CommandEvent::Device {
        present: false,
        deadline_passed: false,
    });
    let (command, outputs) = command.step(CommandEvent::Device {
        present: true,
        deadline_passed: false,
    });
    assert_eq!(
        outputs[1],
        UiOutput::Heading("Finishing update".to_owned())
    );
    let (command, _) = command.step(CommandEvent::Started(Ok(())));
    let back = |name: &str| mcu(name, "v0.13.0-999-g012345678", None);
    let (command, _) = command.step(CommandEvent::Reconnected {
        answer: Ok(McuInventory {
            mcus: vec![back("mcu")],
        }),
        deadline_passed: false,
    });
    assert!(matches!(command.stage, CommandStage::Reconnect(_)));
    let (command, outputs) = command.step(CommandEvent::Reconnected {
        answer: Ok(McuInventory {
            mcus: vec![back("mcu"), back("mcu tool")],
        }),
        deadline_passed: false,
    });
    assert!(matches!(command.stage, CommandStage::Finished(Ok(()))));
    assert_eq!(
        outputs[1],
        UiOutput::Heading("Update complete: 2 MCUs updated (run log: /runs/1/run.log)".to_owned())
    );
}

#[test]
fn a_declined_offer_changes_nothing() {
    let (command, _) = assessed(request(&[]), vec![outdated("mcu", None)]);
    let (command, outputs) = command.step(CommandEvent::Answer(None));
    assert!(matches!(command.stage, CommandStage::Finished(Ok(()))));
    assert_eq!(
        outputs[0],
        UiOutput::Block("\nno updates confirmed\n".to_owned())
    );
}

#[test]
fn an_automatic_update_does_not_ask() {
    let (command, _) = run_update(UpdateRequest {
        auto: true,
        ..request(&[])
    });
    let (command, _) = command.step(CommandEvent::Refreshed(Ok(RefreshResult {
        before: CheckoutRevision::Known("a".to_owned()),
        after: CheckoutRevision::Known("a".to_owned()),
        advanced: false,
        commits_advanced: 0,
    })));
    let (command, _) = command.step(CommandEvent::Discovered(Ok(McuInventory {
        mcus: vec![outdated("mcu", None)],
    })));
    let (command, outputs) = command.step(new_revision());
    assert!(matches!(command.stage, CommandStage::CreateDirectories(_)));
    assert!(matches!(&outputs[1], UiOutput::Heading(text) if text.starts_with("Update mcu from")));
    let (command, _) = command.step(CommandEvent::Directories(Ok(())));
    assert!(matches!(command.stage, CommandStage::CheckPrinter { .. }));
}

#[test]
fn a_directory_that_cannot_be_created_ends_the_update_before_the_printer_is_checked() {
    let io = || IoFailure {
        message: "denied".to_owned(),
    };
    for (directory, action) in [
        (
            DirectoryFailure::Config(io()),
            "create the target configuration directory",
        ),
        (DirectoryFailure::Artifact(io()), "create the artifact directory"),
    ] {
        let (command, _) = assessed(request(&[]), vec![outdated("mcu", None)]);
        let (command, _) = command.step(yes());
        let (command, outputs) = command.step(CommandEvent::Directories(Err(directory)));
        let chain = format!("workspace preparation failed: could not {action}: denied");
        assert_eq!(outputs, [UiOutput::Action(format!("error: {chain}"))]);
        assert_eq!(
            failure(command),
            format!("failed to prepare mcu for flashing: {chain}")
        );
    }
}

#[test]
fn an_mcu_without_a_name_gets_no_directories() {
    let (command, _) = assessed(request(&[]), vec![outdated("", None)]);
    let (command, _) = command.step(yes());
    assert_eq!(
        failure(command),
        "failed to prepare  for flashing: workspace preparation failed: \
         MCU target name must not be empty"
    );
}

#[test]
fn a_printing_printer_stops_the_update() {
    let (command, _) = assessed(request(&[]), vec![outdated("mcu", None)]);
    let (command, _) = command.step(yes());
    let (command, _) = command.step(CommandEvent::Directories(Ok(())));
    let (command, _) = command.step(CommandEvent::Printer(Ok(PrintState::Printing)));
    assert_eq!(
        failure(command),
        "the printer is printing; refusing to stop Klipper, run again when it is idle"
    );
}

fn executing() -> UpdateCommand {
    let (command, _) = assessed(request(&[]), vec![outdated("mcu", Some("/dev/ttyACM0"))]);
    let (command, _) = command.step(yes());
    let (command, _) = command.step(CommandEvent::Directories(Ok(())));
    command
        .step(CommandEvent::Printer(Ok(PrintState::Complete)))
        .0
}

#[test]
fn restores_klipper_only_after_a_safe_failure() {
    let (command, outputs) = executing().step(CommandEvent::Executed(Err(
        FlashCoordinatorError::Flash(SystemFlashError::MissingTransport),
    )));
    assert_eq!(outputs[0], UiOutput::Failure);
    assert!(failure(command).contains("may still be stopped"));

    let (command, _) = executing().step(CommandEvent::Executed(Err(
        FlashCoordinatorError::Artifact(IoFailure {
            message: "gone".to_owned(),
        }),
    )));
    assert!(matches!(command.stage, CommandStage::Restore(_)));
    let (command, _) = command.step(CommandEvent::Restored(Ok(())));
    assert_eq!(
        failure(command),
        "update failed: could not read the built firmware: gone. \
         Klipper has been left in its state from before this update"
    );
}

#[test]
fn names_the_mcu_that_did_not_come_back() {
    let (command, _) = executing().step(completed());
    let (command, _) = command.step(CommandEvent::Device {
        present: false,
        deadline_passed: true,
    });
    assert_eq!(failure(command), "mcu did not re-enumerate at /dev/ttyACM0");
}

#[test]
fn reports_a_start_that_failed_and_mcus_that_stay_away() {
    let started = || {
        let (command, _) = executing().step(completed());
        command
            .step(CommandEvent::Device {
                present: true,
                deadline_passed: false,
            })
            .0
    };
    let (command, _) = started().step(CommandEvent::Started(Err(
        CoordinatorError::UnexpectedKlipperState(ServiceState::Inactive),
    )));
    assert_eq!(
        failure(command),
        "Klipper must be active or inactive, found Inactive"
    );

    let (command, _) = started().step(CommandEvent::Started(Ok(())));
    let (command, _) = command.step(CommandEvent::Reconnected {
        answer: Err(MoonrakerError::KlippyNotConnected),
        deadline_passed: true,
    });
    assert!(failure(command).starts_with(
        "Klipper did not reconnect every updated MCU at the built revision (could not query Moonraker: "
    ));
}

#[test]
fn named_targets_narrow_the_offer_and_force_widens_it() {
    let current = "v0.13.0-999-g012345678";
    let inventory = McuInventory {
        mcus: vec![mcu("mcu", current, None), outdated("mcu tool", None)],
    };
    let checkout = CheckoutRevision::Known(current.to_owned());
    let named = vec!["mcu".to_owned()];

    assert_eq!(offered_mcus(&inventory, &Vec::new(), &checkout, false, false), ["mcu tool"]);
    assert!(offered_mcus(&inventory, &named, &checkout, false, false).is_empty());
    assert_eq!(offered_mcus(&inventory, &named, &checkout, false, true), ["mcu"]);
    assert_eq!(
        offered_mcus(&inventory, &Vec::new(), &checkout, true, false),
        ["mcu", "mcu tool"]
    );
}

#[test]
fn appends_the_run_log_as_the_last_line() {
    assert_eq!(
        with_run_log("update failed", "/runs/1/run.log"),
        "update failed\nRun log: /runs/1/run.log"
    );
}
