//! The service boundary around builds and flashes.
use std::cell::RefCell;
use std::collections::VecDeque;
use std::rc::Rc;

use aldis::builder::{
    BuildCommand, BuildRequest, BuildStage, CommandError, CommandOutput, CommandPort, FileAction, FileEvent,
};
use aldis::coordinator::{
    BuildCoordinator, CoordinatorError, FlashCoordinatorError, PendingBuild, SystemUpdateEvent,
    SystemUpdateRun, UpdateEvent, UpdateStage,
};
use aldis::failure::IoFailure;
use aldis::flash::katapult::system::SystemKatapultOptions;
use aldis::flash::linux_host::{HostArchitecture, LinuxHostError};
use aldis::flash::system::{FlashEvent, SystemFlashError, SystemFlashOptions};
use aldis::flash::FlashResult;
use aldis::moonraker::{Mcu, McuInventory};
use aldis::prepare::PreparedBuild;
use aldis::progress::UpdateProgress;
use aldis::service::{ServiceError, ServiceState};
use aldis::workspace::{DirectoryFailure, RunWorkspace};

#[test]
fn allows_restoring_klipper_after_a_host_mcu_failure_but_not_a_bootloader_failure() {
    assert!(
        FlashCoordinatorError::Flash(SystemFlashError::LinuxHost(LinuxHostError::NotHostElf))
            .allows_klipper_restore()
    );
    assert!(
        !FlashCoordinatorError::Flash(SystemFlashError::MissingTransport).allows_klipper_restore()
    );
    assert!(FlashCoordinatorError::<SystemFlashError>::Artifact(IoFailure {
        message: "gone".to_owned()
    })
    .allows_klipper_restore());
}

#[derive(Clone)]
struct FakeRunner {
    commands: Rc<RefCell<Vec<String>>>,
    outputs: Rc<RefCell<VecDeque<CommandOutput>>>,
}

impl FakeRunner {
    fn new(outputs: impl IntoIterator<Item = CommandOutput>) -> Self {
        Self {
            commands: Rc::new(RefCell::new(Vec::new())),
            outputs: Rc::new(RefCell::new(outputs.into_iter().collect())),
        }
    }

    fn commands(&self) -> Vec<String> {
        self.commands.borrow().clone()
    }
}

impl CommandPort for FakeRunner {
    fn run(&mut self, command: &BuildCommand) -> Result<CommandOutput, CommandError> {
        self.commands
            .borrow_mut()
            .push(format!("{} {}", command.program, command.arguments.join(" ")));
        self.outputs.borrow_mut().pop_front().ok_or_else(|| {
            CommandError::Spawn(IoFailure {
                message: "missing fake output".to_owned(),
            })
        })
    }
}

fn success_output() -> CommandOutput {
    CommandOutput::success()
}

fn state_output(success: bool, stdout: &[u8]) -> CommandOutput {
    CommandOutput {
        success,
        stdout: stdout.to_vec(),
        stderr: Vec::new(),
    }
}

fn pending_without_transport() -> PendingBuild {
    PendingBuild::new(PreparedBuild {
        target_name: "mcu".to_owned(),
        mcu: "stm32f429xx".to_owned(),
        transport: None,
        request: BuildRequest {
            kconfig: String::new(),
            config_path: String::new(),
            artifact_path: String::new(),
            clean: false,
        },
    })
}

fn flash_options() -> SystemFlashOptions {
    SystemFlashOptions {
        katapult: SystemKatapultOptions::standard(),
        host_mcu_unit_file: "/nonexistent/klipper-mcu.service".to_owned(),
        host: HostArchitecture::X86_64,
    }
}

#[test]
fn flash_firmware_stops_klipper_then_dispatches_without_building() {
    let build_runner = FakeRunner::new([]);
    let service_runner = FakeRunner::new([
        state_output(true, b"active\n"),
        success_output(),
        state_output(false, b"inactive\n"),
    ]);
    let mut coordinator = BuildCoordinator::new(
        "/nonexistent".to_owned(),
        build_runner.clone(),
        service_runner.clone(),
    );
    let mut phases = Vec::new();

    let result = coordinator.flash_firmware_system_with_progress(
        pending_without_transport().approve(),
        b"firmware".to_vec(),
        flash_options(),
        false,
        &mut phases,
    );

    assert!(matches!(
        result,
        Err(FlashCoordinatorError::Flash(
            SystemFlashError::MissingTransport
        ))
    ));
    assert_eq!(phases, [UpdateProgress::StoppingKlipper]);
    assert!(build_runner.commands().is_empty());
    assert_eq!(service_runner.commands().len(), 3);
}

fn linux_pending() -> PendingBuild {
    PendingBuild::new(PreparedBuild {
        target_name: "mcu host".to_owned(),
        mcu: "linux".to_owned(),
        transport: None,
        request: BuildRequest {
            kconfig: "CONFIG_MACH_LINUX=y\n".to_owned(),
            config_path: "/w/targets/x/.config".to_owned(),
            artifact_path: "/w/artifacts/x/klipper.bin".to_owned(),
            clean: false,
        },
    })
}

fn answer(action: &FileAction) -> FileEvent {
    match action {
        FileAction::Read(_) => FileEvent::Content("CONFIG_MACH_LINUX=y\nCONFIG_X=y\n".to_owned()),
        FileAction::Size(_) => FileEvent::Size(64),
        _ => FileEvent::Done,
    }
}

fn host_elf() -> Vec<u8> {
    let mut image = vec![0_u8; 64];
    image[..4].copy_from_slice(b"\x7fELF");
    image[4] = 2;
    image[5] = 1;
    image[18] = 62;
    image
}

#[test]
fn builds_reads_and_installs_a_host_mcu() {
    let build_runner = FakeRunner::new([success_output(), success_output()]);
    let service_runner = FakeRunner::new([
        state_output(true, b"inactive\n"),
        success_output(),
        success_output(),
        success_output(),
    ]);
    let mut coordinator = BuildCoordinator::new(
        "/klipper".to_owned(),
        build_runner.clone(),
        service_runner.clone(),
    );
    let mut phases = Vec::new();

    let mut run = coordinator.execute_and_flash_system_with_progress(
        linux_pending().approve(),
        flash_options(),
        &mut phases,
    );
    let completed = loop {
        let event = match &run {
            SystemUpdateRun::Building { update, .. } => match &update.stage {
                UpdateStage::Building(build) => {
                    let action = coordinator.build_action(build).expect("pending operation");
                    SystemUpdateEvent::Build(UpdateEvent::File(answer(&action)))
                }
                UpdateStage::ReadArtifact(_) => {
                    SystemUpdateEvent::Build(UpdateEvent::Firmware(host_elf()))
                }
                _ => panic!("settled stages are taken over"),
            },
            SystemUpdateRun::Flashing { .. } => {
                SystemUpdateEvent::Flash(FlashEvent::UnitFile(true))
            }
            SystemUpdateRun::Finished(_) => match run {
                SystemUpdateRun::Finished(Ok(completed)) => break completed,
                _ => panic!("the update should succeed"),
            },
        };
        run = coordinator.continue_system_update(run, event, 4, &mut phases);
    };

    assert_eq!(completed.artifact.path, "/w/artifacts/x/klipper.bin");
    assert_eq!(completed.artifact.byte_count, 64);
    assert_eq!(completed.flash.padded_bytes, 64);
    assert_eq!(
        phases,
        [
            UpdateProgress::ConfiguringFirmware,
            UpdateProgress::CompilingFirmware,
            UpdateProgress::Installing
        ]
    );
    assert_eq!(
        build_runner.commands(),
        [
            "make olddefconfig KCONFIG_CONFIG=/klipper/.config",
            "make KCONFIG_CONFIG=/klipper/.config -j4"
        ]
    );
    assert_eq!(
        service_runner.commands()[0],
        "sudo -n /bin/systemctl is-active klipper"
    );
    assert_eq!(service_runner.commands().len(), 4);
}

#[test]
fn hands_a_finished_build_to_the_caller() {
    let mut coordinator = BuildCoordinator::new(
        "/klipper".to_owned(),
        FakeRunner::new([success_output(), success_output()]),
        FakeRunner::new([state_output(true, b"inactive\n")]),
    );
    let mut phases = Vec::new();
    let mut run = coordinator.execute_and_flash::<String>(linux_pending().approve());
    loop {
        let event = match &run.stage {
            UpdateStage::Building(build) => {
                UpdateEvent::File(answer(&coordinator.build_action(build).unwrap()))
            }
            UpdateStage::ReadArtifact(_) => UpdateEvent::Firmware(vec![7; 3]),
            _ => break,
        };
        run = coordinator.continue_update(run, event, 1, &mut phases);
    }

    let (flashed, firmware) = run.flash_input().expect("the firmware was read");
    assert_eq!(flashed.request.kconfig, "CONFIG_MACH_LINUX=y\nCONFIG_X=y\n");
    assert_eq!(firmware, &vec![7; 3]);
    let completed = run.complete(Ok(FlashResult {
        reported_pages: None,
        padded_bytes: 3,
    }));
    assert!(matches!(completed, Some(Ok(update)) if update.flash.padded_bytes == 3));
}

#[test]
fn an_unreadable_artifact_ends_the_update() {
    let mut coordinator = BuildCoordinator::new(
        "/klipper".to_owned(),
        FakeRunner::new([success_output(), success_output()]),
        FakeRunner::new([state_output(true, b"inactive\n")]),
    );
    let mut phases = Vec::new();
    let mut run = coordinator.execute_and_flash::<SystemFlashError>(linux_pending().approve());
    loop {
        let event = match &run.stage {
            UpdateStage::Building(build) => {
                UpdateEvent::File(answer(&coordinator.build_action(build).unwrap()))
            }
            UpdateStage::ReadArtifact(_) => UpdateEvent::ReadFailed(IoFailure {
                message: "gone".to_owned(),
            }),
            _ => break,
        };
        run = coordinator.continue_update(run, event, 1, &mut phases);
    }
    let result = FlashResult {
        reported_pages: None,
        padded_bytes: 0,
    };
    match run.complete(Ok(result)) {
        Some(Err(error)) => {
            let mut messages = Vec::new();
            error.append_chain(&mut messages);
            assert_eq!(messages, ["could not read the built firmware", "gone"]);
        }
        _ => panic!("the artifact was not read"),
    }
}

#[test]
fn refuses_to_build_while_klipper_is_in_transition() {
    let service = FakeRunner::new([state_output(true, b"activating\n")]);
    let mut coordinator =
        BuildCoordinator::new("/klipper".to_owned(), FakeRunner::new([]), service.clone());

    match coordinator.execute(linux_pending().approve()) {
        Err(error) => {
            assert!(matches!(
                &error,
                CoordinatorError::UnexpectedKlipperState(ServiceState::Transitioning(_))
            ));
            assert_eq!(
                error.message(),
                "Klipper must be active or inactive, found Transitioning(\"activating\")"
            );
        }
        Ok(_) => panic!("nothing may be built"),
    }
    assert_eq!(service.commands().len(), 1);
}

#[test]
fn restores_klipper_only_where_it_was_active_first() {
    let service = FakeRunner::new([
        state_output(true, b"active\n"),
        success_output(),
        state_output(false, b"inactive\n"),
        success_output(),
        state_output(true, b"active\n"),
    ]);
    let mut coordinator =
        BuildCoordinator::new("/klipper".to_owned(), FakeRunner::new([]), service.clone());
    assert!(coordinator.execute(linux_pending().approve()).is_ok());
    assert!(coordinator.restore_after_failure().is_ok());
    assert_eq!(
        service.commands()[3],
        "sudo -n /bin/systemctl start klipper"
    );

    let stopped = FakeRunner::new([state_output(true, b"inactive\n")]);
    let mut coordinator =
        BuildCoordinator::new("/klipper".to_owned(), FakeRunner::new([]), stopped.clone());
    assert!(coordinator.execute(linux_pending().approve()).is_ok());
    assert!(coordinator.restore_after_failure().is_ok());
    assert_eq!(stopped.commands().len(), 1);
}

#[test]
fn reports_a_start_that_systemd_rejects() {
    let service = FakeRunner::new([CommandOutput {
        success: false,
        stdout: Vec::new(),
        stderr: b"unit not found\n".to_vec(),
    }]);
    let mut coordinator =
        BuildCoordinator::new("/klipper".to_owned(), FakeRunner::new([]), service);
    match coordinator.start_after_batch() {
        Err(CoordinatorError::Service(ServiceError::CommandFailed { command, .. })) => {
            assert_eq!(command.program, "sudo")
        }
        _ => panic!("the start was rejected"),
    }
}

#[test]
fn prepares_only_discovered_targets() {
    let coordinator = BuildCoordinator::new(
        "/klipper".to_owned(),
        FakeRunner::new([]),
        FakeRunner::new([]),
    );
    let inventory = McuInventory {
        mcus: vec![Mcu {
            name: "mcu".to_owned(),
            app: None,
            version: None,
            mcu: "rp2040".to_owned(),
            canbus_frequency_hz: None,
            transport: None,
            kconfig: "CONFIG_X=y\n".to_owned(),
        }],
    };
    let workspace = RunWorkspace::adopt("/runs/1".to_owned());

    let pending = match coordinator.prepare(&inventory, &workspace, "mcu", true, Ok(())) {
        Ok(pending) => pending,
        Err(error) => panic!("{}", error.message()),
    };
    assert_eq!(pending.target_name(), "mcu");
    assert_eq!(pending.kconfig(), "CONFIG_X=y\n");
    assert_eq!(pending.artifact_path(), "/runs/1/artifacts/6d6375/klipper.bin");

    match coordinator.prepare(&inventory, &workspace, "mcu tool", true, Ok(())) {
        Err(error) => {
            let mut messages = Vec::new();
            error.append_chain(&mut messages);
            assert_eq!(
                messages,
                [
                    "build preparation failed",
                    "MCU target \"mcu tool\" is not present in Moonraker inventory"
                ]
            );
        }
        Ok(_) => panic!("the target is unknown"),
    }
    match coordinator.prepare(&inventory, &workspace, "", true, Ok(())) {
        Err(error) => assert_eq!(error.message(), "workspace preparation failed"),
        Ok(_) => panic!("a target needs a name"),
    }
    let denied = DirectoryFailure::Artifact(IoFailure {
        message: "denied".to_owned(),
    });
    match coordinator.prepare(&inventory, &workspace, "mcu tool", true, Err(denied)) {
        Err(error) => {
            let mut messages = Vec::new();
            error.append_chain(&mut messages);
            assert_eq!(
                messages,
                [
                    "workspace preparation failed",
                    "could not create the artifact directory",
                    "denied"
                ]
            );
        }
        Ok(_) => panic!("the directory is missing"),
    }
}

/// Builds the approved target; gives how it ended and the commands and phases.
fn whole_build(
    service: Vec<CommandOutput>,
    watched: bool,
) -> (Option<u64>, Vec<String>, Vec<String>, Vec<UpdateProgress>) {
    let build_runner = FakeRunner::new([success_output(), success_output()]);
    let service_runner = FakeRunner::new(service);
    let mut coordinator = BuildCoordinator::new(
        "/klipper".to_owned(),
        build_runner.clone(),
        service_runner.clone(),
    );
    let mut phases = Vec::new();
    let approved = linux_pending().approve();
    let begun = if watched {
        coordinator.execute_with_progress(approved, &mut phases)
    } else {
        coordinator.execute(approved)
    };
    let size = match begun {
        Ok(mut run) => {
            while let Some(action) = coordinator.build_action(&run) {
                run = coordinator.continue_build(run, answer(&action), 4, &mut phases);
            }
            match run.stage {
                BuildStage::Finished(Ok(artifact)) => Some(artifact.byte_count),
                _ => panic!("the build should succeed"),
            }
        }
        Err(_) => None,
    };
    (size, service_runner.commands(), build_runner.commands(), phases)
}

#[test]
fn a_whole_build_reports_every_phase_once() {
    let active = || {
        vec![
            state_output(true, b"active\n"),
            success_output(),
            state_output(false, b"inactive\n"),
        ]
    };
    let (size, service, build, phases) = whole_build(active(), true);
    assert_eq!(size, Some(64));
    assert_eq!(service.len(), 3);
    assert_eq!(
        build,
        [
            "make olddefconfig KCONFIG_CONFIG=/klipper/.config",
            "make KCONFIG_CONFIG=/klipper/.config -j4"
        ]
    );
    assert_eq!(
        phases,
        [
            UpdateProgress::StoppingKlipper,
            UpdateProgress::ConfiguringFirmware,
            UpdateProgress::CompilingFirmware
        ]
    );

    let (unwatched_size, unwatched_service, unwatched_build, _) = whole_build(active(), false);
    assert_eq!(
        (unwatched_size, unwatched_service, unwatched_build),
        (size, service, build)
    );

    let (size, _, _, phases) = whole_build(vec![state_output(true, b"inactive\n")], true);
    assert_eq!(size, Some(64));
    assert_eq!(
        phases,
        [
            UpdateProgress::ConfiguringFirmware,
            UpdateProgress::CompilingFirmware
        ]
    );

    let (size, _, build, phases) = whole_build(vec![state_output(true, b"activating\n")], true);
    assert_eq!(size, None);
    assert!(build.is_empty());
    assert!(phases.is_empty());
}
