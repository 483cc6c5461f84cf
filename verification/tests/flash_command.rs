//! The command that flashes a firmware file.
use aldis::builder::{BuildCommand, BuildError, CommandOutput};
use aldis::coordinator::{CoordinatorError, FlashCoordinatorError};
use aldis::failure::IoFailure;
use aldis::flash::linux_host::{InstallStep, LinuxHostError};
use aldis::flash::system::SystemFlashError;
use aldis::flash::FlashResult;
use aldis::flash_command::{
    confirmation_prompt, flash_failure, run_flash, FlashCommand, FlashCommandEvent,
    FlashCommandStage, FlashRequest,
};
use aldis::moonraker::{Mcu, McuInventory, MoonrakerError};
use aldis::service::ServiceState;
use aldis::ui::UiOutput;
use aldis::workspace::DirectoryFailure;

#[test]
fn names_the_firmware_file_target_and_byte_count_in_the_confirmation_prompt() {
    let prompt = confirmation_prompt("mcu toolhead", "custom.bin", 4096);

    assert!(prompt.contains("custom.bin"));
    assert!(prompt.contains("4096 bytes"));
    assert!(prompt.contains("mcu toolhead"));
    assert!(prompt.contains("Kconfig validation"));
}

#[test]
fn reports_the_host_mcu_setup_hint_in_the_final_flash_error() {
    let error = FlashCoordinatorError::<SystemFlashError>::Flash(SystemFlashError::LinuxHost(
        LinuxHostError::CommandFailed {
            step: InstallStep::Install,
            output: Box::new(CommandOutput {
                success: false,
                stdout: Vec::new(),
                stderr: b"sudo: a password is required\n".to_vec(),
            }),
        },
    ));

    let message = flash_failure(error, None);

    assert!(
        message.starts_with(
            "flash failed: could not install /usr/local/bin/klipper_mcu: \
             sudo: a password is required; run sudo aldis setup"
        ),
        "{message}"
    );
}

#[test]
fn flash_command_reports_build_stderr_without_debugging_command_buffers() {
    let error = FlashCoordinatorError::<SystemFlashError>::Coordinator(CoordinatorError::Build(
        BuildError::CommandFailed {
            command: Box::new(BuildCommand {
                program: "make".to_owned(),
                arguments: Vec::new(),
                current_dir: None,
                stdin: None,
            }),
            output: Box::new(CommandOutput {
                success: false,
                stdout: b"unrelated output".to_vec(),
                stderr: b"permission denied".to_vec(),
            }),
        },
    ));

    let message = flash_failure(error, None);

    assert!(message.contains("make failed: permission denied"));
    assert!(!message.contains("unrelated output"));
    assert!(message.contains("may still be stopped"));
}

#[test]
fn flash_command_reports_that_klipper_was_restored_after_a_pre_flash_failure() {
    let error = FlashCoordinatorError::<SystemFlashError>::Artifact(IoFailure {
        message: "missing firmware file".to_owned(),
    });

    let message = flash_failure(error, Some(Ok(())));

    assert!(message.contains("left in its state from before this flash attempt"));
    assert!(!message.contains("may still be stopped"));
}

fn inventory() -> McuInventory {
    McuInventory {
        mcus: vec![Mcu {
            name: "mcu toolhead".to_owned(),
            app: None,
            version: None,
            mcu: "rp2040".to_owned(),
            canbus_frequency_hz: None,
            transport: None,
            kconfig: "CONFIG_X=y\n".to_owned(),
        }],
    }
}

fn request(force: bool) -> FlashRequest {
    FlashRequest {
        firmware: "custom.bin".to_owned(),
        target: "toolhead".to_owned(),
        force,
    }
}

fn reserved(request: FlashRequest) -> FlashCommand {
    let (command, _) = run_flash(request).step(FlashCommandEvent::Firmware(Ok(vec![1; 8])));
    let (command, _) = command.step(FlashCommandEvent::Discovered(Ok(inventory())));
    let (command, outputs) = command.step(FlashCommandEvent::Workspace(Ok("/runs/1".to_owned())));
    assert!(outputs.is_empty());
    command
}

fn failed(command: FlashCommand) -> String {
    match command.stage {
        FlashCommandStage::Finished(Err(message)) => message,
        _ => panic!("expected a failure"),
    }
}

fn prepared(force: bool) -> (FlashCommand, Vec<UiOutput>) {
    reserved(request(force)).step(FlashCommandEvent::Directories(Ok(())))
}

#[test]
fn creates_the_directories_of_the_target_before_it_asks() {
    let command = reserved(request(false));
    let directories = command.awaited_directories().unwrap();
    assert_eq!(
        directories.config_dir,
        "/runs/1/targets/6d637520746f6f6c68656164"
    );
    assert_eq!(
        directories.artifact_dir,
        "/runs/1/artifacts/6d637520746f6f6c68656164"
    );
    let (command, _) = command.step(FlashCommandEvent::Directories(Ok(())));
    assert!(command.awaited_directories().is_none());
    assert!(matches!(command.stage, FlashCommandStage::Confirm { .. }));
}

#[test]
fn a_directory_that_cannot_be_created_ends_the_flash_before_anything_is_asked() {
    let io = || IoFailure {
        message: "denied".to_owned(),
    };
    for (directory, action) in [
        (
            DirectoryFailure::Config(io()),
            "create the target configuration directory",
        ),
        (DirectoryFailure::Artifact(io()), "create the artifact directory"),
    ] {
        let (command, outputs) =
            reserved(request(false)).step(FlashCommandEvent::Directories(Err(directory)));
        assert!(outputs.is_empty());
        assert_eq!(
            failed(command),
            format!(
                "failed to prepare mcu toolhead for flashing: \
                 workspace preparation failed: could not {action}: denied"
            )
        );
    }
    let command = reserved(FlashRequest {
        target: String::new(),
        ..request(false)
    });
    assert!(failed(command).ends_with("MCU target name must not be empty"));
}

#[test]
fn asks_before_a_file_is_flashed() {
    let (command, outputs) = prepared(false);
    assert_eq!(
        outputs,
        [UiOutput::Prompt(confirmation_prompt(
            "mcu toolhead",
            "custom.bin",
            8
        ))]
    );
    let (command, outputs) = command.step(FlashCommandEvent::Answer(Some("n\n".to_owned())));
    assert!(command.stage == FlashCommandStage::Finished(Ok(())));
    assert_eq!(outputs, [UiOutput::Block("\nflash cancelled\n".to_owned())]);

    let (command, _) = prepared(false);
    let (command, _) = command.step(FlashCommandEvent::Answer(Some("y\n".to_owned())));
    assert!(matches!(command.stage, FlashCommandStage::Flash { .. }));
}

#[test]
fn starts_klipper_after_a_forced_flash() {
    let (command, outputs) = prepared(true);
    assert!(outputs.is_empty());
    assert!(matches!(command.stage, FlashCommandStage::Flash { .. }));
    let (command, outputs) = command.step(FlashCommandEvent::Flashed(Ok(FlashResult {
        reported_pages: None,
        padded_bytes: 64,
    })));
    assert_eq!(outputs[0], UiOutput::Success("flashed 64 bytes".to_owned()));
    let (command, outputs) = command.step(FlashCommandEvent::Started(Err(
        CoordinatorError::UnexpectedKlipperState(ServiceState::Failed),
    )));
    let message = "flashed successfully but Klipper failed to restart: \
                   Klipper must be active or inactive, found Failed";
    assert!(command.stage == FlashCommandStage::Finished(Err(message.to_owned())));
    assert_eq!(
        outputs,
        [
            UiOutput::Failure,
            UiOutput::Action(format!("error: {message}"))
        ]
    );
}

#[test]
fn restores_klipper_only_where_it_is_safe() {
    let (command, _) = prepared(true);
    let (command, outputs) = command.step(FlashCommandEvent::Flashed(Err(
        FlashCoordinatorError::Flash(SystemFlashError::MissingTransport),
    )));
    assert!(matches!(&command.stage, FlashCommandStage::Finished(Err(message))
        if message.contains("may still be stopped")));
    assert_eq!(outputs.len(), 2);

    let (command, _) = prepared(true);
    let (command, _) = command.step(FlashCommandEvent::Flashed(Err(
        FlashCoordinatorError::Flash(SystemFlashError::LinuxHost(LinuxHostError::NotHostElf)),
    )));
    assert!(matches!(command.stage, FlashCommandStage::Restore(_)));
    let (command, _) = command.step(FlashCommandEvent::Restored(Ok(())));
    assert!(matches!(&command.stage, FlashCommandStage::Finished(Err(message))
        if message.ends_with("left in its state from before this flash attempt")));
}

#[test]
fn names_what_could_not_be_read_or_prepared() {
    let io = || IoFailure {
        message: "gone".to_owned(),
    };
    let (command, _) = run_flash(request(true)).step(FlashCommandEvent::Firmware(Err(io())));
    assert_eq!(failed(command), "could not read firmware file custom.bin: gone");

    let (command, _) = run_flash(request(true)).step(FlashCommandEvent::Firmware(Ok(Vec::new())));
    let (command, _) = command.step(FlashCommandEvent::Discovered(Err(
        MoonrakerError::KlippyNotConnected,
    )));
    assert!(failed(command).starts_with("failed to discover MCUs from Moonraker: "));

    let (command, _) = run_flash(request(true)).step(FlashCommandEvent::Firmware(Ok(Vec::new())));
    let (command, _) = command.step(FlashCommandEvent::Discovered(Ok(McuInventory {
        mcus: Vec::new(),
    })));
    let (command, _) = command.step(FlashCommandEvent::Workspace(Ok("/runs/1".to_owned())));
    let (command, _) = command.step(FlashCommandEvent::Directories(Ok(())));
    assert_eq!(
        failed(command),
        "failed to prepare toolhead for flashing: build preparation failed: \
         MCU target \"toolhead\" is not present in Moonraker inventory"
    );
}
