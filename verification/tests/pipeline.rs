//! Builds, the Klipper service, the source checkout and recovery from bootloaders.
use std::collections::VecDeque;

use aldis::builder::{
    build_in, BuildCommand, BuildError, BuildRequest, BuildRun, BuildStage, CommandError,
    CommandOutput, CommandPort, FileAction, FileEvent, KlipperBuilder,
};
use aldis::checkout::{
    default_klipper_source, refresh, revision, CheckoutError, CheckoutPort, GitCheckoutAdapter,
    RefreshResult,
};
use aldis::eligibility::CheckoutRevision;
use aldis::failure::IoFailure;
use aldis::flash::reboot::{
    detect_bootloaders, wait_for_any_bootloader, wait_until_absent, DetectedBootloader,
};
use aldis::flash::stm32_dfu::{ApplicationProbeResult, Stm32DfuError};
use aldis::flash::usb_bootloader::{
    classify_usb_identity, scan_usb_bootloaders, select_usb_bootloader, ObservedUsbBootloader,
    SelectedUsbBootloader, UsbBootloaderKind, UsbBootloaderSelectionError, UsbDeviceDirectory,
};
use aldis::flash::usb_sysfs::{usb_topology_snapshot, SysfsAttribute, SysfsNode};
use aldis::progress::UpdateProgress;
use aldis::reboot::{all_resolved, leave_one, LeaveAction, LeaveEvent, LeaveRun, LeaveStage};
use aldis::service::{KlipperService, ServiceError, ServiceState};
use aldis::ui::UiOutput;

/// Answers commands from a list and keeps their lines.
#[derive(Default)]
struct Runner {
    answers: VecDeque<Result<CommandOutput, CommandError>>,
    lines: Vec<String>,
}

impl CommandPort for Runner {
    fn run(&mut self, command: &BuildCommand) -> Result<CommandOutput, CommandError> {
        let place = match &command.current_dir {
            Some(directory) => format!("{directory}$ "),
            None => String::new(),
        };
        self.lines
            .push(format!("{place}{} {}", command.program, command.arguments.join(" ")));
        self.answers.pop_front().expect("an unexpected command")
    }
}

fn runner(answers: impl IntoIterator<Item = Result<CommandOutput, CommandError>>) -> Runner {
    Runner {
        answers: answers.into_iter().collect(),
        lines: Vec::new(),
    }
}

fn says(stdout: &str) -> Result<CommandOutput, CommandError> {
    Ok(CommandOutput {
        success: true,
        stdout: stdout.as_bytes().to_vec(),
        stderr: Vec::new(),
    })
}

fn fails(stderr: &str) -> Result<CommandOutput, CommandError> {
    Ok(CommandOutput {
        success: false,
        stdout: Vec::new(),
        stderr: stderr.as_bytes().to_vec(),
    })
}

fn io(message: &str) -> IoFailure {
    IoFailure {
        message: message.to_owned(),
    }
}

fn request(clean: bool) -> BuildRequest {
    BuildRequest {
        kconfig: "CONFIG_A=y\n".to_owned(),
        config_path: "/w/targets/x/.config".to_owned(),
        artifact_path: "/w/artifacts/x/klipper.bin".to_owned(),
        clean,
    }
}

/// Builds with an in-memory checkout whose configuration is `current`, and keeps what was done.
fn build(
    clean: bool,
    current: Option<&str>,
    expanded: &str,
    answers: Vec<Result<CommandOutput, CommandError>>,
) -> (BuildRun, Vec<String>, Vec<String>, Vec<UpdateProgress>) {
    let mut builder = KlipperBuilder::new("/klipper".to_owned(), runner(answers));
    let mut run = builder.build(request(clean));
    let mut files = Vec::new();
    let mut phases = Vec::new();
    let mut reads = 0;
    while let Some(action) = builder.action(&run) {
        let event = match action {
            FileAction::CreateDirectory(path) => {
                files.push(format!("mkdir {path}"));
                FileEvent::Done
            }
            FileAction::Write { path, content } => {
                files.push(format!("write {path} {content:?}"));
                FileEvent::Done
            }
            FileAction::Read(path) => {
                files.push(format!("read {path}"));
                reads += 1;
                match (reads, current) {
                    (1, Some(current)) => FileEvent::Content(current.to_owned()),
                    (1, None) => FileEvent::Missing(io("no such file")),
                    _ => FileEvent::Content(expanded.to_owned()),
                }
            }
            FileAction::Remove(path) => {
                files.push(format!("remove {path}"));
                FileEvent::Missing(io("no such file"))
            }
            FileAction::Copy { from, to } => {
                files.push(format!("copy {from} {to}"));
                FileEvent::Done
            }
            FileAction::Size(path) => {
                files.push(format!("size {path}"));
                FileEvent::Size(1234)
            }
        };
        run = builder.build_with_progress(run, event, 8, &mut phases);
    }
    (run, files, builder.into_runner().lines, phases)
}

#[test]
fn builds_in_place_and_copies_the_artifact() {
    let (run, files, lines, phases) = build(
        true,
        None,
        "CONFIG_A=y\nCONFIG_B=y\n",
        vec![says(""), says(""), says("")],
    );
    match run.stage {
        BuildStage::Finished(Ok(artifact)) => {
            assert_eq!(artifact.path, "/w/artifacts/x/klipper.bin");
            assert_eq!(artifact.byte_count, 1234);
            assert_eq!(artifact.kconfig, "CONFIG_A=y\nCONFIG_B=y\n");
        }
        _ => panic!("the build succeeds"),
    }
    assert_eq!(
        lines,
        [
            "/klipper$ make clean",
            "/klipper$ make olddefconfig KCONFIG_CONFIG=/klipper/.config",
            "/klipper$ make KCONFIG_CONFIG=/klipper/.config -j8"
        ]
    );
    assert_eq!(
        files,
        [
            "mkdir /w/targets/x",
            "write /w/targets/x/.config \"CONFIG_A=y\\n\"",
            "read /klipper/.config",
            "write /klipper/.config \"CONFIG_A=y\\n\"",
            "read /klipper/.config",
            "remove /klipper/out/compile_time_request.o",
            "mkdir /w/artifacts/x",
            "copy /klipper/out/klipper.bin /w/artifacts/x/klipper.bin",
            "size /w/artifacts/x/klipper.bin"
        ]
    );
    assert_eq!(
        phases,
        [
            UpdateProgress::ConfiguringFirmware,
            UpdateProgress::CompilingFirmware
        ]
    );
}

#[test]
fn an_unchanged_configuration_is_not_written_again() {
    let (_, files, lines, _) = build(false, Some("CONFIG_A=y\n"), "", vec![says(""), says("")]);
    assert!(!files.iter().any(|file| file.starts_with("write /klipper")));
    assert_eq!(lines.len(), 2);
}

#[test]
fn the_artifact_depends_on_the_machine() {
    for (expanded, artifact) in [
        ("CONFIG_MACH_LINUX=y", "/klipper/out/klipper.elf"),
        ("CONFIG_MACH_RPXXXX=y", "/klipper/out/klipper.uf2"),
        (
            "CONFIG_MACH_RPXXXX=y\nCONFIG_RPXXXX_FLASH_START_4000=y",
            "/klipper/out/klipper.bin",
        ),
        ("CONFIG_MACH_STM32=y", "/klipper/out/klipper.bin"),
    ] {
        let (_, files, _, _) = build(false, None, expanded, vec![says(""), says("")]);
        let copy = format!("copy {artifact} /w/artifacts/x/klipper.bin");
        assert!(files.contains(&copy), "{expanded}");
    }
}

#[test]
fn a_failed_make_ends_the_build() {
    let (run, _, lines, phases) = build(false, None, "", vec![fails(" no rule \n")]);
    match run.stage {
        BuildStage::Finished(Err(error)) => {
            assert!(matches!(error, BuildError::CommandFailed { .. }));
            assert_eq!(error.message(), "make failed: no rule");
        }
        _ => panic!("make failed"),
    }
    assert_eq!(lines.len(), 1);
    assert_eq!(phases, [UpdateProgress::ConfiguringFirmware]);

    let (run, _, _, _) = build(false, None, "", vec![Err(CommandError::Spawn(io("not found")))]);
    match run.stage {
        BuildStage::Finished(Err(error)) => {
            let mut messages = Vec::new();
            error.append_chain(&mut messages);
            assert_eq!(
                messages,
                ["could not invoke make", "could not run build command", "not found"]
            );
        }
        _ => panic!("make could not start"),
    }
}

#[test]
fn names_the_file_operation_that_failed() {
    let builder = KlipperBuilder::new("/klipper".to_owned(), runner([]));
    let run = builder.build(request(false));
    assert!(matches!(
        builder.action(&run),
        Some(FileAction::CreateDirectory(path)) if path == "/w/targets/x"
    ));
    let mut builder = builder;
    let run = builder.build_with_progress(
        run,
        FileEvent::Failed(io("denied")),
        1,
        &mut Vec::<UpdateProgress>::new(),
    );
    match run.stage {
        BuildStage::Finished(Err(error)) => {
            assert_eq!(error.message(), "could not create the temporary Kconfig directory")
        }
        _ => panic!("the directory was refused"),
    }
}

#[test]
fn a_missing_file_ends_the_build_where_it_is_needed() {
    let ends_with = |needed: fn(&FileAction, usize) -> bool| {
        let mut builder = KlipperBuilder::new("/klipper".to_owned(), runner([says(""), says("")]));
        let mut run = builder.build(request(false));
        let mut reads = 0;
        while let Some(action) = builder.action(&run) {
            reads += usize::from(matches!(action, FileAction::Read(_)));
            let event = if needed(&action, reads) {
                FileEvent::Missing(io("no such file"))
            } else if matches!(action, FileAction::Read(_)) {
                FileEvent::Content("CONFIG_A=y\n".to_owned())
            } else {
                FileEvent::Done
            };
            run = builder.build_with_progress(run, event, 1, &mut Vec::<UpdateProgress>::new());
        }
        match run.stage {
            BuildStage::Finished(Err(error)) => {
                let mut messages = Vec::new();
                error.append_chain(&mut messages);
                messages
            }
            _ => panic!("something is missing"),
        }
    };
    assert_eq!(
        ends_with(|action, reads| matches!(action, FileAction::Read(_)) && reads == 2),
        ["could not read the expanded Kconfig", "no such file"]
    );
    assert_eq!(
        ends_with(|action, _| matches!(action, FileAction::Copy { .. })),
        ["could not copy Klipper's firmware artifact", "no such file"]
    );
    assert_eq!(
        ends_with(|action, _| matches!(action, FileAction::Size(_))),
        ["could not read the copied firmware artifact", "no such file"]
    );
    assert_eq!(
        ends_with(|action, _| matches!(action, FileAction::Write { .. })),
        ["could not write the temporary Kconfig", "no such file"]
    );
}

#[test]
fn a_request_needs_directories() {
    let builder = KlipperBuilder::new("/klipper".to_owned(), runner([]));
    let orphan = |config: &str, artifact: &str| {
        let run = builder.build(BuildRequest {
            config_path: config.to_owned(),
            artifact_path: artifact.to_owned(),
            ..request(false)
        });
        match run.stage {
            BuildStage::Finished(Err(error)) => Some(error.message()),
            _ => None,
        }
    };
    assert_eq!(
        orphan("/", "/a/b").as_deref(),
        Some("invalid build request: config_path must have a parent directory")
    );
    assert_eq!(
        orphan("/a/b", "").as_deref(),
        Some("invalid build request: artifact_path must have a parent directory")
    );
    assert_eq!(orphan("relative", "other"), None);
    assert!(matches!(
        build_in(request(false), Some("/c".to_owned()), None).stage,
        BuildStage::Finished(Err(BuildError::InvalidRequest(_)))
    ));
}

#[test]
fn reads_the_state_of_the_service() {
    for (word, state) in [
        ("active\n", ServiceState::Active),
        ("inactive\n", ServiceState::Inactive),
        ("failed", ServiceState::Failed),
        ("reloading", ServiceState::Transitioning("reloading".to_owned())),
        ("", ServiceState::Unknown(String::new())),
    ] {
        let mut service = KlipperService::new(runner([says(word)]));
        assert!(matches!(service.state(), Ok(found) if found == state), "{word}");
        assert_eq!(
            service.runner().lines,
            ["sudo -n /bin/systemctl is-active klipper"]
        );
    }
    assert_eq!(
        ServiceState::Unknown("odd\n".to_owned()).describe(),
        "Unknown(\"odd\\n\")"
    );
    // `is-active` exits unsuccessfully for anything but an active unit.
    let mut service = KlipperService::new(runner([Ok(CommandOutput {
        success: false,
        stdout: b"inactive\n".to_vec(),
        stderr: Vec::new(),
    })]));
    assert!(matches!(service.state(), Ok(ServiceState::Inactive)));
}

#[test]
fn a_rejected_state_change_is_reported() {
    let mut service = KlipperService::new(runner([says(""), fails("denied\n")]));
    assert!(service.stop().is_ok());
    match service.start() {
        Err(error) => {
            assert!(matches!(error, ServiceError::CommandFailed { .. }));
            assert_eq!(error.message(), "sudo failed: denied");
        }
        Ok(()) => panic!("the start was rejected"),
    }
    assert_eq!(
        service.runner().lines,
        [
            "sudo -n /bin/systemctl stop klipper",
            "sudo -n /bin/systemctl start klipper"
        ]
    );
}

fn refresh_answers(counts: &str) -> Vec<Result<CommandOutput, CommandError>> {
    vec![
        says("v1-0-ga\n"),
        says("master\n"),
        says("origin/master\n"),
        says(""),
        says(""),
        says(counts),
    ]
}

#[test]
fn a_refresh_fast_forwards_and_counts_commits() {
    let mut git = runner(refresh_answers("0\t3\n"));
    git.answers.push_back(says(""));
    git.answers.push_back(says("v1-3-gb\n"));
    let refreshed = refresh(&mut git, "/k").unwrap();
    assert_eq!(
        refreshed,
        RefreshResult {
            before: CheckoutRevision::Known("v1-0-ga".to_owned()),
            after: CheckoutRevision::Known("v1-3-gb".to_owned()),
            advanced: true,
            commits_advanced: 3
        }
    );
    assert_eq!(
        git.lines,
        [
            "git -C /k describe --tags --long --always --dirty",
            "git -C /k rev-parse --abbrev-ref HEAD",
            "git -C /k rev-parse --abbrev-ref --symbolic-full-name @{u}",
            "git -C /k fetch origin",
            "git -C /k merge-base --is-ancestor HEAD origin/master",
            "git -C /k rev-list --left-right --count HEAD...origin/master",
            "git -C /k merge --ff-only origin/master",
            "git -C /k describe --tags --long --always --dirty"
        ]
    );
}

#[test]
fn a_current_checkout_is_not_merged() {
    let mut git = runner(refresh_answers("0\t0\n"));
    let refreshed = refresh(&mut git, "/k").unwrap();
    assert!(!refreshed.advanced);
    assert_eq!(refreshed.before, refreshed.after);
    assert_eq!(git.lines.len(), 6);
}

#[test]
fn a_divergent_branch_is_left_alone() {
    let mut answers = refresh_answers("");
    answers[4] = fails("");
    answers.truncate(5);
    let error = refresh(&mut runner(answers), "/k").unwrap_err();
    assert_eq!(
        error.message(),
        "cannot fast-forward master from origin/master; resolve the divergence before updating firmware"
    );
}

#[test]
fn every_other_git_failure_is_explained() {
    let mut answers = refresh_answers("");
    answers[2] = fails("no upstream");
    answers.truncate(3);
    let error = refresh(&mut runner(answers), "/k").unwrap_err();
    assert_eq!(error, CheckoutError::UpstreamNotConfigured);
    assert_eq!(
        error.message(),
        "the checked-out Klipper branch has no configured upstream"
    );
    let mut answers = refresh_answers("");
    answers[3] = fails(" offline \n");
    answers.truncate(4);
    assert_eq!(
        refresh(&mut runner(answers), "/k").unwrap_err().message(),
        "could not fetch the configured upstream the Klipper checkout: offline"
    );
    assert_eq!(
        refresh(&mut runner(refresh_answers("x")), "/k").unwrap_err(),
        CheckoutError::Command {
            action: "count fetched commits",
            stderr: "unexpected `git rev-list` output: x".to_owned()
        }
    );
    let error = revision(&mut runner([Err(CommandError::Spawn(io("not found")))]), "/k").unwrap_err();
    let mut messages = Vec::new();
    error.append_chain(&mut messages);
    assert_eq!(messages, ["could not run git", "not found"]);
    let mut adapter = GitCheckoutAdapter::new(runner([says("v2\n")]));
    assert_eq!(
        adapter.revision("/k"),
        Ok(CheckoutRevision::Known("v2".to_owned()))
    );
    assert_eq!(default_klipper_source(&Some("/home/pi".to_owned())), "/home/pi/klipper");
    assert_eq!(default_klipper_source(&None), "klipper");
}

fn node(name: &str, attributes: &[(&str, &str)], children: Vec<SysfsNode>) -> SysfsNode {
    SysfsNode {
        name: name.to_owned(),
        attributes: attributes
            .iter()
            .map(|(name, value)| SysfsAttribute {
                name: (*name).to_owned(),
                value: (*value).to_owned(),
            })
            .collect(),
        children,
    }
}

fn device(name: &str, vendor: &str, product: &str, tty: Option<&str>) -> UsbDeviceDirectory {
    let interfaces = tty
        .map(|tty| {
            let ports = node("tty", &[], vec![node(tty, &[], Vec::new())]);
            node(&format!("{name}:1.0"), &[], vec![ports])
        })
        .into_iter()
        .collect();
    UsbDeviceDirectory {
        path: format!("/sys/{name}"),
        node: node(
            name,
            &[("idVendor", vendor), ("idProduct", product), ("manufacturer", "Maker\n")],
            interfaces,
        ),
    }
}

#[test]
fn classifies_bootloaders_by_identity_alone() {
    let kind = |usb_id: &str, manufacturer: &str| classify_usb_identity(usb_id, manufacturer);
    assert_eq!(kind("1d50:6177", ""), Some(UsbBootloaderKind::Katapult));
    assert_eq!(kind("ffff:0000", "KATAPULT"), Some(UsbBootloaderKind::Katapult));
    assert_eq!(kind("0483:DF11", ""), Some(UsbBootloaderKind::Stm32Dfu));
    assert_eq!(kind("2e8a:0003", ""), Some(UsbBootloaderKind::PicoBoot));
    assert_eq!(kind("2e8a:000f", ""), Some(UsbBootloaderKind::PicoBoot));
    assert_eq!(kind("2e8a:000a", "raspberry"), None);
}

#[test]
fn scans_every_device_for_bootloaders() {
    let directories = vec![
        device("1-1", "1d50\n", "614e\n", Some("ttyACM0")),
        device("1-2", "1D50", "6177", Some("ttyACM1")),
        device("1-3", "0483", "df11", None),
    ];
    let found = scan_usb_bootloaders(&directories);
    assert_eq!(
        found.iter().map(|observed| observed.sysfs_path.as_str()).collect::<Vec<_>>(),
        ["/sys/1-2", "/sys/1-3"]
    );
    assert_eq!(found[0].usb_id, "1d50:6177");
    assert_eq!(found[0].manufacturer, "maker");
    assert_eq!(found[0].serial_device.as_deref(), Some("/dev/ttyACM1"));
    let detected = detect_bootloaders(&directories);
    assert_eq!(detected[1].kind, UsbBootloaderKind::Stm32Dfu);
    assert_eq!(detected[0].observed, found[0]);

    assert!(wait_for_any_bootloader(Vec::new(), false).is_none());
    assert_eq!(wait_for_any_bootloader(Vec::new(), true), Some(Vec::new()));
    assert_eq!(wait_for_any_bootloader(detected, false).unwrap().len(), 2);
    assert_eq!(wait_until_absent(true, false), None);
    assert_eq!(wait_until_absent(true, true), Some(false));
    assert_eq!(wait_until_absent(false, true), Some(true));
}

#[test]
fn selects_a_backend_or_explains_why_not() {
    let observed = |directory: &UsbDeviceDirectory, usb_id: &str, serial: Option<&str>| {
        ObservedUsbBootloader {
            sysfs_path: directory.path.clone(),
            usb_id: usb_id.to_owned(),
            manufacturer: "maker".to_owned(),
            serial_device: serial.map(str::to_owned),
        }
    };
    let mut directory = device("1-1", "1234", "5678", None);
    let snapshot = usb_topology_snapshot(&directory.node);
    assert_eq!(
        select_usb_bootloader(observed(&directory, "1d50:6177", Some("/dev/ttyACM0")), &snapshot),
        Ok(SelectedUsbBootloader::Katapult {
            sysfs_path: "/sys/1-1".to_owned(),
            serial_device: "/dev/ttyACM0".to_owned()
        })
    );
    assert_eq!(
        select_usb_bootloader(observed(&directory, "1d50:6177", None), &snapshot),
        Err(UsbBootloaderSelectionError::KatapultSerialDeviceMissing(
            "/sys/1-1".to_owned()
        ))
    );
    directory.node.attributes.push(SysfsAttribute {
        name: "bDeviceClass".to_owned(),
        value: "ef\n".to_owned(),
    });
    let snapshot = usb_topology_snapshot(&directory.node);
    let error =
        select_usb_bootloader(observed(&directory, "1234:5678", None), &snapshot).unwrap_err();
    assert_eq!(
        error.message(),
        "USB device 1234:5678 (maker) is not a supported bootloader\n  \
         product:      unknown\n  \
         serial:       none\n  \
         device class: ef//\n  \
         sysfs path:   /sys/1-1"
    );
    assert_eq!(
        error.describe(),
        "Unsupported(UnsupportedBootloaderIdentity { usb_id: \"1234:5678\", \
         manufacturer: \"maker\", product: \"unknown\", serial: \"none\", device_class: \"ef\", \
         device_subclass: \"\", device_protocol: \"\", sysfs_path: \"/sys/1-1\" })"
    );
}

fn detected(kind: UsbBootloaderKind, serial: Option<&str>) -> DetectedBootloader {
    DetectedBootloader {
        observed: ObservedUsbBootloader {
            sysfs_path: "/sys/1-1".to_owned(),
            usb_id: "1d50:6177".to_owned(),
            manufacturer: String::new(),
            serial_device: serial.map(str::to_owned),
        },
        kind,
    }
}

fn yes() -> LeaveEvent {
    LeaveEvent::Answer(Some("Y\n".to_owned()))
}

#[test]
fn a_confirmed_reboot_is_watched_until_the_device_is_gone() {
    let (run, outputs) = leave_one(
        &detected(UsbBootloaderKind::Katapult, Some("/dev/ttyACM0")),
        false,
    );
    assert_eq!(
        outputs,
        [
            UiOutput::Heading("Katapult bootloader at 1d50:6177 (/sys/1-1)".to_owned()),
            UiOutput::Prompt("Reboot into application?".to_owned())
        ]
    );
    let (run, _) = run.step(yes());
    assert_eq!(
        run.stage,
        LeaveStage::Leave(LeaveAction::Katapult {
            serial_device: "/dev/ttyACM0".to_owned()
        })
    );
    let (run, _) = run.step(LeaveEvent::Left(Ok(())));
    assert_eq!(run.stage, LeaveStage::Watch);
    let (run, outputs) = run.step(LeaveEvent::Watched(true));
    assert_eq!(run.stage, LeaveStage::Finished(true));
    assert_eq!(outputs, [UiOutput::Block("  rebooted\n".to_owned())]);
}

#[test]
fn a_declined_reboot_counts_as_resolved() {
    let (run, _) = leave_one(&detected(UsbBootloaderKind::PicoBoot, None), false);
    let (run, outputs) = run.step(LeaveEvent::Answer(Some("n".to_owned())));
    assert_eq!(run.stage, LeaveStage::Finished(true));
    assert!(outputs.is_empty());
    assert!(all_resolved(&vec![true, true]));
    assert!(!all_resolved(&vec![true, false, true]));
    assert!(all_resolved(&Vec::new()));
}

#[test]
fn a_board_that_cannot_be_rebooted_needs_a_power_cycle() {
    let ended = |(run, outputs): (LeaveRun, Vec<UiOutput>)| {
        assert_eq!(run.stage, LeaveStage::Finished(false));
        match outputs.into_iter().last() {
            Some(UiOutput::Block(text)) => text,
            other => panic!("unexpected {other:?}"),
        }
    };
    assert_eq!(
        ended(leave_one(&detected(UsbBootloaderKind::Katapult, None), true)),
        "  no unique serial device at this topology; power-cycle the board\n"
    );
    let probing = || leave_one(&detected(UsbBootloaderKind::Stm32Dfu, None), true).0;
    assert_eq!(
        ended(probing().step(LeaveEvent::Probed(Ok(ApplicationProbeResult::NotFound)))),
        "  no application found in flash; power-cycle the board\n"
    );
    assert_eq!(
        ended(probing().step(LeaveEvent::Probed(Ok(ApplicationProbeResult::Ambiguous(vec![
            1, 2
        ]))))),
        "  more than one candidate application offset found; power-cycle the board\n"
    );
    assert_eq!(
        ended(probing().step(LeaveEvent::Probed(Err(Stm32DfuError::Transport(
            "gone".to_owned()
        ))))),
        "  could not probe for an application: STM32 DFU transport error: gone\n"
    );
    let found = || LeaveEvent::Probed(Ok(ApplicationProbeResult::Found(0x0800_8000)));
    let (run, _) = probing().step(found());
    assert_eq!(
        run.stage,
        LeaveStage::Leave(LeaveAction::Stm32Dfu {
            application_start: 0x0800_8000
        })
    );
    assert_eq!(
        ended(run.step(LeaveEvent::Left(Err("busy".to_owned())))),
        "  reboot failed: busy\n"
    );
    let (run, _) = probing().step(found());
    let (run, _) = run.step(LeaveEvent::Left(Ok(())));
    assert_eq!(
        ended(run.step(LeaveEvent::Watched(false))),
        "  still present; power-cycle the board\n"
    );
    let (asking, _) = leave_one(&detected(UsbBootloaderKind::Stm32Dfu, None), false);
    let (_, outputs) = asking.step(found());
    assert_eq!(
        outputs,
        [UiOutput::Prompt(
            "Candidate application found at offset 0x8008000 \u{2014} reboot into it?".to_owned()
        )]
    );
}
