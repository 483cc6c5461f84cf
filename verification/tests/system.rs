//! Native flashing dispatch.
use aldis::builder::{BuildCommand, BuildRequest, CommandError, CommandOutput, CommandPort};
use aldis::failure::IoFailure;
use aldis::flash::katapult::adapter::KatapultFlashError;
use aldis::flash::katapult::bootstrap::CanBootstrapError;
use aldis::flash::katapult::can::CanTransportError;
use aldis::flash::katapult::serial::UsbBootloaderError;
use aldis::flash::katapult::session::SessionError;
use aldis::flash::katapult::system::SystemKatapultOptions;
use aldis::flash::katapult::Command;
use aldis::flash::linux_host::{HostArchitecture, LinuxHostError};
use aldis::flash::stm32_dfu::{ApplicationProbeResult, Stm32DfuError};
use aldis::flash::system::{
    device_access_failure, flash_prepared_system_with_progress, image_start, kconfig_flash_start_symbols,
    kconfig_machine, missing_can_usb, usb_can_bridge, usb_device_node, CanBridge, FlashEvent,
    FlashStage, SystemFlashError, SystemFlashOptions, SystemFlashRun, UnsupportedBootloaderContext,
};
use aldis::flash::usb_bootloader::{ObservedUsbBootloader, UsbBootloaderSelectionError};
use aldis::flash::usb_sysfs::{UsbIdentity, UsbTopologySnapshot};
use aldis::flash::FlashResult;
use aldis::moonraker::McuTransport;
use aldis::prepare::PreparedBuild;
use aldis::progress::UpdateProgress;

struct FakeRunner {
    commands: Vec<String>,
    success: bool,
}

impl CommandPort for FakeRunner {
    fn run(&mut self, command: &BuildCommand) -> Result<CommandOutput, CommandError> {
        self.commands
            .push(format!("{} {}", command.program, command.arguments.join(" ")));
        Ok(CommandOutput {
            success: self.success,
            stdout: Vec::new(),
            stderr: b"denied\n".to_vec(),
        })
    }
}

fn runner() -> FakeRunner {
    FakeRunner {
        commands: Vec::new(),
        success: true,
    }
}

fn options() -> SystemFlashOptions {
    SystemFlashOptions {
        katapult: SystemKatapultOptions::standard(),
        host_mcu_unit_file: "/etc/systemd/system/klipper-mcu.service".to_owned(),
        host: HostArchitecture::X86_64,
    }
}

fn prepared(kconfig: &str, transport: Option<McuTransport>) -> PreparedBuild {
    PreparedBuild {
        target_name: "mcu".to_owned(),
        mcu: "stm32f429xx".to_owned(),
        transport,
        request: BuildRequest {
            kconfig: kconfig.to_owned(),
            config_path: "/w/targets/6d6375/.config".to_owned(),
            artifact_path: "/w/artifacts/6d6375/klipper.bin".to_owned(),
            clean: false,
        },
    }
}

fn serial(device: &str) -> Option<McuTransport> {
    Some(McuTransport::Serial {
        device: device.to_owned(),
    })
}

fn observed(usb_id: &str, serial_device: Option<&str>) -> FlashEvent {
    FlashEvent::Observed {
        observed: ObservedUsbBootloader {
            sysfs_path: "/sys/bus/usb/devices/1-1".to_owned(),
            usb_id: usb_id.to_owned(),
            manufacturer: String::new(),
            serial_device: serial_device.map(str::to_owned),
        },
        snapshot: UsbTopologySnapshot {
            device_class: "00".to_owned(),
            device_subclass: String::new(),
            device_protocol: String::new(),
            usb_version: String::new(),
            device_version: String::new(),
            max_packet_size0: String::new(),
            num_configurations: String::new(),
            product: String::new(),
            serial: String::new(),
            interfaces: Vec::new(),
        },
    }
}

fn begin(
    kconfig: &str,
    transport: Option<McuTransport>,
    firmware: Vec<u8>,
    file: Option<bool>,
    phases: &mut Vec<UpdateProgress>,
) -> Result<SystemFlashRun, SystemFlashError> {
    flash_prepared_system_with_progress(
        &prepared(kconfig, transport),
        firmware,
        options(),
        file,
        phases,
    )
}

#[test]
fn recognizes_a_usb_can_bridge_from_embedded_kconfig() {
    assert!(usb_can_bridge("CONFIG_USBCANBUS=y\n"));
    assert!(!usb_can_bridge("# CONFIG_USBCANBUS is not set\n"));
}

#[test]
fn explains_an_unresponsive_can_bootloader_without_a_debug_dump() {
    let detail = SystemFlashError::CanFlash(KatapultFlashError::Session(
        SessionError::RetriesExhausted {
            command: Command::Connect,
            last_failure: "transport error".to_owned(),
        },
    ))
    .message();

    assert_eq!(
        detail,
        "the CAN bootloader did not respond to a connection request"
    );
    assert!(!detail.contains("RetriesExhausted"));
}

#[test]
fn finds_the_selected_machine_symbol_in_the_embedded_kconfig() {
    assert_eq!(
        kconfig_machine("# comment\nCONFIG_MACH_STM32H723=y\nCONFIG_OTHER=y\n"),
        "CONFIG_MACH_STM32H723=y"
    );
    assert_eq!(kconfig_machine("CONFIG_OTHER=y\n"), "");
}

#[test]
fn finds_every_enabled_flash_start_symbol_in_the_embedded_kconfig() {
    assert_eq!(
        kconfig_flash_start_symbols(
            "CONFIG_STM32_FLASH_START_2000=y\n# CONFIG_SAMD_FLASH_START_2000 is not set\n"
        ),
        vec!["CONFIG_STM32_FLASH_START_2000=y".to_owned()]
    );
    assert!(kconfig_flash_start_symbols("CONFIG_OTHER=y\n").is_empty());
}

#[test]
fn locates_the_usb_device_node_from_its_sysfs_numbers() {
    assert_eq!(
        usb_device_node("1\n", "120\n").expect("derive device node"),
        "/dev/bus/usb/001/120"
    );
    assert_eq!(usb_device_node("one\n", "120\n"), None);
}

#[test]
fn refuses_a_target_without_a_transport() {
    let mut phases = Vec::new();

    let result = begin("", None, Vec::new(), None, &mut phases);

    assert_eq!(result, Err(SystemFlashError::MissingTransport));
    assert!(phases.is_empty());
}

#[test]
fn flashes_katapult_through_its_serial_device() {
    let mut phases = Vec::new();
    let mut runner = runner();
    let run = begin("", serial("/dev/ttyACM0"), vec![1, 2], None, &mut phases).unwrap();
    assert_eq!(
        run.stage,
        FlashStage::ObserveSerial {
            device: "/dev/ttyACM0".to_owned()
        }
    );

    let run = run.step(
        observed("1d50:6177", Some("/dev/ttyACM1")),
        &mut runner,
        &mut phases,
    );
    assert_eq!(
        run.stage,
        FlashStage::FlashKatapult {
            serial_device: "/dev/ttyACM1".to_owned()
        }
    );

    let result = FlashResult {
        reported_pages: Some(1),
        padded_bytes: 64,
    };
    let run = run.step(FlashEvent::Katapult(Ok(result)), &mut runner, &mut phases);
    assert!(matches!(
        run.stage,
        FlashStage::Finished(Ok(FlashResult {
            padded_bytes: 64,
            ..
        }))
    ));
    assert_eq!(
        phases,
        [
            UpdateProgress::EnteringBootloader,
            UpdateProgress::BootloaderReady,
            UpdateProgress::StartingFlash
        ]
    );
    assert!(runner.commands.is_empty());
}

#[test]
fn waits_for_access_before_a_rom_bootloader_is_flashed() {
    let mut phases = Vec::new();
    let mut runner = runner();
    let run = begin(
        "CONFIG_STM32_FLASH_START_2000=y\n",
        serial("/dev/ttyACM0"),
        vec![0; 16],
        None,
        &mut phases,
    )
    .unwrap();

    let run = run.step(observed("0483:df11", None), &mut runner, &mut phases);
    assert!(matches!(run.stage, FlashStage::WaitAccess { .. }));
    assert_eq!(phases.len(), 2);

    let run = run.step(FlashEvent::Accessible, &mut runner, &mut phases);
    match &run.stage {
        FlashStage::FlashDfu { target, .. } => {
            assert_eq!(target.application_start, 0x0800_2000)
        }
        _ => panic!("expected a DFU transfer"),
    }
    assert_eq!(phases.last(), Some(&UpdateProgress::StartingFlash));

    let run = run.step(
        FlashEvent::Dfu(Err(Stm32DfuError::InvalidFlashStartConfiguration)),
        &mut runner,
        &mut phases,
    );
    assert!(matches!(
        run.stage,
        FlashStage::Finished(Err(SystemFlashError::Stm32Dfu(_)))
    ));
}

#[test]
fn refuses_an_unknown_bootloader_and_a_missing_flash_start() {
    let mut phases = Vec::new();
    let mut runner = runner();
    let run = begin("", serial("/dev/ttyACM0"), Vec::new(), None, &mut phases).unwrap();
    let run = run.step(
        observed("1234:5678", Some("/dev/ttyACM1")),
        &mut runner,
        &mut phases,
    );
    assert!(matches!(
        run.stage,
        FlashStage::Finished(Err(SystemFlashError::Selection(
            UsbBootloaderSelectionError::Unsupported(_)
        )))
    ));

    let run = begin("", serial("/dev/ttyACM0"), Vec::new(), None, &mut phases).unwrap();
    let run = run.step(observed("0483:df11", None), &mut runner, &mut phases);
    assert!(matches!(
        run.stage,
        FlashStage::Finished(Err(SystemFlashError::Stm32Target(_)))
    ));
}

#[test]
fn flashes_over_can_after_the_node_has_its_number() {
    let mut phases = Vec::new();
    let mut runner = runner();
    let can = Some(McuTransport::Can {
        interface: "can0".to_owned(),
        uuid: 7,
    });
    let run = begin("", can, Vec::new(), None, &mut phases).unwrap();
    assert!(matches!(
        run.stage,
        FlashStage::RequestCan { bridge: None, .. }
    ));
    let run = run.step(FlashEvent::CanRequested, &mut runner, &mut phases);
    assert_eq!(run.stage, FlashStage::ConnectCan);
    let run = run.step(FlashEvent::CanConnected, &mut runner, &mut phases);
    assert_eq!(run.stage, FlashStage::FlashCan);
    assert_eq!(
        phases,
        [
            UpdateProgress::EnteringBootloader,
            UpdateProgress::BootloaderReady,
            UpdateProgress::StartingFlash
        ]
    );
}

#[test]
fn follows_a_usb_can_bridge_to_its_usb_bootloader() {
    let mut phases = Vec::new();
    let mut runner = runner();
    let can = Some(McuTransport::Can {
        interface: "can0".to_owned(),
        uuid: 7,
    });
    let run = begin("CONFIG_USBCANBUS=y\n", can, Vec::new(), None, &mut phases).unwrap();
    assert!(matches!(run.stage, FlashStage::FindCanUsb { .. }));
    let bridge = CanBridge {
        usb_path: "/sys/bus/usb/devices/1-1".to_owned(),
        identity: UsbIdentity {
            usb_id: "1d50:606f".to_owned(),
            manufacturer: "klipper".to_owned(),
        },
    };
    let run = run.step(FlashEvent::CanUsb(bridge), &mut runner, &mut phases);
    let run = run.step(FlashEvent::CanRequested, &mut runner, &mut phases);
    assert!(matches!(run.stage, FlashStage::ObserveBridge { .. }));
    let run = run.step(
        observed("1d50:6177", Some("/dev/ttyACM1")),
        &mut runner,
        &mut phases,
    );
    assert!(matches!(run.stage, FlashStage::FlashKatapult { .. }));
}

fn host_elf() -> Vec<u8> {
    let mut image = vec![0_u8; 64];
    image[..4].copy_from_slice(b"\x7fELF");
    image[4] = 2;
    image[5] = 1;
    image[18] = 62;
    image
}

#[test]
fn installs_the_linux_host_mcu_instead_of_flashing_it() {
    let mut phases = Vec::new();
    let mut runner = runner();
    let run = begin("CONFIG_MACH_LINUX=y\n", None, host_elf(), None, &mut phases).unwrap();
    assert_eq!(run.stage, FlashStage::CheckHostUnit);

    let run = run.step(FlashEvent::UnitFile(true), &mut runner, &mut phases);

    assert!(matches!(
        run.stage,
        FlashStage::Finished(Ok(FlashResult {
            padded_bytes: 64,
            ..
        }))
    ));
    assert_eq!(phases, [UpdateProgress::Installing]);
    assert_eq!(
        runner.commands,
        [
            "sudo -n /usr/bin/install -m 0755 /dev/stdin /usr/local/bin/klipper_mcu",
            "sync ",
            "sudo -n /bin/systemctl restart klipper-mcu"
        ]
    );
}

#[test]
fn refuses_a_host_install_without_its_service() {
    let mut phases = Vec::new();
    let mut runner = runner();
    let run = begin("CONFIG_MACH_LINUX=y\n", None, host_elf(), None, &mut phases).unwrap();

    let run = run.step(FlashEvent::UnitFile(false), &mut runner, &mut phases);

    assert!(matches!(
        run.stage,
        FlashStage::Finished(Err(SystemFlashError::LinuxHost(
            LinuxHostError::ServiceNotInstalled(_)
        )))
    ));
    assert!(runner.commands.is_empty());
}

fn image_at(reset: u32) -> Vec<u8> {
    let mut image = 0x2000_8000_u32.to_le_bytes().to_vec();
    image.extend_from_slice(&reset.to_le_bytes());
    image.resize(32, 0);
    image
}

#[test]
fn derives_where_an_image_goes_from_its_vector_table() {
    assert_eq!(image_start(&image_at(0x0800_2105)), Some(0x0800_2000));
    assert_eq!(image_start(&image_at(0x0800_0105)), Some(0x0800_0000));
    assert_eq!(image_start(&[0; 32]), None);
    assert_eq!(image_start(&[0; 4]), None);
}

fn probed_file(force: bool, phases: &mut Vec<UpdateProgress>) -> SystemFlashRun {
    let mut runner = runner();
    let run = begin(
        "",
        serial("/dev/ttyACM0"),
        image_at(0x0800_2105),
        Some(force),
        phases,
    )
    .unwrap();
    let run = run.step(observed("0483:df11", None), &mut runner, phases);
    let run = run.step(FlashEvent::Accessible, &mut runner, phases);
    assert!(matches!(run.stage, FlashStage::ProbeDfu { .. }));
    run
}

#[test]
fn sends_the_device_back_when_a_file_is_built_for_another_address() {
    let mut phases = Vec::new();
    let mut runner = runner();
    let run = probed_file(false, &mut phases);

    let found = FlashEvent::Probed(Ok(ApplicationProbeResult::Found(0x0800_8000)));
    let run = run.step(found, &mut runner, &mut phases);
    assert!(matches!(
        run.stage,
        FlashStage::LeaveDfu {
            device: 0x0800_8000,
            ..
        }
    ));
    let run = run.step(FlashEvent::Left(Ok(())), &mut runner, &mut phases);

    match run.stage {
        FlashStage::Finished(Err(error)) => assert_eq!(
            error.message(),
            "the firmware file is built for flash address 0x8002000, \
             but the device runs its application at 0x8008000"
        ),
        _ => panic!("expected a refusal"),
    }
    assert!(!phases.contains(&UpdateProgress::StartingFlash));
}

#[test]
fn flashes_a_file_that_fits_or_is_forced() {
    let mut phases = Vec::new();
    let mut runner = runner();
    let fits = probed_file(false, &mut phases).step(
        FlashEvent::Probed(Ok(ApplicationProbeResult::Found(0x0800_2000))),
        &mut runner,
        &mut phases,
    );
    assert!(matches!(fits.stage, FlashStage::FlashDfu { .. }));

    let forced = probed_file(true, &mut phases).step(
        FlashEvent::Probed(Ok(ApplicationProbeResult::Found(0x0800_8000))),
        &mut runner,
        &mut phases,
    );
    assert!(matches!(forced.stage, FlashStage::FlashDfu { .. }));

    let ambiguous = probed_file(false, &mut phases).step(
        FlashEvent::Probed(Ok(ApplicationProbeResult::Ambiguous(vec![
            0x0800_0000,
            0x0800_8000,
        ]))),
        &mut runner,
        &mut phases,
    );
    assert!(matches!(
        ambiguous.stage,
        FlashStage::Finished(Err(SystemFlashError::Stm32OffsetMismatch {
            device: None,
            ..
        }))
    ));
}

#[test]
fn an_event_that_answers_nothing_changes_nothing() {
    let mut phases = Vec::new();
    let mut runner = runner();
    let run = begin("", serial("/dev/ttyACM0"), Vec::new(), None, &mut phases).unwrap();

    let run = run.step(FlashEvent::Accessible, &mut runner, &mut phases);

    assert!(matches!(run.stage, FlashStage::ObserveSerial { .. }));
    assert_eq!(phases.len(), 1);
}

#[test]
fn words_every_system_flash_error() {
    let io = || IoFailure {
        message: "denied".to_owned(),
    };
    assert_eq!(
        SystemFlashError::CanSocket(io()).message(),
        "could not open the configured CAN interface: denied"
    );
    assert_eq!(
        SystemFlashError::CanUsbTopology(io()).message(),
        "could not identify the USB CAN adapter: denied"
    );
    assert_eq!(
        SystemFlashError::UsbAccess(io()).message(),
        "the USB bootloader was not accessible: denied"
    );
    assert_eq!(
        SystemFlashError::KatapultOpen(io()).message(),
        "could not open the Katapult bootloader: denied"
    );
    assert_eq!(
        SystemFlashError::Can(CanBootstrapError::Transport(CanTransportError::Io(io()))).message(),
        "could not enter the bootloader over CAN"
    );
    assert_eq!(
        SystemFlashError::Bootloader(UsbBootloaderError::NoEffect {
            device: "1-1".to_owned()
        })
        .message(),
        "the expected USB bootloader did not appear before the timeout"
    );
    assert_eq!(
        SystemFlashError::MissingTransport.message(),
        "the MCU does not expose a configured transport"
    );
    assert_eq!(
        device_access_failure("/dev/bus/usb/001/002", &io()).message,
        "/dev/bus/usb/001/002 was not readable and writable within 5s: denied"
    );
    assert_eq!(
        missing_can_usb("can0").message,
        "could not find a USB device for CAN interface \"can0\""
    );
    assert_eq!(
        UnsupportedBootloaderContext::over_can("can0", 0xab, None).transport,
        "CAN can0 (uuid 00000000000000ab)"
    );
}
