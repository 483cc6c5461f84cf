//! Native flash backends: PicoBoot, STM32 DFU, BOSSA and the Linux host MCU.
use std::collections::VecDeque;

use aldis::builder::{BuildCommand, CommandError, CommandOutput, CommandPort};
use aldis::failure::IoFailure;
use aldis::flash::bossa::{
    self, bossac_command, flash_system_with_runner, BossaError, BossaStage, BossaTarget,
};
use aldis::flash::linux_host::{
    is_linux_host, HostArchitecture, HostMcuInstaller, InstallStep, LinuxHostError,
    HOST_MCU_UNIT_FILE,
};
use aldis::flash::picoboot::{
    self, decode_uf2, PicoBootAdapter, PicoBootError, PicoEvent, PicoStage, PicobootRun, Uf2Error, FLASH_START,
    MAGIC_END, MAGIC_START_0, MAGIC_START_1, RP2040_FAMILY_ID,
};
use aldis::flash::stm32_dfu::{
    self, candidate, find_device, find_device_at_path, is_plausible, probe_application_start,
    ApplicationProbeResult, DfuEvent, DfuJob, DfuRun, DfuStage, ProbeRun, ProbeStage,
    Stm32DfuAdapter, Stm32DfuDevice, Stm32DfuError, Stm32DfuTarget, UsbDeviceRecord, UsbInterfaceRecord,
    VectorReading, FLASH_START_COUNT,
};
use aldis::flash::FlashResult;

/// A UF2 image whose blocks carry `index` as their payload.
fn uf2(blocks: u32) -> Vec<u8> {
    let mut image = Vec::new();
    for index in 0..blocks {
        let mut block = vec![0_u8; 512];
        let words = [
            MAGIC_START_0,
            MAGIC_START_1,
            0x2000,
            FLASH_START + index * 256,
            256,
            index,
            blocks,
            RP2040_FAMILY_ID,
        ];
        for (position, word) in words.into_iter().enumerate() {
            block[position * 4..position * 4 + 4].copy_from_slice(&word.to_le_bytes());
        }
        block[32..288].fill(index as u8 + 1);
        block[508..].copy_from_slice(&MAGIC_END.to_le_bytes());
        image.extend_from_slice(&block);
    }
    image
}

fn with_word(mut image: Vec<u8>, offset: usize, word: u32) -> Vec<u8> {
    image[offset..offset + 4].copy_from_slice(&word.to_le_bytes());
    image
}

#[test]
fn decodes_a_contiguous_uf2_image() {
    let image = decode_uf2(&uf2(3)).unwrap();
    assert_eq!(image.address, 0x1000_0000);
    assert_eq!(image.bytes.len(), 768);
    assert_eq!((image.bytes[0], image.bytes[256], image.bytes[767]), (1, 2, 3));
}

#[test]
fn refuses_uf2_images_that_are_not_whole_or_not_for_main_flash() {
    assert_eq!(decode_uf2(&[]), Err(Uf2Error::InvalidLength));
    assert_eq!(decode_uf2(&uf2(1)[..511]), Err(Uf2Error::InvalidLength));
    for (offset, word) in [
        (0, 1),
        (4, 1),
        (8, 0),
        (12, 0x0fff_ff00),
        (12, FLASH_START + 1),
        (16, 128),
        (20, 1),
        (24, 2),
        (28, 0xe48b_ff59),
        (508, 0),
    ] {
        assert_eq!(
            decode_uf2(&with_word(uf2(1), offset, word)),
            Err(Uf2Error::InvalidBlock),
            "word at {offset}"
        );
    }
    assert_eq!(
        decode_uf2(&with_word(uf2(2), 512 + 12, FLASH_START + 512)),
        Err(Uf2Error::NonContiguous)
    );
    assert_eq!(
        PicoBootError::Uf2(Uf2Error::NonContiguous).message(),
        "firmware is not a supported UF2 image: UF2 image blocks do not form a contiguous address range"
    );
}

fn paths(list: &[&str]) -> PicoEvent {
    PicoEvent::Devices(list.iter().map(|path| (*path).to_owned()).collect())
}

fn pico_result(run: PicobootRun) -> Result<Option<FlashResult>, PicoBootError> {
    match run.stage {
        PicoStage::Finished(result) => result,
        stage => panic!("still at {stage:?}"),
    }
}

#[test]
fn picoboot_writes_verifies_and_reboots_one_device() {
    let mut run = PicoBootAdapter::new("/sys/1-2".to_owned()).flash(&uf2(17)).unwrap();
    assert_eq!(run.erase_size(), 8192);
    run = run.step(paths(&["/sys/1-1", "/sys/1-2"]));
    assert_eq!(run.stage, PicoStage::Connecting { device: 1 });
    for stage in [
        PicoStage::Claiming,
        PicoStage::LeavingXip,
        PicoStage::Erasing,
        PicoStage::Writing,
        PicoStage::Reading,
    ] {
        run = run.step(PicoEvent::Done);
        assert_eq!(run.stage, stage);
    }
    run = run.step(PicoEvent::Done);
    assert_eq!(run.stage, PicoStage::Reading);
    let written = run.image.as_ref().unwrap().bytes.clone();
    run = run.step(PicoEvent::Read(written));
    assert_eq!(run.stage, PicoStage::Rebooting);
    assert_eq!(
        pico_result(run.step(PicoEvent::Done)),
        Ok(Some(FlashResult {
            reported_pages: None,
            padded_bytes: 17 * 256
        }))
    );
}

#[test]
fn picoboot_never_reboots_after_a_readback_that_differs() {
    let mut run = picoboot::flash_system(&uf2(1)).unwrap();
    run = run.step(paths(&["/sys/1-1"]));
    for _ in 0..5 {
        run = run.step(PicoEvent::Done);
    }
    assert_eq!(
        pico_result(run.step(PicoEvent::Read(vec![0; 256]))),
        Err(PicoBootError::VerificationMismatch)
    );
}

#[test]
fn picoboot_refuses_to_choose_between_devices() {
    let begin = || picoboot::reboot_at_path("/sys/1-1");
    let error = pico_result(begin().step(paths(&["/sys/1-2"]))).unwrap_err();
    assert_eq!(error.message(), "no RP2040 or RP2350 PicoBoot device found");
    let error = pico_result(PicobootRun::reboot(None).step(paths(&["/a", "/b"]))).unwrap_err();
    assert_eq!(error.message(), "2 PicoBoot devices found, expected exactly one");
    let error = pico_result(begin().step(PicoEvent::Failed("stalled".to_owned()))).unwrap_err();
    assert_eq!(error.message(), "PicoBoot transport error: stalled");

    let run = begin().step(paths(&["/sys/1-1"])).step(PicoEvent::Done).step(PicoEvent::Done);
    assert_eq!(run.stage, PicoStage::Rebooting);
    assert_eq!(pico_result(run.step(PicoEvent::Done)), Ok(None));
}

#[test]
fn derives_the_stm32_application_address_from_the_embedded_kconfig() {
    let target = |config: &str| stm32_dfu::target_from_kconfig(config);
    assert_eq!(
        target("CONFIG_MACH_STM32=y\n  CONFIG_STM32_FLASH_START_8000=y\n"),
        Ok(Stm32DfuTarget {
            application_start: 0x0800_8000
        })
    );
    assert_eq!(
        target("CONFIG_STM32_FLASH_START_C000=y"),
        Ok(Stm32DfuTarget {
            application_start: 0x0800_c000
        })
    );
    assert_eq!(
        target("CONFIG_STM32_FLASH_START_20200=y"),
        Ok(Stm32DfuTarget {
            application_start: 0x0802_0200
        })
    );
    assert_eq!(
        target("CONFIG_STM32_FLASH_START_0000=y"),
        Ok(Stm32DfuTarget {
            application_start: 0x0800_0000
        })
    );
    for refused in [
        "",
        "CONFIG_STM32_FLASH_START_8000=n",
        "CONFIG_STM32_FLASH_START_3000=y",
        "CONFIG_STM32_FLASH_START_8000=y\nCONFIG_STM32_FLASH_START_0000=y",
    ] {
        assert_eq!(target(refused), Err(Stm32DfuError::InvalidFlashStartConfiguration));
    }
}

fn dfu_device(path: &str, interfaces: &[(u8, u8, u8)]) -> UsbDeviceRecord {
    UsbDeviceRecord {
        sysfs_path: path.to_owned(),
        vendor_id: 0x0483,
        product_id: 0xdf11,
        interfaces: interfaces
            .iter()
            .map(|&(number, class, subclass)| UsbInterfaceRecord {
                number,
                class,
                subclass,
            })
            .collect(),
    }
}

#[test]
fn selects_exactly_one_dfu_device() {
    let rom = Stm32DfuDevice::rom_bootloader();
    let dfu = |path: &str| dfu_device(path, &[(0, 3, 0), (1, 0xfe, 1), (2, 0xfe, 1)]);
    let other = UsbDeviceRecord {
        product_id: 1,
        ..dfu("/sys/1-9")
    };
    let mute = dfu_device("/sys/1-8", &[(0, 3, 0)]);
    let devices = vec![other, mute, dfu("/sys/1-1"), dfu("/sys/1-2")];

    assert_eq!(find_device_at_path(rom, "/sys/1-2", &devices), Ok((3, 1)));
    assert_eq!(find_device(rom, &devices[..3].to_vec()), Ok((2, 1)));
    let error = find_device(rom, &devices).unwrap_err();
    assert_eq!(
        error.message(),
        "2 STM32 DFU devices matched vendor 0x0483 product 0xdf11, expected exactly one"
    );
    let error = find_device_at_path(rom, "/sys/1-8", &devices).unwrap_err();
    assert_eq!(
        error.message(),
        "no STM32 DFU device found for vendor 0x0483 product 0xdf11"
    );
}

fn dfu_run(job: DfuJob) -> DfuRun {
    let identity = Stm32DfuDevice::rom_bootloader();
    let path = "/sys/1-1".to_owned();
    match job {
        DfuJob::Flash { target, firmware } => {
            Stm32DfuAdapter::new(identity, path, target).flash(firmware)
        }
        DfuJob::Leave { application_start } => {
            stm32_dfu::leave_system_at_path(identity, path, application_start)
        }
    }
    .step(DfuEvent::Devices(vec![dfu_device("/sys/1-1", &[(0, 0xfe, 1)])]))
}

fn flash_job() -> DfuJob {
    DfuJob::Flash {
        target: Stm32DfuTarget {
            application_start: 0x0800_8000,
        },
        firmware: vec![1, 2, 3],
    }
}

#[test]
fn dfu_manifests_only_verified_firmware() {
    let uploading = || {
        let run = dfu_run(flash_job());
        assert_eq!(run.address(), 0x0800_8000);
        run.step(DfuEvent::Done).step(DfuEvent::Done).step(DfuEvent::Done)
    };
    assert_eq!(uploading().stage, DfuStage::Uploading);
    let manifesting = uploading().step(DfuEvent::ReadBack(vec![1, 2, 3]));
    assert_eq!(manifesting.stage, DfuStage::Manifesting);
    assert_eq!(
        manifesting.step(DfuEvent::Stalled("stall".to_owned())).stage,
        DfuStage::Finished(Ok(Some(FlashResult {
            reported_pages: None,
            padded_bytes: 3
        })))
    );
    assert_eq!(
        uploading().step(DfuEvent::Stalled("stall".to_owned())).stage,
        DfuStage::Finished(Err(Stm32DfuError::Transport("stall".to_owned())))
    );
    assert_eq!(
        uploading().step(DfuEvent::ReadBack(vec![1, 2])).stage,
        DfuStage::Finished(Err(Stm32DfuError::VerificationMismatch))
    );
    assert_eq!(
        uploading().step(DfuEvent::Failed("gone".to_owned())).stage,
        DfuStage::Finished(Err(Stm32DfuError::Transport("gone".to_owned())))
    );
}

#[test]
fn dfu_leaves_without_writing() {
    let run = dfu_run(DfuJob::Leave {
        application_start: 0x0800_2000,
    });
    assert_eq!(run.address(), 0x0800_2000);
    let run = run.step(DfuEvent::Done).step(DfuEvent::Done).step(DfuEvent::Done);
    assert_eq!(run.stage, DfuStage::Manifesting);
    assert_eq!(
        run.step(DfuEvent::Done).stage,
        DfuStage::Finished(Ok(None))
    );
    let unbound = stm32_dfu::flash_system(
        Stm32DfuDevice::rom_bootloader(),
        Stm32DfuTarget {
            application_start: 0x0800_0000,
        },
        vec![1],
    );
    assert_eq!(unbound.topology, None);
    assert_eq!(unbound.stage, DfuStage::Finding);
    let refused = dfu_run(flash_job()).step(DfuEvent::Failed("busy".to_owned()));
    assert_eq!(
        refused.stage,
        DfuStage::Finished(Err(Stm32DfuError::Discovery("busy".to_owned())))
    );
}

fn table(stack_pointer: u32, reset_vector: u32) -> [u8; 8] {
    let mut bytes = [0; 8];
    bytes[..4].copy_from_slice(&stack_pointer.to_le_bytes());
    bytes[4..].copy_from_slice(&reset_vector.to_le_bytes());
    bytes
}

#[test]
fn recognizes_a_plausible_vector_table() {
    assert!(is_plausible(&table(0x2000_0000, 0x0800_0001)));
    assert!(is_plausible(&table(0x201f_fffc, 0x081f_ffff)));
    for (stack_pointer, reset_vector) in [
        (0x1fff_fffc, 0x0800_0001),
        (0x2020_0000, 0x0800_0001),
        (0x2000_0002, 0x0800_0001),
        (0x2000_0000, 0x07ff_ffff),
        (0x2000_0000, 0x0820_0001),
        (0x2000_0000, 0x0800_0000),
        (0xffff_ffff, 0xffff_ffff),
    ] {
        assert!(!is_plausible(&table(stack_pointer, reset_vector)));
    }
}

#[test]
fn reports_an_application_only_at_a_unique_offset() {
    let good = table(0x2000_1000, 0x0800_8101);
    let reading = |address: u32, bytes: [u8; 8]| VectorReading { address, bytes };
    assert_eq!(probe_application_start(&Vec::new()), ApplicationProbeResult::NotFound);
    assert_eq!(
        probe_application_start(&vec![
            reading(0x0800_8000, good),
            reading(0x0800_2000, [0xff; 8])
        ]),
        ApplicationProbeResult::Found(0x0800_8000)
    );
    assert_eq!(
        probe_application_start(&vec![
            reading(0x0800_8000, good),
            reading(0x0800_0000, good),
            reading(0x0800_3000, good)
        ]),
        ApplicationProbeResult::Ambiguous(vec![0x0800_8000, 0x0800_0000])
    );
    assert_eq!(candidate(0), 0x0800_0800);
    assert_eq!(candidate(FLASH_START_COUNT - 1), 0x0800_0000);
}

#[test]
fn a_probe_skips_what_it_cannot_read() {
    let mut run = ProbeRun::new(Stm32DfuDevice::rom_bootloader(), "/sys/1-1".to_owned())
        .step(DfuEvent::Devices(vec![dfu_device("/sys/1-1", &[(0, 0xfe, 1)])]))
        .step(DfuEvent::Done);
    let mut connections = 0;
    while !matches!(run.stage, ProbeStage::Finished(_)) {
        let event = match run.stage {
            ProbeStage::Connecting => {
                connections += 1;
                DfuEvent::Done
            }
            _ => match run.address() {
                0x0800_8000 => DfuEvent::ReadBack(table(0x2000_1000, 0x0800_8101).to_vec()),
                0x0800_1000 => DfuEvent::Failed("locked".to_owned()),
                0x0800_2000 => DfuEvent::ReadBack(vec![0; 4]),
                _ => DfuEvent::ReadBack(vec![0xff; 8]),
            },
        };
        run = run.step(event);
    }
    assert_eq!(connections, 2);
    assert_eq!(run.readings.len(), FLASH_START_COUNT - 2);
    assert_eq!(
        run.stage,
        ProbeStage::Finished(Ok(ApplicationProbeResult::Found(0x0800_8000)))
    );
}

/// Answers commands from a list and keeps them.
struct Runner {
    answers: VecDeque<Result<CommandOutput, CommandError>>,
    commands: Vec<(String, Option<usize>)>,
}

impl Runner {
    fn new(answers: impl IntoIterator<Item = Result<CommandOutput, CommandError>>) -> Self {
        Self {
            answers: answers.into_iter().collect(),
            commands: Vec::new(),
        }
    }
}

impl CommandPort for Runner {
    fn run(&mut self, command: &BuildCommand) -> Result<CommandOutput, CommandError> {
        let line = format!("{} {}", command.program, command.arguments.join(" "));
        let input = command.stdin.as_ref().map(|stdin| stdin.0.len());
        self.commands.push((line, input));
        self.answers.pop_front().expect("an unexpected command")
    }
}

fn io(message: &str) -> IoFailure {
    IoFailure {
        message: message.to_owned(),
    }
}

fn failed(stderr: &str) -> Result<CommandOutput, CommandError> {
    Ok(CommandOutput {
        success: false,
        stdout: Vec::new(),
        stderr: stderr.as_bytes().to_vec(),
    })
}

fn succeeded() -> Result<CommandOutput, CommandError> {
    Ok(CommandOutput::success())
}

#[test]
fn derives_the_bossa_offset_from_the_embedded_kconfig() {
    let offset = |config: &str| bossa::target_from_kconfig(config).ok().map(|t| t.offset);
    assert_eq!(offset("CONFIG_SAMD_FLASH_START_2000=y"), Some(0x2000));
    assert_eq!(offset("x\n CONFIG_SAMD_FLASH_START_4000=y\n"), Some(0x4000));
    assert_eq!(offset(""), None);
    assert_eq!(
        offset("CONFIG_SAMD_FLASH_START_2000=y\nCONFIG_SAMD_FLASH_START_4000=y"),
        None
    );
}

#[test]
fn spells_the_bossac_invocation() {
    let command = bossac_command(
        "bossac",
        "/dev/ttyACM0",
        BossaTarget { offset: 0x4000 },
        "/tmp/f.bin",
    );
    assert_eq!(command.program, "bossac");
    assert_eq!(
        command.arguments,
        ["-U", "-p", "/dev/ttyACM0", "--offset=0x4000", "-b", "-R", "-w", "/tmp/f.bin", "-v"]
    );
    assert!(command.current_dir.is_none() && command.stdin.is_none());
}

#[test]
fn bossa_removes_its_file_whatever_came_of_the_transfer() {
    let begin = || {
        flash_system_with_runner(
            "bossac".to_owned(),
            "/dev/ttyACM0".to_owned(),
            BossaTarget { offset: 0x2000 },
            vec![0; 9],
            "/tmp/f.bin".to_owned(),
        )
    };
    let mut runner = Runner::new([succeeded()]);
    let run = begin().step(&mut runner, Ok(())).step(&mut runner, Ok(()));
    assert!(
        run.stage
            == BossaStage::Finished(Ok(FlashResult {
                reported_pages: None,
                padded_bytes: 9
            }))
    );
    assert_eq!(
        runner.commands[0].0,
        "bossac -U -p /dev/ttyACM0 --offset=0x2000 -b -R -w /tmp/f.bin -v"
    );

    let mut runner = Runner::new([failed("no device")]);
    let run = begin().step(&mut runner, Ok(()));
    assert!(matches!(run.stage, BossaStage::RemoveFirmware(Err(_))));
    let run = run.step(&mut runner, Err(io("busy")));
    assert!(matches!(
        run.stage,
        BossaStage::Finished(Err(BossaError::CommandFailed { .. }))
    ));

    let mut runner = Runner::new([Err(CommandError::Spawn(io("not found")))]);
    let run = begin().step(&mut runner, Ok(()));
    assert!(matches!(
        run.stage,
        BossaStage::RemoveFirmware(Err(BossaError::CommandRunner { .. }))
    ));

    let mut runner = Runner::new([]);
    let run = begin().step(&mut runner, Err(io("full")));
    assert!(matches!(
        run.stage,
        BossaStage::Finished(Err(BossaError::Io {
            action: "write temporary BOSSA firmware",
            ..
        }))
    ));
    let mut runner = Runner::new([succeeded()]);
    let run = begin().step(&mut runner, Ok(())).step(&mut runner, Err(io("busy")));
    assert!(matches!(
        run.stage,
        BossaStage::Finished(Err(BossaError::Io {
            action: "remove temporary BOSSA firmware",
            ..
        }))
    ));
}

fn elf(class: u8, machine: u8, length: usize) -> Vec<u8> {
    let mut image = vec![0_u8; length];
    image[..4].copy_from_slice(b"\x7fELF");
    image[4] = class;
    image[5] = 1;
    image[18] = machine;
    image
}

fn installer(
    answers: impl IntoIterator<Item = Result<CommandOutput, CommandError>>,
    host: HostArchitecture,
) -> HostMcuInstaller<Runner> {
    HostMcuInstaller::new(Runner::new(answers), HOST_MCU_UNIT_FILE.to_owned(), host)
}

#[test]
fn recognizes_the_linux_host_machine() {
    assert!(is_linux_host("CONFIG_X=y\n CONFIG_MACH_LINUX=y"));
    assert!(!is_linux_host("# CONFIG_MACH_LINUX=y"));
    assert_eq!(HostArchitecture::from_name("x86_64"), Some(HostArchitecture::X86_64));
    assert_eq!(HostArchitecture::from_name("aarch64"), Some(HostArchitecture::Aarch64));
    assert_eq!(HostArchitecture::from_name("riscv64"), None);
}

#[test]
fn accepts_only_executables_that_the_host_runs() {
    let all = || [succeeded(), succeeded(), succeeded()];
    let accepts = |host: HostArchitecture, image: &[u8]| {
        installer(all(), host).install(image, true).is_ok()
    };
    assert!(accepts(HostArchitecture::X86_64, &elf(2, 62, 64)));
    assert!(!accepts(HostArchitecture::X86_64, &elf(2, 62, 63)));
    assert!(!accepts(HostArchitecture::X86_64, &elf(2, 183, 64)));
    assert!(accepts(HostArchitecture::Aarch64, &elf(2, 183, 64)));
    assert!(accepts(HostArchitecture::Aarch64, &elf(1, 40, 52)));
    assert!(!accepts(HostArchitecture::Aarch64, &elf(1, 40, 51)));
    assert!(!accepts(HostArchitecture::Aarch64, &elf(1, 183, 64)));
    assert!(!accepts(HostArchitecture::X86_64, b"\x7fELF"));
    let mut big_endian = elf(2, 62, 64);
    big_endian[5] = 2;
    assert!(!accepts(HostArchitecture::X86_64, &big_endian));
}

#[test]
fn installs_syncs_and_restarts_in_order() {
    let mut runner = Runner::new([succeeded(), succeeded(), succeeded()]);
    let result = aldis::flash::linux_host::install_with(
        &mut runner,
        &elf(2, 62, 70),
        HostArchitecture::X86_64,
        &HOST_MCU_UNIT_FILE.to_owned(),
        true,
    );
    assert_eq!(
        result,
        Ok(FlashResult {
            reported_pages: None,
            padded_bytes: 70
        })
    );
    assert_eq!(
        runner.commands,
        [
            (
                "sudo -n /usr/bin/install -m 0755 /dev/stdin /usr/local/bin/klipper_mcu".to_owned(),
                Some(70)
            ),
            ("sync ".to_owned(), None),
            ("sudo -n /bin/systemctl restart klipper-mcu".to_owned(), None),
        ]
    );
}

#[test]
fn names_the_install_step_that_failed() {
    let image = elf(2, 62, 64);
    let fails = |answers: Vec<Result<CommandOutput, CommandError>>, present: bool| {
        installer(answers, HostArchitecture::X86_64)
            .install(&image, present)
            .unwrap_err()
    };
    assert_eq!(
        fails(Vec::new(), false).message(),
        "the klipper-mcu service is not installed (/etc/systemd/system/klipper-mcu.service)"
    );
    assert_eq!(
        fails(vec![failed("sudo: a password is required\n")], true).message(),
        "could not install /usr/local/bin/klipper_mcu: sudo: a password is required; run sudo aldis setup"
    );
    assert_eq!(
        fails(vec![succeeded(), failed("io error")], true).message(),
        "installed /usr/local/bin/klipper_mcu but could not flush it to disk: io error"
    );
    assert_eq!(
        fails(
            vec![succeeded(), succeeded(), Err(CommandError::Spawn(io("gone")))],
            true
        ),
        LinuxHostError::CommandPort {
            step: InstallStep::Restart,
            source: CommandError::Spawn(io("gone"))
        }
    );
    assert_eq!(
        LinuxHostError::NotHostElf.message(),
        "the host MCU firmware is not an ELF executable for this host"
    );
    // Bytes that are not UTF-8 are shown with replacement characters.
    assert_eq!(
        fails(
            vec![Ok(CommandOutput {
                success: false,
                stdout: Vec::new(),
                stderr: b"bad \xff byte".to_vec()
            })],
            true
        )
        .message(),
        "could not install /usr/local/bin/klipper_mcu: bad \u{fffd} byte"
    );
}
