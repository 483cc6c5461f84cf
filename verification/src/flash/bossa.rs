//! BOSSA-compatible SAM-BA firmware flashing through `bossac`.
use vstd::prelude::*;

use crate::builder;
use crate::builder::{
    BuildCommand, CommandCall, CommandContent, CommandError, CommandOutput, CommandPort,
};
use crate::failure::IoFailure;
use crate::flash::FlashResult;
use crate::kconfig;
use crate::service;
use crate::text;

verus! {

/// SAMD flash placement required by BOSSA.
#[derive(Clone, Copy, Debug, PartialEq, Eq, Structural)]
pub struct BossaTarget {
    /// Application offset after the installed bootloader.
    pub offset: u32,
}

/// A native BOSSA transfer failure.
#[derive(PartialEq, Eq)]
pub enum BossaError {
    /// Embedded Kconfig did not select exactly one BOSSA-compatible flash start.
    InvalidFlashStartConfiguration,
    /// The temporary firmware file could not be written or removed.
    Io {
        /// The operation being attempted.
        action: &'static str,
        /// The underlying filesystem failure.
        source: IoFailure,
    },
    /// The command runner could not invoke `bossac`.
    CommandRunner {
        /// The command that could not be invoked.
        command: BuildCommand,
        /// The underlying runner failure.
        source: CommandError,
    },
    /// `bossac` returned an unsuccessful exit status.
    CommandFailed {
        /// The command that failed.
        command: Box<BuildCommand>,
        /// Captured command output for an actionable report.
        output: Box<CommandOutput>,
    },
}

/// A BOSSA error by its characters.
pub enum BossaFailure {
    InvalidFlashStartConfiguration,
    Io { action: Seq<char>, source: IoFailure },
    CommandRunner { command: CommandContent, source: CommandError },
    CommandFailed { command: CommandContent, output: CommandOutput },
}

impl View for BossaError {
    type V = BossaFailure;

    open spec fn view(&self) -> BossaFailure {
        match *self {
            BossaError::InvalidFlashStartConfiguration =>
            BossaFailure::InvalidFlashStartConfiguration,
            BossaError::Io { action, source } => BossaFailure::Io { action: action@, source },
            BossaError::CommandRunner { command, source } => BossaFailure::CommandRunner {
                command: command@,
                source,
            },
            BossaError::CommandFailed { command, output } => BossaFailure::CommandFailed {
                command: command@,
                output: *output,
            },
        }
    }
}

/// Derives the BOSSA application offset from Klipper's embedded Kconfig.
pub fn target_from_kconfig(config: &str) -> (target: Result<BossaTarget, BossaError>)
    ensures
        match target {
            Ok(target) => configured_offset(config@) == Some(target.offset),
            Err(error) => configured_offset(config@) is None && error
                is InvalidFlashStartConfiguration,
        },
{
    let low: bool = kconfig::contains_entry(config, "CONFIG_SAMD_FLASH_START_2000=y");
    let high: bool = kconfig::contains_entry(config, "CONFIG_SAMD_FLASH_START_4000=y");
    if low == high {
        return Err(BossaError::InvalidFlashStartConfiguration);
    }
    Ok(
        BossaTarget {
            offset: if low {
                0x2000
            } else {
                0x4000
            },
        },
    )
}

/// The `bossac` invocation used for SAMD bootloader flashing.
pub open spec fn bossac_invocation(
    program: Seq<char>,
    serial_device: Seq<char>,
    target: BossaTarget,
    firmware_path: Seq<char>,
) -> CommandContent {
    builder::plain_command(
        program,
        seq![
            "-U"@,
            "-p"@,
            serial_device,
            "--offset=0x"@ + text::hexadecimal(target.offset as nat),
            "-b"@,
            "-R"@,
            "-w"@,
            firmware_path,
            "-v"@,
        ],
    )
}

/// Builds the `bossac` invocation used for SAMD bootloader flashing.
pub fn bossac_command(
    bossac_program: &str,
    serial_device: &str,
    target: BossaTarget,
    firmware_path: &str,
) -> (command: BuildCommand)
    ensures
        command@ == bossac_invocation(bossac_program@, serial_device@, target, firmware_path@),
{
    let mut offset: String = "--offset=0x".to_owned();
    offset.append(text::hexadecimal_text(target.offset as u64).as_str());
    let mut arguments: Vec<String> = Vec::new();
    arguments.push("-U".to_owned());
    arguments.push("-p".to_owned());
    arguments.push(serial_device.to_owned());
    arguments.push(offset);
    arguments.push("-b".to_owned());
    arguments.push("-R".to_owned());
    arguments.push("-w".to_owned());
    arguments.push(firmware_path.to_owned());
    arguments.push("-v".to_owned());
    assert(text::texts(arguments@) =~= bossac_invocation(
        bossac_program@,
        serial_device@,
        target,
        firmware_path@,
    ).arguments);
    BuildCommand { program: bossac_program.to_owned(), arguments, current_dir: None, stdin: None }
}

/// What the outcome of a `bossac` invocation means.
pub open spec fn bossac_result(
    command: CommandContent,
    result: Result<CommandOutput, CommandError>,
) -> Result<(), BossaFailure> {
    match result {
        Err(source) => Err(BossaFailure::CommandRunner { command, source }),
        Ok(output) => if output.success {
            Ok(())
        } else {
            Err(BossaFailure::CommandFailed { command, output })
        },
    }
}

fn run_bossac<R: CommandPort>(runner: &mut R, command: BuildCommand) -> (result: Result<
    (),
    BossaError,
>)
    ensures
        service::ran_one(old(runner).history(), final(runner).history(), command@),
        bossac_result(command@, final(runner).history().last().result) == match result {
            Ok(_) => Ok::<(), BossaFailure>(()),
            Err(error) => Err(error@),
        },
{
    match runner.run(&command) {
        Err(source) => Err(BossaError::CommandRunner { command, source }),
        Ok(output) => if output.success {
            Ok(())
        } else {
            Err(
                BossaError::CommandFailed { command: Box::new(command), output: Box::new(output) },
            )
        },
    }
}

/// How far a transfer through `bossac` has come.
#[derive(PartialEq, Eq)]
pub enum BossaStage {
    /// The temporary firmware file is to be written.
    WriteFirmware,
    /// The temporary firmware file is to be removed; this came of the transfer.
    RemoveFirmware(Result<(), BossaError>),
    /// Nothing is left to do.
    Finished(Result<FlashResult, BossaError>),
}

/// A transfer through `bossac`: the firmware goes to a temporary file, which is removed afterwards
/// whatever came of the transfer.
#[derive(PartialEq, Eq)]
pub struct BossaRun {
    /// The `bossac` program.
    pub bossac_program: String,
    /// The serial device of the bootloader.
    pub serial_device: String,
    /// Where the application goes.
    pub target: BossaTarget,
    /// The firmware, which is written to the temporary file.
    pub firmware: Vec<u8>,
    /// The temporary file.
    pub firmware_path: String,
    /// How far the transfer has come.
    pub stage: BossaStage,
}

/// Begins to write one firmware image through `bossac`.
pub fn flash_system_with_runner(
    bossac_program: String,
    serial_device: String,
    target: BossaTarget,
    firmware: Vec<u8>,
    firmware_path: String,
) -> (run: BossaRun)
    ensures
        run == (BossaRun {
            bossac_program,
            serial_device,
            target,
            firmware,
            firmware_path,
            stage: BossaStage::WriteFirmware,
        }),
{
    BossaRun {
        bossac_program,
        serial_device,
        target,
        firmware,
        firmware_path,
        stage: BossaStage::WriteFirmware,
    }
}

/// Whether a transfer ends at `next` because a file operation failed.
pub open spec fn file_failed(next: BossaStage, action: Seq<char>, source: IoFailure) -> bool {
    &&& next is Finished
    &&& next->Finished_0 is Err
    &&& next->Finished_0->Err_0@ == (BossaFailure::Io { action, source })
}

/// Whether a transfer goes from `run` to `next` after the temporary file was written or removed:
/// `bossac` runs exactly once, after the file was written and before it is removed.
pub open spec fn bossa_step(
    run: BossaRun,
    done: Result<(), IoFailure>,
    next: BossaStage,
    before: Seq<CommandCall>,
    after: Seq<CommandCall>,
) -> bool {
    let command = bossac_invocation(
        run.bossac_program@,
        run.serial_device@,
        run.target,
        run.firmware_path@,
    );
    match (run.stage, done) {
        (BossaStage::WriteFirmware, Err(failure)) => after == before && file_failed(
            next,
            "write temporary BOSSA firmware"@,
            failure,
        ),
        (BossaStage::WriteFirmware, Ok(_)) => {
            &&& service::ran_one(before, after, command)
            &&& next is RemoveFirmware
            &&& bossac_result(command, after.last().result) == match next->RemoveFirmware_0 {
                Ok(_) => Ok::<(), BossaFailure>(()),
                Err(error) => Err(error@),
            }
        },
        (BossaStage::RemoveFirmware(Err(error)), _) => after == before && next
            == BossaStage::Finished(Err(error)),
        (BossaStage::RemoveFirmware(Ok(_)), Err(failure)) => after == before && file_failed(
            next,
            "remove temporary BOSSA firmware"@,
            failure,
        ),
        (BossaStage::RemoveFirmware(Ok(_)), Ok(_)) => after == before && next
            == BossaStage::Finished(
            Ok((FlashResult { reported_pages: None, padded_bytes: run.firmware@.len() as usize })),
        ),
        (BossaStage::Finished(_), _) => after == before && next == run.stage,
    }
}

impl BossaRun {
    /// Goes on after the temporary firmware file was written or removed.
    pub fn step<R: CommandPort>(self, runner: &mut R, done: Result<(), IoFailure>) -> (next: Self)
        ensures
            next == (BossaRun { stage: next.stage, ..self }),
            bossa_step(self, done, next.stage, old(runner).history(), final(runner).history()),
    {
        let stage: BossaStage = match (self.stage, done) {
            (BossaStage::WriteFirmware, Err(source)) => BossaStage::Finished(
                Err(BossaError::Io { action: "write temporary BOSSA firmware", source }),
            ),
            (BossaStage::WriteFirmware, Ok(_)) => {
                let command: BuildCommand = bossac_command(
                    self.bossac_program.as_str(),
                    self.serial_device.as_str(),
                    self.target,
                    self.firmware_path.as_str(),
                );
                BossaStage::RemoveFirmware(run_bossac(runner, command))
            },
            (BossaStage::RemoveFirmware(Err(error)), _) => BossaStage::Finished(Err(error)),
            (BossaStage::RemoveFirmware(Ok(_)), Err(source)) => BossaStage::Finished(
                Err(BossaError::Io { action: "remove temporary BOSSA firmware", source }),
            ),
            (BossaStage::RemoveFirmware(Ok(_)), Ok(_)) => BossaStage::Finished(
                Ok(FlashResult { reported_pages: None, padded_bytes: self.firmware.len() }),
            ),
            (BossaStage::Finished(result), _) => BossaStage::Finished(result),
        };
        BossaRun {
            bossac_program: self.bossac_program,
            serial_device: self.serial_device,
            target: self.target,
            firmware: self.firmware,
            firmware_path: self.firmware_path,
            stage,
        }
    }
}

/// A temporary firmware file that was written is always asked to be removed, whatever came of the
/// transfer.
pub proof fn law_written_firmware_is_removed(
    run: BossaRun,
    next: BossaStage,
    before: Seq<CommandCall>,
    after: Seq<CommandCall>,
)
    requires
        run.stage is WriteFirmware,
        bossa_step(run, Ok(()), next, before, after),
    ensures
        next is RemoveFirmware,
{
}

/// The offset that a Kconfig selects, where it selects exactly one.
pub open spec fn configured_offset(config: Seq<char>) -> Option<u32> {
    let low = kconfig::has_entry(config, "CONFIG_SAMD_FLASH_START_2000=y"@);
    let high = kconfig::has_entry(config, "CONFIG_SAMD_FLASH_START_4000=y"@);
    if low == high {
        None
    } else if low {
        Some(0x2000)
    } else {
        Some(0x4000)
    }
}

/// The entry by which a Kconfig selects a SAMD flash start.
pub open spec fn flash_start_entry(offset: nat) -> Seq<char> {
    "CONFIG_SAMD_FLASH_START_"@ + text::hexadecimal(offset) + "=y"@
}

proof fn lemma_flash_start_entries()
    ensures
        flash_start_entry(0x2000) == "CONFIG_SAMD_FLASH_START_2000=y"@,
        flash_start_entry(0x4000) == "CONFIG_SAMD_FLASH_START_4000=y"@,
{
    reveal_strlit("CONFIG_SAMD_FLASH_START_");
    reveal_strlit("=y");
    reveal_strlit("CONFIG_SAMD_FLASH_START_2000=y");
    reveal_strlit("CONFIG_SAMD_FLASH_START_4000=y");
    reveal_with_fuel(text::hexadecimal, 5);
    assert(flash_start_entry(0x2000) =~= "CONFIG_SAMD_FLASH_START_2000=y"@);
    assert(flash_start_entry(0x4000) =~= "CONFIG_SAMD_FLASH_START_4000=y"@);
}

/// The offset is the one whose hexadecimal spelling the Kconfig selects, of 0x2000 and 0x4000, as
/// long as it does not select both.
pub proof fn law_selected_offset_is_used(config: Seq<char>, offset: u32, other: u32)
    requires
        offset == 0x2000 && other == 0x4000 || offset == 0x4000 && other == 0x2000,
    ensures
        configured_offset(config) == Some(offset) <==> kconfig::has_entry(
            config,
            flash_start_entry(offset as nat),
        ) && !kconfig::has_entry(config, flash_start_entry(other as nat)),
        configured_offset(config) is Some ==> configured_offset(config) == Some(offset)
            || configured_offset(config) == Some(other),
{
    lemma_flash_start_entries();
}

/// `bossac` writes the firmware file to the serial device at the target's offset, which is written
/// in hexadecimal, verifies it, and resets the board; nothing else is handed to it.
pub proof fn law_bossac_writes_and_verifies(
    program: Seq<char>,
    serial_device: Seq<char>,
    target: BossaTarget,
    firmware_path: Seq<char>,
)
    ensures
        ({
            let command = bossac_invocation(program, serial_device, target, firmware_path);
            let words = command.arguments;
            &&& command.program == program
            &&& command.current_dir is None && command.stdin is None
            &&& words.len() == 9
            &&& exists|i: int|
                0 <= i < 8 && (#[trigger] words[i]) == "-p"@ && words[i + 1] == serial_device
            &&& exists|i: int|
                0 <= i < 8 && (#[trigger] words[i]) == "-w"@ && words[i + 1] == firmware_path
            &&& words.contains("--offset=0x"@ + text::hexadecimal(target.offset as nat))
            &&& words.contains("-v"@)
            &&& words.contains("-R"@)
            &&& words.contains("-b"@)
            &&& words.contains("-U"@)
        }),
{
    let words = bossac_invocation(program, serial_device, target, firmware_path).arguments;
    assert(words[0] == "-U"@);
    assert(words[1] == "-p"@ && words[2] == serial_device);
    assert(words[3] == "--offset=0x"@ + text::hexadecimal(target.offset as nat));
    assert(words[4] == "-b"@);
    assert(words[5] == "-R"@);
    assert(words[6] == "-w"@ && words[7] == firmware_path);
    assert(words[8] == "-v"@);
}

/// A flash whose file was written runs `bossac` once on that file, removes the file, and succeeds
/// with the size of the firmware exactly if `bossac` did and the file could be removed.
pub proof fn law_flash_succeeds_as_bossac_does(
    run: BossaRun,
    removing: BossaRun,
    done: Result<(), IoFailure>,
    last: BossaStage,
    before: Seq<CommandCall>,
    after: Seq<CommandCall>,
)
    requires
        run.stage is WriteFirmware,
        removing == (BossaRun { stage: removing.stage, ..run }),
        bossa_step(run, Ok(()), removing.stage, before, after),
        bossa_step(removing, done, last, after, after),
    ensures
        after.len() == before.len() + 1,
        after.last().command == bossac_invocation(
            run.bossac_program@,
            run.serial_device@,
            run.target,
            run.firmware_path@,
        ),
        ({
            let flashed = after.last().result is Ok && after.last().result->Ok_0.success;
            &&& last is Finished
            &&& last->Finished_0 is Ok <==> flashed && done is Ok
            &&& last->Finished_0 is Ok ==> last->Finished_0->Ok_0 == (FlashResult {
                reported_pages: None,
                padded_bytes: run.firmware@.len() as usize,
            })
            &&& !flashed && after.last().result is Ok ==> last->Finished_0->Err_0@ == (
            BossaFailure::CommandFailed {
                command: after.last().command,
                output: after.last().result->Ok_0,
            })
        }),
{
}

/// A file that could not be written is not flashed, and its failure is the result.
pub proof fn law_unwritten_firmware_is_not_flashed(
    run: BossaRun,
    failure: IoFailure,
    next: BossaStage,
    before: Seq<CommandCall>,
    after: Seq<CommandCall>,
)
    requires
        run.stage is WriteFirmware,
        bossa_step(run, Err(failure), next, before, after),
    ensures
        after == before,
        next is Finished && next->Finished_0 is Err,
        next->Finished_0->Err_0@ is Io,
        next->Finished_0->Err_0@->Io_source == failure,
{
}

/// A finished flash stays as it ended and runs nothing more.
pub proof fn law_finished_flash_stays(
    run: BossaRun,
    done: Result<(), IoFailure>,
    next: BossaStage,
    before: Seq<CommandCall>,
    after: Seq<CommandCall>,
)
    requires
        run.stage is Finished,
        bossa_step(run, done, next, before, after),
    ensures
        after == before,
        next is Finished && next->Finished_0 == run.stage->Finished_0,
{
}

} // verus!
