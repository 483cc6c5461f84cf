//! Installing Klipper's Linux host MCU the way its `make flash` does: replace
//! the host binary and restart its systemd service. Nothing is flashed.
use vstd::prelude::*;

use crate::builder;
use crate::builder::{
    BuildCommand,
    CommandCall,
    CommandContent,
    CommandError,
    CommandOutput,
    CommandPort,
    CommandStdin,
};
use crate::bytes;
use crate::flash::FlashResult;
use crate::kconfig;
use crate::service;
use crate::text;

verus! {

/// Where Klipper's `scripts/flash-linux.sh` installs the host MCU binary.
pub const HOST_MCU_BINARY: &'static str = "/usr/local/bin/klipper_mcu";

/// The systemd unit `scripts/flash-linux.sh` restarts after installing.
pub const HOST_MCU_UNIT_FILE: &'static str = "/etc/systemd/system/klipper-mcu.service";

/// The privileged install command; the firmware arrives on stdin so the
/// sudoers entry needs no wildcard for the per-run artifact path.
pub open spec fn install_command() -> Seq<Seq<char>> {
    seq!["/usr/bin/install"@, "-m"@, "0755"@, "/dev/stdin"@, HOST_MCU_BINARY@]
}

/// The privileged restart command.
pub open spec fn restart_command() -> Seq<Seq<char>> {
    seq!["/bin/systemctl"@, "restart"@, "klipper-mcu"@]
}

/// The kind of machine that the host is.
#[derive(Clone, Copy, Debug, PartialEq, Eq, Structural)]
pub enum HostArchitecture {
    /// 64-bit ARM.
    Aarch64,
    /// 64-bit x86.
    X86_64,
}

impl HostArchitecture {
    /// Reads the name that Rust gives a machine; none for a machine without a release.
    pub fn from_name(name: &str) -> (host: Option<Self>)
        ensures
            host == if name@ == "aarch64"@ {
                Some(HostArchitecture::Aarch64)
            } else if name@ == "x86_64"@ {
                Some(HostArchitecture::X86_64)
            } else {
                None
            },
    {
        if text::same_text(name, "aarch64") {
            Some(HostArchitecture::Aarch64)
        } else if text::same_text(name, "x86_64") {
            Some(HostArchitecture::X86_64)
        } else {
            None
        }
    }

    /// Whether the host runs programs of an ELF class and machine.
    ///
    /// Klipper builds `klipper.elf` with the host compiler, so a correct image
    /// targets a userland this CPU runs. A 64-bit ARM kernel commonly hosts a
    /// 32-bit Raspberry Pi OS userland.
    pub open spec fn runs(self, class: u8, machine: int) -> bool {
        match self {
            HostArchitecture::Aarch64 => (class == 2 && machine == 183) || (class == 1 && machine
                == 40),
            HostArchitecture::X86_64 => class == 2 && machine == 62,
        }
    }
}

/// Whether an MCU's Kconfig selects Klipper's Linux host machine.
pub fn is_linux_host(config: &str) -> (linux: bool)
    ensures
        linux == kconfig::has_entry(config@, "CONFIG_MACH_LINUX=y"@),
{
    kconfig::contains_entry(config, "CONFIG_MACH_LINUX=y")
}

/// Whether bytes are a complete little-endian ELF header of a program that the host runs.
pub open spec fn host_elf(firmware: Seq<u8>, host: HostArchitecture) -> bool {
    &&& firmware.len() >= 20
    &&& firmware[0] == 0x7f && firmware[1] == 0x45 && firmware[2] == 0x4c && firmware[3] == 0x46
    &&& firmware[5] == 1
    &&& firmware.len() >= (if firmware[4] == 2 {
        64int
    } else {
        52int
    })
    &&& host.runs(firmware[4], bytes::le_value(firmware.subrange(18, 20)) as int)
}

fn is_host_elf(firmware: &[u8], host: HostArchitecture) -> (result: bool)
    ensures
        result == host_elf(firmware@, host),
{
    if firmware.len() < 20 {
        return false;
    }
    let class: u8 = firmware[4];
    let machine: u16 = bytes::le_u16(firmware[18], firmware[19]);
    assert(firmware@.subrange(18, 20) =~= seq![firmware@[18], firmware@[19]]);
    let header_len: usize = if class == 2 {
        64
    } else {
        52
    };
    let known: bool = match host {
        HostArchitecture::Aarch64 => (class == 2 && machine == 183) || (class == 1 && machine
            == 40),
        HostArchitecture::X86_64 => class == 2 && machine == 62,
    };
    firmware[0] == 0x7f && firmware[1] == 0x45 && firmware[2] == 0x4c && firmware[3] == 0x46
        && firmware[5] == 1 && firmware.len() >= header_len && known
}

/// The install step a failure happened in, rendered as the resulting state.
#[derive(Clone, Copy, Debug, PartialEq, Eq, Structural)]
pub enum InstallStep {
    /// Replacing the binary; afterwards the old binary may be gone or incomplete.
    Install,
    /// Flushing the new binary to disk; it is installed but may not be durable.
    Sync,
    /// Restarting the service; the new binary is installed.
    Restart,
}

impl InstallStep {
    /// The wording of a failure in this step.
    pub open spec fn text(self) -> Seq<char> {
        match self {
            InstallStep::Install => "could not install "@ + HOST_MCU_BINARY@,
            InstallStep::Sync => "installed "@ + HOST_MCU_BINARY@
                + " but could not flush it to disk"@,
            InstallStep::Restart => "installed "@ + HOST_MCU_BINARY@
                + " but could not restart klipper-mcu"@,
        }
    }

    /// The wording of a failure in this step.
    pub fn message(self) -> (message: String)
        ensures
            message@ == self.text(),
    {
        match self {
            InstallStep::Install => {
                let mut message: String = "could not install ".to_owned();
                message.append(HOST_MCU_BINARY);
                message
            },
            InstallStep::Sync => {
                let mut message: String = "installed ".to_owned();
                message.append(HOST_MCU_BINARY);
                message.append(" but could not flush it to disk");
                message
            },
            InstallStep::Restart => {
                let mut message: String = "installed ".to_owned();
                message.append(HOST_MCU_BINARY);
                message.append(" but could not restart klipper-mcu");
                message
            },
        }
    }
}

/// Failure while installing the Linux host MCU.
#[derive(Debug, PartialEq, Eq)]
pub enum LinuxHostError {
    /// The image is not an ELF executable for this host.
    NotHostElf,
    /// The systemd unit that runs the host MCU is not installed.
    ServiceNotInstalled(String),
    /// A step's command could not be run at all.
    CommandPort {
        /// The step that failed.
        step: InstallStep,
        /// The runner failure.
        source: CommandError,
    },
    /// A step's command ran and failed.
    CommandFailed {
        /// The step that failed.
        step: InstallStep,
        /// Captured command output.
        output: Box<CommandOutput>,
    },
}

/// What a failed command said, with a hint where it asked for a password.
pub open spec fn failure_text(output: CommandOutput) -> Seq<char> {
    if text::contains_text(output.error_text(), "a password is required"@) {
        output.error_text() + "; run sudo aldis setup"@
    } else {
        output.error_text()
    }
}

fn failure_detail(output: &CommandOutput) -> (detail: String)
    ensures
        detail@ == failure_text(*output),
{
    let mut detail: String = output.trimmed_error();
    if text::contains(detail.as_str(), "a password is required") {
        detail.append("; run sudo aldis setup");
    }
    detail
}

impl LinuxHostError {
    /// The wording of this error.
    pub open spec fn text(self) -> Seq<char> {
        match self {
            LinuxHostError::NotHostElf =>
            "the host MCU firmware is not an ELF executable for this host"@,
            LinuxHostError::ServiceNotInstalled(path) =>
            "the klipper-mcu service is not installed ("@ + path@ + ")"@,
            LinuxHostError::CommandPort { step, source } => step.text(),
            LinuxHostError::CommandFailed { step, output } => step.text() + ": "@ + failure_text(
                *output,
            ),
        }
    }

    /// The wording of this error.
    pub fn message(&self) -> (message: String)
        ensures
            message@ == self.text(),
    {
        match self {
            LinuxHostError::NotHostElf =>
            "the host MCU firmware is not an ELF executable for this host".to_owned(),
            LinuxHostError::ServiceNotInstalled(path) => {
                let mut message: String = "the klipper-mcu service is not installed (".to_owned();
                message.append(path.as_str());
                message.append(")");
                message
            },
            LinuxHostError::CommandPort { step, .. } => step.message(),
            LinuxHostError::CommandFailed { step, output } => {
                let mut message: String = step.message();
                message.append(": ");
                message.append(failure_detail(output).as_str());
                message
            },
        }
    }
}

/// A privileged command, without a password prompt.
pub open spec fn sudo(arguments: Seq<Seq<char>>, stdin: Option<Seq<u8>>) -> CommandContent {
    CommandContent {
        program: "sudo"@,
        arguments: seq!["-n"@] + arguments,
        current_dir: None,
        stdin,
    }
}

/// The command of one install step.
pub open spec fn step_command(step: InstallStep, firmware: Seq<u8>) -> CommandContent {
    match step {
        InstallStep::Install => sudo(install_command(), Some(firmware)),
        InstallStep::Sync => builder::plain_command("sync"@, Seq::empty()),
        InstallStep::Restart => sudo(restart_command(), None),
    }
}

/// What the outcome of a step's command means.
pub open spec fn step_result(
    step: InstallStep,
    result: Result<CommandOutput, CommandError>,
) -> Result<(), LinuxHostError> {
    match result {
        Err(source) => Err(LinuxHostError::CommandPort { step, source }),
        Ok(output) => if output.success {
            Ok(())
        } else {
            Err(LinuxHostError::CommandFailed { step, output: Box::new(output) })
        },
    }
}

/// An install from position `at` on: the binary is replaced, flushed and its service restarted, each
/// only after the one before succeeded. Gives the outcome and the position after the last command.
pub open spec fn install_run(tape: Seq<CommandCall>, at: int) -> (Result<(), LinuxHostError>, int) {
    let installed = step_result(InstallStep::Install, tape[at].result);
    let synced = step_result(InstallStep::Sync, tape[at + 1].result);
    let restarted = step_result(InstallStep::Restart, tape[at + 2].result);
    if installed is Err {
        (installed, at + 1)
    } else if synced is Err {
        (synced, at + 2)
    } else {
        (restarted, at + 3)
    }
}

/// Whether the commands from position `at` on are the install steps in order, as far as they go.
pub open spec fn install_commands(tape: Seq<CommandCall>, at: int, firmware: Seq<u8>) -> bool {
    &&& tape.len() > at ==> tape[at].command == step_command(InstallStep::Install, firmware)
    &&& tape.len() > at + 1 ==> tape[at + 1].command == step_command(InstallStep::Sync, firmware)
    &&& tape.len() > at + 2 ==> tape[at + 2].command == step_command(
        InstallStep::Restart,
        firmware,
    )
    &&& tape.len() <= at + 3
}

/// Whether an install between two histories gave `result`. An image for another machine or a missing
/// service runs no command at all.
pub open spec fn installs(
    before: Seq<CommandCall>,
    after: Seq<CommandCall>,
    firmware: Seq<u8>,
    host: HostArchitecture,
    unit_file: String,
    unit_exists: bool,
    result: Result<FlashResult, LinuxHostError>,
) -> bool {
    let at = before.len() as int;
    let (outcome, next) = install_run(after, at);
    if !host_elf(firmware, host) {
        after == before && result == Err::<FlashResult, LinuxHostError>(LinuxHostError::NotHostElf)
    } else if !unit_exists {
        after == before && result == Err::<FlashResult, LinuxHostError>(
            LinuxHostError::ServiceNotInstalled(unit_file),
        )
    } else {
        &&& before.is_prefix_of(after)
        &&& install_commands(after, at, firmware)
        &&& next == after.len()
        &&& match outcome {
            Ok(_) => result == Ok::<FlashResult, LinuxHostError>(
                (FlashResult { reported_pages: None, padded_bytes: firmware.len() as usize }),
            ),
            Err(error) => result == Err::<FlashResult, LinuxHostError>(error),
        }
    }
}

fn run_step<R: CommandPort>(runner: &mut R, step: InstallStep, firmware: &[u8]) -> (result: Result<
    (),
    LinuxHostError,
>)
    ensures
        service::ran_one(
            old(runner).history(),
            final(runner).history(),
            step_command(step, firmware@),
        ),
        result == step_result(step, final(runner).history().last().result),
{
    let mut arguments: Vec<String> = Vec::new();
    let mut stdin: Option<CommandStdin> = None;
    let mut program: String = "sudo".to_owned();
    match step {
        InstallStep::Install => {
            arguments.push("-n".to_owned());
            arguments.push("/usr/bin/install".to_owned());
            arguments.push("-m".to_owned());
            arguments.push("0755".to_owned());
            arguments.push("/dev/stdin".to_owned());
            arguments.push(HOST_MCU_BINARY.to_owned());
            let input: Vec<u8> = bytes::copy_range(firmware, 0, firmware.len());
            assert(input@ =~= firmware@);
            stdin = Some(CommandStdin(input));
        },
        InstallStep::Sync => {
            program = "sync".to_owned();
        },
        InstallStep::Restart => {
            arguments.push("-n".to_owned());
            arguments.push("/bin/systemctl".to_owned());
            arguments.push("restart".to_owned());
            arguments.push("klipper-mcu".to_owned());
        },
    }
    assert(text::texts(arguments@) =~= step_command(step, firmware@).arguments);
    let command: BuildCommand = BuildCommand { program, arguments, current_dir: None, stdin };
    assert(command@ =~= step_command(step, firmware@));
    match runner.run(&command) {
        Err(source) => Err(LinuxHostError::CommandPort { step, source }),
        Ok(output) => if output.success {
            Ok(())
        } else {
            Err(LinuxHostError::CommandFailed { step, output: Box::new(output) })
        },
    }
}

/// Installs `firmware` and restarts the host MCU service through `runner`.
pub fn install_with<R: CommandPort>(
    runner: &mut R,
    firmware: &[u8],
    host: HostArchitecture,
    unit_file: &String,
    unit_exists: bool,
) -> (result: Result<FlashResult, LinuxHostError>)
    ensures
        installs(
            old(runner).history(),
            final(runner).history(),
            firmware@,
            host,
            *unit_file,
            unit_exists,
            result,
        ),
{
    let ghost before = runner.history();
    let ghost at = before.len() as int;
    if !is_host_elf(firmware, host) {
        return Err(LinuxHostError::NotHostElf);
    }
    if !unit_exists {
        return Err(LinuxHostError::ServiceNotInstalled(unit_file.clone()));
    }
    if let Err(error) = run_step(runner, InstallStep::Install, firmware) {
        return Err(error);
    }
    let ghost installed = runner.history();
    let synced: Result<(), LinuxHostError> = run_step(runner, InstallStep::Sync, firmware);
    let ghost flushed = runner.history();
    assert(flushed[at] == installed[at]);
    if let Err(error) = synced {
        return Err(error);
    }
    let restarted: Result<(), LinuxHostError> = run_step(runner, InstallStep::Restart, firmware);
    assert(runner.history()[at] == installed[at]);
    assert(runner.history()[at + 1] == flushed[at + 1]);
    if let Err(error) = restarted {
        return Err(error);
    }
    Ok(FlashResult { reported_pages: None, padded_bytes: firmware.len() })
}

/// Replaces the host MCU binary and restarts its service through `sudo -n`.
pub struct HostMcuInstaller<R> {
    runner: R,
    unit_file: String,
    host: HostArchitecture,
}

impl<R: CommandPort> HostMcuInstaller<R> {
    /// Every command so far, in order.
    pub closed spec fn history(&self) -> Seq<CommandCall> {
        self.runner.history()
    }

    /// The systemd unit that must be installed.
    pub closed spec fn unit(&self) -> String {
        self.unit_file
    }

    /// The kind of machine that the host is.
    pub closed spec fn machine(&self) -> HostArchitecture {
        self.host
    }

    /// Creates an installer that runs its commands through `runner` and
    /// requires the systemd unit at `unit_file`.
    pub fn new(runner: R, unit_file: String, host: HostArchitecture) -> (installer: Self)
        ensures
            installer.history() == runner.history(),
            installer.unit() == unit_file,
            installer.machine() == host,
    {
        HostMcuInstaller { runner, unit_file, host }
    }

    /// Installs `firmware` and restarts the host MCU service. Whether the systemd unit is there is
    /// the caller's to find out.
    pub fn install(&mut self, firmware: &[u8], unit_exists: bool) -> (result: Result<
        FlashResult,
        LinuxHostError,
    >)
        ensures
            final(self).unit() == old(self).unit(),
            final(self).machine() == old(self).machine(),
            installs(
                old(self).history(),
                final(self).history(),
                firmware@,
                old(self).machine(),
                old(self).unit(),
                unit_exists,
                result,
            ),
    {
        install_with(&mut self.runner, firmware, self.host, &self.unit_file, unit_exists)
    }
}

/// The service is restarted only after the new binary was installed and flushed.
pub proof fn law_restart_follows_a_durable_install(tape: Seq<CommandCall>, at: int)
    requires
        install_run(tape, at).1 == at + 3,
    ensures
        step_result(InstallStep::Install, tape[at].result) is Ok,
        step_result(InstallStep::Sync, tape[at + 1].result) is Ok,
{
}

/// Only a little-endian ELF file with a whole header is taken for the host's program: a 64-bit one
/// for x86-64 on such a host, and a 64-bit one for AArch64 or a 32-bit one for ARM on an AArch64
/// host. Every such file is.
pub proof fn law_program_is_of_the_host(firmware: Seq<u8>, host: HostArchitecture)
    ensures
        host_elf(firmware, host) <==> ({
            let machine = firmware[18] + 0x100 * firmware[19];
            &&& firmware.len() >= 52
            &&& firmware[0] == 0x7f
            &&& firmware[1] as char == 'E' && firmware[2] as char == 'L' && firmware[3] as char
                == 'F'
            &&& firmware[5] == 1
            &&& firmware[4] == 1 || (firmware[4] == 2 && firmware.len() >= 64)
            &&& host is X86_64 ==> machine == 62 && firmware[4] == 2
            &&& host is Aarch64 ==> (machine == 183 && firmware[4] == 2) || (machine == 40
                && firmware[4] == 1)
        }),
{
    if firmware.len() >= 20 {
        bytes::law_pair_is_little_endian(firmware[18], firmware[19]);
        assert(firmware.subrange(18, 20) =~= seq![firmware[18], firmware[19]]);
    }
}

/// An install that succeeds ran three commands, each with success: it gave the firmware to
/// `install`, flushed it to disk, and restarted the service. It reports the size of the firmware.
pub proof fn law_installed_firmware_was_given_to_install(
    before: Seq<CommandCall>,
    after: Seq<CommandCall>,
    firmware: Seq<u8>,
    host: HostArchitecture,
    unit_file: String,
    unit_exists: bool,
    result: Result<FlashResult, LinuxHostError>,
    k: int,
)
    requires
        installs(before, after, firmware, host, unit_file, unit_exists, result),
        result is Ok,
    ensures
        host_elf(firmware, host),
        unit_exists,
        after.len() == before.len() + 3,
        before.len() <= k < after.len() ==> after[k].result is Ok && after[k].result->Ok_0.success,
        ({
            let given = after[before.len() as int].command;
            let flushed = after[before.len() + 1int].command;
            let restarted = after[before.len() + 2int].command;
            &&& given.program == "sudo"@
            &&& given.arguments == seq![
                "-n"@,
                "/usr/bin/install"@,
                "-m"@,
                "0755"@,
                "/dev/stdin"@,
                "/usr/local/bin/klipper_mcu"@,
            ]
            &&& given.stdin == Some(firmware)
            &&& flushed.program == "sync"@ && flushed.arguments.len() == 0
            &&& restarted.program == "sudo"@
            &&& restarted.arguments == seq![
                "-n"@,
                "/bin/systemctl"@,
                "restart"@,
                "klipper-mcu"@,
            ]
            &&& restarted.stdin is None
        }),
        result->Ok_0.padded_bytes == firmware.len() as usize,
        result->Ok_0.reported_pages is None,
{
    assert(step_command(InstallStep::Install, firmware).arguments =~= seq![
        "-n"@,
        "/usr/bin/install"@,
        "-m"@,
        "0755"@,
        "/dev/stdin"@,
        "/usr/local/bin/klipper_mcu"@,
    ]);
    assert(step_command(InstallStep::Restart, firmware).arguments =~= seq![
        "-n"@,
        "/bin/systemctl"@,
        "restart"@,
        "klipper-mcu"@,
    ]);
}

/// A file that is no program of this host, and a host without the service, runs no command. A
/// command that fails is the last one that is run, and the install fails at its step.
pub proof fn law_failed_step_ends_the_install(
    before: Seq<CommandCall>,
    after: Seq<CommandCall>,
    firmware: Seq<u8>,
    host: HostArchitecture,
    unit_file: String,
    unit_exists: bool,
    result: Result<FlashResult, LinuxHostError>,
    k: int,
)
    requires
        installs(before, after, firmware, host, unit_file, unit_exists, result),
    ensures
        !host_elf(firmware, host) ==> after == before && result == Err::<
            FlashResult,
            LinuxHostError,
        >(LinuxHostError::NotHostElf),
        host_elf(firmware, host) && !unit_exists ==> after == before && result == Err::<
            FlashResult,
            LinuxHostError,
        >(LinuxHostError::ServiceNotInstalled(unit_file)),
        before.len() <= k < after.len() && (after[k].result is Err
            || !after[k].result->Ok_0.success) ==> k == after.len() - 1 && result is Err,
        result is Ok <==> host_elf(firmware, host) && unit_exists && after.len() == before.len() + 3
            && after.last().result is Ok && after.last().result->Ok_0.success,
{
}

} // verus!
