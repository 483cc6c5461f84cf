//! Klipper's firmware build pipeline and the commands that it runs.
use vstd::prelude::*;

use crate::failure::IoFailure;
use crate::kconfig;
use crate::paths;
use crate::progress::{ProgressPort, UpdateProgress};
use crate::text;

verus! {

/// The inputs and output location for one Klipper firmware build.
#[derive(Debug, PartialEq, Eq)]
pub struct BuildRequest {
    /// Embedded Kconfig obtained from Moonraker for the selected MCU.
    pub kconfig: String,
    /// Per-run temporary location for Klipper's generated Kconfig.
    pub config_path: String,
    /// Destination for the immutable firmware artifact produced by this build.
    pub artifact_path: String,
    /// Discard the checkout's existing build output before configuring.
    pub clean: bool,
}

impl Clone for BuildRequest {
    fn clone(&self) -> (copy: Self)
        ensures
            copy == *self,
    {
        BuildRequest {
            kconfig: self.kconfig.clone(),
            config_path: self.config_path.clone(),
            artifact_path: self.artifact_path.clone(),
            clean: self.clean,
        }
    }
}

/// The firmware artifact copied from Klipper's build output.
#[derive(Clone, Debug, PartialEq, Eq)]
pub struct BuildArtifact {
    /// Path to the copied firmware artifact.
    pub path: String,
    /// Artifact size in bytes.
    pub byte_count: u64,
    /// Kconfig after Klipper has expanded defaults with `olddefconfig`.
    pub kconfig: String,
}

/// A visible phase of Klipper firmware preparation.
#[derive(Clone, Copy, Debug, PartialEq, Eq, Structural)]
pub enum BuildProgress {
    /// Klipper is expanding the embedded Kconfig.
    Configuring,
    /// Klipper is compiling the firmware artifact.
    Compiling,
}

impl BuildProgress {
    /// The update phase that this phase is shown as.
    pub fn update_phase(self) -> (phase: UpdateProgress)
        ensures
            phase == match self {
                BuildProgress::Configuring => UpdateProgress::ConfiguringFirmware,
                BuildProgress::Compiling => UpdateProgress::CompilingFirmware,
            },
    {
        match self {
            BuildProgress::Configuring => UpdateProgress::ConfiguringFirmware,
            BuildProgress::Compiling => UpdateProgress::CompilingFirmware,
        }
    }
}

/// Bytes written to a command's standard input. [`Self::describe`] shows only the length so
/// firmware images never reach logs or error reports.
#[derive(PartialEq, Eq)]
pub struct CommandStdin(pub Vec<u8>);

impl CommandStdin {
    /// How many bytes there are, without showing any.
    pub fn describe(&self) -> (description: String)
        ensures
            description@ == "CommandStdin("@ + text::decimal(self.0@.len()) + " bytes)"@,
    {
        let mut description: String = "CommandStdin(".to_owned();
        description.append(text::decimal_text(self.0.len() as u64).as_str());
        description.append(" bytes)");
        description
    }
}

/// A fully specified command invocation without shell interpolation.
#[derive(PartialEq, Eq)]
pub struct BuildCommand {
    /// Executable name or path.
    pub program: String,
    /// Explicit command arguments.
    pub arguments: Vec<String>,
    /// Optional directory in which the command runs.
    pub current_dir: Option<String>,
    /// Optional payload piped to the command's standard input.
    pub stdin: Option<CommandStdin>,
}

/// A command by its characters and bytes.
#[verifier::ext_equal]
pub struct CommandContent {
    pub program: Seq<char>,
    pub arguments: Seq<Seq<char>>,
    pub current_dir: Option<Seq<char>>,
    pub stdin: Option<Seq<u8>>,
}

impl View for BuildCommand {
    type V = CommandContent;

    open spec fn view(&self) -> CommandContent {
        CommandContent {
            program: self.program@,
            arguments: text::texts(self.arguments@),
            current_dir: match self.current_dir {
                Some(directory) => Some(directory@),
                None => None,
            },
            stdin: match self.stdin {
                Some(CommandStdin(input)) => Some(input@),
                None => None,
            },
        }
    }
}

/// A command without a directory and without input.
pub open spec fn plain_command(program: Seq<char>, arguments: Seq<Seq<char>>) -> CommandContent {
    CommandContent { program, arguments, current_dir: None, stdin: None }
}

/// Captured result of a command invocation.
#[derive(Debug, PartialEq, Eq)]
pub struct CommandOutput {
    /// Whether the process returned a successful exit status.
    pub success: bool,
    /// Complete standard output.
    pub stdout: Vec<u8>,
    /// Complete standard error.
    pub stderr: Vec<u8>,
}

impl CommandOutput {
    /// Produces an empty successful result for deterministic test runners.
    pub fn success() -> (output: Self)
        ensures
            output.success,
            output.stdout@.len() == 0,
            output.stderr@.len() == 0,
    {
        CommandOutput { success: true, stdout: Vec::new(), stderr: Vec::new() }
    }

    /// Standard error as text, without surrounding white space.
    pub open spec fn error_text(self) -> Seq<char> {
        text::trimmed(text::decoded(self.stderr@))
    }

    /// Standard error as text, without surrounding white space.
    pub fn trimmed_error(&self) -> (error: String)
        ensures
            error@ == self.error_text(),
    {
        let decoded: String = text::from_utf8_lossy(self.stderr.as_slice());
        text::trim(decoded.as_str()).to_owned()
    }

    /// Standard output as text, without surrounding white space.
    pub open spec fn output_text(self) -> Seq<char> {
        text::trimmed(text::decoded(self.stdout@))
    }

    /// Standard output as text, without surrounding white space.
    pub fn trimmed_output(&self) -> (output: String)
        ensures
            output@ == self.output_text(),
    {
        let decoded: String = text::from_utf8_lossy(self.stdout.as_slice());
        text::trim(decoded.as_str()).to_owned()
    }
}

/// Failure to start or wait for a build command.
#[derive(Clone, Debug, PartialEq, Eq)]
pub enum CommandError {
    /// The operating system could not spawn or collect the process.
    Spawn(IoFailure),
}

impl CommandError {
    /// The wording of this error and of each of its causes.
    pub open spec fn chain(self) -> Seq<Seq<char>> {
        match self {
            CommandError::Spawn(failure) => seq![
                "could not run build command"@,
                failure.message@,
            ],
        }
    }

    /// Appends the wording of this error and of each of its causes.
    pub fn append_chain(&self, messages: &mut Vec<String>)
        ensures
            text::texts(final(messages)@) == text::texts(old(messages)@) + self.chain(),
    {
        match self {
            CommandError::Spawn(failure) => {
                messages.push("could not run build command".to_owned());
                messages.push(failure.message.clone());
            },
        }
        assert(text::texts(messages@) =~= text::texts(old(messages)@) + self.chain());
    }
}

/// One command that was run and what came of it.
pub struct CommandCall {
    pub command: CommandContent,
    pub result: Result<CommandOutput, CommandError>,
}

/// Executes an explicit build command.
pub trait CommandPort: Sized {
    /// Every command so far, in order.
    /// Nothing is known of it by default: an implementation says what it is.
    open spec fn history(&self) -> Seq<CommandCall> {
        arbitrary()
    }

    /// Runs `command` and returns its captured output.
    fn run(&mut self, command: &BuildCommand) -> (result: Result<CommandOutput, CommandError>)
        ensures
            final(self).history() == old(self).history().push(
                (CommandCall { command: command@, result }),
            ),
    ;
}

/// Errors while preparing or running Klipper's existing build pipeline.
#[derive(PartialEq, Eq)]
pub enum BuildError {
    /// A required path has no parent directory.
    InvalidRequest(String),
    /// The host filesystem operation failed.
    Io {
        /// The operation being attempted.
        action: &'static str,
        /// The underlying filesystem failure.
        source: IoFailure,
    },
    /// The command runner could not invoke Make.
    CommandPort {
        /// The command that could not be invoked.
        command: BuildCommand,
        /// The underlying runner failure.
        source: CommandError,
    },
    /// Make returned an unsuccessful exit status.
    CommandFailed {
        /// The command that failed.
        command: Box<BuildCommand>,
        /// Captured command output for an actionable report.
        output: Box<CommandOutput>,
    },
}

/// A build error by its characters.
pub enum BuildFailure {
    InvalidRequest(Seq<char>),
    Io { action: Seq<char>, source: IoFailure },
    CommandPort { command: CommandContent, source: CommandError },
    CommandFailed { command: CommandContent, output: CommandOutput },
}

impl View for BuildError {
    type V = BuildFailure;

    open spec fn view(&self) -> BuildFailure {
        match *self {
            BuildError::InvalidRequest(reason) => BuildFailure::InvalidRequest(reason@),
            BuildError::Io { action, source } => BuildFailure::Io { action: action@, source },
            BuildError::CommandPort { command, source } => BuildFailure::CommandPort {
                command: command@,
                source,
            },
            BuildError::CommandFailed { command, output } => BuildFailure::CommandFailed {
                command: command@,
                output: *output,
            },
        }
    }
}

impl BuildFailure {
    /// The wording of this error.
    pub open spec fn text(self) -> Seq<char> {
        match self {
            BuildFailure::InvalidRequest(reason) => "invalid build request: "@ + reason,
            BuildFailure::Io { action, source } => "could not "@ + action,
            BuildFailure::CommandPort { command, source } => "could not invoke "@ + command.program,
            BuildFailure::CommandFailed { command, output } => command.program + " failed: "@
                + output.error_text(),
        }
    }

    /// The wording of this error and of each of its causes.
    pub open spec fn chain(self) -> Seq<Seq<char>> {
        match self {
            BuildFailure::Io { action, source } => seq![self.text(), source.message@],
            BuildFailure::CommandPort { command, source } => seq![self.text()] + source.chain(),
            _ => seq![self.text()],
        }
    }
}

impl BuildError {
    /// The wording of this error.
    pub fn message(&self) -> (message: String)
        ensures
            message@ == self@.text(),
    {
        match self {
            BuildError::InvalidRequest(reason) => {
                let mut message: String = "invalid build request: ".to_owned();
                message.append(reason.as_str());
                message
            },
            BuildError::Io { action, .. } => {
                let mut message: String = "could not ".to_owned();
                message.append(*action);
                message
            },
            BuildError::CommandPort { command, .. } => {
                let mut message: String = "could not invoke ".to_owned();
                message.append(command.program.as_str());
                message
            },
            BuildError::CommandFailed { command, output } => {
                let mut message: String = command.program.clone();
                message.append(" failed: ");
                message.append(output.trimmed_error().as_str());
                message
            },
        }
    }

    /// Appends the wording of this error and of each of its causes.
    pub fn append_chain(&self, messages: &mut Vec<String>)
        ensures
            text::texts(final(messages)@) == text::texts(old(messages)@) + self@.chain(),
    {
        let ghost before = text::texts(messages@);
        messages.push(self.message());
        assert(text::texts(messages@) =~= before.push(self@.text()));
        match self {
            BuildError::Io { source, .. } => {
                messages.push(source.message.clone());
            },
            BuildError::CommandPort { source, .. } => {
                source.append_chain(messages);
            },
            _ => {},
        }
        assert(text::texts(messages@) =~= before + self@.chain());
    }
}

/// The invocation of Make with the given arguments in a source tree.
pub open spec fn make_command(source: Seq<char>, arguments: Seq<Seq<char>>) -> CommandContent {
    CommandContent { program: "make"@, arguments, current_dir: Some(source), stdin: None }
}

/// What a run of Make means for the build.
pub open spec fn make_result(
    command: CommandContent,
    result: Result<CommandOutput, CommandError>,
) -> Result<(), BuildFailure> {
    match result {
        Err(source) => Err(BuildFailure::CommandPort { command, source }),
        Ok(output) => if output.success {
            Ok(())
        } else {
            Err(BuildFailure::CommandFailed { command, output })
        },
    }
}

/// The build configuration of a source tree.
pub open spec fn checkout_config(source: Seq<char>) -> Seq<char> {
    paths::joined_path(source, ".config"@)
}

/// The Make variable that names the build configuration.
pub open spec fn config_argument(source: Seq<char>) -> Seq<char> {
    "KCONFIG_CONFIG="@ + checkout_config(source)
}

/// Where the build leaves its firmware, below the source tree.
pub open spec fn output_name(config: Seq<char>) -> Seq<char> {
    if kconfig::has_entry(config, "CONFIG_MACH_LINUX=y"@) {
        "out/klipper.elf"@
    } else if kconfig::has_entry(config, "CONFIG_MACH_RPXXXX=y"@) && !kconfig::has_entry(
        config,
        "CONFIG_RPXXXX_FLASH_START_4000=y"@,
    ) {
        "out/klipper.uf2"@
    } else {
        "out/klipper.bin"@
    }
}

fn output_artifact_name(config: &str) -> (name: &'static str)
    ensures
        name@ == output_name(config@),
{
    if kconfig::contains_entry(config, "CONFIG_MACH_LINUX=y") {
        "out/klipper.elf"
    } else if kconfig::contains_entry(config, "CONFIG_MACH_RPXXXX=y") && !kconfig::contains_entry(
        config,
        "CONFIG_RPXXXX_FLASH_START_4000=y",
    ) {
        "out/klipper.uf2"
    } else {
        "out/klipper.bin"
    }
}

/// How far a build has come; each stage asks for one file system operation.
#[derive(PartialEq, Eq)]
pub enum BuildStage {
    /// The directory of the temporary Kconfig is to be created.
    CreateConfigDirectory,
    /// The temporary Kconfig is to be written.
    WriteConfig,
    /// The checkout's Kconfig is to be read, to see whether it must change.
    ReadCheckoutConfig,
    /// The checkout's Kconfig is to be written.
    WriteCheckoutConfig,
    /// The expanded Kconfig is to be read.
    ReadExpandedConfig,
    /// The object that embeds the firmware's version is to be removed.
    RemoveVersionObject {
        /// The expanded Kconfig.
        expanded: String,
    },
    /// The artifact's directory is to be created.
    CreateArtifactDirectory {
        /// The expanded Kconfig.
        expanded: String,
    },
    /// The firmware is to be copied to the artifact's path.
    CopyArtifact {
        /// The expanded Kconfig.
        expanded: String,
    },
    /// The artifact's size is to be read.
    ReadArtifactSize {
        /// The expanded Kconfig.
        expanded: String,
    },
    /// Nothing is left to do.
    Finished(Result<BuildArtifact, BuildError>),
}

/// One build under way.
#[derive(PartialEq, Eq)]
pub struct BuildRun {
    /// What is built.
    pub request: BuildRequest,
    /// The directory of the temporary Kconfig.
    pub config_parent: String,
    /// The directory of the artifact.
    pub artifact_parent: String,
    /// How far the build has come.
    pub stage: BuildStage,
}

/// A build's stage by its characters.
#[verifier::ext_equal]
pub enum BuildPhase {
    CreateConfigDirectory,
    WriteConfig,
    ReadCheckoutConfig,
    WriteCheckoutConfig,
    ReadExpandedConfig,
    RemoveVersionObject { expanded: Seq<char> },
    CreateArtifactDirectory { expanded: Seq<char> },
    CopyArtifact { expanded: Seq<char> },
    ReadArtifactSize { expanded: Seq<char> },
    Built { path: Seq<char>, byte_count: u64, kconfig: Seq<char> },
    Failed(BuildFailure),
}

/// A build under way by its characters.
#[verifier::ext_equal]
pub struct BuildState {
    pub request: BuildRequest,
    pub config_parent: Seq<char>,
    pub artifact_parent: Seq<char>,
    pub phase: BuildPhase,
}

impl View for BuildRun {
    type V = BuildState;

    open spec fn view(&self) -> BuildState {
        BuildState {
            request: self.request,
            config_parent: self.config_parent@,
            artifact_parent: self.artifact_parent@,
            phase: match self.stage {
                BuildStage::CreateConfigDirectory => BuildPhase::CreateConfigDirectory,
                BuildStage::WriteConfig => BuildPhase::WriteConfig,
                BuildStage::ReadCheckoutConfig => BuildPhase::ReadCheckoutConfig,
                BuildStage::WriteCheckoutConfig => BuildPhase::WriteCheckoutConfig,
                BuildStage::ReadExpandedConfig => BuildPhase::ReadExpandedConfig,
                BuildStage::RemoveVersionObject { expanded } => BuildPhase::RemoveVersionObject {
                    expanded: expanded@,
                },
                BuildStage::CreateArtifactDirectory { expanded } =>
                BuildPhase::CreateArtifactDirectory { expanded: expanded@ },
                BuildStage::CopyArtifact { expanded } => BuildPhase::CopyArtifact {
                    expanded: expanded@,
                },
                BuildStage::ReadArtifactSize { expanded } => BuildPhase::ReadArtifactSize {
                    expanded: expanded@,
                },
                BuildStage::Finished(Ok(artifact)) => BuildPhase::Built {
                    path: artifact.path@,
                    byte_count: artifact.byte_count,
                    kconfig: artifact.kconfig@,
                },
                BuildStage::Finished(Err(error)) => BuildPhase::Failed(error@),
            },
        }
    }
}

/// The outcome of a file system operation.
#[derive(Debug, PartialEq, Eq)]
pub enum FileEvent {
    /// The operation succeeded.
    Done,
    /// The file holds this text.
    Content(String),
    /// The file has this many bytes.
    Size(u64),
    /// The operation failed: there is no such file or directory.
    Missing(IoFailure),
    /// The operation failed for another reason.
    Failed(IoFailure),
}

impl FileEvent {
    /// This outcome where a missing file is a failure like any other.
    pub open spec fn or_missing(self) -> FileEvent {
        match self {
            FileEvent::Missing(failure) => FileEvent::Failed(failure),
            _ => self,
        }
    }
}

/// One step of a build: its new state, the point after the last command that it ran, whether those
/// commands were the ones that the build asks for, and the phases that it reported.
#[verifier::ext_equal]
pub struct BuildStep {
    pub state: BuildState,
    pub next: int,
    pub faithful: bool,
    pub reported: Seq<UpdateProgress>,
}

impl BuildState {
    /// This build at another phase.
    pub open spec fn at(self, phase: BuildPhase) -> Self {
        BuildState { phase, ..self }
    }

    /// This build after a failed file system operation.
    pub open spec fn failed_io(self, action: Seq<char>, source: IoFailure) -> Self {
        self.at(BuildPhase::Failed(BuildFailure::Io { action, source }))
    }

    /// Configures the source tree: an optional clean, then the expansion of the Kconfig.
    pub open spec fn configured(self, source: Seq<char>, tape: Seq<CommandCall>, at: int) -> BuildStep {
        let clean = make_command(source, seq!["clean"@]);
        let cleaned = make_result(clean, tape[at].result);
        let start = if self.request.clean {
            at + 1
        } else {
            at
        };
        let sent_clean = self.request.clean ==> tape[at].command == clean;
        let expand = make_command(source, seq!["olddefconfig"@, config_argument(source)]);
        if self.request.clean && cleaned is Err {
            BuildStep {
                state: self.at(BuildPhase::Failed(cleaned->Err_0)),
                next: start,
                faithful: sent_clean,
                reported: Seq::empty(),
            }
        } else {
            BuildStep {
                state: match make_result(expand, tape[start].result) {
                    Ok(_) => self.at(BuildPhase::ReadExpandedConfig),
                    Err(failure) => self.at(BuildPhase::Failed(failure)),
                },
                next: start + 1,
                faithful: sent_clean && tape[start].command == expand,
                reported: seq![UpdateProgress::ConfiguringFirmware],
            }
        }
    }

    /// Compiles the configured source tree with the given number of jobs.
    pub open spec fn compiled(
        self,
        source: Seq<char>,
        expanded: Seq<char>,
        jobs: nat,
        tape: Seq<CommandCall>,
        at: int,
    ) -> BuildStep {
        let compile = make_command(source, seq![config_argument(source), "-j"@ + text::decimal(jobs)]);
        BuildStep {
            state: match make_result(compile, tape[at].result) {
                Ok(_) => self.at(BuildPhase::CreateArtifactDirectory { expanded }),
                Err(failure) => self.at(BuildPhase::Failed(failure)),
            },
            next: at + 1,
            faithful: tape[at].command == compile,
            reported: Seq::empty(),
        }
    }

    /// What the pending operation's outcome means to the build: a file that is to be removed may be
    /// missing, and no other.
    pub open spec fn meaning(self, event: FileEvent) -> FileEvent {
        if self.phase is RemoveVersionObject {
            event
        } else {
            event.or_missing()
        }
    }

    /// How the build goes on after the pending operation's outcome. The checkout's Kconfig is
    /// written only where its content changes, and an outcome that does not answer the pending
    /// operation changes nothing.
    pub open spec fn after(
        self,
        source: Seq<char>,
        event: FileEvent,
        jobs: nat,
        tape: Seq<CommandCall>,
        at: int,
    ) -> BuildStep {
        let still = |state: BuildState| BuildStep {
            state,
            next: at,
            faithful: true,
            reported: Seq::empty(),
        };
        match (self.phase, self.meaning(event)) {
            (BuildPhase::Built { .. }, _) => still(self),
            (BuildPhase::Failed(_), _) => still(self),
            (BuildPhase::CreateConfigDirectory, FileEvent::Failed(failure)) => still(
                self.failed_io("create the temporary Kconfig directory"@, failure),
            ),
            (BuildPhase::CreateConfigDirectory, FileEvent::Done) => still(
                self.at(BuildPhase::WriteConfig),
            ),
            (BuildPhase::WriteConfig, FileEvent::Failed(failure)) => still(
                self.failed_io("write the temporary Kconfig"@, failure),
            ),
            (BuildPhase::WriteConfig, FileEvent::Done) => still(
                self.at(BuildPhase::ReadCheckoutConfig),
            ),
            (BuildPhase::ReadCheckoutConfig, FileEvent::Content(current)) => if current@
                == self.request.kconfig@ {
                self.configured(source, tape, at)
            } else {
                still(self.at(BuildPhase::WriteCheckoutConfig))
            },
            (BuildPhase::ReadCheckoutConfig, FileEvent::Failed(_)) => still(
                self.at(BuildPhase::WriteCheckoutConfig),
            ),
            (BuildPhase::WriteCheckoutConfig, FileEvent::Failed(failure)) => still(
                self.failed_io("write Klipper's build Kconfig"@, failure),
            ),
            (BuildPhase::WriteCheckoutConfig, FileEvent::Done) => self.configured(source, tape, at),
            (BuildPhase::ReadExpandedConfig, FileEvent::Failed(failure)) => still(
                self.failed_io("read the expanded Kconfig"@, failure),
            ),
            (BuildPhase::ReadExpandedConfig, FileEvent::Content(expanded)) => BuildStep {
                reported: seq![UpdateProgress::CompilingFirmware],
                ..still(self.at(BuildPhase::RemoveVersionObject { expanded: expanded@ }))
            },
            (BuildPhase::RemoveVersionObject { .. }, FileEvent::Failed(failure)) => still(
                self.failed_io("discard Klipper's stale version object"@, failure),
            ),
            (BuildPhase::RemoveVersionObject { expanded }, FileEvent::Done) => self.compiled(
                source,
                expanded,
                jobs,
                tape,
                at,
            ),
            (BuildPhase::RemoveVersionObject { expanded }, FileEvent::Missing(_)) => self.compiled(
                source,
                expanded,
                jobs,
                tape,
                at,
            ),
            (BuildPhase::CreateArtifactDirectory { .. }, FileEvent::Failed(failure)) => still(
                self.failed_io("create the artifact directory"@, failure),
            ),
            (BuildPhase::CreateArtifactDirectory { expanded }, FileEvent::Done) => still(
                self.at(BuildPhase::CopyArtifact { expanded }),
            ),
            (BuildPhase::CopyArtifact { .. }, FileEvent::Failed(failure)) => still(
                self.failed_io("copy Klipper's firmware artifact"@, failure),
            ),
            (BuildPhase::CopyArtifact { expanded }, FileEvent::Done) => still(
                self.at(BuildPhase::ReadArtifactSize { expanded }),
            ),
            (BuildPhase::ReadArtifactSize { .. }, FileEvent::Failed(failure)) => still(
                self.failed_io("read the copied firmware artifact"@, failure),
            ),
            (BuildPhase::ReadArtifactSize { expanded }, FileEvent::Size(byte_count)) => still(
                self.at(
                    BuildPhase::Built {
                        path: self.request.artifact_path@,
                        byte_count,
                        kconfig: expanded,
                    },
                ),
            ),
            _ => still(self),
        }
    }
}

/// A file system operation that a build asks for.
#[derive(Debug, PartialEq, Eq)]
pub enum FileAction {
    /// Create a directory and its parents.
    CreateDirectory(String),
    /// Write a text file.
    Write { path: String, content: String },
    /// Read a text file.
    Read(String),
    /// Remove a file.
    Remove(String),
    /// Copy a file.
    Copy { from: String, to: String },
    /// Read a file's size.
    Size(String),
}

/// A file system operation by its characters.
pub enum FileOperation {
    CreateDirectory(Seq<char>),
    Write { path: Seq<char>, content: Seq<char> },
    Read(Seq<char>),
    Remove(Seq<char>),
    Copy { from: Seq<char>, to: Seq<char> },
    Size(Seq<char>),
}

impl View for FileAction {
    type V = FileOperation;

    open spec fn view(&self) -> FileOperation {
        match *self {
            FileAction::CreateDirectory(path) => FileOperation::CreateDirectory(path@),
            FileAction::Write { path, content } => FileOperation::Write {
                path: path@,
                content: content@,
            },
            FileAction::Read(path) => FileOperation::Read(path@),
            FileAction::Remove(path) => FileOperation::Remove(path@),
            FileAction::Copy { from, to } => FileOperation::Copy { from: from@, to: to@ },
            FileAction::Size(path) => FileOperation::Size(path@),
        }
    }
}

impl BuildState {
    /// The operation that the build waits for; none once it has ended.
    pub open spec fn operation(self, source: Seq<char>) -> Option<FileOperation> {
        match self.phase {
            BuildPhase::CreateConfigDirectory => Some(
                FileOperation::CreateDirectory(self.config_parent),
            ),
            BuildPhase::WriteConfig => Some(
                FileOperation::Write {
                    path: self.request.config_path@,
                    content: self.request.kconfig@,
                },
            ),
            BuildPhase::ReadCheckoutConfig => Some(FileOperation::Read(checkout_config(source))),
            BuildPhase::WriteCheckoutConfig => Some(
                FileOperation::Write {
                    path: checkout_config(source),
                    content: self.request.kconfig@,
                },
            ),
            BuildPhase::ReadExpandedConfig => Some(FileOperation::Read(checkout_config(source))),
            BuildPhase::RemoveVersionObject { .. } => Some(
                FileOperation::Remove(
                    paths::joined_path(source, "out/compile_time_request.o"@),
                ),
            ),
            BuildPhase::CreateArtifactDirectory { .. } => Some(
                FileOperation::CreateDirectory(self.artifact_parent),
            ),
            BuildPhase::CopyArtifact { expanded } => Some(
                FileOperation::Copy {
                    from: paths::joined_path(source, output_name(expanded)),
                    to: self.request.artifact_path@,
                },
            ),
            BuildPhase::ReadArtifactSize { .. } => Some(
                FileOperation::Size(self.request.artifact_path@),
            ),
            BuildPhase::Built { .. } => None,
            BuildPhase::Failed(_) => None,
        }
    }
}

/// Whether `state` is where a build of `request` begins, given the directories of its two paths; a
/// request with a path that has none has failed already.
pub open spec fn begins_in(
    request: BuildRequest,
    config_parent: Option<Seq<char>>,
    artifact_parent: Option<Seq<char>>,
    state: BuildState,
) -> bool {
    &&& state.request == request
    &&& match (config_parent, artifact_parent) {
        (None, _) => state.phase == BuildPhase::Failed(
            BuildFailure::InvalidRequest("config_path must have a parent directory"@),
        ),
        (_, None) => state.phase == BuildPhase::Failed(
            BuildFailure::InvalidRequest("artifact_path must have a parent directory"@),
        ),
        (Some(config_parent), Some(artifact_parent)) => state == (BuildState {
            request,
            config_parent,
            artifact_parent,
            phase: BuildPhase::CreateConfigDirectory,
        }),
    }
}

/// Whether `state` is where a build of `request` begins.
pub open spec fn begins(request: BuildRequest, state: BuildState) -> bool {
    begins_in(
        request,
        paths::parent_path(request.config_path@),
        paths::parent_path(request.artifact_path@),
        state,
    )
}

/// Begins to build firmware in the given directories of the request's paths.
pub fn build_in(
    request: BuildRequest,
    config_parent: Option<String>,
    artifact_parent: Option<String>,
) -> (run: BuildRun)
    ensures
        begins_in(
            request,
            match config_parent {
                Some(parent) => Some(parent@),
                None => None,
            },
            match artifact_parent {
                Some(parent) => Some(parent@),
                None => None,
            },
            run@,
        ),
{
    match (config_parent, artifact_parent) {
        (None, _) => BuildRun {
            request,
            config_parent: String::new(),
            artifact_parent: String::new(),
            stage: BuildStage::Finished(
                Err(
                    BuildError::InvalidRequest(
                        "config_path must have a parent directory".to_owned(),
                    ),
                ),
            ),
        },
        (Some(config_parent), None) => BuildRun {
            request,
            config_parent,
            artifact_parent: String::new(),
            stage: BuildStage::Finished(
                Err(
                    BuildError::InvalidRequest(
                        "artifact_path must have a parent directory".to_owned(),
                    ),
                ),
            ),
        },
        (Some(config_parent), Some(artifact_parent)) => BuildRun {
            request,
            config_parent,
            artifact_parent,
            stage: BuildStage::CreateConfigDirectory,
        },
    }
}

/// Invokes Klipper's Kconfig and firmware build commands through a command runner.
pub struct KlipperBuilder<R> {
    source_dir: String,
    runner: R,
}

impl<R: CommandPort> KlipperBuilder<R> {
    /// The source tree.
    pub closed spec fn source(&self) -> Seq<char> {
        self.source_dir@
    }

    /// Every command so far, in order.
    pub closed spec fn history(&self) -> Seq<CommandCall> {
        self.runner.history()
    }

    /// Creates a builder rooted at the checked-out Klipper source tree.
    pub fn new(source_dir: String, runner: R) -> (builder: Self)
        ensures
            builder.source() == source_dir@,
            builder.history() == runner.history(),
    {
        KlipperBuilder { source_dir, runner }
    }

    /// Returns the runner used for Make.
    pub fn into_runner(self) -> (runner: R)
        ensures
            runner.history() == self.history(),
    {
        self.runner
    }

    /// Begins to build firmware from `request.kconfig`. Nothing is written or run before the first
    /// pending operation is answered.
    pub fn build(&self, request: BuildRequest) -> (run: BuildRun)
        ensures
            begins(request, run@),
    {
        let config_parent: Option<String> = paths::parent(request.config_path.as_str());
        let artifact_parent: Option<String> = paths::parent(request.artifact_path.as_str());
        build_in(request, config_parent, artifact_parent)
    }

    /// The operation that a build waits for; none once it has ended.
    pub fn action(&self, run: &BuildRun) -> (action: Option<FileAction>)
        ensures
            match action {
                Some(action) => run@.operation(self.source()) == Some(action@),
                None => run@.operation(self.source()) is None,
            },
    {
        let source: &str = self.source_dir.as_str();
        match &run.stage {
            BuildStage::CreateConfigDirectory => Some(
                FileAction::CreateDirectory(run.config_parent.clone()),
            ),
            BuildStage::WriteConfig => Some(
                FileAction::Write {
                    path: run.request.config_path.clone(),
                    content: run.request.kconfig.clone(),
                },
            ),
            BuildStage::ReadCheckoutConfig => Some(
                FileAction::Read(paths::join(source, ".config")),
            ),
            BuildStage::WriteCheckoutConfig => Some(
                FileAction::Write {
                    path: paths::join(source, ".config"),
                    content: run.request.kconfig.clone(),
                },
            ),
            BuildStage::ReadExpandedConfig => Some(
                FileAction::Read(paths::join(source, ".config")),
            ),
            BuildStage::RemoveVersionObject { .. } => Some(
                FileAction::Remove(paths::join(source, "out/compile_time_request.o")),
            ),
            BuildStage::CreateArtifactDirectory { .. } => Some(
                FileAction::CreateDirectory(run.artifact_parent.clone()),
            ),
            BuildStage::CopyArtifact { expanded } => Some(
                FileAction::Copy {
                    from: paths::join(source, output_artifact_name(expanded.as_str())),
                    to: run.request.artifact_path.clone(),
                },
            ),
            BuildStage::ReadArtifactSize { .. } => Some(
                FileAction::Size(run.request.artifact_path.clone()),
            ),
            BuildStage::Finished(_) => None,
        }
    }

    fn run_make(&mut self, arguments: Vec<String>) -> (result: Result<(), BuildError>)
        ensures
            final(self).source_dir == old(self).source_dir,
            final(self).history().len() == old(self).history().len() + 1,
            old(self).history().is_prefix_of(final(self).history()),
            final(self).history().last().command == make_command(
                old(self).source(),
                text::texts(arguments@),
            ),
            make_result(
                make_command(old(self).source(), text::texts(arguments@)),
                final(self).history().last().result,
            ) == match result {
                Ok(_) => Ok::<(), BuildFailure>(()),
                Err(error) => Err(error@),
            },
    {
        let command: BuildCommand = BuildCommand {
            program: "make".to_owned(),
            arguments,
            current_dir: Some(self.source_dir.clone()),
            stdin: None,
        };
        match self.runner.run(&command) {
            Err(source) => Err(BuildError::CommandPort { command, source }),
            Ok(output) => if output.success {
                Ok(())
            } else {
                Err(
                    BuildError::CommandFailed {
                        command: Box::new(command),
                        output: Box::new(output),
                    },
                )
            },
        }
    }

    fn config_argument(&self) -> (argument: String)
        ensures
            argument@ == config_argument(self.source()),
    {
        let mut argument: String = "KCONFIG_CONFIG=".to_owned();
        argument.append(paths::join(self.source_dir.as_str(), ".config").as_str());
        argument
    }

    fn configure<P: ProgressPort>(&mut self, clean: bool, progress: &mut P) -> (result: Result<
        (),
        BuildError,
    >)
        ensures
            final(self).source_dir == old(self).source_dir,
            old(self).history().is_prefix_of(final(self).history()),
            forall|state: BuildState| state.request.clean == clean ==> {
                let step = #[trigger] state.configured(
                    old(self).source(),
                    final(self).history(),
                    old(self).history().len() as int,
                );
                &&& step.next == final(self).history().len()
                &&& step.faithful
                &&& final(progress).reported() == old(progress).reported() + step.reported
                &&& step.state == match result {
                    Ok(_) => state.at(BuildPhase::ReadExpandedConfig),
                    Err(error) => state.at(BuildPhase::Failed(error@)),
                }
            },
    {
        let ghost before = self.history();
        if clean {
            let mut arguments: Vec<String> = Vec::new();
            arguments.push("clean".to_owned());
            assert(text::texts(arguments@) =~= seq!["clean"@]);
            let cleaned: Result<(), BuildError> = self.run_make(arguments);
            if let Err(error) = cleaned {
                assert(progress.reported() =~= old(progress).reported()
                    + Seq::<UpdateProgress>::empty());
                return Err(error);
            }
        }
        let ghost middle = self.history();
        progress.report(BuildProgress::Configuring.update_phase());
        assert(progress.reported() =~= old(progress).reported()
            + seq![UpdateProgress::ConfiguringFirmware]);
        let mut arguments: Vec<String> = Vec::new();
        arguments.push("olddefconfig".to_owned());
        arguments.push(self.config_argument());
        assert(text::texts(arguments@) =~= seq!["olddefconfig"@, config_argument(self.source())]);
        let result: Result<(), BuildError> = self.run_make(arguments);
        proof {
            let after = self.history();
            if clean {
                assert(after[before.len() as int] == middle[before.len() as int]);
            }
        }
        result
    }

    fn compile(&mut self, jobs: usize) -> (result: Result<(), BuildError>)
        ensures
            final(self).source_dir == old(self).source_dir,
            old(self).history().is_prefix_of(final(self).history()),
            forall|state: BuildState, expanded: Seq<char>| {
                let step = #[trigger] state.compiled(
                    old(self).source(),
                    expanded,
                    jobs as nat,
                    final(self).history(),
                    old(self).history().len() as int,
                );
                &&& step.next == final(self).history().len()
                &&& step.faithful
                &&& step.reported == Seq::<UpdateProgress>::empty()
                &&& step.state == match result {
                    Ok(_) => state.at(BuildPhase::CreateArtifactDirectory { expanded }),
                    Err(error) => state.at(BuildPhase::Failed(error@)),
                }
            },
    {
        let mut arguments: Vec<String> = Vec::new();
        let mut parallel: String = "-j".to_owned();
        parallel.append(text::decimal_text(jobs as u64).as_str());
        arguments.push(self.config_argument());
        arguments.push(parallel);
        assert(text::texts(arguments@) =~= seq![
            config_argument(self.source()),
            "-j"@ + text::decimal(jobs as nat),
        ]);
        self.run_make(arguments)
    }

    /// Takes the pending operation's outcome, runs what Make has to do next with `jobs` parallel
    /// jobs, and reports the externally visible phases.
    pub fn build_with_progress<P: ProgressPort>(
        &mut self,
        run: BuildRun,
        event: FileEvent,
        jobs: usize,
        progress: &mut P,
    ) -> (next: BuildRun)
        ensures
            final(self).source() == old(self).source(),
            old(self).history().is_prefix_of(final(self).history()),
            ({
                let step = run@.after(
                    old(self).source(),
                    event,
                    jobs as nat,
                    final(self).history(),
                    old(self).history().len() as int,
                );
                &&& next@ == step.state
                &&& step.next == final(self).history().len()
                &&& step.faithful
                &&& final(progress).reported() == old(progress).reported() + step.reported
            }),
    {
        let ghost given = run@;
        let ghost told = progress.reported();
        assert(told =~= told + Seq::<UpdateProgress>::empty());
        let mut next: BuildRun = run;
        let event: FileEvent = match (&next.stage, event) {
            (BuildStage::RemoveVersionObject { .. }, event) => event,
            (_, FileEvent::Missing(source)) => FileEvent::Failed(source),
            (_, event) => event,
        };
        let stage: BuildStage = match (next.stage, event) {
            (BuildStage::Finished(result), _) => BuildStage::Finished(result),
            (BuildStage::CreateConfigDirectory, FileEvent::Failed(source)) => failed_io(
                "create the temporary Kconfig directory",
                source,
            ),
            (BuildStage::CreateConfigDirectory, FileEvent::Done) => BuildStage::WriteConfig,
            (BuildStage::WriteConfig, FileEvent::Failed(source)) => failed_io(
                "write the temporary Kconfig",
                source,
            ),
            (BuildStage::WriteConfig, FileEvent::Done) => BuildStage::ReadCheckoutConfig,
            (BuildStage::ReadCheckoutConfig, FileEvent::Content(current)) => if text::same_text(
                current.as_str(),
                next.request.kconfig.as_str(),
            ) {
                assert(given.request.clean == next.request.clean);
                match self.configure(next.request.clean, progress) {
                    Ok(_) => BuildStage::ReadExpandedConfig,
                    Err(error) => BuildStage::Finished(Err(error)),
                }
            } else {
                BuildStage::WriteCheckoutConfig
            },
            (BuildStage::ReadCheckoutConfig, FileEvent::Failed(_)) =>
            BuildStage::WriteCheckoutConfig,
            (BuildStage::WriteCheckoutConfig, FileEvent::Failed(source)) => failed_io(
                "write Klipper's build Kconfig",
                source,
            ),
            (BuildStage::WriteCheckoutConfig, FileEvent::Done) => {
                match self.configure(next.request.clean, progress) {
                    Ok(_) => BuildStage::ReadExpandedConfig,
                    Err(error) => BuildStage::Finished(Err(error)),
                }
            },
            (BuildStage::ReadExpandedConfig, FileEvent::Failed(source)) => failed_io(
                "read the expanded Kconfig",
                source,
            ),
            (BuildStage::ReadExpandedConfig, FileEvent::Content(expanded)) => {
                progress.report(BuildProgress::Compiling.update_phase());
                assert(progress.reported() =~= told + seq![UpdateProgress::CompilingFirmware]);
                BuildStage::RemoveVersionObject { expanded }
            },
            (BuildStage::RemoveVersionObject { .. }, FileEvent::Failed(source)) => failed_io(
                "discard Klipper's stale version object",
                source,
            ),
            (BuildStage::RemoveVersionObject { expanded }, FileEvent::Done) => {
                match self.compile(jobs) {
                    Ok(_) => BuildStage::CreateArtifactDirectory { expanded },
                    Err(error) => BuildStage::Finished(Err(error)),
                }
            },
            (BuildStage::RemoveVersionObject { expanded }, FileEvent::Missing(_)) => {
                match self.compile(jobs) {
                    Ok(_) => BuildStage::CreateArtifactDirectory { expanded },
                    Err(error) => BuildStage::Finished(Err(error)),
                }
            },
            (BuildStage::CreateArtifactDirectory { .. }, FileEvent::Failed(source)) => failed_io(
                "create the artifact directory",
                source,
            ),
            (BuildStage::CreateArtifactDirectory { expanded }, FileEvent::Done) =>
            BuildStage::CopyArtifact { expanded },
            (BuildStage::CopyArtifact { .. }, FileEvent::Failed(source)) => failed_io(
                "copy Klipper's firmware artifact",
                source,
            ),
            (BuildStage::CopyArtifact { expanded }, FileEvent::Done) =>
            BuildStage::ReadArtifactSize { expanded },
            (BuildStage::ReadArtifactSize { .. }, FileEvent::Failed(source)) => failed_io(
                "read the copied firmware artifact",
                source,
            ),
            (BuildStage::ReadArtifactSize { expanded }, FileEvent::Size(byte_count)) =>
            BuildStage::Finished(
                Ok(
                    BuildArtifact {
                        path: next.request.artifact_path.clone(),
                        byte_count,
                        kconfig: expanded,
                    },
                ),
            ),
            (stage, _) => stage,
        };
        next.stage = stage;
        next
    }
}

/// The outcome of one operation of a build, and the number of jobs that Make may use then.
pub struct BuildAnswer {
    pub event: FileEvent,
    pub jobs: nat,
}

impl BuildState {
    /// How the build goes on over all of `answers`, one after the other.
    pub open spec fn after_all(
        self,
        source: Seq<char>,
        answers: Seq<BuildAnswer>,
        tape: Seq<CommandCall>,
        at: int,
    ) -> BuildStep
        decreases answers.len(),
    {
        if answers.len() == 0 {
            BuildStep { state: self, next: at, faithful: true, reported: Seq::empty() }
        } else {
            let before = self.after_all(source, answers.drop_last(), tape, at);
            let last = before.state.after(
                source,
                answers.last().event,
                answers.last().jobs,
                tape,
                before.next,
            );
            BuildStep {
                state: last.state,
                next: last.next,
                faithful: before.faithful && last.faithful,
                reported: before.reported + last.reported,
            }
        }
    }

    /// What a build has reported when it is at this phase; a build that failed stopped on the way.
    pub open spec fn told(self, reported: Seq<UpdateProgress>) -> bool {
        let configuring = seq![UpdateProgress::ConfiguringFirmware];
        let both = seq![UpdateProgress::ConfiguringFirmware, UpdateProgress::CompilingFirmware];
        match self.phase {
            BuildPhase::CreateConfigDirectory => reported == Seq::<UpdateProgress>::empty(),
            BuildPhase::WriteConfig => reported == Seq::<UpdateProgress>::empty(),
            BuildPhase::ReadCheckoutConfig => reported == Seq::<UpdateProgress>::empty(),
            BuildPhase::WriteCheckoutConfig => reported == Seq::<UpdateProgress>::empty(),
            BuildPhase::ReadExpandedConfig => reported == configuring,
            BuildPhase::Failed(_) => reported.is_prefix_of(both),
            _ => reported == both,
        }
    }
}

/// A build reports that it configures and then that it compiles, each once and nothing else, until
/// it ends or fails on the way.
pub proof fn law_build_reports_its_phases_once(
    state: BuildState,
    source: Seq<char>,
    answers: Seq<BuildAnswer>,
    tape: Seq<CommandCall>,
    at: int,
)
    requires
        state.phase is CreateConfigDirectory || state.phase is Failed,
    ensures
        state.after_all(source, answers, tape, at).state.told(
            state.after_all(source, answers, tape, at).reported,
        ),
    decreases answers.len(),
{
    if answers.len() > 0 {
        law_build_reports_its_phases_once(state, source, answers.drop_last(), tape, at);
        let before = state.after_all(source, answers.drop_last(), tape, at);
        let last = before.state.after(
            source,
            answers.last().event,
            answers.last().jobs,
            tape,
            before.next,
        );
        let all = before.reported + last.reported;
        if last.reported.len() == 0 {
            assert(all =~= before.reported);
        } else if before.state.phase is ReadExpandedConfig {
            assert(all =~= seq![
                UpdateProgress::ConfiguringFirmware,
                UpdateProgress::CompilingFirmware,
            ]);
        } else {
            assert(all =~= seq![UpdateProgress::ConfiguringFirmware]);
        }
    }
}

/// What a step of a build did stays what it did, however many commands follow it: the steps of a
/// build add up over one record of all its commands.
pub proof fn law_step_ignores_later_commands(
    state: BuildState,
    source: Seq<char>,
    event: FileEvent,
    jobs: nat,
    tape: Seq<CommandCall>,
    longer: Seq<CommandCall>,
    at: int,
)
    requires
        0 <= at,
        tape.is_prefix_of(longer),
        state.after(source, event, jobs, tape, at).next <= tape.len(),
    ensures
        state.after(source, event, jobs, longer, at) == state.after(source, event, jobs, tape, at),
{
    assert(forall|i: int| 0 <= i < tape.len() ==> tape[i] == longer[i]);
}

/// Whether the commands of `tape` from `at` on were answered with the first of `replies`.
pub open spec fn answered(
    tape: Seq<CommandCall>,
    at: int,
    replies: Seq<Result<CommandOutput, CommandError>>,
) -> bool {
    &&& 0 <= at <= tape.len()
    &&& tape.len() - at <= replies.len()
    &&& forall|i: int| at <= i < tape.len() ==> #[trigger] tape[i].result == replies[i - at]
}

/// Whether `left` from `left_at` to `left_end` and `right` from `right_at` to `right_end` hold the
/// same commands.
pub open spec fn same_commands(
    left: Seq<CommandCall>,
    left_at: int,
    left_end: int,
    right: Seq<CommandCall>,
    right_at: int,
    right_end: int,
) -> bool {
    &&& left_end - left_at == right_end - right_at
    &&& forall|i: int|
        left_at <= i < left_end ==> (#[trigger] left[i]).command == right[i - left_at
            + right_at].command
}

proof fn lemma_step_goes_on(
    state: BuildState,
    source: Seq<char>,
    answer: BuildAnswer,
    tape: Seq<CommandCall>,
    at: int,
)
    ensures
        at <= state.after(source, answer.event, answer.jobs, tape, at).next,
{
}

proof fn lemma_build_goes_on(
    state: BuildState,
    source: Seq<char>,
    answers: Seq<BuildAnswer>,
    tape: Seq<CommandCall>,
    at: int,
)
    ensures
        at <= state.after_all(source, answers, tape, at).next,
    decreases answers.len(),
{
    if answers.len() > 0 {
        lemma_build_goes_on(state, source, answers.drop_last(), tape, at);
    }
}

proof fn lemma_same_replies_same_step(
    state: BuildState,
    source: Seq<char>,
    answer: BuildAnswer,
    left: Seq<CommandCall>,
    left_at: int,
    right: Seq<CommandCall>,
    right_at: int,
)
    requires
        ({
            let one = state.after(source, answer.event, answer.jobs, left, left_at);
            let other = state.after(source, answer.event, answer.jobs, right, right_at);
            &&& one.faithful
            &&& other.faithful
            &&& forall|i: int|
                left_at <= i < one.next && i - left_at + right_at < other.next ==> (
                #[trigger] left[i]).result == right[i - left_at + right_at].result
        }),
    ensures
        ({
            let one = state.after(source, answer.event, answer.jobs, left, left_at);
            let other = state.after(source, answer.event, answer.jobs, right, right_at);
            &&& one.state == other.state
            &&& one.reported == other.reported
            &&& same_commands(left, left_at, one.next, right, right_at, other.next)
        }),
{
    assert(left[left_at + 1 - left_at + left_at] == left[left_at + 1]);
    assert(right[left_at - left_at + right_at] == right[right_at]);
    assert(right[left_at + 1 - left_at + right_at] == right[right_at + 1]);
}

/// The same replies make the same build: the commands that it runs, what it reports and how it ends
/// depend on nothing but the request, the file system and what Make answers.
pub proof fn law_same_replies_make_the_same_build(
    state: BuildState,
    source: Seq<char>,
    answers: Seq<BuildAnswer>,
    replies: Seq<Result<CommandOutput, CommandError>>,
    left: Seq<CommandCall>,
    left_at: int,
    right: Seq<CommandCall>,
    right_at: int,
)
    requires
        answered(left, left_at, replies),
        answered(right, right_at, replies),
        state.after_all(source, answers, left, left_at).faithful,
        state.after_all(source, answers, left, left_at).next <= left.len(),
        state.after_all(source, answers, right, right_at).faithful,
        state.after_all(source, answers, right, right_at).next <= right.len(),
    ensures
        ({
            let one = state.after_all(source, answers, left, left_at);
            let other = state.after_all(source, answers, right, right_at);
            &&& one.state == other.state
            &&& one.reported == other.reported
            &&& same_commands(left, left_at, one.next, right, right_at, other.next)
        }),
    decreases answers.len(),
{
    if answers.len() > 0 {
        let rest = answers.drop_last();
        let one = state.after_all(source, rest, left, left_at);
        let other = state.after_all(source, rest, right, right_at);
        lemma_build_goes_on(state, source, rest, left, left_at);
        lemma_build_goes_on(state, source, rest, right, right_at);
        lemma_step_goes_on(one.state, source, answers.last(), left, one.next);
        lemma_step_goes_on(other.state, source, answers.last(), right, other.next);
        law_same_replies_make_the_same_build(
            state,
            source,
            rest,
            replies,
            left,
            left_at,
            right,
            right_at,
        );
        let end = one.state.after(
            source,
            answers.last().event,
            answers.last().jobs,
            left,
            one.next,
        ).next;
        let other_end = other.state.after(
            source,
            answers.last().event,
            answers.last().jobs,
            right,
            other.next,
        ).next;
        assert forall|i: int|
            one.next <= i < end && i - one.next + other.next < other_end implies (
        #[trigger] left[i]).result == right[i - one.next + other.next].result by {
            let j = i - one.next + other.next;
            assert(left[i].result == replies[i - left_at]);
            assert(right[j].result == replies[j - right_at]);
        }
        lemma_same_replies_same_step(
            one.state,
            source,
            answers.last(),
            left,
            one.next,
            right,
            other.next,
        );
        assert forall|i: int| left_at <= i < end implies (#[trigger] left[i]).command == right[i
            - left_at + right_at].command by {
            if i >= one.next {
                assert(i - one.next + other.next == i - left_at + right_at);
            }
        }
    }
}

/// A checkout whose Kconfig is already the wanted one is left alone, so that Make sees nothing to
/// redo.
pub proof fn law_unchanged_kconfig_is_not_rewritten(
    state: BuildState,
    source: Seq<char>,
    current: String,
    jobs: nat,
    tape: Seq<CommandCall>,
    at: int,
)
    requires
        state.phase == BuildPhase::ReadCheckoutConfig,
        current@ == state.request.kconfig@,
    ensures
        !(state.after(source, FileEvent::Content(current), jobs, tape, at).state.phase
            is WriteCheckoutConfig),
{
}

/// A build that has ended runs nothing more and stays as it is, whatever happens.
pub proof fn law_ended_build_stays_ended(
    state: BuildState,
    source: Seq<char>,
    event: FileEvent,
    jobs: nat,
    tape: Seq<CommandCall>,
    at: int,
)
    requires
        state.phase is Built || state.phase is Failed,
    ensures
        state.after(source, event, jobs, tape, at).state == state,
        state.after(source, event, jobs, tape, at).next == at,
        state.operation(source) is None,
{
}

/// A file system operation that fails ends the build, also where it fails because something is
/// missing; only the checkout's own Kconfig need not be readable, and only the version object need
/// not be there.
pub proof fn law_failed_operation_ends_the_build(
    state: BuildState,
    source: Seq<char>,
    event: FileEvent,
    jobs: nat,
    tape: Seq<CommandCall>,
    at: int,
)
    requires
        state.operation(source) is Some,
        !(state.phase is ReadCheckoutConfig),
        event is Failed || (event is Missing && !(state.phase is RemoveVersionObject)),
    ensures
        ({
            let step = state.after(source, event, jobs, tape, at);
            &&& step.state.phase is Failed
            &&& step.state.phase->Failed_0 is Io
            &&& step.state.phase->Failed_0->Io_source == match event {
                FileEvent::Missing(failure) => failure,
                _ => event->Failed_0,
            }
            &&& step.next == at
        }),
{
}

/// No artifact comes out of a build in which Make failed.
pub proof fn law_failed_make_ends_the_build(
    state: BuildState,
    source: Seq<char>,
    event: FileEvent,
    jobs: nat,
    tape: Seq<CommandCall>,
    at: int,
)
    requires
        ({
            let step = state.after(source, event, jobs, tape, at);
            step.next > at && (tape[step.next - 1].result is Err || !tape[step.next
                - 1].result->Ok_0.success)
        }),
    ensures
        state.after(source, event, jobs, tape, at).state.phase is Failed,
{
}

fn failed_io(action: &'static str, source: IoFailure) -> (stage: BuildStage)
    ensures
        stage is Finished,
        stage->Finished_0 is Err,
        stage->Finished_0->Err_0@ == (BuildFailure::Io { action: action@, source }),
{
    BuildStage::Finished(Err(BuildError::Io { action, source }))
}

/// What a build writes is the configuration that was asked for: to the asked path and, where the
/// checkout does not hold it already, to `.config` in the checkout. What it reads back is that
/// file.
pub proof fn law_build_writes_the_requested_configuration(state: BuildState, source: Seq<char>)
    ensures
        ({
            let operation = state.operation(source);
            &&& operation is Some && operation->Some_0 is Write ==> operation->Some_0->content
                == state.request.kconfig@
            &&& state.phase is WriteConfig ==> operation == Some(
                FileOperation::Write {
                    path: state.request.config_path@,
                    content: state.request.kconfig@,
                },
            )
            &&& state.phase is WriteCheckoutConfig ==> operation == Some(
                FileOperation::Write {
                    path: paths::joined_path(source, ".config"@),
                    content: state.request.kconfig@,
                },
            )
            &&& state.phase is ReadCheckoutConfig || state.phase is ReadExpandedConfig
                ==> operation == Some(
                FileOperation::Read(paths::joined_path(source, ".config"@)),
            )
            &&& state.phase is CreateConfigDirectory ==> operation == Some(
                FileOperation::CreateDirectory(state.config_parent),
            )
            &&& state.phase is CreateArtifactDirectory ==> operation == Some(
                FileOperation::CreateDirectory(state.artifact_parent),
            )
            &&& operation is None <==> state.phase is Built || state.phase is Failed
        }),
{
}

/// What is copied is the firmware that the expanded configuration makes: the ELF file of a Linux
/// host, the UF2 file of an RP chip that starts without a bootloader, and the plain image of any
/// other. It goes to the asked path, and its size is read there.
pub proof fn law_artifact_is_copied_to_the_requested_path(
    state: BuildState,
    source: Seq<char>,
    expanded: Seq<char>,
)
    ensures
        ({
            let linux = kconfig::has_entry(expanded, "CONFIG_MACH_LINUX=y"@);
            let pico = kconfig::has_entry(expanded, "CONFIG_MACH_RPXXXX=y"@);
            let offset = kconfig::has_entry(expanded, "CONFIG_RPXXXX_FLASH_START_4000=y"@);
            let operation = state.operation(source);
            &&& linux ==> output_name(expanded) == "out/klipper.elf"@
            &&& !linux && pico && !offset ==> output_name(expanded) == "out/klipper.uf2"@
            &&& !linux && pico && offset ==> output_name(expanded) == "out/klipper.bin"@
            &&& !linux && !pico ==> output_name(expanded) == "out/klipper.bin"@
            &&& state.phase == (BuildPhase::CopyArtifact { expanded }) ==> operation == Some(
                FileOperation::Copy {
                    from: paths::joined_path(source, output_name(expanded)),
                    to: state.request.artifact_path@,
                },
            )
            &&& state.phase is ReadArtifactSize ==> operation == Some(
                FileOperation::Size(state.request.artifact_path@),
            )
            &&& state.phase is RemoveVersionObject ==> operation == Some(
                FileOperation::Remove(paths::joined_path(source, "out/compile_time_request.o"@)),
            )
        }),
{
}

/// Whether this call was `make` in the checkout with these arguments.
pub open spec fn ran_make(call: CommandCall, source: Seq<char>, arguments: Seq<Seq<char>>) -> bool {
    &&& call.command.program == "make"@
    &&& call.command.arguments == arguments
    &&& call.command.current_dir == Some(source)
    &&& call.command.stdin is None
}

/// Whether this call was carried out with success.
pub open spec fn went_well(call: CommandCall) -> bool {
    call.result is Ok && call.result->Ok_0.success
}

/// To configure is to run `make clean`, where a clean build was asked for, and then
/// `make olddefconfig` on the configuration in the checkout. It goes on only if all of these
/// succeed.
pub proof fn law_configuration_is_expanded_by_make(
    state: BuildState,
    source: Seq<char>,
    tape: Seq<CommandCall>,
    at: int,
)
    ensures
        ({
            let step = state.configured(source, tape, at);
            let expand = if state.request.clean {
                at + 1
            } else {
                at
            };
            let config = "KCONFIG_CONFIG="@ + paths::joined_path(source, ".config"@);
            &&& step.faithful && state.request.clean ==> ran_make(tape[at], source, seq!["clean"@])
            &&& step.state.phase is ReadExpandedConfig <==> (state.request.clean ==> went_well(
                tape[at],
            )) && went_well(tape[expand])
            &&& step.state.phase is ReadExpandedConfig ==> step.next == expand + 1
            &&& step.state.phase is ReadExpandedConfig && step.faithful ==> ran_make(
                tape[expand],
                source,
                seq!["olddefconfig"@, config],
            )
            &&& state.request.clean && !went_well(tape[at]) ==> step.next == at + 1
                && step.reported.len() == 0
            &&& !(step.state.phase is ReadExpandedConfig) ==> step.state.phase is Failed
            &&& step.state.request == state.request
        }),
{
}

/// To compile is to run `make` once, on the configuration in the checkout, with the wanted number
/// of jobs. It goes on only if that succeeds.
pub proof fn law_firmware_is_compiled_by_make(
    state: BuildState,
    source: Seq<char>,
    expanded: Seq<char>,
    jobs: nat,
    tape: Seq<CommandCall>,
    at: int,
)
    ensures
        ({
            let step = state.compiled(source, expanded, jobs, tape, at);
            let config = "KCONFIG_CONFIG="@ + paths::joined_path(source, ".config"@);
            &&& step.next == at + 1
            &&& step.faithful ==> ran_make(
                tape[at],
                source,
                seq![config, "-j"@ + text::decimal(jobs)],
            )
            &&& went_well(tape[at]) ==> step.state.phase == (BuildPhase::CreateArtifactDirectory {
                expanded,
            })
            &&& !went_well(tape[at]) ==> step.state.phase is Failed
        }),
{
}

/// A build that is answered in order, and whose commands succeed, makes the artifact at the asked
/// path, with the size that was read there and the configuration that was read back from the
/// checkout. It runs `make` twice.
pub proof fn law_answered_build_is_built(
    state: BuildState,
    source: Seq<char>,
    current: String,
    expanded: String,
    byte_count: u64,
    jobs: nat,
    tape: Seq<CommandCall>,
    at: int,
)
    requires
        state.phase is CreateConfigDirectory,
        !state.request.clean,
        went_well(tape[at]),
        went_well(tape[at + 1]),
    ensures
        ({
            let s1 = state.after(source, FileEvent::Done, jobs, tape, at);
            let s2 = s1.state.after(source, FileEvent::Done, jobs, tape, at);
            let read = s2.state.after(source, FileEvent::Content(current), jobs, tape, at);
            let written = read.state.after(source, FileEvent::Done, jobs, tape, at);
            let same = current@ == state.request.kconfig@;
            let s4 = if same {
                read
            } else {
                written
            };
            let s5 = s4.state.after(source, FileEvent::Content(expanded), jobs, tape, s4.next);
            let s6 = s5.state.after(source, FileEvent::Done, jobs, tape, s5.next);
            let s7 = s6.state.after(source, FileEvent::Done, jobs, tape, s6.next);
            let s8 = s7.state.after(source, FileEvent::Done, jobs, tape, s7.next);
            let s9 = s8.state.after(source, FileEvent::Size(byte_count), jobs, tape, s8.next);
            &&& s1.state.phase is WriteConfig
            &&& s2.state.phase is ReadCheckoutConfig
            &&& !same ==> read.state.phase is WriteCheckoutConfig && read.next == at
            &&& s4.state.phase is ReadExpandedConfig
            &&& s4.next == at + 1
            &&& s5.state.phase == (BuildPhase::RemoveVersionObject { expanded: expanded@ })
            &&& s6.state.phase == (BuildPhase::CreateArtifactDirectory { expanded: expanded@ })
            &&& s6.next == at + 2
            &&& s7.state.phase == (BuildPhase::CopyArtifact { expanded: expanded@ })
            &&& s8.state.phase == (BuildPhase::ReadArtifactSize { expanded: expanded@ })
            &&& s9.state.phase == (BuildPhase::Built {
                path: state.request.artifact_path@,
                byte_count,
                kconfig: expanded@,
            })
            &&& s9.next == at + 2
        }),
{
}

/// Klipper's version object need not be there: a build goes on just as if it had been removed. Any
/// other file that is missing is a failure.
pub proof fn law_missing_version_object_is_no_failure(
    state: BuildState,
    source: Seq<char>,
    failure: IoFailure,
    jobs: nat,
    tape: Seq<CommandCall>,
    at: int,
)
    ensures
        state.phase is RemoveVersionObject ==> state.after(
            source,
            FileEvent::Missing(failure),
            jobs,
            tape,
            at,
        ) == state.after(source, FileEvent::Done, jobs, tape, at),
        !(state.phase is RemoveVersionObject) ==> state.after(
            source,
            FileEvent::Missing(failure),
            jobs,
            tape,
            at,
        ) == state.after(source, FileEvent::Failed(failure), jobs, tape, at),
{
}

/// A build begins by making the directories of both paths that it was given, and is refused where
/// one of them has none.
pub proof fn law_build_needs_both_directories(
    request: BuildRequest,
    config_parent: Option<Seq<char>>,
    artifact_parent: Option<Seq<char>>,
    state: BuildState,
)
    requires
        begins_in(request, config_parent, artifact_parent, state),
    ensures
        state.request == request,
        config_parent is Some && artifact_parent is Some <==> state.phase is CreateConfigDirectory,
        state.phase is CreateConfigDirectory ==> state.config_parent == config_parent->Some_0
            && state.artifact_parent == artifact_parent->Some_0,
        !(state.phase is CreateConfigDirectory) ==> state.phase is Failed
            && state.phase->Failed_0 is InvalidRequest,
{
}

} // verus!
