//! Discovering, downloading, and installing a released `aldis` binary.
use vstd::prelude::*;

use crate::builder;
use crate::builder::{BuildCommand, CommandContent, CommandError, CommandOutput, CommandPort};
use crate::failure::IoFailure;
use crate::paths;
use crate::service;
use crate::status;
use crate::status::with_context;
use crate::text;
use crate::ui;
use crate::ui::{say, UiOutput, UiText};

verus! {

/// The repository that releases are published in.
pub const REPOSITORY: &'static str = "mjonuschat/aldis";

/// Errors while checking for or installing a released `aldis` binary.
#[derive(Debug, PartialEq, Eq)]
pub enum ReleaseError {
    /// The GitHub API request failed.
    Http(String),
    /// GitHub's response body could not be parsed.
    Json(String),
    /// The host's CPU architecture has no published release archive.
    UnsupportedPlatform(String),
    /// The downloaded archive could not be extracted.
    Extract(CommandError),
    /// `tar` ran but reported failure.
    ExtractFailed(String),
    /// The extracted archive did not contain an `aldis` binary.
    MissingBinary,
    /// Installing the new binary over the running one failed.
    Install(IoFailure),
}

impl ReleaseError {
    /// The wording of this error.
    pub open spec fn text(self) -> Seq<char> {
        match self {
            ReleaseError::Http(_) => "GitHub request failed"@,
            ReleaseError::Json(_) => "GitHub returned invalid JSON"@,
            ReleaseError::UnsupportedPlatform(name) =>
            "no published release archive for host architecture "@ + text::quoted(name@),
            ReleaseError::Extract(_) => "could not extract the downloaded archive"@,
            ReleaseError::ExtractFailed(stderr) => "tar failed: "@ + stderr@,
            ReleaseError::MissingBinary => "downloaded archive did not contain an aldis binary"@,
            ReleaseError::Install(_) => "could not install the new binary"@,
        }
    }

    /// The wording of this error and of each of its causes.
    pub open spec fn chain(self) -> Seq<Seq<char>> {
        seq![self.text()] + match self {
            ReleaseError::Http(cause) => seq![cause@],
            ReleaseError::Json(cause) => seq![cause@],
            ReleaseError::Extract(error) => error.chain(),
            ReleaseError::Install(failure) => seq![failure.message@],
            _ => Seq::empty(),
        }
    }

    /// The wording of this error.
    pub fn message(&self) -> (message: String)
        ensures
            message@ == self.text(),
    {
        match self {
            ReleaseError::Http(_) => "GitHub request failed".to_owned(),
            ReleaseError::Json(_) => "GitHub returned invalid JSON".to_owned(),
            ReleaseError::UnsupportedPlatform(name) => {
                let mut message: String =
                    "no published release archive for host architecture ".to_owned();
                message.append(text::quote(name.as_str()).as_str());
                message
            },
            ReleaseError::Extract(_) => "could not extract the downloaded archive".to_owned(),
            ReleaseError::ExtractFailed(stderr) => {
                let mut message: String = "tar failed: ".to_owned();
                message.append(stderr.as_str());
                message
            },
            ReleaseError::MissingBinary =>
            "downloaded archive did not contain an aldis binary".to_owned(),
            ReleaseError::Install(_) => "could not install the new binary".to_owned(),
        }
    }

    /// The wording of this error and of each of its causes.
    pub fn messages(&self) -> (messages: Vec<String>)
        ensures
            text::texts(messages@) == self.chain(),
    {
        let mut messages: Vec<String> = Vec::new();
        messages.push(self.message());
        assert(text::texts(messages@) =~= seq![self.text()]);
        match self {
            ReleaseError::Http(cause) => {
                messages.push(cause.clone());
            },
            ReleaseError::Json(cause) => {
                messages.push(cause.clone());
            },
            ReleaseError::Extract(error) => {
                error.append_chain(&mut messages);
            },
            ReleaseError::Install(failure) => {
                messages.push(failure.message.clone());
            },
            _ => {},
        }
        assert(text::texts(messages@) =~= self.chain());
        messages
    }
}

/// The latest published `aldis` release.
#[derive(Clone, Debug, PartialEq, Eq)]
pub struct LatestRelease {
    /// The release tag, e.g. `"v0.2.3"`.
    pub tag: String,
}

/// A tag without its leading `v`s.
pub open spec fn version_of(tag: Seq<char>) -> Seq<char>
    decreases tag.len(),
{
    if tag.len() > 0 && tag[0] == 'v' {
        version_of(tag.skip(1))
    } else {
        tag
    }
}

/// Returns whether `current_version` (e.g. `"0.2.3"`, the package's own version) already matches
/// `latest_tag` (e.g. `"v0.2.3"`).
pub fn is_up_to_date(current_version: &str, latest_tag: &str) -> (current: bool)
    ensures
        current == (version_of(latest_tag@) == current_version@),
{
    let chars: Vec<char> = text::chars_of(latest_tag);
    let count: usize = chars.len();
    let mut i: usize = 0;
    assert(latest_tag@.skip(0) =~= latest_tag@);
    while i < count && chars[i] == 'v'
        invariant
            i <= count,
            count == chars@.len(),
            chars@ == latest_tag@,
            version_of(latest_tag@) == version_of(latest_tag@.skip(i as int)),
        decreases count - i,
    {
        assert(latest_tag@.skip(i as int).skip(1) =~= latest_tag@.skip(i + 1));
        i += 1;
    }
    let version: &str = latest_tag.substring_char(i, count);
    assert(version@ =~= latest_tag@.skip(i as int));
    text::same_text(version, current_version)
}

/// Maps the host architecture to the platform suffix release archives are
/// published under (`aldis-<platform>.tar.xz`).
pub fn target_platform(arch: &str) -> (platform: Result<&'static str, ReleaseError>)
    ensures
        match platform {
            Ok(platform) => platform_of(arch@) == Some(platform@),
            Err(ReleaseError::UnsupportedPlatform(name)) => platform_of(arch@) is None && name@
                == arch@,
            Err(_) => false,
        },
{
    if text::same_text(arch, "x86_64") {
        Ok("x86_64-linux")
    } else if text::same_text(arch, "aarch64") {
        Ok("aarch64-linux")
    } else {
        Err(ReleaseError::UnsupportedPlatform(arch.to_owned()))
    }
}

/// The URL of the latest release's archive for a platform.
pub fn download_url(repo: &str, platform: &str) -> (url: String)
    ensures
        url@ == archive_url(repo@, platform@),
{
    let mut url: String = "https://github.com/".to_owned();
    url.append(repo);
    url.append("/releases/latest/download/aldis-");
    url.append(platform);
    url.append(".tar.xz");
    url
}

/// The URL that names the latest release.
pub fn latest_release_url(repo: &str) -> (url: String)
    ensures
        url@ == "https://api.github.com/repos/"@ + repo@ + "/releases/latest"@,
{
    let mut url: String = "https://api.github.com/repos/".to_owned();
    url.append(repo);
    url.append("/releases/latest");
    url
}

/// The command that extracts an archive, without its wrapper directory.
pub open spec fn tar_command(archive: Seq<char>, dest_dir: Seq<char>) -> CommandContent {
    builder::plain_command(
        "tar"@,
        seq!["xJf"@, archive, "-C"@, dest_dir, "--strip-components=1"@],
    )
}

/// Extracts `archive` (a `.tar.xz`, as published) into `dest_dir`, stripping
/// the archive's own wrapper directory, and returns the path where the binary is expected.
pub fn extract_binary<R: CommandPort>(command_runner: &mut R, archive: &str, dest_dir: &str) -> (
    binary: Result<String, ReleaseError>)
    ensures
        service::ran_one(
            old(command_runner).history(),
            final(command_runner).history(),
            tar_command(archive@, dest_dir@),
        ),
        extracts(dest_dir@, final(command_runner).history().last().result, binary),
{
    let mut arguments: Vec<String> = Vec::new();
    arguments.push("xJf".to_owned());
    arguments.push(archive.to_owned());
    arguments.push("-C".to_owned());
    arguments.push(dest_dir.to_owned());
    arguments.push("--strip-components=1".to_owned());
    assert(text::texts(arguments@) =~= seq![
        "xJf"@,
        archive@,
        "-C"@,
        dest_dir@,
        "--strip-components=1"@,
    ]);
    let command: BuildCommand = BuildCommand {
        program: "tar".to_owned(),
        arguments,
        current_dir: None,
        stdin: None,
    };
    match command_runner.run(&command) {
        Err(error) => Err(ReleaseError::Extract(error)),
        Ok(output) => if output.success {
            Ok(paths::join(dest_dir, "aldis"))
        } else {
            Err(ReleaseError::ExtractFailed(output.trimmed_error()))
        },
    }
}

/// An extracted archive is of use only where the binary is in it.
pub fn require_binary(binary: String, present: bool) -> (found: Result<String, ReleaseError>)
    ensures
        found == binary_found(binary, present),
{
    if present {
        Ok(binary)
    } else {
        Err(ReleaseError::MissingBinary)
    }
}

/// How far an install has come; each stage asks for one operation.
#[derive(Debug, PartialEq, Eq)]
pub enum InstallStage {
    /// The new binary is to be copied to the staged path.
    Copy,
    /// The staged file's permissions are to be read.
    ReadMode,
    /// The staged file's permissions are to be set.
    SetMode(u32),
    /// The staged file is to be renamed over the running executable.
    Rename,
    /// Nothing is left to do.
    Finished(Result<(), ReleaseError>),
}

/// One install under way.
#[derive(Debug, PartialEq, Eq)]
pub struct InstallRun {
    /// The new binary.
    pub new_binary: String,
    /// The staged copy, in the directory of the running executable.
    pub staged: String,
    /// The running executable.
    pub current_exe: String,
    /// How far the install has come.
    pub stage: InstallStage,
}

/// The outcome of an install's pending operation.
#[derive(Clone, Debug, PartialEq, Eq)]
pub enum InstallEvent {
    /// The operation succeeded.
    Done,
    /// The permissions of the file.
    Mode(u32),
    /// The operation failed.
    Failed(IoFailure),
}

/// Whether `run` is where an install begins, given the directory of the running executable.
pub open spec fn install_begins(
    new_binary: String,
    current_exe: String,
    parent: Option<Seq<char>>,
    run: InstallRun,
) -> bool {
    &&& run.new_binary == new_binary
    &&& run.current_exe == current_exe
    &&& match parent {
        Some(parent) => run.staged@ == paths::joined_path(parent, ".aldis.new"@) && run.stage
            == InstallStage::Copy,
        None => {
            &&& run.stage is Finished
            &&& run.stage->Finished_0 is Err
            &&& run.stage->Finished_0->Err_0 is Install
            &&& run.stage->Finished_0->Err_0->Install_0.message@
                == "current executable has no parent directory"@
        },
    }
}

/// Begins an install in the given directory of the running executable.
pub fn install_in(new_binary: String, current_exe: String, parent: Option<String>) -> (run:
    InstallRun)
    ensures
        install_begins(
            new_binary,
            current_exe,
            match parent {
                Some(parent) => Some(parent@),
                None => None,
            },
            run,
        ),
{
    match parent {
        Some(parent) => {
            let staged: String = paths::join(parent.as_str(), ".aldis.new");
            InstallRun { new_binary, staged, current_exe, stage: InstallStage::Copy }
        },
        None => {
            let failure: IoFailure = IoFailure {
                message: "current executable has no parent directory".to_owned(),
            };
            InstallRun {
                new_binary,
                staged: String::new(),
                current_exe,
                stage: InstallStage::Finished(Err(ReleaseError::Install(failure))),
            }
        },
    }
}

/// Begins to replace `current_exe` with `new_binary` atomically: a copy is staged
/// alongside it (same directory, so the final rename is atomic and stays on
/// one filesystem), marked executable, then renamed into place. Safe
/// even while `current_exe` is the file backing the running process — Linux
/// keeps its old inode mapped until the process exits.
pub fn install_binary(new_binary: String, current_exe: String) -> (run: InstallRun)
    ensures
        install_begins(new_binary, current_exe, paths::parent_path(current_exe@), run),
{
    let parent: Option<String> = paths::parent(current_exe.as_str());
    install_in(new_binary, current_exe, parent)
}

impl InstallRun {
    /// How an install goes on. An outcome that does not answer the pending operation changes
    /// nothing.
    pub open spec fn after(self, event: InstallEvent) -> Self {
        let stage = match (self.stage, event) {
            (InstallStage::Finished(result), _) => InstallStage::Finished(result),
            (_, InstallEvent::Failed(failure)) => InstallStage::Finished(
                Err(ReleaseError::Install(failure)),
            ),
            (InstallStage::Copy, InstallEvent::Done) => InstallStage::ReadMode,
            (InstallStage::ReadMode, InstallEvent::Mode(mode)) => InstallStage::SetMode(
                mode | 0o111u32,
            ),
            (InstallStage::SetMode(_), InstallEvent::Done) => InstallStage::Rename,
            (InstallStage::Rename, InstallEvent::Done) => InstallStage::Finished(Ok(())),
            (stage, _) => stage,
        };
        InstallRun { stage, ..self }
    }

    /// Goes on with the outcome of the pending operation.
    pub fn step(self, event: InstallEvent) -> (next: Self)
        ensures
            next == self.after(event),
    {
        let InstallRun { new_binary, staged, current_exe, stage } = self;
        let stage: InstallStage = match (stage, event) {
            (InstallStage::Finished(result), _) => InstallStage::Finished(result),
            (_, InstallEvent::Failed(failure)) => InstallStage::Finished(
                Err(ReleaseError::Install(failure)),
            ),
            (InstallStage::Copy, InstallEvent::Done) => InstallStage::ReadMode,
            (InstallStage::ReadMode, InstallEvent::Mode(mode)) => InstallStage::SetMode(
                mode | 0o111u32,
            ),
            (InstallStage::SetMode(_), InstallEvent::Done) => InstallStage::Rename,
            (InstallStage::Rename, InstallEvent::Done) => InstallStage::Finished(Ok(())),
            (stage, _) => stage,
        };
        InstallRun { new_binary, staged, current_exe, stage }
    }
}

/// The running executable is replaced only as the last step: an install that fails before the
/// rename never asks for one.
pub proof fn law_failed_install_leaves_the_executable(run: InstallRun, failure: IoFailure)
    requires
        !(run.stage is Finished),
    ensures
        run.after(InstallEvent::Failed(failure)).stage == InstallStage::Finished(
            Err(ReleaseError::Install(failure)),
        ),
{
}

/// The staged file is executable for everyone before it is renamed, and keeps every permission
/// that it had.
pub proof fn law_installed_binary_is_executable(run: InstallRun, mode: u32)
    requires
        run.stage == InstallStage::ReadMode,
    ensures
        run.after(InstallEvent::Mode(mode)).stage is SetMode,
        run.after(InstallEvent::Mode(mode)).stage->SetMode_0 & 0o111u32 == 0o111u32,
        run.after(InstallEvent::Mode(mode)).stage->SetMode_0 & mode == mode,
        run.after(InstallEvent::Mode(mode)).after(InstallEvent::Done).stage == InstallStage::Rename,
{
    assert((mode | 0o111u32) & 0o111u32 == 0o111u32) by (bit_vector);
    assert((mode | 0o111u32) & mode == mode) by (bit_vector);
}

/// How far a self-update has come; each stage asks for one operation.
#[derive(Debug, PartialEq, Eq)]
pub enum SelfUpdateStage {
    /// The latest release is to be looked up.
    CheckLatest,
    /// The archive for a platform is to be downloaded.
    Download { tag: String, platform: &'static str },
    /// A temporary directory is to be created.
    CreateDirectory { tag: String, archive: Vec<u8> },
    /// The archive is to be written to the directory.
    WriteArchive { tag: String, archive: Vec<u8>, directory: String },
    /// The archive is to be extracted.
    Extract { tag: String, directory: String },
    /// The running executable is to be found.
    LocateSelf { tag: String, binary: String },
    /// The new binary is to be installed.
    Install { tag: String, binary: String, current_exe: String },
    /// Nothing is left to do.
    Finished(Result<(), String>),
}

/// One self-update under way.
#[derive(Debug, PartialEq, Eq)]
pub struct SelfUpdateRun {
    /// The running version.
    pub current: String,
    /// The host's CPU architecture.
    pub arch: String,
    /// Whether a newer release is only reported.
    pub check: bool,
    /// How far the self-update has come.
    pub stage: SelfUpdateStage,
}

/// The outcome of a self-update's pending operation.
#[derive(Debug, PartialEq, Eq)]
pub enum SelfUpdateEvent {
    /// The latest release.
    Latest(Result<LatestRelease, ReleaseError>),
    /// The downloaded archive.
    Downloaded(Result<Vec<u8>, ReleaseError>),
    /// The temporary directory.
    Directory(Result<String, IoFailure>),
    /// The archive was written, or could not be.
    Written(Result<(), IoFailure>),
    /// The extracted binary.
    Extracted(Result<String, ReleaseError>),
    /// The running executable.
    Executable(Result<String, IoFailure>),
    /// The new binary was installed, or could not be.
    Installed(Result<(), ReleaseError>),
}

impl SelfUpdateRun {
    /// This self-update at another stage.
    pub open spec fn at(self, stage: SelfUpdateStage) -> Self {
        SelfUpdateRun { stage, ..self }
    }

    /// Whether `next` is this self-update, ended with an error of the given wording.
    pub open spec fn fails_with(self, next: Self, message: Seq<char>) -> bool {
        &&& next.stage is Finished
        &&& next.stage->Finished_0 is Err
        &&& next.stage->Finished_0->Err_0@ == message
        &&& next == self.at(next.stage)
    }
}

/// Begins a self-update, or a check for one.
pub fn run_self_update(current: String, arch: String, check: bool) -> (begun: (
    SelfUpdateRun,
    Vec<UiOutput>,
))
    ensures
        begun.0 == (SelfUpdateRun { current, arch, check, stage: SelfUpdateStage::CheckLatest }),
        ui::shown(begun.1@) == seq![UiText::Action("checking for a newer aldis release"@)],
{
    let mut outputs: Vec<UiOutput> = Vec::new();
    outputs.push(UiOutput::Action("checking for a newer aldis release".to_owned()));
    assert(ui::shown(outputs@) =~= seq![
        UiText::Action("checking for a newer aldis release"@),
    ]);
    (SelfUpdateRun { current, arch, check, stage: SelfUpdateStage::CheckLatest }, outputs)
}

/// What a self-update does with the latest release: nothing where it already runs or only a check
/// was asked for, else the archive of the host's platform is downloaded.
pub open spec fn considers(
    run: SelfUpdateRun,
    tag: String,
    next: SelfUpdateRun,
    outputs: Seq<UiText>,
) -> bool {
    if version_of(tag@) == run.current@ {
        &&& next == run.at(SelfUpdateStage::Finished(Ok(())))
        &&& outputs == seq![
            UiText::Block("aldis "@ + run.current@ + " is already up to date\n"@),
            UiText::Action("run completed successfully: already up to date"@),
        ]
    } else if run.check {
        &&& next == run.at(SelfUpdateStage::Finished(Ok(())))
        &&& outputs == seq![
            UiText::Block(
                "a newer release is available: "@ + run.current@ + " -> "@ + tag@ + "\n"@,
            ),
            UiText::Action("run completed successfully: update available"@),
        ]
    } else if run.arch@ == "x86_64"@ || run.arch@ == "aarch64"@ {
        &&& next.stage is Download
        &&& next == run.at(next.stage)
        &&& next.stage->Download_tag == tag
        &&& next.stage->platform@ == run.arch@ + "-linux"@
        &&& outputs == seq![UiText::Begin("downloading "@ + tag@)]
    } else {
        &&& run.fails_with(
            next,
            status::in_context(
                "cannot self-update on this platform"@,
                seq![
                    "no published release archive for host architecture "@ + text::quoted(
                        run.arch@,
                    ),
                ],
            ),
        )
        &&& outputs == Seq::<UiText>::empty()
    }
}

/// Whether a self-update goes from `run` to `next` on `event`, and what it shows. An outcome that
/// does not answer the pending operation changes nothing.
pub open spec fn self_update_step(
    run: SelfUpdateRun,
    event: SelfUpdateEvent,
    next: SelfUpdateRun,
    outputs: Seq<UiText>,
) -> bool {
    let quiet = Seq::<UiText>::empty();
    match (run.stage, event) {
        (SelfUpdateStage::CheckLatest, SelfUpdateEvent::Latest(Ok(latest))) => considers(
            run,
            latest.tag,
            next,
            outputs,
        ),
        (SelfUpdateStage::CheckLatest, SelfUpdateEvent::Latest(Err(error))) => run.fails_with(
            next,
            status::in_context("failed to check for a newer release"@, error.chain()),
        ) && outputs == quiet,
        (SelfUpdateStage::Download { tag, .. }, SelfUpdateEvent::Downloaded(Ok(archive))) => next
            == run.at(SelfUpdateStage::CreateDirectory { tag, archive }) && outputs == seq![
            UiText::Success("downloaded "@ + text::decimal(archive@.len()) + " bytes"@),
        ],
        (SelfUpdateStage::Download { .. }, SelfUpdateEvent::Downloaded(Err(error))) =>
        run.fails_with(
            next,
            status::in_context("failed to download the release archive"@, error.chain()),
        ) && outputs == quiet,
        (
            SelfUpdateStage::CreateDirectory { tag, archive },
            SelfUpdateEvent::Directory(Ok(directory)),
        ) => next == run.at(SelfUpdateStage::WriteArchive { tag, archive, directory }) && outputs
            == quiet,
        (SelfUpdateStage::CreateDirectory { .. }, SelfUpdateEvent::Directory(Err(failure))) =>
        run.fails_with(
            next,
            status::in_context("could not create a temporary directory"@, seq![failure.message@]),
        ) && outputs == quiet,
        (
            SelfUpdateStage::WriteArchive { tag, archive, directory },
            SelfUpdateEvent::Written(Ok(_)),
        ) => next == run.at(SelfUpdateStage::Extract { tag, directory }) && outputs == seq![
            UiText::Begin("extracting"@),
        ],
        (SelfUpdateStage::WriteArchive { .. }, SelfUpdateEvent::Written(Err(failure))) =>
        run.fails_with(
            next,
            status::in_context("could not write the downloaded archive"@, seq![failure.message@]),
        ) && outputs == quiet,
        (SelfUpdateStage::Extract { tag, .. }, SelfUpdateEvent::Extracted(Ok(binary))) => next
            == run.at(SelfUpdateStage::LocateSelf { tag, binary }) && outputs == seq![
            UiText::Success("extracted"@),
        ],
        (SelfUpdateStage::Extract { .. }, SelfUpdateEvent::Extracted(Err(error))) => run.fails_with(
            next,
            status::in_context("failed to extract the downloaded archive"@, error.chain()),
        ) && outputs == quiet,
        (
            SelfUpdateStage::LocateSelf { tag, binary },
            SelfUpdateEvent::Executable(Ok(current_exe)),
        ) => next == run.at(SelfUpdateStage::Install { tag, binary, current_exe }) && outputs
            == seq![UiText::Begin("installing"@)],
        (SelfUpdateStage::LocateSelf { .. }, SelfUpdateEvent::Executable(Err(failure))) =>
        run.fails_with(
            next,
            status::in_context(
                "could not determine the running executable's path"@,
                seq![failure.message@],
            ),
        ) && outputs == quiet,
        (SelfUpdateStage::Install { tag, .. }, SelfUpdateEvent::Installed(Ok(_))) => next == run.at(
            SelfUpdateStage::Finished(Ok(())),
        ) && outputs == seq![
            UiText::Success("installed aldis "@ + tag@),
            UiText::Action("run completed successfully"@),
        ],
        (SelfUpdateStage::Install { .. }, SelfUpdateEvent::Installed(Err(error))) => run.fails_with(
            next,
            status::in_context("failed to install the new binary"@, error.chain()),
        ) && outputs == quiet,
        _ => next == run && outputs == quiet,
    }
}

fn failed(context: &str, error: &ReleaseError) -> (stage: SelfUpdateStage)
    ensures
        stage is Finished,
        stage->Finished_0 is Err,
        stage->Finished_0->Err_0@ == status::in_context(context@, error.chain()),
{
    SelfUpdateStage::Finished(Err(with_context(context, &error.messages())))
}

fn failed_io(context: &str, failure: &IoFailure) -> (stage: SelfUpdateStage)
    ensures
        stage is Finished,
        stage->Finished_0 is Err,
        stage->Finished_0->Err_0@ == status::in_context(context@, seq![failure.message@]),
{
    let mut messages: Vec<String> = Vec::new();
    messages.push(failure.message.clone());
    assert(text::texts(messages@) =~= seq![failure.message@]);
    SelfUpdateStage::Finished(Err(with_context(context, &messages)))
}

fn consider(current: &str, arch: &str, check: bool, tag: String, outputs: &mut Vec<UiOutput>) -> (
    stage: SelfUpdateStage)
    requires
        old(outputs)@.len() == 0,
    ensures
        forall|run: SelfUpdateRun|
            run.current@ == current@ && run.arch@ == arch@ && run.check == check
                ==> #[trigger] considers(run, tag, run.at(stage), ui::shown(final(outputs)@)),
{
    assert(ui::shown(outputs@) =~= Seq::empty());
    if is_up_to_date(current, tag.as_str()) {
        let mut message: String = "aldis ".to_owned();
        message.append(current);
        message.append(" is already up to date\n");
        say(outputs, UiOutput::Block(message));
        say(
            outputs,
            UiOutput::Action("run completed successfully: already up to date".to_owned()),
        );
        assert(ui::shown(outputs@) =~= seq![
            UiText::Block("aldis "@ + current@ + " is already up to date\n"@),
            UiText::Action("run completed successfully: already up to date"@),
        ]);
        return SelfUpdateStage::Finished(Ok(()));
    }
    if check {
        let mut message: String = "a newer release is available: ".to_owned();
        message.append(current);
        message.append(" -> ");
        message.append(tag.as_str());
        message.append("\n");
        say(outputs, UiOutput::Block(message));
        say(
            outputs,
            UiOutput::Action("run completed successfully: update available".to_owned()),
        );
        assert(ui::shown(outputs@) =~= seq![
            UiText::Block("a newer release is available: "@ + current@ + " -> "@ + tag@ + "\n"@),
            UiText::Action("run completed successfully: update available"@),
        ]);
        return SelfUpdateStage::Finished(Ok(()));
    }
    match target_platform(arch) {
        Ok(platform) => {
            proof {
                reveal_strlit("x86_64");
                reveal_strlit("x86_64-linux");
                reveal_strlit("aarch64");
                reveal_strlit("aarch64-linux");
                reveal_strlit("-linux");
                assert("x86_64"@ + "-linux"@ =~= "x86_64-linux"@);
                assert("aarch64"@ + "-linux"@ =~= "aarch64-linux"@);
            }
            let mut label: String = "downloading ".to_owned();
            label.append(tag.as_str());
            say(outputs, UiOutput::Begin(label));
            assert(ui::shown(outputs@) =~= seq![UiText::Begin("downloading "@ + tag@)]);
            SelfUpdateStage::Download { tag, platform }
        },
        Err(error) => {
            assert(error.chain() =~= seq![
                "no published release archive for host architecture "@ + text::quoted(arch@),
            ]);
            failed("cannot self-update on this platform", &error)
        },
    }
}

impl SelfUpdateRun {
    /// Goes on with the outcome of the pending operation; gives what is shown.
    pub fn step(self, event: SelfUpdateEvent) -> (stepped: (Self, Vec<UiOutput>))
        ensures
            self_update_step(self, event, stepped.0, ui::shown(stepped.1@)),
    {
        let ghost run = self;
        let mut outputs: Vec<UiOutput> = Vec::new();
        assert(ui::shown(outputs@) =~= Seq::empty());
        let SelfUpdateRun { current, arch, check, stage } = self;
        let next: SelfUpdateStage = match (stage, event) {
            (SelfUpdateStage::CheckLatest, SelfUpdateEvent::Latest(Ok(latest))) => {
                let next: SelfUpdateStage = consider(
                    current.as_str(),
                    arch.as_str(),
                    check,
                    latest.tag,
                    &mut outputs,
                );
                assert(considers(run, latest.tag, run.at(next), ui::shown(outputs@)));
                next
            },
            (SelfUpdateStage::CheckLatest, SelfUpdateEvent::Latest(Err(error))) => failed(
                "failed to check for a newer release",
                &error,
            ),
            (SelfUpdateStage::Download { tag, .. }, SelfUpdateEvent::Downloaded(Ok(archive))) => {
                let mut message: String = "downloaded ".to_owned();
                message.append(text::decimal_text(archive.len() as u64).as_str());
                message.append(" bytes");
                say(&mut outputs, UiOutput::Success(message));
                assert(ui::shown(outputs@) =~= seq![
                    UiText::Success("downloaded "@ + text::decimal(archive@.len()) + " bytes"@),
                ]);
                SelfUpdateStage::CreateDirectory { tag, archive }
            },
            (SelfUpdateStage::Download { .. }, SelfUpdateEvent::Downloaded(Err(error))) => failed(
                "failed to download the release archive",
                &error,
            ),
            (
                SelfUpdateStage::CreateDirectory { tag, archive },
                SelfUpdateEvent::Directory(Ok(directory)),
            ) => SelfUpdateStage::WriteArchive { tag, archive, directory },
            (SelfUpdateStage::CreateDirectory { .. }, SelfUpdateEvent::Directory(Err(failure))) =>
            failed_io("could not create a temporary directory", &failure),
            (
                SelfUpdateStage::WriteArchive { tag, directory, .. },
                SelfUpdateEvent::Written(Ok(_)),
            ) => {
                say(&mut outputs, UiOutput::Begin("extracting".to_owned()));
                assert(ui::shown(outputs@) =~= seq![UiText::Begin("extracting"@)]);
                SelfUpdateStage::Extract { tag, directory }
            },
            (SelfUpdateStage::WriteArchive { .. }, SelfUpdateEvent::Written(Err(failure))) =>
            failed_io("could not write the downloaded archive", &failure),
            (SelfUpdateStage::Extract { tag, .. }, SelfUpdateEvent::Extracted(Ok(binary))) => {
                say(&mut outputs, UiOutput::Success("extracted".to_owned()));
                assert(ui::shown(outputs@) =~= seq![UiText::Success("extracted"@)]);
                SelfUpdateStage::LocateSelf { tag, binary }
            },
            (SelfUpdateStage::Extract { .. }, SelfUpdateEvent::Extracted(Err(error))) => failed(
                "failed to extract the downloaded archive",
                &error,
            ),
            (
                SelfUpdateStage::LocateSelf { tag, binary },
                SelfUpdateEvent::Executable(Ok(current_exe)),
            ) => {
                say(&mut outputs, UiOutput::Begin("installing".to_owned()));
                assert(ui::shown(outputs@) =~= seq![UiText::Begin("installing"@)]);
                SelfUpdateStage::Install { tag, binary, current_exe }
            },
            (SelfUpdateStage::LocateSelf { .. }, SelfUpdateEvent::Executable(Err(failure))) =>
            failed_io("could not determine the running executable's path", &failure),
            (SelfUpdateStage::Install { tag, .. }, SelfUpdateEvent::Installed(Ok(_))) => {
                let mut message: String = "installed aldis ".to_owned();
                message.append(tag.as_str());
                say(&mut outputs, UiOutput::Success(message));
                say(&mut outputs, UiOutput::Action("run completed successfully".to_owned()));
                assert(ui::shown(outputs@) =~= seq![
                    UiText::Success("installed aldis "@ + tag@),
                    UiText::Action("run completed successfully"@),
                ]);
                SelfUpdateStage::Finished(Ok(()))
            },
            (SelfUpdateStage::Install { .. }, SelfUpdateEvent::Installed(Err(error))) => failed(
                "failed to install the new binary",
                &error,
            ),
            (stage, _) => stage,
        };
        (SelfUpdateRun { current, arch, check, stage: next }, outputs)
    }
}

/// A check never changes anything: whatever the latest release is, it ends without a download.
pub proof fn law_check_only_reports(
    run: SelfUpdateRun,
    latest: LatestRelease,
    next: SelfUpdateRun,
    outputs: Seq<UiText>,
)
    requires
        run.check,
        run.stage == SelfUpdateStage::CheckLatest,
        self_update_step(run, SelfUpdateEvent::Latest(Ok(latest)), next, outputs),
    ensures
        next.stage == SelfUpdateStage::Finished(Ok(())),
{
}

/// A version is up to date with its own tag, with or without the `v` in front.
pub proof fn law_own_tag_is_up_to_date(version: Seq<char>)
    requires
        version.len() > 0 ==> version[0] != 'v',
    ensures
        version_of(version) == version,
        version_of(seq!['v'] + version) == version,
{
    assert((seq!['v'] + version).skip(1) =~= version);
}

/// The platform name in the archives of a host architecture, where there are any.
pub open spec fn platform_of(arch: Seq<char>) -> Option<Seq<char>> {
    if arch == "x86_64"@ {
        Some("x86_64-linux"@)
    } else if arch == "aarch64"@ {
        Some("aarch64-linux"@)
    } else {
        None
    }
}

/// Where the archive of the latest release for a platform is.
pub open spec fn archive_url(repo: Seq<char>, platform: Seq<char>) -> Seq<char> {
    "https://github.com/"@ + repo + "/releases/latest/download/aldis-"@ + platform + ".tar.xz"@
}

/// Whether `binary` is what an extraction that came out as `result` left.
pub open spec fn extracts(
    dest_dir: Seq<char>,
    result: Result<CommandOutput, CommandError>,
    binary: Result<String, ReleaseError>,
) -> bool {
    match (result, binary) {
        (Err(error), Err(ReleaseError::Extract(reported))) => reported == error,
        (Ok(output), Err(ReleaseError::ExtractFailed(stderr))) => !output.success && stderr@
            == output.error_text(),
        (Ok(output), Ok(path)) => output.success && path@ == paths::joined_path(
            dest_dir,
            "aldis"@,
        ),
        _ => false,
    }
}

/// The extracted binary, where there is one.
pub open spec fn binary_found(binary: String, present: bool) -> Result<String, ReleaseError> {
    if present {
        Ok(binary)
    } else {
        Err(ReleaseError::MissingBinary)
    }
}

/// The version of a tag is what follows its leading letters `v`, and it begins with none.
pub proof fn law_version_follows_the_leading_v(tag: Seq<char>)
    ensures
        version_of(tag).is_suffix_of(tag),
        version_of(tag).len() > 0 ==> version_of(tag)[0] != 'v',
        forall|i: int| 0 <= i < tag.len() - version_of(tag).len() ==> #[trigger] tag[i] == 'v',
        version_of(seq!['v'] + tag) == version_of(tag),
    decreases tag.len(),
{
    assert((seq!['v'] + tag).skip(1) =~= tag);
    if tag.len() > 0 && tag[0] == 'v' {
        let rest = tag.skip(1);
        law_version_follows_the_leading_v(rest);
        assert forall|i: int| 0 <= i < tag.len() - version_of(tag).len() implies #[trigger] tag[i]
            == 'v' by {
            if i > 0 {
                assert(rest[i - 1] == tag[i]);
            }
        }
        assert(version_of(tag) =~= tag.skip(tag.len() - version_of(tag).len())) by {
            assert(rest.skip(rest.len() - version_of(rest).len()) =~= tag.skip(
                tag.len() - version_of(tag).len(),
            ));
        }
    } else {
        assert(tag =~= tag.skip(0));
    }
}

/// There are archives for x86-64 and AArch64 alone, and each is named by its architecture.
pub proof fn law_platform_is_named_by_the_architecture(arch: Seq<char>)
    ensures
        platform_of(arch) is Some <==> arch == "x86_64"@ || arch == "aarch64"@,
        platform_of(arch) is Some ==> platform_of(arch)->Some_0 == arch + "-linux"@,
{
    reveal_strlit("x86_64");
    reveal_strlit("x86_64-linux");
    reveal_strlit("aarch64");
    reveal_strlit("aarch64-linux");
    reveal_strlit("-linux");
    assert("x86_64"@ + "-linux"@ =~= "x86_64-linux"@);
    assert("aarch64"@ + "-linux"@ =~= "aarch64-linux"@);
}

/// Two archives have one address only if their repositories and platforms, put together, read the
/// same; in one repository each platform has an archive of its own.
pub proof fn law_every_platform_has_its_own_archive(
    repo: Seq<char>,
    platform: Seq<char>,
    other: Seq<char>,
)
    requires
        archive_url(repo, platform) == archive_url(repo, other),
    ensures
        platform == other,
{
    let head = "https://github.com/"@ + repo + "/releases/latest/download/aldis-"@;
    let left = archive_url(repo, platform);
    let right = archive_url(repo, other);
    assert(left.len() == head.len() + platform.len() + ".tar.xz"@.len());
    assert(right.len() == head.len() + other.len() + ".tar.xz"@.len());
    assert(left.subrange(head.len() as int, (head.len() + platform.len()) as int) =~= platform);
    assert(right.subrange(head.len() as int, (head.len() + other.len()) as int) =~= other);
}

/// The archive is unpacked by `tar` into the given directory, without the directory that it holds.
/// If that succeeds the binary is `aldis` there.
pub proof fn law_archive_is_unpacked_into_the_directory(
    archive: Seq<char>,
    dest_dir: Seq<char>,
    result: Result<CommandOutput, CommandError>,
    binary: Result<String, ReleaseError>,
)
    requires
        extracts(dest_dir, result, binary),
    ensures
        tar_command(archive, dest_dir).program == "tar"@,
        tar_command(archive, dest_dir).arguments == seq![
            "xJf"@,
            archive,
            "-C"@,
            dest_dir,
            "--strip-components=1"@,
        ],
        binary is Ok <==> result is Ok && result->Ok_0.success,
        binary is Ok ==> binary->Ok_0@ == paths::joined_path(dest_dir, "aldis"@),
        result is Ok && !result->Ok_0.success ==> binary->Err_0->ExtractFailed_0@
            == result->Ok_0.error_text(),
{
}

/// A binary that is there is used as it is, and one that is not is an error.
pub proof fn law_missing_binary_is_not_installed(binary: String, present: bool)
    ensures
        binary_found(binary, present) is Ok <==> present,
        present ==> binary_found(binary, present)->Ok_0 == binary,
        !present ==> binary_found(binary, present)->Err_0 is MissingBinary,
{
}

/// An install copies the binary beside the executable, reads the mode of the copy, makes it
/// executable, and puts it in the executable's place. It is done only then.
pub proof fn law_install_goes_through_every_stage(run: InstallRun, mode: u32, event: InstallEvent)
    requires
        run.stage is Copy,
    ensures
        ({
            let copied = run.after(InstallEvent::Done);
            let read = copied.after(InstallEvent::Mode(mode));
            let set = read.after(InstallEvent::Done);
            let renamed = set.after(InstallEvent::Done);
            &&& copied.stage is ReadMode
            &&& read.stage is SetMode
            &&& set.stage is Rename
            &&& renamed.stage == InstallStage::Finished(Ok(()))
            &&& renamed.new_binary == run.new_binary
            &&& renamed.staged == run.staged
            &&& renamed.current_exe == run.current_exe
        }),
        run.after(event).stage is Finished ==> event is Failed,
{
}

/// An install is staged as `.aldis.new` beside the executable that it replaces, and ends at once
/// where that has no directory.
pub proof fn law_install_is_staged_beside_the_executable(
    new_binary: String,
    current_exe: String,
    parent: Option<Seq<char>>,
    run: InstallRun,
)
    requires
        install_begins(new_binary, current_exe, parent, run),
    ensures
        run.new_binary == new_binary,
        run.current_exe == current_exe,
        parent is Some <==> run.stage is Copy,
        parent is Some ==> run.staged@ == paths::joined_path(parent->Some_0, ".aldis.new"@),
        parent is None ==> run.stage is Finished && run.stage->Finished_0 is Err,
{
}

/// A newer release is downloaded for this host's architecture. A release of this version is not
/// downloaded, nor is any where only a check was asked for or there is no archive for this host.
pub proof fn law_only_newer_releases_are_downloaded(
    run: SelfUpdateRun,
    latest: LatestRelease,
    next: SelfUpdateRun,
    outputs: Seq<UiText>,
)
    requires
        run.stage is CheckLatest,
        self_update_step(run, SelfUpdateEvent::Latest(Ok(latest)), next, outputs),
    ensures
        next.stage is Download <==> version_of(latest.tag@) != run.current@ && !run.check
            && platform_of(run.arch@) is Some,
        next.stage is Download ==> next.stage->Download_tag == latest.tag && platform_of(run.arch@)
            == Some(next.stage->platform@),
        version_of(latest.tag@) == run.current@ ==> next.stage == SelfUpdateStage::Finished(Ok(())),
        !(next.stage is Download) ==> next.stage is Finished,
        next.current == run.current && next.arch == run.arch && next.check == run.check,
{
    law_platform_is_named_by_the_architecture(run.arch@);
}

/// What was downloaded is written, unpacked and installed, each from what the stage before it
/// left, and the update succeeds only once the binary was installed.
pub proof fn law_downloaded_release_is_installed(
    run: SelfUpdateRun,
    event: SelfUpdateEvent,
    next: SelfUpdateRun,
    outputs: Seq<UiText>,
)
    requires
        self_update_step(run, event, next, outputs),
        !(run.stage is CheckLatest),
        !(run.stage is Finished),
    ensures
        run.stage matches SelfUpdateStage::Download { tag, platform } ==> (event
            matches SelfUpdateEvent::Downloaded(Ok(archive)) ==> next.stage == (
        SelfUpdateStage::CreateDirectory { tag, archive })),
        run.stage matches SelfUpdateStage::CreateDirectory { tag, archive } ==> (event
            matches SelfUpdateEvent::Directory(Ok(directory)) ==> next.stage == (
        SelfUpdateStage::WriteArchive { tag, archive, directory })),
        run.stage matches SelfUpdateStage::WriteArchive { tag, archive, directory } ==> (event
            is Written && event->Written_0 is Ok ==> next.stage == (SelfUpdateStage::Extract {
            tag,
            directory,
        })),
        run.stage matches SelfUpdateStage::Extract { tag, directory } ==> (event
            matches SelfUpdateEvent::Extracted(Ok(binary)) ==> next.stage == (
        SelfUpdateStage::LocateSelf { tag, binary })),
        run.stage matches SelfUpdateStage::LocateSelf { tag, binary } ==> (event
            matches SelfUpdateEvent::Executable(Ok(current_exe)) ==> next.stage == (
        SelfUpdateStage::Install { tag, binary, current_exe })),
        next.stage == SelfUpdateStage::Finished(Ok(())) <==> run.stage is Install && event
            is Installed && event->Installed_0 is Ok,
        next.stage is Finished && next.stage->Finished_0 is Err ==> outputs.len() == 0,
{
}

/// A stage that fails ends the update with an error, so that nothing after it is done.
pub proof fn law_failed_stage_ends_the_update(
    run: SelfUpdateRun,
    event: SelfUpdateEvent,
    next: SelfUpdateRun,
    outputs: Seq<UiText>,
)
    requires
        self_update_step(run, event, next, outputs),
    ensures
        ({
            let failed = next.stage is Finished && next.stage->Finished_0 is Err;
            &&& run.stage is CheckLatest && event is Latest && event->Latest_0 is Err ==> failed
            &&& run.stage is Download && event is Downloaded && event->Downloaded_0 is Err ==> failed
            &&& run.stage is CreateDirectory && event is Directory && event->Directory_0 is Err
                ==> failed
            &&& run.stage is WriteArchive && event is Written && event->Written_0 is Err ==> failed
            &&& run.stage is Extract && event is Extracted && event->Extracted_0 is Err ==> failed
            &&& run.stage is LocateSelf && event is Executable && event->Executable_0 is Err
                ==> failed
            &&& run.stage is Install && event is Installed && event->Installed_0 is Err ==> failed
            &&& run.stage is Finished ==> next == run && outputs.len() == 0
        }),
{
}

} // verus!
