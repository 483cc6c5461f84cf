//! Self-updates.
use aldis::builder::{BuildCommand, CommandError, CommandOutput, CommandPort};
use aldis::failure::IoFailure;
use aldis::self_update::{
    download_url, extract_binary, install_binary, install_in, is_up_to_date, latest_release_url,
    require_binary, run_self_update, target_platform, InstallEvent, InstallStage, LatestRelease,
    ReleaseError, SelfUpdateEvent, SelfUpdateStage,
};
use aldis::ui::UiOutput;

#[test]
fn matches_a_tag_with_or_without_its_v_prefix() {
    assert!(is_up_to_date("0.2.3", "v0.2.3"));
    assert!(!is_up_to_date("0.2.2", "v0.2.3"));
}

#[test]
fn maps_supported_host_architectures_to_release_platform_names() {
    assert_eq!(target_platform("x86_64").unwrap(), "x86_64-linux");
    assert_eq!(target_platform("aarch64").unwrap(), "aarch64-linux");
    assert!(target_platform("riscv64").is_err());
}

#[test]
fn a_bare_version_is_its_own_tag() {
    assert!(is_up_to_date("0.2.3", "0.2.3"));
}

#[test]
fn spells_the_release_urls() {
    assert_eq!(
        download_url("mjonuschat/aldis", "x86_64-linux"),
        "https://github.com/mjonuschat/aldis/releases/latest/download/aldis-x86_64-linux.tar.xz"
    );
    assert_eq!(
        latest_release_url("mjonuschat/aldis"),
        "https://api.github.com/repos/mjonuschat/aldis/releases/latest"
    );
}

struct Tar {
    result: Option<Result<CommandOutput, CommandError>>,
    command: String,
}

impl CommandPort for Tar {
    fn run(&mut self, command: &BuildCommand) -> Result<CommandOutput, CommandError> {
        self.command = format!("{} {}", command.program, command.arguments.join(" "));
        self.result.take().expect("one command")
    }
}

fn tar(result: Result<CommandOutput, CommandError>) -> Tar {
    Tar {
        result: Some(result),
        command: String::new(),
    }
}

#[test]
fn extracts_without_the_wrapper_directory() {
    let mut runner = tar(Ok(CommandOutput::success()));
    assert_eq!(
        extract_binary(&mut runner, "/tmp/a.tar.xz", "/tmp/d").unwrap(),
        "/tmp/d/aldis"
    );
    assert_eq!(
        runner.command,
        "tar xJf /tmp/a.tar.xz -C /tmp/d --strip-components=1"
    );
    assert_eq!(require_binary("/tmp/d/aldis".to_owned(), true).unwrap(), "/tmp/d/aldis");
    assert!(matches!(
        require_binary("/tmp/d/aldis".to_owned(), false),
        Err(ReleaseError::MissingBinary)
    ));
}

#[test]
fn reports_tars_own_words() {
    let mut runner = tar(Ok(CommandOutput {
        success: false,
        stdout: Vec::new(),
        stderr: b"not an archive \xff\n".to_vec(),
    }));
    let error = extract_binary(&mut runner, "/tmp/a", "/tmp/d").unwrap_err();
    assert_eq!(error.message(), "tar failed: not an archive \u{fffd}");

    let mut runner = tar(Err(CommandError::Spawn(IoFailure {
        message: "no tar".to_owned(),
    })));
    let error = extract_binary(&mut runner, "/tmp/a", "/tmp/d").unwrap_err();
    assert_eq!(
        error.messages(),
        [
            "could not extract the downloaded archive",
            "could not run build command",
            "no tar"
        ]
    );
}

#[test]
fn stages_the_binary_beside_the_running_one() {
    let run = install_binary("/tmp/d/aldis".to_owned(), "/home/pi/aldis/aldis".to_owned());
    assert_eq!(run.staged, "/home/pi/aldis/.aldis.new");
    assert_eq!(run.stage, InstallStage::Copy);

    let run = run.step(InstallEvent::Done);
    assert_eq!(run.stage, InstallStage::ReadMode);
    let run = run.step(InstallEvent::Mode(0o644));
    assert_eq!(run.stage, InstallStage::SetMode(0o755));
    let run = run.step(InstallEvent::Done);
    assert_eq!(run.stage, InstallStage::Rename);
    let run = run.step(InstallEvent::Done);
    assert_eq!(run.stage, InstallStage::Finished(Ok(())));
}

#[test]
fn a_failed_install_never_renames() {
    let run = install_in("a".to_owned(), "b".to_owned(), Some("/d".to_owned()));
    let run = run.step(InstallEvent::Failed(IoFailure {
        message: "disk full".to_owned(),
    }));
    assert!(matches!(
        &run.stage,
        InstallStage::Finished(Err(ReleaseError::Install(_)))
    ));
    let run = run.step(InstallEvent::Done);
    assert!(matches!(&run.stage, InstallStage::Finished(Err(_))));

    let rootless = install_binary("a".to_owned(), "/".to_owned());
    match rootless.stage {
        InstallStage::Finished(Err(error)) => assert_eq!(
            error.messages(),
            [
                "could not install the new binary",
                "current executable has no parent directory"
            ]
        ),
        _ => panic!("a root has no parent"),
    }
}

fn latest(tag: &str) -> SelfUpdateEvent {
    SelfUpdateEvent::Latest(Ok(LatestRelease {
        tag: tag.to_owned(),
    }))
}

#[test]
fn does_nothing_when_already_current() {
    let (run, first) = run_self_update("0.2.3".to_owned(), "x86_64".to_owned(), false);
    assert_eq!(
        first,
        [UiOutput::Action("checking for a newer aldis release".to_owned())]
    );
    let (run, outputs) = run.step(latest("v0.2.3"));
    assert_eq!(run.stage, SelfUpdateStage::Finished(Ok(())));
    assert_eq!(
        outputs[0],
        UiOutput::Block("aldis 0.2.3 is already up to date\n".to_owned())
    );
}

#[test]
fn a_check_only_reports() {
    let (run, _) = run_self_update("0.2.3".to_owned(), "x86_64".to_owned(), true);
    let (run, outputs) = run.step(latest("v0.3.0"));
    assert_eq!(run.stage, SelfUpdateStage::Finished(Ok(())));
    assert_eq!(
        outputs[0],
        UiOutput::Block("a newer release is available: 0.2.3 -> v0.3.0\n".to_owned())
    );
}

#[test]
fn downloads_extracts_and_installs() {
    let (run, _) = run_self_update("0.2.3".to_owned(), "aarch64".to_owned(), false);
    let (run, outputs) = run.step(latest("v0.3.0"));
    assert_eq!(outputs, [UiOutput::Begin("downloading v0.3.0".to_owned())]);
    assert!(matches!(
        run.stage,
        SelfUpdateStage::Download {
            platform: "aarch64-linux",
            ..
        }
    ));
    let (run, outputs) = run.step(SelfUpdateEvent::Downloaded(Ok(vec![0; 5])));
    assert_eq!(outputs, [UiOutput::Success("downloaded 5 bytes".to_owned())]);
    let (run, _) = run.step(SelfUpdateEvent::Directory(Ok("/tmp/d".to_owned())));
    let (run, outputs) = run.step(SelfUpdateEvent::Written(Ok(())));
    assert_eq!(outputs, [UiOutput::Begin("extracting".to_owned())]);
    let (run, _) = run.step(SelfUpdateEvent::Extracted(Ok("/tmp/d/aldis".to_owned())));
    let (run, _) = run.step(SelfUpdateEvent::Executable(Ok("/home/pi/aldis".to_owned())));
    assert!(matches!(run.stage, SelfUpdateStage::Install { .. }));
    let (run, outputs) = run.step(SelfUpdateEvent::Installed(Ok(())));
    assert_eq!(run.stage, SelfUpdateStage::Finished(Ok(())));
    assert_eq!(outputs[0], UiOutput::Success("installed aldis v0.3.0".to_owned()));
}

#[test]
fn words_every_failed_step() {
    let begin = || run_self_update("0.2.3".to_owned(), "riscv64".to_owned(), false).0;
    let failed = |stage: SelfUpdateStage| match stage {
        SelfUpdateStage::Finished(Err(message)) => message,
        _ => panic!("expected a failure"),
    };
    let (run, _) = begin().step(SelfUpdateEvent::Latest(Err(ReleaseError::Http(
        "timeout".to_owned(),
    ))));
    assert_eq!(
        failed(run.stage),
        "failed to check for a newer release: GitHub request failed: timeout"
    );
    let (run, _) = begin().step(SelfUpdateEvent::Latest(Err(ReleaseError::Json(
        "eof".to_owned(),
    ))));
    assert_eq!(
        failed(run.stage),
        "failed to check for a newer release: GitHub returned invalid JSON: eof"
    );
    let (run, _) = begin().step(latest("v0.3.0"));
    assert_eq!(
        failed(run.stage),
        "cannot self-update on this platform: \
         no published release archive for host architecture \"riscv64\""
    );
}
