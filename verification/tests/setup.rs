//! Host permission setup.
use aldis::failure::IoFailure;
use aldis::setup::{
    check_setup, install_setup, setup_check_report, setup_install_report, sudo_policy_allows_service_status,
    sudoers_policy, valid_user_name, SetupEvent, SetupRun, SetupStage,
};

#[test]
fn recognizes_a_permitted_inactive_klipper_status() {
    assert!(sudo_policy_allows_service_status(b"inactive\n"));
    assert!(!sudo_policy_allows_service_status(
        b"sudo: a password is required\n"
    ));
}

#[test]
fn reports_each_setup_prerequisite() {
    assert_eq!(
        setup_check_report(true, false),
        "aldis setup:\n  udev rules: ready\n  Klipper service access: unavailable"
    );
}

#[test]
fn reports_setup_install_actions() {
    assert_eq!(
        setup_install_report("already current", "installed"),
        "aldis setup:\n  udev rules: already current\n  service policy: installed\n  service policy permissions: set to 0440\n  udev rules: reloaded and triggered"
    );
}

#[test]
fn output_that_is_not_utf8_shows_no_permission() {
    assert!(!sudo_policy_allows_service_status(b"active\xff"));
    assert!(sudo_policy_allows_service_status(b" reloading "));
}

#[test]
fn permits_exactly_the_privileged_commands() {
    assert_eq!(
        sudoers_policy("pi"),
        "pi ALL=(root) NOPASSWD: /bin/systemctl is-active klipper, \
         /bin/systemctl stop klipper, /bin/systemctl start klipper, \
         /usr/bin/install -m 0755 /dev/stdin /usr/local/bin/klipper_mcu, \
         /bin/systemctl restart klipper-mcu\n"
    );
}

#[test]
fn accepts_only_plain_account_names() {
    assert!(valid_user_name("pi"));
    assert!(valid_user_name("klipper_user-1"));
    assert!(!valid_user_name(""));
    assert!(!valid_user_name("pi ALL"));
    assert!(!valid_user_name("p\u{ed}"));
}

fn begin() -> SetupRun {
    match install_setup(&Some("pi".to_owned()), "rules\n".to_owned()) {
        Ok(run) => run,
        Err(error) => panic!("{error}"),
    }
}

fn exited(success: bool) -> SetupEvent {
    SetupEvent::Exited {
        success,
        status: "exit status: 1".to_owned(),
    }
}

#[test]
fn must_run_through_sudo() {
    assert_eq!(
        install_setup(&None, String::new()).unwrap_err(),
        "setup must be run with sudo; run: sudo aldis setup"
    );
    assert_eq!(
        install_setup(&Some("a b".to_owned()), String::new()).unwrap_err(),
        "SUDO_USER is not a valid account name"
    );
}

#[test]
fn installs_both_files_and_reloads() {
    let run = begin().step(SetupEvent::Content(None));
    assert_eq!(run.stage, SetupStage::WriteRules);
    let run = run.step(SetupEvent::Done);
    let run = run.step(SetupEvent::Content(Some("old".to_owned())));
    assert!(matches!(run.stage, SetupStage::StagePolicy { .. }));
    let run = run.step(SetupEvent::Done).step(SetupEvent::Done).step(SetupEvent::Done);
    assert!(matches!(run.stage, SetupStage::ValidateStaged { .. }));
    let run = run.step(exited(true)).step(SetupEvent::Done).step(SetupEvent::Done);
    assert!(matches!(run.stage, SetupStage::ReloadRules { .. }));
    let run = run.step(exited(true)).step(exited(true));
    assert_eq!(
        run.stage,
        SetupStage::Finished(Ok(setup_install_report("installed", "installed")))
    );
}

#[test]
fn leaves_current_files_alone() {
    let run = begin();
    let policy = run.policy.clone();
    let run = run.step(SetupEvent::Content(Some("rules\n".to_owned())));
    assert!(matches!(run.stage, SetupStage::ReadPolicy { .. }));
    let run = run.step(SetupEvent::Content(Some(policy)));
    assert!(matches!(run.stage, SetupStage::ProtectPolicy { .. }));
    let run = run.step(SetupEvent::Done).step(exited(true)).step(exited(true));
    assert_eq!(
        run.stage,
        SetupStage::Finished(Ok(setup_install_report("already current", "already current")))
    );
}

#[test]
fn never_installs_a_policy_that_visudo_rejects() {
    let run = begin()
        .step(SetupEvent::Content(Some("rules\n".to_owned())))
        .step(SetupEvent::Content(None))
        .step(SetupEvent::Done)
        .step(SetupEvent::Done)
        .step(SetupEvent::Done)
        .step(exited(false));
    assert_eq!(
        run.stage,
        SetupStage::Finished(Err(
            "staged service policy failed visudo validation: visudo exited with exit status: 1"
                .to_owned()
        ))
    );
}

#[test]
fn names_the_step_that_failed() {
    let run = begin()
        .step(SetupEvent::Content(None))
        .step(SetupEvent::Failed(IoFailure {
            message: "read-only".to_owned(),
        }));
    assert_eq!(
        run.stage,
        SetupStage::Finished(Err("could not install udev rules: read-only".to_owned()))
    );
}

#[test]
fn checks_the_rules_and_the_policy() {
    let (report, error) = check_setup(
        &Some("rules\n".to_owned()),
        "rules\n",
        &Some(b"active\n".to_vec()),
    );
    assert_eq!(report, setup_check_report(true, true));
    assert_eq!(error, None);

    let (report, error) = check_setup(&None, "rules\n", &None);
    assert_eq!(report, setup_check_report(false, false));
    assert_eq!(
        error.unwrap(),
        "aldis setup is incomplete; run sudo aldis setup"
    );
}
