//! Host permission setup: udev rules and the sudoers policy for the Klipper service.
use vstd::prelude::*;

use crate::failure::IoFailure;
use crate::flash::linux_host;
use crate::flash::linux_host::InstallStep;
use crate::service;
use crate::text;

verus! {

/// Where the udev rules are installed.
pub const UDEV_RULES_PATH: &'static str = "/etc/udev/rules.d/80-aldis.rules";

/// Where the sudoers policy is installed.
pub const SUDOERS_PATH: &'static str = "/etc/sudoers.d/aldis";

/// The permissions of the sudoers policy.
pub const SUDOERS_MODE: u32 = 0o440;

/// The commands that the policy lets a user run as root without a password.
pub open spec fn permitted_commands() -> Seq<Seq<char>> {
    seq![
        "/bin/systemctl is-active klipper"@,
        "/bin/systemctl stop klipper"@,
        "/bin/systemctl start klipper"@,
        "/usr/bin/install -m 0755 /dev/stdin /usr/local/bin/klipper_mcu"@,
        "/bin/systemctl restart klipper-mcu"@,
    ]
}

/// The sudoers policy of a user.
pub open spec fn policy_text(user: Seq<char>) -> Seq<char> {
    user + " ALL=(root) NOPASSWD: "@ + text::joined(permitted_commands(), ", "@) + "\n"@
}

/// The sudoers policy of a user: Klipper's service, and the install of the Linux host MCU.
pub fn sudoers_policy(user: &str) -> (policy: String)
    ensures
        policy@ == policy_text(user@),
{
    let mut commands: Vec<String> = Vec::new();
    commands.push("/bin/systemctl is-active klipper".to_owned());
    commands.push("/bin/systemctl stop klipper".to_owned());
    commands.push("/bin/systemctl start klipper".to_owned());
    commands.push("/usr/bin/install -m 0755 /dev/stdin /usr/local/bin/klipper_mcu".to_owned());
    commands.push("/bin/systemctl restart klipper-mcu".to_owned());
    assert(text::texts(commands@) =~= permitted_commands());
    let mut policy: String = user.to_owned();
    policy.append(" ALL=(root) NOPASSWD: ");
    policy.append(text::join(&commands, ", ").as_str());
    policy.append("\n");
    policy
}

/// Whether a character may stand in an account name.
pub open spec fn in_user_name(c: char) -> bool {
    ||| 'a' <= c <= 'z'
    ||| 'A' <= c <= 'Z'
    ||| '0' <= c <= '9'
    ||| c == '_' || c == '-'
}

/// Whether a text is an account name that a policy may hold.
pub open spec fn is_user_name(user: Seq<char>) -> bool {
    user.len() > 0 && forall|i: int| 0 <= i < user.len() ==> in_user_name(#[trigger] user[i])
}

/// Whether a text is an account name that a policy may hold.
pub fn valid_user_name(user: &str) -> (valid: bool)
    ensures
        valid == is_user_name(user@),
{
    let chars: Vec<char> = text::chars_of(user);
    let mut i: usize = 0;
    while i < chars.len()
        invariant
            i <= chars@.len(),
            chars@ == user@,
            forall|k: int| 0 <= k < i ==> in_user_name(#[trigger] chars@[k]),
        decreases chars@.len() - i,
    {
        let c: char = chars[i];
        if !(('a' <= c && c <= 'z') || ('A' <= c && c <= 'Z') || ('0' <= c && c <= '9') || c == '_'
            || c == '-') {
            assert(!in_user_name(user@[i as int]));
            return false;
        }
        i += 1;
    }
    chars.len() > 0
}

/// Whether a word is one of systemd's states.
pub open spec fn names_state(word: Seq<char>) -> bool {
    ||| word == "active"@
    ||| word == "inactive"@
    ||| word == "failed"@
    ||| word == "activating"@
    ||| word == "deactivating"@
    ||| word == "reloading"@
}

/// Whether the output of a privileged status query shows that the query was permitted: it is one of
/// systemd's states, whatever that state is.
pub fn sudo_policy_allows_service_status(stdout: &[u8]) -> (allowed: bool)
    ensures
        allowed == (vstd::utf8::valid_utf8(stdout@) && names_state(
            text::trimmed(vstd::utf8::decode_utf8(stdout@)),
        )),
{
    match text::from_utf8(stdout) {
        None => false,
        Some(output) => {
            let word: &str = text::trim(output.as_str());
            text::same_text(word, "active") || text::same_text(word, "inactive")
                || text::same_text(word, "failed") || text::same_text(word, "activating")
                || text::same_text(word, "deactivating") || text::same_text(word, "reloading")
        },
    }
}

/// The report of a check.
pub open spec fn check_report(rules: bool, service: bool) -> Seq<char> {
    "aldis setup:\n  udev rules: "@ + (if rules {
        "ready"@
    } else {
        "missing or outdated"@
    }) + "\n  Klipper service access: "@ + (if service {
        "ready"@
    } else {
        "unavailable"@
    })
}

/// The report of a check.
pub fn setup_check_report(rules: bool, service: bool) -> (report: String)
    ensures
        report@ == check_report(rules, service),
{
    let mut report: String = "aldis setup:\n  udev rules: ".to_owned();
    if rules {
        report.append("ready");
    } else {
        report.append("missing or outdated");
    }
    report.append("\n  Klipper service access: ");
    if service {
        report.append("ready");
    } else {
        report.append("unavailable");
    }
    report
}

/// Checks the setup from the installed rules and the output of a privileged status query, where
/// either could be had. Gives the report and, where something is missing, the error.
pub fn check_setup(
    installed_rules: &Option<String>,
    rules: &str,
    status_output: &Option<Vec<u8>>,
) -> (checked: (String, Option<String>))
    ensures
        ({
            let rules_ready = rules_are_ready(*installed_rules, rules@);
            let service_ready = service_is_ready(*status_output);
            &&& checked.0@ == check_report(rules_ready, service_ready)
            &&& match checked.1 {
                None => rules_ready && service_ready,
                Some(error) => !(rules_ready && service_ready) && error@
                    == "aldis setup is incomplete; run sudo aldis setup"@,
            }
        }),
{
    let rules_ready: bool = match installed_rules {
        Some(installed) => text::same_text(installed.as_str(), rules),
        None => false,
    };
    let service_ready: bool = match status_output {
        Some(output) => sudo_policy_allows_service_status(output.as_slice()),
        None => false,
    };
    let report: String = setup_check_report(rules_ready, service_ready);
    if rules_ready && service_ready {
        (report, None)
    } else {
        (report, Some("aldis setup is incomplete; run sudo aldis setup".to_owned()))
    }
}

/// The report of an install.
pub open spec fn install_report(rules_action: Seq<char>, service_action: Seq<char>) -> Seq<char> {
    "aldis setup:\n  udev rules: "@ + rules_action + "\n  service policy: "@ + service_action
        + "\n  service policy permissions: set to 0440\n  udev rules: reloaded and triggered"@
}

/// The report of an install.
pub fn setup_install_report(rules_action: &str, service_action: &str) -> (report: String)
    ensures
        report@ == install_report(rules_action@, service_action@),
{
    let mut report: String = "aldis setup:\n  udev rules: ".to_owned();
    report.append(rules_action);
    report.append("\n  service policy: ");
    report.append(service_action);
    report.append(
        "\n  service policy permissions: set to 0440\n  udev rules: reloaded and triggered",
    );
    report
}

/// What was done with a file: one whose content is already right is not written.
pub open spec fn action_word(installed: bool) -> Seq<char> {
    if installed {
        "installed"@
    } else {
        "already current"@
    }
}

fn action_label(installed: bool) -> (word: &'static str)
    ensures
        word@ == action_word(installed),
{
    if installed {
        "installed"
    } else {
        "already current"
    }
}

/// How far an install has come; each stage asks for one operation.
#[derive(Debug, PartialEq, Eq)]
pub enum SetupStage {
    /// The installed udev rules are to be read.
    ReadRules,
    /// The udev rules are to be written.
    WriteRules,
    /// The installed policy is to be read.
    ReadPolicy { rules_installed: bool },
    /// A file is to be created beside the policy.
    StagePolicy { rules_installed: bool },
    /// The policy is to be written to the staged file.
    WriteStaged { rules_installed: bool },
    /// The staged file is to be protected.
    ProtectStaged { rules_installed: bool },
    /// `visudo` is to validate the staged file.
    ValidateStaged { rules_installed: bool },
    /// The staged file is to replace the policy.
    PersistStaged { rules_installed: bool },
    /// The policy is to be protected.
    ProtectPolicy { rules_installed: bool, policy_installed: bool },
    /// `udevadm` is to reload the rules.
    ReloadRules { rules_installed: bool, policy_installed: bool },
    /// `udevadm` is to trigger the rules.
    TriggerRules { rules_installed: bool, policy_installed: bool },
    /// Nothing is left to do but to show the report or the error.
    Finished(Result<String, String>),
}

/// The outcome of an install's pending operation.
#[derive(Clone, Debug, PartialEq, Eq)]
pub enum SetupEvent {
    /// The content of a file; none where it could not be read.
    Content(Option<String>),
    /// The operation succeeded.
    Done,
    /// The operation failed.
    Failed(IoFailure),
    /// A command ended.
    Exited {
        /// Whether it succeeded.
        success: bool,
        /// The system's wording of its status.
        status: String,
    },
}

/// One install under way.
#[derive(Debug, PartialEq, Eq)]
pub struct SetupRun {
    /// The udev rules.
    pub rules: String,
    /// The policy.
    pub policy: String,
    /// How far the install has come.
    pub stage: SetupStage,
}

/// Begins to install for the user who ran the setup through sudo.
pub fn install_setup(sudo_user: &Option<String>, rules: String) -> (run: Result<SetupRun, String>)
    ensures
        setup_begins(*sudo_user, rules, run),
{
    match sudo_user {
        None => Err("setup must be run with sudo; run: sudo aldis setup".to_owned()),
        Some(user) => if !valid_user_name(user.as_str()) {
            Err("SUDO_USER is not a valid account name".to_owned())
        } else {
            Ok(
                SetupRun {
                    rules,
                    policy: sudoers_policy(user.as_str()),
                    stage: SetupStage::ReadRules,
                },
            )
        },
    }
}

/// What a stage that can fail is called when it does.
pub open spec fn failure_context(stage: SetupStage) -> Option<Seq<char>> {
    match stage {
        SetupStage::ReadRules => None,
        SetupStage::WriteRules => Some("could not install udev rules"@),
        SetupStage::ReadPolicy { .. } => None,
        SetupStage::StagePolicy { .. } => Some("could not stage the service policy"@),
        SetupStage::WriteStaged { .. } => Some("could not write the staged service policy"@),
        SetupStage::ProtectStaged { .. } => Some("could not protect the staged service policy"@),
        SetupStage::ValidateStaged { .. } => Some(
            "could not validate the service policy with visudo"@,
        ),
        SetupStage::PersistStaged { .. } => Some(
            "could not install the validated service policy"@,
        ),
        SetupStage::ProtectPolicy { .. } => Some("could not protect service policy"@),
        SetupStage::ReloadRules { .. } => Some("could not reload udev rules"@),
        SetupStage::TriggerRules { .. } => Some("could not trigger udev rules"@),
        SetupStage::Finished(_) => None,
    }
}

/// What a command's unsuccessful end means.
pub open spec fn exit_failure(stage: SetupStage, status: Seq<char>) -> Option<Seq<char>> {
    match stage {
        SetupStage::ValidateStaged { .. } => Some(
            "staged service policy failed visudo validation: visudo exited with "@ + status,
        ),
        SetupStage::ReloadRules { .. } => Some(
            "could not reload udev rules: udevadm exited with "@ + status,
        ),
        SetupStage::TriggerRules { .. } => Some(
            "could not trigger udev rules: udevadm exited with "@ + status,
        ),
        _ => None,
    }
}

/// The stage after one whose operation succeeded; none where success is not told by `event`.
pub open spec fn stage_after(run: SetupRun, event: SetupEvent) -> Option<SetupStage> {
    match (run.stage, event) {
        (SetupStage::ReadRules, SetupEvent::Content(content)) => Some(
            if content is Some && content->Some_0@ == run.rules@ {
                SetupStage::ReadPolicy { rules_installed: false }
            } else {
                SetupStage::WriteRules
            },
        ),
        (SetupStage::WriteRules, SetupEvent::Done) => Some(
            SetupStage::ReadPolicy { rules_installed: true },
        ),
        (SetupStage::ReadPolicy { rules_installed }, SetupEvent::Content(content)) => Some(
            if content is Some && content->Some_0@ == run.policy@ {
                SetupStage::ProtectPolicy { rules_installed, policy_installed: false }
            } else {
                SetupStage::StagePolicy { rules_installed }
            },
        ),
        (SetupStage::StagePolicy { rules_installed }, SetupEvent::Done) => Some(
            SetupStage::WriteStaged { rules_installed },
        ),
        (SetupStage::WriteStaged { rules_installed }, SetupEvent::Done) => Some(
            SetupStage::ProtectStaged { rules_installed },
        ),
        (SetupStage::ProtectStaged { rules_installed }, SetupEvent::Done) => Some(
            SetupStage::ValidateStaged { rules_installed },
        ),
        (
            SetupStage::ValidateStaged { rules_installed },
            SetupEvent::Exited { success: true, .. },
        ) => Some(SetupStage::PersistStaged { rules_installed }),
        (SetupStage::PersistStaged { rules_installed }, SetupEvent::Done) => Some(
            SetupStage::ProtectPolicy { rules_installed, policy_installed: true },
        ),
        (SetupStage::ProtectPolicy { rules_installed, policy_installed }, SetupEvent::Done) => Some(
            SetupStage::ReloadRules { rules_installed, policy_installed },
        ),
        (
            SetupStage::ReloadRules { rules_installed, policy_installed },
            SetupEvent::Exited { success: true, .. },
        ) => Some(SetupStage::TriggerRules { rules_installed, policy_installed }),
        _ => None,
    }
}

/// Whether an install goes from `run` to `next` on `event`. An outcome that does not answer the
/// pending operation changes nothing.
pub open spec fn setup_step(run: SetupRun, event: SetupEvent, next: SetupRun) -> bool {
    &&& next.rules == run.rules
    &&& next.policy == run.policy
    &&& match (run.stage, event) {
        (_, SetupEvent::Failed(failure)) if failure_context(run.stage) is Some => {
            &&& next.stage is Finished
            &&& next.stage->Finished_0 is Err
            &&& next.stage->Finished_0->Err_0@ == failure_context(run.stage)->Some_0 + ": "@
                + failure.message@
        },
        (_, SetupEvent::Exited { success: false, status }) if exit_failure(
            run.stage,
            status@,
        ) is Some => {
            &&& next.stage is Finished
            &&& next.stage->Finished_0 is Err
            &&& next.stage->Finished_0->Err_0@ == exit_failure(run.stage, status@)->Some_0
        },
        (
            SetupStage::TriggerRules { rules_installed, policy_installed },
            SetupEvent::Exited { success: true, .. },
        ) => {
            &&& next.stage is Finished
            &&& next.stage->Finished_0 is Ok
            &&& next.stage->Finished_0->Ok_0@ == install_report(
                action_word(rules_installed),
                action_word(policy_installed),
            )
        },
        _ => match stage_after(run, event) {
            Some(stage) => next.stage == stage,
            None => next.stage == run.stage,
        },
    }
}

fn same_content(content: &Option<String>, wanted: &str) -> (same: bool)
    ensures
        same == (*content is Some && content->Some_0@ == wanted@),
{
    match content {
        Some(content) => text::same_text(content.as_str(), wanted),
        None => false,
    }
}

fn context_of(stage: &SetupStage) -> (context: Option<&'static str>)
    ensures
        match context {
            Some(context) => failure_context(*stage) == Some(context@),
            None => failure_context(*stage) is None,
        },
{
    match stage {
        SetupStage::ReadRules => None,
        SetupStage::WriteRules => Some("could not install udev rules"),
        SetupStage::ReadPolicy { .. } => None,
        SetupStage::StagePolicy { .. } => Some("could not stage the service policy"),
        SetupStage::WriteStaged { .. } => Some("could not write the staged service policy"),
        SetupStage::ProtectStaged { .. } => Some("could not protect the staged service policy"),
        SetupStage::ValidateStaged { .. } => Some(
            "could not validate the service policy with visudo",
        ),
        SetupStage::PersistStaged { .. } => Some("could not install the validated service policy"),
        SetupStage::ProtectPolicy { .. } => Some("could not protect service policy"),
        SetupStage::ReloadRules { .. } => Some("could not reload udev rules"),
        SetupStage::TriggerRules { .. } => Some("could not trigger udev rules"),
        SetupStage::Finished(_) => None,
    }
}

fn exit_context(stage: &SetupStage) -> (context: Option<&'static str>)
    ensures
        forall|status: Seq<char>|
            match context {
                Some(context) => #[trigger] exit_failure(*stage, status) == Some(context@ + status),
                None => exit_failure(*stage, status) is None,
            },
{
    match stage {
        SetupStage::ValidateStaged { .. } => Some(
            "staged service policy failed visudo validation: visudo exited with ",
        ),
        SetupStage::ReloadRules { .. } => Some(
            "could not reload udev rules: udevadm exited with ",
        ),
        SetupStage::TriggerRules { .. } => Some(
            "could not trigger udev rules: udevadm exited with ",
        ),
        _ => None,
    }
}

impl SetupRun {
    /// Goes on with the outcome of the pending operation.
    pub fn step(self, event: SetupEvent) -> (next: Self)
        ensures
            setup_step(self, event, next),
    {
        let SetupRun { rules, policy, stage } = self;
        if let SetupEvent::Failed(failure) = &event {
            if let Some(context) = context_of(&stage) {
                let mut message: String = context.to_owned();
                message.append(": ");
                message.append(failure.message.as_str());
                return SetupRun { rules, policy, stage: SetupStage::Finished(Err(message)) };
            }
        }
        if let SetupEvent::Exited { success, status } = &event {
            if !*success {
                if let Some(context) = exit_context(&stage) {
                    assert(exit_failure(stage, status@) == Some(context@ + status@));
                    let mut message: String = context.to_owned();
                    message.append(status.as_str());
                    return SetupRun { rules, policy, stage: SetupStage::Finished(Err(message)) };
                }
                assert(exit_failure(stage, status@) is None);
            }
        }
        let next: SetupStage = match (stage, event) {
            (SetupStage::ReadRules, SetupEvent::Content(content)) => {
                if same_content(&content, rules.as_str()) {
                    SetupStage::ReadPolicy { rules_installed: false }
                } else {
                    SetupStage::WriteRules
                }
            },
            (SetupStage::WriteRules, SetupEvent::Done) => SetupStage::ReadPolicy {
                rules_installed: true,
            },
            (SetupStage::ReadPolicy { rules_installed }, SetupEvent::Content(content)) => {
                if same_content(&content, policy.as_str()) {
                    SetupStage::ProtectPolicy { rules_installed, policy_installed: false }
                } else {
                    SetupStage::StagePolicy { rules_installed }
                }
            },
            (SetupStage::StagePolicy { rules_installed }, SetupEvent::Done) =>
            SetupStage::WriteStaged { rules_installed },
            (SetupStage::WriteStaged { rules_installed }, SetupEvent::Done) =>
            SetupStage::ProtectStaged { rules_installed },
            (SetupStage::ProtectStaged { rules_installed }, SetupEvent::Done) =>
            SetupStage::ValidateStaged { rules_installed },
            (
                SetupStage::ValidateStaged { rules_installed },
                SetupEvent::Exited { success: true, .. },
            ) => SetupStage::PersistStaged { rules_installed },
            (SetupStage::PersistStaged { rules_installed }, SetupEvent::Done) =>
            SetupStage::ProtectPolicy { rules_installed, policy_installed: true },
            (SetupStage::ProtectPolicy { rules_installed, policy_installed }, SetupEvent::Done) =>
            SetupStage::ReloadRules { rules_installed, policy_installed },
            (
                SetupStage::ReloadRules { rules_installed, policy_installed },
                SetupEvent::Exited { success: true, .. },
            ) => SetupStage::TriggerRules { rules_installed, policy_installed },
            (
                SetupStage::TriggerRules { rules_installed, policy_installed },
                SetupEvent::Exited { success: true, .. },
            ) => SetupStage::Finished(
                Ok(
                    setup_install_report(
                        action_label(rules_installed),
                        action_label(policy_installed),
                    ),
                ),
            ),
            (stage, _) => stage,
        };
        SetupRun { rules, policy, stage: next }
    }
}

/// A policy replaces the installed one only after it was validated: the staged file is put in place
/// only by the step that a successful `visudo` leads to.
pub proof fn law_only_validated_policies_are_installed(
    run: SetupRun,
    event: SetupEvent,
    next: SetupRun,
)
    requires
        setup_step(run, event, next),
        next.stage is PersistStaged,
        !(run.stage is PersistStaged),
    ensures
        run.stage is ValidateStaged,
        event is Exited,
        event->success,
{
}

/// The command line of a privileged command, as a policy writes it.
pub open spec fn command_line(arguments: Seq<Seq<char>>) -> Seq<char> {
    text::joined(arguments, " "@)
}

proof fn lemma_joined_three(a: Seq<char>, b: Seq<char>, c: Seq<char>, separator: Seq<char>)
    ensures
        text::joined(seq![a, b, c], separator) == a + separator + b + separator + c,
{
    reveal_with_fuel(text::joined, 4);
    assert(seq![a, b, c].drop_last() =~= seq![a, b]);
    assert(seq![a, b].drop_last() =~= seq![a]);
    assert(seq![a].drop_last() =~= Seq::empty());
}

/// Every privileged command on Klipper's service is one that the policy permits.
pub proof fn law_policy_permits_the_service_commands(action: Seq<char>)
    requires
        action == "is-active"@ || action == "stop"@ || action == "start"@,
    ensures
        service::systemctl(action).arguments[0] == "-n"@,
        permitted_commands().contains(command_line(service::systemctl(action).arguments.skip(1))),
{
    let arguments = service::systemctl(action).arguments.skip(1);
    assert(arguments =~= seq!["/bin/systemctl"@, action, "klipper"@]);
    lemma_joined_three("/bin/systemctl"@, action, "klipper"@, " "@);
    reveal_strlit("/bin/systemctl");
    reveal_strlit(" ");
    reveal_strlit("klipper");
    reveal_strlit("is-active");
    reveal_strlit("stop");
    reveal_strlit("start");
    reveal_strlit("/bin/systemctl is-active klipper");
    reveal_strlit("/bin/systemctl stop klipper");
    reveal_strlit("/bin/systemctl start klipper");
    let line = command_line(arguments);
    let permitted = permitted_commands();
    if action == "is-active"@ {
        assert(line =~= permitted[0]);
    } else if action == "stop"@ {
        assert(line =~= permitted[1]);
    } else {
        assert(line =~= permitted[2]);
    }
}

/// Every privileged command that installs the Linux host MCU is one that the policy permits.
pub proof fn law_policy_permits_the_host_install(step: InstallStep, firmware: Seq<u8>)
    requires
        linux_host::step_command(step, firmware).program == "sudo"@,
    ensures
        linux_host::step_command(step, firmware).arguments[0] == "-n"@,
        permitted_commands().contains(
            command_line(linux_host::step_command(step, firmware).arguments.skip(1)),
        ),
{
    let arguments = linux_host::step_command(step, firmware).arguments.skip(1);
    let permitted = permitted_commands();
    reveal_strlit(" ");
    reveal_strlit("sudo");
    reveal_strlit("sync");
    assert("sync"@[1] != "sudo"@[1]);
    match step {
        InstallStep::Sync => {},
        InstallStep::Restart => {
            assert(arguments =~= seq!["/bin/systemctl"@, "restart"@, "klipper-mcu"@]);
            lemma_joined_three("/bin/systemctl"@, "restart"@, "klipper-mcu"@, " "@);
            reveal_strlit("/bin/systemctl");
            reveal_strlit("restart");
            reveal_strlit("klipper-mcu");
            reveal_strlit("/bin/systemctl restart klipper-mcu");
            assert(command_line(arguments) =~= permitted[4]);
        },
        InstallStep::Install => {
            let list = seq![
                "/usr/bin/install"@,
                "-m"@,
                "0755"@,
                "/dev/stdin"@,
                "/usr/local/bin/klipper_mcu"@,
            ];
            assert(arguments =~= list);
            reveal_with_fuel(text::joined, 6);
            assert(list.drop_last() =~= seq!["/usr/bin/install"@, "-m"@, "0755"@, "/dev/stdin"@]);
            assert(list.drop_last().drop_last() =~= seq!["/usr/bin/install"@, "-m"@, "0755"@]);
            lemma_joined_three("/usr/bin/install"@, "-m"@, "0755"@, " "@);
            reveal_strlit("/usr/bin/install");
            reveal_strlit("-m");
            reveal_strlit("0755");
            reveal_strlit("/dev/stdin");
            reveal_strlit("/usr/local/bin/klipper_mcu");
            reveal_strlit("/usr/bin/install -m 0755 /dev/stdin /usr/local/bin/klipper_mcu");
            assert(command_line(arguments) =~= permitted[3]);
        },
    }
}

/// A policy holds exactly one line, so that no account name can add a rule of its own.
pub proof fn law_account_names_add_no_rule(user: Seq<char>, i: int)
    requires
        is_user_name(user),
        0 <= i < user.len(),
    ensures
        user[i] != '\n',
        user[i] != ' ',
        user[i] != '=',
        user[i] != ',',
        user[i] != '#',
{
    assert(in_user_name(user[i]));
}

/// Whether the installed udev rules are the current ones.
pub open spec fn rules_are_ready(installed_rules: Option<String>, rules: Seq<char>) -> bool {
    installed_rules is Some && installed_rules->Some_0@ == rules
}

/// Whether the state of the service could be asked for.
pub open spec fn service_is_ready(status_output: Option<Vec<u8>>) -> bool {
    status_output is Some && vstd::utf8::valid_utf8(status_output->Some_0@) && names_state(
        text::trimmed(vstd::utf8::decode_utf8(status_output->Some_0@)),
    )
}

/// Whether `run` begins the setup for the account that called `sudo`, or is refused.
pub open spec fn setup_begins(
    sudo_user: Option<String>,
    rules: String,
    run: Result<SetupRun, String>,
) -> bool {
    match (sudo_user, run) {
        (None, Err(error)) => error@ == "setup must be run with sudo; run: sudo aldis setup"@,
        (Some(user), Err(error)) => !is_user_name(user@) && error@
            == "SUDO_USER is not a valid account name"@,
        (Some(user), Ok(run)) => is_user_name(user@) && run.rules == rules && run.policy@
            == policy_text(user@) && run.stage == SetupStage::ReadRules,
        (None, Ok(_)) => false,
    }
}

/// Access to the service is ready exactly if the answer is a state that the service module knows.
pub proof fn law_known_state_means_access(word: Seq<char>)
    ensures
        names_state(word) <==> !(service::state_named(word) is Unknown),
{
    service::law_state_is_what_systemd_says(word);
}

/// The rules are ready exactly if they are installed as they are, character for character, and a
/// host without an answer from systemd has no access.
pub proof fn law_only_current_rules_are_ready(
    installed: String,
    rules: Seq<char>,
    output: Vec<u8>,
)
    ensures
        rules_are_ready(Some(installed), rules) <==> installed@ == rules,
        !rules_are_ready(None, rules),
        !service_is_ready(None),
        service_is_ready(Some(output)) ==> vstd::utf8::valid_utf8(output@) && !(
        service::state_named(text::trimmed(vstd::utf8::decode_utf8(output@))) is Unknown),
        vstd::utf8::valid_utf8(output@) && !(service::state_named(
            text::trimmed(vstd::utf8::decode_utf8(output@)),
        ) is Unknown) ==> service_is_ready(Some(output)),
{
    law_known_state_means_access(text::trimmed(vstd::utf8::decode_utf8(output@)));
}

/// Setup begins exactly for an account name of ASCII letters, digits, `_` and `-`, with the policy
/// of that account and the given rules.
pub proof fn law_setup_is_for_the_calling_account(
    sudo_user: Option<String>,
    rules: String,
    run: Result<SetupRun, String>,
    i: int,
)
    requires
        setup_begins(sudo_user, rules, run),
    ensures
        run is Ok ==> sudo_user is Some && run->Ok_0.rules == rules && run->Ok_0.policy@
            == policy_text(sudo_user->Some_0@) && run->Ok_0.stage is ReadRules,
        run is Ok && 0 <= i < sudo_user->Some_0@.len() ==> ({
            let c = sudo_user->Some_0@[i];
            'a' <= c <= 'z' || 'A' <= c <= 'Z' || '0' <= c <= '9' || c == '_' || c == '-'
        }),
        sudo_user is Some && sudo_user->Some_0@.len() > 0 && (forall|k: int|
            0 <= k < sudo_user->Some_0@.len() ==> in_user_name(#[trigger] sudo_user->Some_0@[k]))
            ==> run is Ok,
        sudo_user is None || sudo_user->Some_0@.len() == 0 ==> run is Err,
{
}

/// The policy is the account's: it begins with its name and lets it run the permitted commands as
/// root without a password.
pub proof fn law_policy_is_of_the_account(user: Seq<char>)
    ensures
        policy_text(user).take(user.len() as int) == user,
        policy_text(user).skip(user.len() as int) == " ALL=(root) NOPASSWD: "@ + text::joined(
            permitted_commands(),
            ", "@,
        ) + "\n"@,
{
    assert(policy_text(user).take(user.len() as int) =~= user);
    assert(policy_text(user).skip(user.len() as int) =~= " ALL=(root) NOPASSWD: "@ + text::joined(
        permitted_commands(),
        ", "@,
    ) + "\n"@);
}

/// The rules are written exactly if they are not installed already, and so is the policy, which is
/// staged, protected and validated before it is put in place.
pub proof fn law_setup_goes_through_every_stage(
    run: SetupRun,
    content: Option<String>,
    status: String,
    read: SetupRun,
    done: SetupRun,
    exited: SetupRun,
)
    requires
        setup_step(run, SetupEvent::Content(content), read),
        setup_step(run, SetupEvent::Done, done),
        setup_step(run, (SetupEvent::Exited { success: true, status }), exited),
    ensures
        run.stage is ReadRules && content is Some && content->Some_0@ == run.rules@ ==> read.stage
            == (SetupStage::ReadPolicy { rules_installed: false }),
        run.stage is ReadRules && (content is None || content->Some_0@ != run.rules@) ==> read.stage
            is WriteRules,
        run.stage is WriteRules ==> done.stage == (SetupStage::ReadPolicy { rules_installed: true }),
        run.stage matches SetupStage::ReadPolicy { rules_installed } ==> {
            &&& content is Some && content->Some_0@ == run.policy@ ==> read.stage == (
            SetupStage::ProtectPolicy { rules_installed, policy_installed: false })
            &&& content is None || content->Some_0@ != run.policy@ ==> read.stage == (
            SetupStage::StagePolicy { rules_installed })
        },
        run.stage matches SetupStage::StagePolicy { rules_installed } ==> done.stage == (
        SetupStage::WriteStaged { rules_installed }),
        run.stage matches SetupStage::WriteStaged { rules_installed } ==> done.stage == (
        SetupStage::ProtectStaged { rules_installed }),
        run.stage matches SetupStage::ProtectStaged { rules_installed } ==> done.stage == (
        SetupStage::ValidateStaged { rules_installed }),
        run.stage matches SetupStage::ValidateStaged { rules_installed } ==> exited.stage == (
        SetupStage::PersistStaged { rules_installed }),
        run.stage matches SetupStage::PersistStaged { rules_installed } ==> done.stage == (
        SetupStage::ProtectPolicy { rules_installed, policy_installed: true }),
        run.stage matches SetupStage::ProtectPolicy { rules_installed, policy_installed }
            ==> done.stage == (SetupStage::ReloadRules { rules_installed, policy_installed }),
        run.stage matches SetupStage::ReloadRules { rules_installed, policy_installed }
            ==> exited.stage == (SetupStage::TriggerRules { rules_installed, policy_installed }),
        run.stage matches SetupStage::TriggerRules { rules_installed, policy_installed } ==> {
            &&& exited.stage is Finished
            &&& exited.stage->Finished_0 is Ok
            &&& exited.stage->Finished_0->Ok_0@ == install_report(
                action_word(rules_installed),
                action_word(policy_installed),
            )
        },
        action_word(true) == "installed"@,
        action_word(false) == "already current"@,
{
}

/// A failure ends the setup, except that a file that could not be read is asked for again; only
/// triggered rules end it with success; and an ended setup stays as it ended.
pub proof fn law_failed_setup_ends(run: SetupRun, event: SetupEvent, next: SetupRun)
    requires
        setup_step(run, event, next),
    ensures
        event is Failed && !(run.stage is ReadRules) && !(run.stage is ReadPolicy) && !(
        run.stage is Finished) ==> next.stage is Finished && next.stage->Finished_0 is Err,
        event is Exited && !event->success && (run.stage is ValidateStaged || run.stage
            is ReloadRules || run.stage is TriggerRules) ==> next.stage is Finished
            && next.stage->Finished_0 is Err,
        !(run.stage is Finished) && next.stage is Finished && next.stage->Finished_0 is Ok
            ==> run.stage is TriggerRules && event is Exited && event->success,
        run.stage is Finished ==> next.stage == run.stage,
        next.rules == run.rules && next.policy == run.policy,
{
}

/// An account name may hold the letters and digits of ASCII, `_` and `-`, and nothing else.
pub proof fn law_account_names_are_of_letters_and_digits(c: char)
    ensures
        in_user_name(c) <==> ({
            let n = c as int;
            97 <= n < 97 + 26 || 65 <= n < 65 + 26 || 48 <= n < 48 + 10 || n == 95 || n == 45
        }),
{
}

} // verus!
