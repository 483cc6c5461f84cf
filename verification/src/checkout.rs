//! Local Klipper checkout revision discovery.
use vstd::prelude::*;

use crate::builder;
use crate::builder::{
    BuildCommand,
    CommandCall,
    CommandContent,
    CommandError,
    CommandOutput,
    CommandPort,
};
use crate::eligibility::CheckoutRevision;
use crate::failure::IoFailure;
use crate::paths;
use crate::service;
use crate::text;

verus! {

/// Failure while examining a selected Klipper checkout.
#[derive(Clone, Debug, PartialEq, Eq)]
pub enum CheckoutError {
    /// The `git` binary could not be executed.
    Spawn(IoFailure),
    /// A `git` invocation against the checkout failed.
    Command {
        /// The operation that failed.
        action: &'static str,
        /// `git`'s own error output.
        stderr: String,
    },
    /// The checked-out branch does not name an upstream to refresh from.
    UpstreamNotConfigured,
    /// The fetched upstream cannot be applied without a merge or rebase.
    NotFastForward {
        /// The current local branch name.
        branch: String,
        /// The configured upstream branch name.
        upstream: String,
    },
}

/// A checkout error by its characters.
pub enum CheckoutFailure {
    Spawn(IoFailure),
    Command { action: Seq<char>, stderr: Seq<char> },
    UpstreamNotConfigured,
    NotFastForward { branch: Seq<char>, upstream: Seq<char> },
}

impl View for CheckoutError {
    type V = CheckoutFailure;

    open spec fn view(&self) -> CheckoutFailure {
        match *self {
            CheckoutError::Spawn(failure) => CheckoutFailure::Spawn(failure),
            CheckoutError::Command { action, stderr } => CheckoutFailure::Command {
                action: action@,
                stderr: stderr@,
            },
            CheckoutError::UpstreamNotConfigured => CheckoutFailure::UpstreamNotConfigured,
            CheckoutError::NotFastForward { branch, upstream } => CheckoutFailure::NotFastForward {
                branch: branch@,
                upstream: upstream@,
            },
        }
    }
}

impl CheckoutFailure {
    /// The wording of this error.
    pub open spec fn text(self) -> Seq<char> {
        match self {
            CheckoutFailure::Spawn(_) => "could not run git"@,
            CheckoutFailure::Command { action, stderr } => "could not "@ + action
                + " the Klipper checkout: "@ + stderr,
            CheckoutFailure::UpstreamNotConfigured =>
            "the checked-out Klipper branch has no configured upstream"@,
            CheckoutFailure::NotFastForward { branch, upstream } => "cannot fast-forward "@ + branch
                + " from "@ + upstream
                + "; resolve the divergence before updating firmware"@,
        }
    }

    /// The wording of this error and of each of its causes.
    pub open spec fn chain(self) -> Seq<Seq<char>> {
        match self {
            CheckoutFailure::Spawn(failure) => seq![self.text(), failure.message@],
            _ => seq![self.text()],
        }
    }
}

impl CheckoutError {
    /// The wording of this error.
    pub fn message(&self) -> (message: String)
        ensures
            message@ == self@.text(),
    {
        match self {
            CheckoutError::Spawn(_) => "could not run git".to_owned(),
            CheckoutError::Command { action, stderr } => {
                let mut message: String = "could not ".to_owned();
                message.append(*action);
                message.append(" the Klipper checkout: ");
                message.append(stderr.as_str());
                message
            },
            CheckoutError::UpstreamNotConfigured =>
            "the checked-out Klipper branch has no configured upstream".to_owned(),
            CheckoutError::NotFastForward { branch, upstream } => {
                let mut message: String = "cannot fast-forward ".to_owned();
                message.append(branch.as_str());
                message.append(" from ");
                message.append(upstream.as_str());
                message.append("; resolve the divergence before updating firmware");
                message
            },
        }
    }

    /// Appends the wording of this error and of each of its causes.
    pub fn append_chain(&self, messages: &mut Vec<String>)
        ensures
            text::texts(final(messages)@) == text::texts(old(messages)@) + self@.chain(),
    {
        messages.push(self.message());
        if let CheckoutError::Spawn(failure) = self {
            messages.push(failure.message.clone());
        }
        assert(text::texts(messages@) =~= text::texts(old(messages)@) + self@.chain());
    }
}

/// A successful fast-forward-only source refresh.
#[derive(Debug, PartialEq, Eq)]
pub struct RefreshResult {
    /// The checkout revision before fetching the configured upstream.
    pub before: CheckoutRevision,
    /// The checkout revision after completing the refresh.
    pub after: CheckoutRevision,
    /// Whether the local branch advanced to a newer commit.
    pub advanced: bool,
    /// Number of commits incorporated from the configured upstream.
    pub commits_advanced: usize,
}

impl Clone for RefreshResult {
    fn clone(&self) -> (copy: Self)
        ensures
            copy == *self,
    {
        RefreshResult {
            before: self.before.clone(),
            after: self.after.clone(),
            advanced: self.advanced,
            commits_advanced: self.commits_advanced,
        }
    }
}

/// A refresh by its characters.
pub struct RefreshOutcome {
    pub before: Seq<char>,
    pub after: Seq<char>,
    pub advanced: bool,
    pub commits_advanced: nat,
}

/// Whether a revision is known by the given description.
pub open spec fn known_as(revision: CheckoutRevision, description: Seq<char>) -> bool {
    revision is Known && revision->Known_0@ == description
}

/// Whether a result is what a refresh came to.
pub open spec fn refreshed_to(
    result: Result<RefreshResult, CheckoutError>,
    outcome: Result<RefreshOutcome, CheckoutFailure>,
) -> bool {
    match (result, outcome) {
        (Ok(result), Ok(outcome)) => {
            &&& known_as(result.before, outcome.before)
            &&& known_as(result.after, outcome.after)
            &&& result.advanced == outcome.advanced
            &&& result.commits_advanced as nat == outcome.commits_advanced
        },
        (Err(error), Err(failure)) => error@ == failure,
        _ => false,
    }
}

/// One answer of a checkout.
pub enum CheckoutAnswer {
    Revision { path: Seq<char>, result: Result<CheckoutRevision, CheckoutError> },
    Refresh { path: Seq<char>, result: Result<RefreshResult, CheckoutError> },
}

/// A source of Klipper checkout state and fast-forward refreshes.
///
/// Isolates callers that only need checkout revisions and refreshes from the
/// concrete `git`-backed implementation, so they can be tested against a fake.
pub trait CheckoutPort: Sized {
    /// Every answer so far, in order.
    /// Nothing is known of it by default: an implementation says what it is.
    open spec fn answers(&self) -> Seq<CheckoutAnswer> {
        arbitrary()
    }

    /// Returns the checkout revision, including a dirty suffix for tracked changes.
    fn revision(&mut self, path: &str) -> (result: Result<CheckoutRevision, CheckoutError>)
        ensures
            final(self).answers() == old(self).answers().push(
                CheckoutAnswer::Revision { path: path@, result },
            ),
    ;

    /// Fetches the checked-out branch's configured upstream and applies only a fast-forward.
    fn refresh(&mut self, path: &str) -> (result: Result<RefreshResult, CheckoutError>)
        ensures
            final(self).answers() == old(self).answers().push(
                CheckoutAnswer::Refresh { path: path@, result },
            ),
    ;
}

/// The `git` command with the given arguments in a checkout.
pub open spec fn git_command(path: Seq<char>, arguments: Seq<Seq<char>>) -> CommandContent {
    builder::plain_command("git"@, seq!["-C"@, path] + arguments)
}

/// What the answer to a `git` command means: its trimmed output, or why there is none.
pub open spec fn git_result(
    action: Seq<char>,
    result: Result<CommandOutput, CommandError>,
) -> Result<Seq<char>, CheckoutFailure> {
    match result {
        Err(CommandError::Spawn(failure)) => Err(CheckoutFailure::Spawn(failure)),
        Ok(output) => if output.success {
            Ok(output.output_text())
        } else {
            Err(CheckoutFailure::Command { action, stderr: output.error_text() })
        },
    }
}

fn git<R: CommandPort>(
    runner: &mut R,
    path: &str,
    action: &'static str,
    arguments: Vec<String>,
) -> (result: Result<String, CheckoutError>)
    ensures
        service::ran_one(
            old(runner).history(),
            final(runner).history(),
            git_command(path@, text::texts(arguments@)),
        ),
        git_result(action@, final(runner).history().last().result) == match result {
            Ok(output) => Ok::<Seq<char>, CheckoutFailure>(output@),
            Err(error) => Err(error@),
        },
{
    let mut all: Vec<String> = Vec::new();
    all.push("-C".to_owned());
    all.push(path.to_owned());
    let mut rest: Vec<String> = arguments;
    all.append(&mut rest);
    assert(text::texts(all@) =~= seq!["-C"@, path@] + text::texts(arguments@));
    let command: BuildCommand = BuildCommand {
        program: "git".to_owned(),
        arguments: all,
        current_dir: None,
        stdin: None,
    };
    match runner.run(&command) {
        Err(CommandError::Spawn(failure)) => Err(CheckoutError::Spawn(failure)),
        Ok(output) => if output.success {
            Ok(output.trimmed_output())
        } else {
            Err(CheckoutError::Command { action, stderr: output.trimmed_error() })
        },
    }
}

/// The arguments that describe the checked-out commit.
pub open spec fn describe_arguments() -> Seq<Seq<char>> {
    seq!["describe"@, "--tags"@, "--long"@, "--always"@, "--dirty"@]
}

/// Returns the checkout revision, including a dirty suffix for tracked changes.
pub fn revision<R: CommandPort>(runner: &mut R, path: &str) -> (result: Result<
    CheckoutRevision,
    CheckoutError,
>)
    ensures
        service::ran_one(
            old(runner).history(),
            final(runner).history(),
            git_command(path@, describe_arguments()),
        ),
        match (
            result,
            git_result("describe"@, final(runner).history().last().result),
        ) {
            (Ok(revision), Ok(description)) => known_as(revision, description),
            (Err(error), Err(failure)) => error@ == failure,
            _ => false,
        },
{
    let mut arguments: Vec<String> = Vec::new();
    arguments.push("describe".to_owned());
    arguments.push("--tags".to_owned());
    arguments.push("--long".to_owned());
    arguments.push("--always".to_owned());
    arguments.push("--dirty".to_owned());
    assert(text::texts(arguments@) =~= describe_arguments());
    match git(runner, path, "describe", arguments) {
        Ok(description) => Ok(CheckoutRevision::Known(description)),
        Err(error) => Err(error),
    }
}

/// What a refresh came to: its outcome, the point after its last command, and whether its commands
/// were the ones that it asks for.
pub struct RefreshStep {
    pub outcome: Result<RefreshOutcome, CheckoutFailure>,
    pub next: int,
    pub faithful: bool,
}

/// A refresh that ends with the command at position `at`.
pub open spec fn refresh_ends(
    outcome: Result<RefreshOutcome, CheckoutFailure>,
    tape: Seq<CommandCall>,
    at: int,
    command: CommandContent,
) -> RefreshStep {
    RefreshStep { outcome, next: at + 1, faithful: tape[at].command == command }
}

/// A refresh that goes on after the command at position `at`.
pub open spec fn refresh_goes_on(
    rest: RefreshStep,
    tape: Seq<CommandCall>,
    at: int,
    command: CommandContent,
) -> RefreshStep {
    RefreshStep { faithful: tape[at].command == command && rest.faithful, ..rest }
}

/// The name of the remote that an upstream branch belongs to: what stands before its first slash.
pub open spec fn remote_of(upstream: Seq<char>) -> Seq<char> {
    match text::divided(upstream, "/"@) {
        Some((remote, _)) => remote,
        None => upstream,
    }
}

/// How many commits the upstream is ahead: the second number that `git rev-list` counts.
pub open spec fn commits_behind(counts: Seq<char>) -> Option<nat> {
    match text::first_word(counts) {
        None => None,
        Some((_, rest)) => match text::first_word(rest) {
            None => None,
            Some((word, _)) => text::parsed_unsigned(word, 10, usize::MAX as nat),
        },
    }
}

/// The last part of a refresh: the fetched commits are applied without a merge, and the result is
/// described.
pub open spec fn merge_run(
    tape: Seq<CommandCall>,
    at: int,
    path: Seq<char>,
    before: Seq<char>,
    upstream: Seq<char>,
    commits_advanced: nat,
) -> RefreshStep {
    let merge = git_command(path, seq!["merge"@, "--ff-only"@, upstream]);
    let describe = git_command(path, describe_arguments());
    match git_result(
        "apply the fast-forward without overwriting local changes"@,
        tape[at].result,
    ) {
        Err(failure) => refresh_ends(Err(failure), tape, at, merge),
        Ok(_) => refresh_goes_on(
            refresh_ends(
                match git_result("describe"@, tape[at + 1].result) {
                    Err(failure) => Err(failure),
                    Ok(after) => Ok(
                        RefreshOutcome { before, after, advanced: true, commits_advanced },
                    ),
                },
                tape,
                at + 1,
                describe,
            ),
            tape,
            at,
            merge,
        ),
    }
}

/// The part of a refresh that counts the fetched commits; without any the checkout is left alone.
pub open spec fn count_run(
    tape: Seq<CommandCall>,
    at: int,
    path: Seq<char>,
    before: Seq<char>,
    upstream: Seq<char>,
) -> RefreshStep {
    let count = git_command(
        path,
        seq!["rev-list"@, "--left-right"@, "--count"@, "HEAD..."@ + upstream],
    );
    let action = "count fetched commits"@;
    match git_result(action, tape[at].result) {
        Err(failure) => refresh_ends(Err(failure), tape, at, count),
        Ok(counts) => match commits_behind(counts) {
            None => refresh_ends(
                Err(
                    CheckoutFailure::Command {
                        action,
                        stderr: "unexpected `git rev-list` output: "@ + counts,
                    },
                ),
                tape,
                at,
                count,
            ),
            Some(commits) => if commits == 0 {
                refresh_ends(
                    Ok(
                        RefreshOutcome {
                            before,
                            after: before,
                            advanced: false,
                            commits_advanced: 0,
                        },
                    ),
                    tape,
                    at,
                    count,
                )
            } else {
                refresh_goes_on(
                    merge_run(tape, at + 1, path, before, upstream, commits),
                    tape,
                    at,
                    count,
                )
            },
        },
    }
}

/// The part of a refresh that makes sure of a fast-forward; a divergent branch is left unchanged.
pub open spec fn ancestor_run(
    tape: Seq<CommandCall>,
    at: int,
    path: Seq<char>,
    before: Seq<char>,
    branch: Seq<char>,
    upstream: Seq<char>,
) -> RefreshStep {
    let ancestor = git_command(path, seq!["merge-base"@, "--is-ancestor"@, "HEAD"@, upstream]);
    match git_result("check whether the checkout can fast-forward"@, tape[at].result) {
        Err(_) => refresh_ends(
            Err(CheckoutFailure::NotFastForward { branch, upstream }),
            tape,
            at,
            ancestor,
        ),
        Ok(_) => refresh_goes_on(
            count_run(tape, at + 1, path, before, upstream),
            tape,
            at,
            ancestor,
        ),
    }
}

/// The part of a refresh that fetches from the upstream's remote.
pub open spec fn fetch_run(
    tape: Seq<CommandCall>,
    at: int,
    path: Seq<char>,
    before: Seq<char>,
    branch: Seq<char>,
    upstream: Seq<char>,
) -> RefreshStep {
    let fetch = git_command(path, seq!["fetch"@, remote_of(upstream)]);
    match git_result("fetch the configured upstream"@, tape[at].result) {
        Err(failure) => refresh_ends(Err(failure), tape, at, fetch),
        Ok(_) => refresh_goes_on(
            ancestor_run(tape, at + 1, path, before, branch, upstream),
            tape,
            at,
            fetch,
        ),
    }
}

/// The part of a refresh that reads the configured upstream.
pub open spec fn upstream_run(
    tape: Seq<CommandCall>,
    at: int,
    path: Seq<char>,
    before: Seq<char>,
    branch: Seq<char>,
) -> RefreshStep {
    let read = git_command(
        path,
        seq!["rev-parse"@, "--abbrev-ref"@, "--symbolic-full-name"@, "@{u}"@],
    );
    match git_result("read the configured upstream"@, tape[at].result) {
        Err(_) => refresh_ends(Err(CheckoutFailure::UpstreamNotConfigured), tape, at, read),
        Ok(upstream) => refresh_goes_on(
            fetch_run(tape, at + 1, path, before, branch, upstream),
            tape,
            at,
            read,
        ),
    }
}

/// The part of a refresh that reads the checked-out branch.
pub open spec fn branch_run(
    tape: Seq<CommandCall>,
    at: int,
    path: Seq<char>,
    before: Seq<char>,
) -> RefreshStep {
    let read = git_command(path, seq!["rev-parse"@, "--abbrev-ref"@, "HEAD"@]);
    match git_result("read the checked-out branch"@, tape[at].result) {
        Err(failure) => refresh_ends(Err(failure), tape, at, read),
        Ok(branch) => refresh_goes_on(
            upstream_run(tape, at + 1, path, before, branch),
            tape,
            at,
            read,
        ),
    }
}

/// A whole refresh: the checkout is described, its branch and upstream are read, the upstream is
/// fetched, and only a fast-forward is applied.
pub open spec fn refresh_run(tape: Seq<CommandCall>, at: int, path: Seq<char>) -> RefreshStep {
    let describe = git_command(path, describe_arguments());
    match git_result("describe"@, tape[at].result) {
        Err(failure) => refresh_ends(Err(failure), tape, at, describe),
        Ok(before) => refresh_goes_on(
            branch_run(tape, at + 1, path, before),
            tape,
            at,
            describe,
        ),
    }
}

/// Whether a part of a refresh ran between two histories and came to `result`.
pub open spec fn refresh_part(
    step: RefreshStep,
    before: Seq<CommandCall>,
    after: Seq<CommandCall>,
    result: Result<RefreshResult, CheckoutError>,
) -> bool {
    &&& before.is_prefix_of(after)
    &&& step.next == after.len()
    &&& step.faithful
    &&& refreshed_to(result, step.outcome)
}

fn merge_upstream<R: CommandPort>(
    runner: &mut R,
    path: &str,
    before: CheckoutRevision,
    upstream: String,
    commits_advanced: usize,
) -> (result: Result<RefreshResult, CheckoutError>)
    requires
        before is Known,
    ensures
        refresh_part(
            merge_run(
                final(runner).history(),
                old(runner).history().len() as int,
                path@,
                before->Known_0@,
                upstream@,
                commits_advanced as nat,
            ),
            old(runner).history(),
            final(runner).history(),
            result,
        ),
{
    let ghost at = runner.history().len() as int;
    let mut arguments: Vec<String> = Vec::new();
    arguments.push("merge".to_owned());
    arguments.push("--ff-only".to_owned());
    arguments.push(upstream);
    assert(text::texts(arguments@) =~= seq!["merge"@, "--ff-only"@, upstream@]);
    let merged: Result<String, CheckoutError> = git(
        runner,
        path,
        "apply the fast-forward without overwriting local changes",
        arguments,
    );
    let ghost first = runner.history()[at];
    if let Err(error) = merged {
        return Err(error);
    }
    let described: Result<CheckoutRevision, CheckoutError> = revision(runner, path);
    assert(runner.history()[at] == first);
    match described {
        Ok(after) => Ok(RefreshResult { before, after, advanced: true, commits_advanced }),
        Err(error) => Err(error),
    }
}

fn count_commits(counts: &str) -> (commits: Option<usize>)
    ensures
        match commits {
            Some(commits) => commits_behind(counts@) == Some(commits as nat),
            None => commits_behind(counts@) is None,
        },
{
    match text::split_word(counts) {
        None => None,
        Some((_, rest)) => match text::split_word(rest) {
            None => None,
            Some((word, _)) => match text::parse_unsigned(word, 10, usize::MAX as u64) {
                Some(commits) => Some(commits as usize),
                None => None,
            },
        },
    }
}

fn apply_upstream<R: CommandPort>(
    runner: &mut R,
    path: &str,
    before: CheckoutRevision,
    upstream: String,
) -> (result: Result<RefreshResult, CheckoutError>)
    requires
        before is Known,
    ensures
        refresh_part(
            count_run(
                final(runner).history(),
                old(runner).history().len() as int,
                path@,
                before->Known_0@,
                upstream@,
            ),
            old(runner).history(),
            final(runner).history(),
            result,
        ),
{
    let ghost at = runner.history().len() as int;
    let mut range: String = "HEAD...".to_owned();
    range.append(upstream.as_str());
    let mut arguments: Vec<String> = Vec::new();
    arguments.push("rev-list".to_owned());
    arguments.push("--left-right".to_owned());
    arguments.push("--count".to_owned());
    arguments.push(range);
    assert(text::texts(arguments@) =~= seq![
        "rev-list"@,
        "--left-right"@,
        "--count"@,
        "HEAD..."@ + upstream@,
    ]);
    let counted: Result<String, CheckoutError> = git(
        runner,
        path,
        "count fetched commits",
        arguments,
    );
    let ghost first = runner.history()[at];
    let counts: String = match counted {
        Ok(counts) => counts,
        Err(error) => {
            return Err(error);
        },
    };
    match count_commits(counts.as_str()) {
        None => {
            let mut stderr: String = "unexpected `git rev-list` output: ".to_owned();
            stderr.append(counts.as_str());
            Err(CheckoutError::Command { action: "count fetched commits", stderr })
        },
        Some(commits_advanced) => {
            if commits_advanced == 0 {
                return Ok(
                    RefreshResult {
                        before: before.clone(),
                        after: before,
                        advanced: false,
                        commits_advanced: 0,
                    },
                );
            }
            let merged: Result<RefreshResult, CheckoutError> = merge_upstream(
                runner,
                path,
                before,
                upstream,
                commits_advanced,
            );
            assert(runner.history()[at] == first);
            merged
        },
    }
}

fn fast_forward<R: CommandPort>(
    runner: &mut R,
    path: &str,
    before: CheckoutRevision,
    branch: String,
    upstream: String,
) -> (result: Result<RefreshResult, CheckoutError>)
    requires
        before is Known,
    ensures
        refresh_part(
            ancestor_run(
                final(runner).history(),
                old(runner).history().len() as int,
                path@,
                before->Known_0@,
                branch@,
                upstream@,
            ),
            old(runner).history(),
            final(runner).history(),
            result,
        ),
{
    let ghost at = runner.history().len() as int;
    let mut arguments: Vec<String> = Vec::new();
    arguments.push("merge-base".to_owned());
    arguments.push("--is-ancestor".to_owned());
    arguments.push("HEAD".to_owned());
    arguments.push(upstream.clone());
    assert(text::texts(arguments@) =~= seq![
        "merge-base"@,
        "--is-ancestor"@,
        "HEAD"@,
        upstream@,
    ]);
    let ancestor: Result<String, CheckoutError> = git(
        runner,
        path,
        "check whether the checkout can fast-forward",
        arguments,
    );
    let ghost first = runner.history()[at];
    if ancestor.is_err() {
        return Err(CheckoutError::NotFastForward { branch, upstream });
    }
    let applied: Result<RefreshResult, CheckoutError> = apply_upstream(
        runner,
        path,
        before,
        upstream,
    );
    assert(runner.history()[at] == first);
    applied
}

fn fetch_upstream<R: CommandPort>(
    runner: &mut R,
    path: &str,
    before: CheckoutRevision,
    branch: String,
    upstream: String,
) -> (result: Result<RefreshResult, CheckoutError>)
    requires
        before is Known,
    ensures
        refresh_part(
            fetch_run(
                final(runner).history(),
                old(runner).history().len() as int,
                path@,
                before->Known_0@,
                branch@,
                upstream@,
            ),
            old(runner).history(),
            final(runner).history(),
            result,
        ),
{
    let ghost at = runner.history().len() as int;
    let remote: &str = match text::split_once(upstream.as_str(), "/") {
        Some((remote, _)) => remote,
        None => upstream.as_str(),
    };
    let mut arguments: Vec<String> = Vec::new();
    arguments.push("fetch".to_owned());
    arguments.push(remote.to_owned());
    assert(text::texts(arguments@) =~= seq!["fetch"@, remote_of(upstream@)]);
    let fetched: Result<String, CheckoutError> = git(
        runner,
        path,
        "fetch the configured upstream",
        arguments,
    );
    let ghost first = runner.history()[at];
    if let Err(error) = fetched {
        return Err(error);
    }
    let applied: Result<RefreshResult, CheckoutError> = fast_forward(
        runner,
        path,
        before,
        branch,
        upstream,
    );
    assert(runner.history()[at] == first);
    applied
}

fn read_upstream<R: CommandPort>(
    runner: &mut R,
    path: &str,
    before: CheckoutRevision,
    branch: String,
) -> (result: Result<RefreshResult, CheckoutError>)
    requires
        before is Known,
    ensures
        refresh_part(
            upstream_run(
                final(runner).history(),
                old(runner).history().len() as int,
                path@,
                before->Known_0@,
                branch@,
            ),
            old(runner).history(),
            final(runner).history(),
            result,
        ),
{
    let ghost at = runner.history().len() as int;
    let mut arguments: Vec<String> = Vec::new();
    arguments.push("rev-parse".to_owned());
    arguments.push("--abbrev-ref".to_owned());
    arguments.push("--symbolic-full-name".to_owned());
    arguments.push("@{u}".to_owned());
    assert(text::texts(arguments@) =~= seq![
        "rev-parse"@,
        "--abbrev-ref"@,
        "--symbolic-full-name"@,
        "@{u}"@,
    ]);
    let upstream: Result<String, CheckoutError> = git(
        runner,
        path,
        "read the configured upstream",
        arguments,
    );
    let ghost first = runner.history()[at];
    match upstream {
        Err(_) => Err(CheckoutError::UpstreamNotConfigured),
        Ok(upstream) => {
            let applied: Result<RefreshResult, CheckoutError> = fetch_upstream(
                runner,
                path,
                before,
                branch,
                upstream,
            );
            assert(runner.history()[at] == first);
            applied
        },
    }
}

fn read_branch<R: CommandPort>(runner: &mut R, path: &str, before: CheckoutRevision) -> (result:
    Result<RefreshResult, CheckoutError>)
    requires
        before is Known,
    ensures
        refresh_part(
            branch_run(
                final(runner).history(),
                old(runner).history().len() as int,
                path@,
                before->Known_0@,
            ),
            old(runner).history(),
            final(runner).history(),
            result,
        ),
{
    let ghost at = runner.history().len() as int;
    let mut arguments: Vec<String> = Vec::new();
    arguments.push("rev-parse".to_owned());
    arguments.push("--abbrev-ref".to_owned());
    arguments.push("HEAD".to_owned());
    assert(text::texts(arguments@) =~= seq!["rev-parse"@, "--abbrev-ref"@, "HEAD"@]);
    let branch: Result<String, CheckoutError> = git(
        runner,
        path,
        "read the checked-out branch",
        arguments,
    );
    let ghost first = runner.history()[at];
    match branch {
        Err(error) => Err(error),
        Ok(branch) => {
            let applied: Result<RefreshResult, CheckoutError> = read_upstream(
                runner,
                path,
                before,
                branch,
            );
            assert(runner.history()[at] == first);
            applied
        },
    }
}

/// Fetches the checked-out branch's configured upstream and applies only a fast-forward.
///
/// Local modifications are retained when they do not conflict with the upstream tree. A
/// divergent branch is left unchanged so the operator can resolve it with their normal Git
/// workflow before any firmware operation begins.
pub fn refresh<R: CommandPort>(runner: &mut R, path: &str) -> (result: Result<
    RefreshResult,
    CheckoutError,
>)
    ensures
        refresh_part(
            refresh_run(final(runner).history(), old(runner).history().len() as int, path@),
            old(runner).history(),
            final(runner).history(),
            result,
        ),
{
    let ghost at = runner.history().len() as int;
    let described: Result<CheckoutRevision, CheckoutError> = revision(runner, path);
    let ghost first = runner.history()[at];
    match described {
        Err(error) => Err(error),
        Ok(before) => {
            let refreshed: Result<RefreshResult, CheckoutError> = read_branch(
                runner,
                path,
                before,
            );
            assert(runner.history()[at] == first);
            refreshed
        },
    }
}

/// A [`CheckoutPort`] backed by the local Git checkout through the system `git` binary, which its
/// command runner runs with untranslated output.
pub struct GitCheckoutAdapter<R> {
    runner: R,
    answered: Ghost<Seq<CheckoutAnswer>>,
}

impl<R: CommandPort> GitCheckoutAdapter<R> {
    /// Every command so far, in order.
    pub closed spec fn history(&self) -> Seq<CommandCall> {
        self.runner.history()
    }

    /// Creates an adapter that runs `git` through `runner`.
    pub fn new(runner: R) -> (adapter: Self)
        ensures
            adapter.history() == runner.history(),
            adapter.answers() == Seq::<CheckoutAnswer>::empty(),
    {
        GitCheckoutAdapter { runner, answered: Ghost(Seq::empty()) }
    }
}

impl<R: CommandPort> CheckoutPort for GitCheckoutAdapter<R> {
    closed spec fn answers(&self) -> Seq<CheckoutAnswer> {
        self.answered@
    }

    fn revision(&mut self, path: &str) -> (result: Result<CheckoutRevision, CheckoutError>)
        ensures
            service::ran_one(
                old(self).history(),
                final(self).history(),
                git_command(path@, describe_arguments()),
            ),
            match (result, git_result("describe"@, final(self).history().last().result)) {
                (Ok(revision), Ok(description)) => known_as(revision, description),
                (Err(error), Err(failure)) => error@ == failure,
                _ => false,
            },
    {
        let result: Result<CheckoutRevision, CheckoutError> = revision(&mut self.runner, path);
        self.answered = Ghost(
            self.answered@.push(CheckoutAnswer::Revision { path: path@, result }),
        );
        result
    }

    fn refresh(&mut self, path: &str) -> (result: Result<RefreshResult, CheckoutError>)
        ensures
            refresh_part(
                refresh_run(final(self).history(), old(self).history().len() as int, path@),
                old(self).history(),
                final(self).history(),
                result,
            ),
    {
        let result: Result<RefreshResult, CheckoutError> = refresh(&mut self.runner, path);
        self.answered = Ghost(
            self.answered@.push(CheckoutAnswer::Refresh { path: path@, result }),
        );
        result
    }
}

/// The Klipper checkout that is used where none is named: the one in the home directory.
pub fn default_klipper_source(home: &Option<String>) -> (source: String)
    ensures
        source@ == match *home {
            Some(home) => paths::joined_path(home@, "klipper"@),
            None => "klipper"@,
        },
{
    match home {
        Some(home) => paths::join(home.as_str(), "klipper"),
        None => "klipper".to_owned(),
    }
}

/// A refresh that succeeds says whether the checkout advanced by the number of commits, and a
/// checkout that did not advance is described as it was.
pub proof fn law_refresh_reports_what_it_applied(
    tape: Seq<CommandCall>,
    at: int,
    path: Seq<char>,
)
    requires
        refresh_run(tape, at, path).outcome is Ok,
    ensures
        ({
            let outcome = refresh_run(tape, at, path).outcome->Ok_0;
            &&& outcome.advanced == (outcome.commits_advanced > 0)
            &&& !outcome.advanced ==> outcome.after == outcome.before
        }),
{
}

/// A branch that cannot fast-forward is left unchanged: no command of such a refresh merges.
pub proof fn law_divergent_branch_is_not_merged(
    tape: Seq<CommandCall>,
    at: int,
    path: Seq<char>,
    upstream: Seq<char>,
    i: int,
)
    requires
        refresh_run(tape, at, path).faithful,
        refresh_run(tape, at, path).outcome is Err,
        refresh_run(tape, at, path).outcome->Err_0 is NotFastForward,
        at <= i < refresh_run(tape, at, path).next,
    ensures
        tape[i].command != git_command(path, seq!["merge"@, "--ff-only"@, upstream]),
{
    reveal_strlit("merge");
    reveal_strlit("describe");
    reveal_strlit("rev-parse");
    reveal_strlit("fetch");
    reveal_strlit("merge-base");
    reveal_strlit("rev-list");
    let merge = git_command(path, seq!["merge"@, "--ff-only"@, upstream]);
    assert(merge.arguments[2] == "merge"@);
    let word = tape[i].command.arguments[2];
    assert(word.len() != 5 || word[0] == 'f');
}

/// `git` is run in the checkout, and what it printed is its answer, without the white space around
/// it, exactly if it succeeded. A command that fails is told with what it was for and what it
/// printed to its error output.
pub proof fn law_git_answers_when_it_succeeds(
    path: Seq<char>,
    arguments: Seq<Seq<char>>,
    action: Seq<char>,
    output: CommandOutput,
    failure: IoFailure,
)
    ensures
        git_command(path, arguments).program == "git"@,
        git_command(path, arguments).arguments.take(2) == seq!["-C"@, path],
        git_command(path, arguments).arguments.skip(2) == arguments,
        output.success ==> git_result(action, Ok(output)) == Ok::<Seq<char>, CheckoutFailure>(
            text::trimmed(text::decoded(output.stdout@)),
        ),
        !output.success ==> git_result(action, Ok(output)) == Err::<Seq<char>, CheckoutFailure>(
            CheckoutFailure::Command {
                action,
                stderr: text::trimmed(text::decoded(output.stderr@)),
            },
        ),
        git_result(action, Err(CommandError::Spawn(failure))) == Err::<
            Seq<char>,
            CheckoutFailure,
        >(CheckoutFailure::Spawn(failure)),
{
    assert(git_command(path, arguments).arguments.take(2) =~= seq!["-C"@, path]);
    assert(git_command(path, arguments).arguments.skip(2) =~= arguments);
}

/// The remote of an upstream is what stands before the first slash of its name.
pub proof fn law_remote_stands_before_the_slash(remote: Seq<char>, branch: Seq<char>)
    requires
        !remote.contains('/'),
    ensures
        remote_of(remote + seq!['/'] + branch) == remote,
        remote_of(remote) == remote,
{
    reveal_strlit("/");
    assert("/"@ =~= seq!['/']);
    text::law_division_finds_the_character(remote, '/', branch);
}

/// Of the two numbers that `git rev-list` prints, the second one is how many commits the checkout
/// is behind. An output without a second word is not understood.
pub proof fn law_second_count_is_how_far_behind(ahead: nat, behind: nat)
    requires
        behind <= usize::MAX,
    ensures
        commits_behind(text::decimal(ahead) + seq!['\t'] + text::decimal(behind)) == Some(behind),
        commits_behind(text::decimal(ahead)) is None,
        commits_behind(Seq::empty()) is None,
{
    let first = text::decimal(ahead);
    let second = text::decimal(behind);
    let none = Seq::<char>::empty();
    text::law_decimal_is_of_digits(ahead);
    text::law_decimal_is_of_digits(behind);
    text::law_printed_ascii_is_no_white_space('\t');
    assert forall|i: int| 0 <= i < first.len() implies !text::is_white_space(
        #[trigger] first[i],
    ) by {
        text::law_printed_ascii_is_no_white_space(first[i]);
    }
    assert forall|i: int| 0 <= i < second.len() implies !text::is_white_space(
        #[trigger] second[i],
    ) by {
        text::law_printed_ascii_is_no_white_space(second[i]);
    }
    let rest = seq!['\t'] + second;
    text::law_first_word_ends_at_white_space(none, first, rest);
    assert(none + first + rest =~= first + seq!['\t'] + second);
    text::law_first_word_ends_at_white_space(seq!['\t'], second, none);
    assert(seq!['\t'] + second + none =~= rest);
    text::law_first_word_ends_at_white_space(none, first, none);
    assert(none + first + none =~= first);
    text::law_decimal_reads_back(behind, usize::MAX as nat);
}

/// Whether this call of `git` on the checkout had these arguments.
pub open spec fn ran_git(call: CommandCall, path: Seq<char>, arguments: Seq<Seq<char>>) -> bool {
    call.command == git_command(path, arguments)
}

/// Whether this call succeeded and printed `answer`.
pub open spec fn answered(call: CommandCall, answer: Seq<char>) -> bool {
    call.result is Ok && call.result->Ok_0.success && text::trimmed(
        text::decoded(call.result->Ok_0.stdout@),
    ) == answer
}

/// A refresh asks for the revision, the branch and its upstream, fetches the remote of that
/// upstream, and checks that the checkout can be moved forward and how far. If it is not behind it
/// ends there; if it is, it merges the upstream, by a fast forward only, and asks for the revision
/// again. It reports both revisions and how far it moved.
pub proof fn law_answered_refresh_moves_the_checkout(
    tape: Seq<CommandCall>,
    at: int,
    path: Seq<char>,
    before: Seq<char>,
    branch: Seq<char>,
    upstream: Seq<char>,
    counts: Seq<char>,
    after: Seq<char>,
)
    requires
        answered(tape[at], before),
        answered(tape[at + 1], branch),
        answered(tape[at + 2], upstream),
        tape[at + 3].result is Ok && tape[at + 3].result->Ok_0.success,
        tape[at + 4].result is Ok && tape[at + 4].result->Ok_0.success,
        answered(tape[at + 5], counts),
        tape[at + 6].result is Ok && tape[at + 6].result->Ok_0.success,
        answered(tape[at + 7], after),
        commits_behind(counts) is Some,
    ensures
        ({
            let step = refresh_run(tape, at, path);
            let behind = commits_behind(counts)->Some_0;
            let describe = seq!["describe"@, "--tags"@, "--long"@, "--always"@, "--dirty"@];
            &&& step.outcome is Ok
            &&& step.outcome->Ok_0.before == before
            &&& step.outcome->Ok_0.commits_advanced == behind
            &&& step.outcome->Ok_0.advanced == (behind > 0)
            &&& step.outcome->Ok_0.after == if behind > 0 {
                after
            } else {
                before
            }
            &&& step.next == if behind > 0 {
                at + 8
            } else {
                at + 6
            }
            &&& step.faithful <==> {
                &&& ran_git(tape[at], path, describe)
                &&& ran_git(tape[at + 1], path, seq!["rev-parse"@, "--abbrev-ref"@, "HEAD"@])
                &&& ran_git(
                    tape[at + 2],
                    path,
                    seq!["rev-parse"@, "--abbrev-ref"@, "--symbolic-full-name"@, "@{u}"@],
                )
                &&& ran_git(tape[at + 3], path, seq!["fetch"@, remote_of(upstream)])
                &&& ran_git(
                    tape[at + 4],
                    path,
                    seq!["merge-base"@, "--is-ancestor"@, "HEAD"@, upstream],
                )
                &&& ran_git(
                    tape[at + 5],
                    path,
                    seq!["rev-list"@, "--left-right"@, "--count"@, "HEAD..."@ + upstream],
                )
                &&& behind > 0 ==> ran_git(
                    tape[at + 6],
                    path,
                    seq!["merge"@, "--ff-only"@, upstream],
                ) && ran_git(tape[at + 7], path, describe)
            }
        }),
{
}

/// A refresh that cannot be carried out ends at the command that failed: a branch without an
/// upstream and one that has diverged are told apart from other failures.
pub proof fn law_failed_command_ends_the_refresh(
    tape: Seq<CommandCall>,
    at: int,
    path: Seq<char>,
    before: Seq<char>,
    branch: Seq<char>,
    upstream: Seq<char>,
)
    ensures
        ({
            let step = refresh_run(tape, at, path);
            let failed = |k: int| tape[k].result is Ok && !tape[k].result->Ok_0.success;
            let told = answered(tape[at], before) && answered(tape[at + 1], branch);
            let fetched = told && answered(tape[at + 2], upstream) && tape[at + 3].result is Ok
                && tape[at + 3].result->Ok_0.success;
            &&& failed(at) ==> step.outcome is Err && step.next == at + 1
            &&& answered(tape[at], before) && failed(at + 1) ==> step.outcome is Err && step.next
                == at + 2
            &&& told && failed(at + 2) ==> step.outcome == Err::<RefreshOutcome, CheckoutFailure>(
                CheckoutFailure::UpstreamNotConfigured,
            ) && step.next == at + 3
            &&& told && answered(tape[at + 2], upstream) && failed(at + 3) ==> step.outcome is Err
                && step.next == at + 4
            &&& fetched && failed(at + 4) ==> step.outcome == Err::<
                RefreshOutcome,
                CheckoutFailure,
            >(CheckoutFailure::NotFastForward { branch, upstream }) && step.next == at + 5
            &&& fetched && failed(at + 4) == false && failed(at + 5) ==> step.outcome is Err
        }),
{
}

/// A refresh hands over what it found: both revisions as `git` described them, whether it moved the
/// checkout and by how many commits; or the failure that ended it.
pub proof fn law_refresh_hands_over_its_outcome(
    result: Result<RefreshResult, CheckoutError>,
    outcome: Result<RefreshOutcome, CheckoutFailure>,
)
    requires
        refreshed_to(result, outcome),
    ensures
        result is Ok <==> outcome is Ok,
        result is Ok ==> result->Ok_0.commits_advanced == outcome->Ok_0.commits_advanced
            && result->Ok_0.advanced == outcome->Ok_0.advanced && result->Ok_0.before is Known
            && result->Ok_0.before->Known_0@ == outcome->Ok_0.before && result->Ok_0.after is Known
            && result->Ok_0.after->Known_0@ == outcome->Ok_0.after,
        result is Err ==> result->Err_0@ == outcome->Err_0,
{
}

} // verus!
