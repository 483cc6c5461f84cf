//! Klipper's systemd service.
use vstd::prelude::*;

use crate::builder;
use crate::builder::{
    BuildCommand,
    CommandCall,
    CommandContent,
    CommandError,
    CommandOutput,
    CommandPort,
};
use crate::text;

verus! {

/// A Klipper service state reported by systemd.
#[derive(Clone, Debug, PartialEq, Eq)]
pub enum ServiceState {
    /// Klipper is active.
    Active,
    /// Klipper is inactive.
    Inactive,
    /// systemd reports the unit failed.
    Failed,
    /// systemd reports a known transitional state.
    Transitioning(String),
    /// systemd returned an unrecognized state.
    Unknown(String),
}

/// A service state by its characters.
pub enum StateName {
    Active,
    Inactive,
    Failed,
    Transitioning(Seq<char>),
    Unknown(Seq<char>),
}

impl View for ServiceState {
    type V = StateName;

    open spec fn view(&self) -> StateName {
        match *self {
            ServiceState::Active => StateName::Active,
            ServiceState::Inactive => StateName::Inactive,
            ServiceState::Failed => StateName::Failed,
            ServiceState::Transitioning(name) => StateName::Transitioning(name@),
            ServiceState::Unknown(name) => StateName::Unknown(name@),
        }
    }
}

/// The state that systemd's word for it stands for.
pub open spec fn state_named(name: Seq<char>) -> StateName {
    if name == "active"@ {
        StateName::Active
    } else if name == "inactive"@ {
        StateName::Inactive
    } else if name == "failed"@ {
        StateName::Failed
    } else if name == "activating"@ || name == "deactivating"@ || name == "reloading"@ {
        StateName::Transitioning(name)
    } else {
        StateName::Unknown(name)
    }
}

impl StateName {
    /// The diagnostic form of this state.
    pub open spec fn text(self) -> Seq<char> {
        match self {
            StateName::Active => "Active"@,
            StateName::Inactive => "Inactive"@,
            StateName::Failed => "Failed"@,
            StateName::Transitioning(name) => "Transitioning("@ + text::quoted(name) + ")"@,
            StateName::Unknown(name) => "Unknown("@ + text::quoted(name) + ")"@,
        }
    }
}

impl ServiceState {
    /// Reads systemd's word for a state.
    pub fn from_name(name: String) -> (state: Self)
        ensures
            state@ == state_named(name@),
    {
        let word: &str = name.as_str();
        if text::same_text(word, "active") {
            ServiceState::Active
        } else if text::same_text(word, "inactive") {
            ServiceState::Inactive
        } else if text::same_text(word, "failed") {
            ServiceState::Failed
        } else if text::same_text(word, "activating") || text::same_text(word, "deactivating")
            || text::same_text(word, "reloading") {
            ServiceState::Transitioning(name)
        } else {
            ServiceState::Unknown(name)
        }
    }

    /// The diagnostic form of this state.
    pub fn describe(&self) -> (description: String)
        ensures
            description@ == self@.text(),
    {
        match self {
            ServiceState::Active => "Active".to_owned(),
            ServiceState::Inactive => "Inactive".to_owned(),
            ServiceState::Failed => "Failed".to_owned(),
            ServiceState::Transitioning(name) => {
                let mut description: String = "Transitioning(".to_owned();
                description.append(text::quote(name.as_str()).as_str());
                description.append(")");
                description
            },
            ServiceState::Unknown(name) => {
                let mut description: String = "Unknown(".to_owned();
                description.append(text::quote(name.as_str()).as_str());
                description.append(")");
                description
            },
        }
    }
}

/// Errors while querying or changing Klipper's systemd service state.
#[derive(PartialEq, Eq)]
pub enum ServiceError {
    /// The host could not run a systemctl command.
    CommandPort {
        /// The command that could not be invoked.
        command: BuildCommand,
        /// The underlying runner failure.
        source: CommandError,
    },
    /// systemctl rejected a requested state change.
    CommandFailed {
        /// The systemctl command that failed.
        command: Box<BuildCommand>,
        /// Captured command output.
        output: Box<CommandOutput>,
    },
}

/// A service error by its characters.
pub enum ServiceFailure {
    CommandPort { command: CommandContent, source: CommandError },
    CommandFailed { command: CommandContent, output: CommandOutput },
}

impl View for ServiceError {
    type V = ServiceFailure;

    open spec fn view(&self) -> ServiceFailure {
        match *self {
            ServiceError::CommandPort { command, source } => ServiceFailure::CommandPort {
                command: command@,
                source,
            },
            ServiceError::CommandFailed { command, output } => ServiceFailure::CommandFailed {
                command: command@,
                output: *output,
            },
        }
    }
}

impl ServiceFailure {
    /// The wording of this error.
    pub open spec fn text(self) -> Seq<char> {
        match self {
            ServiceFailure::CommandPort { command, source } => "could not invoke "@
                + command.program,
            ServiceFailure::CommandFailed { command, output } => command.program + " failed: "@
                + output.error_text(),
        }
    }

    /// The wording of this error and of each of its causes.
    pub open spec fn chain(self) -> Seq<Seq<char>> {
        match self {
            ServiceFailure::CommandPort { command, source } => seq![self.text()] + source.chain(),
            ServiceFailure::CommandFailed { .. } => seq![self.text()],
        }
    }
}

impl ServiceError {
    /// The wording of this error.
    pub fn message(&self) -> (message: String)
        ensures
            message@ == self@.text(),
    {
        match self {
            ServiceError::CommandPort { command, .. } => {
                let mut message: String = "could not invoke ".to_owned();
                message.append(command.program.as_str());
                message
            },
            ServiceError::CommandFailed { command, output } => {
                let mut message: String = command.program.clone();
                message.append(" failed: ");
                message.append(output.trimmed_error().as_str());
                message
            },
        }
    }

    /// Appends the wording of this error and of each of its causes.
    pub fn append_chain(&self, messages: &mut Vec<String>)
        ensures
            text::texts(final(messages)@) == text::texts(old(messages)@) + self@.chain(),
    {
        let ghost before = text::texts(messages@);
        messages.push(self.message());
        assert(text::texts(messages@) =~= before.push(self@.text()));
        if let ServiceError::CommandPort { source, .. } = self {
            source.append_chain(messages);
        }
        assert(text::texts(messages@) =~= before + self@.chain());
    }
}

/// The privileged systemctl command for one action on Klipper's unit.
pub open spec fn systemctl(action: Seq<char>) -> CommandContent {
    builder::plain_command("sudo"@, seq!["-n"@, "/bin/systemctl"@, action, "klipper"@])
}

/// The state that the answer to a query means.
pub open spec fn state_result(result: Result<CommandOutput, CommandError>) -> Result<
    StateName,
    ServiceFailure,
> {
    match result {
        Err(source) => Err(
            ServiceFailure::CommandPort { command: systemctl("is-active"@), source },
        ),
        Ok(output) => Ok(state_named(output.output_text())),
    }
}

/// What the answer to a requested state change means.
pub open spec fn change_result(
    action: Seq<char>,
    result: Result<CommandOutput, CommandError>,
) -> Result<(), ServiceFailure> {
    match result {
        Err(source) => Err(ServiceFailure::CommandPort { command: systemctl(action), source }),
        Ok(output) => if output.success {
            Ok(())
        } else {
            Err(ServiceFailure::CommandFailed { command: systemctl(action), output })
        },
    }
}

/// Whether exactly one command was run between two histories.
pub open spec fn ran_one(
    before: Seq<CommandCall>,
    after: Seq<CommandCall>,
    command: CommandContent,
) -> bool {
    after.len() == before.len() + 1 && before.is_prefix_of(after) && after.last().command == command
}

/// A testable systemd controller for Klipper's service lifecycle.
pub struct KlipperService<R> {
    runner: R,
}

impl<R: CommandPort> KlipperService<R> {
    /// Every command so far, in order.
    pub closed spec fn history(&self) -> Seq<CommandCall> {
        self.runner.history()
    }

    /// Creates a controller using `runner` to invoke systemctl.
    pub fn new(runner: R) -> (service: Self)
        ensures
            service.history() == runner.history(),
    {
        KlipperService { runner }
    }

    /// Returns the runner used for privileged host commands.
    pub fn runner(&mut self) -> (runner: &mut R)
        ensures
            runner.history() == old(self).history(),
            final(self).history() == final(runner).history(),
    {
        &mut self.runner
    }

    /// Returns systemd's current Klipper state without changing it.
    pub fn state(&mut self) -> (state: Result<ServiceState, ServiceError>)
        ensures
            ran_one(old(self).history(), final(self).history(), systemctl("is-active"@)),
            state_result(final(self).history().last().result) == match state {
                Ok(state) => Ok::<StateName, ServiceFailure>(state@),
                Err(error) => Err(error@),
            },
    {
        match self.run_systemctl("is-active") {
            Ok((_, output)) => Ok(ServiceState::from_name(output.trimmed_output())),
            Err(error) => Err(error),
        }
    }

    /// Stops Klipper and returns an error if systemctl rejects the request.
    pub fn stop(&mut self) -> (result: Result<(), ServiceError>)
        ensures
            ran_one(old(self).history(), final(self).history(), systemctl("stop"@)),
            change_result("stop"@, final(self).history().last().result) == match result {
                Ok(_) => Ok::<(), ServiceFailure>(()),
                Err(error) => Err(error@),
            },
    {
        self.run_state_change("stop")
    }

    /// Starts Klipper and returns an error if systemctl rejects the request.
    pub fn start(&mut self) -> (result: Result<(), ServiceError>)
        ensures
            ran_one(old(self).history(), final(self).history(), systemctl("start"@)),
            change_result("start"@, final(self).history().last().result) == match result {
                Ok(_) => Ok::<(), ServiceFailure>(()),
                Err(error) => Err(error@),
            },
    {
        self.run_state_change("start")
    }

    fn run_state_change(&mut self, action: &str) -> (result: Result<(), ServiceError>)
        ensures
            ran_one(old(self).history(), final(self).history(), systemctl(action@)),
            change_result(action@, final(self).history().last().result) == match result {
                Ok(_) => Ok::<(), ServiceFailure>(()),
                Err(error) => Err(error@),
            },
    {
        match self.run_systemctl(action) {
            Ok((command, output)) => if output.success {
                Ok(())
            } else {
                Err(
                    ServiceError::CommandFailed {
                        command: Box::new(command),
                        output: Box::new(output),
                    },
                )
            },
            Err(error) => Err(error),
        }
    }

    fn run_systemctl(&mut self, action: &str) -> (result: Result<
        (BuildCommand, CommandOutput),
        ServiceError,
    >)
        ensures
            ran_one(old(self).history(), final(self).history(), systemctl(action@)),
            match result {
                Ok((command, output)) => command@ == systemctl(action@)
                    && final(self).history().last().result == Ok::<CommandOutput, CommandError>(
                    output,
                ),
                Err(error) => final(self).history().last().result is Err && error@ == (
                ServiceFailure::CommandPort {
                    command: systemctl(action@),
                    source: final(self).history().last().result->Err_0,
                }),
            },
    {
        let mut arguments: Vec<String> = Vec::new();
        arguments.push("-n".to_owned());
        arguments.push("/bin/systemctl".to_owned());
        arguments.push(action.to_owned());
        arguments.push("klipper".to_owned());
        assert(text::texts(arguments@) =~= seq!["-n"@, "/bin/systemctl"@, action@, "klipper"@]);
        let command: BuildCommand = BuildCommand {
            program: "sudo".to_owned(),
            arguments,
            current_dir: None,
            stdin: None,
        };
        match self.runner.run(&command) {
            Ok(output) => Ok((command, output)),
            Err(source) => Err(ServiceError::CommandPort { command, source }),
        }
    }
}

/// Klipper counts as running, stopped or failed exactly if systemd says so in these words, and as
/// changing exactly if it is starting, stopping or reloading. Any other word is kept as it is.
pub proof fn law_state_is_what_systemd_says(name: Seq<char>)
    ensures
        ({
            let state = state_named(name);
            let changing = name == "activating"@ || name == "deactivating"@ || name
                == "reloading"@;
            &&& state is Active <==> name == "active"@
            &&& state is Inactive <==> name == "inactive"@
            &&& state is Failed <==> name == "failed"@
            &&& changing <==> state is Transitioning
            &&& state is Transitioning ==> state->Transitioning_0 == name
            &&& state is Unknown ==> state->Unknown_0 == name
        }),
{
    reveal_strlit("active");
    reveal_strlit("inactive");
    reveal_strlit("failed");
    reveal_strlit("activating");
    reveal_strlit("deactivating");
    reveal_strlit("reloading");
    assert("active"@.len() == 6 && "inactive"@.len() == 8 && "failed"@.len() == 6);
    assert("activating"@.len() == 10 && "deactivating"@.len() == 12 && "reloading"@.len() == 9);
    assert("active"@[0] == 'a' && "failed"@[0] == 'f');
}

/// The state is read from what the command printed, whether or not the command succeeded: `systemctl
/// is-active` fails where the service is not active.
pub proof fn law_state_is_read_from_the_output(output: CommandOutput, other: CommandOutput, error:
    CommandError)
    requires
        output.stdout@ == other.stdout@,
    ensures
        state_result(Ok(output)) is Ok,
        state_result(Ok(output)) == state_result(Ok(other)),
        text::trimmed(text::decoded(output.stdout@)) == "active"@ ==> state_result(Ok(output))
            == Ok::<StateName, ServiceFailure>(StateName::Active),
        state_result(Err(error)) is Err,
{
}

/// A command on the service is `sudo -n /bin/systemctl`, the action, and the unit `klipper`. A
/// change succeeded exactly if that command did.
pub proof fn law_service_command_names_the_action(
    action: Seq<char>,
    result: Result<CommandOutput, CommandError>,
)
    ensures
        systemctl(action).program == "sudo"@,
        systemctl(action).arguments == seq!["-n"@, "/bin/systemctl"@, action, "klipper"@],
        systemctl(action).stdin is None,
        change_result(action, result) is Ok <==> result is Ok && result->Ok_0.success,
        result is Ok && !result->Ok_0.success ==> change_result(action, result) == Err::<
            (),
            ServiceFailure,
        >(
            ServiceFailure::CommandFailed { command: systemctl(action), output: result->Ok_0 },
        ),
{
}

} // verus!
