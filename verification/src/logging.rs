//! What is logged, and how verbosely.
use vstd::prelude::*;

use crate::builder::{
    BuildCommand,
    CommandCall,
    CommandContent,
    CommandError,
    CommandOutput,
    CommandPort,
};
use crate::error_chain;
use crate::text;

verus! {

/// The most verbose level that is shown.
#[derive(Clone, Copy, Debug, PartialEq, Eq, Structural)]
pub enum LogLevel {
    /// Warnings and errors.
    Warn,
    /// What is being done.
    Info,
    /// How it is being done.
    Debug,
}

impl LogLevel {
    /// The name of this level in a filter.
    pub fn name(self) -> (name: &'static str)
        ensures
            name@ == match self {
                LogLevel::Warn => "WARN"@,
                LogLevel::Info => "INFO"@,
                LogLevel::Debug => "DEBUG"@,
            },
    {
        match self {
            LogLevel::Warn => "WARN",
            LogLevel::Info => "INFO",
            LogLevel::Debug => "DEBUG",
        }
    }
}

/// The level shown on stderr for the number of times that more output was asked for.
pub fn stderr_level_for(verbosity: u8) -> (level: LogLevel)
    ensures
        level == level_for(verbosity),
{
    match verbosity {
        0 => LogLevel::Warn,
        1 => LogLevel::Info,
        _ => LogLevel::Debug,
    }
}

/// Whether a character needs no quotes in a command line.
pub open spec fn is_plain(c: char) -> bool {
    ||| 'a' <= c <= 'z'
    ||| 'A' <= c <= 'Z'
    ||| '0' <= c <= '9'
    ||| c == '_' || c == '-' || c == '.' || c == '/' || c == '=' || c == ':' || c == ','
}

/// How a word of a command line is shown: unchanged where it is plain, else in quotes.
pub open spec fn shown_token(value: Seq<char>) -> Seq<char> {
    if value.len() > 0 && forall|i: int| 0 <= i < value.len() ==> is_plain(#[trigger] value[i]) {
        value
    } else {
        text::quoted(value)
    }
}

/// How a word of a command line is shown: unchanged where it is plain, else in quotes.
pub fn shell_token(value: &str) -> (token: String)
    ensures
        token@ == shown_token(value@),
{
    let chars: Vec<char> = text::chars_of(value);
    let mut plain: bool = chars.len() > 0;
    let mut i: usize = 0;
    while i < chars.len()
        invariant
            i <= chars@.len(),
            chars@ == value@,
            plain == (chars@.len() > 0 && forall|k: int|
                0 <= k < i ==> is_plain(#[trigger] chars@[k])),
        decreases chars@.len() - i,
    {
        let c: char = chars[i];
        let fits: bool = ('a' <= c && c <= 'z') || ('A' <= c && c <= 'Z') || ('0' <= c && c <= '9')
            || c == '_' || c == '-' || c == '.' || c == '/' || c == '=' || c == ':' || c == ',';
        assert(fits == is_plain(chars@[i as int]));
        plain = plain && fits;
        i += 1;
    }
    if plain {
        value.to_owned()
    } else {
        text::quote(value)
    }
}

/// The words of a command line as they are shown.
pub open spec fn shown_tokens(arguments: Seq<Seq<char>>) -> Seq<Seq<char>> {
    Seq::new(arguments.len(), |i: int| shown_token(arguments[i]))
}

/// How the arguments of a command are shown, with the directory that it runs in.
pub open spec fn shown_arguments(command: CommandContent) -> Seq<char> {
    let arguments = text::joined(shown_tokens(command.arguments), " "@);
    match command.current_dir {
        Some(directory) => arguments + " (cd "@ + shown_token(directory) + ")"@,
        None => arguments,
    }
}

/// How the arguments of a command are shown, with the directory that it runs in.
pub fn display_arguments(command: &BuildCommand) -> (arguments: String)
    ensures
        arguments@ == shown_arguments(command@),
{
    let mut tokens: Vec<String> = Vec::new();
    let ghost given = command@.arguments;
    let mut i: usize = 0;
    assert(text::texts(tokens@) =~= shown_tokens(given.take(0)));
    while i < command.arguments.len()
        invariant
            i <= command.arguments@.len(),
            given == command@.arguments,
            given == text::texts(command.arguments@),
            text::texts(tokens@) == shown_tokens(given.take(i as int)),
        decreases command.arguments@.len() - i,
    {
        let ghost before = text::texts(tokens@);
        tokens.push(shell_token(command.arguments[i].as_str()));
        proof {
            assert(text::texts(tokens@) =~= before.push(shown_token(given[i as int])));
            assert(text::texts(tokens@) =~= shown_tokens(given.take(i + 1)));
        }
        i += 1;
    }
    assert(given.take(given.len() as int) =~= given);
    let mut shown: String = text::join(&tokens, " ");
    if let Some(directory) = &command.current_dir {
        shown.append(" (cd ");
        shown.append(shell_token(directory.as_str()).as_str());
        shown.append(")");
    }
    shown
}

/// The one event that a finished command leaves in the log.
#[derive(Clone, Debug, PartialEq, Eq)]
pub struct CommandEvent {
    /// The program.
    pub program: String,
    /// Its arguments, and the directory that it ran in.
    pub args: String,
    /// What came of it.
    pub outcome: CommandOutcome,
}

/// What came of a logged command.
#[derive(Clone, Debug, PartialEq, Eq)]
pub enum CommandOutcome {
    /// The command ran; its complete captured output.
    Finished {
        /// Whether it succeeded, in a word.
        exit: &'static str,
        /// Its standard output.
        stdout: String,
        /// Its standard error.
        stderr: String,
    },
    /// The command could not be started.
    FailedToStart {
        /// Why, with every cause.
        error: String,
    },
}

/// Whether `event` is what one command leaves in the log. The input of a command is never part of
/// it.
pub open spec fn records(call: CommandCall, event: CommandEvent) -> bool {
    &&& event.program@ == shown_token(call.command.program)
    &&& event.args@ == shown_arguments(call.command)
    &&& match call.result {
        Ok(output) => {
            &&& event.outcome is Finished
            &&& event.outcome->exit@ == if output.success {
                "success"@
            } else {
                "failure"@
            }
            &&& event.outcome->stdout@ == text::decoded(output.stdout@)
            &&& event.outcome->stderr@ == text::decoded(output.stderr@)
        },
        Err(error) => event.outcome is FailedToStart && event.outcome->error@ == text::joined(
            error.chain(),
            ": "@,
        ),
    }
}

/// Keeps the events of finished commands.
pub trait CommandLog: Sized {
    /// Every event so far, in order.
    /// Nothing is known of it by default: an implementation says what it is.
    open spec fn recorded(&self) -> Seq<CommandEvent> {
        arbitrary()
    }

    /// Records one event.
    fn record(&mut self, event: CommandEvent)
        ensures
            final(self).recorded() == old(self).recorded().push(event),
    ;
}

impl CommandLog for Vec<CommandEvent> {
    open spec fn recorded(&self) -> Seq<CommandEvent> {
        self@
    }

    fn record(&mut self, event: CommandEvent) {
        self.push(event);
    }
}

/// A command runner that traces every command and its complete captured output as a single
/// event per finished command (not streamed line-by-line).
pub struct LoggingCommandAdapter<R, L> {
    inner: R,
    log: L,
}

impl<R: CommandPort, L: CommandLog> LoggingCommandAdapter<R, L> {
    /// Every event so far, in order.
    pub closed spec fn recorded(&self) -> Seq<CommandEvent> {
        self.log.recorded()
    }

    /// Wraps `inner` so its command invocations and captured output are traced in `log`.
    pub fn new(inner: R, log: L) -> (adapter: Self)
        ensures
            adapter.history() == inner.history(),
            adapter.recorded() == log.recorded(),
    {
        LoggingCommandAdapter { inner, log }
    }

    /// Returns the log.
    pub fn into_log(self) -> (log: L)
        ensures
            log.recorded() == self.recorded(),
    {
        self.log
    }
}

impl<R: CommandPort, L: CommandLog> CommandPort for LoggingCommandAdapter<R, L> {
    closed spec fn history(&self) -> Seq<CommandCall> {
        self.inner.history()
    }

    fn run(&mut self, command: &BuildCommand) -> (result: Result<CommandOutput, CommandError>)
        ensures
            final(self).recorded().len() == old(self).recorded().len() + 1,
            old(self).recorded().is_prefix_of(final(self).recorded()),
            records(
                (CommandCall { command: command@, result }),
                final(self).recorded().last(),
            ),
    {
        let result: Result<CommandOutput, CommandError> = self.inner.run(command);
        let outcome: CommandOutcome = match &result {
            Ok(output) => CommandOutcome::Finished {
                exit: if output.success {
                    "success"
                } else {
                    "failure"
                },
                stdout: text::from_utf8_lossy(output.stdout.as_slice()),
                stderr: text::from_utf8_lossy(output.stderr.as_slice()),
            },
            Err(error) => {
                let mut messages: Vec<String> = Vec::new();
                error.append_chain(&mut messages);
                assert(text::texts(Seq::<String>::empty()) =~= Seq::empty());
                assert(text::texts(messages@) =~= error.chain());
                CommandOutcome::FailedToStart { error: error_chain(&messages) }
            },
        };
        self.log.record(
            CommandEvent {
                program: shell_token(command.program.as_str()),
                args: display_arguments(command),
                outcome,
            },
        );
        result
    }
}


/// What a command is given on its standard input never reaches the log: commands that differ in
/// nothing else are recorded alike.
pub proof fn law_input_is_not_recorded(call: CommandCall, input: Option<Seq<u8>>, event: CommandEvent)
    ensures
        records(call, event) == records(
            (CommandCall { command: CommandContent { stdin: input, ..call.command }, ..call }),
            event,
        ),
{
}

/// The level of a verbosity.
pub open spec fn level_for(verbosity: u8) -> LogLevel {
    if verbosity == 0 {
        LogLevel::Warn
    } else if verbosity == 1 {
        LogLevel::Info
    } else {
        LogLevel::Debug
    }
}

/// How much a level shows.
pub open spec fn detail(level: LogLevel) -> int {
    match level {
        LogLevel::Warn => 0,
        LogLevel::Info => 1,
        LogLevel::Debug => 2,
    }
}

/// Every step of verbosity shows one level more, up to the last one.
pub proof fn law_verbosity_shows_more(verbosity: u8, more: u8)
    ensures
        level_for(0) is Warn,
        verbosity <= 2 ==> detail(level_for(verbosity)) == verbosity,
        verbosity <= more ==> detail(level_for(verbosity)) <= detail(level_for(more)),
        verbosity >= 2 ==> level_for(verbosity) is Debug,
{
}

/// A word of ASCII letters, digits and `_-./=:,` is shown as it is. An empty word, and one with any
/// other character, is shown in quotes.
pub proof fn law_plain_words_are_shown_as_they_are(value: Seq<char>, i: int)
    ensures
        value.len() == 0 ==> shown_token(value) == text::quoted(value),
        value.len() > 0 && (forall|k: int| 0 <= k < value.len() ==> is_plain(#[trigger] value[k]))
            ==> shown_token(value) == value,
        0 <= i < value.len() && (value[i] == ' ' || value[i] == '"' || value[i] == '\'' || value[i]
            == '\n' || value[i] == '$' || value[i] == ';' || value[i] == '\\')
            ==> shown_token(value) == text::quoted(value),
        0 <= i < value.len() && shown_token(value) == value ==> is_plain(value[i]) || value
            == text::quoted(value),
{
    if 0 <= i < value.len() && !is_plain(value[i]) {
        assert(!(forall|k: int| 0 <= k < value.len() ==> is_plain(#[trigger] value[k])));
    }
}

/// Arguments are shown word by word in their order, with spaces between them, and after them the
/// directory in which the command ran, if one was given.
pub proof fn law_arguments_are_shown_in_order(
    program: Seq<char>,
    arguments: Seq<Seq<char>>,
    word: Seq<char>,
    directory: Seq<char>,
)
    ensures
        ({
            let plain = CommandContent { program, arguments, current_dir: None, stdin: None };
            let longer = CommandContent {
                program,
                arguments: arguments.push(word),
                current_dir: None,
                stdin: None,
            };
            let placed = CommandContent { current_dir: Some(directory), ..plain };
            &&& arguments.len() == 0 ==> shown_arguments(longer) == shown_token(word)
            &&& arguments.len() > 0 ==> shown_arguments(longer) == shown_arguments(plain) + " "@
                + shown_token(word)
            &&& shown_arguments(placed) == shown_arguments(plain) + " (cd "@ + shown_token(
                directory,
            ) + ")"@
        }),
{
    let tokens = shown_tokens(arguments);
    let more = shown_tokens(arguments.push(word));
    assert(more.drop_last() =~= tokens);
    assert(more =~= tokens.push(shown_token(word)));
    reveal_with_fuel(text::joined, 2);
    if arguments.len() == 0 {
        assert(text::joined(more, " "@) =~= shown_token(word));
    }
}

/// A command is recorded with its program, its arguments and its whole output, as a success
/// exactly if it was one. A command that could not be started is recorded with the reason.
pub proof fn law_command_is_recorded_as_it_came_out(call: CommandCall, event: CommandEvent)
    requires
        records(call, event),
    ensures
        event.program@ == shown_token(call.command.program),
        event.args@ == shown_arguments(call.command),
        event.outcome is Finished <==> call.result is Ok,
        call.result is Ok ==> (event.outcome->exit@ == "success"@ <==> call.result->Ok_0.success),
        call.result is Ok ==> event.outcome->stdout@ == text::decoded(call.result->Ok_0.stdout@)
            && event.outcome->stderr@ == text::decoded(call.result->Ok_0.stderr@),
        call.result is Err ==> event.outcome->error@ == text::joined(
            call.result->Err_0.chain(),
            ": "@,
        ),
{
    reveal_strlit("success");
    reveal_strlit("failure");
    assert("success"@[0] == 's' && "failure"@[0] == 'f');
}

} // verus!
