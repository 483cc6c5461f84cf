//! Durable, human-readable traces for one updater run.
use vstd::prelude::*;

use crate::failure::IoFailure;
use crate::paths;
use crate::text;

verus! {

/// The line that explains a run log.
pub const FORMAT_LINE: &'static str =
    "log format: actions, commands, complete stdout, complete stderr, and outcomes\n";

/// A persistent, append-only record of one updater run.
#[derive(Clone, Debug, PartialEq, Eq)]
pub struct RunLog {
    path: String,
}

/// Errors while creating the durable record for an updater run.
#[derive(Clone, Debug, PartialEq, Eq)]
pub enum RunLogError {
    /// The log file could not be created in the run workspace.
    Create {
        /// Where it was to be created.
        path: String,
        /// The underlying failure.
        source: IoFailure,
    },
}

impl RunLogError {
    /// The wording of this error.
    pub open spec fn text(self) -> Seq<char> {
        match self {
            RunLogError::Create { path, source } => "could not create run log "@ + path@,
        }
    }

    /// The wording of this error and of each of its causes.
    pub open spec fn chain(self) -> Seq<Seq<char>> {
        match self {
            RunLogError::Create { path, source } => seq![self.text(), source.message@],
        }
    }

    /// Appends the wording of this error and of each of its causes.
    pub fn append_chain(&self, messages: &mut Vec<String>)
        ensures
            text::texts(final(messages)@) == text::texts(old(messages)@) + self.chain(),
    {
        match self {
            RunLogError::Create { path, source } => {
                let mut message: String = "could not create run log ".to_owned();
                message.append(path.as_str());
                messages.push(message);
                messages.push(source.message.clone());
            },
        }
        assert(text::texts(messages@) =~= text::texts(old(messages)@) + self.chain());
    }
}

/// The line that records an action at a time in milliseconds.
pub open spec fn action_line(timestamp: nat, action: Seq<char>) -> Seq<char> {
    "["@ + text::decimal(timestamp) + "] action: "@ + action + "\n"@
}

impl RunLog {
    /// Where the record is kept.
    pub closed spec fn location(&self) -> Seq<char> {
        self.path@
    }

    /// Where a run workspace keeps its record.
    pub fn path_in(workspace: &str) -> (path: String)
        ensures
            path@ == paths::joined_path(workspace@, "run.log"@),
    {
        paths::join(workspace, "run.log")
    }

    /// Begins the `run.log` record retained in a run workspace, once its file was created or could
    /// not be; gives what is written first.
    pub fn create(workspace: &str, created: Result<(), IoFailure>, timestamp: u64) -> (log: Result<
        (RunLog, String),
        RunLogError,
    >)
        ensures
            match (created, log) {
                (Ok(_), Ok((log, first))) => log.location() == paths::joined_path(
                    workspace@,
                    "run.log"@,
                ) && first@ == action_line(timestamp as nat, "run started"@) + FORMAT_LINE@,
                (Err(source), Err(RunLogError::Create { path, source: reported })) => path@
                    == paths::joined_path(workspace@, "run.log"@) && reported == source,
                _ => false,
            },
    {
        let path: String = Self::path_in(workspace);
        match created {
            Err(source) => Err(RunLogError::Create { path, source }),
            Ok(_) => {
                let log: RunLog = RunLog { path };
                let mut first: String = log.action(timestamp, "run started");
                first.append(FORMAT_LINE);
                Ok((log, first))
            },
        }
    }

    /// Returns the retained trace path.
    pub fn path(&self) -> (path: &str)
        ensures
            path@ == self.location(),
    {
        self.path.as_str()
    }

    /// The line that records a user-meaningful action in the current run.
    pub fn action(&self, timestamp: u64, action: &str) -> (line: String)
        ensures
            line@ == action_line(timestamp as nat, action@),
    {
        let mut line: String = "[".to_owned();
        line.append(text::decimal_text(timestamp).as_str());
        line.append("] action: ");
        line.append(action);
        line.append("\n");
        line
    }
}

/// The age in nanoseconds beyond which a log of an earlier run is removed: one day.
pub const STALE_LOG_NANOS: u128 = 86_400_000_000_000;

/// Whether a temporary file is a log of an earlier run that is old enough to be removed. A log
/// whose age is not known is kept.
pub fn is_stale_log(name: &str, age_nanos: Option<u128>) -> (stale: bool)
    ensures
        stale == is_stale(name@, age_nanos),
{
    text::starts_with(name, "aldis-") && text::ends_with(name, ".log") && match age_nanos {
        Some(age) => age > STALE_LOG_NANOS,
        None => false,
    }
}

/// Whether a file of this name and age is a log that is no longer kept.
pub open spec fn is_stale(name: Seq<char>, age_nanos: Option<u128>) -> bool {
    &&& "aldis-"@.is_prefix_of(name)
    &&& ".log"@.is_suffix_of(name)
    &&& age_nanos is Some
    &&& age_nanos->Some_0 > STALE_LOG_NANOS
}

/// Only logs of this program are ever stale, once they are more than a day old; a file whose age is
/// not known is kept.
pub proof fn law_only_old_logs_are_stale(name: Seq<char>, age_nanos: Option<u128>, middle: Seq<char>)
    ensures
        is_stale(name, age_nanos) ==> name.len() >= 6 && name[0] == 'a' && name[5] == '-'
            && name.last() == 'g' && age_nanos is Some,
        age_nanos is None ==> !is_stale(name, age_nanos),
        age_nanos is Some && age_nanos->Some_0 <= 24 * 60 * 60 * 1_000_000_000 ==> !is_stale(
            name,
            age_nanos,
        ),
        age_nanos is Some && age_nanos->Some_0 > 24 * 60 * 60 * 1_000_000_000 ==> is_stale(
            "aldis-"@ + middle + ".log"@,
            age_nanos,
        ),
{
    reveal_strlit("aldis-");
    reveal_strlit(".log");
    let whole = "aldis-"@ + middle + ".log"@;
    assert("aldis-"@.is_prefix_of(whole)) by {
        assert(whole.take(6) =~= "aldis-"@);
    }
    assert(".log"@.is_suffix_of(whole)) by {
        assert(whole.skip(whole.len() - 4) =~= ".log"@);
    }
    if is_stale(name, age_nanos) {
        let head = "aldis-"@;
        let tail = ".log"@;
        assert(name.take(6) =~= head);
        assert(name.take(6)[0] == head[0] && name.take(6)[5] == head[5]);
        assert(name.skip(name.len() - 4)[3] == tail[3]);
    }
}

/// A line of the log holds its time in square brackets, what was done, and a line feed at its end.
pub proof fn law_line_holds_time_and_action(timestamp: nat, action: Seq<char>)
    ensures
        ({
            let line = action_line(timestamp, action);
            let time = text::decimal(timestamp);
            &&& line[0] == '['
            &&& line.subrange(1, time.len() as int + 1) == time
            &&& line[time.len() as int + 1] == ']'
            &&& line.last() == '\n'
            &&& line.subrange(line.len() - 1 - action.len(), line.len() - 1) == action
        }),
{
    reveal_strlit("[");
    reveal_strlit("] action: ");
    reveal_strlit("\n");
    let line = action_line(timestamp, action);
    let time = text::decimal(timestamp);
    assert(line.subrange(1, time.len() as int + 1) =~= time);
    assert(line.subrange(line.len() - 1 - action.len(), line.len() - 1) =~= action);
}

} // verus!
