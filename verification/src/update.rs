//! The interactive build-and-flash update command.
use vstd::prelude::*;

use crate::checkout::{CheckoutError, RefreshResult};
use crate::coordinator;
use crate::coordinator::{
    prepare_target,
    CompletedUpdate,
    CoordinatorError,
    CoordinatorFailure,
    FlashCoordinatorError,
    PendingBuild,
    UpdateFailure,
};
use crate::discovery;
use crate::discovery::resolve_target_name;
use crate::eligibility;
use crate::eligibility::{
    classify_mcu,
    is_selected,
    revisions_match,
    CheckoutRevision,
    Eligibility,
    UpdateSelection,
};
use crate::error_chain;
use crate::flash::system::SystemFlashError;
use crate::moonraker::{
    Mcu,
    McuInventory,
    McuTransport,
    MoonrakerError,
    PrintState,
    PrinterStatePort,
};
use crate::prepare;
use crate::prepare::{find_mcu, PreparedBuild};
use crate::retry::{retry_until_available, RetryStep};
use crate::status;
use crate::status::{
    checkout_label,
    format_status,
    refresh_label,
    revision_or_indeterminate,
    with_context,
};
use crate::text;
use crate::ui;
use crate::ui::{say, UiOutput, UiText};
use crate::workspace;
use crate::workspace::{DirectoryFailure, RunWorkspace, TargetDirectories};

verus! {

/// How long an MCU may take to come back after its flash, in nanoseconds.
pub const RESTART_TIMEOUT_NANOS: u128 = 15_000_000_000;

/// How long a wait for an MCU's restart pauses, in nanoseconds.
pub const RESTART_POLL_NANOS: u128 = 100_000_000;

/// How long all updated MCUs may take to reconnect, in nanoseconds.
pub const RECONNECT_TIMEOUT_NANOS: u128 = 30_000_000_000;

/// How long a wait for the updated MCUs pauses, in nanoseconds.
pub const RECONNECT_POLL_NANOS: u128 = 250_000_000;

/// What the operator is asked before the checkout is refreshed.
pub const PULL_QUESTION: &'static str =
    "Pull the configured Klipper upstream before updating? [Y/n] ";

/// The word for a number of MCUs.
pub open spec fn count_word(count: nat) -> Seq<char> {
    if count == 1 {
        "MCU"@
    } else {
        "MCUs"@
    }
}

/// The word for a number of MCUs.
pub fn mcu_count_label(count: usize) -> (word: &'static str)
    ensures
        word@ == count_word(count as nat),
{
    if count == 1 {
        "MCU"
    } else {
        "MCUs"
    }
}

/// The selection that an update without names makes.
pub open spec fn selects(all: bool) -> UpdateSelection {
    if all {
        UpdateSelection::All
    } else {
        UpdateSelection::Required
    }
}

/// The selection that an update without names makes.
pub fn selection_for(all: bool) -> (selection: UpdateSelection)
    ensures
        selection == selects(all),
{
    if all {
        UpdateSelection::All
    } else {
        UpdateSelection::Required
    }
}

/// What became of Klipper after a failed update.
pub open spec fn aftermath(
    restore: Option<Result<(), CoordinatorFailure>>,
    origin: Seq<char>,
) -> Seq<char> {
    match restore {
        None => ". Klipper may still be stopped; fix the issue, then restart it manually"@,
        Some(Ok(_)) => ". Klipper has been left in its state from before this "@ + origin,
        Some(Err(failure)) => ". Klipper also failed to restore: "@ + text::joined(
            failure.chain(),
            ": "@,
        ) + "; fix the issue, then restart it manually"@,
    }
}

/// What became of Klipper after a failed update.
pub fn describe_aftermath(restore: &Option<Result<(), CoordinatorError>>, origin: &str) -> (
    message: String)
    ensures
        message@ == aftermath(restored(*restore), origin@),
{
    match restore {
        None =>
        ". Klipper may still be stopped; fix the issue, then restart it manually".to_owned(),
        Some(Ok(_)) => {
            let mut message: String =
                ". Klipper has been left in its state from before this ".to_owned();
            message.append(origin);
            message
        },
        Some(Err(error)) => {
            let mut message: String = ". Klipper also failed to restore: ".to_owned();
            message.append(coordinator_chain(error).as_str());
            message.append("; fix the issue, then restart it manually");
            message
        },
    }
}

/// A restore by the characters of its error.
pub open spec fn restored(restore: Option<Result<(), CoordinatorError>>) -> Option<
    Result<(), CoordinatorFailure>,
> {
    match restore {
        None => None,
        Some(Ok(_)) => Some(Ok(())),
        Some(Err(error)) => Some(Err(error@)),
    }
}

/// A coordinator error together with its full chain of causes.
pub fn coordinator_chain(error: &CoordinatorError) -> (message: String)
    ensures
        message@ == text::joined(error@.chain(), ": "@),
{
    let mut messages: Vec<String> = Vec::new();
    assert(text::texts(messages@) =~= Seq::empty());
    error.append_chain(&mut messages);
    assert(text::texts(messages@) =~= error@.chain());
    error_chain(&messages)
}

/// The wording of a failed update.
pub open spec fn failure_text(
    failure: UpdateFailure<SystemFlashError>,
    restore: Option<Result<(), CoordinatorFailure>>,
) -> Seq<char> {
    "update failed: "@ + (match failure {
        UpdateFailure::Coordinator(failure) => text::joined(failure.chain(), ": "@),
        UpdateFailure::Artifact(failure) => "could not read the built firmware: "@
            + failure.message@,
        UpdateFailure::Flash(error) => error.text(),
    }) + aftermath(restore, "update"@)
}

/// The wording of a failed update, with what became of Klipper.
pub fn update_failure(
    error: FlashCoordinatorError<SystemFlashError>,
    restore: Option<Result<(), CoordinatorError>>,
) -> (message: String)
    ensures
        message@ == failure_text(error@, restored(restore)),
{
    let mut message: String = "update failed: ".to_owned();
    match &error {
        FlashCoordinatorError::Coordinator(error) => {
            message.append(coordinator_chain(error).as_str());
        },
        FlashCoordinatorError::Artifact(failure) => {
            let mut detail: String = "could not read the built firmware: ".to_owned();
            detail.append(failure.message.as_str());
            message.append(detail.as_str());
        },
        FlashCoordinatorError::Flash(error) => {
            message.append(error.message().as_str());
        },
    }
    message.append(describe_aftermath(&restore, "update").as_str());
    message
}

/// Why Klipper must not be stopped, where it must not.
pub open spec fn busy_text(answer: Result<PrintState, MoonrakerError>) -> Option<Seq<char>> {
    match answer {
        Ok(state) => if state.idle() {
            None
        } else {
            Some(
                "the printer is "@ + state.text()
                    + "; refusing to stop Klipper, run again when it is idle"@,
            )
        },
        Err(error) => Some(
            "could not confirm the printer is idle; refusing to stop Klipper: "@ + text::joined(
                error.chain(),
                ": "@,
            ),
        ),
    }
}

/// Whether a result is an error of the given wording, or a success where there is none.
pub open spec fn says(result: Result<(), String>, refusal: Option<Seq<char>>) -> bool {
    match (result, refusal) {
        (Ok(_), None) => true,
        (Err(message), Some(wording)) => message@ == wording,
        _ => false,
    }
}

/// Refuses to go on unless the printer answered that it is idle.
pub fn require_idle(answer: &Result<PrintState, MoonrakerError>) -> (result: Result<(), String>)
    ensures
        says(result, busy_text(*answer)),
{
    match answer {
        Ok(state) => if state.is_idle() {
            Ok(())
        } else {
            let mut message: String = "the printer is ".to_owned();
            message.append(state.label().as_str());
            message.append("; refusing to stop Klipper, run again when it is idle");
            Err(message)
        },
        Err(error) => {
            let mut message: String =
                "could not confirm the printer is idle; refusing to stop Klipper: ".to_owned();
            message.append(error_chain(&error.messages()).as_str());
            Err(message)
        },
    }
}

/// Refuses to go on unless the printer is idle now.
pub fn ensure_printer_idle<P: PrinterStatePort>(printer: &mut P) -> (result: Result<(), String>)
    ensures
        final(printer).answers().len() == old(printer).answers().len() + 1,
        old(printer).answers().is_prefix_of(final(printer).answers()),
        says(result, busy_text(final(printer).answers().last())),
{
    let answer: Result<PrintState, MoonrakerError> = printer.print_state();
    require_idle(&answer)
}

/// The serial device that an MCU comes back at after its flash; none where it has none.
pub open spec fn restart_device(mcu: Mcu) -> Option<Seq<char>> {
    match mcu.transport {
        Some(McuTransport::Serial { device }) => Some(device@),
        _ => None,
    }
}

/// Why an MCU did not come back.
pub open spec fn restart_text(mcu: Mcu) -> Seq<char> {
    mcu.name@ + " did not re-enumerate at "@ + restart_device(mcu)->Some_0
}

/// Decides a wait for an MCU's restart, given whether its serial device is there. An MCU without
/// one is not waited for.
pub fn wait_for_application_with_timeout(mcu: &Mcu, present: bool, deadline_passed: bool) -> (step:
    RetryStep<(), String>)
    ensures
        waits_for_application(*mcu, present, deadline_passed, step),
{
    match &mcu.transport {
        Some(McuTransport::Serial { device }) => {
            let attempt: Result<(), String> = if present {
                Ok(())
            } else {
                let mut message: String = mcu.name.clone();
                message.append(" did not re-enumerate at ");
                message.append(device.as_str());
                Err(message)
            };
            retry_until_available(attempt, deadline_passed, RESTART_POLL_NANOS)
        },
        _ => RetryStep::Done(Ok(())),
    }
}

/// What is still missing of one updated MCU: it must be reported, at the built revision where that
/// is known.
pub open spec fn pending_note(
    inventory: McuInventory,
    name: Seq<char>,
    checkout: CheckoutRevision,
) -> Option<Seq<char>> {
    match prepare::mcu_from(inventory.mcus@, name, 0) {
        None => Some(name + " (not reported by Moonraker)"@),
        Some(i) => match (checkout, inventory.mcus@[i].version) {
            (CheckoutRevision::Indeterminate, _) => None,
            (CheckoutRevision::Known(revision), Some(version)) => if eligibility::same_revision(
                version@,
                revision@,
            ) {
                None
            } else {
                Some(name + " (reports "@ + version@ + ")"@)
            },
            (CheckoutRevision::Known(_), None) => Some(name + " (reports "@ + "unknown"@ + ")"@),
        },
    }
}

/// What is still missing of the first `count` updated MCUs, in order.
pub open spec fn pending_notes(
    inventory: McuInventory,
    selected: Seq<Seq<char>>,
    checkout: CheckoutRevision,
    count: int,
) -> Seq<Seq<char>>
    decreases count,
{
    if count <= 0 {
        Seq::empty()
    } else {
        let before = pending_notes(inventory, selected, checkout, count - 1);
        match pending_note(inventory, selected[count - 1], checkout) {
            Some(note) => before.push(note),
            None => before,
        }
    }
}

fn describe_pending(inventory: &McuInventory, name: &str, checkout: &CheckoutRevision) -> (note:
    Option<String>)
    ensures
        match note {
            Some(note) => pending_note(*inventory, name@, *checkout) == Some(note@),
            None => pending_note(*inventory, name@, *checkout) is None,
        },
{
    let mcu: &Mcu = match find_mcu(&inventory.mcus, name) {
        None => {
            let mut note: String = name.to_owned();
            note.append(" (not reported by Moonraker)");
            return Some(note);
        },
        Some(i) => &inventory.mcus[i],
    };
    let revision: &str = match checkout {
        CheckoutRevision::Indeterminate => {
            return None;
        },
        CheckoutRevision::Known(revision) => revision.as_str(),
    };
    let reported: &str = match &mcu.version {
        Some(version) => {
            if revisions_match(version.as_str(), revision) {
                return None;
            }
            version.as_str()
        },
        None => "unknown",
    };
    let mut note: String = name.to_owned();
    note.append(" (reports ");
    note.append(reported);
    note.append(")");
    Some(note)
}

/// Selected MCU names not yet reporting `checkout`'s revision, each annotated with its
/// current state so a timeout explains what was actually observed.
pub fn pending_mcus(
    inventory: &McuInventory,
    selected: &Vec<String>,
    checkout: &CheckoutRevision,
) -> (pending: Vec<String>)
    ensures
        text::texts(pending@) == pending_notes(
            *inventory,
            text::texts(selected@),
            *checkout,
            selected@.len() as int,
        ),
{
    let mut pending: Vec<String> = Vec::new();
    let ghost names = text::texts(selected@);
    let mut i: usize = 0;
    assert(text::texts(pending@) =~= Seq::empty());
    while i < selected.len()
        invariant
            i <= selected@.len(),
            names == text::texts(selected@),
            text::texts(pending@) == pending_notes(*inventory, names, *checkout, i as int),
        decreases selected@.len() - i,
    {
        let ghost before = text::texts(pending@);
        assert(names[i as int] == selected@[i as int]@);
        if let Some(note) = describe_pending(inventory, selected[i].as_str(), checkout) {
            pending.push(note);
            assert(text::texts(pending@) =~= before.push(note@));
        }
        i += 1;
    }
    pending
}

/// Why the updated MCUs are not all back yet, where they are not.
pub open spec fn reconnect_text(
    answer: Result<McuInventory, MoonrakerError>,
    selected: Seq<Seq<char>>,
    checkout: CheckoutRevision,
) -> Option<Seq<char>> {
    match answer {
        Err(error) => Some("could not query Moonraker: "@ + error.text()),
        Ok(inventory) => {
            let pending = pending_notes(inventory, selected, checkout, selected.len() as int);
            if pending.len() == 0 {
                None
            } else {
                Some("still waiting on: "@ + text::joined(pending, ", "@))
            }
        },
    }
}

/// The wording of a wait for updated MCUs that came to nothing.
pub open spec fn not_reconnected(last_state: Seq<char>) -> Seq<char> {
    "Klipper did not reconnect every updated MCU at the built revision ("@ + last_state + ")"@
}

/// Decides a wait until every updated MCU is back at the built revision, given Moonraker's answer.
pub fn wait_for_mcus(
    answer: &Result<McuInventory, MoonrakerError>,
    selected: &Vec<String>,
    checkout: &CheckoutRevision,
    deadline_passed: bool,
) -> (step: RetryStep<(), String>)
    ensures
        waits_for_mcus(
            reconnect_text(*answer, text::texts(selected@), *checkout),
            deadline_passed,
            step,
        ),
{
    let state: String = match answer {
        Ok(inventory) => {
            let pending: Vec<String> = pending_mcus(inventory, selected, checkout);
            assert(text::texts(pending@).len() == pending@.len());
            assert(text::texts(selected@).len() == selected@.len());
            if pending.len() == 0 {
                return RetryStep::Done(Ok(()));
            }
            let mut state: String = "still waiting on: ".to_owned();
            state.append(text::join(&pending, ", ").as_str());
            state
        },
        Err(error) => {
            let mut state: String = "could not query Moonraker: ".to_owned();
            state.append(error.message().as_str());
            state
        },
    };
    let mut message: String =
        "Klipper did not reconnect every updated MCU at the built revision (".to_owned();
    message.append(state.as_str());
    message.append(")");
    retry_until_available(Err(message), deadline_passed, RECONNECT_POLL_NANOS)
}

/// The names among the first `count` targets that no MCU has, each once, in order.
pub open spec fn unknown_names(inventory: McuInventory, targets: Seq<Seq<char>>, count: int) -> Seq<
    Seq<char>,
>
    decreases count,
{
    if count <= 0 {
        Seq::empty()
    } else {
        let before = unknown_names(inventory, targets, count - 1);
        let name = targets[count - 1];
        if prepare::mcu_from(inventory.mcus@, name, 0) is None && !before.contains(name) {
            before.push(name)
        } else {
            before
        }
    }
}

/// Whether a list of names holds a name.
pub fn contains_name(names: &Vec<String>, name: &str) -> (found: bool)
    ensures
        found == text::texts(names@).contains(name@),
{
    let ghost list = text::texts(names@);
    let mut i: usize = 0;
    while i < names.len()
        invariant
            i <= names@.len(),
            list == text::texts(names@),
            forall|k: int| 0 <= k < i ==> #[trigger] list[k] != name@,
        decreases names@.len() - i,
    {
        assert(list[i as int] == names@[i as int]@);
        if text::same_text(names[i].as_str(), name) {
            return true;
        }
        i += 1;
    }
    assert(list.len() == names@.len());
    false
}

/// Every target name that no MCU in the inventory has, each once.
pub fn unknown_targets(inventory: &McuInventory, targets: &Vec<String>) -> (unknown: Vec<String>)
    ensures
        text::texts(unknown@) == unknown_names(
            *inventory,
            text::texts(targets@),
            targets@.len() as int,
        ),
{
    let mut unknown: Vec<String> = Vec::new();
    let ghost names = text::texts(targets@);
    let mut i: usize = 0;
    assert(text::texts(unknown@) =~= Seq::empty());
    while i < targets.len()
        invariant
            i <= targets@.len(),
            names == text::texts(targets@),
            text::texts(unknown@) == unknown_names(*inventory, names, i as int),
        decreases targets@.len() - i,
    {
        let ghost before = text::texts(unknown@);
        assert(names[i as int] == targets@[i as int]@);
        if find_mcu(&inventory.mcus, targets[i].as_str()).is_none() && !contains_name(
            &unknown,
            targets[i].as_str(),
        ) {
            unknown.push(targets[i].clone());
            assert(text::texts(unknown@) =~= before.push(names[i as int]));
        }
        i += 1;
    }
    unknown
}

/// The wording for targets that no MCU has.
pub open spec fn unknown_text(unknown: Seq<Seq<char>>) -> Seq<char> {
    "unknown target MCU"@ + (if unknown.len() == 1 {
        ""@
    } else {
        "s"@
    }) + ": "@ + text::joined(unknown, ", "@)
}

fn describe_unknown(unknown: &Vec<String>) -> (message: String)
    ensures
        message@ == unknown_text(text::texts(unknown@)),
{
    assert(text::texts(unknown@).len() == unknown@.len());
    let mut message: String = "unknown target MCU".to_owned();
    if unknown.len() == 1 {
        message.append("");
    } else {
        message.append("s");
    }
    message.append(": ");
    message.append(text::join(unknown, ", ").as_str());
    message
}

/// The MCU names that a user's targets stand for.
pub open spec fn resolved_targets(inventory: McuInventory, targets: Seq<Seq<char>>) -> Seq<
    Seq<char>,
> {
    Seq::new(targets.len(), |i: int| discovery::resolved_name(inventory, targets[i]))
}

fn resolve_targets(inventory: &McuInventory, targets: &Vec<String>) -> (resolved: Vec<String>)
    ensures
        text::texts(resolved@) == resolved_targets(*inventory, text::texts(targets@)),
{
    let mut resolved: Vec<String> = Vec::new();
    let ghost names = text::texts(targets@);
    let mut i: usize = 0;
    assert(text::texts(resolved@) =~= resolved_targets(*inventory, names.take(0)));
    while i < targets.len()
        invariant
            i <= targets@.len(),
            names == text::texts(targets@),
            text::texts(resolved@) == resolved_targets(*inventory, names.take(i as int)),
        decreases targets@.len() - i,
    {
        let ghost before = text::texts(resolved@);
        resolved.push(resolve_target_name(inventory, targets[i].as_str()));
        proof {
            let name = discovery::resolved_name(*inventory, names[i as int]);
            assert(text::texts(resolved@) =~= before.push(name));
            assert(text::texts(resolved@) =~= resolved_targets(*inventory, names.take(i + 1)));
        }
        i += 1;
    }
    assert(names.take(names.len() as int) =~= names);
    resolved
}

/// Whether an MCU is offered for an update: it is among the targets, where any are named, and
/// eligible; unless it is forced it is also one that the selection asks for.
pub open spec fn is_offered(
    mcu: Mcu,
    targets: Seq<Seq<char>>,
    checkout: CheckoutRevision,
    all: bool,
    force: bool,
) -> bool {
    &&& targets.len() == 0 || targets.contains(mcu.name@)
    &&& if force {
        eligibility::standing(mcu) is Eligible
    } else {
        eligibility::selected(mcu, checkout, selects(all))
    }
}

/// The names of the offered MCUs among the first `count`, in order.
pub open spec fn offered_names(
    mcus: Seq<Mcu>,
    targets: Seq<Seq<char>>,
    checkout: CheckoutRevision,
    all: bool,
    force: bool,
    count: int,
) -> Seq<Seq<char>>
    decreases count,
{
    if count <= 0 {
        Seq::empty()
    } else {
        let before = offered_names(mcus, targets, checkout, all, force, count - 1);
        if is_offered(mcus[count - 1], targets, checkout, all, force) {
            before.push(mcus[count - 1].name@)
        } else {
            before
        }
    }
}

/// The names of the MCUs that are offered for an update, in inventory order.
pub fn offered_mcus(
    inventory: &McuInventory,
    targets: &Vec<String>,
    checkout: &CheckoutRevision,
    all: bool,
    force: bool,
) -> (offered: Vec<String>)
    ensures
        text::texts(offered@) == offered_names(
            inventory.mcus@,
            text::texts(targets@),
            *checkout,
            all,
            force,
            inventory.mcus@.len() as int,
        ),
{
    let selection: UpdateSelection = selection_for(all);
    let mut offered: Vec<String> = Vec::new();
    let ghost names = text::texts(targets@);
    let mut i: usize = 0;
    assert(names.len() == targets@.len());
    assert(text::texts(offered@) =~= Seq::empty());
    while i < inventory.mcus.len()
        invariant
            i <= inventory.mcus@.len(),
            names == text::texts(targets@),
            names.len() == targets@.len(),
            selection == selects(all),
            text::texts(offered@) == offered_names(
                inventory.mcus@,
                names,
                *checkout,
                all,
                force,
                i as int,
            ),
        decreases inventory.mcus@.len() - i,
    {
        let ghost before = text::texts(offered@);
        let mcu: &Mcu = &inventory.mcus[i];
        let targeted: bool = targets.len() == 0 || contains_name(targets, mcu.name.as_str());
        let wanted: bool = if force {
            match classify_mcu(mcu) {
                Eligibility::Eligible => true,
                _ => false,
            }
        } else {
            is_selected(mcu, checkout, &selection)
        };
        if targeted && wanted {
            offered.push(mcu.name.clone());
            assert(text::texts(offered@) =~= before.push(mcu.name@));
        }
        i += 1;
    }
    offered
}

/// What an update was asked to do.
#[derive(Debug, PartialEq, Eq)]
pub struct UpdateRequest {
    /// The Klipper source checkout.
    pub source: String,
    /// The MCUs that are named; every MCU where none is.
    pub targets: Vec<String>,
    /// Whether MCUs are offered that are already current.
    pub all: bool,
    /// Whether nothing is asked.
    pub auto: bool,
    /// Whether named MCUs are offered that are already current.
    pub force: bool,
    /// Whether the checkout is refreshed first.
    pub pull: bool,
    /// Whether earlier build output is discarded.
    pub clean: bool,
    /// Whether the operator can be asked.
    pub interactive: bool,
    /// The workspace of this run.
    pub workspace: RunWorkspace,
    /// Where the run log is kept.
    pub run_log: String,
}

/// The MCUs that are offered, and how far the offers have come.
#[derive(Debug, PartialEq, Eq)]
pub struct UpdateBatch {
    /// The discovered MCUs.
    pub inventory: McuInventory,
    /// The revision that is built.
    pub checkout: CheckoutRevision,
    /// The names of the offered MCUs.
    pub offered: Vec<String>,
    /// How many offers are done with.
    pub next: usize,
    /// The names of the MCUs that were updated.
    pub accepted: Vec<String>,
    /// Whether the printer was found idle.
    pub printer_checked: bool,
}

/// How far an update has come; each stage asks for one operation.
#[derive(PartialEq, Eq)]
pub enum CommandStage {
    /// The operator is to decide on a refresh.
    ConfirmPull,
    /// The checkout is to be refreshed.
    Refresh,
    /// The MCUs are to be discovered.
    Discover {
        /// What the refresh came to.
        refreshed: Option<RefreshResult>,
    },
    /// The checkout's revision is to be read.
    ReadRevision {
        /// The discovered MCUs.
        inventory: McuInventory,
        /// The names of the targets.
        targets: Vec<String>,
        /// What the refresh came to.
        refreshed: Option<RefreshResult>,
    },
    /// The operator is to decide on an offer.
    Offer(UpdateBatch),
    /// The directories of the current offer are to be created.
    CreateDirectories(UpdateBatch),
    /// The printer's state is to be read.
    CheckPrinter {
        /// The offers.
        batch: UpdateBatch,
        /// The prepared build.
        pending: PendingBuild,
    },
    /// The prepared build is to be built and flashed.
    Execute {
        /// The offers.
        batch: UpdateBatch,
        /// The prepared build.
        pending: PendingBuild,
    },
    /// The flashed MCU's serial device is to be awaited.
    WaitApplication(UpdateBatch),
    /// Klipper is to be restored after a failure.
    Restore(FlashCoordinatorError<SystemFlashError>),
    /// Klipper is to be started.
    Start(UpdateBatch),
    /// The updated MCUs are to be awaited.
    Reconnect(UpdateBatch),
    /// Nothing is left to do.
    Finished(Result<(), String>),
}

/// One update under way.
#[derive(PartialEq, Eq)]
pub struct UpdateCommand {
    /// What was asked for.
    pub request: UpdateRequest,
    /// How far the update has come.
    pub stage: CommandStage,
}

/// The outcome of an update's pending operation.
#[derive(PartialEq, Eq)]
pub enum CommandEvent {
    /// The operator's answer; none where it could not be read.
    Answer(Option<String>),
    /// The checkout was refreshed, or could not be.
    Refreshed(Result<RefreshResult, CheckoutError>),
    /// The discovered MCUs.
    Discovered(Result<McuInventory, MoonrakerError>),
    /// The checkout's revision.
    Revision(Result<CheckoutRevision, CheckoutError>),
    /// The directories were created, or one of them could not be.
    Directories(Result<(), DirectoryFailure>),
    /// The printer's state.
    Printer(Result<PrintState, MoonrakerError>),
    /// The build and flash ended.
    Executed(Result<CompletedUpdate, FlashCoordinatorError<SystemFlashError>>),
    /// Whether the flashed MCU's serial device is there, and whether it was awaited long enough.
    Device { present: bool, deadline_passed: bool },
    /// Klipper was restored, or could not be.
    Restored(Result<(), CoordinatorError>),
    /// Klipper was started, or could not be.
    Started(Result<(), CoordinatorError>),
    /// The MCUs that are back, and whether they were awaited long enough.
    Reconnected { answer: Result<McuInventory, MoonrakerError>, deadline_passed: bool },
}

/// The offers by their characters.
#[verifier::ext_equal]
pub struct BatchState {
    pub inventory: McuInventory,
    pub checkout: CheckoutRevision,
    pub offered: Seq<Seq<char>>,
    pub next: int,
    pub accepted: Seq<Seq<char>>,
    pub printer_checked: bool,
}

impl View for UpdateBatch {
    type V = BatchState;

    open spec fn view(&self) -> BatchState {
        BatchState {
            inventory: self.inventory,
            checkout: self.checkout,
            offered: text::texts(self.offered@),
            next: self.next as int,
            accepted: text::texts(self.accepted@),
            printer_checked: self.printer_checked,
        }
    }
}

/// The stage of an update by its characters.
pub enum CommandPhase {
    ConfirmPull,
    Refresh,
    Discover { refreshed: Option<RefreshResult> },
    ReadRevision {
        inventory: McuInventory,
        targets: Seq<Seq<char>>,
        refreshed: Option<RefreshResult>,
    },
    Offer(BatchState),
    CreateDirectories(BatchState),
    CheckPrinter { batch: BatchState, pending: PreparedBuild },
    Execute { batch: BatchState, pending: PreparedBuild },
    WaitApplication(BatchState),
    Restore(UpdateFailure<SystemFlashError>),
    Start(BatchState),
    Reconnect(BatchState),
    Finished(Result<(), Seq<char>>),
}

impl View for CommandStage {
    type V = CommandPhase;

    open spec fn view(&self) -> CommandPhase {
        match *self {
            CommandStage::ConfirmPull => CommandPhase::ConfirmPull,
            CommandStage::Refresh => CommandPhase::Refresh,
            CommandStage::Discover { refreshed } => CommandPhase::Discover { refreshed },
            CommandStage::ReadRevision { inventory, targets, refreshed } =>
            CommandPhase::ReadRevision { inventory, targets: text::texts(targets@), refreshed },
            CommandStage::Offer(batch) => CommandPhase::Offer(batch@),
            CommandStage::CreateDirectories(batch) => CommandPhase::CreateDirectories(batch@),
            CommandStage::CheckPrinter { batch, pending } => CommandPhase::CheckPrinter {
                batch: batch@,
                pending: pending.build(),
            },
            CommandStage::Execute { batch, pending } => CommandPhase::Execute {
                batch: batch@,
                pending: pending.build(),
            },
            CommandStage::WaitApplication(batch) => CommandPhase::WaitApplication(batch@),
            CommandStage::Restore(error) => CommandPhase::Restore(error@),
            CommandStage::Start(batch) => CommandPhase::Start(batch@),
            CommandStage::Reconnect(batch) => CommandPhase::Reconnect(batch@),
            CommandStage::Finished(Ok(_)) => CommandPhase::Finished(Ok(())),
            CommandStage::Finished(Err(message)) => CommandPhase::Finished(Err(message@)),
        }
    }
}

impl BatchState {
    /// The MCU of the current offer.
    pub open spec fn mcu(self) -> Mcu {
        self.inventory.mcus@[prepare::mcu_from(
            self.inventory.mcus@,
            self.offered[self.next],
            0,
        )->Some_0]
    }

    /// The offers after the current one was declined.
    pub open spec fn declined(self) -> Self {
        BatchState { next: self.next + 1, ..self }
    }

    /// The offers after the current one was updated.
    pub open spec fn updated(self) -> Self {
        BatchState {
            next: self.next + 1,
            accepted: self.accepted.push(self.offered[self.next]),
            ..self
        }
    }

    /// The offers once the printer was found idle.
    pub open spec fn with_idle_printer(self) -> Self {
        BatchState { printer_checked: true, ..self }
    }

    /// What the current offer says.
    pub open spec fn offer_text(self) -> Seq<char> {
        "Update "@ + self.offered[self.next] + " from "@ + (match self.mcu().version {
            Some(version) => version@,
            None => "unknown"@,
        }) + " to "@ + status::revision_text(self.checkout)
    }
}

/// Whether an update goes on to `next` after the MCU `name` could not be prepared.
pub open spec fn preparation_stops(
    name: Seq<char>,
    failure: CoordinatorFailure,
    next: CommandPhase,
    outputs: Seq<UiText>,
) -> bool {
    stops(
        next,
        outputs,
        Seq::empty(),
        text::joined(failure.chain(), ": "@),
        status::in_context("failed to prepare "@ + name + " for flashing"@, failure.chain()),
    )
}

/// Whether an update goes on to `next` with the current offer approved: its directories are created
/// first.
pub open spec fn approves(batch: BatchState, next: CommandPhase, outputs: Seq<UiText>) -> bool {
    let name = batch.offered[batch.next];
    match workspace::reservation_failure(name, Ok(())) {
        Some(error) => preparation_stops(
            name,
            CoordinatorFailure::Workspace(error),
            next,
            outputs,
        ),
        None => next == CommandPhase::CreateDirectories(batch) && outputs == Seq::<UiText>::empty(),
    }
}

/// Whether an update goes on to `next` with the current offer prepared, where `created` is what came
/// of creating its directories: it is flashed at once only where the printer is already known to be
/// idle.
pub open spec fn prepares_offer(
    request: UpdateRequest,
    batch: BatchState,
    created: Result<(), DirectoryFailure>,
    next: CommandPhase,
    outputs: Seq<UiText>,
) -> bool {
    let name = batch.offered[batch.next];
    match coordinator::preparation_failure(batch.inventory.mcus@, name, created) {
        Some(failure) => preparation_stops(name, failure, next, outputs),
        None => {
            let pending = if batch.printer_checked {
                next->Execute_pending
            } else {
                next->CheckPrinter_pending
            };
            &&& next == if batch.printer_checked {
                CommandPhase::Execute { batch, pending }
            } else {
                CommandPhase::CheckPrinter { batch, pending }
            }
            &&& coordinator::prepares(
                batch.inventory.mcus@,
                request.workspace.path(),
                name,
                request.clean,
                pending,
            )
            &&& outputs == Seq::<UiText>::empty()
        },
    }
}

/// Whether an update goes on to `next` with the current offer, or with what comes after the last
/// one: without an update there is nothing more to do, else Klipper is started.
pub open spec fn offers(
    request: UpdateRequest,
    batch: BatchState,
    next: CommandPhase,
    outputs: Seq<UiText>,
) -> bool {
    if batch.next >= batch.offered.len() {
        if batch.accepted.len() == 0 {
            &&& next == CommandPhase::Finished(Ok(()))
            &&& outputs == seq![
                UiText::Block("\nno updates confirmed\n"@),
                UiText::Action("run completed successfully: no updates confirmed"@),
            ]
        } else {
            &&& next == CommandPhase::Start(batch)
            &&& outputs == seq![
                UiText::Heading("Finishing update"@),
                UiText::Begin("starting Klipper"@),
            ]
        }
    } else if request.auto {
        &&& outputs.len() > 0
        &&& outputs[0] == UiText::Heading(batch.offer_text())
        &&& approves(batch, next, outputs.skip(1))
    } else {
        &&& next == CommandPhase::Offer(batch)
        &&& outputs == seq![UiText::Prompt(batch.offer_text() + "?"@)]
    }
}

/// Whether an update goes on to `next` after an error that is also logged.
pub open spec fn stops(
    next: CommandPhase,
    outputs: Seq<UiText>,
    before: Seq<UiText>,
    logged: Seq<char>,
    message: Seq<char>,
) -> bool {
    &&& next == CommandPhase::Finished(Err(message))
    &&& outputs == before.push(UiText::Action("error: "@ + logged))
}

/// Whether an update goes on to `next` with what the checkout's revision makes of the inventory.
pub open spec fn assesses(
    request: UpdateRequest,
    inventory: McuInventory,
    targets: Seq<Seq<char>>,
    refreshed: Option<RefreshResult>,
    checkout: CheckoutRevision,
    next: CommandPhase,
    outputs: Seq<UiText>,
) -> bool {
    let offered = offered_names(
        inventory.mcus@,
        targets,
        checkout,
        request.all,
        request.force,
        inventory.mcus@.len() as int,
    );
    let status = UiText::Block(
        status::status_text(request.source@, checkout, inventory, refreshed),
    );
    if offered.len() == 0 {
        &&& next == CommandPhase::Finished(Ok(()))
        &&& outputs == seq![
            status,
            UiText::Block("\nno eligible MCUs require an update\n"@),
            UiText::Action("run completed successfully: no eligible MCUs require an update"@),
        ]
    } else {
        &&& outputs.len() > 0
        &&& outputs[0] == status
        &&& offers(
            request,
            BatchState {
                inventory,
                checkout,
                offered,
                next: 0,
                accepted: Seq::empty(),
                printer_checked: false,
            },
            next,
            outputs.skip(1),
        )
    }
}

/// Whether an update goes on to `next` after the current offer was flashed, and `restarted` says
/// whether the MCU is known to be back.
pub open spec fn flashed(
    request: UpdateRequest,
    batch: BatchState,
    next: CommandPhase,
    outputs: Seq<UiText>,
) -> bool {
    &&& outputs.len() > 0
    &&& outputs[0] == UiText::Success("MCU restart confirmed"@)
    &&& offers(request, batch.updated(), next, outputs.skip(1))
}

/// Whether an update goes from `phase` to `next` on `event`, and what it shows. An outcome that does
/// not answer the pending operation changes nothing.
pub open spec fn update_step(
    request: UpdateRequest,
    phase: CommandPhase,
    event: CommandEvent,
    next: CommandPhase,
    outputs: Seq<UiText>,
) -> bool {
    let quiet = Seq::<UiText>::empty();
    match (phase, event) {
        (CommandPhase::ConfirmPull, CommandEvent::Answer(answer)) => if answer is Some
            && ui::means_yes(answer->Some_0@) {
            next == CommandPhase::Refresh && outputs == seq![
                UiText::Action("refreshing configured Klipper upstream"@),
            ]
        } else {
            next == (CommandPhase::Discover { refreshed: None }) && outputs == seq![
                UiText::Action("discovering MCUs from Moonraker"@),
            ]
        },
        (CommandPhase::Refresh, CommandEvent::Refreshed(Ok(refreshed))) => next == (
        CommandPhase::Discover { refreshed: Some(refreshed) }) && outputs == seq![
            UiText::Action("checkout refresh: "@ + status::refresh_text(refreshed)),
            UiText::Action("discovering MCUs from Moonraker"@),
        ],
        (CommandPhase::Refresh, CommandEvent::Refreshed(Err(error))) => stops(
            next,
            outputs,
            quiet,
            text::joined(error@.chain(), ": "@),
            status::in_context(
                "failed to refresh the configured Klipper checkout"@,
                error@.chain(),
            ),
        ),
        (CommandPhase::Discover { .. }, CommandEvent::Discovered(Err(error))) => stops(
            next,
            outputs,
            quiet,
            text::joined(error.chain(), ": "@),
            status::in_context("failed to discover MCUs from Moonraker"@, error.chain()),
        ),
        (CommandPhase::Discover { refreshed }, CommandEvent::Discovered(Ok(inventory))) => {
            let targets = resolved_targets(inventory, text::texts(request.targets@));
            let unknown = unknown_names(inventory, targets, targets.len() as int);
            &&& next == if unknown.len() > 0 {
                CommandPhase::Finished(Err(unknown_text(unknown)))
            } else {
                CommandPhase::ReadRevision { inventory, targets, refreshed }
            }
            &&& outputs == quiet
        },
        (
            CommandPhase::ReadRevision { inventory, targets, refreshed },
            CommandEvent::Revision(revision),
        ) => assesses(
            request,
            inventory,
            targets,
            refreshed,
            status::usable_revision(revision),
            next,
            outputs,
        ),
        (CommandPhase::Offer(batch), CommandEvent::Answer(answer)) => if answer is Some
            && ui::means_yes(answer->Some_0@) {
            approves(batch, next, outputs)
        } else {
            offers(request, batch.declined(), next, outputs)
        },
        (CommandPhase::CreateDirectories(batch), CommandEvent::Directories(created)) =>
        prepares_offer(request, batch, created, next, outputs),
        (CommandPhase::CheckPrinter { batch, pending }, CommandEvent::Printer(answer)) =>
        match busy_text(answer) {
            Some(message) => stops(next, outputs, quiet, message, message),
            None => next == (CommandPhase::Execute {
                batch: batch.with_idle_printer(),
                pending,
            }) && outputs == quiet,
        },
        (CommandPhase::Execute { batch, pending }, CommandEvent::Executed(Ok(update))) => {
            let done = seq![
                UiText::Success(
                    ui::summary(batch.mcu().kconfig@, update.flash.padded_bytes as nat),
                ),
                UiText::Begin("waiting for MCU restart"@),
            ];
            if restart_device(batch.mcu()) is Some {
                next == CommandPhase::WaitApplication(batch) && outputs == done
            } else {
                &&& done.is_prefix_of(outputs)
                &&& flashed(request, batch, next, outputs.skip(2))
            }
        },
        (CommandPhase::Execute { batch, pending }, CommandEvent::Executed(Err(error))) => if error@
            .restorable() {
            next == CommandPhase::Restore(error@) && outputs == seq![UiText::Failure]
        } else {
            stops(
                next,
                outputs,
                seq![UiText::Failure],
                failure_text(error@, None),
                failure_text(error@, None),
            )
        },
        (CommandPhase::Restore(failure), CommandEvent::Restored(result)) => stops(
            next,
            outputs,
            quiet,
            failure_text(failure, restored(Some(result))),
            failure_text(failure, restored(Some(result))),
        ),
        (
            CommandPhase::WaitApplication(batch),
            CommandEvent::Device { present, deadline_passed },
        ) => if present || restart_device(batch.mcu()) is None {
            flashed(request, batch, next, outputs)
        } else if deadline_passed {
            stops(
                next,
                outputs,
                seq![UiText::Failure],
                restart_text(batch.mcu()),
                restart_text(batch.mcu()),
            )
        } else {
            next == phase && outputs == quiet
        },
        (CommandPhase::Start(batch), CommandEvent::Started(Ok(_))) => next
            == CommandPhase::Reconnect(batch) && outputs == seq![
            UiText::Success("Klipper ready"@),
            UiText::Begin("waiting for updated MCUs to reconnect"@),
        ],
        (CommandPhase::Start(_), CommandEvent::Started(Err(error))) => stops(
            next,
            outputs,
            seq![UiText::Failure],
            text::joined(error@.chain(), ": "@),
            text::joined(error@.chain(), ": "@),
        ),
        (
            CommandPhase::Reconnect(batch),
            CommandEvent::Reconnected { answer, deadline_passed },
        ) => match reconnect_text(answer, batch.accepted, batch.checkout) {
            None => next == CommandPhase::Finished(Ok(())) && outputs == seq![
                UiText::Success("all updated MCUs connected"@),
                UiText::Heading(
                    "Update complete: "@ + text::decimal(batch.accepted.len()) + " "@ + count_word(
                        batch.accepted.len(),
                    ) + " updated (run log: "@ + request.run_log@ + ")"@,
                ),
                UiText::Action("run completed successfully"@),
            ],
            Some(state) => if deadline_passed {
                stops(
                    next,
                    outputs,
                    seq![UiText::Failure],
                    not_reconnected(state),
                    not_reconnected(state),
                )
            } else {
                next == phase && outputs == quiet
            },
        },
        _ => next == phase && outputs == quiet,
    }
}

/// Where an update begins, and what it shows first.
pub open spec fn update_begins(request: UpdateRequest) -> (CommandPhase, Seq<UiText>) {
    let first = UiText::Action("updating from Klipper source "@ + request.source@);
    if request.auto || request.pull {
        (
            CommandPhase::Refresh,
            seq![first, UiText::Action("refreshing configured Klipper upstream"@)],
        )
    } else if request.interactive {
        (CommandPhase::ConfirmPull, seq![first])
    } else {
        (
            CommandPhase::Discover { refreshed: None },
            seq![first, UiText::Action("discovering MCUs from Moonraker"@)],
        )
    }
}

impl BatchState {
    /// Whether every offered MCU is in the inventory.
    pub open spec fn well_formed(self) -> bool {
        &&& 0 <= self.next <= self.offered.len()
        &&& forall|i: int|
            0 <= i < self.offered.len() ==> prepare::mcu_from(
                self.inventory.mcus@,
                #[trigger] self.offered[i],
                0,
            ) is Some
    }
}

/// Whether the offers of a phase can go on.
pub open spec fn well_formed(phase: CommandPhase) -> bool {
    match phase {
        CommandPhase::Offer(batch) => batch.well_formed() && batch.next < batch.offered.len(),
        CommandPhase::CreateDirectories(batch) => batch.well_formed() && batch.next
            < batch.offered.len(),
        CommandPhase::CheckPrinter { batch, .. } => batch.well_formed() && batch.next
            < batch.offered.len(),
        CommandPhase::Execute { batch, .. } => batch.well_formed() && batch.next
            < batch.offered.len(),
        CommandPhase::WaitApplication(batch) => batch.well_formed() && batch.next
            < batch.offered.len(),
        CommandPhase::Start(batch) => batch.well_formed(),
        CommandPhase::Reconnect(batch) => batch.well_formed(),
        _ => true,
    }
}

/// What was shown beyond `before`.
pub open spec fn newly_shown(before: Seq<UiOutput>, after: Seq<UiOutput>) -> Seq<UiText> {
    ui::shown(after).skip(before.len() as int)
}

proof fn lemma_offered_mcus_are_known(
    mcus: Seq<Mcu>,
    targets: Seq<Seq<char>>,
    checkout: CheckoutRevision,
    all: bool,
    force: bool,
    count: int,
)
    requires
        0 <= count <= mcus.len(),
    ensures
        forall|i: int|
            0 <= i < offered_names(mcus, targets, checkout, all, force, count).len()
                ==> prepare::mcu_from(
                mcus,
                #[trigger] offered_names(mcus, targets, checkout, all, force, count)[i],
                0,
            ) is Some,
    decreases count,
{
    if count > 0 {
        lemma_offered_mcus_are_known(mcus, targets, checkout, all, force, count - 1);
        lemma_mcu_from_finds(mcus, mcus[count - 1].name@, count - 1, 0);
        let before = offered_names(mcus, targets, checkout, all, force, count - 1);
        let after = offered_names(mcus, targets, checkout, all, force, count);
        assert forall|i: int| 0 <= i < after.len() implies prepare::mcu_from(
            mcus,
            #[trigger] after[i],
            0,
        ) is Some by {
            if i < before.len() {
                assert(after[i] == before[i]);
            }
        }
    }
}

proof fn lemma_mcu_from_finds(mcus: Seq<Mcu>, name: Seq<char>, i: int, from: int)
    requires
        0 <= from <= i < mcus.len(),
        mcus[i].name@ == name,
    ensures
        prepare::mcu_from(mcus, name, from) is Some,
    decreases i - from,
{
    if mcus[from].name@ != name {
        lemma_mcu_from_finds(mcus, name, i, from + 1);
    }
}

fn offered_mcu(batch: &UpdateBatch) -> (mcu: &Mcu)
    requires
        batch@.well_formed(),
        batch@.next < batch@.offered.len(),
    ensures
        *mcu == batch@.mcu(),
{
    assert(text::texts(batch.offered@).len() == batch.offered@.len());
    assert(batch@.offered[batch@.next] == batch.offered@[batch.next as int]@);
    match find_mcu(&batch.inventory.mcus, batch.offered[batch.next].as_str()) {
        Some(i) => &batch.inventory.mcus[i],
        None => {
            assert(false);
            &batch.inventory.mcus[0]
        },
    }
}

fn stop(logged: &str, message: String, outputs: &mut Vec<UiOutput>) -> (stage: CommandStage)
    ensures
        stage@ == CommandPhase::Finished(Err(message@)),
        ui::shown(final(outputs)@) == ui::shown(old(outputs)@).push(
            UiText::Action("error: "@ + logged@),
        ),
{
    let mut note: String = "error: ".to_owned();
    note.append(logged);
    say(outputs, UiOutput::Action(note));
    CommandStage::Finished(Err(message))
}

fn fail_preparation(name: &str, error: CoordinatorError, outputs: &mut Vec<UiOutput>) -> (stage:
    CommandStage)
    ensures
        ui::shown(old(outputs)@).is_prefix_of(ui::shown(final(outputs)@)),
        preparation_stops(
            name@,
            error@,
            stage@,
            newly_shown(old(outputs)@, final(outputs)@),
        ),
        well_formed(stage@),
{
    let ghost before = outputs@;
    let mut messages: Vec<String> = Vec::new();
    assert(text::texts(messages@) =~= Seq::empty());
    error.append_chain(&mut messages);
    assert(text::texts(messages@) =~= error@.chain());
    let mut context: String = "failed to prepare ".to_owned();
    context.append(name);
    context.append(" for flashing");
    let message: String = with_context(context.as_str(), &messages);
    let stage: CommandStage = stop(error_chain(&messages).as_str(), message, outputs);
    assert(newly_shown(before, outputs@) =~= Seq::<UiText>::empty().push(
        UiText::Action("error: "@ + text::joined(error@.chain(), ": "@)),
    ));
    stage
}

fn approve(request: &UpdateRequest, batch: UpdateBatch, outputs: &mut Vec<UiOutput>) -> (stage:
    CommandStage)
    requires
        batch@.well_formed(),
        batch@.next < batch@.offered.len(),
    ensures
        ui::shown(old(outputs)@).is_prefix_of(ui::shown(final(outputs)@)),
        approves(batch@, stage@, newly_shown(old(outputs)@, final(outputs)@)),
        well_formed(stage@),
{
    let ghost before = outputs@;
    proof {
        assert(text::texts(batch.offered@).len() == batch.offered@.len());
        assert(batch@.offered[batch@.next] == batch.offered@[batch.next as int]@);
        assert(newly_shown(before, before) =~= Seq::empty());
    }
    let name: &str = batch.offered[batch.next].as_str();
    match request.workspace.target_directories(name) {
        Ok(_) => CommandStage::CreateDirectories(batch),
        Err(error) => fail_preparation(name, CoordinatorError::Workspace(error), outputs),
    }
}

fn prepare_offer(
    request: &UpdateRequest,
    batch: UpdateBatch,
    created: Result<(), DirectoryFailure>,
    outputs: &mut Vec<UiOutput>,
) -> (stage: CommandStage)
    requires
        batch@.well_formed(),
        batch@.next < batch@.offered.len(),
    ensures
        ui::shown(old(outputs)@).is_prefix_of(ui::shown(final(outputs)@)),
        prepares_offer(
            *request,
            batch@,
            created,
            stage@,
            newly_shown(old(outputs)@, final(outputs)@),
        ),
        well_formed(stage@),
{
    let ghost before = outputs@;
    proof {
        assert(text::texts(batch.offered@).len() == batch.offered@.len());
        assert(batch@.offered[batch@.next] == batch.offered@[batch.next as int]@);
        assert(newly_shown(before, before) =~= Seq::empty());
    }
    let name: &str = batch.offered[batch.next].as_str();
    match prepare_target(&batch.inventory, &request.workspace, name, request.clean, created) {
        Ok(pending) => if batch.printer_checked {
            CommandStage::Execute { batch, pending }
        } else {
            CommandStage::CheckPrinter { batch, pending }
        },
        Err(error) => fail_preparation(name, error, outputs),
    }
}

fn offer(request: &UpdateRequest, batch: UpdateBatch, outputs: &mut Vec<UiOutput>) -> (stage:
    CommandStage)
    requires
        batch@.well_formed(),
    ensures
        ui::shown(old(outputs)@).is_prefix_of(ui::shown(final(outputs)@)),
        offers(*request, batch@, stage@, newly_shown(old(outputs)@, final(outputs)@)),
        well_formed(stage@),
{
    let ghost before = outputs@;
    proof {
        assert(text::texts(batch.offered@).len() == batch.offered@.len());
        assert(text::texts(batch.accepted@).len() == batch.accepted@.len());
    }
    if batch.next >= batch.offered.len() {
        if batch.accepted.len() == 0 {
            say(outputs, UiOutput::Block("\nno updates confirmed\n".to_owned()));
            say(
                outputs,
                UiOutput::Action("run completed successfully: no updates confirmed".to_owned()),
            );
            assert(newly_shown(before, outputs@) =~= seq![
                UiText::Block("\nno updates confirmed\n"@),
                UiText::Action("run completed successfully: no updates confirmed"@),
            ]);
            return CommandStage::Finished(Ok(()));
        }
        say(outputs, UiOutput::Heading("Finishing update".to_owned()));
        say(outputs, UiOutput::Begin("starting Klipper".to_owned()));
        assert(newly_shown(before, outputs@) =~= seq![
            UiText::Heading("Finishing update"@),
            UiText::Begin("starting Klipper"@),
        ]);
        return CommandStage::Start(batch);
    }
    assert(batch@.offered[batch@.next] == batch.offered@[batch.next as int]@);
    let mut question: String = "Update ".to_owned();
    question.append(batch.offered[batch.next].as_str());
    question.append(" from ");
    match &offered_mcu(&batch).version {
        Some(version) => {
            question.append(version.as_str());
        },
        None => {
            question.append("unknown");
        },
    }
    question.append(" to ");
    question.append(checkout_label(&batch.checkout));
    assert(question@ == batch@.offer_text());
    if request.auto {
        say(outputs, UiOutput::Heading(question));
        let ghost middle = outputs@;
        let ghost view = batch@;
        let stage: CommandStage = approve(request, batch, outputs);
        proof {
            let all = newly_shown(before, outputs@);
            assert(ui::shown(middle)[before.len() as int] == UiText::Heading(view.offer_text()));
            assert(all[0] == ui::shown(outputs@)[before.len() as int]);
            assert(all.skip(1) =~= newly_shown(middle, outputs@));
        }
        stage
    } else {
        question.append("?");
        say(outputs, UiOutput::Prompt(question));
        assert(newly_shown(before, outputs@) =~= seq![
            UiText::Prompt(batch@.offer_text() + "?"@),
        ]);
        CommandStage::Offer(batch)
    }
}

fn assess(
    request: &UpdateRequest,
    inventory: McuInventory,
    targets: Vec<String>,
    refreshed: Option<RefreshResult>,
    checkout: CheckoutRevision,
    outputs: &mut Vec<UiOutput>,
) -> (stage: CommandStage)
    requires
        old(outputs)@.len() == 0,
    ensures
        assesses(
            *request,
            inventory,
            text::texts(targets@),
            refreshed,
            checkout,
            stage@,
            ui::shown(final(outputs)@),
        ),
        well_formed(stage@),
{
    proof {
        assert(ui::shown(outputs@) =~= Seq::empty());
    }
    let status: String = format_status(
        request.source.as_str(),
        &checkout,
        &inventory,
        &refreshed,
    );
    let ghost shown_status = UiText::Block(status@);
    say(outputs, UiOutput::Block(status));
    let ghost first = outputs@;
    let offered: Vec<String> = offered_mcus(
        &inventory,
        &targets,
        &checkout,
        request.all,
        request.force,
    );
    assert(text::texts(offered@).len() == offered@.len());
    if offered.len() == 0 {
        say(outputs, UiOutput::Block("\nno eligible MCUs require an update\n".to_owned()));
        say(
            outputs,
            UiOutput::Action(
                "run completed successfully: no eligible MCUs require an update".to_owned(),
            ),
        );
        assert(ui::shown(outputs@) =~= seq![
            shown_status,
            UiText::Block("\nno eligible MCUs require an update\n"@),
            UiText::Action("run completed successfully: no eligible MCUs require an update"@),
        ]);
        return CommandStage::Finished(Ok(()));
    }
    let batch: UpdateBatch = UpdateBatch {
        inventory,
        checkout,
        offered,
        next: 0,
        accepted: Vec::new(),
        printer_checked: false,
    };
    proof {
        lemma_offered_mcus_are_known(
            inventory.mcus@,
            text::texts(targets@),
            checkout,
            request.all,
            request.force,
            inventory.mcus@.len() as int,
        );
        assert(batch@.accepted =~= Seq::empty());
        assert(batch@.well_formed());
    }
    let stage: CommandStage = offer(request, batch, outputs);
    proof {
        assert(ui::shown(outputs@)[0] == ui::shown(first)[0]);
        assert(ui::shown(outputs@).skip(1) =~= newly_shown(first, outputs@));
    }
    stage
}

fn confirm_restart(request: &UpdateRequest, batch: UpdateBatch, outputs: &mut Vec<UiOutput>) -> (
    stage: CommandStage)
    requires
        batch@.well_formed(),
        batch@.next < batch@.offered.len(),
    ensures
        ui::shown(old(outputs)@).is_prefix_of(ui::shown(final(outputs)@)),
        flashed(*request, batch@, stage@, newly_shown(old(outputs)@, final(outputs)@)),
        well_formed(stage@),
{
    let ghost before = outputs@;
    let ghost view = batch@;
    proof {
        assert(text::texts(batch.offered@).len() == batch.offered@.len());
        assert(batch@.offered[batch@.next] == batch.offered@[batch.next as int]@);
    }
    say(outputs, UiOutput::Success("MCU restart confirmed".to_owned()));
    let ghost middle = outputs@;
    let mut batch: UpdateBatch = batch;
    let name: String = batch.offered[batch.next].clone();
    let count: usize = batch.offered.len();
    assert(batch.next < count);
    batch.accepted.push(name);
    batch.next = batch.next + 1;
    assert(batch@ =~= view.updated());
    let stage: CommandStage = offer(request, batch, outputs);
    proof {
        let all = newly_shown(before, outputs@);
        assert(ui::shown(middle)[before.len() as int] == UiText::Success("MCU restart confirmed"@));
        assert(all[0] == ui::shown(outputs@)[before.len() as int]);
        assert(all.skip(1) =~= newly_shown(middle, outputs@));
    }
    stage
}

/// Begins an update; gives what is shown.
pub fn run_update(request: UpdateRequest) -> (begun: (UpdateCommand, Vec<UiOutput>))
    ensures
        begun.0.request == request,
        (begun.0.stage@, ui::shown(begun.1@)) == update_begins(request),
        well_formed(begun.0.stage@),
{
    let mut outputs: Vec<UiOutput> = Vec::new();
    assert(ui::shown(outputs@) =~= Seq::empty());
    let mut note: String = "updating from Klipper source ".to_owned();
    note.append(request.source.as_str());
    say(&mut outputs, UiOutput::Action(note));
    let stage: CommandStage = if request.auto || request.pull {
        say(
            &mut outputs,
            UiOutput::Action("refreshing configured Klipper upstream".to_owned()),
        );
        CommandStage::Refresh
    } else if request.interactive {
        CommandStage::ConfirmPull
    } else {
        say(&mut outputs, UiOutput::Action("discovering MCUs from Moonraker".to_owned()));
        CommandStage::Discover { refreshed: None }
    };
    assert(ui::shown(outputs@) =~= update_begins(request).1);
    (UpdateCommand { request, stage }, outputs)
}

fn checkout_messages(error: &CheckoutError) -> (messages: Vec<String>)
    ensures
        text::texts(messages@) == error@.chain(),
{
    let mut messages: Vec<String> = Vec::new();
    assert(text::texts(messages@) =~= Seq::empty());
    error.append_chain(&mut messages);
    assert(text::texts(messages@) =~= error@.chain());
    messages
}

fn complete(
    request: &UpdateRequest,
    batch: UpdateBatch,
    padded_bytes: usize,
    outputs: &mut Vec<UiOutput>,
) -> (stage: CommandStage)
    requires
        old(outputs)@.len() == 0,
        batch@.well_formed(),
        batch@.next < batch@.offered.len(),
    ensures
        forall|pending: PreparedBuild, update: CompletedUpdate|
            update.flash.padded_bytes == padded_bytes ==> #[trigger] update_step(
                *request,
                CommandPhase::Execute { batch: batch@, pending },
                CommandEvent::Executed(Ok(update)),
                stage@,
                ui::shown(final(outputs)@),
            ),
        well_formed(stage@),
{
    proof {
        assert(ui::shown(outputs@) =~= Seq::empty());
    }
    let mcu: &Mcu = offered_mcu(&batch);
    let serial: bool = match &mcu.transport {
        Some(McuTransport::Serial { .. }) => true,
        _ => false,
    };
    let summary: String = ui::transfer_summary(mcu.kconfig.as_str(), padded_bytes);
    let ghost done = seq![
        UiText::Success(summary@),
        UiText::Begin("waiting for MCU restart"@),
    ];
    say(outputs, UiOutput::Success(summary));
    say(outputs, UiOutput::Begin("waiting for MCU restart".to_owned()));
    assert(ui::shown(outputs@) =~= done);
    if serial {
        return CommandStage::WaitApplication(batch);
    }
    let ghost middle = outputs@;
    let stage: CommandStage = confirm_restart(request, batch, outputs);
    assert(ui::shown(outputs@).skip(2) =~= newly_shown(middle, outputs@));
    stage
}

fn fail_update(
    error: FlashCoordinatorError<SystemFlashError>,
    restore: Option<Result<(), CoordinatorError>>,
    outputs: &mut Vec<UiOutput>,
) -> (stage: CommandStage)
    ensures
        stage@ == CommandPhase::Finished(Err(failure_text(error@, restored(restore)))),
        ui::shown(final(outputs)@) == ui::shown(old(outputs)@).push(
            UiText::Action("error: "@ + failure_text(error@, restored(restore))),
        ),
{
    let message: String = update_failure(error, restore);
    let logged: String = message.clone();
    stop(logged.as_str(), message, outputs)
}

impl UpdateCommand {
    /// The serial device that is waited for; none where nothing waits for one.
    pub fn awaited_device(&self) -> (device: Option<String>)
        requires
            well_formed(self.stage@),
        ensures
            match self.stage@ {
                CommandPhase::WaitApplication(batch) => match device {
                    Some(device) => restart_device(batch.mcu()) == Some(device@),
                    None => restart_device(batch.mcu()) is None,
                },
                _ => device is None,
            },
    {
        match &self.stage {
            CommandStage::WaitApplication(batch) => match &offered_mcu(batch).transport {
                Some(McuTransport::Serial { device }) => Some(device.clone()),
                _ => None,
            },
            _ => None,
        }
    }

    /// The directories that are to be created; none where nothing waits for them.
    pub fn awaited_directories(&self) -> (directories: Option<TargetDirectories>)
        requires
            well_formed(self.stage@),
        ensures
            match self.stage@ {
                CommandPhase::CreateDirectories(batch) => {
                    let name = batch.offered[batch.next];
                    match directories {
                        Some(directories) => {
                            &&& name.len() > 0
                            &&& directories.config_dir@ == workspace::target_path(
                                self.request.workspace.path(),
                                "targets"@,
                                name,
                            )
                            &&& directories.artifact_dir@ == workspace::target_path(
                                self.request.workspace.path(),
                                "artifacts"@,
                                name,
                            )
                        },
                        None => name.len() == 0,
                    }
                },
                _ => directories is None,
            },
    {
        match &self.stage {
            CommandStage::CreateDirectories(batch) => {
                proof {
                    assert(text::texts(batch.offered@).len() == batch.offered@.len());
                    assert(batch@.offered[batch@.next] == batch.offered@[batch.next as int]@);
                }
                let name: &str = batch.offered[batch.next].as_str();
                match self.request.workspace.target_directories(name) {
                    Ok(directories) => Some(directories),
                    Err(_) => None,
                }
            },
            _ => None,
        }
    }

    /// Goes on with the outcome of the pending operation; gives what is shown.
    #[verifier::rlimit(40)]
    pub fn step(self, event: CommandEvent) -> (stepped: (Self, Vec<UiOutput>))
        requires
            well_formed(self.stage@),
        ensures
            stepped.0.request == self.request,
            update_step(
                self.request,
                self.stage@,
                event,
                stepped.0.stage@,
                ui::shown(stepped.1@),
            ),
            well_formed(stepped.0.stage@),
    {
        let ghost phase = self.stage@;
        let mut outputs: Vec<UiOutput> = Vec::new();
        let ghost none = outputs@;
        proof {
            assert(ui::shown(outputs@) =~= Seq::empty());
        }
        let UpdateCommand { request, stage } = self;
        let next: CommandStage = match (stage, event) {
            (CommandStage::ConfirmPull, CommandEvent::Answer(answer)) => {
                if ui::confirmed(&answer) {
                    say(
                        &mut outputs,
                        UiOutput::Action("refreshing configured Klipper upstream".to_owned()),
                    );
                    assert(ui::shown(outputs@) =~= seq![
                        UiText::Action("refreshing configured Klipper upstream"@),
                    ]);
                    CommandStage::Refresh
                } else {
                    say(
                        &mut outputs,
                        UiOutput::Action("discovering MCUs from Moonraker".to_owned()),
                    );
                    assert(ui::shown(outputs@) =~= seq![
                        UiText::Action("discovering MCUs from Moonraker"@),
                    ]);
                    CommandStage::Discover { refreshed: None }
                }
            },
            (CommandStage::Refresh, CommandEvent::Refreshed(Ok(refreshed))) => {
                let mut note: String = "checkout refresh: ".to_owned();
                note.append(refresh_label(&refreshed).as_str());
                say(&mut outputs, UiOutput::Action(note));
                say(
                    &mut outputs,
                    UiOutput::Action("discovering MCUs from Moonraker".to_owned()),
                );
                assert(ui::shown(outputs@) =~= seq![
                    UiText::Action("checkout refresh: "@ + status::refresh_text(refreshed)),
                    UiText::Action("discovering MCUs from Moonraker"@),
                ]);
                CommandStage::Discover { refreshed: Some(refreshed) }
            },
            (CommandStage::Refresh, CommandEvent::Refreshed(Err(error))) => {
                let messages: Vec<String> = checkout_messages(&error);
                let message: String = with_context(
                    "failed to refresh the configured Klipper checkout",
                    &messages,
                );
                stop(error_chain(&messages).as_str(), message, &mut outputs)
            },
            (CommandStage::Discover { .. }, CommandEvent::Discovered(Err(error))) => {
                let messages: Vec<String> = error.messages();
                let message: String = with_context(
                    "failed to discover MCUs from Moonraker",
                    &messages,
                );
                stop(error_chain(&messages).as_str(), message, &mut outputs)
            },
            (CommandStage::Discover { refreshed }, CommandEvent::Discovered(Ok(inventory))) => {
                let targets: Vec<String> = resolve_targets(&inventory, &request.targets);
                let unknown: Vec<String> = unknown_targets(&inventory, &targets);
                proof {
                    assert(text::texts(targets@).len() == targets@.len());
                    assert(text::texts(unknown@).len() == unknown@.len());
                }
                if unknown.len() > 0 {
                    CommandStage::Finished(Err(describe_unknown(&unknown)))
                } else {
                    CommandStage::ReadRevision { inventory, targets, refreshed }
                }
            },
            (
                CommandStage::ReadRevision { inventory, targets, refreshed },
                CommandEvent::Revision(revision),
            ) => {
                let checkout: CheckoutRevision = revision_or_indeterminate(revision);
                assess(&request, inventory, targets, refreshed, checkout, &mut outputs)
            },
            (CommandStage::Offer(batch), CommandEvent::Answer(answer)) => {
                if ui::confirmed(&answer) {
                    let next: CommandStage = approve(&request, batch, &mut outputs);
                    assert(newly_shown(none, outputs@) =~= ui::shown(outputs@));
                    next
                } else {
                    let ghost view = batch@;
                    let mut batch: UpdateBatch = batch;
                    let count: usize = batch.offered.len();
                    assert(text::texts(batch.offered@).len() == count);
                    assert(batch.next < count);
                    batch.next = batch.next + 1;
                    assert(batch@ =~= view.declined());
                    let next: CommandStage = offer(&request, batch, &mut outputs);
                    assert(newly_shown(none, outputs@) =~= ui::shown(outputs@));
                    next
                }
            },
            (CommandStage::CreateDirectories(batch), CommandEvent::Directories(created)) => {
                let next: CommandStage = prepare_offer(&request, batch, created, &mut outputs);
                assert(newly_shown(none, outputs@) =~= ui::shown(outputs@));
                next
            },
            (CommandStage::CheckPrinter { batch, pending }, CommandEvent::Printer(answer)) => {
                match require_idle(&answer) {
                    Ok(_) => {
                        let ghost view = batch@;
                        let mut batch: UpdateBatch = batch;
                        batch.printer_checked = true;
                        assert(batch@ =~= view.with_idle_printer());
                        CommandStage::Execute { batch, pending }
                    },
                    Err(message) => {
                        let logged: String = message.clone();
                        stop(logged.as_str(), message, &mut outputs)
                    },
                }
            },
            (CommandStage::Execute { batch, pending }, CommandEvent::Executed(Ok(update))) => {
                let next: CommandStage = complete(
                    &request,
                    batch,
                    update.flash.padded_bytes,
                    &mut outputs,
                );
                assert(update_step(
                    request,
                    CommandPhase::Execute { batch: batch@, pending: pending.build() },
                    CommandEvent::Executed(Ok(update)),
                    next@,
                    ui::shown(outputs@),
                ));
                next
            },
            (CommandStage::Execute { .. }, CommandEvent::Executed(Err(error))) => {
                say(&mut outputs, UiOutput::Failure);
                assert(ui::shown(outputs@) =~= seq![UiText::Failure]);
                if error.allows_klipper_restore() {
                    CommandStage::Restore(error)
                } else {
                    fail_update(error, None, &mut outputs)
                }
            },
            (CommandStage::Restore(error), CommandEvent::Restored(result)) => fail_update(
                error,
                Some(result),
                &mut outputs,
            ),
            (
                CommandStage::WaitApplication(batch),
                CommandEvent::Device { present, deadline_passed },
            ) => {
                let waited: RetryStep<(), String> = wait_for_application_with_timeout(
                    offered_mcu(&batch),
                    present,
                    deadline_passed,
                );
                match waited {
                    RetryStep::Done(Ok(_)) => {
                        let next: CommandStage = confirm_restart(&request, batch, &mut outputs);
                        assert(newly_shown(none, outputs@) =~= ui::shown(outputs@));
                        next
                    },
                    RetryStep::Done(Err(message)) => {
                        say(&mut outputs, UiOutput::Failure);
                        assert(ui::shown(outputs@) =~= seq![UiText::Failure]);
                        let logged: String = message.clone();
                        stop(logged.as_str(), message, &mut outputs)
                    },
                    RetryStep::Pause(_) => CommandStage::WaitApplication(batch),
                }
            },
            (CommandStage::Start(batch), CommandEvent::Started(Ok(_))) => {
                say(&mut outputs, UiOutput::Success("Klipper ready".to_owned()));
                say(
                    &mut outputs,
                    UiOutput::Begin("waiting for updated MCUs to reconnect".to_owned()),
                );
                assert(ui::shown(outputs@) =~= seq![
                    UiText::Success("Klipper ready"@),
                    UiText::Begin("waiting for updated MCUs to reconnect"@),
                ]);
                CommandStage::Reconnect(batch)
            },
            (CommandStage::Start(_), CommandEvent::Started(Err(error))) => {
                say(&mut outputs, UiOutput::Failure);
                assert(ui::shown(outputs@) =~= seq![UiText::Failure]);
                let message: String = coordinator_chain(&error);
                let logged: String = message.clone();
                stop(logged.as_str(), message, &mut outputs)
            },
            (
                CommandStage::Reconnect(batch),
                CommandEvent::Reconnected { answer, deadline_passed },
            ) => {
                let waited: RetryStep<(), String> = wait_for_mcus(
                    &answer,
                    &batch.accepted,
                    &batch.checkout,
                    deadline_passed,
                );
                match waited {
                    RetryStep::Done(Ok(_)) => {
                        let count: usize = batch.accepted.len();
                        assert(text::texts(batch.accepted@).len() == count);
                        let mut heading: String = "Update complete: ".to_owned();
                        heading.append(text::decimal_text(count as u64).as_str());
                        heading.append(" ");
                        heading.append(mcu_count_label(count));
                        heading.append(" updated (run log: ");
                        heading.append(request.run_log.as_str());
                        heading.append(")");
                        say(
                            &mut outputs,
                            UiOutput::Success("all updated MCUs connected".to_owned()),
                        );
                        say(&mut outputs, UiOutput::Heading(heading));
                        say(
                            &mut outputs,
                            UiOutput::Action("run completed successfully".to_owned()),
                        );
                        assert(ui::shown(outputs@) =~= seq![
                            UiText::Success("all updated MCUs connected"@),
                            UiText::Heading(heading@),
                            UiText::Action("run completed successfully"@),
                        ]);
                        CommandStage::Finished(Ok(()))
                    },
                    RetryStep::Done(Err(message)) => {
                        say(&mut outputs, UiOutput::Failure);
                        assert(ui::shown(outputs@) =~= seq![UiText::Failure]);
                        let logged: String = message.clone();
                        stop(logged.as_str(), message, &mut outputs)
                    },
                    RetryStep::Pause(_) => CommandStage::Reconnect(batch),
                }
            },
            (stage, _) => stage,
        };
        (UpdateCommand { request, stage: next }, outputs)
    }
}

/// An error of a run, with the place of its log as the last line.
pub fn with_run_log(message: &str, run_log: &str) -> (reported: String)
    ensures
        reported@ == message@ + "\nRun log: "@ + run_log@,
{
    let mut reported: String = message.to_owned();
    reported.append("\nRun log: ");
    reported.append(run_log);
    reported
}

/// The offers of a phase that has some.
pub open spec fn batch_of(phase: CommandPhase) -> Option<BatchState> {
    match phase {
        CommandPhase::Offer(batch) => Some(batch),
        CommandPhase::CreateDirectories(batch) => Some(batch),
        CommandPhase::CheckPrinter { batch, .. } => Some(batch),
        CommandPhase::Execute { batch, .. } => Some(batch),
        CommandPhase::WaitApplication(batch) => Some(batch),
        CommandPhase::Start(batch) => Some(batch),
        CommandPhase::Reconnect(batch) => Some(batch),
        _ => None,
    }
}

/// Klipper is never stopped under a print: a build and flash begins only where the printer was
/// found idle, and only its own answer can say so.
#[verifier::spinoff_prover]
pub proof fn law_only_an_idle_printer_is_stopped(
    request: UpdateRequest,
    phase: CommandPhase,
    event: CommandEvent,
    next: CommandPhase,
    outputs: Seq<UiText>,
)
    requires
        update_step(request, phase, event, next, outputs),
        phase is Execute ==> batch_of(phase)->Some_0.printer_checked,
    ensures
        next is Execute ==> batch_of(next)->Some_0.printer_checked,
        batch_of(next) is Some && batch_of(next)->Some_0.printer_checked && !(batch_of(
            phase,
        ) is Some && batch_of(phase)->Some_0.printer_checked) ==> event is Printer
            && event->Printer_0 is Ok && event->Printer_0->Ok_0.idle(),
{
    match phase {
        CommandPhase::ReadRevision { .. } => {},
        CommandPhase::Offer(_) => {},
        CommandPhase::CreateDirectories(_) => {},
        CommandPhase::CheckPrinter { .. } => {},
        CommandPhase::Execute { .. } => {},
        CommandPhase::WaitApplication(_) => {},
        CommandPhase::Start(_) => {},
        CommandPhase::Reconnect(_) => {},
        _ => {},
    }
}

/// An offer is prepared once its directories are there, and not before: neither is the printer
/// checked nor anything built or stopped until then.
pub proof fn law_directories_come_before_the_build(
    request: UpdateRequest,
    phase: CommandPhase,
    event: CommandEvent,
    next: CommandPhase,
    outputs: Seq<UiText>,
)
    requires
        update_step(request, phase, event, next, outputs),
        next is CheckPrinter || next is Execute,
        !(phase is CheckPrinter || phase is Execute),
    ensures
        phase is CreateDirectories,
        event is Directories,
        event->Directories_0 is Ok,
{
}

/// Nothing is flashed that was not agreed to: without `--auto`, the preparation of an offer begins
/// only on the operator's yes.
pub proof fn law_only_agreed_offers_are_prepared(
    request: UpdateRequest,
    phase: CommandPhase,
    event: CommandEvent,
    next: CommandPhase,
    outputs: Seq<UiText>,
)
    requires
        update_step(request, phase, event, next, outputs),
        !request.auto,
        next is CreateDirectories,
        !(phase is CreateDirectories),
    ensures
        phase is Offer,
        event is Answer,
        event->Answer_0 is Some,
        ui::means_yes(event->Answer_0->Some_0@),
{
}

/// Klipper is restored only after a failure that left no MCU in its bootloader.
pub proof fn law_only_safe_failures_are_restored(
    request: UpdateRequest,
    phase: CommandPhase,
    event: CommandEvent,
    next: CommandPhase,
    outputs: Seq<UiText>,
)
    requires
        update_step(request, phase, event, next, outputs),
        next is Restore,
        !(phase is Restore),
    ensures
        phase is Execute,
        next->Restore_0.restorable(),
{
}

/// Klipper is started again only after at least one MCU was updated, once every offer is done with.
pub proof fn law_klipper_starts_after_the_last_offer(
    request: UpdateRequest,
    phase: CommandPhase,
    event: CommandEvent,
    next: CommandPhase,
    outputs: Seq<UiText>,
)
    requires
        update_step(request, phase, event, next, outputs),
        next is Start,
        !(phase is Start),
    ensures
        next->Start_0.next >= next->Start_0.offered.len(),
        next->Start_0.accepted.len() > 0,
{
}

/// An update that has ended stays as it is, whatever comes.
pub proof fn law_ended_update_stays_ended(
    request: UpdateRequest,
    phase: CommandPhase,
    event: CommandEvent,
    next: CommandPhase,
    outputs: Seq<UiText>,
)
    requires
        update_step(request, phase, event, next, outputs),
        phase is Finished,
    ensures
        next == phase,
        outputs.len() == 0,
{
}

/// A named target that no MCU has ends the update before anything is built or stopped.
pub proof fn law_unknown_targets_end_the_update(
    request: UpdateRequest,
    refreshed: Option<RefreshResult>,
    inventory: McuInventory,
    i: int,
    next: CommandPhase,
    outputs: Seq<UiText>,
)
    requires
        update_step(
            request,
            CommandPhase::Discover { refreshed },
            CommandEvent::Discovered(Ok(inventory)),
            next,
            outputs,
        ),
        0 <= i < request.targets@.len(),
        prepare::mcu_from(
            inventory.mcus@,
            discovery::resolved_name(inventory, request.targets@[i]@),
            0,
        ) is None,
    ensures
        next is Finished,
        next->Finished_0 is Err,
{
    let targets = resolved_targets(inventory, text::texts(request.targets@));
    lemma_unknown_names_grow(inventory, targets, i + 1, targets.len() as int);
    let before = unknown_names(inventory, targets, i);
    let name = targets[i];
    assert(name == discovery::resolved_name(inventory, request.targets@[i]@));
    if before.contains(name) {
        assert(before.len() > 0);
    }
}

proof fn lemma_unknown_names_grow(
    inventory: McuInventory,
    targets: Seq<Seq<char>>,
    from: int,
    to: int,
)
    requires
        from <= to,
    ensures
        unknown_names(inventory, targets, from).len() <= unknown_names(
            inventory,
            targets,
            to,
        ).len(),
    decreases to - from,
{
    if from < to {
        lemma_unknown_names_grow(inventory, targets, from, to - 1);
    }
}

/// Every MCU that is offered is eligible; without `--force` or `--all`, it is also known to be out
/// of date.
pub proof fn law_offers_are_eligible(
    mcu: Mcu,
    targets: Seq<Seq<char>>,
    checkout: CheckoutRevision,
    all: bool,
    force: bool,
)
    requires
        is_offered(mcu, targets, checkout, all, force),
    ensures
        eligibility::standing(mcu) is Eligible,
        !all && !force ==> eligibility::revision_status(mcu, checkout)
            == eligibility::RevisionStatus::UpdateRequired,
        targets.len() > 0 ==> targets.contains(mcu.name@),
{
}


/// Forcing an update offers exactly the MCUs that `--all` offers, among the named targets where
/// some are named.
pub proof fn law_force_offers_what_all_does(
    mcus: Seq<Mcu>,
    targets: Seq<Seq<char>>,
    checkout: CheckoutRevision,
    all: bool,
    count: int,
)
    ensures
        offered_names(mcus, targets, checkout, all, true, count) == offered_names(
            mcus,
            targets,
            checkout,
            true,
            false,
            count,
        ),
    decreases count,
{
    if count > 0 {
        law_force_offers_what_all_does(mcus, targets, checkout, all, count - 1);
    }
}


/// Whether an update is owed to an eligible MCU: all are asked for, or it is forced, or the MCU runs
/// another revision than the checkout's.
pub open spec fn update_is_owed(
    mcu: Mcu,
    checkout: CheckoutRevision,
    all: bool,
    force: bool,
) -> bool {
    all || force || (mcu.version is Some && checkout is Known && !eligibility::same_revision(
        mcu.version->Some_0@,
        checkout->Known_0@,
    ))
}

proof fn lemma_offered_names(
    mcus: Seq<Mcu>,
    targets: Seq<Seq<char>>,
    checkout: CheckoutRevision,
    all: bool,
    force: bool,
    count: int,
    name: Seq<char>,
)
    requires
        0 <= count <= mcus.len(),
    ensures
        offered_names(mcus, targets, checkout, all, force, count).contains(name) == exists|i: int|
            0 <= i < count && (#[trigger] mcus[i]).name@ == name && is_offered(
                mcus[i],
                targets,
                checkout,
                all,
                force,
            ),
    decreases count,
{
    if count > 0 {
        lemma_offered_names(mcus, targets, checkout, all, force, count - 1, name);
        let before = offered_names(mcus, targets, checkout, all, force, count - 1);
        let after = offered_names(mcus, targets, checkout, all, force, count);
        if before.contains(name) {
            let i = choose|i: int| 0 <= i < before.len() && before[i] == name;
            assert(after[i] == name);
        }
        if mcus[count - 1].name@ == name && is_offered(
            mcus[count - 1],
            targets,
            checkout,
            all,
            force,
        ) {
            assert(after[after.len() - 1] == name);
        }
        if after.contains(name) && !before.contains(name) {
            let i = choose|i: int| 0 <= i < after.len() && after[i] == name;
            if i < before.len() {
                assert(before[i] == name);
            }
        }
    }
}

/// Every eligible MCU that an update is owed to is offered, where no target is named or it is any
/// one of the named.
pub proof fn law_every_owed_update_is_offered(
    mcus: Seq<Mcu>,
    targets: Seq<Seq<char>>,
    checkout: CheckoutRevision,
    all: bool,
    force: bool,
    i: int,
    named: int,
)
    requires
        0 <= i < mcus.len(),
        eligibility::standing(mcus[i]) is Eligible,
        targets.len() == 0 || (0 <= named < targets.len() && targets[named] == mcus[i].name@),
        update_is_owed(mcus[i], checkout, all, force),
    ensures
        offered_names(mcus, targets, checkout, all, force, mcus.len() as int).contains(
            mcus[i].name@,
        ),
{
    if targets.len() > 0 {
        assert(targets.contains(targets[named]));
    }
    eligibility::law_eligible_mcus_are_selected(mcus[i], checkout, mcus[i].name);
    assert(is_offered(mcus[i], targets, checkout, all, force));
    lemma_offered_names(
        mcus,
        targets,
        checkout,
        all,
        force,
        mcus.len() as int,
        mcus[i].name@,
    );
}

/// Nothing else is offered: what is offered is an MCU of the inventory that is eligible, that is one
/// of the named targets where any are named, and that an update is owed to.
pub proof fn law_only_owed_updates_are_offered(
    mcus: Seq<Mcu>,
    targets: Seq<Seq<char>>,
    checkout: CheckoutRevision,
    all: bool,
    force: bool,
    name: Seq<char>,
)
    requires
        offered_names(mcus, targets, checkout, all, force, mcus.len() as int).contains(name),
    ensures
        exists|i: int|
            {
                &&& 0 <= i < mcus.len()
                &&& (#[trigger] mcus[i]).name@ == name
                &&& eligibility::standing(mcus[i]) is Eligible
                &&& update_is_owed(mcus[i], checkout, all, force)
            },
        targets.len() > 0 ==> exists|k: int| 0 <= k < targets.len() && #[trigger] targets[k] == name,
{
    lemma_offered_names(mcus, targets, checkout, all, force, mcus.len() as int, name);
    let i = choose|i: int|
        0 <= i < mcus.len() && (#[trigger] mcus[i]).name@ == name && is_offered(
            mcus[i],
            targets,
            checkout,
            all,
            force,
        );
    if eligibility::standing(mcus[i]) is Eligible {
        eligibility::law_eligible_mcus_are_selected(mcus[i], checkout, mcus[i].name);
    }
}

/// MCUs are offered in the order of the inventory, each once.
pub proof fn law_offers_keep_the_order_of_the_inventory(
    mcus: Seq<Mcu>,
    targets: Seq<Seq<char>>,
    checkout: CheckoutRevision,
    all: bool,
    force: bool,
    count: int,
    i: int,
    j: int,
)
    requires
        0 <= count <= mcus.len(),
        forall|k: int, l: int|
            0 <= k < l < mcus.len() ==> text::precedes(
                (#[trigger] mcus[k]).name@,
                (#[trigger] mcus[l]).name@,
            ),
        0 <= i < j < offered_names(mcus, targets, checkout, all, force, count).len(),
    ensures
        text::precedes(
            offered_names(mcus, targets, checkout, all, force, count)[i],
            offered_names(mcus, targets, checkout, all, force, count)[j],
        ),
    decreases count,
{
    let before = offered_names(mcus, targets, checkout, all, force, count - 1);
    let after = offered_names(mcus, targets, checkout, all, force, count);
    if count > 0 {
        if j < before.len() {
            law_offers_keep_the_order_of_the_inventory(
                mcus,
                targets,
                checkout,
                all,
                force,
                count - 1,
                i,
                j,
            );
            assert(after[i] == before[i] && after[j] == before[j]);
        } else {
            assert(after[i] == before[i]);
            assert(before.contains(before[i]));
            lemma_offered_names(mcus, targets, checkout, all, force, count - 1, before[i]);
            let k = choose|k: int|
                0 <= k < count - 1 && (#[trigger] mcus[k]).name@ == before[i] && is_offered(
                    mcus[k],
                    targets,
                    checkout,
                    all,
                    force,
                );
            assert(text::precedes(mcus[k].name@, mcus[count - 1].name@));
        }
    }
}

proof fn lemma_unknown_names(
    inventory: McuInventory,
    targets: Seq<Seq<char>>,
    count: int,
    name: Seq<char>,
)
    requires
        0 <= count <= targets.len(),
    ensures
        unknown_names(inventory, targets, count).contains(name) == (prepare::mcu_from(
            inventory.mcus@,
            name,
            0,
        ) is None && exists|i: int| 0 <= i < count && #[trigger] targets[i] == name),
        unknown_names(inventory, targets, count).no_duplicates(),
    decreases count,
{
    if count > 0 {
        lemma_unknown_names(inventory, targets, count - 1, name);
        let before = unknown_names(inventory, targets, count - 1);
        let after = unknown_names(inventory, targets, count);
        if before.contains(name) {
            let i = choose|i: int| 0 <= i < before.len() && before[i] == name;
            assert(after[i] == name);
        }
        if targets[count - 1] == name && prepare::mcu_from(inventory.mcus@, name, 0) is None
            && !before.contains(name) {
            assert(after[after.len() - 1] == name);
        }
        if after.contains(name) && !before.contains(name) {
            let i = choose|i: int| 0 <= i < after.len() && after[i] == name;
            if i < before.len() {
                assert(before[i] == name);
            }
        }
    }
}

/// The unknown targets are exactly the named ones that no MCU is called, each once.
pub proof fn law_unknown_targets_are_those_without_an_mcu(
    inventory: McuInventory,
    targets: Seq<Seq<char>>,
    name: Seq<char>,
)
    ensures
        unknown_names(inventory, targets, targets.len() as int).no_duplicates(),
        unknown_names(inventory, targets, targets.len() as int).contains(name) == (targets.contains(
            name,
        ) && forall|i: int|
            0 <= i < inventory.mcus@.len() ==> (#[trigger] inventory.mcus@[i]).name@ != name),
{
    lemma_unknown_names(inventory, targets, targets.len() as int, name);
    match prepare::mcu_from(inventory.mcus@, name, 0) {
        Some(i) => {
            prepare::law_mcu_is_found_by_its_name(inventory.mcus@, name, 0);
            assert(inventory.mcus@[i].name@ == name);
        },
        None => {
            assert forall|i: int| 0 <= i < inventory.mcus@.len() implies (
            #[trigger] inventory.mcus@[i]).name@ != name by {
                prepare::law_mcu_is_found_by_its_name(inventory.mcus@, name, i);
            }
        },
    }
}

/// Whether an MCU is back as it was built: Moonraker reports it, at the checkout's revision where
/// that is known.
pub open spec fn is_back(inventory: McuInventory, name: Seq<char>, checkout: CheckoutRevision) -> bool {
    exists|i: int|
        {
            &&& 0 <= i < inventory.mcus@.len()
            &&& (#[trigger] inventory.mcus@[i]).name@ == name
            &&& checkout is Known ==> inventory.mcus@[i].version is Some
                && eligibility::same_revision(
                inventory.mcus@[i].version->Some_0@,
                checkout->Known_0@,
            )
        }
}

proof fn lemma_pending_notes(
    inventory: McuInventory,
    selected: Seq<Seq<char>>,
    checkout: CheckoutRevision,
    count: int,
    k: int,
)
    requires
        0 <= k < count <= selected.len(),
        pending_note(inventory, selected[k], checkout) is Some,
    ensures
        pending_notes(inventory, selected, checkout, count).len() > 0,
    decreases count,
{
    if k < count - 1 {
        lemma_pending_notes(inventory, selected, checkout, count - 1, k);
    }
}

proof fn lemma_no_pending_notes(
    inventory: McuInventory,
    selected: Seq<Seq<char>>,
    checkout: CheckoutRevision,
    count: int,
)
    requires
        0 <= count <= selected.len(),
        forall|k: int|
            0 <= k < selected.len() ==> pending_note(
                inventory,
                #[trigger] selected[k],
                checkout,
            ) is None,
    ensures
        pending_notes(inventory, selected, checkout, count).len() == 0,
    decreases count,
{
    if count > 0 {
        lemma_no_pending_notes(inventory, selected, checkout, count - 1);
        assert(pending_note(inventory, selected[count - 1], checkout) is None);
    }
}

/// The wait for the updated MCUs ends only once Moonraker answers and every one of them is back, and
/// it does end then.
pub proof fn law_wait_ends_when_every_mcu_is_back(
    answer: Result<McuInventory, MoonrakerError>,
    selected: Seq<Seq<char>>,
    checkout: CheckoutRevision,
    k: int,
)
    requires
        answer is Ok ==> forall|i: int, j: int|
            0 <= i < j < answer->Ok_0.mcus@.len() ==> (#[trigger] answer->Ok_0.mcus@[i]).name@ != (
            #[trigger] answer->Ok_0.mcus@[j]).name@,
    ensures
        reconnect_text(answer, selected, checkout) is None ==> answer is Ok,
        reconnect_text(answer, selected, checkout) is None && 0 <= k < selected.len() ==> is_back(
            answer->Ok_0,
            selected[k],
            checkout,
        ),
        answer is Ok && (forall|i: int|
            0 <= i < selected.len() ==> is_back(answer->Ok_0, #[trigger] selected[i], checkout))
            ==> reconnect_text(answer, selected, checkout) is None,
{
    if answer is Ok {
        let inventory = answer->Ok_0;
        if 0 <= k < selected.len() && pending_note(inventory, selected[k], checkout) is Some {
            lemma_pending_notes(inventory, selected, checkout, selected.len() as int, k);
        }
        if 0 <= k < selected.len() && pending_note(inventory, selected[k], checkout) is None {
            prepare::law_mcu_is_found_by_its_name(inventory.mcus@, selected[k], 0);
            let i = prepare::mcu_from(inventory.mcus@, selected[k], 0)->Some_0;
            assert(inventory.mcus@[i].name@ == selected[k]);
        }
        if forall|i: int|
            0 <= i < selected.len() ==> is_back(inventory, #[trigger] selected[i], checkout) {
            assert forall|i: int| 0 <= i < selected.len() implies pending_note(
                inventory,
                #[trigger] selected[i],
                checkout,
            ) is None by {
                let name = selected[i];
                assert(is_back(inventory, name, checkout));
                let at = choose|at: int|
                    {
                        &&& 0 <= at < inventory.mcus@.len()
                        &&& (#[trigger] inventory.mcus@[at]).name@ == name
                        &&& checkout is Known ==> inventory.mcus@[at].version is Some
                            && eligibility::same_revision(
                            inventory.mcus@[at].version->Some_0@,
                            checkout->Known_0@,
                        )
                    };
                prepare::law_mcu_is_found_by_its_name(inventory.mcus@, name, at);
                let found = prepare::mcu_from(inventory.mcus@, name, 0)->Some_0;
                if found < at {
                    assert(inventory.mcus@[found].name@ != inventory.mcus@[at].name@);
                }
                assert(found == at);
            }
            lemma_no_pending_notes(inventory, selected, checkout, selected.len() as int);
        }
    }
}

/// Klipper may be stopped exactly where the printer was asked and says that it is idle.
pub proof fn law_printer_must_say_that_it_is_idle(answer: Result<PrintState, MoonrakerError>)
    ensures
        busy_text(answer) is None == (answer is Ok && answer->Ok_0.idle()),
{
}

/// What an update offers, from which inventory and against which revision, does not change on the
/// way, and the offers are taken one after the other.
pub proof fn law_offers_are_taken_in_turn(
    request: UpdateRequest,
    phase: CommandPhase,
    event: CommandEvent,
    next: CommandPhase,
    outputs: Seq<UiText>,
)
    requires
        update_step(request, phase, event, next, outputs),
        batch_of(phase) is Some,
        batch_of(next) is Some,
    ensures
        ({
            let before = batch_of(phase)->Some_0;
            let after = batch_of(next)->Some_0;
            &&& after.offered == before.offered
            &&& after.inventory == before.inventory
            &&& after.checkout == before.checkout
            &&& after.next == before.next || after.next == before.next + 1
            &&& after.accepted == before.accepted || (after.next == before.next + 1
                && after.accepted == before.accepted.push(before.offered[before.next]))
            &&& before.printer_checked ==> after.printer_checked
        }),
{
    match phase {
        CommandPhase::Offer(_) => {},
        CommandPhase::CreateDirectories(_) => {},
        CommandPhase::CheckPrinter { .. } => {},
        CommandPhase::Execute { .. } => {},
        CommandPhase::WaitApplication(_) => {},
        CommandPhase::Start(_) => {},
        CommandPhase::Reconnect(_) => {},
        _ => {},
    }
}

/// An MCU counts as updated only once it was flashed, and, where it is reached at a serial device,
/// once that device is back.
pub proof fn law_only_flashed_mcus_count_as_updated(
    request: UpdateRequest,
    phase: CommandPhase,
    event: CommandEvent,
    next: CommandPhase,
    outputs: Seq<UiText>,
)
    requires
        update_step(request, phase, event, next, outputs),
        batch_of(phase) is Some,
        batch_of(next) is Some,
        batch_of(next)->Some_0.accepted != batch_of(phase)->Some_0.accepted,
    ensures
        (phase is Execute && event is Executed && event->Executed_0 is Ok && !(
        batch_of(phase)->Some_0.mcu().transport is Some
            && batch_of(phase)->Some_0.mcu().transport->Some_0 is Serial)) || (phase
            is WaitApplication && event is Device && (event->present || !(
        batch_of(phase)->Some_0.mcu().transport is Some
            && batch_of(phase)->Some_0.mcu().transport->Some_0 is Serial))),
{
    match phase {
        CommandPhase::Execute { .. } => {},
        CommandPhase::WaitApplication(_) => {},
        _ => {},
    }
}

/// An offer is passed over only where the operator does not agree to it, or after it was flashed.
pub proof fn law_offers_are_not_passed_over(
    request: UpdateRequest,
    phase: CommandPhase,
    event: CommandEvent,
    next: CommandPhase,
    outputs: Seq<UiText>,
)
    requires
        update_step(request, phase, event, next, outputs),
        batch_of(phase) is Some,
        batch_of(next) is Some,
        batch_of(next)->Some_0.next != batch_of(phase)->Some_0.next,
        batch_of(next)->Some_0.accepted == batch_of(phase)->Some_0.accepted,
    ensures
        phase is Offer,
        event is Answer,
        event->Answer_0 is Some ==> !ui::means_yes(event->Answer_0->Some_0@),
{
    match phase {
        CommandPhase::Offer(_) => {},
        CommandPhase::Execute { .. } => {
            let before = batch_of(phase)->Some_0;
            assert(before.updated().accepted.len() == before.accepted.len() + 1);
        },
        CommandPhase::WaitApplication(_) => {
            let before = batch_of(phase)->Some_0;
            assert(before.updated().accepted.len() == before.accepted.len() + 1);
        },
        _ => {},
    }
}

/// What is built and flashed for an offer is the MCU that was offered: its own configuration, over
/// its own transport, cleaned first exactly where that was asked for.
pub proof fn law_prepared_build_is_of_the_offered_mcu(
    request: UpdateRequest,
    batch: BatchState,
    event: CommandEvent,
    next: CommandPhase,
    outputs: Seq<UiText>,
)
    requires
        update_step(request, CommandPhase::CreateDirectories(batch), event, next, outputs),
        next is CheckPrinter || next is Execute,
    ensures
        ({
            let pending = if next is Execute {
                next->Execute_pending
            } else {
                next->CheckPrinter_pending
            };
            &&& batch_of(next) == Some(batch)
            &&& next is Execute == batch.printer_checked
            &&& pending.target_name@ == batch.offered[batch.next]
            &&& exists|i: int|
                {
                    &&& 0 <= i < batch.inventory.mcus@.len()
                    &&& (#[trigger] batch.inventory.mcus@[i]).name@ == batch.offered[batch.next]
                    &&& pending.mcu == batch.inventory.mcus@[i].mcu
                    &&& pending.transport == batch.inventory.mcus@[i].transport
                    &&& pending.request.kconfig == batch.inventory.mcus@[i].kconfig
                }
            &&& pending.request.clean == request.clean
        }),
{
    let name = batch.offered[batch.next];
    prepare::law_mcu_is_found_by_its_name(batch.inventory.mcus@, name, 0);
    let i = prepare::mcu_from(batch.inventory.mcus@, name, 0)->Some_0;
    assert(batch.inventory.mcus@[i].name@ == name);
}

/// The build that was prepared is the one that is checked for and then executed.
pub proof fn law_checked_build_is_executed(
    request: UpdateRequest,
    batch: BatchState,
    pending: PreparedBuild,
    event: CommandEvent,
    next: CommandPhase,
    outputs: Seq<UiText>,
)
    requires
        update_step(
            request,
            CommandPhase::CheckPrinter { batch, pending },
            event,
            next,
            outputs,
        ),
        event is Printer,
    ensures
        event->Printer_0 is Ok && event->Printer_0->Ok_0.idle() ==> next is Execute
            && next->Execute_pending == pending,
        !(event->Printer_0 is Ok && event->Printer_0->Ok_0.idle()) ==> next is Finished
            && next->Finished_0 is Err,
{
}

/// An update that changed something succeeds only at its end: once Klipper was started and every
/// updated MCU is back.
pub proof fn law_update_succeeds_when_its_mcus_are_back(
    request: UpdateRequest,
    phase: CommandPhase,
    event: CommandEvent,
    next: CommandPhase,
    outputs: Seq<UiText>,
)
    requires
        update_step(request, phase, event, next, outputs),
        next is Finished,
        next->Finished_0 is Ok,
        batch_of(phase) is Some,
    ensures
        (phase is Offer && event is Answer && batch_of(phase)->Some_0.accepted.len() == 0) || (phase
            is Reconnect && event is Reconnected && reconnect_text(
            event->answer,
            batch_of(phase)->Some_0.accepted,
            batch_of(phase)->Some_0.checkout,
        ) is None),
{
    match phase {
        CommandPhase::Offer(_) => {},
        CommandPhase::CreateDirectories(_) => {},
        CommandPhase::CheckPrinter { .. } => {},
        CommandPhase::Execute { .. } => {
            let before = batch_of(phase)->Some_0;
            assert(before.updated().accepted.len() == before.accepted.len() + 1);
        },
        CommandPhase::WaitApplication(_) => {
            let before = batch_of(phase)->Some_0;
            assert(before.updated().accepted.len() == before.accepted.len() + 1);
        },
        CommandPhase::Start(_) => {},
        CommandPhase::Reconnect(_) => {},
        _ => {},
    }
}

/// A failed build or flash ends the update with an error, or has Klipper restored first where that is
/// safe; and it is restored once, whatever comes of that.
pub proof fn law_failed_flash_ends_the_update(
    request: UpdateRequest,
    phase: CommandPhase,
    event: CommandEvent,
    next: CommandPhase,
    outputs: Seq<UiText>,
)
    requires
        update_step(request, phase, event, next, outputs),
        (phase is Execute && event is Executed && event->Executed_0 is Err) || (phase is Restore
            && event is Restored),
    ensures
        phase is Execute && event->Executed_0->Err_0@.restorable() ==> next is Restore,
        phase is Execute && !event->Executed_0->Err_0@.restorable() ==> next is Finished
            && next->Finished_0 is Err,
        phase is Restore ==> next is Finished && next->Finished_0 is Err,
{
}

/// The checkout is refreshed where that is asked for, and at a terminal only where the operator
/// agrees to it; otherwise the MCUs are discovered at once.
pub proof fn law_refresh_is_asked_for(
    request: UpdateRequest,
    answer: Option<String>,
    next: CommandPhase,
    outputs: Seq<UiText>,
)
    requires
        update_step(
            request,
            CommandPhase::ConfirmPull,
            CommandEvent::Answer(answer),
            next,
            outputs,
        ),
    ensures
        update_begins(request).0 is Refresh == (request.auto || request.pull),
        update_begins(request).0 is ConfirmPull == (!request.auto && !request.pull
            && request.interactive),
        update_begins(request).0 is Discover == (!request.auto && !request.pull
            && !request.interactive),
        next is Refresh == (answer is Some && ui::means_yes(answer->Some_0@)),
        next is Discover == !(answer is Some && ui::means_yes(answer->Some_0@)),
{
}

/// The offers of an update are those of the inventory that was discovered, against the revision that
/// the checkout is at; one whose revision cannot be read counts as not known.
pub proof fn law_offers_are_of_what_was_read(
    request: UpdateRequest,
    inventory: McuInventory,
    targets: Seq<Seq<char>>,
    refreshed: Option<RefreshResult>,
    revision: Result<CheckoutRevision, CheckoutError>,
    next: CommandPhase,
    outputs: Seq<UiText>,
)
    requires
        update_step(
            request,
            CommandPhase::ReadRevision { inventory, targets, refreshed },
            CommandEvent::Revision(revision),
            next,
            outputs,
        ),
    ensures
        ({
            let checkout = if revision is Ok {
                revision->Ok_0
            } else {
                CheckoutRevision::Indeterminate
            };
            let offered = offered_names(
                inventory.mcus@,
                targets,
                checkout,
                request.all,
                request.force,
                inventory.mcus@.len() as int,
            );
            &&& offered.len() == 0 ==> next == CommandPhase::Finished(Ok(()))
            &&& batch_of(next) is Some ==> {
                let batch = batch_of(next)->Some_0;
                &&& batch.inventory == inventory
                &&& batch.checkout == checkout
                &&& batch.offered == offered
                &&& batch.next == 0
                &&& batch.accepted.len() == 0
                &&& !batch.printer_checked
            }
            &&& offered.len() > 0 && !request.auto ==> next is Offer
        }),
{
}

/// A target that is named resolves as a name of the inventory does, every one in its place.
pub proof fn law_targets_resolve_one_by_one(
    inventory: McuInventory,
    targets: Seq<Seq<char>>,
    i: int,
)
    requires
        0 <= i < targets.len(),
    ensures
        resolved_targets(inventory, targets).len() == targets.len(),
        resolved_targets(inventory, targets)[i] == discovery::resolved_name(inventory, targets[i]),
{
}

/// After a flash the serial device of the MCU is waited for, and for no longer than its deadline: an
/// MCU that stays away ends the update.
pub proof fn law_restart_is_waited_for(
    request: UpdateRequest,
    batch: BatchState,
    present: bool,
    deadline_passed: bool,
    next: CommandPhase,
    outputs: Seq<UiText>,
)
    requires
        update_step(
            request,
            CommandPhase::WaitApplication(batch),
            CommandEvent::Device { present, deadline_passed },
            next,
            outputs,
        ),
        batch.mcu().transport is Some,
        batch.mcu().transport->Some_0 is Serial,
    ensures
        !present && !deadline_passed ==> next == CommandPhase::WaitApplication(batch),
        !present && deadline_passed ==> next is Finished && next->Finished_0 is Err,
        present && batch_of(next) is Some ==> batch_of(next)->Some_0.accepted
            == batch.accepted.push(batch.offered[batch.next]),
{
}

/// Whether `step` is how a wait for an MCU's application goes on.
pub open spec fn waits_for_application(
    mcu: Mcu,
    present: bool,
    deadline_passed: bool,
    step: RetryStep<(), String>,
) -> bool {
    if restart_device(mcu) is None || present {
        step == RetryStep::<(), String>::Done(Ok(()))
    } else if deadline_passed {
        step is Done && step->Done_0 is Err && step->Done_0->Err_0@ == restart_text(mcu)
    } else {
        step == RetryStep::<(), String>::Pause(RESTART_POLL_NANOS)
    }
}

/// Whether `step` is how a wait for the updated MCUs goes on, where `waiting` is what is missing.
pub open spec fn waits_for_mcus(
    waiting: Option<Seq<char>>,
    deadline_passed: bool,
    step: RetryStep<(), String>,
) -> bool {
    match waiting {
        None => step == RetryStep::<(), String>::Done(Ok(())),
        Some(state) => if deadline_passed {
            step is Done && step->Done_0 is Err && step->Done_0->Err_0@ == not_reconnected(state)
        } else {
            step == RetryStep::<(), String>::Pause(RECONNECT_POLL_NANOS)
        },
    }
}

/// Only a serial MCU is waited for: until its own device is there, or the time is over, which is an
/// error that names the MCU and the device.
pub proof fn law_serial_mcu_is_waited_for(
    mcu: Mcu,
    present: bool,
    deadline_passed: bool,
    step: RetryStep<(), String>,
)
    requires
        waits_for_application(mcu, present, deadline_passed, step),
    ensures
        present ==> step == RetryStep::<(), String>::Done(Ok(())),
        mcu.transport is None || mcu.transport->Some_0 is Can ==> step == RetryStep::<
            (),
            String,
        >::Done(Ok(())),
        mcu.transport is Some && mcu.transport->Some_0 is Serial && !present ==> {
            &&& step is Pause <==> !deadline_passed
            &&& deadline_passed ==> step->Done_0 is Err && step->Done_0->Err_0@ == mcu.name@
                + " did not re-enumerate at "@ + mcu.transport->Some_0->device@
        },
{
}

/// The updated MCUs are waited for until nothing is missing, or the time is over, which is an error
/// that says what is missing.
pub proof fn law_wait_for_mcus_ends(
    waiting: Option<Seq<char>>,
    deadline_passed: bool,
    step: RetryStep<(), String>,
)
    requires
        waits_for_mcus(waiting, deadline_passed, step),
    ensures
        step is Done && step->Done_0 is Ok <==> waiting is None,
        step is Pause <==> waiting is Some && !deadline_passed,
        step is Done && step->Done_0 is Err ==> step->Done_0->Err_0@
            == "Klipper did not reconnect every updated MCU at the built revision ("@
            + waiting->Some_0 + ")"@,
{
}

/// A failure tells what became of Klipper: it may still be stopped where nothing was tried, it was
/// left as it was where it was restored, and where that failed the reason is told.
pub proof fn law_failure_tells_what_became_of_klipper(
    failure: CoordinatorFailure,
    error: CoordinatorError,
    origin: Seq<char>,
)
    ensures
        aftermath(None, origin)
            == ". Klipper may still be stopped; fix the issue, then restart it manually"@,
        aftermath(Some(Ok(())), origin)
            == ". Klipper has been left in its state from before this "@ + origin,
        aftermath(Some(Err(failure)), origin) == ". Klipper also failed to restore: "@
            + text::joined(failure.chain(), ": "@)
            + "; fix the issue, then restart it manually"@,
        restored(None) is None,
        restored(Some(Ok(()))) == Some(Ok::<(), CoordinatorFailure>(())),
        restored(Some(Err(error))) == Some(Err::<(), CoordinatorFailure>(error@)),
{
}

/// An offer names the MCU, the version that it runs and the revision that it would get.
pub proof fn law_offer_names_both_versions(batch: BatchState)
    ensures
        batch.mcu().version is Some ==> batch.offer_text() == "Update "@
            + batch.offered[batch.next] + " from "@ + batch.mcu().version->Some_0@ + " to "@
            + status::revision_text(batch.checkout),
        batch.mcu().version is None ==> batch.offer_text() == "Update "@
            + batch.offered[batch.next] + " from "@ + "unknown"@ + " to "@
            + status::revision_text(batch.checkout),
{
}

/// One unknown target is told in the singular and several in the plural, with their names.
pub proof fn law_unknown_targets_are_named(name: Seq<char>, other: Seq<char>)
    ensures
        unknown_text(seq![name]) == "unknown target MCU"@ + ": "@ + name,
        unknown_text(seq![name, other]) == "unknown target MCUs"@ + ": "@ + name + ", "@ + other,
        count_word(1) == "MCU"@,
        count_word(0) == "MCUs"@,
        count_word(2) == "MCUs"@,
        selects(true) is All,
        selects(false) is Required,
{
    reveal_strlit("");
    reveal_strlit("s");
    reveal_strlit("unknown target MCU");
    reveal_strlit("unknown target MCUs");
    reveal_with_fuel(text::joined, 3);
    assert(seq![name, other].drop_last() =~= seq![name]);
    assert(unknown_text(seq![name]) =~= "unknown target MCU"@ + ": "@ + name);
    assert("unknown target MCU"@ + "s"@ =~= "unknown target MCUs"@);
    assert(unknown_text(seq![name, other]) =~= "unknown target MCUs"@ + ": "@ + name + ", "@
        + other);
}

/// The status of every MCU is shown before anything is offered. Where an update is owed, a request
/// that is not automatic asks about the first of the owed MCUs and does nothing else; where none is,
/// the command is done.
pub proof fn law_status_is_shown_before_the_first_offer(
    request: UpdateRequest,
    inventory: McuInventory,
    targets: Seq<Seq<char>>,
    refreshed: Option<RefreshResult>,
    checkout: CheckoutRevision,
    next: CommandPhase,
    outputs: Seq<UiText>,
)
    requires
        assesses(request, inventory, targets, refreshed, checkout, next, outputs),
    ensures
        ({
            let owed = offered_names(
                inventory.mcus@,
                targets,
                checkout,
                request.all,
                request.force,
                inventory.mcus@.len() as int,
            );
            &&& outputs.len() > 0
            &&& outputs[0] == UiText::Block(
                status::status_text(request.source@, checkout, inventory, refreshed),
            )
            &&& owed.len() == 0 ==> next == CommandPhase::Finished(Ok(()))
            &&& owed.len() > 0 && !request.auto ==> {
                &&& outputs.len() == 2
                &&& outputs[1] is Prompt
                &&& next is Offer
                &&& next->Offer_0.offered == owed
                &&& next->Offer_0.next == 0
                &&& next->Offer_0.accepted.len() == 0
                &&& !next->Offer_0.printer_checked
                &&& next->Offer_0.inventory == inventory
                &&& next->Offer_0.checkout == checkout
            }
        }),
{
    let rest = outputs.skip(1);
    if next is Offer {
        let batch = next->Offer_0;
        assert(rest.len() == outputs.len() - 1);
        assert(rest == seq![UiText::Prompt(batch.offer_text() + "?"@)]);
        assert(rest[0] == outputs[1]);
    }
}

} // verus!
