//! Waiting for Klipper to report its MCUs, and resolving the targets that a user names.
use vstd::prelude::*;

use crate::moonraker::{McuInventory, MoonrakerError};
use crate::prepare;
use crate::prepare::find_mcu;
use crate::retry;
use crate::retry::{retry_until_available, RetryStep};
use crate::text;

verus! {

/// How long a discovery waits for Klipper, in nanoseconds.
pub const TIMEOUT_NANOS: u128 = 15_000_000_000;

/// How long a discovery pauses between two attempts, in nanoseconds.
pub const POLL_INTERVAL_NANOS: u128 = 5_000_000_000;

/// The number of retries that the waiting message counts up to.
pub const MAX_RETRIES: u32 = 3;

/// Whether an error means that Klipper may become ready soon.
pub open spec fn not_ready(error: MoonrakerError) -> bool {
    error is KlippyStarting || error is KlippyNotConnected
}

/// Whether an error means that Klipper may become ready soon.
pub fn is_klipper_not_ready(error: &MoonrakerError) -> (result: bool)
    ensures
        result == not_ready(*error),
{
    match error {
        MoonrakerError::KlippyStarting(_) => true,
        MoonrakerError::KlippyNotConnected => true,
        _ => false,
    }
}

/// The message that a wait for Klipper shows: on a terminal it replaces the line before it.
pub open spec fn waiting_text(interactive: bool, attempt: nat, max: nat) -> Seq<char> {
    let message = "Waiting for Klipper to become ready... ("@ + text::decimal(attempt) + "/"@
        + text::decimal(max) + ")"@;
    if interactive {
        "\r\u{1b}[2K"@ + message
    } else {
        message + "\n"@
    }
}

/// The message that a wait for Klipper shows.
pub fn waiting_message(interactive: bool, attempt: u32, max: u32) -> (message: String)
    ensures
        message@ == waiting_text(interactive, attempt as nat, max as nat),
{
    let mut message: String = "Waiting for Klipper to become ready... (".to_owned();
    message.append(text::decimal_text(attempt as u64).as_str());
    message.append("/");
    message.append(text::decimal_text(max as u64).as_str());
    message.append(")");
    if interactive {
        let mut line: String = "\r\u{1b}[2K".to_owned();
        line.append(message.as_str());
        line
    } else {
        message.append("\n");
        message
    }
}

/// What a discovery does after one attempt, and what it writes to stderr meanwhile.
#[derive(Debug, PartialEq, Eq)]
pub struct DiscoveryDecision {
    /// How many attempts found Klipper not ready so far.
    pub retries: u32,
    /// What is written to stderr; nothing where it is empty.
    pub message: String,
    /// Whether the discovery is over, and with what, or how long it pauses.
    pub step: RetryStep<McuInventory, MoonrakerError>,
}

/// Decides a discovery that waits for Klipper with the standard interval.
pub fn discover_mcus_with_retry(
    retries: u32,
    answer: Result<McuInventory, MoonrakerError>,
    deadline_passed: bool,
    interactive: bool,
) -> (decision: DiscoveryDecision)
    requires
        retries < u32::MAX,
    ensures
        decides(
            retries,
            answer,
            deadline_passed,
            interactive,
            POLL_INTERVAL_NANOS,
            MAX_RETRIES,
            decision,
        ),
{
    discover_mcus_with_retry_params(
        retries,
        answer,
        deadline_passed,
        interactive,
        POLL_INTERVAL_NANOS,
        MAX_RETRIES,
    )
}

/// The pause between two attempts.
pub open spec fn pause(poll_interval_nanos: u128) -> u128 {
    if poll_interval_nanos < retry::MINIMUM_POLL_NANOS {
        retry::MINIMUM_POLL_NANOS
    } else {
        poll_interval_nanos
    }
}

/// Whether `decision` is how a discovery goes on after one attempt: only an answer that Klipper is
/// not ready is tried again, and only before the deadline.
pub open spec fn decides(
    retries: u32,
    answer: Result<McuInventory, MoonrakerError>,
    deadline_passed: bool,
    interactive: bool,
    poll_interval_nanos: u128,
    max_retries: u32,
    decision: DiscoveryDecision,
) -> bool {
    let waits = answer is Err && not_ready(answer->Err_0);
    let waiting = waiting_text(interactive, (retries + 1) as nat, max_retries as nat);
    let clear = if interactive {
        "\r\u{1b}[2K"@
    } else {
        Seq::empty()
    };
    if waits && !deadline_passed {
        &&& decision.retries == retries + 1
        &&& decision.message@ == waiting
        &&& decision.step == RetryStep::<McuInventory, MoonrakerError>::Pause(
            pause(poll_interval_nanos),
        )
    } else {
        &&& decision.step == RetryStep::<McuInventory, MoonrakerError>::Done(answer)
        &&& if waits {
            decision.retries == retries + 1 && decision.message@ == waiting + clear
        } else if retries > 0 {
            decision.retries == retries && decision.message@ == clear
        } else {
            decision.retries == retries && decision.message@ == Seq::<char>::empty()
        }
    }
}

/// Decides a discovery that waits for Klipper.
pub fn discover_mcus_with_retry_params(
    retries: u32,
    answer: Result<McuInventory, MoonrakerError>,
    deadline_passed: bool,
    interactive: bool,
    poll_interval_nanos: u128,
    max_retries: u32,
) -> (decision: DiscoveryDecision)
    requires
        retries < u32::MAX,
    ensures
        decides(
            retries,
            answer,
            deadline_passed,
            interactive,
            poll_interval_nanos,
            max_retries,
            decision,
        ),
{
    let waits: bool = match &answer {
        Ok(_) => false,
        Err(error) => is_klipper_not_ready(error),
    };
    let retries: u32 = if waits {
        retries + 1
    } else {
        retries
    };
    let mut message: String = if waits {
        waiting_message(interactive, retries, max_retries)
    } else {
        String::new()
    };
    let step: RetryStep<McuInventory, MoonrakerError> = retry_until_available(
        answer,
        deadline_passed || !waits,
        poll_interval_nanos,
    );
    let over: bool = deadline_passed || !waits;
    let ghost before = message@;
    if over && interactive && retries > 0 {
        message.append("\r\u{1b}[2K");
    }
    proof {
        assert(Seq::<char>::empty() + "\r\u{1b}[2K"@ =~= "\r\u{1b}[2K"@);
        assert(before + Seq::<char>::empty() =~= before);
    }
    DiscoveryDecision { retries, message, step }
}

/// The first MCU from index `i` on whose name is `name`, apart from letter case.
pub open spec fn named_from(inventory: McuInventory, name: Seq<char>, i: int) -> Option<int>
    decreases inventory.mcus@.len() - i,
{
    if i < 0 || i >= inventory.mcus@.len() {
        None
    } else if text::same_ignoring_case(inventory.mcus@[i].name@, name) {
        Some(i)
    } else {
        named_from(inventory, name, i + 1)
    }
}

/// The MCU name that a user's target stands for.
pub open spec fn resolved_name(inventory: McuInventory, requested: Seq<char>) -> Seq<char> {
    match prepare::mcu_from(inventory.mcus@, requested, 0) {
        Some(_) => requested,
        None => match named_from(inventory, "mcu "@ + requested, 0) {
            Some(i) => inventory.mcus@[i].name@,
            None => requested,
        },
    }
}

/// Resolves a user-supplied target against discovered MCU names, accepting
/// both the full Moonraker name ("mcu expander") and, case-insensitively,
/// just the label after "mcu " ("expander"). An exact match always wins;
/// an unresolved name is returned unchanged so callers report it verbatim
/// in their existing "unknown target" error paths.
pub fn resolve_target_name(inventory: &McuInventory, requested: &str) -> (name: String)
    ensures
        name@ == resolved_name(*inventory, requested@),
{
    if find_mcu(&inventory.mcus, requested).is_some() {
        return requested.to_owned();
    }
    let mut abbreviated: String = "mcu ".to_owned();
    abbreviated.append(requested);
    let mut i: usize = 0;
    while i < inventory.mcus.len()
        invariant
            i <= inventory.mcus@.len(),
            abbreviated@ == "mcu "@ + requested@,
            prepare::mcu_from(inventory.mcus@, requested@, 0) is None,
            named_from(*inventory, abbreviated@, 0) == named_from(
                *inventory,
                abbreviated@,
                i as int,
            ),
        decreases inventory.mcus@.len() - i,
    {
        if text::eq_ignore_case(inventory.mcus[i].name.as_str(), abbreviated.as_str()) {
            return inventory.mcus[i].name.clone();
        }
        i += 1;
    }
    requested.to_owned()
}

/// An exact match always wins: a target that names an MCU stands for that MCU alone.
pub proof fn law_exact_name_wins(inventory: McuInventory, requested: Seq<char>, i: int)
    requires
        0 <= i < inventory.mcus@.len(),
        inventory.mcus@[i].name@ == requested,
    ensures
        resolved_name(inventory, requested) == requested,
{
    lemma_named_mcu_is_found(inventory, requested, i, 0);
}

proof fn lemma_named_mcu_is_found(inventory: McuInventory, name: Seq<char>, i: int, from: int)
    requires
        0 <= from <= i < inventory.mcus@.len(),
        inventory.mcus@[i].name@ == name,
    ensures
        prepare::mcu_from(inventory.mcus@, name, from) is Some,
    decreases i - from,
{
    if inventory.mcus@[from].name@ != name {
        lemma_named_mcu_is_found(inventory, name, i, from + 1);
    }
}

/// Resolving is stable: a resolved name resolves to itself.
pub proof fn law_resolved_names_resolve_to_themselves(
    inventory: McuInventory,
    requested: Seq<char>,
)
    requires
        resolved_name(inventory, requested) != requested,
    ensures
        resolved_name(inventory, resolved_name(inventory, requested)) == resolved_name(
            inventory,
            requested,
        ),
{
    lemma_named_from_in_range(inventory, "mcu "@ + requested, 0);
    let i = named_from(inventory, "mcu "@ + requested, 0)->Some_0;
    law_exact_name_wins(inventory, inventory.mcus@[i].name@, i);
}

proof fn lemma_named_from_in_range(inventory: McuInventory, name: Seq<char>, from: int)
    requires
        0 <= from,
    ensures
        named_from(inventory, name, from) is Some ==> 0 <= named_from(
            inventory,
            name,
            from,
        )->Some_0 < inventory.mcus@.len(),
    decreases inventory.mcus@.len() - from,
{
    if from < inventory.mcus@.len() {
        lemma_named_from_in_range(inventory, name, from + 1);
    }
}


proof fn lemma_named_from(inventory: McuInventory, name: Seq<char>, i: int)
    requires
        0 <= i,
    ensures
        match named_from(inventory, name, i) {
            Some(at) => {
                &&& i <= at < inventory.mcus@.len()
                &&& text::same_ignoring_case(inventory.mcus@[at].name@, name)
                &&& forall|k: int|
                    i <= k < at ==> !text::same_ignoring_case(
                        (#[trigger] inventory.mcus@[k]).name@,
                        name,
                    )
            },
            None => forall|k: int|
                i <= k < inventory.mcus@.len() ==> !text::same_ignoring_case(
                    (#[trigger] inventory.mcus@[k]).name@,
                    name,
                ),
        },
    decreases inventory.mcus@.len() - i,
{
    if i < inventory.mcus@.len() && !text::same_ignoring_case(inventory.mcus@[i].name@, name) {
        lemma_named_from(inventory, name, i + 1);
    }
}

/// A target that no MCU is called may leave out the `mcu ` that an MCU's name begins with, and is
/// then found in any case; one that fits no MCU so either is left as it is.
pub proof fn law_target_may_leave_out_mcu(
    inventory: McuInventory,
    requested: Seq<char>,
    at: int,
)
    requires
        forall|i: int|
            0 <= i < inventory.mcus@.len() ==> (#[trigger] inventory.mcus@[i]).name@ != requested,
    ensures
        0 <= at < inventory.mcus@.len() && text::same_ignoring_case(
            inventory.mcus@[at].name@,
            "mcu "@ + requested,
        ) && (forall|i: int|
            0 <= i < at ==> !text::same_ignoring_case(
                (#[trigger] inventory.mcus@[i]).name@,
                "mcu "@ + requested,
            )) ==> resolved_name(inventory, requested) == inventory.mcus@[at].name@,
        (forall|i: int|
            0 <= i < inventory.mcus@.len() ==> !text::same_ignoring_case(
                (#[trigger] inventory.mcus@[i]).name@,
                "mcu "@ + requested,
            )) ==> resolved_name(inventory, requested) == requested,
{
    prepare::law_mcu_is_found_by_its_name(inventory.mcus@, requested, 0);
    lemma_named_from(inventory, "mcu "@ + requested, 0);
    if let Some(i) = prepare::mcu_from(inventory.mcus@, requested, 0) {
        assert(inventory.mcus@[i].name@ == requested);
    }
    if let Some(i) = named_from(inventory, "mcu "@ + requested, 0) {
        if 0 <= at < i {
            assert(!text::same_ignoring_case(inventory.mcus@[at].name@, "mcu "@ + requested));
        }
        if i < at {
            assert(text::same_ignoring_case(inventory.mcus@[i].name@, "mcu "@ + requested));
        }
    }
}

/// A discovery is tried again only while Klipper is not ready and the deadline has not passed, after
/// a pause of at least ten milliseconds and of at least the asked interval; otherwise the answer is
/// what came, success or failure.
pub proof fn law_discovery_waits_only_for_klipper(
    retries: u32,
    answer: Result<McuInventory, MoonrakerError>,
    deadline_passed: bool,
    interactive: bool,
    poll_interval_nanos: u128,
    max_retries: u32,
    decision: DiscoveryDecision,
)
    requires
        decides(
            retries,
            answer,
            deadline_passed,
            interactive,
            poll_interval_nanos,
            max_retries,
            decision,
        ),
    ensures
        decision.step is Pause == (answer is Err && !deadline_passed && (answer->Err_0
            is KlippyStarting || answer->Err_0 is KlippyNotConnected)),
        decision.step is Pause ==> decision.step->Pause_0 >= 10_000_000
            && decision.step->Pause_0 >= poll_interval_nanos && (decision.step->Pause_0
            == 10_000_000 || decision.step->Pause_0 == poll_interval_nanos),
        decision.step is Done ==> decision.step->Done_0 == answer,
        decision.retries == retries + if answer is Err && (answer->Err_0 is KlippyStarting
            || answer->Err_0 is KlippyNotConnected) {
            1int
        } else {
            0int
        },
{
}

} // verus!
