//! The command that sends an MCU out of its bootloader.
use vstd::prelude::*;

use crate::flash::reboot::DetectedBootloader;
use crate::flash::stm32_dfu::{ApplicationProbeResult, Stm32DfuError};
use crate::flash::usb_bootloader::UsbBootloaderKind;
use crate::text;
use crate::ui;
use crate::ui::{UiOutput, UiText};

verus! {

/// How an MCU is sent out of its bootloader.
#[derive(Debug, PartialEq, Eq)]
pub enum LeaveAction {
    /// Through Katapult's serial device.
    Katapult {
        /// The serial device.
        serial_device: String,
    },
    /// Through PicoBoot.
    PicoBoot,
    /// Through ROM DFU, to the application at an address.
    Stm32Dfu {
        /// Where the application is.
        application_start: u32,
    },
}

/// How far a reboot has come; each stage asks for one operation.
#[derive(Debug, PartialEq, Eq)]
pub enum LeaveStage {
    /// The application in flash is to be looked for.
    Probe,
    /// The operator is to confirm.
    Confirm(LeaveAction),
    /// The MCU is to be sent out of its bootloader.
    Leave(LeaveAction),
    /// The device is to be watched until it is gone.
    Watch,
    /// Nothing is left to do; whether the bootloader ended up resolved.
    Finished(bool),
}

/// One reboot under way.
#[derive(Debug, PartialEq, Eq)]
pub struct LeaveRun {
    /// Whether the operator is not asked.
    pub skip_prompt: bool,
    /// How far the reboot has come.
    pub stage: LeaveStage,
}

/// The outcome of a reboot's pending operation.
#[derive(Debug, PartialEq, Eq)]
pub enum LeaveEvent {
    /// The application in flash was looked for.
    Probed(Result<ApplicationProbeResult, Stm32DfuError>),
    /// The operator's answer; none where it could not be read.
    Answer(Option<String>),
    /// The MCU was sent out of its bootloader, or why it was not.
    Left(Result<(), String>),
    /// Whether the device is gone.
    Watched(bool),
}

/// The name of a kind of bootloader.
pub open spec fn kind_name(kind: UsbBootloaderKind) -> Seq<char> {
    match kind {
        UsbBootloaderKind::Katapult => "Katapult"@,
        UsbBootloaderKind::Stm32Dfu => "Stm32Dfu"@,
        UsbBootloaderKind::PicoBoot => "PicoBoot"@,
    }
}

/// What is shown for a bootloader before anything is done.
pub open spec fn leave_heading(bootloader: DetectedBootloader) -> UiText {
    UiText::Heading(
        kind_name(bootloader.kind) + " bootloader at "@ + bootloader.observed.usb_id@ + " ("@
            + bootloader.observed.sysfs_path@ + ")"@,
    )
}

/// A reboot that waits for the operator, unless no question is asked.
pub open spec fn asks(skip_prompt: bool, action: LeaveAction, question: Seq<char>) -> (
    LeaveStage,
    Seq<UiText>,
) {
    if skip_prompt {
        (LeaveStage::Leave(action), Seq::empty())
    } else {
        (LeaveStage::Confirm(action), seq![UiText::Prompt(question)])
    }
}

/// How the reboot of one detected bootloader begins, and what it shows after its heading.
pub open spec fn leave_begins(bootloader: DetectedBootloader, skip_prompt: bool) -> (
    LeaveStage,
    Seq<UiText>,
) {
    match bootloader.kind {
        UsbBootloaderKind::Katapult => match bootloader.observed.serial_device {
            None => (
                LeaveStage::Finished(false),
                seq![
                    UiText::Block(
                        "  no unique serial device at this topology; power-cycle the board\n"@,
                    ),
                ],
            ),
            Some(serial_device) => asks(
                skip_prompt,
                LeaveAction::Katapult { serial_device },
                "Reboot into application?"@,
            ),
        },
        UsbBootloaderKind::PicoBoot => asks(
            skip_prompt,
            LeaveAction::PicoBoot,
            "Reboot into application?"@,
        ),
        UsbBootloaderKind::Stm32Dfu => (LeaveStage::Probe, Seq::empty()),
    }
}

/// How a reboot goes on, and what it shows. An outcome that does not answer the pending operation
/// changes nothing.
pub open spec fn leave_step(run: LeaveRun, event: LeaveEvent) -> (LeaveStage, Seq<UiText>) {
    match (run.stage, event) {
        (LeaveStage::Probe, LeaveEvent::Probed(Ok(ApplicationProbeResult::Found(address)))) => asks(
            run.skip_prompt,
            LeaveAction::Stm32Dfu { application_start: address },
            "Candidate application found at offset 0x"@ + text::hexadecimal(address as nat)
                + " \u{2014} reboot into it?"@,
        ),
        (LeaveStage::Probe, LeaveEvent::Probed(Ok(ApplicationProbeResult::NotFound))) => (
            LeaveStage::Finished(false),
            seq![UiText::Block("  no application found in flash; power-cycle the board\n"@)],
        ),
        (LeaveStage::Probe, LeaveEvent::Probed(Ok(ApplicationProbeResult::Ambiguous(_)))) => (
            LeaveStage::Finished(false),
            seq![
                UiText::Block(
                    "  more than one candidate application offset found; power-cycle the board\n"@,
                ),
            ],
        ),
        (LeaveStage::Probe, LeaveEvent::Probed(Err(error))) => (
            LeaveStage::Finished(false),
            seq![
                UiText::Block("  could not probe for an application: "@ + error.text() + "\n"@),
            ],
        ),
        (LeaveStage::Confirm(action), LeaveEvent::Answer(answer)) => if answer is Some
            && ui::means_yes(answer->Some_0@) {
            (LeaveStage::Leave(action), Seq::empty())
        } else {
            (LeaveStage::Finished(true), Seq::empty())
        },
        (LeaveStage::Leave(_), LeaveEvent::Left(Ok(_))) => (LeaveStage::Watch, Seq::empty()),
        (LeaveStage::Leave(_), LeaveEvent::Left(Err(error))) => (
            LeaveStage::Finished(false),
            seq![UiText::Block("  reboot failed: "@ + error@ + "\n"@)],
        ),
        (LeaveStage::Watch, LeaveEvent::Watched(true)) => (
            LeaveStage::Finished(true),
            seq![UiText::Block("  rebooted\n"@)],
        ),
        (LeaveStage::Watch, LeaveEvent::Watched(false)) => (
            LeaveStage::Finished(false),
            seq![UiText::Block("  still present; power-cycle the board\n"@)],
        ),
        (stage, _) => (stage, Seq::empty()),
    }
}

fn blocks(message: &str) -> (outputs: Vec<UiOutput>)
    ensures
        ui::shown(outputs@) == seq![UiText::Block(message@)],
{
    let mut outputs: Vec<UiOutput> = Vec::new();
    outputs.push(UiOutput::Block(message.to_owned()));
    assert(ui::shown(outputs@) =~= seq![UiText::Block(message@)]);
    outputs
}

fn ask(skip_prompt: bool, action: LeaveAction, question: &str) -> (asked: (
    LeaveStage,
    Vec<UiOutput>,
))
    ensures
        (asked.0, ui::shown(asked.1@)) == asks(skip_prompt, action, question@),
{
    let mut outputs: Vec<UiOutput> = Vec::new();
    assert(ui::shown(outputs@) =~= Seq::empty());
    if skip_prompt {
        (LeaveStage::Leave(action), outputs)
    } else {
        outputs.push(UiOutput::Prompt(question.to_owned()));
        assert(ui::shown(outputs@) =~= seq![UiText::Prompt(question@)]);
        (LeaveStage::Confirm(action), outputs)
    }
}

/// Begins to handle one detected bootloader; the run ends with whether it ended up resolved
/// (left cleanly, or left alone as the operator wished).
pub fn leave_one(bootloader: &DetectedBootloader, skip_prompt: bool) -> (begun: (
    LeaveRun,
    Vec<UiOutput>,
))
    ensures
        begun.0.skip_prompt == skip_prompt,
        begun.0.stage == leave_begins(*bootloader, skip_prompt).0,
        ui::shown(begun.1@) == seq![leave_heading(*bootloader)] + leave_begins(
            *bootloader,
            skip_prompt,
        ).1,
{
    let name: &str = match bootloader.kind {
        UsbBootloaderKind::Katapult => "Katapult",
        UsbBootloaderKind::Stm32Dfu => "Stm32Dfu",
        UsbBootloaderKind::PicoBoot => "PicoBoot",
    };
    let mut heading: String = name.to_owned();
    heading.append(" bootloader at ");
    heading.append(bootloader.observed.usb_id.as_str());
    heading.append(" (");
    heading.append(bootloader.observed.sysfs_path.as_str());
    heading.append(")");
    let mut outputs: Vec<UiOutput> = Vec::new();
    outputs.push(UiOutput::Heading(heading));
    let (stage, mut rest) = match bootloader.kind {
        UsbBootloaderKind::Katapult => match &bootloader.observed.serial_device {
            None => (
                LeaveStage::Finished(false),
                blocks("  no unique serial device at this topology; power-cycle the board\n"),
            ),
            Some(serial_device) => ask(
                skip_prompt,
                LeaveAction::Katapult { serial_device: serial_device.clone() },
                "Reboot into application?",
            ),
        },
        UsbBootloaderKind::PicoBoot => ask(
            skip_prompt,
            LeaveAction::PicoBoot,
            "Reboot into application?",
        ),
        UsbBootloaderKind::Stm32Dfu => {
            let none: Vec<UiOutput> = Vec::new();
            assert(ui::shown(none@) =~= Seq::empty());
            (LeaveStage::Probe, none)
        },
    };
    let ghost more = rest@;
    outputs.append(&mut rest);
    assert(ui::shown(outputs@) =~= seq![leave_heading(*bootloader)] + ui::shown(more));
    (LeaveRun { skip_prompt, stage }, outputs)
}

impl LeaveRun {
    /// Goes on with the outcome of the pending operation; gives what is shown.
    pub fn step(self, event: LeaveEvent) -> (stepped: (Self, Vec<UiOutput>))
        ensures
            stepped.0.skip_prompt == self.skip_prompt,
            (stepped.0.stage, ui::shown(stepped.1@)) == leave_step(self, event),
    {
        let LeaveRun { skip_prompt, stage } = self;
        let none: Vec<UiOutput> = Vec::new();
        assert(ui::shown(none@) =~= Seq::empty());
        let (stage, outputs) = match (stage, event) {
            (LeaveStage::Probe, LeaveEvent::Probed(Ok(ApplicationProbeResult::Found(address)))) => {
                let mut question: String = "Candidate application found at offset 0x".to_owned();
                question.append(text::hexadecimal_text(address as u64).as_str());
                question.append(" \u{2014} reboot into it?");
                ask(
                    skip_prompt,
                    LeaveAction::Stm32Dfu { application_start: address },
                    question.as_str(),
                )
            },
            (LeaveStage::Probe, LeaveEvent::Probed(Ok(ApplicationProbeResult::NotFound))) => (
                LeaveStage::Finished(false),
                blocks("  no application found in flash; power-cycle the board\n"),
            ),
            (LeaveStage::Probe, LeaveEvent::Probed(Ok(ApplicationProbeResult::Ambiguous(_)))) => (
                LeaveStage::Finished(false),
                blocks(
                    "  more than one candidate application offset found; power-cycle the board\n",
                ),
            ),
            (LeaveStage::Probe, LeaveEvent::Probed(Err(error))) => {
                let mut message: String = "  could not probe for an application: ".to_owned();
                message.append(error.message().as_str());
                message.append("\n");
                (LeaveStage::Finished(false), blocks(message.as_str()))
            },
            (LeaveStage::Confirm(action), LeaveEvent::Answer(answer)) => {
                if ui::confirmed(&answer) {
                    (LeaveStage::Leave(action), none)
                } else {
                    (LeaveStage::Finished(true), none)
                }
            },
            (LeaveStage::Leave(_), LeaveEvent::Left(Ok(_))) => (LeaveStage::Watch, none),
            (LeaveStage::Leave(_), LeaveEvent::Left(Err(error))) => {
                let mut message: String = "  reboot failed: ".to_owned();
                message.append(error.as_str());
                message.append("\n");
                (LeaveStage::Finished(false), blocks(message.as_str()))
            },
            (LeaveStage::Watch, LeaveEvent::Watched(true)) => (
                LeaveStage::Finished(true),
                blocks("  rebooted\n"),
            ),
            (LeaveStage::Watch, LeaveEvent::Watched(false)) => (
                LeaveStage::Finished(false),
                blocks("  still present; power-cycle the board\n"),
            ),
            (stage, _) => (stage, none),
        };
        (LeaveRun { skip_prompt, stage }, outputs)
    }
}

/// Whether every detected bootloader ended up resolved.
pub fn all_resolved(resolved: &Vec<bool>) -> (all: bool)
    ensures
        all == forall|i: int| 0 <= i < resolved@.len() ==> #[trigger] resolved@[i],
{
    let mut i: usize = 0;
    while i < resolved.len()
        invariant
            i <= resolved@.len(),
            forall|k: int| 0 <= k < i ==> #[trigger] resolved@[k],
        decreases resolved@.len() - i,
    {
        if !resolved[i] {
            assert(!resolved@[i as int]);
            return false;
        }
        i += 1;
    }
    true
}

/// Nothing is sent out of its bootloader against the operator's will: without a yes, a reboot that
/// asks never leaves.
pub proof fn law_unconfirmed_reboot_does_nothing(
    run: LeaveRun,
    action: LeaveAction,
    answer: Option<String>,
)
    requires
        run.stage == LeaveStage::Confirm(action),
        answer is Some ==> !ui::means_yes(answer->Some_0@),
    ensures
        leave_step(run, LeaveEvent::Answer(answer)) == (
            LeaveStage::Finished(true),
            Seq::<UiText>::empty(),
        ),
{
}

/// A reboot counts as resolved only where the device was seen to leave or the operator declined.
pub proof fn law_resolved_means_gone_or_declined(run: LeaveRun, event: LeaveEvent)
    requires
        !(run.stage is Finished),
        leave_step(run, event).0 == LeaveStage::Finished(true),
    ensures
        (run.stage is Watch && event == LeaveEvent::Watched(true)) || (run.stage is Confirm
            && event is Answer),
{
}

/// What leaves a bootloader is of the bootloader's own kind: Katapult over its serial device,
/// PicoBoot at its topology, and an STM32 at the start of the application that its flash holds,
/// which is looked for first.
pub proof fn law_bootloader_is_left_by_its_own_kind(
    bootloader: DetectedBootloader,
    skip_prompt: bool,
)
    ensures
        ({
            let stage = leave_begins(bootloader, skip_prompt).0;
            let action = if stage is Leave {
                stage->Leave_0
            } else {
                stage->Confirm_0
            };
            &&& stage is Probe <==> bootloader.kind is Stm32Dfu
            &&& stage is Leave ==> skip_prompt
            &&& stage is Confirm ==> !skip_prompt
            &&& stage is Finished <==> bootloader.kind is Katapult
                && bootloader.observed.serial_device is None
            &&& stage is Finished ==> stage == LeaveStage::Finished(false)
            &&& (stage is Leave || stage is Confirm) && bootloader.kind is Katapult ==> action is Katapult
                && bootloader.observed.serial_device == Some(action->serial_device)
            &&& bootloader.kind is PicoBoot ==> (stage is Leave || stage is Confirm) && action
                is PicoBoot
        }),
{
}

/// An STM32 is left at the one application that was found in its flash. Without one, or with more
/// than one, it stays.
pub proof fn law_found_application_is_started(run: LeaveRun, address: u32, probed: Result<
    ApplicationProbeResult,
    Stm32DfuError,
>)
    requires
        run.stage is Probe,
    ensures
        ({
            let found = leave_step(
                run,
                LeaveEvent::Probed(Ok(ApplicationProbeResult::Found(address))),
            ).0;
            let action = LeaveAction::Stm32Dfu { application_start: address };
            &&& run.skip_prompt ==> found == LeaveStage::Leave(action)
            &&& !run.skip_prompt ==> found == LeaveStage::Confirm(action)
        }),
        probed is Err || !(probed->Ok_0 is Found) ==> leave_step(run, LeaveEvent::Probed(probed)).0
            == LeaveStage::Finished(false),
{
}

/// What was agreed to is what is done. A bootloader that was left is watched, and counts as left
/// exactly if it is gone.
pub proof fn law_agreed_bootloader_is_left(
    run: LeaveRun,
    action: LeaveAction,
    answer: String,
    error: String,
    gone: bool,
)
    ensures
        run.stage == LeaveStage::Confirm(action) && ui::means_yes(answer@) ==> leave_step(
            run,
            LeaveEvent::Answer(Some(answer)),
        ).0 == LeaveStage::Leave(action),
        run.stage == LeaveStage::Leave(action) ==> leave_step(run, LeaveEvent::Left(Ok(()))).0
            is Watch && leave_step(run, LeaveEvent::Left(Err(error))).0 == LeaveStage::Finished(
            false,
        ),
        run.stage is Watch ==> leave_step(run, LeaveEvent::Watched(gone)).0
            == LeaveStage::Finished(gone),
        run.stage is Finished ==> leave_step(run, LeaveEvent::Watched(gone)) == (
            run.stage,
            Seq::<UiText>::empty(),
        ),
{
}

} // verus!
