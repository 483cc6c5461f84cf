//! The command that flashes a firmware file to one MCU.
use vstd::prelude::*;

use crate::coordinator;
use crate::coordinator::{
    prepare_target,
    CoordinatorError,
    CoordinatorFailure,
    FlashCoordinatorError,
    PendingBuild,
    UpdateFailure,
};
use crate::discovery;
use crate::discovery::resolve_target_name;
use crate::failure::IoFailure;
use crate::flash::system::SystemFlashError;
use crate::flash::FlashResult;
use crate::moonraker::{McuInventory, MoonrakerError};
use crate::prepare::PreparedBuild;
use crate::status;
use crate::status::with_context;
use crate::text;
use crate::ui;
use crate::ui::{say, UiOutput, UiText};
use crate::update;
use crate::update::{coordinator_chain, describe_aftermath};
use crate::workspace;
use crate::workspace::{DirectoryFailure, RunWorkspace, TargetDirectories};

verus! {

/// What is asked before a firmware file is flashed.
pub open spec fn confirmation_text(
    target: Seq<char>,
    firmware: Seq<char>,
    byte_count: nat,
) -> Seq<char> {
    "Flash "@ + firmware + " ("@ + text::decimal(byte_count) + " bytes) to "@ + target
        + "? This skips Klipper's Kconfig validation."@
}

/// What is asked before a firmware file is flashed.
pub fn confirmation_prompt(target: &str, firmware: &str, byte_count: usize) -> (question: String)
    ensures
        question@ == confirmation_text(target@, firmware@, byte_count as nat),
{
    let mut question: String = "Flash ".to_owned();
    question.append(firmware);
    question.append(" (");
    question.append(text::decimal_text(byte_count as u64).as_str());
    question.append(" bytes) to ");
    question.append(target);
    question.append("? This skips Klipper's Kconfig validation.");
    question
}

/// The wording of a failed flash.
pub open spec fn failure_text(
    failure: UpdateFailure<SystemFlashError>,
    restore: Option<Result<(), CoordinatorFailure>>,
) -> Seq<char> {
    "flash failed: "@ + (match failure {
        UpdateFailure::Coordinator(failure) => text::joined(failure.chain(), ": "@),
        UpdateFailure::Artifact(failure) => "could not read the firmware file: "@
            + failure.message@,
        UpdateFailure::Flash(error) => error.text(),
    }) + update::aftermath(restore, "flash attempt"@)
}

/// The wording of a failed flash, with what became of Klipper.
pub fn flash_failure(
    error: FlashCoordinatorError<SystemFlashError>,
    restore: Option<Result<(), CoordinatorError>>,
) -> (message: String)
    ensures
        message@ == failure_text(error@, update::restored(restore)),
{
    let mut message: String = "flash failed: ".to_owned();
    match &error {
        FlashCoordinatorError::Coordinator(error) => {
            message.append(coordinator_chain(error).as_str());
        },
        FlashCoordinatorError::Artifact(failure) => {
            let mut detail: String = "could not read the firmware file: ".to_owned();
            detail.append(failure.message.as_str());
            message.append(detail.as_str());
        },
        FlashCoordinatorError::Flash(error) => {
            message.append(error.message().as_str());
        },
    }
    message.append(describe_aftermath(&restore, "flash attempt").as_str());
    message
}

/// What a flash was asked to do.
#[derive(Clone, Debug, PartialEq, Eq)]
pub struct FlashRequest {
    /// The firmware file.
    pub firmware: String,
    /// The MCU that is named.
    pub target: String,
    /// Whether nothing is asked, and a mismatch of flash addresses is overridden.
    pub force: bool,
}

/// How far a flash has come; each stage asks for one operation.
#[derive(PartialEq, Eq)]
pub enum FlashCommandStage {
    /// The firmware file is to be read.
    ReadFirmware,
    /// The MCUs are to be discovered.
    Discover {
        /// The firmware.
        firmware: Vec<u8>,
    },
    /// A run workspace is to be created.
    CreateWorkspace {
        /// The firmware.
        firmware: Vec<u8>,
        /// The discovered MCUs.
        inventory: McuInventory,
    },
    /// The directories of the target are to be created.
    CreateDirectories {
        /// The firmware.
        firmware: Vec<u8>,
        /// The discovered MCUs.
        inventory: McuInventory,
        /// The run workspace.
        workspace: RunWorkspace,
    },
    /// The operator is to confirm.
    Confirm {
        /// The firmware.
        firmware: Vec<u8>,
        /// The prepared target.
        pending: PendingBuild,
    },
    /// The firmware is to be flashed.
    Flash {
        /// The firmware.
        firmware: Vec<u8>,
        /// The prepared target.
        pending: PendingBuild,
    },
    /// Klipper is to be restored after a failure.
    Restore(FlashCoordinatorError<SystemFlashError>),
    /// Klipper is to be started.
    Start {
        /// The target's Kconfig.
        kconfig: String,
    },
    /// Nothing is left to do.
    Finished(Result<(), String>),
}

/// One flash under way.
#[derive(PartialEq, Eq)]
pub struct FlashCommand {
    /// What was asked for.
    pub request: FlashRequest,
    /// How far the flash has come.
    pub stage: FlashCommandStage,
}

/// The outcome of a flash's pending operation.
#[derive(PartialEq, Eq)]
pub enum FlashCommandEvent {
    /// The firmware.
    Firmware(Result<Vec<u8>, IoFailure>),
    /// The discovered MCUs.
    Discovered(Result<McuInventory, MoonrakerError>),
    /// The root of the run workspace.
    Workspace(Result<String, IoFailure>),
    /// The directories were created, or one of them could not be.
    Directories(Result<(), DirectoryFailure>),
    /// The operator's answer; none where it could not be read.
    Answer(Option<String>),
    /// The flash ended.
    Flashed(Result<FlashResult, FlashCoordinatorError<SystemFlashError>>),
    /// Klipper was restored, or could not be.
    Restored(Result<(), CoordinatorError>),
    /// Klipper was started, or could not be.
    Started(Result<(), CoordinatorError>),
}

/// The stage of a flash by its characters.
pub enum FlashCommandPhase {
    ReadFirmware,
    Discover { firmware: Vec<u8> },
    CreateWorkspace { firmware: Vec<u8>, inventory: McuInventory },
    CreateDirectories { firmware: Vec<u8>, inventory: McuInventory, root: Seq<char> },
    Confirm { firmware: Vec<u8>, pending: PreparedBuild },
    Flash { firmware: Vec<u8>, pending: PreparedBuild },
    Restore(UpdateFailure<SystemFlashError>),
    Start { kconfig: Seq<char> },
    Finished(Result<(), Seq<char>>),
}

impl View for FlashCommandStage {
    type V = FlashCommandPhase;

    open spec fn view(&self) -> FlashCommandPhase {
        match *self {
            FlashCommandStage::ReadFirmware => FlashCommandPhase::ReadFirmware,
            FlashCommandStage::Discover { firmware } => FlashCommandPhase::Discover { firmware },
            FlashCommandStage::CreateWorkspace { firmware, inventory } =>
            FlashCommandPhase::CreateWorkspace { firmware, inventory },
            FlashCommandStage::CreateDirectories { firmware, inventory, workspace } =>
            FlashCommandPhase::CreateDirectories { firmware, inventory, root: workspace.path() },
            FlashCommandStage::Confirm { firmware, pending } => FlashCommandPhase::Confirm {
                firmware,
                pending: pending.build(),
            },
            FlashCommandStage::Flash { firmware, pending } => FlashCommandPhase::Flash {
                firmware,
                pending: pending.build(),
            },
            FlashCommandStage::Restore(error) => FlashCommandPhase::Restore(error@),
            FlashCommandStage::Start { kconfig } => FlashCommandPhase::Start { kconfig: kconfig@ },
            FlashCommandStage::Finished(Ok(_)) => FlashCommandPhase::Finished(Ok(())),
            FlashCommandStage::Finished(Err(message)) => FlashCommandPhase::Finished(Err(message@)),
        }
    }
}

/// Begins a flash.
pub fn run_flash(request: FlashRequest) -> (command: FlashCommand)
    ensures
        command == (FlashCommand { request, stage: FlashCommandStage::ReadFirmware }),
{
    FlashCommand { request, stage: FlashCommandStage::ReadFirmware }
}

/// What a flash ends with where `target` could not be prepared.
pub open spec fn unprepared(target: Seq<char>, failure: CoordinatorFailure) -> FlashCommandPhase {
    FlashCommandPhase::Finished(
        Err(status::in_context("failed to prepare "@ + target + " for flashing"@, failure.chain())),
    )
}

/// Where a flash goes on once its workspace is there: the target's directories are created first.
pub open spec fn reserves_flash(
    request: FlashRequest,
    firmware: Vec<u8>,
    inventory: McuInventory,
    root: Seq<char>,
) -> FlashCommandPhase {
    let target = discovery::resolved_name(inventory, request.target@);
    match workspace::reservation_failure(target, Ok(())) {
        Some(error) => unprepared(target, CoordinatorFailure::Workspace(error)),
        None => FlashCommandPhase::CreateDirectories { firmware, inventory, root },
    }
}

/// Whether a flash goes on to `next`, where `created` is what came of creating the target's
/// directories: the target is prepared, and the operator asked unless the flash is forced.
pub open spec fn prepares_flash(
    request: FlashRequest,
    firmware: Vec<u8>,
    inventory: McuInventory,
    root: Seq<char>,
    created: Result<(), DirectoryFailure>,
    next: FlashCommandPhase,
    outputs: Seq<UiText>,
) -> bool {
    let target = discovery::resolved_name(inventory, request.target@);
    match coordinator::preparation_failure(inventory.mcus@, target, created) {
        Some(failure) => next == unprepared(target, failure) && outputs == Seq::<UiText>::empty(),
        None => {
            let pending = if request.force {
                next->Flash_pending
            } else {
                next->Confirm_pending
            };
            &&& coordinator::prepares(inventory.mcus@, root, target, false, pending)
            &&& if request.force {
                &&& next == (FlashCommandPhase::Flash { firmware, pending })
                &&& outputs == Seq::<UiText>::empty()
            } else {
                &&& next == (FlashCommandPhase::Confirm { firmware, pending })
                &&& outputs == seq![
                    UiText::Prompt(
                        confirmation_text(target, request.firmware@, firmware@.len()),
                    ),
                ]
            }
        },
    }
}

/// Whether a flash goes from `phase` to `next` on `event`, and what it shows. An outcome that does
/// not answer the pending operation changes nothing.
pub open spec fn flash_command_step(
    request: FlashRequest,
    phase: FlashCommandPhase,
    event: FlashCommandEvent,
    next: FlashCommandPhase,
    outputs: Seq<UiText>,
) -> bool {
    let quiet = Seq::<UiText>::empty();
    match (phase, event) {
        (FlashCommandPhase::ReadFirmware, FlashCommandEvent::Firmware(Ok(firmware))) => next == (
        FlashCommandPhase::Discover { firmware }) && outputs == seq![
            UiText::Action("discovering MCUs from Moonraker"@),
        ],
        (FlashCommandPhase::ReadFirmware, FlashCommandEvent::Firmware(Err(failure))) => next
            == FlashCommandPhase::Finished(
            Err(
                status::in_context(
                    "could not read firmware file "@ + request.firmware@,
                    seq![failure.message@],
                ),
            ),
        ) && outputs == quiet,
        (
            FlashCommandPhase::Discover { firmware },
            FlashCommandEvent::Discovered(Ok(inventory)),
        ) => next == (FlashCommandPhase::CreateWorkspace { firmware, inventory }) && outputs
            == quiet,
        (FlashCommandPhase::Discover { .. }, FlashCommandEvent::Discovered(Err(error))) => next
            == FlashCommandPhase::Finished(
            Err(
                status::in_context("failed to discover MCUs from Moonraker"@, error.chain()),
            ),
        ) && outputs == quiet,
        (
            FlashCommandPhase::CreateWorkspace { firmware, inventory },
            FlashCommandEvent::Workspace(Ok(root)),
        ) => next == reserves_flash(request, firmware, inventory, root@) && outputs == quiet,
        (FlashCommandPhase::CreateWorkspace { .. }, FlashCommandEvent::Workspace(Err(failure))) =>
        next == FlashCommandPhase::Finished(
            Err(
                status::in_context("could not create the run workspace"@, seq![failure.message@]),
            ),
        ) && outputs == quiet,
        (
            FlashCommandPhase::CreateDirectories { firmware, inventory, root },
            FlashCommandEvent::Directories(created),
        ) => prepares_flash(request, firmware, inventory, root, created, next, outputs),
        (FlashCommandPhase::Confirm { firmware, pending }, FlashCommandEvent::Answer(answer)) =>
        if answer is Some && ui::means_yes(answer->Some_0@) {
            next == (FlashCommandPhase::Flash { firmware, pending }) && outputs == quiet
        } else {
            next == FlashCommandPhase::Finished(Ok(())) && outputs == seq![
                UiText::Block("\nflash cancelled\n"@),
            ]
        },
        (FlashCommandPhase::Flash { firmware, pending }, FlashCommandEvent::Flashed(Ok(result))) =>
        next == (FlashCommandPhase::Start { kconfig: pending.request.kconfig@ }) && outputs
            == seq![
            UiText::Success(
                ui::summary(pending.request.kconfig@, result.padded_bytes as nat),
            ),
            UiText::Begin("starting Klipper"@),
        ],
        (FlashCommandPhase::Flash { .. }, FlashCommandEvent::Flashed(Err(error))) => if error@
            .restorable() {
            next == FlashCommandPhase::Restore(error@) && outputs == seq![UiText::Failure]
        } else {
            &&& next == FlashCommandPhase::Finished(Err(failure_text(error@, None)))
            &&& outputs == seq![
                UiText::Failure,
                UiText::Action("error: "@ + failure_text(error@, None)),
            ]
        },
        (FlashCommandPhase::Restore(failure), FlashCommandEvent::Restored(result)) => {
            let message = failure_text(failure, update::restored(Some(result)));
            &&& next == FlashCommandPhase::Finished(Err(message))
            &&& outputs == seq![UiText::Action("error: "@ + message)]
        },
        (FlashCommandPhase::Start { .. }, FlashCommandEvent::Started(Ok(_))) => next
            == FlashCommandPhase::Finished(Ok(())) && outputs == seq![
            UiText::Success("Klipper ready"@),
            UiText::Action("run completed successfully"@),
        ],
        (FlashCommandPhase::Start { kconfig }, FlashCommandEvent::Started(Err(error))) => {
            let message = ui::verb(kconfig)
                + " successfully but Klipper failed to restart: "@ + text::joined(
                error@.chain(),
                ": "@,
            );
            &&& next == FlashCommandPhase::Finished(Err(message))
            &&& outputs == seq![UiText::Failure, UiText::Action("error: "@ + message)]
        },
        _ => next == phase && outputs == quiet,
    }
}

fn failed_io(context: &str, failure: &IoFailure) -> (stage: FlashCommandStage)
    ensures
        stage@ == FlashCommandPhase::Finished(
            Err(status::in_context(context@, seq![failure.message@])),
        ),
{
    let mut messages: Vec<String> = Vec::new();
    messages.push(failure.message.clone());
    assert(text::texts(messages@) =~= seq![failure.message@]);
    FlashCommandStage::Finished(Err(with_context(context, &messages)))
}

fn log_error(message: &str, outputs: &mut Vec<UiOutput>)
    ensures
        ui::shown(final(outputs)@) == ui::shown(old(outputs)@).push(
            UiText::Action("error: "@ + message@),
        ),
{
    let mut note: String = "error: ".to_owned();
    note.append(message);
    say(outputs, UiOutput::Action(note));
}

fn fail_preparation(target: &str, error: CoordinatorError) -> (stage: FlashCommandStage)
    ensures
        stage@ == unprepared(target@, error@),
{
    let mut messages: Vec<String> = Vec::new();
    assert(text::texts(messages@) =~= Seq::empty());
    error.append_chain(&mut messages);
    assert(text::texts(messages@) =~= error@.chain());
    let mut context: String = "failed to prepare ".to_owned();
    context.append(target);
    context.append(" for flashing");
    FlashCommandStage::Finished(Err(with_context(context.as_str(), &messages)))
}

fn reserve_flash(
    request: &FlashRequest,
    firmware: Vec<u8>,
    inventory: McuInventory,
    root: String,
) -> (stage: FlashCommandStage)
    ensures
        stage@ == reserves_flash(*request, firmware, inventory, root@),
{
    let target: String = resolve_target_name(&inventory, request.target.as_str());
    let workspace: RunWorkspace = RunWorkspace::adopt(root);
    match workspace.target_directories(target.as_str()) {
        Ok(_) => FlashCommandStage::CreateDirectories { firmware, inventory, workspace },
        Err(error) => fail_preparation(target.as_str(), CoordinatorError::Workspace(error)),
    }
}

fn prepare_flash(
    request: &FlashRequest,
    firmware: Vec<u8>,
    inventory: McuInventory,
    workspace: RunWorkspace,
    created: Result<(), DirectoryFailure>,
    outputs: &mut Vec<UiOutput>,
) -> (stage: FlashCommandStage)
    requires
        old(outputs)@.len() == 0,
    ensures
        prepares_flash(
            *request,
            firmware,
            inventory,
            workspace.path(),
            created,
            stage@,
            ui::shown(final(outputs)@),
        ),
{
    assert(ui::shown(outputs@) =~= Seq::empty());
    let target: String = resolve_target_name(&inventory, request.target.as_str());
    match prepare_target(&inventory, &workspace, target.as_str(), false, created) {
        Err(error) => fail_preparation(target.as_str(), error),
        Ok(pending) => if request.force {
            FlashCommandStage::Flash { firmware, pending }
        } else {
            let question: String = confirmation_prompt(
                target.as_str(),
                request.firmware.as_str(),
                firmware.len(),
            );
            say(outputs, UiOutput::Prompt(question));
            assert(ui::shown(outputs@) =~= seq![UiText::Prompt(question@)]);
            FlashCommandStage::Confirm { firmware, pending }
        },
    }
}

impl FlashCommand {
    /// The directories that are to be created; none where nothing waits for them.
    pub fn awaited_directories(&self) -> (directories: Option<TargetDirectories>)
        ensures
            match self.stage@ {
                FlashCommandPhase::CreateDirectories { inventory, root, .. } => {
                    let target = discovery::resolved_name(inventory, self.request.target@);
                    match directories {
                        Some(directories) => {
                            &&& target.len() > 0
                            &&& directories.config_dir@ == workspace::target_path(
                                root,
                                "targets"@,
                                target,
                            )
                            &&& directories.artifact_dir@ == workspace::target_path(
                                root,
                                "artifacts"@,
                                target,
                            )
                        },
                        None => target.len() == 0,
                    }
                },
                _ => directories is None,
            },
    {
        match &self.stage {
            FlashCommandStage::CreateDirectories { inventory, workspace, .. } => {
                let target: String = resolve_target_name(inventory, self.request.target.as_str());
                match workspace.target_directories(target.as_str()) {
                    Ok(directories) => Some(directories),
                    Err(_) => None,
                }
            },
            _ => None,
        }
    }

    /// Goes on with the outcome of the pending operation; gives what is shown.
    #[verifier::rlimit(30)]
    pub fn step(self, event: FlashCommandEvent) -> (stepped: (Self, Vec<UiOutput>))
        ensures
            stepped.0.request == self.request,
            flash_command_step(
                self.request,
                self.stage@,
                event,
                stepped.0.stage@,
                ui::shown(stepped.1@),
            ),
    {
        let mut outputs: Vec<UiOutput> = Vec::new();
        proof {
            assert(ui::shown(outputs@) =~= Seq::empty());
        }
        let FlashCommand { request, stage } = self;
        let next: FlashCommandStage = match (stage, event) {
            (FlashCommandStage::ReadFirmware, FlashCommandEvent::Firmware(Ok(firmware))) => {
                say(
                    &mut outputs,
                    UiOutput::Action("discovering MCUs from Moonraker".to_owned()),
                );
                assert(ui::shown(outputs@) =~= seq![
                    UiText::Action("discovering MCUs from Moonraker"@),
                ]);
                FlashCommandStage::Discover { firmware }
            },
            (FlashCommandStage::ReadFirmware, FlashCommandEvent::Firmware(Err(failure))) => {
                let mut context: String = "could not read firmware file ".to_owned();
                context.append(request.firmware.as_str());
                failed_io(context.as_str(), &failure)
            },
            (
                FlashCommandStage::Discover { firmware },
                FlashCommandEvent::Discovered(Ok(inventory)),
            ) => FlashCommandStage::CreateWorkspace { firmware, inventory },
            (FlashCommandStage::Discover { .. }, FlashCommandEvent::Discovered(Err(error))) => {
                FlashCommandStage::Finished(
                    Err(
                        with_context(
                            "failed to discover MCUs from Moonraker",
                            &error.messages(),
                        ),
                    ),
                )
            },
            (
                FlashCommandStage::CreateWorkspace { firmware, inventory },
                FlashCommandEvent::Workspace(Ok(root)),
            ) => reserve_flash(&request, firmware, inventory, root),
            (
                FlashCommandStage::CreateWorkspace { .. },
                FlashCommandEvent::Workspace(Err(failure)),
            ) => failed_io("could not create the run workspace", &failure),
            (
                FlashCommandStage::CreateDirectories { firmware, inventory, workspace },
                FlashCommandEvent::Directories(created),
            ) => prepare_flash(&request, firmware, inventory, workspace, created, &mut outputs),
            (
                FlashCommandStage::Confirm { firmware, pending },
                FlashCommandEvent::Answer(answer),
            ) => {
                if ui::confirmed(&answer) {
                    FlashCommandStage::Flash { firmware, pending }
                } else {
                    say(&mut outputs, UiOutput::Block("\nflash cancelled\n".to_owned()));
                    assert(ui::shown(outputs@) =~= seq![UiText::Block("\nflash cancelled\n"@)]);
                    FlashCommandStage::Finished(Ok(()))
                }
            },
            (FlashCommandStage::Flash { pending, .. }, FlashCommandEvent::Flashed(Ok(result))) => {
                let kconfig: String = pending.kconfig().to_owned();
                let summary: String = ui::transfer_summary(kconfig.as_str(), result.padded_bytes);
                say(&mut outputs, UiOutput::Success(summary));
                say(&mut outputs, UiOutput::Begin("starting Klipper".to_owned()));
                assert(ui::shown(outputs@) =~= seq![
                    UiText::Success(summary@),
                    UiText::Begin("starting Klipper"@),
                ]);
                FlashCommandStage::Start { kconfig }
            },
            (FlashCommandStage::Flash { .. }, FlashCommandEvent::Flashed(Err(error))) => {
                say(&mut outputs, UiOutput::Failure);
                assert(ui::shown(outputs@) =~= seq![UiText::Failure]);
                if error.allows_klipper_restore() {
                    FlashCommandStage::Restore(error)
                } else {
                    let message: String = flash_failure(error, None);
                    log_error(message.as_str(), &mut outputs);
                    assert(ui::shown(outputs@) =~= seq![
                        UiText::Failure,
                        UiText::Action("error: "@ + message@),
                    ]);
                    FlashCommandStage::Finished(Err(message))
                }
            },
            (FlashCommandStage::Restore(error), FlashCommandEvent::Restored(result)) => {
                let message: String = flash_failure(error, Some(result));
                log_error(message.as_str(), &mut outputs);
                assert(ui::shown(outputs@) =~= seq![UiText::Action("error: "@ + message@)]);
                FlashCommandStage::Finished(Err(message))
            },
            (FlashCommandStage::Start { .. }, FlashCommandEvent::Started(Ok(_))) => {
                say(&mut outputs, UiOutput::Success("Klipper ready".to_owned()));
                say(&mut outputs, UiOutput::Action("run completed successfully".to_owned()));
                assert(ui::shown(outputs@) =~= seq![
                    UiText::Success("Klipper ready"@),
                    UiText::Action("run completed successfully"@),
                ]);
                FlashCommandStage::Finished(Ok(()))
            },
            (FlashCommandStage::Start { kconfig }, FlashCommandEvent::Started(Err(error))) => {
                say(&mut outputs, UiOutput::Failure);
                let mut message: String = ui::transfer_verb(kconfig.as_str()).to_owned();
                message.append(" successfully but Klipper failed to restart: ");
                message.append(coordinator_chain(&error).as_str());
                log_error(message.as_str(), &mut outputs);
                assert(ui::shown(outputs@) =~= seq![
                    UiText::Failure,
                    UiText::Action("error: "@ + message@),
                ]);
                FlashCommandStage::Finished(Err(message))
            },
            (stage, _) => stage,
        };
        (FlashCommand { request, stage: next }, outputs)
    }
}

/// A firmware file is flashed only where the operator agreed or the flash was forced.
pub proof fn law_only_agreed_firmware_is_flashed(
    request: FlashRequest,
    phase: FlashCommandPhase,
    event: FlashCommandEvent,
    next: FlashCommandPhase,
    outputs: Seq<UiText>,
)
    requires
        flash_command_step(request, phase, event, next, outputs),
        next is Flash,
        !(phase is Flash),
    ensures
        request.force || (phase is Confirm && event is Answer && event->Answer_0 is Some
            && ui::means_yes(event->Answer_0->Some_0@)),
{
}

/// The operator is asked, and the firmware flashed, only once the target's directories are there.
pub proof fn law_directories_come_before_the_flash(
    request: FlashRequest,
    phase: FlashCommandPhase,
    event: FlashCommandEvent,
    next: FlashCommandPhase,
    outputs: Seq<UiText>,
)
    requires
        flash_command_step(request, phase, event, next, outputs),
        next is Confirm || next is Flash,
        !(phase is Confirm || phase is Flash),
    ensures
        phase is CreateDirectories,
        event is Directories,
        event->Directories_0 is Ok,
{
}

/// Klipper is restored only after a failure that left no MCU in its bootloader.
pub proof fn law_only_safe_failures_are_restored(
    request: FlashRequest,
    phase: FlashCommandPhase,
    event: FlashCommandEvent,
    next: FlashCommandPhase,
    outputs: Seq<UiText>,
)
    requires
        flash_command_step(request, phase, event, next, outputs),
        next is Restore,
        !(phase is Restore),
    ensures
        phase is Flash,
        next->Restore_0.restorable(),
{
}

/// What is flashed is the file that was read: it is carried unchanged from the read, through the
/// discovery, the workspace, the directories and the question, to the flash.
pub proof fn law_read_firmware_is_flashed(
    request: FlashRequest,
    phase: FlashCommandPhase,
    event: FlashCommandEvent,
    next: FlashCommandPhase,
    outputs: Seq<UiText>,
)
    requires
        flash_command_step(request, phase, event, next, outputs),
        !(next == phase),
    ensures
        next is Discover ==> phase is ReadFirmware && event is Firmware && event->Firmware_0
            == Ok::<Vec<u8>, IoFailure>(next->Discover_firmware),
        next is CreateWorkspace ==> phase is Discover && next->CreateWorkspace_firmware
            == phase->Discover_firmware && event is Discovered && event->Discovered_0 == Ok::<
            McuInventory,
            MoonrakerError,
        >(next->CreateWorkspace_inventory),
        next is CreateDirectories ==> phase is CreateWorkspace && next->CreateDirectories_firmware
            == phase->CreateWorkspace_firmware && next->CreateDirectories_inventory
            == phase->CreateWorkspace_inventory && event is Workspace && event->Workspace_0 is Ok
            && next->root == event->Workspace_0->Ok_0@,
        next is Confirm ==> phase is CreateDirectories && next->Confirm_firmware
            == phase->CreateDirectories_firmware,
        next is Flash && phase is CreateDirectories ==> next->Flash_firmware
            == phase->CreateDirectories_firmware,
        next is Flash && phase is Confirm ==> next->Flash_firmware == phase->Confirm_firmware
            && next->Flash_pending == phase->Confirm_pending,
        next is Flash ==> phase is Confirm || phase is CreateDirectories,
        next is Start ==> phase is Flash && event is Flashed && event->Flashed_0 is Ok
            && next->kconfig == phase->Flash_pending.request.kconfig@,
{
}

/// The file is prepared for the MCU that the named target resolves to.
pub proof fn law_named_target_is_prepared(
    request: FlashRequest,
    phase: FlashCommandPhase,
    created: Result<(), DirectoryFailure>,
    next: FlashCommandPhase,
    outputs: Seq<UiText>,
)
    requires
        phase is CreateDirectories,
        flash_command_step(request, phase, FlashCommandEvent::Directories(created), next, outputs),
    ensures
        ({
            let inventory = phase->CreateDirectories_inventory;
            let target = discovery::resolved_name(inventory, request.target@);
            let refused = coordinator::preparation_failure(inventory.mcus@, target, created);
            &&& next is Flash <==> refused is None && request.force
            &&& next is Confirm <==> refused is None && !request.force
            &&& next is Flash ==> next->Flash_pending.target_name@ == target
            &&& next is Confirm ==> next->Confirm_pending.target_name@ == target
            &&& refused is Some ==> next is Finished && next->Finished_0 is Err
        }),
{
}

/// A question that is not agreed to ends the command without a flash and without an error. A flash
/// that succeeded has Klipper started; one that failed ends with an error, after Klipper was
/// restored where that is safe.
pub proof fn law_command_ends_as_its_flash(
    request: FlashRequest,
    phase: FlashCommandPhase,
    event: FlashCommandEvent,
    next: FlashCommandPhase,
    outputs: Seq<UiText>,
)
    requires
        flash_command_step(request, phase, event, next, outputs),
    ensures
        phase is Confirm && event is Answer && (event->Answer_0 is None || !ui::means_yes(
            event->Answer_0->Some_0@,
        )) ==> next == FlashCommandPhase::Finished(Ok(())),
        phase is Confirm && event is Answer && event->Answer_0 is Some && ui::means_yes(
            event->Answer_0->Some_0@,
        ) ==> next is Flash,
        phase is Flash && event is Flashed && event->Flashed_0 is Ok ==> next is Start,
        phase is Flash && event is Flashed && event->Flashed_0 is Err ==> (next is Restore <==>
            event->Flashed_0->Err_0@.restorable()) && (next is Restore || (next is Finished
            && next->Finished_0 is Err)),
        phase is Restore && event is Restored ==> next is Finished && next->Finished_0 is Err,
        phase is Start && event is Started ==> next is Finished && (next->Finished_0 is Ok <==>
            event->Started_0 is Ok),
        !(phase is Finished) && next == FlashCommandPhase::Finished(Ok(())) ==> phase is Confirm
            || phase is Start,
        phase is Finished ==> next == phase,
{
}

/// A file that could not be read, a discovery that failed and a workspace that could not be
/// created end the command with an error.
pub proof fn law_failed_preparation_ends_the_command(
    request: FlashRequest,
    phase: FlashCommandPhase,
    event: FlashCommandEvent,
    next: FlashCommandPhase,
    outputs: Seq<UiText>,
)
    requires
        flash_command_step(request, phase, event, next, outputs),
        (phase is ReadFirmware && event is Firmware && event->Firmware_0 is Err) || (phase
            is Discover && event is Discovered && event->Discovered_0 is Err) || (phase
            is CreateWorkspace && event is Workspace && event->Workspace_0 is Err),
    ensures
        next is Finished,
        next->Finished_0 is Err,
        outputs.len() == 0,
{
}

} // verus!
