//! The explicit Klipper service boundary around a selected firmware build and flash.
use vstd::prelude::*;

use crate::builder;
use crate::builder::{
    BuildAnswer,
    BuildArtifact,
    BuildError,
    BuildFailure,
    BuildPhase,
    BuildRequest,
    BuildRun,
    BuildStage,
    BuildState,
    CommandCall,
    CommandError,
    CommandOutput,
    CommandPort,
    FileEvent,
    KlipperBuilder,
};
use crate::failure::IoFailure;
use crate::flash::system;
use crate::flash::system::{
    flash_prepared_system_with_progress,
    FlashEvent,
    FlashStage,
    SystemFlashError,
    SystemFlashOptions,
    SystemFlashRun,
};
use crate::flash::FlashResult;
use crate::moonraker::{Mcu, McuInventory};
use crate::paths;
use crate::prepare;
use crate::prepare::{prepare_build, PreparationError, PreparedBuild};
use crate::progress::{ProgressPort, UpdateProgress};
use crate::service;
use crate::service::{KlipperService, ServiceError, ServiceFailure, ServiceState, StateName};
use crate::text;
use crate::workspace;
use crate::workspace::{DirectoryFailure, RunWorkspace, WorkspaceError};

verus! {

/// A prepared build that is not yet authorized to stop Klipper or run Make.
#[derive(Clone, Debug, PartialEq, Eq)]
pub struct PendingBuild {
    prepared: PreparedBuild,
}

impl PendingBuild {
    /// The prepared build.
    pub closed spec fn build(&self) -> PreparedBuild {
        self.prepared
    }

    /// Holds a prepared build until an operator approves it.
    pub fn new(prepared: PreparedBuild) -> (pending: Self)
        ensures
            pending.build() == prepared,
    {
        PendingBuild { prepared }
    }

    /// Returns the selected MCU name for an operator-facing confirmation prompt.
    pub fn target_name(&self) -> (name: &str)
        ensures
            name@ == self.build().target_name@,
    {
        self.prepared.target_name.as_str()
    }

    /// Returns the artifact path that would be produced by the build.
    pub fn artifact_path(&self) -> (path: &str)
        ensures
            path@ == self.build().request.artifact_path@,
    {
        self.prepared.request.artifact_path.as_str()
    }

    /// Returns the Kconfig the selected MCU reported.
    pub fn kconfig(&self) -> (kconfig: &str)
        ensures
            kconfig@ == self.build().request.kconfig@,
    {
        self.prepared.request.kconfig.as_str()
    }

    /// Marks this exact target as approved after an operator has confirmed the side effects.
    pub fn approve(self) -> (approved: ApprovedBuild)
        ensures
            approved.build() == self.build(),
    {
        ApprovedBuild { pending: self }
    }
}

/// A target-bound approval permitting the coordinator to stop Klipper and build firmware.
#[derive(Clone, Debug, PartialEq, Eq)]
pub struct ApprovedBuild {
    pending: PendingBuild,
}

impl ApprovedBuild {
    /// The prepared build that was approved.
    pub closed spec fn build(&self) -> PreparedBuild {
        self.pending.build()
    }
}

/// Errors while preparing or executing a selected MCU build.
#[derive(PartialEq, Eq)]
pub enum CoordinatorError {
    /// The isolated workspace could not reserve target paths.
    Workspace(WorkspaceError),
    /// The selected target could not be matched to Moonraker inventory.
    Preparation(PreparationError),
    /// Klipper's service state could not be queried or changed.
    Service(ServiceError),
    /// Klipper is not in a state that permits a controlled build transition.
    UnexpectedKlipperState(ServiceState),
    /// Klipper's build pipeline failed.
    Build(BuildError),
}

/// A coordinator error by its characters.
pub enum CoordinatorFailure {
    Workspace(WorkspaceError),
    UnknownTarget(Seq<char>),
    Service(ServiceFailure),
    UnexpectedKlipperState(StateName),
    Build(BuildFailure),
}

impl View for CoordinatorError {
    type V = CoordinatorFailure;

    open spec fn view(&self) -> CoordinatorFailure {
        match *self {
            CoordinatorError::Workspace(error) => CoordinatorFailure::Workspace(error),
            CoordinatorError::Preparation(PreparationError::TargetNotDiscovered(name)) =>
            CoordinatorFailure::UnknownTarget(name@),
            CoordinatorError::Service(error) => CoordinatorFailure::Service(error@),
            CoordinatorError::UnexpectedKlipperState(state) =>
            CoordinatorFailure::UnexpectedKlipperState(state@),
            CoordinatorError::Build(error) => CoordinatorFailure::Build(error@),
        }
    }
}

impl CoordinatorFailure {
    /// The wording of this error.
    pub open spec fn text(self) -> Seq<char> {
        match self {
            CoordinatorFailure::Workspace(_) => "workspace preparation failed"@,
            CoordinatorFailure::UnknownTarget(_) => "build preparation failed"@,
            CoordinatorFailure::Service(_) => "Klipper service operation failed"@,
            CoordinatorFailure::UnexpectedKlipperState(state) =>
            "Klipper must be active or inactive, found "@ + state.text(),
            CoordinatorFailure::Build(_) => "Klipper build failed"@,
        }
    }

    /// The wording of this error and of each of its causes.
    pub open spec fn chain(self) -> Seq<Seq<char>> {
        seq![self.text()] + match self {
            CoordinatorFailure::Workspace(error) => error.chain(),
            CoordinatorFailure::UnknownTarget(name) => seq![
                "MCU target "@ + text::quoted(name) + " is not present in Moonraker inventory"@,
            ],
            CoordinatorFailure::Service(failure) => failure.chain(),
            CoordinatorFailure::UnexpectedKlipperState(_) => Seq::empty(),
            CoordinatorFailure::Build(failure) => failure.chain(),
        }
    }
}

impl CoordinatorError {
    /// The wording of this error.
    pub fn message(&self) -> (message: String)
        ensures
            message@ == self@.text(),
    {
        match self {
            CoordinatorError::Workspace(_) => "workspace preparation failed".to_owned(),
            CoordinatorError::Preparation(PreparationError::TargetNotDiscovered(_)) =>
            "build preparation failed".to_owned(),
            CoordinatorError::Service(_) => "Klipper service operation failed".to_owned(),
            CoordinatorError::UnexpectedKlipperState(state) => {
                let mut message: String = "Klipper must be active or inactive, found ".to_owned();
                message.append(state.describe().as_str());
                message
            },
            CoordinatorError::Build(_) => "Klipper build failed".to_owned(),
        }
    }

    /// Appends the wording of this error and of each of its causes.
    pub fn append_chain(&self, messages: &mut Vec<String>)
        ensures
            text::texts(final(messages)@) == text::texts(old(messages)@) + self@.chain(),
    {
        let ghost before = text::texts(messages@);
        messages.push(self.message());
        assert(text::texts(messages@) =~= before.push(self@.text()));
        match self {
            CoordinatorError::Workspace(error) => {
                error.append_chain(messages);
            },
            CoordinatorError::Preparation(error) => {
                messages.push(error.message());
                assert(text::texts(messages@) =~= before.push(self@.text()).push(error.text()));
            },
            CoordinatorError::Service(error) => {
                error.append_chain(messages);
            },
            CoordinatorError::UnexpectedKlipperState(_) => {},
            CoordinatorError::Build(error) => {
                error.append_chain(messages);
            },
        }
        assert(text::texts(messages@) =~= before + self@.chain());
    }
}

/// Failure while executing an approved build and its caller-supplied flash operation.
#[derive(PartialEq, Eq)]
pub enum FlashCoordinatorError<E> {
    /// The service transition or Klipper build failed.
    Coordinator(CoordinatorError),
    /// The completed artifact could not be read for flashing.
    Artifact(IoFailure),
    /// The selected native backend failed.
    Flash(E),
}

/// A failed update by its characters.
pub enum UpdateFailure<E> {
    Coordinator(CoordinatorFailure),
    Artifact(IoFailure),
    Flash(E),
}

impl<E> View for FlashCoordinatorError<E> {
    type V = UpdateFailure<E>;

    open spec fn view(&self) -> UpdateFailure<E> {
        match *self {
            FlashCoordinatorError::Coordinator(error) => UpdateFailure::Coordinator(error@),
            FlashCoordinatorError::Artifact(failure) => UpdateFailure::Artifact(failure),
            FlashCoordinatorError::Flash(error) => UpdateFailure::Flash(error),
        }
    }
}

impl UpdateFailure<SystemFlashError> {
    /// Whether Klipper can safely be restarted after this failure.
    pub open spec fn restorable(self) -> bool {
        self is Flash ==> self->Flash_0 is LinuxHost
    }

    /// The wording of this error.
    pub open spec fn text(self) -> Seq<char> {
        match self {
            UpdateFailure::Coordinator(failure) => failure.text(),
            UpdateFailure::Artifact(_) => "could not read the built firmware"@,
            UpdateFailure::Flash(error) => error.text(),
        }
    }

    /// The wording of this error and of each of its causes.
    pub open spec fn chain(self) -> Seq<Seq<char>> {
        match self {
            UpdateFailure::Coordinator(failure) => failure.chain(),
            UpdateFailure::Artifact(failure) => seq![self.text(), failure.message@],
            UpdateFailure::Flash(_) => seq![self.text()],
        }
    }
}

impl FlashCoordinatorError<SystemFlashError> {
    /// Whether Klipper can safely be restarted after this failure. A USB MCU may
    /// be left in its bootloader, but the host MCU never is.
    pub fn allows_klipper_restore(&self) -> (allowed: bool)
        ensures
            allowed == self@.restorable(),
    {
        match self {
            FlashCoordinatorError::Flash(error) => matches!(error, SystemFlashError::LinuxHost(_)),
            FlashCoordinatorError::Coordinator(_) => true,
            FlashCoordinatorError::Artifact(_) => true,
        }
    }

    /// The wording of this error.
    pub fn message(&self) -> (message: String)
        ensures
            message@ == self@.text(),
    {
        match self {
            FlashCoordinatorError::Coordinator(error) => error.message(),
            FlashCoordinatorError::Artifact(_) => "could not read the built firmware".to_owned(),
            FlashCoordinatorError::Flash(error) => error.message(),
        }
    }

    /// Appends the wording of this error and of each of its causes.
    pub fn append_chain(&self, messages: &mut Vec<String>)
        ensures
            text::texts(final(messages)@) == text::texts(old(messages)@) + self@.chain(),
    {
        let ghost before = text::texts(messages@);
        match self {
            FlashCoordinatorError::Coordinator(error) => {
                error.append_chain(messages);
            },
            FlashCoordinatorError::Artifact(failure) => {
                messages.push(self.message());
                messages.push(failure.message.clone());
                assert(text::texts(messages@) =~= before + self@.chain());
            },
            FlashCoordinatorError::Flash(_) => {
                messages.push(self.message());
                assert(text::texts(messages@) =~= before + self@.chain());
            },
        }
    }
}

/// The completed build and native flash result for one approved MCU.
#[derive(Clone, Debug, PartialEq, Eq)]
pub struct CompletedUpdate {
    /// The immutable firmware artifact built by Klipper.
    pub artifact: BuildArtifact,
    /// Protocol-reported transfer details.
    pub flash: FlashResult,
}

/// What a service transition came to: its outcome, the point after its last command, whether its
/// commands were the ones that it asks for, what is then known of Klipper's first observed state,
/// and the phases that it reported.
pub struct StopStep {
    pub outcome: Result<(), CoordinatorFailure>,
    pub next: int,
    pub faithful: bool,
    pub first_active: Option<bool>,
    pub reported: Seq<UpdateProgress>,
}

/// Whether a query of Klipper's state says that it is inactive; any other answer is an error.
pub open spec fn confirmed(call: CommandCall, wanted: StateName) -> Result<(), CoordinatorFailure> {
    match service::state_result(call.result) {
        Err(failure) => Err(CoordinatorFailure::Service(failure)),
        Ok(state) => if state == wanted {
            Ok(())
        } else {
            Err(CoordinatorFailure::UnexpectedKlipperState(state))
        },
    }
}

/// Whether the command at position `at` was the given systemctl action.
pub open spec fn sent(tape: Seq<CommandCall>, at: int, action: Seq<char>) -> bool {
    tape[at].command == service::systemctl(action)
}

/// Stopping Klipper: its state is queried, an active Klipper is stopped, and the state is queried
/// again until it is known to be inactive. The first state ever observed is kept.
pub open spec fn stop_run(tape: Seq<CommandCall>, at: int, first_active: Option<bool>) -> StopStep {
    match service::state_result(tape[at].result) {
        Err(failure) => StopStep {
            outcome: Err(CoordinatorFailure::Service(failure)),
            next: at + 1,
            faithful: sent(tape, at, "is-active"@),
            first_active,
            reported: Seq::empty(),
        },
        Ok(state) => {
            let first_active = match first_active {
                Some(active) => Some(active),
                None => Some(state == StateName::Active),
            };
            if state == StateName::Active {
                match service::change_result("stop"@, tape[at + 1].result) {
                    Err(failure) => StopStep {
                        outcome: Err(CoordinatorFailure::Service(failure)),
                        next: at + 2,
                        faithful: sent(tape, at, "is-active"@) && sent(tape, at + 1, "stop"@),
                        first_active,
                        reported: seq![UpdateProgress::StoppingKlipper],
                    },
                    Ok(_) => StopStep {
                        outcome: confirmed(tape[at + 2], StateName::Inactive),
                        next: at + 3,
                        faithful: sent(tape, at, "is-active"@) && sent(tape, at + 1, "stop"@)
                            && sent(tape, at + 2, "is-active"@),
                        first_active,
                        reported: seq![UpdateProgress::StoppingKlipper],
                    },
                }
            } else {
                StopStep {
                    outcome: confirmed(tape[at], StateName::Inactive),
                    next: at + 1,
                    faithful: sent(tape, at, "is-active"@),
                    first_active,
                    reported: Seq::empty(),
                }
            }
        },
    }
}

/// Starting Klipper: it is started, and its state queried until it is known to be active.
pub open spec fn start_run(tape: Seq<CommandCall>, at: int) -> (
    Result<(), CoordinatorFailure>,
    int,
    bool,
) {
    match service::change_result("start"@, tape[at].result) {
        Err(failure) => (
            Err(CoordinatorFailure::Service(failure)),
            at + 1,
            sent(tape, at, "start"@),
        ),
        Ok(_) => (
            confirmed(tape[at + 1], StateName::Active),
            at + 2,
            sent(tape, at, "start"@) && sent(tape, at + 1, "is-active"@),
        ),
    }
}

/// A result with its error by its characters.
pub open spec fn outcome_of<T>(result: Result<T, CoordinatorError>) -> Result<
    T,
    CoordinatorFailure,
> {
    match result {
        Ok(value) => Ok(value),
        Err(error) => Err(error@),
    }
}

/// Why a target cannot be prepared: it has no name, one of its directories could not be created, or
/// Moonraker does not report it.
pub open spec fn preparation_failure(
    mcus: Seq<Mcu>,
    target_name: Seq<char>,
    created: Result<(), DirectoryFailure>,
) -> Option<CoordinatorFailure> {
    match workspace::reservation_failure(target_name, created) {
        Some(error) => Some(CoordinatorFailure::Workspace(error)),
        None => if prepare::mcu_from(mcus, target_name, 0) is None {
            Some(CoordinatorFailure::UnknownTarget(target_name))
        } else {
            None
        },
    }
}

/// Whether `prepared` is the build of a target: its MCU's Kconfig and transport, with paths of its
/// own below the workspace.
pub open spec fn prepares(
    mcus: Seq<Mcu>,
    root: Seq<char>,
    target_name: Seq<char>,
    clean: bool,
    prepared: PreparedBuild,
) -> bool {
    let mcu = mcus[prepare::mcu_from(mcus, target_name, 0)->Some_0];
    &&& prepared.target_name@ == target_name
    &&& prepared.mcu == mcu.mcu
    &&& prepared.transport == mcu.transport
    &&& prepared.request.kconfig == mcu.kconfig
    &&& prepared.request.config_path@ == paths::joined_path(
        workspace::target_path(root, "targets"@, target_name),
        ".config"@,
    )
    &&& prepared.request.artifact_path@ == paths::joined_path(
        workspace::target_path(root, "artifacts"@, target_name),
        "klipper.bin"@,
    )
    &&& prepared.request.clean == clean
}

/// Reserves workspace paths for a target and derives its build request, where `created` is what came
/// of creating the target's directories.
pub fn prepare_target(
    inventory: &McuInventory,
    workspace: &RunWorkspace,
    target_name: &str,
    clean: bool,
    created: Result<(), DirectoryFailure>,
) -> (pending: Result<PendingBuild, CoordinatorError>)
    ensures
        match pending {
            Err(error) => preparation_failure(inventory.mcus@, target_name@, created) == Some(
                error@,
            ),
            Ok(pending) => preparation_failure(inventory.mcus@, target_name@, created) is None
                && prepares(
                inventory.mcus@,
                workspace.path(),
                target_name@,
                clean,
                pending.build(),
            ),
        },
{
    let paths = match workspace.build_paths(target_name, created) {
        Ok(paths) => paths,
        Err(error) => {
            return Err(CoordinatorError::Workspace(error));
        },
    };
    match prepare_build(inventory, target_name, paths.config_path, paths.artifact_path, clean) {
        Ok(prepared) => Ok(PendingBuild { prepared }),
        Err(error) => Err(CoordinatorError::Preparation(error)),
    }
}

/// Coordinates the explicit Klipper service boundary and a selected firmware build.
pub struct BuildCoordinator<B, S> {
    builder: KlipperBuilder<B>,
    service: KlipperService<S>,
    first_observed_active: Option<bool>,
}

impl<B: CommandPort, S: CommandPort> BuildCoordinator<B, S> {
    /// The Klipper source tree.
    pub closed spec fn source(&self) -> Seq<char> {
        self.builder.source()
    }

    /// Every build command so far, in order.
    pub closed spec fn build_history(&self) -> Seq<CommandCall> {
        self.builder.history()
    }

    /// Every service command so far, in order.
    pub closed spec fn service_history(&self) -> Seq<CommandCall> {
        self.service.history()
    }

    /// Whether Klipper was active the first time its state was observed.
    pub closed spec fn first_active(&self) -> Option<bool> {
        self.first_observed_active
    }

    /// Creates a coordinator rooted at a checked-out Klipper source tree.
    pub fn new(klipper_source_dir: String, build_runner: B, service_runner: S) -> (coordinator: Self)
        ensures
            coordinator.source() == klipper_source_dir@,
            coordinator.build_history() == build_runner.history(),
            coordinator.service_history() == service_runner.history(),
            coordinator.first_active() is None,
    {
        BuildCoordinator {
            builder: KlipperBuilder::new(klipper_source_dir, build_runner),
            service: KlipperService::new(service_runner),
            first_observed_active: None,
        }
    }

    /// Reserves workspace paths and derives a build request without service or Make calls, where
    /// `created` is what came of creating the target's directories.
    pub fn prepare(
        &self,
        inventory: &McuInventory,
        workspace: &RunWorkspace,
        target_name: &str,
        clean: bool,
        created: Result<(), DirectoryFailure>,
    ) -> (pending: Result<PendingBuild, CoordinatorError>)
        ensures
            match pending {
                Err(error) => preparation_failure(inventory.mcus@, target_name@, created) == Some(
                    error@,
                ),
                Ok(pending) => preparation_failure(inventory.mcus@, target_name@, created) is None
                    && prepares(
                    inventory.mcus@,
                    workspace.path(),
                    target_name@,
                    clean,
                    pending.build(),
                ),
            },
    {
        prepare_target(inventory, workspace, target_name, clean, created)
    }

    fn ensure_klipper_stopped<P: ProgressPort>(&mut self, progress: &mut P) -> (result: Result<
        (),
        CoordinatorError,
    >)
        ensures
            final(self).builder == old(self).builder,
            old(self).service_history().is_prefix_of(final(self).service_history()),
            ({
                let step = stop_run(
                    final(self).service_history(),
                    old(self).service_history().len() as int,
                    old(self).first_active(),
                );
                &&& step.outcome == outcome_of(result)
                &&& step.next == final(self).service_history().len()
                &&& step.faithful
                &&& step.first_active == final(self).first_active()
                &&& final(progress).reported() == old(progress).reported() + step.reported
            }),
    {
        let ghost before = self.service_history();
        let ghost told = progress.reported();
        assert(told =~= told + Seq::<UpdateProgress>::empty());
        let state: ServiceState = match self.service.state() {
            Ok(state) => state,
            Err(error) => {
                return Err(CoordinatorError::Service(error));
            },
        };
        let ghost first = self.service_history();
        let active: bool = match state {
            ServiceState::Active => true,
            _ => false,
        };
        if self.first_observed_active.is_none() {
            self.first_observed_active = Some(active);
        }
        match state {
            ServiceState::Active => {
                progress.report(UpdateProgress::StoppingKlipper);
                assert(progress.reported() =~= told + seq![UpdateProgress::StoppingKlipper]);
                let stopped: Result<(), ServiceError> = self.service.stop();
                let ghost second = self.service_history();
                assert(second[before.len() as int] == first[before.len() as int]);
                if let Err(error) = stopped {
                    return Err(CoordinatorError::Service(error));
                }
                let confirmed: Result<ServiceState, ServiceError> = self.service.state();
                assert(self.service_history()[before.len() as int] == first[before.len() as int]);
                assert(self.service_history()[before.len() as int + 1] == second[before.len() as int + 1]);
                match confirmed {
                    Err(error) => Err(CoordinatorError::Service(error)),
                    Ok(ServiceState::Inactive) => Ok(()),
                    Ok(state) => Err(CoordinatorError::UnexpectedKlipperState(state)),
                }
            },
            ServiceState::Inactive => Ok(()),
            state => Err(CoordinatorError::UnexpectedKlipperState(state)),
        }
    }

    /// Starts Klipper once every selected MCU has completed its flash and application checks.
    pub fn start_after_batch(&mut self) -> (result: Result<(), CoordinatorError>)
        ensures
            final(self).source() == old(self).source(),
            final(self).build_history() == old(self).build_history(),
            final(self).first_active() == old(self).first_active(),
            old(self).service_history().is_prefix_of(final(self).service_history()),
            start_run(
                final(self).service_history(),
                old(self).service_history().len() as int,
            ) == (outcome_of(result), final(self).service_history().len() as int, true),
    {
        self.start_and_verify()
    }

    /// Restores Klipper after a failure that happened before any bootloader entry (the
    /// initial stop itself, or a Make/build failure) — never call this after a flash
    /// attempt, since the MCU's state at that point is no longer known to be safe to
    /// resume against.
    ///
    /// Starts Klipper only if it was active the first time this coordinator observed
    /// its state; otherwise this is a no-op, so an operator who had already stopped
    /// Klipper before running the batch is left with it stopped, not force-started.
    pub fn restore_after_failure(&mut self) -> (result: Result<(), CoordinatorError>)
        ensures
            final(self).source() == old(self).source(),
            final(self).build_history() == old(self).build_history(),
            final(self).first_active() == old(self).first_active(),
            restores(
                old(self).first_active(),
                old(self).service_history(),
                final(self).service_history(),
                outcome_of(result),
            ),
    {
        match self.first_observed_active {
            Some(true) => self.start_and_verify(),
            _ => Ok(()),
        }
    }

    fn start_and_verify(&mut self) -> (result: Result<(), CoordinatorError>)
        ensures
            final(self).builder == old(self).builder,
            final(self).first_observed_active == old(self).first_observed_active,
            old(self).service_history().is_prefix_of(final(self).service_history()),
            start_run(
                final(self).service_history(),
                old(self).service_history().len() as int,
            ) == (outcome_of(result), final(self).service_history().len() as int, true),
    {
        let ghost before = self.service_history();
        let started: Result<(), ServiceError> = self.service.start();
        let ghost first = self.service_history();
        if let Err(error) = started {
            return Err(CoordinatorError::Service(error));
        }
        let confirmed: Result<ServiceState, ServiceError> = self.service.state();
        assert(self.service_history()[before.len() as int] == first[before.len() as int]);
        match confirmed {
            Err(error) => Err(CoordinatorError::Service(error)),
            Ok(ServiceState::Active) => Ok(()),
            Ok(state) => Err(CoordinatorError::UnexpectedKlipperState(state)),
        }
    }
}

/// How far an approved build has come towards its flash.
#[derive(PartialEq, Eq)]
pub enum UpdateStage<E> {
    /// The firmware is being built.
    Building(BuildRun),
    /// The artifact is to be read.
    ReadArtifact(BuildArtifact),
    /// The firmware is to be flashed.
    Ready {
        /// The built artifact.
        artifact: BuildArtifact,
        /// Its content.
        firmware: Vec<u8>,
    },
    /// The update failed before its flash.
    Failed(FlashCoordinatorError<E>),
}

/// One approved build on its way to a flash.
#[derive(PartialEq, Eq)]
pub struct UpdateRun<E> {
    /// The approved build.
    pub prepared: PreparedBuild,
    /// How far it has come.
    pub stage: UpdateStage<E>,
}

/// The stage of an approved build by its characters.
#[verifier::ext_equal]
pub enum UpdatePhase<E> {
    Building(BuildState),
    ReadArtifact { path: Seq<char>, byte_count: u64, kconfig: Seq<char> },
    Ready { path: Seq<char>, byte_count: u64, kconfig: Seq<char>, firmware: Seq<u8> },
    Failed(UpdateFailure<E>),
}

/// An approved build on its way to a flash, by its characters.
#[verifier::ext_equal]
pub struct UpdateState<E> {
    pub prepared: PreparedBuild,
    pub phase: UpdatePhase<E>,
}

impl<E> View for UpdateRun<E> {
    type V = UpdateState<E>;

    open spec fn view(&self) -> UpdateState<E> {
        UpdateState {
            prepared: self.prepared,
            phase: match self.stage {
                UpdateStage::Building(run) => UpdatePhase::Building(run@),
                UpdateStage::ReadArtifact(artifact) => UpdatePhase::ReadArtifact {
                    path: artifact.path@,
                    byte_count: artifact.byte_count,
                    kconfig: artifact.kconfig@,
                },
                UpdateStage::Ready { artifact, firmware } => UpdatePhase::Ready {
                    path: artifact.path@,
                    byte_count: artifact.byte_count,
                    kconfig: artifact.kconfig@,
                    firmware: firmware@,
                },
                UpdateStage::Failed(error) => UpdatePhase::Failed(error@),
            },
        }
    }
}

/// The outcome of an update's pending operation.
#[derive(Debug, PartialEq, Eq)]
pub enum UpdateEvent {
    /// The outcome of the build's pending operation.
    File(FileEvent),
    /// The content of the artifact.
    Firmware(Vec<u8>),
    /// The artifact could not be read.
    ReadFailed(IoFailure),
}

/// Where a build leaves an update: a finished artifact is read next, a failed build ends it.
pub open spec fn settled<E>(state: BuildState) -> UpdatePhase<E> {
    match state.phase {
        BuildPhase::Built { path, byte_count, kconfig } => UpdatePhase::ReadArtifact {
            path,
            byte_count,
            kconfig,
        },
        BuildPhase::Failed(failure) => UpdatePhase::Failed(
            UpdateFailure::Coordinator(CoordinatorFailure::Build(failure)),
        ),
        _ => UpdatePhase::Building(state),
    }
}

/// Where an update begins, after Klipper was stopped or could not be.
pub open spec fn update_begins<E>(
    prepared: PreparedBuild,
    stopped: Result<(), CoordinatorFailure>,
    state: UpdateState<E>,
) -> bool {
    &&& state.prepared == prepared
    &&& match stopped {
        Err(failure) => state.phase == UpdatePhase::<E>::Failed(
            UpdateFailure::Coordinator(failure),
        ),
        Ok(_) => exists|build: BuildState|
            #[trigger] builder::begins(prepared.request, build) && state.phase == settled::<E>(
                build,
            ),
    }
}

/// One step of an update: its new state, the point after the last build command that it ran,
/// whether those commands were the ones that the build asks for, and the phases that it reported.
#[verifier::ext_equal]
pub struct UpdateStep<E> {
    pub state: UpdateState<E>,
    pub next: int,
    pub faithful: bool,
    pub reported: Seq<UpdateProgress>,
}

impl<E> UpdateState<E> {
    /// This update in another phase.
    pub open spec fn at(self, phase: UpdatePhase<E>) -> Self {
        UpdateState { phase, ..self }
    }

    /// How an update goes on after the pending operation's outcome. An outcome that does not
    /// answer it changes nothing.
    pub open spec fn after(
        self,
        source: Seq<char>,
        event: UpdateEvent,
        jobs: nat,
        tape: Seq<CommandCall>,
        at: int,
    ) -> UpdateStep<E> {
        let still = |state: UpdateState<E>| UpdateStep {
            state,
            next: at,
            faithful: true,
            reported: Seq::empty(),
        };
        match (self.phase, event) {
            (UpdatePhase::Building(build), UpdateEvent::File(event)) => {
                let step = build.after(source, event, jobs, tape, at);
                UpdateStep {
                    state: self.at(settled(step.state)),
                    next: step.next,
                    faithful: step.faithful,
                    reported: step.reported,
                }
            },
            (
                UpdatePhase::ReadArtifact { path, byte_count, kconfig },
                UpdateEvent::Firmware(firmware),
            ) => still(
                self.at(UpdatePhase::Ready { path, byte_count, kconfig, firmware: firmware@ }),
            ),
            (UpdatePhase::ReadArtifact { .. }, UpdateEvent::ReadFailed(failure)) => still(
                self.at(UpdatePhase::Failed(UpdateFailure::Artifact(failure))),
            ),
            _ => still(self),
        }
    }
}

fn settle<E>(run: BuildRun) -> (stage: UpdateStage<E>)
    ensures
        forall|prepared: PreparedBuild|
            (#[trigger] (UpdateRun { prepared, stage })@).phase == settled::<E>(run@),
{
    let ghost state = run@;
    let BuildRun { request, config_parent, artifact_parent, stage } = run;
    match stage {
        BuildStage::Finished(Ok(artifact)) => UpdateStage::ReadArtifact(artifact),
        BuildStage::Finished(Err(error)) => UpdateStage::Failed(
            FlashCoordinatorError::Coordinator(CoordinatorError::Build(error)),
        ),
        stage => {
            let run: BuildRun = BuildRun { request, config_parent, artifact_parent, stage };
            assert(run@ == state);
            UpdateStage::Building(run)
        },
    }
}

/// The build of an approved update, as it is flashed: its Kconfig is the one that the build
/// expanded.
pub open spec fn flashes(prepared: PreparedBuild, kconfig: Seq<char>, flashed: PreparedBuild) -> bool {
    &&& flashed.target_name == prepared.target_name
    &&& flashed.mcu == prepared.mcu
    &&& flashed.transport == prepared.transport
    &&& flashed.request.kconfig@ == kconfig
    &&& flashed.request.config_path == prepared.request.config_path
    &&& flashed.request.artifact_path == prepared.request.artifact_path
    &&& flashed.request.clean == prepared.request.clean
}

impl<E> UpdateRun<E> {
    /// The build as it is to be flashed, with the expanded Kconfig, once the artifact was read.
    pub fn flash_input(&self) -> (input: Option<(PreparedBuild, &Vec<u8>)>)
        ensures
            match input {
                Some((flashed, firmware)) => self@.phase is Ready && flashes(
                    self@.prepared,
                    self@.phase->Ready_kconfig,
                    flashed,
                ) && firmware@ == self@.phase->firmware,
                None => !(self@.phase is Ready),
            },
    {
        match &self.stage {
            UpdateStage::Ready { artifact, firmware } => {
                let mut flashed: PreparedBuild = self.prepared.clone();
                flashed.request.kconfig = artifact.kconfig.clone();
                Some((flashed, firmware))
            },
            _ => None,
        }
    }

    /// Concludes an update with the outcome of its flash; none while it is not there yet.
    pub fn complete(self, flashed: Result<FlashResult, E>) -> (completed: Option<
        Result<CompletedUpdate, FlashCoordinatorError<E>>,
    >)
        ensures
            completes(self@, flashed, completed),
    {
        match self.stage {
            UpdateStage::Ready { artifact, .. } => match flashed {
                Ok(flash) => Some(Ok(CompletedUpdate { artifact, flash })),
                Err(error) => Some(Err(FlashCoordinatorError::Flash(error))),
            },
            UpdateStage::Failed(error) => Some(Err(error)),
            _ => None,
        }
    }
}

/// How far a native update has come.
#[derive(PartialEq, Eq)]
pub enum SystemUpdateRun {
    /// The firmware is being built and read.
    Building {
        /// The build.
        update: UpdateRun<SystemFlashError>,
        /// The settings of the flash to come.
        options: SystemFlashOptions,
    },
    /// The firmware is being flashed.
    Flashing {
        /// The built artifact.
        artifact: BuildArtifact,
        /// The flash.
        flash: SystemFlashRun,
    },
    /// Nothing is left to do.
    Finished(Result<CompletedUpdate, FlashCoordinatorError<SystemFlashError>>),
}

/// The outcome of a native update's pending operation.
#[derive(Debug, PartialEq, Eq)]
pub enum SystemUpdateEvent {
    /// The outcome of the build's pending operation.
    Build(UpdateEvent),
    /// The outcome of the flash's pending operation.
    Flash(FlashEvent),
}

/// Where the build leaves a native update: once the firmware was read, its flash begins with the
/// expanded Kconfig.
pub open spec fn advances(
    state: UpdateState<SystemFlashError>,
    options: SystemFlashOptions,
    next: SystemUpdateRun,
    reported: Seq<UpdateProgress>,
) -> bool {
    match state.phase {
        UpdatePhase::Failed(failure) => {
            &&& next is Finished
            &&& next->Finished_0 is Err
            &&& next->Finished_0->Err_0@ == failure
            &&& reported == Seq::<UpdateProgress>::empty()
        },
        UpdatePhase::Ready { path, byte_count, kconfig, firmware } => match system::first_stage(
            kconfig,
            state.prepared.transport,
        ) {
            Err(error) => {
                &&& next is Finished
                &&& next->Finished_0 is Err
                &&& next->Finished_0->Err_0 == FlashCoordinatorError::Flash(error)
                &&& reported == Seq::<UpdateProgress>::empty()
            },
            Ok((stage, phase)) => {
                &&& next is Flashing
                &&& next->artifact.path@ == path
                &&& next->artifact.byte_count == byte_count
                &&& next->artifact.kconfig@ == kconfig
                &&& next->flash.stage == stage
                &&& next->flash.job.kconfig@ == kconfig
                &&& next->flash.job.firmware@ == firmware
                &&& next->flash.job.options == options
                &&& next->flash.job.file is None
                &&& reported == seq![phase]
            },
        },
        _ => {
            &&& next is Building
            &&& next->update@ == state
            &&& next->options == options
            &&& reported == Seq::<UpdateProgress>::empty()
        },
    }
}

fn advance<P: ProgressPort>(
    update: UpdateRun<SystemFlashError>,
    options: SystemFlashOptions,
    progress: &mut P,
) -> (next: SystemUpdateRun)
    ensures
        old(progress).reported().is_prefix_of(final(progress).reported()),
        advances(
            update@,
            options,
            next,
            system::newly_reported(old(progress).reported(), final(progress).reported()),
        ),
{
    let ghost state = update@;
    let ghost before = progress.reported();
    proof {
        assert(system::newly_reported(before, before) =~= Seq::empty());
    }
    let UpdateRun { prepared, stage } = update;
    match stage {
        UpdateStage::Failed(error) => SystemUpdateRun::Finished(Err(error)),
        UpdateStage::Ready { artifact, firmware } => {
            let mut flashed: PreparedBuild = prepared;
            flashed.request.kconfig = artifact.kconfig.clone();
            let begun: Result<SystemFlashRun, SystemFlashError> =
                flash_prepared_system_with_progress(&flashed, firmware, options, None, progress);
            match begun {
                Ok(flash) => {
                    proof {
                        assert(system::newly_reported(before, progress.reported()) =~= seq![
                            system::first_stage(
                                flashed.request.kconfig@,
                                flashed.transport,
                            )->Ok_0.1,
                        ]);
                    }
                    SystemUpdateRun::Flashing { artifact, flash }
                },
                Err(error) => SystemUpdateRun::Finished(Err(FlashCoordinatorError::Flash(error))),
            }
        },
        stage => {
            let update: UpdateRun<SystemFlashError> = UpdateRun { prepared, stage };
            assert(update@ == state);
            SystemUpdateRun::Building { update, options }
        },
    }
}

/// An approved build from the first question about Klipper to the last answer of the file system:
/// where it stands, the points after the last service and the last build command, whether those
/// commands were the ones that it asks for, and the phases that it reported.
#[verifier::ext_equal]
pub struct WholeBuild {
    pub outcome: Result<BuildPhase, CoordinatorFailure>,
    pub first_active: Option<bool>,
    pub service_next: int,
    pub build_next: int,
    pub faithful: bool,
    pub reported: Seq<UpdateProgress>,
}

/// How the build that begins at `begun` goes on over all of `answers`, once Klipper is stopped.
pub open spec fn whole_build(
    source: Seq<char>,
    begun: BuildState,
    answers: Seq<BuildAnswer>,
    first_active: Option<bool>,
    service: Seq<CommandCall>,
    service_at: int,
    build: Seq<CommandCall>,
    build_at: int,
) -> WholeBuild {
    let stop = stop_run(service, service_at, first_active);
    match stop.outcome {
        Err(failure) => WholeBuild {
            outcome: Err(failure),
            first_active: stop.first_active,
            service_next: stop.next,
            build_next: build_at,
            faithful: stop.faithful,
            reported: stop.reported,
        },
        Ok(_) => {
            let built = begun.after_all(source, answers, build, build_at);
            WholeBuild {
                outcome: Ok(built.state.phase),
                first_active: stop.first_active,
                service_next: stop.next,
                build_next: built.next,
                faithful: stop.faithful && built.faithful,
                reported: stop.reported + built.reported,
            }
        },
    }
}

/// A build that succeeds has reported exactly that Klipper is stopped, where it was active, then
/// that the firmware is configured and then that it is compiled. Where Klipper's first state cannot
/// be read, or is neither active nor inactive, nothing is reported and nothing built.
pub proof fn law_successful_build_reports_every_phase_once(
    request: BuildRequest,
    source: Seq<char>,
    begun: BuildState,
    answers: Seq<BuildAnswer>,
    first_active: Option<bool>,
    service: Seq<CommandCall>,
    service_at: int,
    build: Seq<CommandCall>,
    build_at: int,
)
    requires
        builder::begins(request, begun),
    ensures
        ({
            let run = whole_build(
                source,
                begun,
                answers,
                first_active,
                service,
                service_at,
                build,
                build_at,
            );
            let first = service::state_result(service[service_at].result);
            let built = seq![
                UpdateProgress::ConfiguringFirmware,
                UpdateProgress::CompilingFirmware,
            ];
            &&& run.outcome is Ok && run.outcome->Ok_0 is Built ==> {
                &&& first == Ok::<StateName, ServiceFailure>(StateName::Active) ==> run.reported
                    == seq![UpdateProgress::StoppingKlipper] + built
                &&& first != Ok::<StateName, ServiceFailure>(StateName::Active) ==> run.reported
                    == built
            }
            &&& first != Ok::<StateName, ServiceFailure>(StateName::Active) && first != Ok::<
                StateName,
                ServiceFailure,
            >(StateName::Inactive) ==> {
                &&& run.outcome is Err
                &&& run.reported == Seq::<UpdateProgress>::empty()
                &&& run.build_next == build_at
            }
        }),
{
    builder::law_build_reports_its_phases_once(begun, source, answers, build, build_at);
    let stop = stop_run(service, service_at, first_active);
    let built = begun.after_all(source, answers, build, build_at);
    if stop.reported.len() == 0 {
        assert(stop.reported + built.reported =~= built.reported);
    }
}

/// The same replies make the same build, whoever is told of its progress: the commands to systemd
/// and to Make, and what comes of them, depend on nothing but the request, the file system and what
/// the commands answer.
pub proof fn law_same_replies_make_the_same_approved_build(
    source: Seq<char>,
    begun: BuildState,
    answers: Seq<BuildAnswer>,
    first_active: Option<bool>,
    service_replies: Seq<Result<CommandOutput, CommandError>>,
    build_replies: Seq<Result<CommandOutput, CommandError>>,
    service: Seq<CommandCall>,
    service_at: int,
    build: Seq<CommandCall>,
    build_at: int,
    other_service: Seq<CommandCall>,
    other_service_at: int,
    other_build: Seq<CommandCall>,
    other_build_at: int,
)
    requires
        builder::answered(service, service_at, service_replies),
        builder::answered(other_service, other_service_at, service_replies),
        builder::answered(build, build_at, build_replies),
        builder::answered(other_build, other_build_at, build_replies),
        ({
            let run = whole_build(
                source,
                begun,
                answers,
                first_active,
                service,
                service_at,
                build,
                build_at,
            );
            &&& run.faithful
            &&& run.service_next == service.len()
            &&& run.build_next == build.len()
        }),
        ({
            let run = whole_build(
                source,
                begun,
                answers,
                first_active,
                other_service,
                other_service_at,
                other_build,
                other_build_at,
            );
            &&& run.faithful
            &&& run.service_next == other_service.len()
            &&& run.build_next == other_build.len()
        }),
    ensures
        ({
            let run = whole_build(
                source,
                begun,
                answers,
                first_active,
                service,
                service_at,
                build,
                build_at,
            );
            let other = whole_build(
                source,
                begun,
                answers,
                first_active,
                other_service,
                other_service_at,
                other_build,
                other_build_at,
            );
            &&& run.outcome == other.outcome
            &&& run.first_active == other.first_active
            &&& run.reported == other.reported
            &&& builder::same_commands(
                service,
                service_at,
                service.len() as int,
                other_service,
                other_service_at,
                other_service.len() as int,
            )
            &&& builder::same_commands(
                build,
                build_at,
                build.len() as int,
                other_build,
                other_build_at,
                other_build.len() as int,
            )
        }),
{
    lemma_same_replies_same_stop(
        first_active,
        service_replies,
        service,
        service_at,
        other_service,
        other_service_at,
    );
    if stop_run(service, service_at, first_active).outcome is Ok {
        builder::law_same_replies_make_the_same_build(
            begun,
            source,
            answers,
            build_replies,
            build,
            build_at,
            other_build,
            other_build_at,
        );
    }
}

proof fn lemma_same_replies_same_stop(
    first_active: Option<bool>,
    replies: Seq<Result<CommandOutput, CommandError>>,
    left: Seq<CommandCall>,
    left_at: int,
    right: Seq<CommandCall>,
    right_at: int,
)
    requires
        builder::answered(left, left_at, replies),
        builder::answered(right, right_at, replies),
        stop_run(left, left_at, first_active).faithful,
        stop_run(left, left_at, first_active).next == left.len(),
        stop_run(right, right_at, first_active).faithful,
        stop_run(right, right_at, first_active).next == right.len(),
    ensures
        ({
            let one = stop_run(left, left_at, first_active);
            let other = stop_run(right, right_at, first_active);
            &&& one.outcome == other.outcome
            &&& one.first_active == other.first_active
            &&& one.reported == other.reported
            &&& builder::same_commands(left, left_at, one.next, right, right_at, other.next)
        }),
{
    assert(left[left_at].result == right[right_at].result);
    if left.len() > left_at + 1 && right.len() > right_at + 1 {
        assert(left[left_at + 1].result == right[right_at + 1].result);
        if left.len() > left_at + 2 && right.len() > right_at + 2 {
            assert(left[left_at + 2].result == right[right_at + 2].result);
        }
    }
    assert(left.len() - left_at == right.len() - right_at);
    assert forall|i: int| left_at <= i < left.len() implies (#[trigger] left[i]).command == right[i
        - left_at + right_at].command by {
        assert(i == left_at || i == left_at + 1 || i == left_at + 2);
    }
}

/// What a step of a native flash makes of the update around it.
pub open spec fn flashed_update(artifact: BuildArtifact, flash: SystemFlashRun) -> SystemUpdateRun {
    match flash.stage {
        FlashStage::Finished(Ok(result)) => SystemUpdateRun::Finished(
            Ok(CompletedUpdate { artifact, flash: result }),
        ),
        FlashStage::Finished(Err(error)) => SystemUpdateRun::Finished(
            Err(FlashCoordinatorError::Flash(error)),
        ),
        _ => SystemUpdateRun::Flashing { artifact, flash },
    }
}

impl<B: CommandPort, S: CommandPort> BuildCoordinator<B, S> {
    /// Stops active Klipper, confirms it is inactive, and begins to build the approved target.
    ///
    /// This never starts Klipper after the build; restart remains an explicit later action.
    pub fn execute(&mut self, approved: ApprovedBuild) -> (run: Result<BuildRun, CoordinatorError>)
        ensures
            final(self).source() == old(self).source(),
            final(self).build_history() == old(self).build_history(),
            old(self).service_history().is_prefix_of(final(self).service_history()),
            ({
                let step = stop_run(
                    final(self).service_history(),
                    old(self).service_history().len() as int,
                    old(self).first_active(),
                );
                &&& step.next == final(self).service_history().len()
                &&& step.faithful
                &&& step.first_active == final(self).first_active()
                &&& match run {
                    Ok(run) => step.outcome is Ok && builder::begins(approved.build().request, run@),
                    Err(error) => step.outcome == Err::<(), CoordinatorFailure>(error@),
                }
            }),
    {
        let mut unseen: Vec<UpdateProgress> = Vec::new();
        self.execute_with_progress(approved, &mut unseen)
    }

    /// Stops Klipper if necessary and begins to build an approved target while reporting progress.
    pub fn execute_with_progress<P: ProgressPort>(
        &mut self,
        approved: ApprovedBuild,
        progress: &mut P,
    ) -> (run: Result<BuildRun, CoordinatorError>)
        ensures
            final(self).source() == old(self).source(),
            final(self).build_history() == old(self).build_history(),
            old(self).service_history().is_prefix_of(final(self).service_history()),
            ({
                let step = stop_run(
                    final(self).service_history(),
                    old(self).service_history().len() as int,
                    old(self).first_active(),
                );
                &&& step.next == final(self).service_history().len()
                &&& step.faithful
                &&& step.first_active == final(self).first_active()
                &&& final(progress).reported() == old(progress).reported() + step.reported
                &&& match run {
                    Ok(run) => step.outcome is Ok && builder::begins(approved.build().request, run@),
                    Err(error) => step.outcome == Err::<(), CoordinatorFailure>(error@),
                }
            }),
    {
        match self.ensure_klipper_stopped(progress) {
            Ok(_) => Ok(self.builder.build(approved.pending.prepared.request)),
            Err(error) => Err(error),
        }
    }

    /// Goes on with a build after `event` while reporting progress; `jobs` is the parallelism that
    /// `make` is given.
    pub fn continue_build<P: ProgressPort>(
        &mut self,
        run: BuildRun,
        event: FileEvent,
        jobs: usize,
        progress: &mut P,
    ) -> (next: BuildRun)
        ensures
            final(self).source() == old(self).source(),
            final(self).service_history() == old(self).service_history(),
            final(self).first_active() == old(self).first_active(),
            old(self).build_history().is_prefix_of(final(self).build_history()),
            ({
                let step = run@.after(
                    old(self).source(),
                    event,
                    jobs as nat,
                    final(self).build_history(),
                    old(self).build_history().len() as int,
                );
                &&& next@ == step.state
                &&& step.next == final(self).build_history().len()
                &&& step.faithful
                &&& final(progress).reported() == old(progress).reported() + step.reported
            }),
    {
        self.builder.build_with_progress(run, event, jobs, progress)
    }

    /// The file system operation that a build waits for; none once it has ended.
    pub fn build_action(&self, run: &BuildRun) -> (action: Option<builder::FileAction>)
        ensures
            match action {
                Some(action) => run@.operation(self.source()) == Some(action@),
                None => run@.operation(self.source()) is None,
            },
    {
        self.builder.action(run)
    }

    /// Stops Klipper if necessary, then begins to flash caller-supplied firmware bytes directly,
    /// skipping Klipper's build pipeline and its Kconfig validation entirely.
    ///
    /// For an STM32 DFU target, the flash offset is derived from the firmware
    /// file's own vector table and cross-checked against the device's
    /// currently flashed application; a mismatch is refused (and the device
    /// rebooted back into that application) unless `force` overrides it.
    ///
    /// This preserves the same service boundary as
    /// [`Self::execute_and_flash_system_with_progress`]: Klipper is stopped before the
    /// flash and is never restarted by this operation.
    pub fn flash_firmware_system_with_progress<P: ProgressPort>(
        &mut self,
        approved: ApprovedBuild,
        firmware: Vec<u8>,
        options: SystemFlashOptions,
        force: bool,
        progress: &mut P,
    ) -> (run: Result<SystemFlashRun, FlashCoordinatorError<SystemFlashError>>)
        ensures
            final(self).source() == old(self).source(),
            final(self).build_history() == old(self).build_history(),
            old(self).service_history().is_prefix_of(final(self).service_history()),
            ({
                let step = stop_run(
                    final(self).service_history(),
                    old(self).service_history().len() as int,
                    old(self).first_active(),
                );
                let told = old(progress).reported() + step.reported;
                &&& step.next == final(self).service_history().len()
                &&& step.faithful
                &&& step.first_active == final(self).first_active()
                &&& begins_firmware_flash(
                    approved.build(),
                    firmware,
                    options,
                    force,
                    step.outcome,
                    run,
                    told,
                    final(progress).reported(),
                )
            }),
    {
        if let Err(error) = self.ensure_klipper_stopped(progress) {
            return Err(FlashCoordinatorError::Coordinator(error));
        }
        match flash_prepared_system_with_progress(
            &approved.pending.prepared,
            firmware,
            options,
            Some(force),
            progress,
        ) {
            Ok(run) => Ok(run),
            Err(error) => Err(FlashCoordinatorError::Flash(error)),
        }
    }

    /// Goes on with a flash; a host MCU is installed through the service runner.
    pub fn continue_flash<P: ProgressPort>(
        &mut self,
        run: SystemFlashRun,
        event: FlashEvent,
        progress: &mut P,
    ) -> (next: SystemFlashRun)
        ensures
            final(self).source() == old(self).source(),
            final(self).build_history() == old(self).build_history(),
            final(self).first_active() == old(self).first_active(),
            old(progress).reported().is_prefix_of(final(progress).reported()),
            system::flash_step(
                run,
                event,
                next,
                system::newly_reported(old(progress).reported(), final(progress).reported()),
                old(self).service_history(),
                final(self).service_history(),
            ),
    {
        run.step(event, self.service.runner(), progress)
    }

    /// Begins to build an approved target for a flash by the caller, who flashes it only after
    /// Klipper is stopped.
    pub fn execute_and_flash<E>(&mut self, approved: ApprovedBuild) -> (run: UpdateRun<E>)
        ensures
            final(self).source() == old(self).source(),
            final(self).build_history() == old(self).build_history(),
            old(self).service_history().is_prefix_of(final(self).service_history()),
            ({
                let step = stop_run(
                    final(self).service_history(),
                    old(self).service_history().len() as int,
                    old(self).first_active(),
                );
                &&& step.next == final(self).service_history().len()
                &&& step.faithful
                &&& step.first_active == final(self).first_active()
                &&& update_begins(approved.build(), step.outcome, run@)
            }),
    {
        let mut unseen: Vec<UpdateProgress> = Vec::new();
        self.execute_and_flash_with_progress(approved, &mut unseen)
    }

    /// Begins to build an approved target for a flash by the caller while reporting each visible
    /// phase.
    pub fn execute_and_flash_with_progress<E, P: ProgressPort>(
        &mut self,
        approved: ApprovedBuild,
        progress: &mut P,
    ) -> (run: UpdateRun<E>)
        ensures
            final(self).source() == old(self).source(),
            final(self).build_history() == old(self).build_history(),
            old(self).service_history().is_prefix_of(final(self).service_history()),
            ({
                let step = stop_run(
                    final(self).service_history(),
                    old(self).service_history().len() as int,
                    old(self).first_active(),
                );
                &&& step.next == final(self).service_history().len()
                &&& step.faithful
                &&& step.first_active == final(self).first_active()
                &&& final(progress).reported() == old(progress).reported() + step.reported
                &&& update_begins(approved.build(), step.outcome, run@)
            }),
    {
        let prepared: PreparedBuild = approved.pending.prepared.clone();
        match self.execute_with_progress(approved, progress) {
            Ok(run) => {
                assert(builder::begins(prepared.request, run@));
                let stage: UpdateStage<E> = settle(run);
                let update: UpdateRun<E> = UpdateRun { prepared, stage };
                assert(update@.phase == settled::<E>(run@));
                update
            },
            Err(error) => UpdateRun {
                prepared,
                stage: UpdateStage::Failed(FlashCoordinatorError::Coordinator(error)),
            },
        }
    }

    /// Goes on with a build towards its flash, with `jobs` parallel jobs.
    pub fn continue_update<E, P: ProgressPort>(
        &mut self,
        run: UpdateRun<E>,
        event: UpdateEvent,
        jobs: usize,
        progress: &mut P,
    ) -> (next: UpdateRun<E>)
        ensures
            final(self).source() == old(self).source(),
            final(self).service_history() == old(self).service_history(),
            final(self).first_active() == old(self).first_active(),
            old(self).build_history().is_prefix_of(final(self).build_history()),
            ({
                let step = run@.after(
                    old(self).source(),
                    event,
                    jobs as nat,
                    final(self).build_history(),
                    old(self).build_history().len() as int,
                );
                &&& next@ == step.state
                &&& step.next == final(self).build_history().len()
                &&& step.faithful
                &&& final(progress).reported() == old(progress).reported() + step.reported
            }),
    {
        let ghost told = progress.reported();
        assert(told =~= told + Seq::<UpdateProgress>::empty());
        let UpdateRun { prepared, stage } = run;
        let stage: UpdateStage<E> = match (stage, event) {
            (UpdateStage::Building(build), UpdateEvent::File(event)) => {
                let built: BuildRun = self.builder.build_with_progress(
                    build,
                    event,
                    jobs,
                    progress,
                );
                let stage: UpdateStage<E> = settle(built);
                assert((UpdateRun { prepared, stage })@.phase == settled::<E>(built@));
                stage
            },
            (UpdateStage::ReadArtifact(artifact), UpdateEvent::Firmware(firmware)) => {
                UpdateStage::Ready { artifact, firmware }
            },
            (UpdateStage::ReadArtifact(_), UpdateEvent::ReadFailed(failure)) => {
                UpdateStage::Failed(FlashCoordinatorError::Artifact(failure))
            },
            (stage, _) => stage,
        };
        UpdateRun { prepared, stage }
    }

    /// Begins to build and flash through native backends while reporting each visible phase.
    ///
    /// This preserves [`Self::execute_and_flash`]'s service boundary: Klipper is
    /// stopped before the build and is never restarted by this operation.
    pub fn execute_and_flash_system_with_progress<P: ProgressPort>(
        &mut self,
        approved: ApprovedBuild,
        options: SystemFlashOptions,
        progress: &mut P,
    ) -> (run: SystemUpdateRun)
        ensures
            final(self).source() == old(self).source(),
            final(self).build_history() == old(self).build_history(),
            old(self).service_history().is_prefix_of(final(self).service_history()),
            ({
                let step = stop_run(
                    final(self).service_history(),
                    old(self).service_history().len() as int,
                    old(self).first_active(),
                );
                &&& step.next == final(self).service_history().len()
                &&& step.faithful
                &&& step.first_active == final(self).first_active()
                &&& final(progress).reported() == old(progress).reported() + step.reported
                &&& exists|state: UpdateState<SystemFlashError>|
                    #[trigger] update_begins(approved.build(), step.outcome, state) && advances(
                        state,
                        options,
                        run,
                        Seq::empty(),
                    )
            }),
    {
        let update: UpdateRun<SystemFlashError> = self.execute_and_flash_with_progress(
            approved,
            progress,
        );
        let ghost state = update@;
        let ghost told = progress.reported();
        assert(!(state.phase is Ready));
        let run: SystemUpdateRun = advance(update, options, progress);
        proof {
            let more = system::newly_reported(told, progress.reported());
            assert(more =~= Seq::empty());
            assert(progress.reported() =~= told + more);
        }
        run
    }

    /// Goes on with a native update.
    pub fn continue_system_update<P: ProgressPort>(
        &mut self,
        run: SystemUpdateRun,
        event: SystemUpdateEvent,
        jobs: usize,
        progress: &mut P,
    ) -> (next: SystemUpdateRun)
        ensures
            final(self).source() == old(self).source(),
            final(self).first_active() == old(self).first_active(),
            old(progress).reported().is_prefix_of(final(progress).reported()),
            ({
                let reported = system::newly_reported(
                    old(progress).reported(),
                    final(progress).reported(),
                );
                match (run, event) {
                    (
                        SystemUpdateRun::Building { update, options },
                        SystemUpdateEvent::Build(event),
                    ) => {
                        let step = update@.after(
                            old(self).source(),
                            event,
                            jobs as nat,
                            final(self).build_history(),
                            old(self).build_history().len() as int,
                        );
                        &&& old(self).build_history().is_prefix_of(final(self).build_history())
                        &&& final(self).service_history() == old(self).service_history()
                        &&& step.next == final(self).build_history().len()
                        &&& step.faithful
                        &&& step.reported.is_prefix_of(reported)
                        &&& advances(
                            step.state,
                            options,
                            next,
                            system::newly_reported(step.reported, reported),
                        )
                    },
                    (
                        SystemUpdateRun::Flashing { artifact, flash },
                        SystemUpdateEvent::Flash(event),
                    ) => {
                        &&& final(self).build_history() == old(self).build_history()
                        &&& exists|flashed: SystemFlashRun|
                            #[trigger] system::flash_step(
                                flash,
                                event,
                                flashed,
                                reported,
                                old(self).service_history(),
                                final(self).service_history(),
                            ) && next == flashed_update(artifact, flashed)
                    },
                    _ => {
                        &&& next == run
                        &&& reported == Seq::<UpdateProgress>::empty()
                        &&& final(self).build_history() == old(self).build_history()
                        &&& final(self).service_history() == old(self).service_history()
                    },
                }
            }),
    {
        let ghost told = progress.reported();
        proof {
            assert(system::newly_reported(told, told) =~= Seq::empty());
        }
        match (run, event) {
            (SystemUpdateRun::Building { update, options }, SystemUpdateEvent::Build(event)) => {
                let update: UpdateRun<SystemFlashError> = self.continue_update(
                    update,
                    event,
                    jobs,
                    progress,
                );
                let ghost middle = progress.reported();
                let next: SystemUpdateRun = advance(update, options, progress);
                proof {
                    let reported = system::newly_reported(told, progress.reported());
                    let first = system::newly_reported(told, middle);
                    assert(first.is_prefix_of(reported));
                    assert(system::newly_reported(first, reported) =~= system::newly_reported(
                        middle,
                        progress.reported(),
                    ));
                }
                next
            },
            (SystemUpdateRun::Flashing { artifact, flash }, SystemUpdateEvent::Flash(event)) => {
                let flashed: SystemFlashRun = self.continue_flash(flash, event, progress);
                let SystemFlashRun { job, stage } = flashed;
                match stage {
                    FlashStage::Finished(Ok(result)) => SystemUpdateRun::Finished(
                        Ok(CompletedUpdate { artifact, flash: result }),
                    ),
                    FlashStage::Finished(Err(error)) => SystemUpdateRun::Finished(
                        Err(FlashCoordinatorError::Flash(error)),
                    ),
                    stage => SystemUpdateRun::Flashing {
                        artifact,
                        flash: SystemFlashRun { job, stage },
                    },
                }
            },
            (run, _) => run,
        }
    }
}

/// Klipper is stopped only by being observed inactive: whenever a build or a flash begins, the last
/// service command was a query that systemd answered with `inactive`.
pub proof fn law_stopped_klipper_was_observed_inactive(
    tape: Seq<CommandCall>,
    at: int,
    first_active: Option<bool>,
)
    requires
        stop_run(tape, at, first_active).outcome is Ok,
        stop_run(tape, at, first_active).faithful,
    ensures
        ({
            let last = tape[stop_run(tape, at, first_active).next - 1];
            &&& last.command == service::systemctl("is-active"@)
            &&& service::state_result(last.result) == Ok::<StateName, ServiceFailure>(
                StateName::Inactive,
            )
        }),
{
}

/// Stopping Klipper only queries its state or stops it; nothing starts it again.
pub proof fn law_stopping_never_starts_klipper(
    tape: Seq<CommandCall>,
    at: int,
    first_active: Option<bool>,
    i: int,
)
    requires
        stop_run(tape, at, first_active).faithful,
        at <= i < stop_run(tape, at, first_active).next,
    ensures
        tape[i].command == service::systemctl("is-active"@) || tape[i].command
            == service::systemctl("stop"@),
{
}

/// Only the first state that is ever observed decides whether Klipper is restored later.
pub proof fn law_first_observation_is_kept(
    tape: Seq<CommandCall>,
    at: int,
    first_active: Option<bool>,
)
    ensures
        first_active is Some ==> stop_run(tape, at, first_active).first_active == first_active,
        first_active is None && service::state_result(tape[at].result) is Ok ==> stop_run(
            tape,
            at,
            first_active,
        ).first_active == Some(
            service::state_result(tape[at].result)->Ok_0 == StateName::Active,
        ),
{
}

/// What is flashed was built: a native update begins its flash only from an artifact that was
/// built and read, with the Kconfig that the build expanded.
pub proof fn law_only_read_artifacts_are_flashed(
    state: UpdateState<SystemFlashError>,
    options: SystemFlashOptions,
    next: SystemUpdateRun,
    reported: Seq<UpdateProgress>,
)
    requires
        advances(state, options, next, reported),
        next is Flashing,
    ensures
        state.phase is Ready,
        next->flash.job.firmware@ == state.phase->firmware,
        next->flash.job.kconfig@ == state.phase->Ready_kconfig,
        next->flash.job.options == options,
{
}

/// Whether Klipper was restored as it was first observed: started if it was active, else left.
pub open spec fn restores(
    first_active: Option<bool>,
    before: Seq<CommandCall>,
    after: Seq<CommandCall>,
    outcome: Result<(), CoordinatorFailure>,
) -> bool {
    if first_active == Some(true) {
        &&& before.is_prefix_of(after)
        &&& start_run(after, before.len() as int) == (outcome, after.len() as int, true)
    } else {
        outcome is Ok && after == before
    }
}

/// Whether `completed` concludes an update whose flash came out as `flashed`.
pub open spec fn completes<E>(
    state: UpdateState<E>,
    flashed: Result<FlashResult, E>,
    completed: Option<Result<CompletedUpdate, FlashCoordinatorError<E>>>,
) -> bool {
    match completed {
        None => state.phase is Building || state.phase is ReadArtifact,
        Some(Err(error)) => {
            ||| state.phase == UpdatePhase::<E>::Failed(error@)
            ||| state.phase is Ready && flashed is Err && error
                == FlashCoordinatorError::<E>::Flash(flashed->Err_0)
        },
        Some(Ok(update)) => state.phase is Ready && flashed == Ok::<FlashResult, E>(update.flash)
            && update.artifact.path@ == state.phase->Ready_path && update.artifact.byte_count
            == state.phase->Ready_byte_count && update.artifact.kconfig@
            == state.phase->Ready_kconfig,
    }
}

/// Whether `run` begins to flash a firmware file, once Klipper was stopped or could not be.
pub open spec fn begins_firmware_flash(
    prepared: PreparedBuild,
    firmware: Vec<u8>,
    options: SystemFlashOptions,
    force: bool,
    stopped: Result<(), CoordinatorFailure>,
    run: Result<SystemFlashRun, FlashCoordinatorError<SystemFlashError>>,
    told: Seq<UpdateProgress>,
    reported: Seq<UpdateProgress>,
) -> bool {
    match stopped {
        Err(failure) => run is Err && run->Err_0@ == UpdateFailure::<
            SystemFlashError,
        >::Coordinator(failure) && reported == told,
        Ok(_) => match system::first_stage(prepared.request.kconfig@, prepared.transport) {
            Err(error) => run == Err::<SystemFlashRun, FlashCoordinatorError<SystemFlashError>>(
                FlashCoordinatorError::Flash(error),
            ) && reported == told,
            Ok((stage, phase)) => {
                &&& run is Ok
                &&& run->Ok_0.stage == stage
                &&& run->Ok_0.job.kconfig == prepared.request.kconfig
                &&& run->Ok_0.job.firmware == firmware
                &&& run->Ok_0.job.options == options
                &&& run->Ok_0.job.file == Some(force)
                &&& reported == told.push(phase)
            },
        },
    }
}

/// Whether systemd was asked for Klipper's state and answered with this word.
pub open spec fn systemd_said(call: CommandCall, word: Seq<char>) -> bool {
    &&& call.command.program == "sudo"@
    &&& call.command.arguments == seq!["-n"@, "/bin/systemctl"@, "is-active"@, "klipper"@]
    &&& call.command.current_dir is None && call.command.stdin is None
    &&& call.result is Ok
    &&& text::trimmed(text::decoded(call.result->Ok_0.stdout@)) == word
}

/// Whether systemd was told to do this with Klipper, and did.
pub open spec fn systemd_did(call: CommandCall, action: Seq<char>) -> bool {
    &&& call.command.program == "sudo"@
    &&& call.command.arguments == seq!["-n"@, "/bin/systemctl"@, action, "klipper"@]
    &&& call.command.current_dir is None && call.command.stdin is None
    &&& call.result is Ok
    &&& call.result->Ok_0.success
}

/// Klipper that is not running needs no command but the question; Klipper that is running is told
/// to stop, and counts as stopped once systemd says that it is inactive. In any other state
/// nothing is changed, and the state is told.
pub proof fn law_running_klipper_is_stopped(
    tape: Seq<CommandCall>,
    at: int,
    first_active: Option<bool>,
    word: Seq<char>,
    later: Seq<char>,
)
    requires
        systemd_said(tape[at], word),
    ensures
        ({
            let step = stop_run(tape, at, first_active);
            let stopping = seq![UpdateProgress::StoppingKlipper];
            &&& word == "inactive"@ ==> step.outcome is Ok && step.next == at + 1
                && step.reported.len() == 0
            &&& word == "active"@ && systemd_did(tape[at + 1], "stop"@) && systemd_said(
                tape[at + 2],
                later,
            ) ==> step.next == at + 3 && step.reported == stopping && (step.outcome is Ok
                <==> later == "inactive"@)
            &&& word == "active"@ && tape[at + 1].result is Ok
                && !tape[at + 1].result->Ok_0.success ==> step.outcome is Err && step.next == at
                + 2 && step.reported == stopping
            &&& word != "active"@ && word != "inactive"@ ==> step.outcome == Err::<
                (),
                CoordinatorFailure,
            >(
                CoordinatorFailure::UnexpectedKlipperState(service::state_named(word)),
            ) && step.next == at + 1 && step.reported.len() == 0
            &&& first_active is None ==> step.first_active == Some(word == "active"@)
            &&& step.faithful && step.next == at + 3 ==> tape[at + 1].command.arguments == seq![
                "-n"@,
                "/bin/systemctl"@,
                "stop"@,
                "klipper"@,
            ]
        }),
{
    service::law_state_is_what_systemd_says(word);
    service::law_state_is_what_systemd_says(later);
}

/// Klipper counts as started exactly if systemd started it and then says that it is active.
pub proof fn law_started_klipper_is_active(tape: Seq<CommandCall>, at: int, word: Seq<char>)
    ensures
        systemd_did(tape[at], "start"@) && systemd_said(tape[at + 1], word) ==> (start_run(
            tape,
            at,
        ).0 is Ok <==> word == "active"@) && start_run(tape, at).1 == at + 2 && start_run(
            tape,
            at,
        ).2,
        tape[at].result is Ok && !tape[at].result->Ok_0.success ==> start_run(tape, at).0 is Err
            && start_run(tape, at).1 == at + 1,
        start_run(tape, at).2 ==> tape[at].command.arguments == seq![
            "-n"@,
            "/bin/systemctl"@,
            "start"@,
            "klipper"@,
        ],
        start_run(tape, at).0 is Ok && start_run(tape, at).2 ==> systemd_did(tape[at], "start"@)
            && systemd_said(tape[at + 1], "active"@),
{
    service::law_state_is_what_systemd_says(word);
    if tape[at + 1].result is Ok {
        service::law_state_is_what_systemd_says(
            text::trimmed(text::decoded(tape[at + 1].result->Ok_0.stdout@)),
        );
    }
}

/// After a failure Klipper is started again exactly if it was running when it was first looked at;
/// otherwise nothing is run.
pub proof fn law_klipper_is_left_as_it_was_found(
    first_active: Option<bool>,
    before: Seq<CommandCall>,
    after: Seq<CommandCall>,
    outcome: Result<(), CoordinatorFailure>,
)
    requires
        restores(first_active, before, after, outcome),
    ensures
        first_active != Some(true) ==> after == before && outcome is Ok,
        first_active == Some(true) ==> after.len() > before.len() && after[before.len() as int]
            .command.arguments == seq!["-n"@, "/bin/systemctl"@, "start"@, "klipper"@],
        first_active == Some(true) && outcome is Ok ==> after.len() == before.len() + 2
            && systemd_said(after.last(), "active"@),
{
    law_started_klipper_is_active(after, before.len() as int, "active"@);
}

/// Klipper may be started again after any failure before the flash, and after a failed install of
/// the host's own MCU, but after no other failure of a flash.
pub proof fn law_failed_flash_leaves_klipper_stopped(
    failure: CoordinatorFailure,
    unread: IoFailure,
    error: SystemFlashError,
)
    ensures
        UpdateFailure::<SystemFlashError>::Coordinator(failure).restorable(),
        UpdateFailure::<SystemFlashError>::Artifact(unread).restorable(),
        UpdateFailure::<SystemFlashError>::Flash(error).restorable() <==> error is LinuxHost,
{
}

/// A target is prepared exactly if it has a name, its directories could be created, and it was
/// discovered.
pub proof fn law_only_discovered_targets_are_prepared(
    mcus: Seq<Mcu>,
    target_name: Seq<char>,
    created: Result<(), DirectoryFailure>,
    i: int,
)
    requires
        target_name.len() > 0,
        created is Ok,
    ensures
        0 <= i < mcus.len() && mcus[i].name@ == target_name ==> preparation_failure(
            mcus,
            target_name,
            created,
        ) is None,
        (forall|k: int| 0 <= k < mcus.len() ==> (#[trigger] mcus[k]).name@ != target_name)
            ==> preparation_failure(mcus, target_name, created) == Some(
            CoordinatorFailure::UnknownTarget(target_name),
        ),
{
    prepare::law_mcu_is_found_by_its_name(mcus, target_name, i);
}

/// A prepared target builds its own MCU's configuration, in its own directories below the
/// workspace, for the transport that its own MCU was discovered with.
pub proof fn law_prepared_target_is_its_own_mcu(
    mcus: Seq<Mcu>,
    root: Seq<char>,
    target_name: Seq<char>,
    clean: bool,
    prepared: PreparedBuild,
    i: int,
)
    requires
        prepares(mcus, root, target_name, clean, prepared),
        0 <= i < mcus.len(),
        mcus[i].name@ == target_name,
        forall|k: int| 0 <= k < i ==> (#[trigger] mcus[k]).name@ != target_name,
    ensures
        prepared.target_name@ == target_name,
        prepared.request.kconfig == mcus[i].kconfig,
        prepared.transport == mcus[i].transport,
        prepared.mcu == mcus[i].mcu,
        prepared.request.clean == clean,
        prepared.request.config_path@ == paths::joined_path(
            workspace::target_path(root, "targets"@, target_name),
            ".config"@,
        ),
        prepared.request.artifact_path@ == paths::joined_path(
            workspace::target_path(root, "artifacts"@, target_name),
            "klipper.bin"@,
        ),
{
    prepare::law_mcu_is_found_by_its_name(mcus, target_name, i);
}

/// What a build made is read and then flashed: the update holds the artifact as it was built and
/// the firmware as it was read. A build that failed, and an artifact that could not be read, end
/// the update with that failure.
pub proof fn law_built_artifact_is_read<E>(
    state: UpdateState<E>,
    built: BuildState,
    source: Seq<char>,
    firmware: Vec<u8>,
    failure: IoFailure,
    jobs: nat,
    tape: Seq<CommandCall>,
    at: int,
)
    ensures
        built.phase matches BuildPhase::Built { path, byte_count, kconfig } ==> settled::<E>(built)
            == (UpdatePhase::<E>::ReadArtifact { path, byte_count, kconfig }),
        built.phase matches BuildPhase::Failed(error) ==> settled::<E>(built) == UpdatePhase::<
            E,
        >::Failed(UpdateFailure::Coordinator(CoordinatorFailure::Build(error))),
        !(built.phase is Built) && !(built.phase is Failed) ==> settled::<E>(built)
            == UpdatePhase::<E>::Building(built),
        state.phase matches UpdatePhase::ReadArtifact { path, byte_count, kconfig } ==> {
            let read = state.after(source, UpdateEvent::Firmware(firmware), jobs, tape, at);
            let unread = state.after(source, UpdateEvent::ReadFailed(failure), jobs, tape, at);
            &&& read.state.phase == (UpdatePhase::<E>::Ready {
                path,
                byte_count,
                kconfig,
                firmware: firmware@,
            })
            &&& read.state.prepared == state.prepared
            &&& unread.state.phase == UpdatePhase::<E>::Failed(UpdateFailure::Artifact(failure))
            &&& read.next == at && unread.next == at
        },
{
}

/// While the firmware is built, an update goes on exactly as the build does, with the same
/// commands and the same reports.
pub proof fn law_update_goes_on_as_its_build<E>(
    state: UpdateState<E>,
    source: Seq<char>,
    event: FileEvent,
    jobs: nat,
    tape: Seq<CommandCall>,
    at: int,
)
    requires
        state.phase is Building,
    ensures
        ({
            let build = state.phase->Building_0.after(source, event, jobs, tape, at);
            let update = state.after(source, UpdateEvent::File(event), jobs, tape, at);
            &&& update.state.phase == settled::<E>(build.state)
            &&& update.state.prepared == state.prepared
            &&& update.next == build.next
            &&& update.faithful == build.faithful
            &&& update.reported == build.reported
        }),
{
}

/// An update is complete only once its firmware was read and flashed. It then holds the artifact
/// that was built and the result of the flash; a flash that failed is its failure.
pub proof fn law_update_completes_as_its_flash<E>(
    state: UpdateState<E>,
    flashed: Result<FlashResult, E>,
    completed: Option<Result<CompletedUpdate, FlashCoordinatorError<E>>>,
)
    requires
        completes(state, flashed, completed),
    ensures
        completed is None <==> state.phase is Building || state.phase is ReadArtifact,
        completed is Some && completed->Some_0 is Ok <==> state.phase is Ready && flashed is Ok,
        state.phase is Ready && flashed is Ok ==> completed->Some_0->Ok_0.flash == flashed->Ok_0
            && completed->Some_0->Ok_0.artifact.path@ == state.phase->Ready_path,
        state.phase is Ready && flashed is Err ==> completed->Some_0->Err_0
            == FlashCoordinatorError::<E>::Flash(flashed->Err_0),
        state.phase is Failed ==> completed->Some_0->Err_0@ == state.phase->Failed_0,
{
}

/// A native update whose flash ended is finished as the flash ended, with the artifact that was
/// flashed; until then it keeps both.
pub proof fn law_native_update_ends_as_its_flash(artifact: BuildArtifact, flash: SystemFlashRun)
    ensures
        flashed_update(artifact, flash) is Finished <==> flash.stage is Finished,
        flash.stage matches FlashStage::Finished(Ok(result)) ==> flashed_update(artifact, flash)
            == SystemUpdateRun::Finished(Ok(CompletedUpdate { artifact, flash: result })),
        flash.stage matches FlashStage::Finished(Err(error)) ==> flashed_update(artifact, flash)
            == SystemUpdateRun::Finished(Err(FlashCoordinatorError::Flash(error))),
        !(flash.stage is Finished) ==> flashed_update(artifact, flash) == (
        SystemUpdateRun::Flashing { artifact, flash }),
{
}

/// What a native update flashes is the artifact that it built, and it is kept as it was built; the
/// build's failure is the update's.
pub proof fn law_native_update_keeps_its_artifact(
    state: UpdateState<SystemFlashError>,
    options: SystemFlashOptions,
    next: SystemUpdateRun,
    reported: Seq<UpdateProgress>,
)
    requires
        advances(state, options, next, reported),
    ensures
        next is Flashing ==> next->artifact.path@ == state.phase->Ready_path
            && next->artifact.byte_count == state.phase->Ready_byte_count
            && next->artifact.kconfig@ == state.phase->Ready_kconfig && next->flash.job.file is None
            && reported.len() == 1,
        state.phase is Failed ==> next is Finished && next->Finished_0 is Err
            && next->Finished_0->Err_0@ == state.phase->Failed_0,
        state.phase is Building || state.phase is ReadArtifact <==> next is Building,
        next is Building ==> next->update@ == state && next->options == options,
{
}

/// A firmware file is flashed only once Klipper is stopped. What is flashed is that file, with the
/// caller's word on whether a mismatch is overridden, and the first phase is reported.
pub proof fn law_firmware_file_is_flashed_after_the_stop(
    prepared: PreparedBuild,
    firmware: Vec<u8>,
    options: SystemFlashOptions,
    force: bool,
    stopped: Result<(), CoordinatorFailure>,
    run: Result<SystemFlashRun, FlashCoordinatorError<SystemFlashError>>,
    told: Seq<UpdateProgress>,
    reported: Seq<UpdateProgress>,
)
    requires
        begins_firmware_flash(
            prepared,
            firmware,
            options,
            force,
            stopped,
            run,
            told,
            reported,
        ),
    ensures
        run is Ok ==> stopped is Ok,
        run is Ok ==> run->Ok_0.job.firmware == firmware && run->Ok_0.job.file == Some(force)
            && run->Ok_0.job.options == options && run->Ok_0.job.kconfig
            == prepared.request.kconfig && reported.len() == told.len() + 1,
        stopped is Err ==> run is Err && run->Err_0@ == UpdateFailure::<
            SystemFlashError,
        >::Coordinator(stopped->Err_0) && reported == told,
        stopped is Ok && run is Err ==> run->Err_0 is Flash,
{
}

/// What is flashed differs from what was approved in nothing but the Kconfig, which is the one
/// that the build expanded.
pub proof fn law_flashed_build_is_the_approved_one(
    prepared: PreparedBuild,
    kconfig: Seq<char>,
    flashed: PreparedBuild,
)
    requires
        flashes(prepared, kconfig, flashed),
    ensures
        flashed.target_name == prepared.target_name,
        flashed.transport == prepared.transport,
        flashed.mcu == prepared.mcu,
        flashed.request.kconfig@ == kconfig,
        flashed.request.artifact_path == prepared.request.artifact_path,
{
}

/// An update begins with the approved build, and with nothing built where Klipper could not be
/// stopped.
pub proof fn law_update_begins_with_the_approved_build<E>(
    prepared: PreparedBuild,
    stopped: Result<(), CoordinatorFailure>,
    state: UpdateState<E>,
)
    requires
        update_begins(prepared, stopped, state),
    ensures
        state.prepared == prepared,
        stopped is Err ==> state.phase == UpdatePhase::<E>::Failed(
            UpdateFailure::Coordinator(stopped->Err_0),
        ),
        state.phase is Building ==> stopped is Ok && state.phase->Building_0.request
            == prepared.request && state.phase->Building_0.phase is CreateConfigDirectory,
        !(state.phase is Ready) && !(state.phase is ReadArtifact),
{
}

/// Built firmware of an MCU that is not the host's own process and has no transport is not flashed:
/// the update ends with that as its failure, and no phase is reported.
pub proof fn law_unreachable_mcu_is_not_flashed(
    state: UpdateState<SystemFlashError>,
    options: SystemFlashOptions,
    next: SystemUpdateRun,
    reported: Seq<UpdateProgress>,
)
    requires
        advances(state, options, next, reported),
        state.phase is Ready,
        state.prepared.transport is None,
        !crate::kconfig::has_entry(state.phase->Ready_kconfig, "CONFIG_MACH_LINUX=y"@),
    ensures
        next is Finished,
        next->Finished_0 is Err,
        next->Finished_0->Err_0 == FlashCoordinatorError::Flash(SystemFlashError::MissingTransport),
        reported.len() == 0,
{
}

} // verus!
