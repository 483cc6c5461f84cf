//! A read-only plan of the update work for discovered MCUs.
use vstd::prelude::*;

use crate::moonraker;
use crate::moonraker::{Mcu, McuInventory, McuTransport};

verus! {

/// A read-only description of the update work required for discovered MCUs.
#[derive(Debug, PartialEq, Eq)]
pub struct UpdatePlan {
    /// The service lifecycle shared by all targets in this run.
    pub klipper: KlipperLifecycle,
    /// MCU targets in the order they must be processed.
    pub targets: Vec<PlannedMcu>,
}

/// The Klipper state transitions an update command must make explicit.
#[derive(Clone, Copy, Debug, PartialEq, Eq, Structural)]
pub struct KlipperLifecycle {
    /// Discovery reads Moonraker while Klipper is still running.
    pub runs_during_discovery: bool,
    /// Klipper stops immediately before the first selected build or flash.
    pub stops_before_first_build_or_flash: bool,
    /// The operator must explicitly decide whether to start Klipper after a run.
    pub restarts_automatically: bool,
}

/// A single MCU's ordered update workflow.
#[derive(Debug, PartialEq, Eq)]
pub struct PlannedMcu {
    /// Moonraker's configured MCU object name.
    pub name: String,
    /// The MCU identifier reported by the running firmware.
    pub mcu: String,
    /// The configured host transport retained from read-only discovery.
    pub transport: Option<McuTransport>,
    /// The ordered actions that would be taken for this MCU.
    pub steps: Vec<UpdateStep>,
}

/// One explicit stage of a single-MCU update.
#[derive(Clone, Copy, Debug, PartialEq, Eq, Structural)]
pub enum UpdateStep {
    /// Validate the embedded Kconfig before producing firmware.
    ValidateConfiguration,
    /// Require confirmation immediately before a mutating operation.
    ConfirmWrite,
    /// Build using Klipper's existing pipeline.
    BuildFirmware,
    /// Ask the selected transport to enter its bootloader.
    EnterBootloader,
    /// Transfer the built artifact.
    FlashFirmware,
    /// Verify the transfer using the backend protocol.
    VerifyFirmware,
    /// Complete the bootloader session and run the application.
    CompleteBootloader,
}

impl UpdateStep {
    /// The label of this step.
    pub open spec fn text(self) -> Seq<char> {
        match self {
            UpdateStep::ValidateConfiguration => "validate configuration"@,
            UpdateStep::ConfirmWrite => "confirm write"@,
            UpdateStep::BuildFirmware => "build firmware"@,
            UpdateStep::EnterBootloader => "enter bootloader"@,
            UpdateStep::FlashFirmware => "flash firmware"@,
            UpdateStep::VerifyFirmware => "verify firmware"@,
            UpdateStep::CompleteBootloader => "complete bootloader"@,
        }
    }

    /// Returns a stable, human-readable phase label for terminal output.
    pub fn label(self) -> (label: &'static str)
        ensures
            label@ == self.text(),
    {
        match self {
            UpdateStep::ValidateConfiguration => "validate configuration",
            UpdateStep::ConfirmWrite => "confirm write",
            UpdateStep::BuildFirmware => "build firmware",
            UpdateStep::EnterBootloader => "enter bootloader",
            UpdateStep::FlashFirmware => "flash firmware",
            UpdateStep::VerifyFirmware => "verify firmware",
            UpdateStep::CompleteBootloader => "complete bootloader",
        }
    }
}

/// The steps of every single-MCU update, in order.
pub open spec fn update_steps() -> Seq<UpdateStep> {
    seq![
        UpdateStep::ValidateConfiguration,
        UpdateStep::ConfirmWrite,
        UpdateStep::BuildFirmware,
        UpdateStep::EnterBootloader,
        UpdateStep::FlashFirmware,
        UpdateStep::VerifyFirmware,
        UpdateStep::CompleteBootloader,
    ]
}

fn planned_steps() -> (steps: Vec<UpdateStep>)
    ensures
        steps@ == update_steps(),
{
    let mut steps: Vec<UpdateStep> = Vec::new();
    steps.push(UpdateStep::ValidateConfiguration);
    steps.push(UpdateStep::ConfirmWrite);
    steps.push(UpdateStep::BuildFirmware);
    steps.push(UpdateStep::EnterBootloader);
    steps.push(UpdateStep::FlashFirmware);
    steps.push(UpdateStep::VerifyFirmware);
    steps.push(UpdateStep::CompleteBootloader);
    assert(steps@ =~= update_steps());
    steps
}

/// Builds a deterministic, non-mutating update plan from Moonraker inventory.
pub fn build_update_plan(inventory: &McuInventory) -> (plan: UpdatePlan)
    ensures
        plans(inventory.mcus@, plan),
{
    let mut targets: Vec<PlannedMcu> = Vec::new();
    let mut i: usize = 0;
    while i < inventory.mcus.len()
        invariant
            i <= inventory.mcus@.len(),
            targets@.len() == i,
            forall|k: int|
                0 <= k < targets@.len() ==> {
                    let target = #[trigger] targets@[k];
                    let mcu = inventory.mcus@[k];
                    &&& target.name == mcu.name
                    &&& target.mcu == mcu.mcu
                    &&& target.transport == mcu.transport
                    &&& target.steps@ == update_steps()
                },
        decreases inventory.mcus@.len() - i,
    {
        let mcu: &Mcu = &inventory.mcus[i];
        targets.push(
            PlannedMcu {
                name: mcu.name.clone(),
                mcu: mcu.mcu.clone(),
                transport: moonraker::copy_transport(&mcu.transport),
                steps: planned_steps(),
            },
        );
        i += 1;
    }
    UpdatePlan {
        klipper: KlipperLifecycle {
            runs_during_discovery: true,
            stops_before_first_build_or_flash: true,
            restarts_automatically: false,
        },
        targets,
    }
}

/// Whether `plan` is the plan of these MCUs.
pub open spec fn plans(mcus: Seq<Mcu>, plan: UpdatePlan) -> bool {
    &&& plan.klipper == (KlipperLifecycle {
        runs_during_discovery: true,
        stops_before_first_build_or_flash: true,
        restarts_automatically: false,
    })
    &&& plan.targets@.len() == mcus.len()
    &&& forall|i: int|
        0 <= i < plan.targets@.len() ==> {
            let target = #[trigger] plan.targets@[i];
            let mcu = mcus[i];
            &&& target.name == mcu.name
            &&& target.mcu == mcu.mcu
            &&& target.transport == mcu.transport
            &&& target.steps@ == update_steps()
        }
}

/// Every discovered MCU is planned once, in its place and as it was discovered. Klipper runs while
/// MCUs are discovered, is stopped before anything is built or flashed, and is not restarted.
pub proof fn law_every_mcu_is_planned(mcus: Seq<Mcu>, plan: UpdatePlan, i: int)
    requires
        plans(mcus, plan),
        0 <= i < mcus.len(),
    ensures
        plan.targets@.len() == mcus.len(),
        plan.targets@[i].name == mcus[i].name,
        plan.targets@[i].mcu == mcus[i].mcu,
        plan.targets@[i].transport == mcus[i].transport,
        plan.targets@[i].steps@ == update_steps(),
        plan.klipper.runs_during_discovery,
        plan.klipper.stops_before_first_build_or_flash,
        !plan.klipper.restarts_automatically,
{
}

/// Every step of an update is planned exactly once, in the order in which the steps must be taken:
/// nothing is built before it was validated and confirmed, nothing flashed before it was built and
/// the bootloader entered, and the bootloader is left only after the firmware was verified.
pub proof fn law_steps_are_planned_in_order(step: UpdateStep)
    ensures
        ({
            let rank = |step: UpdateStep| match step {
                UpdateStep::ValidateConfiguration => 0int,
                UpdateStep::ConfirmWrite => 1,
                UpdateStep::BuildFirmware => 2,
                UpdateStep::EnterBootloader => 3,
                UpdateStep::FlashFirmware => 4,
                UpdateStep::VerifyFirmware => 5,
                UpdateStep::CompleteBootloader => 6,
            };
            &&& update_steps().contains(step)
            &&& forall|i: int, j: int|
                0 <= i < j < update_steps().len() ==> rank(#[trigger] update_steps()[i]) < rank(
                    #[trigger] update_steps()[j],
                )
        }),
{
    let steps = update_steps();
    assert(steps[0] == UpdateStep::ValidateConfiguration);
    assert(steps[1] == UpdateStep::ConfirmWrite);
    assert(steps[2] == UpdateStep::BuildFirmware);
    assert(steps[3] == UpdateStep::EnterBootloader);
    assert(steps[4] == UpdateStep::FlashFirmware);
    assert(steps[5] == UpdateStep::VerifyFirmware);
    assert(steps[6] == UpdateStep::CompleteBootloader);
}

} // verus!
