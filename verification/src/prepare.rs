//! Resolving a requested build target from Moonraker's inventory.
use vstd::prelude::*;

use crate::builder::BuildRequest;
use crate::moonraker;
use crate::moonraker::{Mcu, McuInventory, McuTransport};
use crate::text;

verus! {

/// A selected MCU paired with the exact build request derived from Moonraker.
#[derive(Debug, PartialEq, Eq)]
pub struct PreparedBuild {
    /// Moonraker's configured MCU object name.
    pub target_name: String,
    /// MCU identifier reported by the running firmware.
    pub mcu: String,
    /// The revalidated transport used by a later flashing backend.
    pub transport: Option<McuTransport>,
    /// Klipper build inputs ready for a later, explicit build operation.
    pub request: BuildRequest,
}

impl Clone for PreparedBuild {
    fn clone(&self) -> (copy: Self)
        ensures
            copy == *self,
    {
        PreparedBuild {
            target_name: self.target_name.clone(),
            mcu: self.mcu.clone(),
            transport: moonraker::copy_transport(&self.transport),
            request: self.request.clone(),
        }
    }
}

/// Errors while resolving a requested build target from Moonraker inventory.
#[derive(Clone, Debug, PartialEq, Eq)]
pub enum PreparationError {
    /// The requested MCU is not present in the current Moonraker inventory.
    TargetNotDiscovered(String),
}

impl PreparationError {
    /// The wording of this error.
    pub open spec fn text(self) -> Seq<char> {
        match self {
            PreparationError::TargetNotDiscovered(name) => "MCU target "@ + text::quoted(name@)
                + " is not present in Moonraker inventory"@,
        }
    }

    /// The wording of this error.
    pub fn message(&self) -> (message: String)
        ensures
            message@ == self.text(),
    {
        match self {
            PreparationError::TargetNotDiscovered(name) => {
                let mut message: String = "MCU target ".to_owned();
                message.append(text::quote(name.as_str()).as_str());
                message.append(" is not present in Moonraker inventory");
                message
            },
        }
    }
}

/// The first MCU from index `i` on with the given name.
pub open spec fn mcu_from(mcus: Seq<Mcu>, name: Seq<char>, i: int) -> Option<int>
    decreases mcus.len() - i,
{
    if i < 0 || i >= mcus.len() {
        None
    } else if mcus[i].name@ == name {
        Some(i)
    } else {
        mcu_from(mcus, name, i + 1)
    }
}

/// The first MCU with the given name.
pub fn find_mcu(mcus: &Vec<Mcu>, name: &str) -> (position: Option<usize>)
    ensures
        match position {
            Some(i) => i < mcus@.len() && mcus@[i as int].name@ == name@ && mcu_from(
                mcus@,
                name@,
                0,
            ) == Some(i as int),
            None => mcu_from(mcus@, name@, 0) is None && forall|k: int|
                0 <= k < mcus@.len() ==> (#[trigger] mcus@[k]).name@ != name@,
        },
{
    let mut i: usize = 0;
    while i < mcus.len()
        invariant
            i <= mcus@.len(),
            mcu_from(mcus@, name@, 0) == mcu_from(mcus@, name@, i as int),
            forall|k: int| 0 <= k < i ==> (#[trigger] mcus@[k]).name@ != name@,
        decreases mcus@.len() - i,
    {
        if text::same_text(mcus[i].name.as_str(), name) {
            return Some(i);
        }
        i += 1;
    }
    None
}

/// Prepares a build request without writing files or invoking Klipper.
pub fn prepare_build(
    inventory: &McuInventory,
    target_name: &str,
    config_path: String,
    artifact_path: String,
    clean: bool,
) -> (prepared: Result<PreparedBuild, PreparationError>)
    ensures
        prepares_target(
            inventory.mcus@,
            target_name@,
            config_path,
            artifact_path,
            clean,
            prepared,
        ),
{
    match find_mcu(&inventory.mcus, target_name) {
        Some(i) => {
            let mcu: &Mcu = &inventory.mcus[i];
            Ok(
                PreparedBuild {
                    target_name: target_name.to_owned(),
                    mcu: mcu.mcu.clone(),
                    transport: moonraker::copy_transport(&mcu.transport),
                    request: BuildRequest {
                        kconfig: mcu.kconfig.clone(),
                        config_path,
                        artifact_path,
                        clean,
                    },
                },
            )
        },
        None => Err(PreparationError::TargetNotDiscovered(target_name.to_owned())),
    }
}


/// An MCU is found by its name exactly where one bears it, and it is the first that does.
pub proof fn law_mcu_is_found_by_its_name(mcus: Seq<Mcu>, name: Seq<char>, k: int)
    ensures
        match mcu_from(mcus, name, 0) {
            Some(i) => {
                &&& 0 <= i < mcus.len()
                &&& mcus[i].name@ == name
                &&& 0 <= k < i ==> mcus[k].name@ != name
            },
            None => 0 <= k < mcus.len() ==> mcus[k].name@ != name,
        },
{
    lemma_mcu_from(mcus, name, 0);
}

proof fn lemma_mcu_from(mcus: Seq<Mcu>, name: Seq<char>, i: int)
    requires
        0 <= i,
    ensures
        match mcu_from(mcus, name, i) {
            Some(at) => {
                &&& i <= at < mcus.len()
                &&& mcus[at].name@ == name
                &&& forall|k: int| i <= k < at ==> (#[trigger] mcus[k]).name@ != name
            },
            None => forall|k: int| i <= k < mcus.len() ==> (#[trigger] mcus[k]).name@ != name,
        },
    decreases mcus.len() - i,
{
    if i < mcus.len() && mcus[i].name@ != name {
        lemma_mcu_from(mcus, name, i + 1);
    }
}

/// Whether `prepared` is the build of the named MCU, or the MCU was not discovered.
pub open spec fn prepares_target(
    mcus: Seq<Mcu>,
    target_name: Seq<char>,
    config_path: String,
    artifact_path: String,
    clean: bool,
    prepared: Result<PreparedBuild, PreparationError>,
) -> bool {
    match prepared {
        Ok(prepared) => {
            &&& mcu_from(mcus, target_name, 0) is Some
            &&& {
                let mcu = mcus[mcu_from(mcus, target_name, 0)->Some_0];
                &&& prepared.target_name@ == target_name
                &&& prepared.mcu == mcu.mcu
                &&& prepared.transport == mcu.transport
                &&& prepared.request == (BuildRequest {
                    kconfig: mcu.kconfig,
                    config_path,
                    artifact_path,
                    clean,
                })
            }
        },
        Err(PreparationError::TargetNotDiscovered(name)) => mcu_from(mcus, target_name, 0) is None
            && name@ == target_name,
    }
}

/// A prepared build is of the first MCU of that name, with the Kconfig, the chip and the transport
/// that were discovered for it, and with the paths that were given for it. It is refused exactly
/// where no MCU has the name.
pub proof fn law_build_is_of_the_named_mcu(
    mcus: Seq<Mcu>,
    target_name: Seq<char>,
    config_path: String,
    artifact_path: String,
    clean: bool,
    prepared: Result<PreparedBuild, PreparationError>,
    i: int,
)
    requires
        prepares_target(mcus, target_name, config_path, artifact_path, clean, prepared),
        0 <= i < mcus.len(),
        mcus[i].name@ == target_name,
        forall|k: int| 0 <= k < i ==> (#[trigger] mcus[k]).name@ != target_name,
    ensures
        prepared is Ok,
        prepared->Ok_0.target_name@ == mcus[i].name@,
        prepared->Ok_0.mcu == mcus[i].mcu,
        prepared->Ok_0.transport == mcus[i].transport,
        prepared->Ok_0.request.kconfig == mcus[i].kconfig,
        prepared->Ok_0.request.config_path == config_path,
        prepared->Ok_0.request.artifact_path == artifact_path,
        prepared->Ok_0.request.clean == clean,
{
    law_mcu_is_found_by_its_name(mcus, target_name, i);
}

/// Without an MCU of the name there is nothing to build, and the error holds the name.
pub proof fn law_undiscovered_mcu_is_not_built(
    mcus: Seq<Mcu>,
    target_name: Seq<char>,
    config_path: String,
    artifact_path: String,
    clean: bool,
    prepared: Result<PreparedBuild, PreparationError>,
)
    requires
        prepares_target(mcus, target_name, config_path, artifact_path, clean, prepared),
        forall|k: int| 0 <= k < mcus.len() ==> (#[trigger] mcus[k]).name@ != target_name,
    ensures
        prepared is Err,
        prepared->Err_0->TargetNotDiscovered_0@ == target_name,
{
    law_mcu_is_found_by_its_name(mcus, target_name, 0);
}

} // verus!
