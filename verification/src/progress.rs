//! Visible phases of an update and where they are reported.
use vstd::prelude::*;

verus! {

/// A visible phase of one accepted MCU update.
#[derive(Clone, Copy, Debug, PartialEq, Eq, Structural)]
pub enum UpdateProgress {
    /// Klipper is stopping before the first build in the batch.
    StoppingKlipper,
    /// Klipper is expanding the selected MCU configuration.
    ConfiguringFirmware,
    /// Klipper is compiling the selected firmware artifact.
    CompilingFirmware,
    /// The updater is entering the selected MCU's bootloader.
    EnteringBootloader,
    /// The expected bootloader has re-enumerated and is ready for its transfer.
    BootloaderReady,
    /// The firmware transfer is beginning.
    StartingFlash,
    /// The Linux host MCU binary is being installed.
    Installing,
}

/// Receives each phase as it begins.
pub trait ProgressPort: Sized {
    /// Every phase so far, in order.
    /// Nothing is known of it by default: an implementation says what it is.
    open spec fn reported(&self) -> Seq<UpdateProgress> {
        arbitrary()
    }

    /// Reports that `progress` begins.
    fn report(&mut self, progress: UpdateProgress)
        ensures
            final(self).reported() == old(self).reported().push(progress),
    ;
}

impl ProgressPort for Vec<UpdateProgress> {
    open spec fn reported(&self) -> Seq<UpdateProgress> {
        self@
    }

    fn report(&mut self, progress: UpdateProgress) {
        self.push(progress);
    }
}

} // verus!
