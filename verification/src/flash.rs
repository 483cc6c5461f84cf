//! Native firmware flashing interfaces and transport implementations.
use vstd::prelude::*;

pub mod bossa;
pub mod katapult;
pub mod linux_host;
pub mod picoboot;
pub mod reboot;
pub mod stm32_dfu;
pub mod system;
pub mod usb_bootloader;
pub mod usb_sysfs;

verus! {

/// Result details shared by native flashing backends.
#[derive(Clone, Copy, Debug, PartialEq, Eq, Structural)]
pub struct FlashResult {
    /// The number of firmware pages that the bootloader reports, where it reports any.
    pub reported_pages: Option<u32>,
    /// Number of bytes transferred after bootloader-required padding.
    pub padded_bytes: usize,
}

/// A native backend capable of writing and verifying a firmware image.
pub trait FlashBackend: Sized {
    /// Backend-specific failure type.
    type Error;

    /// Writes `firmware` and verifies the result through the backend protocol.
    fn flash(&mut self, firmware: &[u8]) -> (result: Result<FlashResult, Self::Error>);
}

} // verus!
