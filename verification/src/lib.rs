//! Firmware update planning, flashing protocols and reporting for Klipper-family MCUs.
use vstd::prelude::*;

pub mod builder;
pub mod by_name;
pub mod bytes;
pub mod checkout;
pub mod coordinator;
pub mod discovery;
pub mod eligibility;
pub mod failure;
pub mod flash;
pub mod flash_command;
pub mod kconfig;
pub mod logging;
pub mod moonraker;
pub mod paths;
pub mod plan;
pub mod prepare;
pub mod progress;
pub mod reboot;
pub mod retry;
pub mod run_log;
pub mod self_update;
pub mod service;
pub mod setup;
pub mod status;
pub mod text;
pub mod ui;
pub mod update;
pub mod workspace;

verus! {

/// Renders an error together with its full chain of causes, colon-separated.
///
/// Several error messages intentionally omit their own cause's text, so that it is not printed
/// twice once the whole chain is shown; this shows the full detail in one shot.
pub fn error_chain(messages: &Vec<String>) -> (message: String)
    ensures
        message@ == text::joined(text::texts(messages@), ": "@),
{
    text::join(messages, ": ")
}

} // verus!
