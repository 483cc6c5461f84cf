//! What is shown on a terminal.
use aldis::progress::UpdateProgress;
use aldis::ui::{
    colors_enabled, confirmed, plain_success_line, progress, progress_without_build,
    read_confirmation, transfer_summary, transfer_verb, ColorMode, TerminalOp, UiOutput, UpdateUi,
};

#[test]
fn honors_color_mode_without_using_terminal_escape_codes_in_plain_output() {
    assert!(colors_enabled(ColorMode::Always, false, false));
    assert!(!colors_enabled(ColorMode::Never, true, false));
    assert!(colors_enabled(ColorMode::Auto, true, false));
    assert!(!colors_enabled(ColorMode::Auto, false, false));
    assert_eq!(
        plain_success_line("compiled firmware"),
        "  [ok] compiled firmware"
    );
}

#[test]
fn no_color_only_silences_the_automatic_mode() {
    assert!(!colors_enabled(ColorMode::Auto, true, true));
    assert!(colors_enabled(ColorMode::Always, true, true));
}

#[test]
fn only_yes_confirms() {
    for (answer, yes) in [
        ("y\n", true),
        (" YES \n", true),
        ("n\n", false),
        ("\n", false),
        ("yep\n", false),
    ] {
        assert_eq!(confirmed(&Some(answer.to_owned())), yes, "{answer:?}");
    }
    assert!(!confirmed(&None));
    assert_eq!(read_confirmation(" Yes\n"), "yes");
}

#[test]
fn each_phase_completes_the_one_before() {
    assert_eq!(
        progress(UpdateProgress::CompilingFirmware),
        [
            UiOutput::Success("configured firmware".to_owned()),
            UiOutput::Begin("compiling firmware".to_owned())
        ]
    );
    assert_eq!(
        progress_without_build(UpdateProgress::EnteringBootloader),
        [
            UiOutput::Success("stopped Klipper".to_owned()),
            UiOutput::Begin("entering bootloader".to_owned())
        ]
    );
    assert_eq!(
        progress(UpdateProgress::StartingFlash),
        [UiOutput::Begin("flashing firmware".to_owned())]
    );
}

#[test]
fn the_host_mcu_is_installed_and_others_are_flashed() {
    assert_eq!(transfer_verb("CONFIG_MACH_LINUX=y\n"), "installed");
    assert_eq!(transfer_verb("CONFIG_MACH_STM32=y\n"), "flashed");
    assert_eq!(transfer_summary("", 4096), "flashed 4096 bytes");
}

fn write(text: &str) -> TerminalOp {
    TerminalOp::Write(text.to_owned())
}

fn log(text: &str) -> TerminalOp {
    TerminalOp::Log(text.to_owned())
}

#[test]
fn renders_plain_output_without_escapes() {
    let mut ui = UpdateUi::new(ColorMode::Auto, false, false, false);
    assert_eq!(
        ui.show(UiOutput::Begin("stopping Klipper".to_owned())),
        [log("starting: stopping Klipper"), write("  ..stopping Klipper\n")]
    );
    assert_eq!(
        ui.show(UiOutput::Success("stopped Klipper".to_owned())),
        [log("completed: stopped Klipper"), write("  [ok] stopped Klipper\n")]
    );
    assert!(ui.show(UiOutput::Success("again".to_owned())).is_empty());
    assert!(ui.show(UiOutput::Failure).is_empty());
    assert_eq!(
        ui.show(UiOutput::Heading("Update".to_owned())),
        [log("Update"), write("\nUpdate\n")]
    );
}

#[test]
fn animates_and_colors_on_a_terminal() {
    let mut ui = UpdateUi::new(ColorMode::Auto, false, true, false);
    assert_eq!(
        ui.show(UiOutput::Begin("compiling".to_owned())),
        [
            log("starting: compiling"),
            TerminalOp::StartSpinner("compiling".to_owned())
        ]
    );
    assert_eq!(
        ui.show(UiOutput::Failure),
        [
            TerminalOp::StopSpinner,
            write("\r\u{1b}[2K"),
            log("failed: compiling"),
            write("  \u{1b}[31merror\u{1b}[0m compiling failed\n")
        ]
    );
    assert_eq!(
        ui.success_line("done"),
        "  \u{1b}[32m\u{2713}\u{1b}[0m done"
    );
    assert_eq!(
        ui.show(UiOutput::Prompt("Sure?".to_owned())),
        [
            log("prompt: Sure?"),
            write("\n\u{1b}[1mSure?\u{1b}[0m [y/N] ")
        ]
    );
}

#[test]
fn leaving_the_terminal_stops_the_animation() {
    let mut ui = UpdateUi::new(ColorMode::Never, false, true, false);
    ui.show(UiOutput::Begin("compiling".to_owned()));
    assert_eq!(
        ui.clear_active(),
        [TerminalOp::StopSpinner, write("\r\u{1b}[2K")]
    );
    assert!(ui.clear_active().is_empty());
    assert_eq!(
        ui.show(UiOutput::Block(" text \n".to_owned())),
        [log("text"), write(" text \n")]
    );
    assert_eq!(ui.show(UiOutput::Action("note".to_owned())), [log("note")]);
}
