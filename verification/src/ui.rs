//! What the update commands show on a terminal.
use vstd::prelude::*;

use crate::flash::linux_host;
use crate::kconfig;
use crate::progress::UpdateProgress;
use crate::text;

verus! {

/// Controls ANSI color in interactive output.
#[derive(Clone, Copy, Debug, PartialEq, Eq, Structural)]
pub enum ColorMode {
    /// Use color only when stderr is a terminal and NO_COLOR is not set.
    Auto,
    /// Always emit ANSI color sequences.
    Always,
    /// Never emit ANSI color sequences.
    Never,
}

/// Whether output is colored, given whether it goes to a terminal and whether the environment asks
/// for no color.
pub fn colors_enabled(mode: ColorMode, is_terminal: bool, no_color: bool) -> (enabled: bool)
    ensures
        enabled == shows_color(mode, is_terminal, no_color),
{
    match mode {
        ColorMode::Auto => is_terminal && !no_color,
        ColorMode::Always => true,
        ColorMode::Never => false,
    }
}

/// One thing that a command shows.
#[derive(Clone, Debug, PartialEq, Eq)]
pub enum UiOutput {
    /// A note for the log alone.
    Action(String),
    /// A block of text.
    Block(String),
    /// A heading.
    Heading(String),
    /// A yes-or-no question.
    Prompt(String),
    /// A phase begins.
    Begin(String),
    /// The phase under way succeeded.
    Success(String),
    /// The phase under way failed.
    Failure,
}

/// Something shown, by its characters.
pub enum UiText {
    Action(Seq<char>),
    Block(Seq<char>),
    Heading(Seq<char>),
    Prompt(Seq<char>),
    Begin(Seq<char>),
    Success(Seq<char>),
    Failure,
}

impl View for UiOutput {
    type V = UiText;

    open spec fn view(&self) -> UiText {
        match *self {
            UiOutput::Action(text) => UiText::Action(text@),
            UiOutput::Block(text) => UiText::Block(text@),
            UiOutput::Heading(text) => UiText::Heading(text@),
            UiOutput::Prompt(text) => UiText::Prompt(text@),
            UiOutput::Begin(text) => UiText::Begin(text@),
            UiOutput::Success(text) => UiText::Success(text@),
            UiOutput::Failure => UiText::Failure,
        }
    }
}

/// A list of outputs by their characters.
pub open spec fn shown(outputs: Seq<UiOutput>) -> Seq<UiText> {
    Seq::new(outputs.len(), |i: int| outputs[i]@)
}

/// Shows one more output.
pub fn say(outputs: &mut Vec<UiOutput>, output: UiOutput)
    ensures
        shown(final(outputs)@) == shown(old(outputs)@).push(output@),
{
    outputs.push(output);
    assert(shown(outputs@) =~= shown(old(outputs)@).push(output@));
}

/// What a phase of an update that builds its firmware shows.
pub open spec fn build_progress(progress: UpdateProgress) -> Seq<UiText> {
    match progress {
        UpdateProgress::StoppingKlipper => seq![UiText::Begin("stopping Klipper"@)],
        UpdateProgress::ConfiguringFirmware => seq![
            UiText::Success("stopped Klipper"@),
            UiText::Begin("configuring firmware"@),
        ],
        UpdateProgress::CompilingFirmware => seq![
            UiText::Success("configured firmware"@),
            UiText::Begin("compiling firmware"@),
        ],
        UpdateProgress::EnteringBootloader => seq![
            UiText::Success("compiled firmware"@),
            UiText::Begin("entering bootloader"@),
        ],
        UpdateProgress::BootloaderReady => seq![UiText::Success("bootloader ready"@)],
        UpdateProgress::StartingFlash => seq![UiText::Begin("flashing firmware"@)],
        UpdateProgress::Installing => seq![
            UiText::Success("compiled firmware"@),
            UiText::Begin("installing firmware"@),
        ],
    }
}

/// What a phase of a flash shows whose firmware was not built: its first step completes the stop.
pub open spec fn flash_progress(progress: UpdateProgress) -> Seq<UiText> {
    match progress {
        UpdateProgress::EnteringBootloader => seq![
            UiText::Success("stopped Klipper"@),
            UiText::Begin("entering bootloader"@),
        ],
        UpdateProgress::Installing => seq![
            UiText::Success("stopped Klipper"@),
            UiText::Begin("installing firmware"@),
        ],
        _ => build_progress(progress),
    }
}

fn success_then_begin(done: &str, next: &str) -> (outputs: Vec<UiOutput>)
    ensures
        shown(outputs@) == seq![UiText::Success(done@), UiText::Begin(next@)],
{
    let mut outputs: Vec<UiOutput> = Vec::new();
    outputs.push(UiOutput::Success(done.to_owned()));
    outputs.push(UiOutput::Begin(next.to_owned()));
    assert(shown(outputs@) =~= seq![UiText::Success(done@), UiText::Begin(next@)]);
    outputs
}

fn one(output: UiOutput) -> (outputs: Vec<UiOutput>)
    ensures
        shown(outputs@) == seq![output@],
{
    let mut outputs: Vec<UiOutput> = Vec::new();
    outputs.push(output);
    assert(shown(outputs@) =~= seq![output@]);
    outputs
}

/// What a phase of an update that builds its firmware shows.
pub fn progress(phase: UpdateProgress) -> (outputs: Vec<UiOutput>)
    ensures
        shown(outputs@) == build_progress(phase),
{
    match phase {
        UpdateProgress::StoppingKlipper => one(UiOutput::Begin("stopping Klipper".to_owned())),
        UpdateProgress::ConfiguringFirmware => success_then_begin(
            "stopped Klipper",
            "configuring firmware",
        ),
        UpdateProgress::CompilingFirmware => success_then_begin(
            "configured firmware",
            "compiling firmware",
        ),
        UpdateProgress::EnteringBootloader => success_then_begin(
            "compiled firmware",
            "entering bootloader",
        ),
        UpdateProgress::BootloaderReady => one(UiOutput::Success("bootloader ready".to_owned())),
        UpdateProgress::StartingFlash => one(UiOutput::Begin("flashing firmware".to_owned())),
        UpdateProgress::Installing => success_then_begin(
            "compiled firmware",
            "installing firmware",
        ),
    }
}

/// What a phase of a flash shows whose firmware was not built.
pub fn progress_without_build(phase: UpdateProgress) -> (outputs: Vec<UiOutput>)
    ensures
        shown(outputs@) == flash_progress(phase),
{
    match phase {
        UpdateProgress::EnteringBootloader => success_then_begin(
            "stopped Klipper",
            "entering bootloader",
        ),
        UpdateProgress::Installing => success_then_begin("stopped Klipper", "installing firmware"),
        _ => progress(phase),
    }
}

/// What was done to an MCU with the given Kconfig: the Linux host MCU is installed, any other one
/// is flashed.
pub open spec fn verb(config: Seq<char>) -> Seq<char> {
    if kconfig::has_entry(config, "CONFIG_MACH_LINUX=y"@) {
        "installed"@
    } else {
        "flashed"@
    }
}

/// What was done to an MCU with the given Kconfig.
pub fn transfer_verb(config: &str) -> (word: &'static str)
    ensures
        word@ == verb(config@),
{
    if linux_host::is_linux_host(config) {
        "installed"
    } else {
        "flashed"
    }
}

/// What was done to an MCU, and with how many bytes.
pub open spec fn summary(config: Seq<char>, byte_count: nat) -> Seq<char> {
    verb(config) + " "@ + text::decimal(byte_count) + " bytes"@
}

/// What was done to an MCU, and with how many bytes.
pub fn transfer_summary(config: &str, byte_count: usize) -> (message: String)
    ensures
        message@ == summary(config@, byte_count as nat),
{
    let mut message: String = transfer_verb(config).to_owned();
    message.append(" ");
    message.append(text::decimal_text(byte_count as u64).as_str());
    message.append(" bytes");
    message
}

/// Whether an answer means yes; only `y` and `yes` do, in any case.
pub open spec fn means_yes(answer: Seq<char>) -> bool {
    let word = text::lowercased(text::trimmed(answer));
    word == "y"@ || word == "yes"@
}

/// Whether one line of input confirms a question; input that could not be read does not.
pub fn confirmed(answer: &Option<String>) -> (yes: bool)
    ensures
        yes == match *answer {
            Some(answer) => means_yes(answer@),
            None => false,
        },
{
    match answer {
        Some(answer) => {
            let word: String = read_confirmation(answer.as_str());
            text::same_text(word.as_str(), "y") || text::same_text(word.as_str(), "yes")
        },
        None => false,
    }
}

/// One line of input, trimmed and lowercased.
pub fn read_confirmation(line: &str) -> (word: String)
    ensures
        word@ == text::lowercased(text::trimmed(line@)),
{
    text::to_lowercase(text::trim(line))
}

/// The line that reports a success in plain output.
pub fn plain_success_line(message: &str) -> (line: String)
    ensures
        line@ == "  [ok] "@ + message@,
{
    let mut line: String = "  [ok] ".to_owned();
    line.append(message);
    line
}

/// One operation on the terminal.
#[derive(Clone, Debug, PartialEq, Eq)]
pub enum TerminalOp {
    /// Note a text in the log.
    Log(String),
    /// Write a text to stderr.
    Write(String),
    /// Animate a label until the spinner stops.
    StartSpinner(String),
    /// Stop the spinner.
    StopSpinner,
}

/// A terminal operation by its characters.
pub enum TerminalEffect {
    Log(Seq<char>),
    Write(Seq<char>),
    StartSpinner(Seq<char>),
    StopSpinner,
}

impl View for TerminalOp {
    type V = TerminalEffect;

    open spec fn view(&self) -> TerminalEffect {
        match *self {
            TerminalOp::Log(text) => TerminalEffect::Log(text@),
            TerminalOp::Write(text) => TerminalEffect::Write(text@),
            TerminalOp::StartSpinner(text) => TerminalEffect::StartSpinner(text@),
            TerminalOp::StopSpinner => TerminalEffect::StopSpinner,
        }
    }
}

/// A list of terminal operations by their characters.
pub open spec fn effects(operations: Seq<TerminalOp>) -> Seq<TerminalEffect> {
    Seq::new(operations.len(), |i: int| operations[i]@)
}

/// The rendering of an update on a terminal, with the label of the phase under way.
pub struct UpdateUi {
    color: bool,
    interactive: bool,
    active: Option<String>,
}

/// The sequence that clears a line.
pub open spec fn clear_line() -> Seq<char> {
    "\r\u{1b}[2K"@
}

/// A text in an ANSI style, where output is colored.
pub open spec fn styled(color: bool, code: Seq<char>, text: Seq<char>) -> Seq<char> {
    if color {
        "\u{1b}["@ + code + "m"@ + text + "\u{1b}[0m"@
    } else {
        text
    }
}

/// The line that reports a success.
pub open spec fn success_text(color: bool, interactive: bool, message: Seq<char>) -> Seq<char> {
    if interactive {
        "  "@ + styled(color, "32"@, "\u{2713}"@) + " "@ + message
    } else if color {
        "  "@ + styled(color, "32"@, "[ok]"@) + " "@ + message
    } else {
        "  [ok] "@ + message
    }
}

/// The line that reports a failure.
pub open spec fn failure_text(color: bool, interactive: bool, message: Seq<char>) -> Seq<char> {
    "  "@ + styled(
        color,
        "31"@,
        if interactive {
            "error"@
        } else {
            "[error]"@
        },
    ) + " "@ + message
}

/// What leaving the phase under way does: an animated label is stopped and cleared.
pub open spec fn cleared(interactive: bool, active: bool) -> Seq<TerminalEffect> {
    if interactive && active {
        seq![TerminalEffect::StopSpinner, TerminalEffect::Write(clear_line())]
    } else {
        Seq::empty()
    }
}

/// What showing an output does on a terminal, given the label of the phase under way.
pub open spec fn rendered(
    color: bool,
    interactive: bool,
    active: Option<Seq<char>>,
    output: UiText,
) -> Seq<TerminalEffect> {
    let clear = cleared(interactive, active is Some);
    match output {
        UiText::Action(text) => seq![TerminalEffect::Log(text)],
        UiText::Block(text) => clear.push(TerminalEffect::Log(text::trimmed(text))).push(
            TerminalEffect::Write(text),
        ),
        UiText::Heading(text) => clear.push(TerminalEffect::Log(text)).push(
            TerminalEffect::Write("\n"@ + styled(color, "1"@, text) + "\n"@),
        ),
        UiText::Prompt(text) => clear.push(TerminalEffect::Log("prompt: "@ + text)).push(
            TerminalEffect::Write("\n"@ + styled(color, "1"@, text) + " [y/N] "@),
        ),
        UiText::Begin(label) => clear.push(TerminalEffect::Log("starting: "@ + label)).push(
            if interactive {
                TerminalEffect::StartSpinner(label)
            } else {
                TerminalEffect::Write("  .."@ + label + "\n"@)
            },
        ),
        UiText::Success(message) => if active is Some {
            clear.push(TerminalEffect::Log("completed: "@ + message)).push(
                TerminalEffect::Write(success_text(color, interactive, message) + "\n"@),
            )
        } else {
            Seq::empty()
        },
        UiText::Failure => match active {
            Some(label) => clear.push(TerminalEffect::Log("failed: "@ + label)).push(
                TerminalEffect::Write(failure_text(color, interactive, label + " failed"@) + "\n"@),
            ),
            None => Seq::empty(),
        },
    }
}

/// The label of the phase under way after an output.
pub open spec fn active_after(active: Option<Seq<char>>, output: UiText) -> Option<Seq<char>> {
    match output {
        UiText::Action(_) => active,
        UiText::Begin(label) => Some(label),
        _ => None,
    }
}

fn put(operations: &mut Vec<TerminalOp>, operation: TerminalOp)
    ensures
        effects(final(operations)@) == effects(old(operations)@).push(operation@),
{
    operations.push(operation);
    assert(effects(operations@) =~= effects(old(operations)@).push(operation@));
}

fn with_prefix(prefix: &str, text: &str) -> (joined: String)
    ensures
        joined@ == prefix@ + text@,
{
    let mut joined: String = prefix.to_owned();
    joined.append(text);
    joined
}

impl UpdateUi {
    /// Whether output is colored.
    pub closed spec fn colored(&self) -> bool {
        self.color
    }

    /// Whether labels are animated.
    pub closed spec fn animated(&self) -> bool {
        self.interactive
    }

    /// The label of the phase under way.
    pub closed spec fn phase(&self) -> Option<Seq<char>> {
        match self.active {
            Some(label) => Some(label@),
            None => None,
        }
    }

    /// Renders for a terminal or for plain output; `no_progress` asks for plain output.
    pub fn new(color_mode: ColorMode, no_progress: bool, is_terminal: bool, no_color: bool) -> (ui:
        Self)
        ensures
            ui.colored() == shows_color(color_mode, is_terminal, no_color),
            ui.animated() == (is_terminal && !no_progress),
            ui.phase() is None,
    {
        UpdateUi {
            color: colors_enabled(color_mode, is_terminal, no_color),
            interactive: is_terminal && !no_progress,
            active: None,
        }
    }

    fn style(&self, code: &str, text: &str) -> (result: String)
        ensures
            result@ == styled(self.color, code@, text@),
    {
        if self.color {
            let mut result: String = "\u{1b}[".to_owned();
            result.append(code);
            result.append("m");
            result.append(text);
            result.append("\u{1b}[0m");
            result
        } else {
            text.to_owned()
        }
    }

    /// The line that reports a success.
    pub fn success_line(&self, message: &str) -> (line: String)
        ensures
            line@ == success_text(self.colored(), self.animated(), message@),
    {
        if !self.interactive && !self.color {
            return plain_success_line(message);
        }
        let marker: &str = if self.interactive {
            "\u{2713}"
        } else {
            "[ok]"
        };
        let mut line: String = "  ".to_owned();
        line.append(self.style("32", marker).as_str());
        line.append(" ");
        line.append(message);
        line
    }

    /// The line that reports a failure.
    pub fn failure_line(&self, message: &str) -> (line: String)
        ensures
            line@ == failure_text(self.colored(), self.animated(), message@),
    {
        let marker: &str = if self.interactive {
            "error"
        } else {
            "[error]"
        };
        let mut line: String = "  ".to_owned();
        line.append(self.style("31", marker).as_str());
        line.append(" ");
        line.append(message);
        line
    }

    /// Leaves the phase under way, whatever it was.
    pub fn clear_active(&mut self) -> (operations: Vec<TerminalOp>)
        ensures
            final(self).colored() == old(self).colored(),
            final(self).animated() == old(self).animated(),
            final(self).phase() is None,
            effects(operations@) == cleared(old(self).animated(), old(self).phase() is Some),
    {
        let mut operations: Vec<TerminalOp> = Vec::new();
        assert(effects(operations@) =~= Seq::empty());
        if self.interactive && self.active.is_some() {
            put(&mut operations, TerminalOp::StopSpinner);
            put(&mut operations, TerminalOp::Write("\r\u{1b}[2K".to_owned()));
            assert(effects(operations@) =~= cleared(self.animated(), self.phase() is Some));
        }
        self.active = None;
        operations
    }

    /// Shows one output.
    pub fn show(&mut self, output: UiOutput) -> (operations: Vec<TerminalOp>)
        ensures
            final(self).colored() == old(self).colored(),
            final(self).animated() == old(self).animated(),
            final(self).phase() == active_after(old(self).phase(), output@),
            effects(operations@) == rendered(
                old(self).colored(),
                old(self).animated(),
                old(self).phase(),
                output@,
            ),
    {
        if let UiOutput::Action(text) = output {
            let mut operations: Vec<TerminalOp> = Vec::new();
            operations.push(TerminalOp::Log(text));
            assert(effects(operations@) =~= seq![TerminalEffect::Log(text@)]);
            return operations;
        }
        let active: Option<String> = match &self.active {
            Some(label) => Some(label.clone()),
            None => None,
        };
        let ghost label = self.phase();
        let mut operations: Vec<TerminalOp> = self.clear_active();
        match output {
            UiOutput::Action(_) => {},
            UiOutput::Block(text) => {
                put(&mut operations, TerminalOp::Log(text::trim(text.as_str()).to_owned()));
                put(&mut operations, TerminalOp::Write(text));
            },
            UiOutput::Heading(text) => {
                let mut line: String = with_prefix("\n", self.style("1", text.as_str()).as_str());
                line.append("\n");
                put(&mut operations, TerminalOp::Log(text));
                put(&mut operations, TerminalOp::Write(line));
            },
            UiOutput::Prompt(text) => {
                let mut line: String = with_prefix("\n", self.style("1", text.as_str()).as_str());
                line.append(" [y/N] ");
                put(&mut operations, TerminalOp::Log(with_prefix("prompt: ", text.as_str())));
                put(&mut operations, TerminalOp::Write(line));
            },
            UiOutput::Begin(label) => {
                put(&mut operations, TerminalOp::Log(with_prefix("starting: ", label.as_str())));
                if self.interactive {
                    put(&mut operations, TerminalOp::StartSpinner(label.clone()));
                } else {
                    let mut line: String = with_prefix("  ..", label.as_str());
                    line.append("\n");
                    put(&mut operations, TerminalOp::Write(line));
                }
                self.active = Some(label);
            },
            UiOutput::Success(message) => {
                if active.is_some() {
                    let mut line: String = self.success_line(message.as_str());
                    line.append("\n");
                    put(
                        &mut operations,
                        TerminalOp::Log(with_prefix("completed: ", message.as_str())),
                    );
                    put(&mut operations, TerminalOp::Write(line));
                }
            },
            UiOutput::Failure => {
                if let Some(label) = active {
                    let mut message: String = label.clone();
                    message.append(" failed");
                    let mut line: String = self.failure_line(message.as_str());
                    line.append("\n");
                    put(
                        &mut operations,
                        TerminalOp::Log(with_prefix("failed: ", label.as_str())),
                    );
                    put(&mut operations, TerminalOp::Write(line));
                }
            },
        }
        operations
    }
}

/// A success or a failure is shown at most once: after it no phase is under way, and without one
/// neither is shown.
pub proof fn law_a_phase_ends_once(
    color: bool,
    interactive: bool,
    active: Option<Seq<char>>,
    ended: UiText,
    again: UiText,
)
    requires
        ended is Success || ended is Failure,
        again is Success || again is Failure,
    ensures
        active_after(active, ended) is None,
        rendered(color, interactive, active_after(active, ended), again) == Seq::<
            TerminalEffect,
        >::empty(),
{
}

/// Plain output holds no escape sequence of this module: without color and animation a success is
/// the plain line, and nothing is cleared.
pub proof fn law_plain_output_is_unstyled(code: Seq<char>, message: Seq<char>, active: bool)
    ensures
        styled(false, code, message) == message,
        success_text(false, false, message) == "  [ok] "@ + message,
        cleared(false, active) == Seq::<TerminalEffect>::empty(),
{
}


/// An answer agrees where it is `y` or `yes`, in any case and with white space around it, and in no
/// other case; an empty line does not agree.
pub proof fn law_only_y_and_yes_agree(before: Seq<char>, word: Seq<char>, after: Seq<char>)
    requires
        text::blank(before),
        text::blank(after),
        word.len() > 0 ==> !text::is_white_space(word[0]) && !text::is_white_space(word.last()),
    ensures
        means_yes(before + word + after) == (text::same_ignoring_case(word, "y"@)
            || text::same_ignoring_case(word, "yes"@)),
        word.len() != 1 && word.len() != 3 ==> !means_yes(before + word + after),
        word.len() == 1 ==> means_yes(before + word + after) == (word[0] == 'y' || word[0] == 'Y'),
{
    text::law_trimming_takes_only_white_space(before, word, after);
    reveal_strlit("y");
    reveal_strlit("yes");
    assert(text::lowercased("y"@) =~= "y"@);
    assert(text::lowercased("yes"@) =~= "yes"@);
    assert(text::lowercased(word).len() == word.len());
    if word.len() == 1 {
        assert(text::lowercased(word)[0] == text::ascii_lower(word[0]));
        if word[0] == 'y' || word[0] == 'Y' {
            assert(text::ascii_lower('Y') as int == 'y' as int);
            assert(text::lowercased(word) =~= "y"@);
        } else {
            if 'A' <= word[0] <= 'Z' {
                assert(text::ascii_lower(word[0]) as int == word[0] as int + 32);
            }
            assert(text::lowercased(word)[0] != 'y');
        }
    }
}

/// Every phase that begins is named, and what it ends with, if anything, comes before it.
pub proof fn law_phase_begins_after_the_last(progress: UpdateProgress, i: int)
    ensures
        build_progress(progress).len() > 0,
        0 <= i < build_progress(progress).len() && build_progress(progress)[i] is Begin ==> i
            == build_progress(progress).len() - 1,
        0 <= i < flash_progress(progress).len() && flash_progress(progress)[i] is Begin ==> i
            == flash_progress(progress).len() - 1,
{
}

/// A running phase, and only a running one, is ended by a success or a failure that is shown.
pub proof fn law_outcomes_are_shown_of_running_phases(
    color: bool,
    interactive: bool,
    label: Seq<char>,
    message: Seq<char>,
)
    ensures
        rendered(color, interactive, None, UiText::Success(message)).len() == 0,
        rendered(color, interactive, None, UiText::Failure).len() == 0,
        rendered(color, interactive, Some(label), UiText::Success(message)).len() > 0,
        rendered(color, interactive, Some(label), UiText::Failure).len() > 0,
        rendered(color, interactive, Some(label), UiText::Success(message)).contains(
            TerminalEffect::Log("completed: "@ + message),
        ),
        rendered(color, interactive, Some(label), UiText::Failure).contains(
            TerminalEffect::Log("failed: "@ + label),
        ),
{
    let clear = cleared(interactive, true);
    let done = rendered(color, interactive, Some(label), UiText::Success(message));
    let failed = rendered(color, interactive, Some(label), UiText::Failure);
    assert(done[clear.len() as int] == TerminalEffect::Log("completed: "@ + message));
    assert(failed[clear.len() as int] == TerminalEffect::Log("failed: "@ + label));
}

/// Whether the output is coloured.
pub open spec fn shows_color(mode: ColorMode, is_terminal: bool, no_color: bool) -> bool {
    match mode {
        ColorMode::Auto => is_terminal && !no_color,
        ColorMode::Always => true,
        ColorMode::Never => false,
    }
}

/// A mode that was asked for decides alone; otherwise there is colour on a terminal whose user does
/// not refuse it.
pub proof fn law_asked_mode_decides_the_color(mode: ColorMode, is_terminal: bool, no_color: bool)
    ensures
        mode is Always ==> shows_color(mode, is_terminal, no_color),
        mode is Never ==> !shows_color(mode, is_terminal, no_color),
        mode is Auto && !is_terminal ==> !shows_color(mode, is_terminal, no_color),
        mode is Auto && no_color ==> !shows_color(mode, is_terminal, no_color),
        mode is Auto && is_terminal && !no_color ==> shows_color(mode, is_terminal, no_color),
{
}

/// A Linux host's firmware is installed, any other is flashed, and the summary counts its bytes.
pub proof fn law_summary_counts_the_bytes(config: Seq<char>, byte_count: nat)
    ensures
        kconfig::has_entry(config, "CONFIG_MACH_LINUX=y"@) ==> verb(config) == "installed"@,
        !kconfig::has_entry(config, "CONFIG_MACH_LINUX=y"@) ==> verb(config) == "flashed"@,
        summary(config, byte_count) == verb(config) + " "@ + text::decimal(byte_count) + " bytes"@,
{
}

/// Everything that is written is logged before it, as it was said.
pub proof fn law_what_is_shown_is_logged(
    color: bool,
    interactive: bool,
    active: Option<Seq<char>>,
    text: Seq<char>,
)
    ensures
        rendered(color, interactive, active, UiText::Action(text)) == seq![
            TerminalEffect::Log(text),
        ],
        ({
            let at = cleared(interactive, active is Some).len() as int;
            let block = rendered(color, interactive, active, UiText::Block(text));
            let heading = rendered(color, interactive, active, UiText::Heading(text));
            let prompt = rendered(color, interactive, active, UiText::Prompt(text));
            let begin = rendered(color, interactive, active, UiText::Begin(text));
            &&& block.len() == at + 2 && block[at] == TerminalEffect::Log(text::trimmed(text))
                && block[at + 1] == TerminalEffect::Write(text)
            &&& heading.len() == at + 2 && heading[at] == TerminalEffect::Log(text) && heading[at
                + 1] == TerminalEffect::Write("\n"@ + styled(color, "1"@, text) + "\n"@)
            &&& prompt.len() == at + 2 && prompt[at] == TerminalEffect::Log("prompt: "@ + text)
                && prompt[at + 1] == TerminalEffect::Write(
                "\n"@ + styled(color, "1"@, text) + " [y/N] "@,
            )
            &&& begin.len() == at + 2 && begin[at] == TerminalEffect::Log("starting: "@ + text)
            &&& interactive ==> begin[at + 1] == TerminalEffect::StartSpinner(text)
            &&& !interactive ==> begin[at + 1] == TerminalEffect::Write("  .."@ + text + "\n"@)
        }),
{
}

/// A running spinner is stopped before anything else is written, and there is none to stop where
/// nothing runs or nothing is animated.
pub proof fn law_spinner_is_stopped_first(
    color: bool,
    active: Option<Seq<char>>,
    output: UiText,
)
    requires
        active is Some,
        !(output is Action),
    ensures
        rendered(color, true, active, output).len() > 2,
        rendered(color, true, active, output)[0] == TerminalEffect::StopSpinner,
        cleared(true, false).len() == 0,
        cleared(false, true).len() == 0,
{
}

/// What runs is what began last; an action does not end it, and anything else does.
pub proof fn law_running_phase_is_the_last_begun(active: Option<Seq<char>>, output: UiText)
    ensures
        output is Begin ==> active_after(active, output) == Some(output->Begin_0),
        output is Action ==> active_after(active, output) == active,
        !(output is Begin) && !(output is Action) ==> active_after(active, output) is None,
{
}

/// Coloured text is the text itself between the code and the reset.
pub proof fn law_color_is_reset_after_the_text(code: Seq<char>, text: Seq<char>, message: Seq<char>)
    ensures
        styled(true, code, text) == "\u{1b}["@ + code + "m"@ + text + "\u{1b}[0m"@,
        success_text(true, true, message) == "  "@ + styled(true, "32"@, "\u{2713}"@) + " "@
            + message,
        success_text(true, false, message) == "  "@ + styled(true, "32"@, "[ok]"@) + " "@ + message,
        success_text(false, true, message) == "  "@ + "\u{2713}"@ + " "@ + message,
        failure_text(true, true, message) == "  "@ + styled(true, "31"@, "error"@) + " "@ + message,
        failure_text(false, false, message) == "  "@ + "[error]"@ + " "@ + message,
        message.is_suffix_of(success_text(true, true, message)),
        message.is_suffix_of(success_text(true, false, message)),
        message.is_suffix_of(success_text(false, true, message)),
        message.is_suffix_of(failure_text(true, true, message)),
        message.is_suffix_of(failure_text(false, false, message)),
{
    let a = success_text(true, true, message);
    let b = success_text(true, false, message);
    let c = success_text(false, true, message);
    let d = failure_text(true, true, message);
    let e = failure_text(false, false, message);
    assert(a.skip(a.len() - message.len()) =~= message);
    assert(b.skip(b.len() - message.len()) =~= message);
    assert(c.skip(c.len() - message.len()) =~= message);
    assert(d.skip(d.len() - message.len()) =~= message);
    assert(e.skip(e.len() - message.len()) =~= message);
}

/// What a phase of the update says has ended is what the phase before it began: stopping before
/// configuring, configuring before compiling, compiling before the bootloader is entered or the
/// host's firmware installed. Without a build, stopping comes right before these.
pub proof fn law_progress_names_the_phases()
    ensures
        build_progress(UpdateProgress::StoppingKlipper) == seq![UiText::Begin("stopping Klipper"@)],
        build_progress(UpdateProgress::ConfiguringFirmware)[0] == UiText::Success(
            "stopped Klipper"@,
        ),
        build_progress(UpdateProgress::ConfiguringFirmware)[1] == UiText::Begin(
            "configuring firmware"@,
        ),
        build_progress(UpdateProgress::CompilingFirmware)[0] == UiText::Success(
            "configured firmware"@,
        ),
        build_progress(UpdateProgress::CompilingFirmware)[1] == UiText::Begin(
            "compiling firmware"@,
        ),
        build_progress(UpdateProgress::EnteringBootloader)[0] == UiText::Success(
            "compiled firmware"@,
        ),
        build_progress(UpdateProgress::Installing)[0] == UiText::Success("compiled firmware"@),
        flash_progress(UpdateProgress::EnteringBootloader)[0] == UiText::Success(
            "stopped Klipper"@,
        ),
        flash_progress(UpdateProgress::Installing)[0] == UiText::Success("stopped Klipper"@),
        flash_progress(UpdateProgress::EnteringBootloader)[1] == build_progress(
            UpdateProgress::EnteringBootloader,
        )[1],
        flash_progress(UpdateProgress::Installing)[1] == build_progress(
            UpdateProgress::Installing,
        )[1],
        flash_progress(UpdateProgress::StartingFlash) == build_progress(
            UpdateProgress::StartingFlash,
        ),
{
}

} // verus!
