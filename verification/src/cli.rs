//! The command line: its subcommands and what each one asks for.

use vstd::prelude::*;
use vstd::string::*;

use crate::clicker::button_code;
use crate::ipc::{command_chars, IpcCommand};
use crate::text::same_text;

verus! {

/// Button that `click` presses when none is named.
pub const DEFAULT_CLICK_BUTTON: &'static str = "left";

/// How long a single click keeps the clicker running, in milliseconds.
pub const SINGLE_CLICK_MS: u64 = 20;

/// A subcommand of the command line.
pub enum CliCommand {
    /// Toggle the running application's clicker.
    Toggle,
    /// Start the running application's clicker.
    Start,
    /// Stop the running application's clicker.
    Stop,
    /// Click once with the named button.
    Click { button: String },
}

/// What an invocation of the program does.
pub enum Invocation {
    /// Send a command to the running application.
    Send(IpcCommand),
    /// Click once with this button number.
    Click(u8),
    /// Report this error and exit with failure.
    Fail(String),
    /// Run the application window.
    Gui,
}

/// The button number that `click` accepts for a name.
pub open spec fn button_number(name: Seq<char>) -> Option<u8> {
    if name == "left"@ {
        Some(1)
    } else if name == "right"@ {
        Some(2)
    } else if name == "middle"@ {
        Some(3)
    } else {
        None
    }
}

/// The message for a button name that `click` does not know.
pub open spec fn invalid_button_message(name: Seq<char>) -> Seq<char> {
    "Invalid button '"@ + name + "'. Use: left, right, middle"@
}

/// The button number for a name given to `click`: left 1, right 2,
/// middle 3.
pub fn click_button(name: &str) -> (button: Option<u8>)
    ensures
        button == button_number(name@),
{
    if same_text(name, "left") {
        Some(1)
    } else if same_text(name, "right") {
        Some(2)
    } else if same_text(name, "middle") {
        Some(3)
    } else {
        None
    }
}

/// Whether `inv` is what the program does for the subcommand `cmd`.
pub open spec fn invocation_for(cmd: Option<CliCommand>, inv: Invocation) -> bool {
    match cmd {
        None => inv is Gui,
        Some(CliCommand::Toggle) => inv == Invocation::Send(IpcCommand::Toggle),
        Some(CliCommand::Start) => inv == Invocation::Send(IpcCommand::Start),
        Some(CliCommand::Stop) => inv == Invocation::Send(IpcCommand::Stop),
        Some(CliCommand::Click { button }) => match button_number(button@) {
            Some(b) => inv == Invocation::Click(b),
            None => inv matches Invocation::Fail(msg) && msg@ == invalid_button_message(button@),
        },
    }
}

/// What the program does for a subcommand (`None` when none is given).
pub fn plan(cmd: Option<CliCommand>) -> (inv: Invocation)
    ensures
        invocation_for(cmd, inv),
{
    match cmd {
        None => Invocation::Gui,
        Some(CliCommand::Toggle) => Invocation::Send(IpcCommand::Toggle),
        Some(CliCommand::Start) => Invocation::Send(IpcCommand::Start),
        Some(CliCommand::Stop) => Invocation::Send(IpcCommand::Stop),
        Some(CliCommand::Click { button }) => match click_button(button.as_str()) {
            Some(b) => Invocation::Click(b),
            None => Invocation::Fail(
                String::from_str("Invalid button '").concat(button.as_str()).concat(
                    "'. Use: left, right, middle",
                ),
            ),
        },
    }
}

/// The `toggle`, `start` and `stop` subcommands send the command of the
/// same name, and `click left`, `click right` and `click middle` press the
/// left (0x110), right (0x111) and middle (0x112) button of the device.
pub proof fn lemma_subcommands_do_what_they_say(inv: Invocation)
    ensures
        invocation_for(Some(CliCommand::Toggle), inv) ==> (inv matches Invocation::Send(c)
            && command_chars(c) == "toggle"@),
        invocation_for(Some(CliCommand::Start), inv) ==> (inv matches Invocation::Send(c)
            && command_chars(c) == "start"@),
        invocation_for(Some(CliCommand::Stop), inv) ==> (inv matches Invocation::Send(c)
            && command_chars(c) == "stop"@),
        button_number("left"@) matches Some(b) && button_code(b) == 0x110,
        button_number("right"@) matches Some(b) && button_code(b) == 0x111,
        button_number("middle"@) matches Some(b) && button_code(b) == 0x112,
{
    reveal_strlit("left");
    reveal_strlit("right");
    reveal_strlit("middle");
    assert("left"@.len() == 4 && "right"@.len() == 5 && "middle"@.len() == 6);
}

} // verus!
