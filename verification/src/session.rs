//! The decisions of the application window and tray icon: what a toggle
//! does, which requests are acted on, and the hotkey dialog with its
//! recording of a new combination.

use vstd::prelude::*;
use vstd::string::*;

use crate::config::{hotkey_setting, hotkey_text, lemma_ascending_hotkey_round_trip};
use crate::hotkey::strictly_ascending;
use crate::ipc::{command_chars, IpcCommand};
use crate::keymap::{combo_label, combo_name};
use crate::text::same_text;

verus! {

/// Label of the toggle button while the clicker is stopped.
pub const START_LABEL: &'static str = "Start Clicking";

/// Label of the toggle button while the clicker runs.
pub const STOP_LABEL: &'static str = "Stop Clicking";

/// Status line while the clicker is stopped.
pub const STOPPED_STATUS: &'static str = "● Stopped";

/// Status line while the clicker runs.
pub const RUNNING_STATUS: &'static str = "● Running";

/// Label of the record button when not recording.
pub const RECORD_LABEL: &'static str = "Start Recording";

/// Label of the record button while recording.
pub const RECORDING_LABEL: &'static str = "Press your hotkey...";

/// Tray tooltip title while the clicker runs.
pub const TRAY_RUNNING_TITLE: &'static str = "Autoclicker: Running";

/// Tray tooltip title while the clicker is stopped.
pub const TRAY_STOPPED_TITLE: &'static str = "Autoclicker: Stopped";

/// Tray tooltip description.
pub const TRAY_DESCRIPTION: &'static str = "Left-click to show window\nRight-click for options";

/// Message the tray sends to show the window.
pub const SHOW_MESSAGE: &'static str = "show";

/// Message the tray sends to quit.
pub const QUIT_MESSAGE: &'static str = "quit";

/// What the interface does when the clicker is toggled.
pub struct ToggleOutcome {
    /// Start the clicker (else stop it).
    pub start: bool,
    /// New label of the toggle button.
    pub button_label: &'static str,
    /// New status line.
    pub status_text: &'static str,
    /// Whether the tray shows the clicker as running.
    pub tray_running: bool,
}

/// Whether `t` is the outcome of toggling a clicker that runs iff
/// `running`: a running one stops, a stopped one starts, and the labels
/// and the tray follow.
pub open spec fn toggles(t: ToggleOutcome, running: bool) -> bool {
    &&& t.start == !running
    &&& t.tray_running == !running
    &&& t.button_label@ == if running {
        START_LABEL@
    } else {
        STOP_LABEL@
    }
    &&& t.status_text@ == if running {
        STOPPED_STATUS@
    } else {
        RUNNING_STATUS@
    }
}

/// What toggling does, given whether the clicker runs.
pub fn toggle_outcome(running: bool) -> (t: ToggleOutcome)
    ensures
        toggles(t, running),
{
    if running {
        ToggleOutcome {
            start: false,
            button_label: START_LABEL,
            status_text: STOPPED_STATUS,
            tray_running: false,
        }
    } else {
        ToggleOutcome {
            start: true,
            button_label: STOP_LABEL,
            status_text: RUNNING_STATUS,
            tray_running: true,
        }
    }
}

/// The tray tooltip's title.
pub fn tray_title(running: bool) -> (title: &'static str)
    ensures
        title@ == if running {
            TRAY_RUNNING_TITLE@
        } else {
            TRAY_STOPPED_TITLE@
        },
{
    if running {
        TRAY_RUNNING_TITLE
    } else {
        TRAY_STOPPED_TITLE
    }
}

/// A request that reaches the window.
#[derive(Clone, Copy, Debug, PartialEq, Eq, Structural)]
pub enum UiRequest {
    /// Toggle the clicker.
    Toggle,
    /// Start the clicker, if it is stopped.
    Start,
    /// Stop the clicker, if it runs.
    Stop,
    /// Show the window.
    Show,
    /// Stop the clicker and quit.
    Quit,
    /// Nothing to do.
    Ignore,
}

/// What the window does with a message from the tray.
pub open spec fn tray_request_of(msg: Seq<char>) -> UiRequest {
    if msg == "toggle"@ {
        UiRequest::Toggle
    } else if msg == SHOW_MESSAGE@ {
        UiRequest::Show
    } else if msg == QUIT_MESSAGE@ {
        UiRequest::Quit
    } else {
        UiRequest::Ignore
    }
}

/// What the window does with a message from the tray.
pub fn tray_request(msg: &str) -> (r: UiRequest)
    ensures
        r == tray_request_of(msg@),
{
    if same_text(msg, "toggle") {
        UiRequest::Toggle
    } else if same_text(msg, SHOW_MESSAGE) {
        UiRequest::Show
    } else if same_text(msg, QUIT_MESSAGE) {
        UiRequest::Quit
    } else {
        UiRequest::Ignore
    }
}

/// What the window does with a command forwarded from the command channel.
pub open spec fn channel_request_of(msg: Seq<char>) -> UiRequest {
    if msg == "toggle"@ {
        UiRequest::Toggle
    } else if msg == "start"@ {
        UiRequest::Start
    } else if msg == "stop"@ {
        UiRequest::Stop
    } else {
        UiRequest::Ignore
    }
}

/// What the window does with a command forwarded from the command channel:
/// `"toggle"` toggles, `"start"` starts and `"stop"` stops the clicker.
pub fn channel_request(msg: &str) -> (r: UiRequest)
    ensures
        r == channel_request_of(msg@),
{
    if same_text(msg, "toggle") {
        UiRequest::Toggle
    } else if same_text(msg, "start") {
        UiRequest::Start
    } else if same_text(msg, "stop") {
        UiRequest::Stop
    } else {
        UiRequest::Ignore
    }
}

/// Whether a request changes the clicker, given whether it runs: a toggle
/// always does, a start only when it is stopped, a stop only when it runs.
pub open spec fn request_acts(request: UiRequest, running: bool) -> bool {
    match request {
        UiRequest::Toggle => true,
        UiRequest::Start => !running,
        UiRequest::Stop => running,
        _ => false,
    }
}

/// What the window does to the clicker for `request`, given whether it
/// runs: the outcome of toggling it when the request changes it (see
/// [`request_acts`]), else nothing.
pub fn request_outcome(request: UiRequest, running: bool) -> (outcome: Option<ToggleOutcome>)
    ensures
        match outcome {
            Some(t) => request_acts(request, running) && toggles(t, running),
            None => !request_acts(request, running),
        },
{
    let acts = match request {
        UiRequest::Toggle => true,
        UiRequest::Start => !running,
        UiRequest::Stop => running,
        _ => false,
    };
    if acts {
        Some(toggle_outcome(running))
    } else {
        None
    }
}

/// A start leaves the clicker running and a stop leaves it stopped,
/// whatever it was doing; repeating either changes nothing more.
pub proof fn lemma_start_stop_requests(running: bool, t: ToggleOutcome)
    ensures
        toggles(t, running) && request_acts(UiRequest::Start, running) ==> t.start && t.tray_running,
        toggles(t, running) && request_acts(UiRequest::Stop, running) ==> !t.start && !t.tray_running,
        !request_acts(UiRequest::Start, true),
        !request_acts(UiRequest::Stop, false),
{
}

/// The button number for the entry chosen in the button list (0 left,
/// 1 right, 2 middle), as `(index + 1) as u8` computes it.
pub fn button_for_choice(index: u32) -> (button: u8)
    requires
        index < 0xffff_ffff,
    ensures
        button == (index + 1) % 256,
{
    ((index + 1) % 256) as u8
}

/// The caption that shows a hotkey: `"Current: "` and its name.
pub open spec fn caption_of(combo: Seq<u16>) -> Seq<char> {
    "Current: "@ + combo_label(combo)
}

/// The caption that shows a hotkey.
pub fn hotkey_caption(combo: &Vec<u16>) -> (caption: String)
    ensures
        caption@ == caption_of(combo@),
{
    String::from_str("Current: ").concat(combo_name(combo).as_str())
}

/// Whether two key combinations are the same.
pub fn same_codes(a: &Vec<u16>, b: &Vec<u16>) -> (r: bool)
    ensures
        r == (a@ == b@),
{
    if a.len() != b.len() {
        return false;
    }
    let mut i: usize = 0;
    while i < a.len()
        invariant
            a.len() == b.len(),
            i <= a.len(),
            forall|j: int| 0 <= j < i ==> a@[j] == b@[j],
        decreases a.len() - i,
    {
        if a[i] != b[i] {
            return false;
        }
        i = i + 1;
    }
    assert(a@ =~= b@);
    true
}

/// What happens to a key combination pressed while the application runs.
#[derive(Clone, Copy, Debug, PartialEq, Eq, Structural)]
pub enum ComboOutcome {
    /// It was recorded as the dialog's new hotkey.
    Recorded,
    /// It is the saved hotkey: toggle the clicker.
    Toggle,
    /// Nothing to do.
    Ignored,
}

/// The state of the hotkey dialog: whether a combination is being
/// recorded, whether the dialog is open, and the hotkey it shows.
pub struct SessionState {
    pub recording: bool,
    pub dialog_open: bool,
    pub pending: Seq<u16>,
}

/// The state and outcome after the combination `combo` is pressed, with
/// `saved` the hotkey in the settings: while recording, it becomes the
/// dialog's hotkey and recording stops; else, with the dialog closed, it
/// toggles the clicker when it is the saved hotkey and that is not empty.
pub open spec fn combo_step(s: SessionState, combo: Seq<u16>, saved: Seq<u16>) -> (SessionState, ComboOutcome) {
    if s.recording {
        (SessionState { recording: false, dialog_open: s.dialog_open, pending: combo }, ComboOutcome::Recorded)
    } else if !s.dialog_open && saved.len() > 0 && combo == saved {
        (s, ComboOutcome::Toggle)
    } else {
        (s, ComboOutcome::Ignored)
    }
}

/// The hotkey dialog and its recording.
pub struct HotkeySession {
    recording: bool,
    dialog_open: bool,
    pending: Vec<u16>,
}

impl View for HotkeySession {
    type V = SessionState;

    closed spec fn view(&self) -> SessionState {
        SessionState { recording: self.recording, dialog_open: self.dialog_open, pending: self.pending@ }
    }
}

impl HotkeySession {
    /// No dialog open, not recording.
    pub fn new() -> (s: HotkeySession)
        ensures
            s@ == (SessionState { recording: false, dialog_open: false, pending: Seq::<u16>::empty() }),
    {
        HotkeySession { recording: false, dialog_open: false, pending: Vec::new() }
    }

    /// Whether a combination is being recorded.
    pub fn is_recording(&self) -> (r: bool)
        ensures
            r == self@.recording,
    {
        self.recording
    }

    /// Whether the dialog is open.
    pub fn is_dialog_open(&self) -> (r: bool)
        ensures
            r == self@.dialog_open,
    {
        self.dialog_open
    }

    /// The hotkey that the dialog shows.
    pub fn pending(&self) -> (combo: Vec<u16>)
        ensures
            combo@ == self@.pending,
    {
        self.pending.clone()
    }

    /// Opens the dialog, showing the saved hotkey.
    pub fn open_dialog(&mut self, saved: Vec<u16>)
        ensures
            final(self)@ == (SessionState {
                recording: old(self)@.recording,
                dialog_open: true,
                pending: saved@,
            }),
    {
        self.pending = saved;
        self.dialog_open = true;
    }

    /// Starts or stops recording; gives the record button's new label.
    pub fn toggle_recording(&mut self) -> (label: &'static str)
        ensures
            final(self)@ == (SessionState { recording: !old(self)@.recording, ..old(self)@ }),
            label@ == if old(self)@.recording {
                RECORD_LABEL@
            } else {
                RECORDING_LABEL@
            },
    {
        if self.recording {
            self.recording = false;
            RECORD_LABEL
        } else {
            self.recording = true;
            RECORDING_LABEL
        }
    }

    /// Confirms the dialog: it closes, and its hotkey is to be saved.
    pub fn confirm(&mut self) -> (combo: Vec<u16>)
        ensures
            combo@ == old(self)@.pending,
            final(self)@ == (SessionState { dialog_open: false, ..old(self)@ }),
    {
        self.dialog_open = false;
        self.pending.clone()
    }

    /// Closes the dialog without saving (cancel, or the window closed).
    pub fn close_dialog(&mut self)
        ensures
            final(self)@ == (SessionState { dialog_open: false, ..old(self)@ }),
    {
        self.dialog_open = false;
    }

    /// Takes a combination pressed on any input device; `saved` is the
    /// hotkey in the settings.
    pub fn on_combo(&mut self, combo: Vec<u16>, saved: &Vec<u16>) -> (outcome: ComboOutcome)
        ensures
            (final(self)@, outcome) == combo_step(old(self)@, combo@, saved@),
    {
        if self.recording {
            self.recording = false;
            self.pending = combo;
            return ComboOutcome::Recorded;
        }
        if !self.dialog_open && saved.len() > 0 && same_codes(&combo, saved) {
            ComboOutcome::Toggle
        } else {
            ComboOutcome::Ignored
        }
    }
}

/// Recording a combination in the open dialog and confirming it hands
/// that combination over to be saved, and closes the dialog.
pub proof fn lemma_record_then_confirm(s: SessionState, combo: Seq<u16>, saved: Seq<u16>)
    requires
        s.recording,
        s.dialog_open,
    ensures
        combo_step(s, combo, saved).1 == ComboOutcome::Recorded,
        combo_step(s, combo, saved).0.pending == combo,
        !combo_step(s, combo, saved).0.recording,
        combo_step(s, combo, saved).0.dialog_open,
{
}

/// The hotkey toggles the clicker only when nothing is being recorded, the
/// dialog is closed, and it is the saved, non-empty hotkey; and a toggle
/// leaves the dialog state as it was.
pub proof fn lemma_toggle_only_on_saved(s: SessionState, combo: Seq<u16>, saved: Seq<u16>)
    ensures
        combo_step(s, combo, saved).1 == ComboOutcome::Toggle <==> (!s.recording && !s.dialog_open
            && saved.len() > 0 && combo == saved),
        combo_step(s, combo, saved).1 != ComboOutcome::Recorded ==> combo_step(s, combo, saved).0 == s,
{
}

/// A hotkey recorded from the key listener, once saved and read back, is
/// recognized: pressing the same combination again, with the dialog closed
/// and nothing being recorded, toggles the clicker.
pub proof fn lemma_saved_hotkey_toggles(s: SessionState, combo: Seq<u16>)
    requires
        strictly_ascending(combo),
        combo.len() > 0,
        !s.recording,
        !s.dialog_open,
    ensures
        combo_step(s, combo, hotkey_setting(hotkey_text(combo))).1 == ComboOutcome::Toggle,
{
    lemma_ascending_hotkey_round_trip(combo);
}

/// A combination pressed while nothing is being recorded never changes the
/// session, and with the dialog open it is ignored: only recording takes a
/// combination into the dialog.
pub proof fn lemma_idle_combo_keeps_session(s: SessionState, combo: Seq<u16>, saved: Seq<u16>)
    ensures
        !s.recording ==> combo_step(s, combo, saved).0 == s,
        !s.recording && s.dialog_open ==> combo_step(s, combo, saved).1 == ComboOutcome::Ignored,
        combo_step(s, combo, saved).1 == ComboOutcome::Recorded <==> s.recording,
        combo_step(s, combo, saved).0.pending == if s.recording {
            combo
        } else {
            s.pending
        },
{
}

/// The command sent for `toggle`, `start` or `stop` makes the window
/// toggle, start or stop the clicker, in that order.
pub proof fn lemma_sent_commands_act()
    ensures
        channel_request_of(command_chars(IpcCommand::Toggle)) == UiRequest::Toggle,
        channel_request_of(command_chars(IpcCommand::Start)) == UiRequest::Start,
        channel_request_of(command_chars(IpcCommand::Stop)) == UiRequest::Stop,
{
    reveal_strlit("toggle");
    reveal_strlit("start");
    reveal_strlit("stop");
    assert("toggle"@.len() == 6 && "start"@.len() == 5 && "stop"@.len() == 4);
}

} // verus!
