//! The clicking engine: the clicker's settings and running state, and the
//! decisions of the loop that presses and releases the button.
//!
//! The loop is a state machine: [`click_step`] takes the loop's phase and
//! what it reads of the clicker at that moment, and gives the next phase
//! and one action (send a button report, sleep, or finish). The caller
//! performs the action on the virtual device and calls it again.

use vstd::prelude::*;
use vstd::string::*;

verus! {

/// Raw evdev code of the left mouse button.
pub const BTN_LEFT: u16 = 0x110;

/// Raw evdev code of the right mouse button.
pub const BTN_RIGHT: u16 = 0x111;

/// Raw evdev code of the middle mouse button.
pub const BTN_MIDDLE: u16 = 0x112;

/// Raw evdev code of the side mouse button.
pub const BTN_SIDE: u16 = 0x113;

/// Raw evdev code of the extra mouse button.
pub const BTN_EXTRA: u16 = 0x114;

/// evdev event type of synchronization events.
pub const EV_SYN: u16 = 0x00;

/// evdev event type of key and button events.
pub const EV_KEY: u16 = 0x01;

/// evdev code of the report that closes a batch of events.
pub const SYN_REPORT: u16 = 0x00;

/// evdev code of the horizontal relative axis.
pub const REL_X: u16 = 0x00;

/// evdev code of the vertical relative axis.
pub const REL_Y: u16 = 0x01;

/// evdev code of the wheel relative axis.
pub const REL_WHEEL: u16 = 0x08;

/// Name under which the virtual mouse registers itself.
pub const DEVICE_NAME: &'static str = "Autoclicker Virtual Mouse";

/// Interval of a new clicker, in milliseconds.
pub const INITIAL_INTERVAL_MS: u64 = 100;

/// Button of a new clicker (1 is the left button).
pub const INITIAL_BUTTON: u8 = 1;

/// Longest single sleep while waiting out an interval, in milliseconds, so
/// that a stop is noticed quickly.
pub const WAIT_SLICE_MS: u64 = 5;

/// How long the button stays down in one click, in milliseconds.
pub const HOLD_MS: u64 = 1;

/// The evdev code of button number `button` (1 left, 2 right, 3 middle,
/// 4 side, 5 extra); any other number means the left button.
pub open spec fn button_code(button: u8) -> u16 {
    if button == 2 {
        BTN_RIGHT
    } else if button == 3 {
        BTN_MIDDLE
    } else if button == 4 {
        BTN_SIDE
    } else if button == 5 {
        BTN_EXTRA
    } else {
        BTN_LEFT
    }
}

/// The evdev code of button number `button`.
pub fn button_to_code(button: u8) -> (code: u16)
    ensures
        code == button_code(button),
{
    match button {
        1 => BTN_LEFT,
        2 => BTN_RIGHT,
        3 => BTN_MIDDLE,
        4 => BTN_SIDE,
        5 => BTN_EXTRA,
        _ => BTN_LEFT,
    }
}

/// The buttons that the virtual mouse declares.
pub fn device_buttons() -> (codes: Vec<u16>)
    ensures
        codes@ == seq![BTN_LEFT, BTN_RIGHT, BTN_MIDDLE, BTN_SIDE, BTN_EXTRA],
{
    vec![BTN_LEFT, BTN_RIGHT, BTN_MIDDLE, BTN_SIDE, BTN_EXTRA]
}

/// The relative axes that the virtual mouse declares.
pub fn device_axes() -> (codes: Vec<u16>)
    ensures
        codes@ == seq![REL_X, REL_Y, REL_WHEEL],
{
    vec![REL_X, REL_Y, REL_WHEEL]
}

/// One input event, as plain values: its type, code and value.
#[derive(Clone, Copy, Debug, PartialEq, Eq, Structural)]
pub struct InputRecord {
    pub kind: u16,
    pub code: u16,
    pub value: i32,
}

/// The events of one button report: the button event, then the
/// synchronization report.
pub open spec fn report_records(code: u16, value: i32) -> Seq<InputRecord> {
    seq![
        InputRecord { kind: EV_KEY, code: code, value: value },
        InputRecord { kind: EV_SYN, code: SYN_REPORT, value: 0 },
    ]
}

/// A report is one key event that carries exactly the given button and
/// value, followed by a synchronization; so a release (value 0) differs
/// from a press (value 1) of the same button.
pub proof fn lemma_report_carries_value(code: u16, value: i32)
    ensures
        report_records(code, value).len() == 2,
        report_records(code, value)[0].kind == EV_KEY,
        report_records(code, value)[0].code == code,
        report_records(code, value)[0].value == value,
        report_records(code, value)[1] == (InputRecord { kind: EV_SYN, code: SYN_REPORT, value: 0 }),
        report_records(code, 0) != report_records(code, 1),
{
    assert(report_records(code, 0)[0].value != report_records(code, 1)[0].value);
}

/// The events that report button `code` with `value` (1 pressed, 0
/// released).
pub fn report_events(code: u16, value: i32) -> (events: Vec<InputRecord>)
    ensures
        events@ == report_records(code, value),
{
    let mut events = Vec::new();
    events.push(InputRecord { kind: EV_KEY, code: code, value: value });
    events.push(InputRecord { kind: EV_SYN, code: SYN_REPORT, value: 0 });
    assert(events@ =~= report_records(code, value));
    events
}

/// What a clicker holds: whether it runs, its interval, its button, and
/// whether a clicking worker has been started and not yet joined.
#[derive(Clone, Copy, Debug, PartialEq, Eq, Structural)]
pub struct ClickerState {
    pub running: bool,
    pub interval_ms: u64,
    pub button: u8,
    pub worker: bool,
}

/// What the owner of a clicker has to do after a start or a stop.
#[derive(Clone, Copy, Debug, PartialEq, Eq, Structural)]
pub enum WorkerAction {
    /// Nothing.
    Nothing,
    /// Start a worker that runs the click loop.
    Spawn,
    /// Wait for the worker to finish.
    Join,
}

/// The state and action after a start: a running clicker is left as it is;
/// a stopped one runs, with a new worker.
pub open spec fn started(s: ClickerState) -> (ClickerState, WorkerAction) {
    if s.running {
        (s, WorkerAction::Nothing)
    } else {
        (ClickerState { running: true, worker: true, ..s }, WorkerAction::Spawn)
    }
}

/// The state and action after a stop: the clicker no longer runs, and a
/// started worker is waited for.
pub open spec fn stopped(s: ClickerState) -> (ClickerState, WorkerAction) {
    (
        ClickerState { running: false, worker: false, ..s },
        if s.worker {
            WorkerAction::Join
        } else {
            WorkerAction::Nothing
        },
    )
}

/// The clicker's settings and running state.
pub struct Clicker {
    running: bool,
    interval_ms: u64,
    button: u8,
    worker: bool,
}

impl View for Clicker {
    type V = ClickerState;

    closed spec fn view(&self) -> ClickerState {
        ClickerState {
            running: self.running,
            interval_ms: self.interval_ms,
            button: self.button,
            worker: self.worker,
        }
    }
}

impl Clicker {
    /// The clicker's interval is never below one millisecond, and a worker
    /// has been started exactly while the clicker runs.
    #[verifier::type_invariant]
    spec fn interval_positive(self) -> bool {
        &&& self.interval_ms >= 1
        &&& self.worker == self.running
    }

    /// A stopped clicker with an interval of 100 ms and the left button.
    pub fn new() -> (c: Clicker)
        ensures
            c@ == (ClickerState {
                running: false,
                interval_ms: INITIAL_INTERVAL_MS,
                button: INITIAL_BUTTON,
                worker: false,
            }),
    {
        Clicker {
            running: false,
            interval_ms: INITIAL_INTERVAL_MS,
            button: INITIAL_BUTTON,
            worker: false,
        }
    }

    /// Sets the interval, raised to at least one millisecond.
    pub fn set_interval(&mut self, ms: u64)
        ensures
            final(self)@ == (ClickerState {
                interval_ms: if ms >= 1 { ms } else { 1 },
                ..old(self)@
            }),
    {
        proof {
            use_type_invariant(&*self);
        }
        let clamped = if ms >= 1 { ms } else { 1 };
        self.interval_ms = clamped;
    }

    /// Sets the button number (see [`button_to_code`]).
    pub fn set_button(&mut self, button: u8)
        ensures
            final(self)@ == (ClickerState { button: button, ..old(self)@ }),
    {
        proof {
            use_type_invariant(&*self);
        }
        self.button = button;
    }

    /// Whether the clicker runs.
    pub fn is_running(&self) -> (r: bool)
        ensures
            r == self@.running,
            self@.worker == self@.running,
    {
        proof {
            use_type_invariant(self);
        }
        self.running
    }

    /// The interval, in milliseconds.
    pub fn interval_ms(&self) -> (ms: u64)
        ensures
            ms == self@.interval_ms,
            ms >= 1,
    {
        proof {
            use_type_invariant(self);
        }
        self.interval_ms
    }

    /// The button number.
    pub fn button(&self) -> (b: u8)
        ensures
            b == self@.button,
    {
        self.button
    }

    /// Starts clicking, unless the clicker already runs.
    pub fn start(&mut self) -> (action: WorkerAction)
        ensures
            (final(self)@, action) == started(old(self)@),
    {
        proof {
            use_type_invariant(&*self);
        }
        if self.running {
            return WorkerAction::Nothing;
        }
        *self = Clicker { running: true, interval_ms: self.interval_ms, button: self.button, worker: true };
        WorkerAction::Spawn
    }

    /// Stops clicking; the worker, if one was started, has to be joined.
    pub fn stop(&mut self) -> (action: WorkerAction)
        ensures
            (final(self)@, action) == stopped(old(self)@),
    {
        proof {
            use_type_invariant(&*self);
        }
        let had_worker = self.worker;
        *self = Clicker { running: false, interval_ms: self.interval_ms, button: self.button, worker: false };
        if had_worker {
            WorkerAction::Join
        } else {
            WorkerAction::Nothing
        }
    }
}

/// Starting a clicker that runs changes nothing; starting one twice is
/// the same as starting it once.
pub proof fn lemma_start_idempotent(s: ClickerState)
    ensures
        started(started(s).0) == (started(s).0, WorkerAction::Nothing),
        started(s).0.running,
{
}

/// After a start and a stop the clicker is stopped, its worker is joined,
/// and its settings are those it had before.
pub proof fn lemma_start_then_stop(s: ClickerState)
    requires
        !s.running,
        !s.worker,
    ensures
        stopped(started(s).0).0 == s,
        started(s).1 == WorkerAction::Spawn,
        stopped(started(s).0).1 == WorkerAction::Join,
{
}

/// Stopping leaves a clicker stopped with no worker, whatever it was
/// doing, and keeps its settings.
pub proof fn lemma_stop_stops(s: ClickerState)
    ensures
        !stopped(s).0.running,
        !stopped(s).0.worker,
        stopped(s).0.interval_ms == s.interval_ms,
        stopped(s).0.button == s.button,
        stopped(stopped(s).0) == (stopped(s).0, WorkerAction::Nothing),
{
}

/// Where the click loop is.
#[derive(Clone, Copy, Debug, PartialEq, Eq, Structural)]
pub enum LoopPhase {
    /// At the top of the loop: about to decide whether to click again.
    Top,
    /// The button `code` has just been reported pressed.
    Pressed { code: u16 },
    /// The button `code` has been held down long enough.
    Held { code: u16 },
    /// Waiting out the interval; `remaining` milliseconds are left.
    Waiting { remaining: u64 },
    /// The loop has ended.
    Finished,
}

/// One thing the click loop asks its runner to do.
#[derive(Clone, Copy, Debug, PartialEq, Eq, Structural)]
pub enum LoopAction {
    /// Send the events of [`report_events`] for `code` and `value`.
    Report { code: u16, value: i32 },
    /// Sleep this many milliseconds.
    Sleep { ms: u64 },
    /// End the loop.
    Exit,
}

/// One step from the top of the loop: finish if the clicker no longer
/// runs, else press its button.
pub open spec fn top_step(running: bool, button: u8) -> (LoopPhase, LoopAction) {
    if running {
        (
            LoopPhase::Pressed { code: button_code(button) },
            LoopAction::Report { code: button_code(button), value: 1 },
        )
    } else {
        (LoopPhase::Finished, LoopAction::Exit)
    }
}

/// One step of the click loop, given its phase and what it reads of the
/// clicker now: whether it runs, its button and its interval.
pub open spec fn loop_step(phase: LoopPhase, running: bool, button: u8, interval_ms: u64) -> (
    LoopPhase,
    LoopAction,
) {
    match phase {
        LoopPhase::Top => top_step(running, button),
        LoopPhase::Pressed { code } => (LoopPhase::Held { code }, LoopAction::Sleep { ms: HOLD_MS }),
        LoopPhase::Held { code } => (
            LoopPhase::Waiting { remaining: interval_ms },
            LoopAction::Report { code, value: 0 },
        ),
        LoopPhase::Waiting { remaining } => if remaining > 0 && running {
            let slice = if remaining < WAIT_SLICE_MS {
                remaining
            } else {
                WAIT_SLICE_MS
            };
            (LoopPhase::Waiting { remaining: (remaining - slice) as u64 }, LoopAction::Sleep { ms: slice })
        } else {
            top_step(running, button)
        },
        LoopPhase::Finished => (LoopPhase::Finished, LoopAction::Exit),
    }
}

/// One step of the click loop (see [`loop_step`]).
pub fn click_step(phase: LoopPhase, running: bool, button: u8, interval_ms: u64) -> (next: (
    LoopPhase,
    LoopAction,
))
    ensures
        next == loop_step(phase, running, button, interval_ms),
{
    match phase {
        LoopPhase::Top => step_from_top(running, button),
        LoopPhase::Pressed { code } => (LoopPhase::Held { code }, LoopAction::Sleep { ms: HOLD_MS }),
        LoopPhase::Held { code } => (
            LoopPhase::Waiting { remaining: interval_ms },
            LoopAction::Report { code, value: 0 },
        ),
        LoopPhase::Waiting { remaining } => {
            if remaining > 0 && running {
                let slice = if remaining < WAIT_SLICE_MS {
                    remaining
                } else {
                    WAIT_SLICE_MS
                };
                (LoopPhase::Waiting { remaining: remaining - slice }, LoopAction::Sleep { ms: slice })
            } else {
                step_from_top(running, button)
            }
        },
        LoopPhase::Finished => (LoopPhase::Finished, LoopAction::Exit),
    }
}

fn step_from_top(running: bool, button: u8) -> (next: (LoopPhase, LoopAction))
    ensures
        next == top_step(running, button),
{
    if running {
        let code = button_to_code(button);
        (LoopPhase::Pressed { code }, LoopAction::Report { code, value: 1 })
    } else {
        (LoopPhase::Finished, LoopAction::Exit)
    }
}

/// The actions of `k` steps of the loop from `phase`, while the clicker
/// keeps running with the same button and interval.
pub open spec fn run_actions(phase: LoopPhase, button: u8, interval_ms: u64, k: nat) -> Seq<LoopAction>
    decreases k,
{
    if k == 0 {
        Seq::empty()
    } else {
        let (next, action) = loop_step(phase, true, button, interval_ms);
        seq![action] + run_actions(next, button, interval_ms, (k - 1) as nat)
    }
}

/// The phase after `k` steps of the loop from `phase`, while the clicker
/// keeps running with the same button and interval.
pub open spec fn run_phase(phase: LoopPhase, button: u8, interval_ms: u64, k: nat) -> LoopPhase
    decreases k,
{
    if k == 0 {
        phase
    } else {
        run_phase(loop_step(phase, true, button, interval_ms).0, button, interval_ms, (k - 1) as nat)
    }
}

/// The sleeps that wait out `remaining` milliseconds: slices of five
/// milliseconds, and the rest last.
pub open spec fn wait_slices(remaining: nat) -> Seq<nat>
    decreases remaining,
{
    if remaining == 0 {
        Seq::empty()
    } else {
        let slice: nat = if remaining < 5 {
            remaining
        } else {
            5
        };
        seq![slice] + wait_slices((remaining - slice) as nat)
    }
}

/// The sum of `s`.
pub open spec fn total(s: Seq<nat>) -> nat
    decreases s.len(),
{
    if s.len() == 0 {
        0
    } else {
        s[0] + total(s.drop_first())
    }
}

/// The sleep actions for the slices of `remaining`.
pub open spec fn wait_actions(remaining: nat) -> Seq<LoopAction> {
    wait_slices(remaining).map_values(|ms: nat| LoopAction::Sleep { ms: ms as u64 })
}

/// The slices that wait out an interval add up to it, and each lasts from
/// one to five milliseconds.
pub proof fn lemma_wait_slices(remaining: nat)
    ensures
        total(wait_slices(remaining)) == remaining,
        forall|i: int| 0 <= i < wait_slices(remaining).len() ==> 1 <= #[trigger] wait_slices(remaining)[i] <= 5,
    decreases remaining,
{
    if remaining > 0 {
        let slice: nat = if remaining < 5 {
            remaining
        } else {
            5
        };
        lemma_wait_slices((remaining - slice) as nat);
        let s = wait_slices(remaining);
        assert(s.drop_first() =~= wait_slices((remaining - slice) as nat));
        assert forall|i: int| 0 <= i < s.len() implies 1 <= #[trigger] s[i] <= 5 by {
            if i > 0 {
                assert(s[i] == wait_slices((remaining - slice) as nat)[i - 1]);
            }
        }
    }
}

proof fn lemma_run_split(phase: LoopPhase, button: u8, interval_ms: u64, j: nat, k: nat)
    ensures
        run_actions(phase, button, interval_ms, j + k) == run_actions(phase, button, interval_ms, j)
            + run_actions(run_phase(phase, button, interval_ms, j), button, interval_ms, k),
        run_phase(phase, button, interval_ms, j + k) == run_phase(
            run_phase(phase, button, interval_ms, j),
            button,
            interval_ms,
            k,
        ),
    decreases j,
{
    if j == 0 {
        assert(run_actions(phase, button, interval_ms, 0) =~= Seq::<LoopAction>::empty());
        assert(Seq::<LoopAction>::empty() + run_actions(phase, button, interval_ms, k) =~= run_actions(phase, button, interval_ms, k));
    } else {
        let next = loop_step(phase, true, button, interval_ms).0;
        lemma_run_split(next, button, interval_ms, (j - 1) as nat, k);
        assert((j + k - 1) as nat == ((j - 1) as nat + k) as nat);
        let a = loop_step(phase, true, button, interval_ms).1;
        assert(seq![a] + (run_actions(next, button, interval_ms, (j - 1) as nat) + run_actions(
            run_phase(next, button, interval_ms, (j - 1) as nat),
            button,
            interval_ms,
            k,
        )) =~= (seq![a] + run_actions(next, button, interval_ms, (j - 1) as nat)) + run_actions(
            run_phase(next, button, interval_ms, (j - 1) as nat),
            button,
            interval_ms,
            k,
        ));
    }
}

/// While the clicker runs, waiting out `remaining` milliseconds takes the
/// sleeps of [`wait_slices`] and ends with nothing left to wait.
pub proof fn lemma_wait_run(remaining: u64, button: u8, interval_ms: u64)
    ensures
        run_actions(
            LoopPhase::Waiting { remaining },
            button,
            interval_ms,
            wait_slices(remaining as nat).len(),
        ) == wait_actions(remaining as nat),
        run_phase(LoopPhase::Waiting { remaining }, button, interval_ms, wait_slices(remaining as nat).len())
            == (LoopPhase::Waiting { remaining: 0 }),
    decreases remaining,
{
    if remaining == 0 {
        assert(wait_actions(0) =~= Seq::<LoopAction>::empty());
    } else {
        let slice: u64 = if remaining < 5 {
            remaining
        } else {
            5
        };
        let rest = (remaining - slice) as u64;
        lemma_wait_run(rest, button, interval_ms);
        assert(wait_slices(remaining as nat) =~= seq![slice as nat] + wait_slices(rest as nat));
        let n = wait_slices(rest as nat).len();
        assert(wait_slices(remaining as nat).len() == n + 1);
        assert(loop_step(LoopPhase::Waiting { remaining }, true, button, interval_ms) == (
            LoopPhase::Waiting { remaining: rest },
            LoopAction::Sleep { ms: slice },
        ));
        assert(wait_actions(remaining as nat) =~= seq![LoopAction::Sleep { ms: slice }] + wait_actions(
            rest as nat,
        ));
    }
}

/// One click cycle: while the clicker runs with button `button` and
/// interval `interval_ms`, the loop from its top presses the button,
/// holds it one millisecond, releases it, then sleeps in slices that add
/// up to the interval, and is back at a point where it decides whether to
/// click again.
pub proof fn lemma_click_cycle(button: u8, interval_ms: u64)
    ensures
        run_actions(LoopPhase::Top, button, interval_ms, 3 + wait_slices(interval_ms as nat).len())
            == seq![
            LoopAction::Report { code: button_code(button), value: 1 },
            LoopAction::Sleep { ms: HOLD_MS },
            LoopAction::Report { code: button_code(button), value: 0 },
        ] + wait_actions(interval_ms as nat),
        run_phase(LoopPhase::Top, button, interval_ms, 3 + wait_slices(interval_ms as nat).len())
            == (LoopPhase::Waiting { remaining: 0 }),
        total(wait_slices(interval_ms as nat)) == interval_ms,
        loop_step(LoopPhase::Waiting { remaining: 0 }, true, button, interval_ms) == loop_step(
            LoopPhase::Top,
            true,
            button,
            interval_ms,
        ),
{
    let code = button_code(button);
    let n = wait_slices(interval_ms as nat).len();
    lemma_run_split(LoopPhase::Top, button, interval_ms, 3, n);
    lemma_wait_run(interval_ms, button, interval_ms);
    lemma_wait_slices(interval_ms as nat);
    reveal_with_fuel(run_actions, 4);
    reveal_with_fuel(run_phase, 4);
    assert(run_phase(LoopPhase::Top, button, interval_ms, 3) == (LoopPhase::Waiting { remaining: interval_ms }));
    assert(run_actions(LoopPhase::Top, button, interval_ms, 3) =~= seq![
        LoopAction::Report { code, value: 1 },
        LoopAction::Sleep { ms: HOLD_MS },
        LoopAction::Report { code, value: 0 },
    ]);
}

/// Once the clicker is stopped, the loop ends at its next decision, and
/// an ended loop stays ended.
pub proof fn lemma_stop_ends_loop(phase: LoopPhase, button: u8, interval_ms: u64)
    ensures
        (phase is Top || phase is Waiting || phase is Finished) ==> loop_step(phase, false, button, interval_ms)
            == (LoopPhase::Finished, LoopAction::Exit),
        loop_step(LoopPhase::Finished, true, button, interval_ms) == (LoopPhase::Finished, LoopAction::Exit),
{
}


/// Whether the loop has the button down in `phase`.
pub open spec fn button_down(phase: LoopPhase) -> bool {
    phase is Pressed || phase is Held
}

/// The button that is down in `phase` (meaningful when one is).
pub open spec fn down_code(phase: LoopPhase) -> u16 {
    match phase {
        LoopPhase::Pressed { code } => code,
        LoopPhase::Held { code } => code,
        _ => 0,
    }
}

/// The report that presses button `code`.
pub open spec fn press_of(code: u16) -> LoopAction {
    LoopAction::Report { code, value: 1 }
}

/// The report that releases button `code`.
pub open spec fn release_of(code: u16) -> LoopAction {
    LoopAction::Report { code, value: 0 }
}

/// Each step keeps the button reports in order: every report is a press
/// or a release; a press goes from up to down; a release goes from down to
/// up and releases the button that is down; a sleep keeps the button as it
/// is; and the loop only ends with the button up.
pub proof fn lemma_step_keeps_button(phase: LoopPhase, running: bool, button: u8, interval_ms: u64)
    ensures
        ({
            let (next, action) = loop_step(phase, running, button, interval_ms);
            &&& action is Exit ==> !button_down(phase) && !button_down(next)
            &&& action is Report ==> action == press_of(action->code) || action == release_of(
                action->code,
            )
            &&& action is Report && action->value == 1 ==> !button_down(phase) && button_down(next)
                && down_code(next) == action->code
            &&& action is Report && action->value == 0 ==> button_down(phase) && !button_down(next)
                && down_code(phase) == action->code
            &&& action is Sleep ==> button_down(phase) == button_down(next) && (button_down(phase)
                ==> down_code(next) == down_code(phase))
        }),
{
}

/// What the loop reads of the clicker at one step: whether it runs, its
/// button and its interval.
pub struct Observation {
    pub running: bool,
    pub button: u8,
    pub interval_ms: u64,
}

/// The phase and actions of the loop from `phase`, one step for each of
/// `obs`, in order.
pub open spec fn run_observed(phase: LoopPhase, obs: Seq<Observation>) -> (LoopPhase, Seq<LoopAction>)
    decreases obs.len(),
{
    if obs.len() == 0 {
        (phase, Seq::empty())
    } else {
        let (before, actions) = run_observed(phase, obs.drop_last());
        let o = obs.last();
        let (next, action) = loop_step(before, o.running, o.button, o.interval_ms);
        (next, actions.push(action))
    }
}

/// The button reports among `actions`, in order.
pub open spec fn reports(actions: Seq<LoopAction>) -> Seq<LoopAction>
    decreases actions.len(),
{
    if actions.len() == 0 {
        Seq::empty()
    } else if actions.last() is Report {
        reports(actions.drop_last()).push(actions.last())
    } else {
        reports(actions.drop_last())
    }
}

/// Whether `rs` are presses and releases in turn, starting with a press,
/// each release of the button pressed just before it.
pub open spec fn alternating(rs: Seq<LoopAction>) -> bool {
    forall|i: int|
        0 <= i < rs.len() ==> #[trigger] rs[i] == if i % 2 == 0 {
            press_of(rs[i]->code)
        } else {
            release_of(rs[i - 1]->code)
        }
}

/// Whatever the clicker does meanwhile (it may be stopped, or change its
/// button or interval at any step), a run of the loop from its top reports
/// presses and releases in turn, each release of the button just pressed;
/// the button is down exactly after an unmatched press, and it is the
/// button of that press; and a run that has ended has released every
/// button it pressed.
pub proof fn lemma_run_releases(obs: Seq<Observation>)
    ensures
        ({
            let (phase, actions) = run_observed(LoopPhase::Top, obs);
            let rs = reports(actions);
            &&& alternating(rs)
            &&& button_down(phase) <==> rs.len() % 2 == 1
            &&& button_down(phase) ==> rs.last() == press_of(down_code(phase))
            &&& actions.len() > 0 && actions.last() is Exit ==> rs.len() % 2 == 0
        }),
    decreases obs.len(),
{
    if obs.len() > 0 {
        let front = obs.drop_last();
        lemma_run_releases(front);
        let (before, actions0) = run_observed(LoopPhase::Top, front);
        let o = obs.last();
        lemma_step_keeps_button(before, o.running, o.button, o.interval_ms);
        let (next, action) = loop_step(before, o.running, o.button, o.interval_ms);
        let actions = actions0.push(action);
        assert(actions.drop_last() =~= actions0);
        let rs0 = reports(actions0);
        if action is Report {
            let rs = rs0.push(action);
            assert(reports(actions) == rs);
            assert forall|i: int| 0 <= i < rs.len() implies #[trigger] rs[i] == if i % 2 == 0 {
                press_of(rs[i]->code)
            } else {
                release_of(rs[i - 1]->code)
            } by {
                if i < rs0.len() {
                    assert(rs[i] == rs0[i]);
                    if i % 2 == 1 {
                        assert(rs[i - 1] == rs0[i - 1]);
                    }
                } else if i % 2 == 1 {
                    assert(rs[i - 1] == rs0.last());
                }
            }
        } else {
            assert(reports(actions) == rs0);
        }
    }
}

/// Stage of setting up the virtual mouse at which it failed.
#[derive(Clone, Copy, Debug, PartialEq, Eq, Structural)]
pub enum SetupStage {
    /// Opening `/dev/uinput`.
    Open,
    /// Declaring the buttons.
    Keys,
    /// Declaring the relative axes.
    Axes,
    /// Creating the device.
    Build,
}

/// The message shown when the virtual mouse cannot be set up at `stage`,
/// with the system's `detail`.
pub open spec fn setup_message(stage: SetupStage, detail: Seq<char>) -> Seq<char> {
    match stage {
        SetupStage::Open => "Failed to open /dev/uinput: "@ + detail + SETUP_HELP@,
        SetupStage::Keys => "Failed to configure device keys: "@ + detail,
        SetupStage::Axes => "Failed to configure device axes: "@ + detail,
        SetupStage::Build => "Failed to create virtual device: "@ + detail,
    }
}

/// Instructions shown after a failure to open `/dev/uinput`.
pub const SETUP_HELP: &'static str = "\n\n===================== SETUP REQUIRED =====================\n1. Load the uinput kernel module:\nsudo modprobe uinput\n\n2. Make it persistent across reboots:\necho uinput | sudo tee /etc/modules-load.d/uinput.conf\n\n3. Grant your user access to /dev/uinput:\nsudo usermod -aG input $USER\n\n4. Create a udev rule for reliable access:\necho 'KERNEL==\"uinput\", GROUP=\"input\", MODE=\"0660\"' | sudo tee /etc/udev/rules.d/80-uinput.rules\nsudo udevadm control --reload-rules\nsudo udevadm trigger /dev/uinput\n\n5. Log out and log back in (or reboot).\n=========================================================";

/// The message shown when the virtual mouse cannot be set up.
pub fn setup_error(stage: SetupStage, detail: &str) -> (message: String)
    ensures
        message@ == setup_message(stage, detail@),
{
    match stage {
        SetupStage::Open => String::from_str("Failed to open /dev/uinput: ").concat(detail).concat(
            SETUP_HELP,
        ),
        SetupStage::Keys => String::from_str("Failed to configure device keys: ").concat(detail),
        SetupStage::Axes => String::from_str("Failed to configure device axes: ").concat(detail),
        SetupStage::Build => String::from_str("Failed to create virtual device: ").concat(detail),
    }
}

} // verus!
