use autoclicker::clicker::{
    button_to_code, click_step, device_axes, device_buttons, report_events, setup_error, Clicker,
    InputRecord, LoopAction, LoopPhase, SetupStage, WorkerAction, BTN_EXTRA, BTN_LEFT, BTN_MIDDLE,
    BTN_RIGHT, BTN_SIDE, EV_KEY, EV_SYN,
};

#[test]
fn maps_buttons_to_codes() {
    assert_eq!(button_to_code(1), BTN_LEFT);
    assert_eq!(button_to_code(2), BTN_RIGHT);
    assert_eq!(button_to_code(3), BTN_MIDDLE);
    assert_eq!(button_to_code(4), BTN_SIDE);
    assert_eq!(button_to_code(5), BTN_EXTRA);
    assert_eq!(button_to_code(0), 0x110);
    assert_eq!(button_to_code(6), 0x110);
    assert_eq!(button_to_code(255), 0x110);
    assert_eq!(BTN_EXTRA, 0x114);
}

#[test]
fn new_clicker_settings() {
    let c = Clicker::new();
    assert!(!c.is_running());
    assert_eq!(c.interval_ms(), 100);
    assert_eq!(c.button(), 1);
}

#[test]
fn interval_is_at_least_one() {
    let mut c = Clicker::new();
    c.set_interval(0);
    assert_eq!(c.interval_ms(), 1);
    c.set_interval(250);
    assert_eq!(c.interval_ms(), 250);
}

#[test]
fn start_is_idempotent_and_stop_joins() {
    let mut c = Clicker::new();
    assert_eq!(c.stop(), WorkerAction::Nothing);
    assert_eq!(c.start(), WorkerAction::Spawn);
    assert!(c.is_running());
    assert_eq!(c.start(), WorkerAction::Nothing);
    assert_eq!(c.stop(), WorkerAction::Join);
    assert!(!c.is_running());
    assert_eq!(c.stop(), WorkerAction::Nothing);
}

#[test]
fn button_setting() {
    let mut c = Clicker::new();
    c.set_button(3);
    assert_eq!(c.button(), 3);
}

#[test]
fn report_events_are_key_then_sync() {
    assert_eq!(
        report_events(0x111, 1),
        vec![
            InputRecord { kind: EV_KEY, code: 0x111, value: 1 },
            InputRecord { kind: EV_SYN, code: 0, value: 0 },
        ]
    );
}

fn run_cycle(button: u8, interval: u64) -> (Vec<LoopAction>, LoopPhase) {
    let mut phase = LoopPhase::Top;
    let mut actions = Vec::new();
    loop {
        let (next, action) = click_step(phase, true, button, interval);
        actions.push(action);
        phase = next;
        if phase == (LoopPhase::Waiting { remaining: 0 }) {
            return (actions, phase);
        }
    }
}

#[test]
fn one_click_cycle() {
    let (actions, _) = run_cycle(2, 12);
    assert_eq!(
        actions,
        vec![
            LoopAction::Report { code: BTN_RIGHT, value: 1 },
            LoopAction::Sleep { ms: 1 },
            LoopAction::Report { code: BTN_RIGHT, value: 0 },
            LoopAction::Sleep { ms: 5 },
            LoopAction::Sleep { ms: 5 },
            LoopAction::Sleep { ms: 2 },
        ]
    );
    let total: u64 = actions.iter().skip(3).map(|a| match a {
        LoopAction::Sleep { ms } => *ms,
        _ => 0,
    }).sum();
    assert_eq!(total, 12);
}

#[test]
fn stopped_loop_exits() {
    assert_eq!(click_step(LoopPhase::Top, false, 1, 100), (LoopPhase::Finished, LoopAction::Exit));
    assert_eq!(
        click_step(LoopPhase::Waiting { remaining: 40 }, false, 1, 100),
        (LoopPhase::Finished, LoopAction::Exit)
    );
    assert_eq!(click_step(LoopPhase::Finished, true, 1, 100), (LoopPhase::Finished, LoopAction::Exit));
}

#[test]
fn finished_wait_clicks_again() {
    assert_eq!(
        click_step(LoopPhase::Waiting { remaining: 0 }, true, 1, 100),
        (LoopPhase::Pressed { code: BTN_LEFT }, LoopAction::Report { code: BTN_LEFT, value: 1 })
    );
}

#[test]
fn device_declarations() {
    assert_eq!(device_buttons(), vec![0x110, 0x111, 0x112, 0x113, 0x114]);
    assert_eq!(device_axes(), vec![0, 1, 8]);
}

#[test]
fn setup_messages() {
    assert_eq!(setup_error(SetupStage::Keys, "boom"), "Failed to configure device keys: boom");
    assert_eq!(setup_error(SetupStage::Axes, "x"), "Failed to configure device axes: x");
    assert_eq!(setup_error(SetupStage::Build, "y"), "Failed to create virtual device: y");
    let open = setup_error(SetupStage::Open, "Permission denied");
    assert!(open.starts_with("Failed to open /dev/uinput: Permission denied\n\n===================== SETUP REQUIRED"));
    assert!(open.contains("sudo modprobe uinput\n"));
    assert!(open.contains("echo 'KERNEL==\"uinput\", GROUP=\"input\", MODE=\"0660\"' | sudo tee /etc/udev/rules.d/80-uinput.rules\n"));
    assert!(open.ends_with("5. Log out and log back in (or reboot).\n========================================================="));
}

#[test]
fn stop_while_pressed_still_releases() {
    // The clicker is stopped and its button changed right after the press:
    // the loop still releases the button it pressed before it ends.
    let steps = [(true, 0u8), (false, 3u8), (false, 3u8), (false, 3u8), (false, 3u8)];
    let mut phase = LoopPhase::Top;
    let mut actions = Vec::new();
    for (running, button) in steps {
        let (next, action) = click_step(phase, running, button, 50);
        actions.push(action);
        phase = next;
    }
    assert_eq!(
        actions,
        vec![
            LoopAction::Report { code: BTN_LEFT, value: 1 },
            LoopAction::Sleep { ms: 1 },
            LoopAction::Report { code: BTN_LEFT, value: 0 },
            LoopAction::Exit,
            LoopAction::Exit,
        ]
    );
    assert_eq!(phase, LoopPhase::Finished);
}

#[test]
fn long_run_reports_alternate() {
    // Running for many steps with the button changing between clicks, the
    // reports come as press/release pairs of one button each.
    let mut phase = LoopPhase::Top;
    let mut reports = Vec::new();
    for step in 0..200u32 {
        let running = step < 150;
        let button = (step / 7 % 5) as u8;
        let (next, action) = click_step(phase, running, button, 3);
        if let LoopAction::Report { code, value } = action {
            reports.push((code, value));
        }
        phase = next;
    }
    assert_eq!(phase, LoopPhase::Finished);
    assert!(!reports.is_empty());
    assert_eq!(reports.len() % 2, 0);
    for pair in reports.chunks(2) {
        assert_eq!(pair[0].1, 1);
        assert_eq!(pair[1], (pair[0].0, 0));
    }
}
