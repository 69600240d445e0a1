use autoclicker::cli::{click_button, plan, CliCommand, Invocation};
use autoclicker::ipc::IpcCommand;

#[test]
fn button_names() {
    assert_eq!(click_button("left"), Some(1));
    assert_eq!(click_button("right"), Some(2));
    assert_eq!(click_button("middle"), Some(3));
    assert_eq!(click_button("side"), None);
    assert_eq!(click_button("Left"), None);
}

#[test]
fn plans() {
    assert!(matches!(plan(None), Invocation::Gui));
    assert!(matches!(plan(Some(CliCommand::Toggle)), Invocation::Send(IpcCommand::Toggle)));
    assert!(matches!(plan(Some(CliCommand::Start)), Invocation::Send(IpcCommand::Start)));
    assert!(matches!(plan(Some(CliCommand::Stop)), Invocation::Send(IpcCommand::Stop)));
    assert!(matches!(plan(Some(CliCommand::Click { button: "middle".to_string() })), Invocation::Click(3)));
    match plan(Some(CliCommand::Click { button: "wheel".to_string() })) {
        Invocation::Fail(msg) => assert_eq!(msg, "Invalid button 'wheel'. Use: left, right, middle"),
        _ => panic!("expected a failure"),
    }
}
