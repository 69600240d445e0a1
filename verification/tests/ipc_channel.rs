use autoclicker::ipc::{
    answer_request, command_text, interpret_response, parse_command, socket_path_for,
    transfer_error, IpcCommand, TransferStage, CONNECT_ERROR,
};

#[test]
fn socket_paths() {
    assert_eq!(socket_path_for(Some("/run/user/1000".to_string())), "/run/user/1000/autoclicker.sock");
    assert_eq!(socket_path_for(None), "/tmp/autoclicker.sock");
}

#[test]
fn accepted_commands_are_forwarded() {
    for (bytes, cmd) in [(&b"toggle"[..], "toggle"), (&b"start\n"[..], "start"), (&b"  stop \r\n"[..], "stop")] {
        let reply = answer_request(bytes).unwrap();
        assert_eq!(reply.forward.as_deref(), Some(cmd));
        assert_eq!(reply.response, "OK\n");
    }
}

#[test]
fn unknown_commands_are_refused() {
    for bytes in [&b"Toggle"[..], &b"quit"[..], &b"tog gle"[..], &b"\xfftoggle"[..], &b"toggle\xc3"[..]] {
        let reply = answer_request(bytes).unwrap();
        assert_eq!(reply.forward, None);
        assert_eq!(reply.response, "ERROR: unknown command\n");
    }
}

#[test]
fn empty_request_gets_no_answer() {
    assert!(answer_request(b"").is_none());
}

#[test]
fn unicode_whitespace_is_trimmed() {
    let reply = answer_request("\u{3000}toggle\u{a0}".as_bytes()).unwrap();
    assert_eq!(reply.forward.as_deref(), Some("toggle"));
}

#[test]
fn client_reads_reply() {
    assert_eq!(interpret_response("OK\n".to_string()), Ok(()));
    assert_eq!(interpret_response("OK".to_string()), Ok(()));
    assert_eq!(
        interpret_response("ERROR: unknown command\n".to_string()),
        Err("ERROR: unknown command\n".to_string())
    );
    assert_eq!(interpret_response("".to_string()), Err(String::new()));
    assert_eq!(interpret_response("O".to_string()), Err("O".to_string()));
}

#[test]
fn commands_round_trip() {
    for cmd in [IpcCommand::Toggle, IpcCommand::Start, IpcCommand::Stop] {
        let text = command_text(cmd);
        assert_eq!(parse_command(text), Some(cmd));
        let reply = answer_request(text.as_bytes()).unwrap();
        assert_eq!(reply.forward.as_deref(), Some(text));
        assert_eq!(interpret_response(reply.response), Ok(()));
    }
    assert_eq!(parse_command("show"), None);
}

#[test]
fn client_messages() {
    assert_eq!(transfer_error(TransferStage::Send, "broken pipe"), "Failed to send command: broken pipe");
    assert_eq!(transfer_error(TransferStage::Receive, "reset"), "Failed to read response: reset");
    assert_eq!(
        CONNECT_ERROR,
        "Cannot connect to autoclicker \u{2014} is the GUI running?\nStart it first with:  autoclicker"
    );
}
