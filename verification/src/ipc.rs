//! The local command channel: the command-line client sends `toggle`,
//! `start` or `stop` over a Unix socket, and the running application
//! answers and forwards accepted commands to its interface.

use vstd::prelude::*;
use vstd::string::*;
use vstd::utf8::{decode_utf8, encode_utf8, encode_utf8_decode_utf8, encode_utf8_valid_utf8, valid_utf8};

use crate::text::{is_space, lemma_trim_keeps, same_text, trim, trimmed};

verus! {

/// File name of the socket, inside the runtime directory.
pub const SOCKET_FILE: &'static str = "/autoclicker.sock";

/// Socket path used when no runtime directory is known.
pub const FALLBACK_SOCKET_PATH: &'static str = "/tmp/autoclicker.sock";

/// Most bytes of a request that the listener reads.
pub const REQUEST_BUFFER_LEN: usize = 64;

/// Message shown when the client finds no running application.
pub const CONNECT_ERROR: &'static str = "Cannot connect to autoclicker — is the GUI running?\nStart it first with:  autoclicker";

/// Reply to an accepted command.
pub const REPLY_OK: &'static str = "OK\n";

/// Reply to anything else.
pub const REPLY_UNKNOWN: &'static str = "ERROR: unknown command\n";

/// The socket path: inside `$XDG_RUNTIME_DIR` when it is set, else
/// `/tmp/autoclicker.sock`.
pub open spec fn socket_path_text(runtime_dir: Option<Seq<char>>) -> Seq<char> {
    match runtime_dir {
        Some(dir) => dir + SOCKET_FILE@,
        None => FALLBACK_SOCKET_PATH@,
    }
}

/// The socket path, from the value of `XDG_RUNTIME_DIR` (`None` when it is
/// unset).
pub fn socket_path_for(runtime_dir: Option<String>) -> (path: String)
    ensures
        path@ == socket_path_text(
            match runtime_dir {
                Some(d) => Some(d@),
                None => None,
            },
        ),
{
    match runtime_dir {
        Some(dir) => dir.concat(SOCKET_FILE),
        None => String::from_str(FALLBACK_SOCKET_PATH),
    }
}

/// A command of the channel.
#[derive(Clone, Copy, Debug, PartialEq, Eq, Structural)]
pub enum IpcCommand {
    Toggle,
    Start,
    Stop,
}

/// The text of a command, as it is sent.
pub open spec fn command_chars(cmd: IpcCommand) -> Seq<char> {
    match cmd {
        IpcCommand::Toggle => "toggle"@,
        IpcCommand::Start => "start"@,
        IpcCommand::Stop => "stop"@,
    }
}

/// The command that a text names, if any.
pub open spec fn command_of(text: Seq<char>) -> Option<IpcCommand> {
    if text == "toggle"@ {
        Some(IpcCommand::Toggle)
    } else if text == "start"@ {
        Some(IpcCommand::Start)
    } else if text == "stop"@ {
        Some(IpcCommand::Stop)
    } else {
        None
    }
}

/// The text of a command, as it is sent.
pub fn command_text(cmd: IpcCommand) -> (text: &'static str)
    ensures
        text@ == command_chars(cmd),
{
    match cmd {
        IpcCommand::Toggle => "toggle",
        IpcCommand::Start => "start",
        IpcCommand::Stop => "stop",
    }
}

/// The command that `text` names exactly, if any.
pub fn parse_command(text: &str) -> (cmd: Option<IpcCommand>)
    ensures
        cmd == command_of(text@),
{
    if same_text(text, "toggle") {
        Some(IpcCommand::Toggle)
    } else if same_text(text, "start") {
        Some(IpcCommand::Start)
    } else if same_text(text, "stop") {
        Some(IpcCommand::Stop)
    } else {
        None
    }
}

/// What `String::from_utf8_lossy` makes of `bytes`: the text they encode,
/// each invalid sequence replaced by U+FFFD.
pub uninterp spec fn lossy_text(bytes: Seq<u8>) -> Seq<char>;

/// Decodes bytes with `String::from_utf8_lossy`. The contract names the
/// result and states what the documentation gives: valid UTF-8 is decoded
/// as it is, and an invalid sequence leaves a U+FFFD replacement character
/// in the text. Which sequences are replaced, and where, is left unsaid.
#[verifier::external_body]
fn decode_lossy(bytes: &[u8]) -> (text: String)
    ensures
        text@ == lossy_text(bytes@),
        valid_utf8(bytes@) ==> text@ == decode_utf8(bytes@),
        !valid_utf8(bytes@) ==> text@.contains('\u{FFFD}'),
{
    String::from_utf8_lossy(bytes).into_owned()
}

/// The text of a request: its bytes decoded as UTF-8; where they are not
/// valid UTF-8, as `String::from_utf8_lossy` decodes them.
pub open spec fn request_text(bytes: Seq<u8>) -> Seq<char> {
    if valid_utf8(bytes) {
        decode_utf8(bytes)
    } else {
        lossy_text(bytes)
    }
}

/// The listener's answer to one request: the command text to forward to
/// the interface, if it is one, and the reply to send back.
pub struct Reply {
    pub forward: Option<String>,
    pub response: String,
}

/// Whether `reply` is the answer to a request whose trimmed text is
/// `text`: a command is forwarded as it is and answered `"OK\n"`;
/// anything else is not forwarded and answered with an error.
pub open spec fn answers(reply: Reply, text: Seq<char>) -> bool {
    if command_of(text) is Some {
        &&& reply.forward matches Some(f) && f@ == text
        &&& reply.response@ == REPLY_OK@
    } else {
        &&& reply.forward is None
        &&& reply.response@ == REPLY_UNKNOWN@
    }
}

/// The answer to a request of `request` bytes. An empty request (the
/// connection closed before sending) gets no answer; any other is decoded
/// as UTF-8, invalid sequences replaced, and trimmed.
pub fn answer_request(request: &[u8]) -> (reply: Option<Reply>)
    ensures
        match reply {
            Some(r) => request@.len() > 0 && answers(r, trimmed(request_text(request@))),
            None => request@.len() == 0,
        },
        request@.len() > 0 && !valid_utf8(request@) ==> (reply matches Some(r) && r.forward is None
            && r.response@ == REPLY_UNKNOWN@),
{
    if request.len() == 0 {
        return None;
    }
    let decoded = decode_lossy(request);
    let cmd = trim(decoded.as_str());
    proof {
        if !valid_utf8(request@) {
            lemma_trim_keeps(decoded@, '\u{FFFD}');
            reveal_strlit("toggle");
            reveal_strlit("start");
            reveal_strlit("stop");
            assert(!"toggle"@.contains('\u{FFFD}'));
            assert(!"start"@.contains('\u{FFFD}'));
            assert(!"stop"@.contains('\u{FFFD}'));
            assert(command_of(cmd@) is None);
        }
    }
    match parse_command(cmd) {
        Some(_) => Some(Reply { forward: Some(String::from_str(cmd)), response: String::from_str(REPLY_OK) }),
        None => Some(Reply { forward: None, response: String::from_str(REPLY_UNKNOWN) }),
    }
}

/// Whether a reply tells the client that its command was accepted: it
/// starts with `"OK"`.
pub open spec fn accepted(response: Seq<char>) -> bool {
    "OK"@.is_prefix_of(response)
}

/// The client's reading of the reply: success when it starts with `"OK"`,
/// else the reply itself as the error.
pub fn interpret_response(response: String) -> (r: Result<(), String>)
    ensures
        match r {
            Ok(()) => accepted(response@),
            Err(e) => !accepted(response@) && e@ == response@,
        },
{
    proof {
        reveal_strlit("OK");
    }
    let n = response.as_str().unicode_len();
    if n >= 2 && response.as_str().get_char(0) == 'O' && response.as_str().get_char(1) == 'K' {
        assert(response@.take(2) =~= "OK"@);
        Ok(())
    } else {
        proof {
            if accepted(response@) {
                assert(response@.take(2) =~= "OK"@);
                assert(response@[0] == "OK"@[0]);
                assert(response@[1] == "OK"@[1]);
            }
        }
        Err(response)
    }
}

/// Stage of talking to the application at which the client failed.
#[derive(Clone, Copy, Debug, PartialEq, Eq, Structural)]
pub enum TransferStage {
    /// Sending the command.
    Send,
    /// Reading the reply.
    Receive,
}

/// The client's message for a failure at `stage` with the system's
/// `detail`.
pub open spec fn transfer_message(stage: TransferStage, detail: Seq<char>) -> Seq<char> {
    match stage {
        TransferStage::Send => "Failed to send command: "@ + detail,
        TransferStage::Receive => "Failed to read response: "@ + detail,
    }
}

/// The client's message for a failure while talking to the application.
pub fn transfer_error(stage: TransferStage, detail: &str) -> (message: String)
    ensures
        message@ == transfer_message(stage, detail@),
{
    match stage {
        TransferStage::Send => String::from_str("Failed to send command: ").concat(detail),
        TransferStage::Receive => String::from_str("Failed to read response: ").concat(detail),
    }
}

/// What the client sends and what the listener understands agree: the
/// bytes of each command are forwarded as that command and answered with
/// a reply that the client accepts.
pub proof fn lemma_commands_understood(cmd: IpcCommand, reply: Reply)
    requires
        answers(reply, trimmed(request_text(encode_utf8(command_chars(cmd))))),
    ensures
        command_of(command_chars(cmd)) == Some(cmd),
        reply.forward matches Some(f) && f@ == command_chars(cmd),
        accepted(reply.response@),
{
    encode_utf8_decode_utf8(command_chars(cmd));
    encode_utf8_valid_utf8(command_chars(cmd));
    reveal_strlit("toggle");
    reveal_strlit("start");
    reveal_strlit("stop");
    reveal_strlit("OK");
    reveal_strlit("OK\n");
    let s = command_chars(cmd);
    assert(!is_space(s[0]));
    assert(!is_space(s.last()));
    assert(crate::text::trim_start(s) == s);
    assert(trimmed(s) == s);
}

/// Each command is sent as its own name, and a name is read back as that
/// command: `toggle` for Toggle, `start` for Start, `stop` for Stop; a text
/// is read as a command only when it is exactly the text sent for it.
pub proof fn lemma_command_names(text: Seq<char>)
    ensures
        command_chars(IpcCommand::Toggle) == "toggle"@,
        command_chars(IpcCommand::Start) == "start"@,
        command_chars(IpcCommand::Stop) == "stop"@,
        command_of("toggle"@) == Some(IpcCommand::Toggle),
        command_of("start"@) == Some(IpcCommand::Start),
        command_of("stop"@) == Some(IpcCommand::Stop),
        command_of(text) matches Some(cmd) ==> text == command_chars(cmd),
{
    reveal_strlit("toggle");
    reveal_strlit("start");
    reveal_strlit("stop");
    assert("toggle"@.len() == 6 && "start"@.len() == 5 && "stop"@.len() == 4);
}

} // verus!
