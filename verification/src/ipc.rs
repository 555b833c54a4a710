use vstd::prelude::*;
use crate::text::{chars_eq, extend_str, from_chars, is_ws, lemma_trim_first, lemma_trim_newline, to_chars, trim, trim_chars};

verus! {

/// The commands the daemon accepts on its socket.
#[derive(Debug, Clone, PartialEq, Eq)]
pub enum IpcCommand {
    Block,
    Unblock,
    Sync,
    Unknown(String),
}

/// The command on a request line: `block`, `unblock` or `sync` once trimmed, else
/// unknown (with the trimmed text).
pub open spec fn command_of(line: Seq<char>) -> (IpcCommand, Seq<char>) {
    let t = trim(line);
    if t == "block"@ {
        (IpcCommand::Block, t)
    } else if t == "unblock"@ {
        (IpcCommand::Unblock, t)
    } else if t == "sync"@ {
        (IpcCommand::Sync, t)
    } else {
        (IpcCommand::Unknown(choose|s: String| s@ == t), t)
    }
}

fn is_word(a: &Vec<char>, w: &str) -> (r: bool)
    ensures
        r == (a@ == w@),
{
    let wc = to_chars(w);
    chars_eq(a, &wc)
}

/// The command on a request line (see `command_of`).
pub fn parse_command(line: &str) -> (r: IpcCommand)
    ensures
        match command_of(line@).0 {
            IpcCommand::Block => r == IpcCommand::Block,
            IpcCommand::Unblock => r == IpcCommand::Unblock,
            IpcCommand::Sync => r == IpcCommand::Sync,
            IpcCommand::Unknown(_) => r matches IpcCommand::Unknown(s) && s@ == command_of(line@).1,
        },
{
    let l = to_chars(line);
    let t = trim_chars(&l);
    if is_word(&t, "block") {
        IpcCommand::Block
    } else if is_word(&t, "unblock") {
        IpcCommand::Unblock
    } else if is_word(&t, "sync") {
        IpcCommand::Sync
    } else {
        IpcCommand::Unknown(from_chars(&t))
    }
}

/// The reply to a request: `ok` when the command succeeded, the error's text when
/// it failed, and `Unknown command: <text>` for an unknown command.
pub open spec fn reply_of(command: IpcCommand, outcome: Result<(), Seq<char>>) -> Seq<char> {
    match command {
        IpcCommand::Unknown(s) => "Unknown command: "@ + s@,
        _ => match outcome {
            Ok(()) => "ok"@,
            Err(e) => e,
        },
    }
}

/// An outcome with its error taken as text.
pub open spec fn outcome_view(outcome: Result<(), String>) -> Result<(), Seq<char>> {
    match outcome {
        Ok(()) => Ok(()),
        Err(e) => Err(e@),
    }
}

/// The reply to a request (see `reply_of`).
pub fn command_response(command: &IpcCommand, outcome: &Result<(), String>) -> (r: String)
    ensures
        r@ == reply_of(*command, outcome_view(*outcome)),
{
    match command {
        IpcCommand::Unknown(s) => {
            let mut v = to_chars("Unknown command: ");
            extend_str(&mut v, s.as_str());
            from_chars(&v)
        },
        _ => match outcome {
            Ok(()) => String::from_str("ok"),
            Err(e) => String::from_str(e.as_str()),
        },
    }
}

/// Whether a client may use the socket: the owner of the configuration, or root.
pub fn is_authorized(uid: u32, allowed_uid: u32) -> (r: bool)
    ensures
        r == (uid == allowed_uid || uid == 0),
{
    uid == allowed_uid || uid == 0
}

/// What the client makes of the daemon's reply: `ok` is success, an empty reply an
/// error of its own, and any other reply the error the daemon sent.
pub open spec fn response_outcome(response: Seq<char>) -> Result<(), Seq<char>> {
    let t = trim(response);
    if t == "ok"@ {
        Ok(())
    } else if t.len() == 0 {
        Err("El daemon no devolvió ninguna respuesta."@)
    } else {
        Err(t)
    }
}

pub fn interpret_response(response: &str) -> (r: Result<(), String>)
    ensures
        match (r, response_outcome(response@)) {
            (Ok(()), Ok(())) => true,
            (Err(e), Err(f)) => e@ == f,
            _ => false,
        },
{
    let c = to_chars(response);
    let t = trim_chars(&c);
    if is_word(&t, "ok") {
        Ok(())
    } else if t.len() == 0 {
        Err(String::from_str("El daemon no devolvió ninguna respuesta."))
    } else {
        Err(from_chars(&t))
    }
}

/// What the daemon says to a client before reading its command: nothing when the
/// client may use the socket (see `is_authorized`), otherwise why it is turned away.
pub fn connection_gate(peer_uid: &Result<u32, String>, allowed_uid: u32) -> (r: Option<String>)
    ensures
        match peer_uid {
            Ok(uid) => if *uid == allowed_uid || *uid == 0 {
                r is None
            } else {
                r matches Some(m) && m@ == "Unauthorized client uid: "@ + crate::num::decimal(*uid as nat)
            },
            Err(e) => r matches Some(m) && m@ == "Failed to validate client identity: "@ + e@,
        },
{
    match peer_uid {
        Ok(uid) => {
            if is_authorized(*uid, allowed_uid) {
                None
            } else {
                let mut v = to_chars("Unauthorized client uid: ");
                let d = crate::num::decimal_chars(*uid as u64);
                crate::text::extend(&mut v, &d);
                Some(from_chars(&v))
            }
        },
        Err(e) => {
            let mut v = to_chars("Failed to validate client identity: ");
            extend_str(&mut v, e.as_str());
            Some(from_chars(&v))
        },
    }
}

/// The client reads back what the daemon answers, line end included: a command
/// carried out reads as success, a failure as its message trimmed, and an unknown
/// command as a failure naming it. It holds when a failure's message, trimmed, is
/// neither empty nor `ok`.
pub proof fn law_reply_read_back(command: IpcCommand, outcome: Result<(), Seq<char>>)
    requires
        outcome matches Err(e) ==> trim(e).len() > 0 && trim(e) != "ok"@,
    ensures
        response_outcome(reply_of(command, outcome) + seq!['\n']) == match command {
            IpcCommand::Unknown(s) => Err(trim("Unknown command: "@ + s@)),
            _ => match outcome {
                Ok(()) => Ok(()),
                Err(e) => Err(trim(e)),
            },
        },
{
    let r = reply_of(command, outcome);
    lemma_trim_newline(r);
    reveal_strlit("ok");
    reveal_strlit("Unknown command: ");
    match command {
        IpcCommand::Unknown(s) => {
            let x = "Unknown command: "@ + s@;
            assert(x[0] == 'U');
            lemma_trim_first(x);
            assert(trim(x) != "ok"@) by {
                if trim(x) == "ok"@ {
                    assert(trim(x)[0] == 'o');
                }
            }
        },
        _ => {
            match outcome {
                Ok(()) => {
                    assert(trim("ok"@) == "ok"@) by {
                        assert(!is_ws('o') && !is_ws('k'));
                        assert("ok"@.drop_first() =~= seq!['k']);
                    }
                },
                Err(e) => {},
            }
        },
    }
}

} // verus!
