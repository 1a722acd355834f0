//! The messages to the terminal interface.

use crate::client_approver::ApproverErr;
use crate::models::ClientId;
use vstd::prelude::*;

verus! {

/// The keys that mean something to the interface.
#[derive(Clone, Copy, Debug, PartialEq, Eq, Structural)]
pub enum KeyCode {
    Enter,
    Esc,
    Char(char),
    /// Any other key.
    Other,
}

/// A terminal event.
#[derive(Clone, Copy, Debug, PartialEq, Eq, Structural)]
pub enum Event {
    /// A key was pressed, with or without the control key.
    Key { code: KeyCode, control: bool },
    /// Anything else, such as the mouse.
    Other,
}

/// A message to the terminal interface. `R` is the way back to whoever asks about a client.
#[derive(Debug)]
pub enum TermMsg<R> {
    /// A line for the log.
    Log(String),
    /// A client that asks to be approved.
    ClientRequest(ClientId, R),
    /// Something the user did.
    Input(Event),
}

/// Approver for use with the terminal interface: it sends a request and waits for the reply.
pub struct TuiApprover;

impl TuiApprover {
    /// What to send about a client.
    pub fn request<R>(client_id: ClientId, reply: R) -> (r: TermMsg<R>)
        ensures
            r == TermMsg::ClientRequest(client_id, reply),
    {
        TermMsg::ClientRequest(client_id, reply)
    }

    /// The decision that a reply stands for. There is none if the interface is gone.
    pub fn decision(reply: Option<bool>) -> (r: Result<bool, ApproverErr>)
        ensures
            match reply {
                Some(approved) => r == Ok::<bool, ApproverErr>(approved),
                None => r is Err,
            },
    {
        match reply {
            Some(approved) => Ok(approved),
            None => Err(ApproverErr),
        }
    }
}

/// The decision is the one that came back for the client: approved or denied as it was, and none if
/// nothing came back.
pub proof fn law_decision_is_the_reply(reply: Option<bool>, r: Result<bool, ApproverErr>)
    requires
        call_ensures(TuiApprover::decision, (reply,), r),
    ensures
        r is Err <==> reply is None,
        r is Ok ==> reply == Some(r->Ok_0),
{
}

} // verus!
