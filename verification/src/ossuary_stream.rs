//! The order of a handshake over an ossuary connection, and the guard on writes before its end.

use vstd::prelude::*;

verus! {

/// What the handshake waits for.
#[derive(Clone, Copy, Debug, PartialEq, Eq, Structural)]
pub enum HandshakePhase {
    /// That the client's greeting is written.
    Greeting,
    /// Whether the connection has finished its handshake.
    AskingDone,
    /// That the connection makes its next packet.
    Making,
    /// That the packet is written.
    Writing,
    /// That the stream is read.
    Reading,
    /// That the connection takes what was read.
    Receiving,
    /// Nothing more.
    Over,
}

/// What can happen during a handshake.
#[derive(Debug)]
pub enum HandshakeEvent {
    /// Whether the connection has finished its handshake.
    IsDone(bool),
    /// The connection made a packet, of so many bytes.
    Made { size: usize, packet: Vec<u8> },
    /// What was to be written is written.
    Written,
    /// The stream was read.
    Read,
    /// The connection took what was read.
    Received,
    /// The connection has to wait for more.
    WouldBlock,
    /// What was asked for failed.
    Failed,
}

/// What to do next.
#[derive(Debug)]
pub enum HandshakeAction {
    /// Ask the connection whether it has finished its handshake.
    AskDone,
    /// Have the connection make its next packet.
    Make,
    /// Write these bytes.
    Write(Vec<u8>),
    /// Read the stream.
    Read,
    /// Have the connection take what was read.
    Receive,
    /// The handshake is complete.
    Finish,
    /// End with the failure that was reported.
    Fail,
}

/// Whether `event` can happen in `phase`.
pub open spec fn possible(phase: HandshakePhase, event: HandshakeEvent) -> bool {
    match phase {
        HandshakePhase::Greeting => event is Written || event is Failed,
        HandshakePhase::AskingDone => event is IsDone || event is Failed,
        HandshakePhase::Making => event is Made || event is Failed,
        HandshakePhase::Writing => event is Written || event is Failed,
        HandshakePhase::Reading => event is Read || event is Failed,
        HandshakePhase::Receiving => event is Received || event is WouldBlock || event is Failed,
        HandshakePhase::Over => false,
    }
}

/// The phase after `event`. An empty packet is not written.
pub open spec fn next_phase(phase: HandshakePhase, event: HandshakeEvent) -> HandshakePhase {
    match (phase, event) {
        (_, HandshakeEvent::Failed) => HandshakePhase::Over,
        (HandshakePhase::AskingDone, HandshakeEvent::IsDone(true)) => HandshakePhase::Over,
        (HandshakePhase::AskingDone, _) => HandshakePhase::Making,
        (HandshakePhase::Making, HandshakeEvent::Made { size, .. }) => if size > 0 {
            HandshakePhase::Writing
        } else {
            HandshakePhase::Reading
        },
        (HandshakePhase::Writing, _) => HandshakePhase::Reading,
        (HandshakePhase::Reading, _) => HandshakePhase::Receiving,
        (HandshakePhase::Greeting, _) => HandshakePhase::AskingDone,
        (HandshakePhase::Receiving, _) => HandshakePhase::AskingDone,
        _ => HandshakePhase::Over,
    }
}

/// Whether `action` is what is done in a handshake that has come to `phase` by `event`.
pub open spec fn leads_to(
    phase: HandshakePhase,
    event: HandshakeEvent,
    action: HandshakeAction,
) -> bool {
    match (phase, event) {
        (HandshakePhase::AskingDone, _) => action is AskDone,
        (HandshakePhase::Making, _) => action is Make,
        (HandshakePhase::Writing, HandshakeEvent::Made { packet, .. }) => action
            == HandshakeAction::Write(packet),
        (HandshakePhase::Reading, _) => action is Read,
        (HandshakePhase::Receiving, _) => action is Receive,
        (HandshakePhase::Over, HandshakeEvent::Failed) => action is Fail,
        (HandshakePhase::Over, _) => action is Finish,
        _ => false,
    }
}

/// Nothing may be written yet: "Handshake incomplete!".
#[derive(Clone, Copy, Debug, PartialEq, Eq, Structural)]
pub struct HandshakeIncomplete;

/// A stream over an ossuary connection.
pub struct OssuaryStream {
    phase: HandshakePhase,
    handshake_complete: bool,
}

impl OssuaryStream {
    /// The handshake is complete only once nothing more is waited for.
    #[verifier::type_invariant]
    spec fn inv(&self) -> bool {
        self.handshake_complete ==> self.phase is Over
    }

    /// What the handshake waits for.
    pub closed spec fn phase(&self) -> HandshakePhase {
        self.phase
    }

    /// Whether the handshake is complete.
    pub closed spec fn complete(&self) -> bool {
        self.handshake_complete
    }

    /// Begins the handshake. A client writes three bytes before anything else.
    pub fn new(is_server: bool) -> (r: (Self, HandshakeAction))
        ensures
            !r.0.complete(),
            is_server ==> r.0.phase() is AskingDone && r.1 is AskDone,
            !is_server ==> {
                &&& r.0.phase() is Greeting
                &&& r.1 matches HandshakeAction::Write(bytes)
                &&& bytes@ == seq![1u8, 2, 3]
            },
    {
        if is_server {
            (
                OssuaryStream { phase: HandshakePhase::AskingDone, handshake_complete: false },
                HandshakeAction::AskDone,
            )
        } else {
            (
                OssuaryStream { phase: HandshakePhase::Greeting, handshake_complete: false },
                HandshakeAction::Write(vec![1u8, 2, 3]),
            )
        }
    }

    /// Takes what has happened and says what to do next.
    pub fn handshake(&mut self, event: HandshakeEvent) -> (r: HandshakeAction)
        requires
            possible(old(self).phase(), event),
        ensures
            final(self).phase() == next_phase(old(self).phase(), event),
            leads_to(final(self).phase(), event, r),
            final(self).complete() == (event == HandshakeEvent::IsDone(true)),
    {
        proof {
            use_type_invariant(&*self);
        }
        match event {
            HandshakeEvent::Failed => {
                self.phase = HandshakePhase::Over;
                HandshakeAction::Fail
            },
            HandshakeEvent::IsDone(done) => if done {
                *self = OssuaryStream { phase: HandshakePhase::Over, handshake_complete: true };
                HandshakeAction::Finish
            } else {
                self.phase = HandshakePhase::Making;
                HandshakeAction::Make
            },
            HandshakeEvent::Made { size, packet } => if size > 0 {
                self.phase = HandshakePhase::Writing;
                HandshakeAction::Write(packet)
            } else {
                self.phase = HandshakePhase::Reading;
                HandshakeAction::Read
            },
            HandshakeEvent::Written => match self.phase {
                HandshakePhase::Greeting => {
                    self.phase = HandshakePhase::AskingDone;
                    HandshakeAction::AskDone
                },
                _ => {
                    self.phase = HandshakePhase::Reading;
                    HandshakeAction::Read
                },
            },
            HandshakeEvent::Read => {
                self.phase = HandshakePhase::Receiving;
                HandshakeAction::Receive
            },
            HandshakeEvent::Received | HandshakeEvent::WouldBlock => {
                self.phase = HandshakePhase::AskingDone;
                HandshakeAction::AskDone
            },
        }
    }

    /// Whether something may be written.
    pub fn poll_write(&self) -> (r: Result<(), HandshakeIncomplete>)
        ensures
            r is Ok <==> self.complete(),
    {
        if !self.handshake_complete {
            return Err(HandshakeIncomplete);
        }
        Ok(())
    }
}

/// What is done in a handshake tells what it waits for, and each thing that is done has its one reason:
/// the handshake fails exactly on a failure, and is complete exactly when the connection says so. A
/// packet is written as it was made, unless it is empty.
pub proof fn law_actions_have_reasons(
    phase: HandshakePhase,
    event: HandshakeEvent,
    action: HandshakeAction,
)
    requires
        possible(phase, event),
        leads_to(next_phase(phase, event), event, action),
    ensures
        action is Fail <==> event is Failed,
        action is Finish <==> event == HandshakeEvent::IsDone(true),
        action is Make <==> event == HandshakeEvent::IsDone(false),
        action is Write <==> (event matches HandshakeEvent::Made { size, .. } && size > 0),
        match event {
            HandshakeEvent::Made { size, packet } => size > 0 ==> action == HandshakeAction::Write(
                packet,
            ),
            _ => true,
        },
        action is Read <==> (event matches HandshakeEvent::Made { size, .. } && size == 0) || (
        phase is Writing && event is Written),
        action is Receive <==> event is Read,
        action is AskDone <==> event is Received || event is WouldBlock || (phase is Greeting
            && event is Written),
        ({
            let reached = next_phase(phase, event);
            &&& reached is Over <==> action is Fail || action is Finish
            &&& reached is Making <==> action is Make
            &&& reached is Writing <==> action is Write
            &&& reached is Reading <==> action is Read
            &&& reached is Receiving <==> action is Receive
            &&& reached is AskingDone <==> action is AskDone
            &&& !(reached is Greeting)
        }),
{
}

/// As long as the connection is not done, the handshake goes round: a packet is made, written if there
/// is anything in it, the stream is read, the connection takes what was read, and is asked again.
pub proof fn law_handshake_goes_round(size: usize, packet: Vec<u8>, taken: HandshakeEvent)
    requires
        taken is Received || taken is WouldBlock,
    ensures
        ({
            let made = next_phase(
                next_phase(HandshakePhase::AskingDone, HandshakeEvent::IsDone(false)),
                HandshakeEvent::Made { size, packet },
            );
            let ready = if size > 0 {
                next_phase(made, HandshakeEvent::Written)
            } else {
                made
            };
            &&& made is Writing <==> size > 0
            &&& ready is Reading
            &&& next_phase(next_phase(ready, HandshakeEvent::Read), taken) is AskingDone
        }),
        next_phase(HandshakePhase::Greeting, HandshakeEvent::Written) is AskingDone,
        next_phase(HandshakePhase::AskingDone, HandshakeEvent::IsDone(true)) is Over,
{
}

} // verus!
