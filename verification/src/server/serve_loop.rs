//! How a server answers broadcasts until it is done.

use crate::client::{law_reply_is_understood, overlay, replied, REPLY_BUFFER};
use crate::codec::{law_reply_record_round_trip, read_reply, reply_bytes, CodecError};
use crate::models::DiscoveryReply;
use crate::net::SocketAddr;
use vstd::prelude::*;
use vstd::utf8::encode_utf8;

verus! {

/// What a server waits for.
#[derive(Clone, Copy, Debug, PartialEq, Eq, Structural)]
pub enum ServePhase {
    /// Whether it has been ordered to shut down.
    CheckingShutdown,
    /// A broadcast, for a while.
    Receiving,
    /// That a reply is sent.
    Sending,
    /// That the data server is done.
    AwaitingData,
    /// Nothing more.
    Over,
}

/// What can happen to a server.
#[derive(Clone, Copy, Debug, PartialEq, Eq, Structural)]
pub enum ServeEvent {
    /// Whether it has been ordered to shut down.
    Shutdown(bool),
    /// Nothing was received for a while.
    TimedOut,
    /// A broadcast was received from this address.
    Ping(SocketAddr),
    /// What was asked for is done.
    Done,
    /// What was asked for failed.
    Failed,
}

/// What a server does next.
#[derive(Debug)]
pub enum ServeAction {
    /// See whether it has been ordered to shut down.
    CheckShutdown,
    /// Wait for a broadcast for a while.
    Receive,
    /// Send a reply.
    SendReply { to: SocketAddr, bytes: Vec<u8> },
    /// Wait until the data server is done.
    AwaitData,
    /// Tidy up and end.
    Finish,
    /// End with the failure that was reported.
    Fail,
}

/// Whether `event` can happen in `phase`.
pub open spec fn possible(phase: ServePhase, event: ServeEvent) -> bool {
    match phase {
        ServePhase::CheckingShutdown => event is Shutdown,
        ServePhase::Receiving => event is TimedOut || event is Ping || event is Failed,
        ServePhase::Sending => event is Done || event is Failed,
        ServePhase::AwaitingData => event is Done || event is Failed,
        ServePhase::Over => false,
    }
}

/// The phase after `event`. A server that does not stay alive cares about no client but the first.
pub open spec fn next_phase(stay_alive: bool, phase: ServePhase, event: ServeEvent) -> ServePhase {
    match (phase, event) {
        (_, ServeEvent::Failed) => ServePhase::Over,
        (ServePhase::CheckingShutdown, ServeEvent::Shutdown(true)) => ServePhase::AwaitingData,
        (ServePhase::CheckingShutdown, _) => ServePhase::Receiving,
        (ServePhase::Receiving, ServeEvent::Ping(_)) => ServePhase::Sending,
        (ServePhase::Receiving, _) => ServePhase::CheckingShutdown,
        (ServePhase::Sending, _) => if stay_alive {
            ServePhase::CheckingShutdown
        } else {
            ServePhase::AwaitingData
        },
        (ServePhase::AwaitingData, _) => ServePhase::Over,
        (ServePhase::Over, _) => ServePhase::Over,
    }
}

/// Whether `action` is what a server does that has come to `phase` by `event`.
pub open spec fn leads_to(
    phase: ServePhase,
    event: ServeEvent,
    announced: (Seq<char>, u16),
    action: ServeAction,
) -> bool {
    match (phase, event) {
        (ServePhase::CheckingShutdown, _) => action is CheckShutdown,
        (ServePhase::Receiving, _) => action is Receive,
        (ServePhase::Sending, ServeEvent::Ping(peer)) => {
            &&& action matches ServeAction::SendReply { to, bytes }
            &&& to == peer
            &&& bytes@ == reply_bytes(announced.0, announced.1)
        },
        (ServePhase::Sending, _) => false,
        (ServePhase::AwaitingData, _) => action is AwaitData,
        (ServePhase::Over, ServeEvent::Failed) => action is Fail,
        (ServePhase::Over, _) => action is Finish,
    }
}

/// A server that answers broadcasts.
pub struct ServeLoop {
    stay_alive: bool,
    reply: DiscoveryReply,
    phase: ServePhase,
}

impl ServeLoop {
    /// What the server waits for.
    pub closed spec fn phase(&self) -> ServePhase {
        self.phase
    }

    /// Whether it goes on after its first client.
    pub closed spec fn stays_alive(&self) -> bool {
        self.stay_alive
    }

    /// The name and the TCP port that it announces.
    pub closed spec fn announced(&self) -> (Seq<char>, u16) {
        (self.reply.server_name@, self.reply.tcp_port)
    }

    /// A server that is about to begin, by seeing whether it has been ordered to shut down.
    pub fn new(stay_alive: bool, name: String, tcp_port: u16) -> (r: Self)
        ensures
            r.phase() == ServePhase::CheckingShutdown,
            r.stays_alive() == stay_alive,
            r.announced() == (name@, tcp_port),
    {
        ServeLoop {
            stay_alive,
            reply: DiscoveryReply { server_name: name, tcp_port },
            phase: ServePhase::CheckingShutdown,
        }
    }

    /// Takes what has happened and says what to do next.
    pub fn on_event(&mut self, event: ServeEvent) -> (r: ServeAction)
        requires
            possible(old(self).phase(), event),
        ensures
            final(self).phase() == next_phase(old(self).stays_alive(), old(self).phase(), event),
            leads_to(final(self).phase(), event, old(self).announced(), r),
            final(self).stays_alive() == old(self).stays_alive(),
            final(self).announced() == old(self).announced(),
    {
        match event {
            ServeEvent::Failed => {
                self.phase = ServePhase::Over;
                ServeAction::Fail
            },
            ServeEvent::Shutdown(ordered) => if ordered {
                self.phase = ServePhase::AwaitingData;
                ServeAction::AwaitData
            } else {
                self.phase = ServePhase::Receiving;
                ServeAction::Receive
            },
            ServeEvent::TimedOut => {
                // The shutdown flag has to be looked at again and again
                self.phase = ServePhase::CheckingShutdown;
                ServeAction::CheckShutdown
            },
            ServeEvent::Ping(peer) => {
                self.phase = ServePhase::Sending;
                ServeAction::SendReply { to: peer, bytes: self.reply.to_bytes() }
            },
            ServeEvent::Done => match self.phase {
                // The first client is the data server's now; without staying alive no other matters
                ServePhase::Sending => if self.stay_alive {
                    self.phase = ServePhase::CheckingShutdown;
                    ServeAction::CheckShutdown
                } else {
                    self.phase = ServePhase::AwaitingData;
                    ServeAction::AwaitData
                },
                _ => {
                    self.phase = ServePhase::Over;
                    ServeAction::Finish
                },
            },
        }
    }
}

/// The phase after `events`; none if they cannot happen in this order.
pub open spec fn after_events(
    stay_alive: bool,
    phase: ServePhase,
    events: Seq<ServeEvent>,
) -> Option<ServePhase>
    decreases events.len(),
{
    if events.len() == 0 {
        Some(phase)
    } else if possible(phase, events[0]) {
        after_events(stay_alive, next_phase(stay_alive, phase, events[0]), events.drop_first())
    } else {
        None
    }
}

/// How many broadcasts are among `events`, and so how many replies are sent.
pub open spec fn pings(events: Seq<ServeEvent>) -> nat
    decreases events.len(),
{
    if events.len() == 0 {
        0
    } else {
        pings(events.drop_first()) + if events[0] is Ping {
            1nat
        } else {
            0nat
        }
    }
}

/// A server that does not stay alive answers one broadcast at most, and once it has received one it
/// waits for no other.
pub proof fn law_one_reply_without_stay_alive(events: Seq<ServeEvent>)
    requires
        after_events(false, ServePhase::CheckingShutdown, events) is Some,
    ensures
        pings(events) <= 1,
        pings(events) == 1 ==> {
            let then = after_events(false, ServePhase::CheckingShutdown, events)->0;
            then is Sending || then is AwaitingData || then is Over
        },
{
    lemma_few_replies(ServePhase::CheckingShutdown, events);
}

/// Before its reply a server that does not stay alive answers one broadcast at most, and none after.
proof fn lemma_few_replies(phase: ServePhase, events: Seq<ServeEvent>)
    requires
        after_events(false, phase, events) is Some,
    ensures
        pings(events) <= 1,
        !(phase is CheckingShutdown || phase is Receiving) ==> pings(events) == 0,
        !(phase is CheckingShutdown || phase is Receiving) || pings(events) == 1 ==> {
            let then = after_events(false, phase, events)->0;
            then is Sending || then is AwaitingData || then is Over
        },
    decreases events.len(),
{
    if events.len() > 0 {
        lemma_few_replies(next_phase(false, phase, events[0]), events.drop_first());
    }
}

/// A server that stays alive goes on as long as it is not ordered to shut down and nothing fails.
pub proof fn law_stays_alive(phase: ServePhase, events: Seq<ServeEvent>)
    requires
        phase is CheckingShutdown || phase is Receiving || phase is Sending,
        forall|i: int|
            0 <= i < events.len() ==> (#[trigger] events[i]) != ServeEvent::Shutdown(true)
                && events[i] != ServeEvent::Failed,
    ensures
        match after_events(true, phase, events) {
            Some(then) => then is CheckingShutdown || then is Receiving || then is Sending,
            None => true,
        },
    decreases events.len(),
{
    if events.len() > 0 {
        let rest = events.drop_first();
        assert forall|i: int| 0 <= i < rest.len() implies (#[trigger] rest[i])
            != ServeEvent::Shutdown(true) && rest[i] != ServeEvent::Failed by {
            assert(rest[i] == events[i + 1]);
        }
        assert(events[0] != ServeEvent::Shutdown(true));
        if possible(phase, events[0]) {
            law_stays_alive(next_phase(true, phase, events[0]), rest);
        }
    }
}

/// An order to shut down is obeyed: from the next look at it, no broadcast is answered any more, and
/// the server ends once the data server is done.
pub proof fn law_shutdown_is_obeyed(stay_alive: bool, events: Seq<ServeEvent>)
    requires
        events.len() > 0,
        events[0] == ServeEvent::Shutdown(true),
        after_events(stay_alive, ServePhase::CheckingShutdown, events) is Some,
    ensures
        pings(events) == 0,
        events.len() <= 2,
        events.len() == 2 ==> after_events(stay_alive, ServePhase::CheckingShutdown, events)
            == Some(ServePhase::Over),
{
    let rest = events.drop_first();
    if rest.len() > 0 {
        assert(after_events(stay_alive, ServePhase::AwaitingData, rest) is Some);
        let last = rest.drop_first();
        assert(after_events(stay_alive, ServePhase::Over, last) is Some);
        assert(last.len() == 0);
        assert(pings(last) == 0);
        assert(pings(rest) == 0);
    } else {
        assert(pings(rest) == 0);
    }
}

/// Whether or not it stays alive, a server waits for a broadcast as long as it takes: one that has
/// received none, has not been ordered to shut down and has met no failure is still at it, however often
/// nothing came for a while.
pub proof fn law_waits_for_a_broadcast(stay_alive: bool, phase: ServePhase, events: Seq<ServeEvent>)
    requires
        phase is CheckingShutdown || phase is Receiving,
        after_events(stay_alive, phase, events) is Some,
        forall|i: int|
            0 <= i < events.len() ==> (#[trigger] events[i]) != ServeEvent::Shutdown(true)
                && !(events[i] is Ping) && events[i] != ServeEvent::Failed,
    ensures
        after_events(stay_alive, phase, events) matches Some(reached) && (reached is CheckingShutdown
            || reached is Receiving),
    decreases events.len(),
{
    if events.len() > 0 {
        let rest = events.drop_first();
        assert forall|i: int| 0 <= i < rest.len() implies (#[trigger] rest[i])
            != ServeEvent::Shutdown(true) && !(rest[i] is Ping) && rest[i]
            != ServeEvent::Failed by {
            assert(rest[i] == events[i + 1]);
        }
        assert(events[0] != ServeEvent::Shutdown(true));
        law_waits_for_a_broadcast(stay_alive, next_phase(stay_alive, phase, events[0]), rest);
    }
}

/// A wait in which nothing comes is followed by a look at the order to shut down, and that, if there is
/// none, by the next wait.
pub proof fn law_waits_again(
    stay_alive: bool,
    announced: (Seq<char>, u16),
    looks: ServeAction,
    waits: ServeAction,
)
    requires
        leads_to(
            next_phase(stay_alive, ServePhase::Receiving, ServeEvent::TimedOut),
            ServeEvent::TimedOut,
            announced,
            looks,
        ),
        leads_to(
            next_phase(stay_alive, ServePhase::CheckingShutdown, ServeEvent::Shutdown(false)),
            ServeEvent::Shutdown(false),
            announced,
            waits,
        ),
    ensures
        looks is CheckShutdown,
        waits is Receive,
        after_events(
            stay_alive,
            ServePhase::Receiving,
            seq![ServeEvent::TimedOut, ServeEvent::Shutdown(false)],
        ) == Some(ServePhase::Receiving),
{
    let round = seq![ServeEvent::TimedOut, ServeEvent::Shutdown(false)];
    reveal_with_fuel(after_events, 3);
    assert(round.drop_first() =~= seq![ServeEvent::Shutdown(false)]);
    assert(round.drop_first().drop_first() =~= Seq::<ServeEvent>::empty());
}

/// A broadcast is answered to the one who sent it, and the client that reads the answer finds the server
/// at the announced port: this holds whatever was in its reply buffer, for an answer that fits into it.
pub proof fn law_broadcast_is_answered(
    stay_alive: bool,
    peer: SocketAddr,
    announced: (Seq<char>, u16),
    action: ServeAction,
    buf: Seq<u8>,
    server: SocketAddr,
)
    requires
        leads_to(
            next_phase(stay_alive, ServePhase::Receiving, ServeEvent::Ping(peer)),
            ServeEvent::Ping(peer),
            announced,
            action,
        ),
        buf.len() == REPLY_BUFFER,
        reply_bytes(announced.0, announced.1).len() <= REPLY_BUFFER,
    ensures
        action matches ServeAction::SendReply { to, bytes } && to == peer && (replied(
            overlay(buf, bytes@),
            server,
        ) matches Ok(found) && found.addr.port_of() == announced.1 && found.addr
            == server.with_port(announced.1)),
{
    law_reply_is_understood(buf, announced.0, announced.1, server);
}

/// What a server does tells what it waits for, and each thing that it does has its one reason: it fails
/// exactly on a failure, it ends well exactly when the data server is done, and it waits for that
/// exactly when it is ordered to shut down or when its only answer is sent.
pub proof fn law_actions_have_reasons(
    stay_alive: bool,
    phase: ServePhase,
    event: ServeEvent,
    announced: (Seq<char>, u16),
    action: ServeAction,
)
    requires
        possible(phase, event),
        leads_to(next_phase(stay_alive, phase, event), event, announced, action),
    ensures
        action is Fail <==> event is Failed,
        action is Finish <==> phase is AwaitingData && event is Done,
        action is AwaitData <==> event == ServeEvent::Shutdown(true) || (phase is Sending
            && event is Done && !stay_alive),
        action is CheckShutdown <==> event is TimedOut || (phase is Sending && event is Done
            && stay_alive),
        action is Receive <==> event == ServeEvent::Shutdown(false),
        action is SendReply <==> event is Ping,
        ({
            let reached = next_phase(stay_alive, phase, event);
            &&& reached is Over <==> action is Fail || action is Finish
            &&& reached is AwaitingData <==> action is AwaitData
            &&& reached is Receiving <==> action is Receive
            &&& reached is Sending <==> action is SendReply
            &&& reached is CheckingShutdown <==> action is CheckShutdown
        }),
{
}

/// What is answered to a broadcast reads as the name and the port that the server announces, whichever
/// they are.
pub proof fn law_answer_says_who_and_where(
    stay_alive: bool,
    peer: SocketAddr,
    announced: (Seq<char>, u16),
    action: ServeAction,
)
    requires
        leads_to(
            next_phase(stay_alive, ServePhase::Receiving, ServeEvent::Ping(peer)),
            ServeEvent::Ping(peer),
            announced,
            action,
        ),
        encode_utf8(announced.0).len() <= usize::MAX,
    ensures
        action matches ServeAction::SendReply { to, bytes } && to == peer && read_reply(bytes@)
            == Ok::<(Seq<char>, u16), CodecError>((announced.0, announced.1)),
{
    let bytes = reply_bytes(announced.0, announced.1);
    law_reply_record_round_trip(announced.0, announced.1, Seq::empty());
    assert(bytes + Seq::<u8>::empty() =~= bytes);
}

} // verus!
