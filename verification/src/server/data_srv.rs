//! How a server hands its data to the clients that connect.

use crate::client::{downloaded, law_download_gives_the_data};
use crate::encrypted_stream::EncStreamErr;
use crate::models::{info_message, info_record, DataSrvInfo, InfoView};
use vstd::prelude::*;

verus! {

/// How a transfer is encrypted.
#[derive(Clone, Copy, Debug, Hash, PartialEq, Eq, Structural)]
pub enum EncryptionType {
    Plain,
    /// With keys that are made for the transfer.
    Ephemeral,
}

/// What a data server waits for.
#[derive(Clone, Copy, Debug, PartialEq, Eq, Structural)]
pub enum DataPhase {
    /// Whether the server has been ordered to shut down.
    CheckingShutdown,
    /// A connection, for a while.
    Accepting,
    /// That the info is sent.
    SendingInfo,
    /// That the only transfer is over.
    Transferring,
    /// Nothing more.
    Over,
}

/// What can happen to a data server.
#[derive(Clone, Copy, Debug, PartialEq, Eq, Structural)]
pub enum DataEvent {
    /// Whether the server has been ordered to shut down.
    Shutdown(bool),
    /// Nobody connected for a while.
    TimedOut,
    /// Somebody connected.
    Accepted,
    /// What was asked for is done.
    Done,
    /// What was asked for failed.
    Failed,
}

/// What a data server does next.
#[derive(Debug)]
pub enum DataAction {
    /// See whether the server has been ordered to shut down.
    CheckShutdown,
    /// Wait for a connection for a while.
    Accept,
    /// Send the info to the client that has connected.
    SendInfo(Vec<u8>),
    /// Start the transfer and let it run; then see whether the server has been ordered to shut down.
    TransferAndGoOn,
    /// Start the transfer, order the server to shut down, and wait until the transfer is over.
    TransferAndShutDown,
    /// End.
    Finish,
    /// End with the failure that was reported.
    Fail,
}

/// Whether `event` can happen in `phase`.
pub open spec fn possible(phase: DataPhase, event: DataEvent) -> bool {
    match phase {
        DataPhase::CheckingShutdown => event is Shutdown,
        DataPhase::Accepting => event is TimedOut || event is Accepted || event is Failed,
        DataPhase::SendingInfo => event is Done || event is Failed,
        DataPhase::Transferring => event is Done || event is Failed,
        DataPhase::Over => false,
    }
}

/// The phase after `event`. Without staying alive only one client matters.
pub open spec fn next_phase(stay_alive: bool, phase: DataPhase, event: DataEvent) -> DataPhase {
    match (phase, event) {
        (_, DataEvent::Failed) => DataPhase::Over,
        (DataPhase::CheckingShutdown, DataEvent::Shutdown(true)) => DataPhase::Over,
        (DataPhase::CheckingShutdown, _) => DataPhase::Accepting,
        (DataPhase::Accepting, DataEvent::Accepted) => DataPhase::SendingInfo,
        (DataPhase::Accepting, _) => DataPhase::CheckingShutdown,
        (DataPhase::SendingInfo, _) => if stay_alive {
            DataPhase::CheckingShutdown
        } else {
            DataPhase::Transferring
        },
        (DataPhase::Transferring, _) => DataPhase::Over,
        (DataPhase::Over, _) => DataPhase::Over,
    }
}

/// Whether `action` is what a data server does that has come to `phase` by `event`.
pub open spec fn leads_to(
    phase: DataPhase,
    event: DataEvent,
    info: InfoView,
    action: DataAction,
) -> bool {
    match (phase, event) {
        (DataPhase::CheckingShutdown, DataEvent::Done) => action is TransferAndGoOn,
        (DataPhase::CheckingShutdown, _) => action is CheckShutdown,
        (DataPhase::Accepting, _) => action is Accept,
        (DataPhase::SendingInfo, _) => action matches DataAction::SendInfo(bytes) && bytes@
            == info_message(info),
        (DataPhase::Transferring, _) => action is TransferAndShutDown,
        (DataPhase::Over, DataEvent::Failed) => action is Fail,
        (DataPhase::Over, _) => action is Finish,
    }
}

/// A server of data.
pub struct DataSrv {
    stay_alive: bool,
    info: DataSrvInfo,
    phase: DataPhase,
}

impl DataSrv {
    /// What the data server waits for.
    pub closed spec fn phase(&self) -> DataPhase {
        self.phase
    }

    /// Whether it goes on after its first client.
    pub closed spec fn stays_alive(&self) -> bool {
        self.stay_alive
    }

    /// What it tells clients about the data.
    pub closed spec fn info(&self) -> InfoView {
        self.info@
    }

    /// A data server that is about to begin, by seeing whether the server has been ordered to shut
    /// down.
    pub fn new(
        stay_alive: bool,
        tcp_port: u16,
        data_length: u64,
        enctype: EncryptionType,
        data_name: String,
    ) -> (r: Self)
        ensures
            r.phase() == DataPhase::CheckingShutdown,
            r.stays_alive() == stay_alive,
            r.info() == (InfoView {
                tcp_port,
                data_length,
                encrypted: !(enctype is Plain),
                data_name: data_name@,
            }),
    {
        DataSrv {
            stay_alive,
            info: DataSrvInfo {
                tcp_port,
                data_length,
                encrypted: enctype != EncryptionType::Plain,
                data_name,
            },
            phase: DataPhase::CheckingShutdown,
        }
    }

    /// Takes what has happened and says what to do next.
    pub fn on_event(&mut self, event: DataEvent) -> (r: DataAction)
        requires
            possible(old(self).phase(), event),
        ensures
            final(self).phase() == next_phase(old(self).stays_alive(), old(self).phase(), event),
            leads_to(final(self).phase(), event, old(self).info(), r),
            final(self).stays_alive() == old(self).stays_alive(),
            final(self).info() == old(self).info(),
    {
        match event {
            DataEvent::Failed => {
                self.phase = DataPhase::Over;
                DataAction::Fail
            },
            DataEvent::Shutdown(ordered) => if ordered {
                self.phase = DataPhase::Over;
                DataAction::Finish
            } else {
                self.phase = DataPhase::Accepting;
                DataAction::Accept
            },
            DataEvent::TimedOut => {
                self.phase = DataPhase::CheckingShutdown;
                DataAction::CheckShutdown
            },
            DataEvent::Accepted => {
                self.phase = DataPhase::SendingInfo;
                let mut bytes: Vec<u8> = Vec::new();
                self.info.write_to_stream(&mut bytes);
                assert(bytes@ =~= info_message(self.info@));
                DataAction::SendInfo(bytes)
            },
            DataEvent::Done => match self.phase {
                DataPhase::SendingInfo => if self.stay_alive {
                    self.phase = DataPhase::CheckingShutdown;
                    DataAction::TransferAndGoOn
                } else {
                    // Assumes only one client matters without staying alive
                    self.phase = DataPhase::Transferring;
                    DataAction::TransferAndShutDown
                },
                _ => {
                    self.phase = DataPhase::Over;
                    DataAction::Finish
                },
            },
        }
    }

    /// Whether a transfer begins with the encryption handshake.
    pub fn handshakes(&self) -> (r: bool)
        ensures
            r == self.info().encrypted,
    {
        self.info.encrypted
    }
}

/// How a transfer goes on after the handshake.
#[derive(Clone, Copy, Debug, PartialEq, Eq, Structural)]
pub enum AfterHandshake {
    /// The data is sent.
    Copy,
    /// The client was turned away, and that is that.
    HangUp,
    /// The transfer fails.
    Fail(EncStreamErr),
}

/// Decides how a transfer goes on after the handshake.
pub fn after_handshake(handshake: Result<(), EncStreamErr>) -> (r: AfterHandshake)
    ensures
        r == match handshake {
            Ok(_) => AfterHandshake::Copy,
            Err(EncStreamErr::ClientNotAccepted) => AfterHandshake::HangUp,
            Err(e) => AfterHandshake::Fail(e),
        },
{
    match handshake {
        Ok(_) => AfterHandshake::Copy,
        Err(EncStreamErr::ClientNotAccepted) => AfterHandshake::HangUp,
        Err(e) => AfterHandshake::Fail(e),
    }
}

/// The phase after `events`; none if they cannot happen in this order.
pub open spec fn after_events(
    stay_alive: bool,
    phase: DataPhase,
    events: Seq<DataEvent>,
) -> Option<DataPhase>
    decreases events.len(),
{
    if events.len() == 0 {
        Some(phase)
    } else if possible(phase, events[0]) {
        after_events(stay_alive, next_phase(stay_alive, phase, events[0]), events.drop_first())
    } else {
        None
    }
}

/// How many clients are accepted in the course of `events`.
pub open spec fn accepted(events: Seq<DataEvent>) -> nat
    decreases events.len(),
{
    if events.len() == 0 {
        0
    } else {
        accepted(events.drop_first()) + if events[0] is Accepted {
            1nat
        } else {
            0nat
        }
    }
}

/// A data server that does not stay alive serves one client at most, and once it has accepted one it
/// waits for no other.
pub proof fn law_one_client_without_stay_alive(events: Seq<DataEvent>)
    requires
        after_events(false, DataPhase::CheckingShutdown, events) is Some,
    ensures
        accepted(events) <= 1,
        accepted(events) == 1 ==> {
            let then = after_events(false, DataPhase::CheckingShutdown, events)->0;
            then is SendingInfo || then is Transferring || then is Over
        },
{
    lemma_few_clients(DataPhase::CheckingShutdown, events);
}

/// Before its client a data server that does not stay alive accepts one at most, and none after.
proof fn lemma_few_clients(phase: DataPhase, events: Seq<DataEvent>)
    requires
        after_events(false, phase, events) is Some,
    ensures
        accepted(events) <= 1,
        !(phase is CheckingShutdown || phase is Accepting) ==> accepted(events) == 0,
        !(phase is CheckingShutdown || phase is Accepting) || accepted(events) == 1 ==> {
            let then = after_events(false, phase, events)->0;
            then is SendingInfo || then is Transferring || then is Over
        },
    decreases events.len(),
{
    if events.len() > 0 {
        lemma_few_clients(next_phase(false, phase, events[0]), events.drop_first());
    }
}

/// A data server that stays alive goes on as long as there is no order to shut down and nothing that
/// it asked for fails.
pub proof fn law_stays_alive(phase: DataPhase, events: Seq<DataEvent>)
    requires
        phase is CheckingShutdown || phase is Accepting || phase is SendingInfo,
        forall|i: int|
            0 <= i < events.len() ==> (#[trigger] events[i]) != DataEvent::Shutdown(true)
                && events[i] != DataEvent::Failed,
    ensures
        match after_events(true, phase, events) {
            Some(then) => then is CheckingShutdown || then is Accepting || then is SendingInfo,
            None => true,
        },
    decreases events.len(),
{
    if events.len() > 0 {
        let rest = events.drop_first();
        assert forall|i: int| 0 <= i < rest.len() implies (#[trigger] rest[i])
            != DataEvent::Shutdown(true) && rest[i] != DataEvent::Failed by {
            assert(rest[i] == events[i + 1]);
        }
        assert(events[0] != DataEvent::Shutdown(true));
        if possible(phase, events[0]) {
            law_stays_alive(next_phase(true, phase, events[0]), rest);
        }
    }
}

/// What a data server sends to a client, its info and then the data, is downloaded as the data. One
/// byte has to hold the length of the info record.
pub proof fn law_client_gets_the_data(info: InfoView, action: DataAction, data: Seq<u8>)
    requires
        leads_to(DataPhase::SendingInfo, DataEvent::Accepted, info, action),
        info_record(info).len() <= 255,
        !info.encrypted,
        data.len() == info.data_length,
        info.data_length <= usize::MAX,
    ensures
        action matches DataAction::SendInfo(bytes) && downloaded(bytes@ + data) == Some(data),
{
    law_download_gives_the_data(info, data);
}

/// Whether or not it stays alive, a data server waits for its client as long as it takes: one that has
/// accepted no client, has not been ordered to shut down and has met no failure is still at it, however
/// often nobody connected for a while.
pub proof fn law_waits_for_a_client(stay_alive: bool, phase: DataPhase, events: Seq<DataEvent>)
    requires
        phase is CheckingShutdown || phase is Accepting,
        after_events(stay_alive, phase, events) is Some,
        forall|i: int|
            0 <= i < events.len() ==> (#[trigger] events[i]) != DataEvent::Shutdown(true)
                && events[i] != DataEvent::Accepted && events[i] != DataEvent::Failed,
    ensures
        after_events(stay_alive, phase, events) matches Some(reached) && (reached is CheckingShutdown
            || reached is Accepting),
    decreases events.len(),
{
    if events.len() > 0 {
        let rest = events.drop_first();
        assert forall|i: int| 0 <= i < rest.len() implies (#[trigger] rest[i])
            != DataEvent::Shutdown(true) && rest[i] != DataEvent::Accepted && rest[i]
            != DataEvent::Failed by {
            assert(rest[i] == events[i + 1]);
        }
        assert(events[0] != DataEvent::Shutdown(true));
        law_waits_for_a_client(stay_alive, next_phase(stay_alive, phase, events[0]), rest);
    }
}

/// A wait that nobody ends by connecting is followed by a look at the order to shut down, and that, if
/// there is none, by the next wait. So it goes round as often as need be.
pub proof fn law_waits_again(stay_alive: bool, info: InfoView, looks: DataAction, waits: DataAction)
    requires
        leads_to(
            next_phase(stay_alive, DataPhase::Accepting, DataEvent::TimedOut),
            DataEvent::TimedOut,
            info,
            looks,
        ),
        leads_to(
            next_phase(stay_alive, DataPhase::CheckingShutdown, DataEvent::Shutdown(false)),
            DataEvent::Shutdown(false),
            info,
            waits,
        ),
    ensures
        looks is CheckShutdown,
        waits is Accept,
        after_events(
            stay_alive,
            DataPhase::Accepting,
            seq![DataEvent::TimedOut, DataEvent::Shutdown(false)],
        ) == Some(DataPhase::Accepting),
{
    let round = seq![DataEvent::TimedOut, DataEvent::Shutdown(false)];
    reveal_with_fuel(after_events, 3);
    assert(round.drop_first() =~= seq![DataEvent::Shutdown(false)]);
    assert(round.drop_first().drop_first() =~= Seq::<DataEvent>::empty());
}

/// Every client that connects is served: it is sent the info, and after that the data. A server that
/// stays alive then looks out for the next client; one that does not orders the shutdown, and ends when
/// the transfer is over.
pub proof fn law_client_is_served(
    stay_alive: bool,
    info: InfoView,
    sends: DataAction,
    transfers: DataAction,
)
    requires
        leads_to(
            next_phase(stay_alive, DataPhase::Accepting, DataEvent::Accepted),
            DataEvent::Accepted,
            info,
            sends,
        ),
        leads_to(
            next_phase(
                stay_alive,
                next_phase(stay_alive, DataPhase::Accepting, DataEvent::Accepted),
                DataEvent::Done,
            ),
            DataEvent::Done,
            info,
            transfers,
        ),
    ensures
        sends matches DataAction::SendInfo(bytes) && bytes@ == info_message(info),
        stay_alive ==> transfers is TransferAndGoOn,
        !stay_alive ==> transfers is TransferAndShutDown,
        after_events(
            stay_alive,
            DataPhase::Accepting,
            seq![DataEvent::Accepted, DataEvent::Done],
        ) == Some(
            if stay_alive {
                DataPhase::CheckingShutdown
            } else {
                DataPhase::Transferring
            },
        ),
{
    let served = seq![DataEvent::Accepted, DataEvent::Done];
    reveal_with_fuel(after_events, 3);
    assert(served.drop_first() =~= seq![DataEvent::Done]);
    assert(served.drop_first().drop_first() =~= Seq::<DataEvent>::empty());
}

/// What a data server does tells what it waits for, and each thing that it does has its one reason: it
/// fails exactly on a failure, and ends well exactly when it is ordered to or when its only transfer is
/// over.
pub proof fn law_actions_have_reasons(
    stay_alive: bool,
    phase: DataPhase,
    event: DataEvent,
    info: InfoView,
    action: DataAction,
)
    requires
        possible(phase, event),
        leads_to(next_phase(stay_alive, phase, event), event, info, action),
    ensures
        action is Fail <==> event is Failed,
        action is Finish <==> event == DataEvent::Shutdown(true) || (phase is Transferring
            && event is Done),
        action is Accept <==> event == DataEvent::Shutdown(false),
        action is CheckShutdown <==> event is TimedOut,
        action is SendInfo <==> event is Accepted,
        action is TransferAndGoOn <==> phase is SendingInfo && event is Done && stay_alive,
        action is TransferAndShutDown <==> phase is SendingInfo && event is Done && !stay_alive,
        ({
            let reached = next_phase(stay_alive, phase, event);
            &&& reached is Over <==> action is Fail || action is Finish
            &&& reached is Accepting <==> action is Accept
            &&& reached is SendingInfo <==> action is SendInfo
            &&& reached is Transferring <==> action is TransferAndShutDown
            &&& reached is CheckingShutdown <==> action is CheckShutdown
                || action is TransferAndGoOn
        }),
{
}

/// Data goes to a client exactly if the handshake with it succeeded. A client that was turned away is no
/// failure; anything else that went wrong is, and is reported as it is.
pub proof fn law_data_follows_the_handshake(
    handshake: Result<(), EncStreamErr>,
    next: AfterHandshake,
)
    requires
        call_ensures(after_handshake, (handshake,), next),
    ensures
        next is Copy <==> handshake is Ok,
        next is HangUp <==> handshake == Err::<(), EncStreamErr>(EncStreamErr::ClientNotAccepted),
        next matches AfterHandshake::Fail(e) ==> handshake == Err::<(), EncStreamErr>(e),
{
}

} // verus!
