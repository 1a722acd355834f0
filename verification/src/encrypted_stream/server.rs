//! The server's side: it answers the handshake, has the client approved and then writes.

use crate::client_approver::{ApproverErr, ClientApprover};
use crate::encrypted_stream::client::{
    client_settled, greets, AwaitingApproval, EncryptedReadStream,
};
use crate::encrypted_stream::noise::{
    after_read, build_responder, client_says, generate_keypair, handshake_read, handshake_write,
    in_step, into_transport, noise_open, noise_seal, own_static, remote_key, remote_static, sending,
    server_says, split_keys, transport_write, xx_progress, MAX_PAYLOAD, PATTERN,
};
use crate::encrypted_stream::{frame, send, EncStreamErr};
use crate::models::ClientId;
use crate::server::{approval_byte, BuildMode, ClientApprovalStrategy};
use crate::wire::copy_of;
use vstd::prelude::*;

verus! {

/// A server that has not received anything yet.
pub struct ServerEncryptedStreamStarter;

/// A server that waits for the client's first message.
pub struct AwaitingHello {
    noise: snow::HandshakeState,
}

/// A server that has answered and waits for the client's last message.
pub struct AwaitingClientKey {
    noise: snow::HandshakeState,
}

/// A client whose key the server has, and on which nothing is decided yet.
pub struct PendingClient {
    noise: snow::HandshakeState,
    their_pubkey: Vec<u8>,
}

/// A stream to which a server writes what is encrypted for a client.
pub struct EncryptedWriteStream {
    noise: snow::TransportState,
    their_pubkey: Vec<u8>,
}

impl ServerEncryptedStreamStarter {
    /// A server at the beginning of a key exchange.
    pub fn new() -> (r: Self)
        ensures
            r == ServerEncryptedStreamStarter,
    {
        ServerEncryptedStreamStarter
    }

    /// Begins the key exchange with a fresh key. The first message is the client's.
    pub fn key_exchange(self) -> (r: Result<AwaitingHello, EncStreamErr>)
        ensures
            r matches Ok(server) && xx_progress(server.session()) == Some((false, 0nat))
                && server.begun(),
    {
        let key = match generate_keypair(PATTERN) {
            Ok(key) => key,
            Err(_) => return Err(EncStreamErr::Other),
        };
        match build_responder(PATTERN, &key.0) {
            Ok(noise) => Ok(AwaitingHello { noise }),
            Err(_) => Err(EncStreamErr::Other),
        }
    }
}

impl AwaitingHello {
    /// No message has passed.
    #[verifier::type_invariant]
    spec fn inv(&self) -> bool {
        xx_progress(self.noise) == Some((false, 0nat))
    }

    /// The session as it stands.
    pub closed spec fn session(&self) -> snow::HandshakeState {
        self.noise
    }

    /// Whether the session comes from a key pair that was drawn for it.
    pub closed spec fn begun(&self) -> bool {
        exists|pair: (Vec<u8>, Vec<u8>)|
            {
                &&& #[trigger] call_ensures(generate_keypair, (PATTERN,), Ok(pair))
                &&& call_ensures(build_responder, (PATTERN, &pair.0), Ok(self.noise))
            }
    }

    /// Takes the client's first message, which is good if it can hold a key. The answer, keys and
    /// tags in a frame, is put behind `outgoing`; nothing is sent after a bad message.
    pub fn on_message(self, message: &[u8], outgoing: &mut Vec<u8>) -> (r: Result<
        AwaitingClientKey,
        EncStreamErr,
    >)
        ensures
            32 <= message@.len() <= 65535 ==> r is Ok,
            r is Ok <==> after_read(self.session(), message@) is Some,
            match r {
                Ok(next) => exists|reply: Seq<u8>|
                    {
                        &&& reply.len() == 96
                        &&& final(outgoing)@ == old(outgoing)@ + #[trigger] frame(reply)
                        &&& server_says(
                            after_read(self.session(), message@)->0,
                            reply,
                            next.session(),
                        )
                    },
                Err(e) => e == EncStreamErr::Other && final(outgoing)@ == old(outgoing)@,
            },
    {
        proof {
            use_type_invariant(&self);
        }
        let mut noise = self.noise;
        // <- e
        if handshake_read(&mut noise, message).is_err() {
            return Err(EncStreamErr::Other);
        }
        // -> e, ee, s, es
        match handshake_write(&mut noise) {
            Ok(reply) => {
                send(outgoing, &reply);
                Ok(AwaitingClientKey { noise })
            },
            Err(_) => Err(EncStreamErr::Other),
        }
    }
}

impl AwaitingClientKey {
    /// Two messages have passed.
    #[verifier::type_invariant]
    spec fn inv(&self) -> bool {
        xx_progress(self.noise) == Some((false, 2nat))
    }

    /// The session as it stands.
    pub closed spec fn session(&self) -> snow::HandshakeState {
        self.noise
    }

    /// Takes the client's last message, which brings its key if it is genuine.
    pub fn on_message(self, message: &[u8]) -> (r: Result<PendingClient, EncStreamErr>)
        ensures
            match r {
                Ok(pending) => {
                    &&& after_read(self.session(), message@) == Some(pending.session())
                    &&& remote_static(pending.session()) == Some(pending.peer())
                    &&& pending.peer().len() == 32
                    &&& knows_client(pending.session(), pending.peer())
                },
                Err(e) => after_read(self.session(), message@) is None && e
                    == EncStreamErr::Other,
            },
    {
        proof {
            use_type_invariant(&self);
        }
        let mut noise = self.noise;
        // <- s, se
        if handshake_read(&mut noise, message).is_err() {
            return Err(EncStreamErr::Other);
        }
        match remote_key(&noise) {
            Some(their_pubkey) => Ok(PendingClient { noise, their_pubkey }),
            None => Err(EncStreamErr::Other),
        }
    }
}

/// Whether `peer` is the key of every client that is in step with the server's `session`.
pub open spec fn knows_client(session: snow::HandshakeState, peer: Seq<u8>) -> bool {
    forall|client: snow::HandshakeState| #[trigger]
        in_step(client, session) ==> peer == own_static(client)
}

/// Whether `r` is what a server makes of its own decision on the client with the key `peer`, at the
/// end of the handshake `session`.
pub open spec fn server_settled(
    session: snow::HandshakeState,
    peer: Seq<u8>,
    approved: bool,
    r: Result<EncryptedWriteStream, EncStreamErr>,
) -> bool {
    match r {
        Ok(stream) => {
            &&& approved
            &&& stream.outgoing() == Some((split_keys(session).1, 0u64))
            &&& stream.peer() == peer
        },
        Err(e) => !approved && e == EncStreamErr::ClientNotAccepted,
    }
}

impl PendingClient {
    /// All three messages have passed, and the client's key is the one that they brought.
    #[verifier::type_invariant]
    spec fn inv(&self) -> bool {
        &&& xx_progress(self.noise) == Some((false, 3nat))
        &&& remote_static(self.noise) == Some(self.their_pubkey@)
    }

    /// The client's public key.
    pub closed spec fn peer(&self) -> Seq<u8> {
        self.their_pubkey@
    }

    /// The session as it stands.
    pub closed spec fn session(&self) -> snow::HandshakeState {
        self.noise
    }

    /// The client that is to be decided on.
    pub fn client_id(&self) -> (r: ClientId)
        ensures
            r.key() == self.peer(),
    {
        ClientId::new(copy_of(&self.their_pubkey))
    }

    /// Decides on the client: the byte to send to the client, and the stream if it is accepted.
    pub fn decide(self, approved: bool) -> (r: (u8, Result<EncryptedWriteStream, EncStreamErr>))
        ensures
            r.0 == approval_byte(approved),
            server_settled(self.session(), self.peer(), approved, r.1),
    {
        proof {
            use_type_invariant(&self);
        }
        // The client is told if it is not approved, for a graceful hangup
        if !approved {
            return (0, Err(EncStreamErr::ClientNotAccepted));
        }
        match into_transport(self.noise) {
            Ok(noise) => (
                1,
                Ok(EncryptedWriteStream { noise, their_pubkey: self.their_pubkey }),
            ),
            Err(_) => (1, Err(EncStreamErr::Other)),
        }
    }

    /// Has the client approved and puts the verdict behind `outgoing`. If the approver fails, no
    /// verdict is sent.
    ///
    /// Approving everybody is not for production.
    pub fn settle<A: ClientApprover>(
        self,
        approval_strat: ClientApprovalStrategy,
        build: BuildMode,
        approver: &A,
        outgoing: &mut Vec<u8>,
    ) -> (r: Result<EncryptedWriteStream, EncStreamErr>)
        requires
            !(build is Production && approval_strat is ApproveAll),
        ensures
            approval_strat is ApproveAll ==> {
                &&& final(outgoing)@ == old(outgoing)@.push(1)
                &&& server_settled(self.session(), self.peer(), true, r)
            },
            approval_strat is Interactive ==> exists|
                id: ClientId,
                answer: Result<bool, ApproverErr>,
            |
                {
                    &&& id.key() == self.peer()
                    &&& #[trigger] call_ensures(A::submit, (approver, id), answer)
                    &&& match answer {
                        Ok(approved) => {
                            &&& final(outgoing)@ == old(outgoing)@.push(approval_byte(approved))
                            &&& server_settled(self.session(), self.peer(), approved, r)
                        },
                        Err(_) => final(outgoing)@ == old(outgoing)@ && r == Err::<
                            EncryptedWriteStream,
                            EncStreamErr,
                        >(EncStreamErr::Other),
                    }
                },
    {
        let approved: bool = match approval_strat {
            ClientApprovalStrategy::ApproveAll => true,
            ClientApprovalStrategy::Interactive => match approver.submit(self.client_id()) {
                Ok(answer) => answer,
                Err(_) => return Err(EncStreamErr::Other),
            },
        };
        let (verdict, stream) = self.decide(approved);
        outgoing.push(verdict);
        stream
    }
}

impl EncryptedWriteStream {
    /// Key and counter of the next message; none if this side may not send.
    pub closed spec fn outgoing(&self) -> Option<(Seq<u8>, u64)> {
        sending(self.noise)
    }

    /// The client's public key.
    pub closed spec fn peer(&self) -> Seq<u8> {
        self.their_pubkey@
    }

    /// The client that this stream leads to.
    pub fn get_client_id(&self) -> (r: ClientId)
        ensures
            r.key() == self.peer(),
    {
        ClientId::new(copy_of(&self.their_pubkey))
    }

    /// Encrypts `buf` and puts the frame of the message behind `underlying`. Returns how long the
    /// frame is. Nothing is sent once the message counter has run out.
    pub fn poll_write(&mut self, buf: &[u8], underlying: &mut Vec<u8>) -> (r: Result<
        usize,
        EncStreamErr,
    >)
        requires
            buf@.len() <= MAX_PAYLOAD,
        ensures
            final(self).peer() == old(self).peer(),
            match (r, old(self).outgoing()) {
                (Ok(sent), Some((key, counter))) => {
                    let message = noise_seal(key, counter, buf@);
                    &&& counter < u64::MAX
                    &&& sent == buf@.len() + 18
                    &&& final(underlying)@ == old(underlying)@ + frame(message)
                    &&& message.len() == buf@.len() + 16
                    &&& noise_open(key, counter, message) == Some(buf@)
                    &&& final(self).outgoing() == Some((key, (counter + 1) as u64))
                },
                (Ok(_), None) => false,
                (Err(e), outgoing) => {
                    &&& outgoing matches Some((_, counter)) ==> counter == u64::MAX
                    &&& e == EncStreamErr::Other
                    &&& final(underlying)@ == old(underlying)@
                    &&& final(self).outgoing() == outgoing
                },
            },
    {
        match transport_write(&mut self.noise, buf) {
            Ok(message) => Ok(send(underlying, &message)),
            Err(_) => Err(EncStreamErr::Other),
        }
    }
}

/// A client and a server that get each other's messages come to the end of the handshake: each message
/// is taken, and in the end the two are in step. The premises are what the steps of the two sides
/// ensure of the messages that they send.
pub proof fn law_handshake_succeeds(
    hello: Seq<u8>,
    reply: Seq<u8>,
    last: Seq<u8>,
    client_begun: snow::HandshakeState,
    client_done: snow::HandshakeState,
    server_begun: snow::HandshakeState,
    server_replied: snow::HandshakeState,
)
    requires
        xx_progress(server_begun) == Some((false, 0nat)),
        greets(hello, client_begun),
        after_read(server_begun, hello) matches Some(heard) ==> server_says(
            heard,
            reply,
            server_replied,
        ),
        after_read(client_begun, reply) matches Some(heard) ==> client_says(
            heard,
            last,
            client_done,
        ),
    ensures
        after_read(server_begun, hello) is Some,
        after_read(client_begun, reply) is Some,
        after_read(server_replied, last) matches Some(server_done) && in_step(
            client_done,
            server_done,
        ),
{
    let heard = after_read(server_begun, hello)->0;
    assert(in_step(client_begun, heard));
    let answered = after_read(client_begun, reply)->0;
    assert(in_step(answered, server_replied));
}

/// The id that a client shows is the id that the server shows: a server that is in step with a client
/// knows it by the key that the client has for its own.
pub proof fn law_server_knows_the_client(
    own_key: Seq<u8>,
    client: AwaitingApproval,
    server: PendingClient,
)
    requires
        own_static(client.session()) == own_key,
        in_step(client.session(), server.session()),
        knows_client(server.session(), server.peer()),
    ensures
        server.peer() == own_key,
{
}

/// A client learns what the server decided, and the two sides, if they are in step at the end of the
/// handshake, take the same way from there: two streams in step, the first message of the one being
/// the one that is due for the other; or an error that says that the client was rejected.
pub proof fn law_both_sides_settle_alike(
    client_session: snow::HandshakeState,
    server_session: snow::HandshakeState,
    peer: Seq<u8>,
    approved: bool,
    client: Result<EncryptedReadStream, EncStreamErr>,
    server: Result<EncryptedWriteStream, EncStreamErr>,
)
    requires
        in_step(client_session, server_session),
        client_settled(client_session, approval_byte(approved), client),
        server_settled(server_session, peer, approved, server),
    ensures
        match (client, server) {
            (Ok(reader), Ok(writer)) => approved && reader.incoming() == writer.outgoing(),
            (Err(c), Err(s)) => !approved && c == EncStreamErr::ClientNotAccepted && s
                == EncStreamErr::ClientNotAccepted,
            _ => false,
        },
{
}

/// A client that is approved, and no other, gets a stream, which leads to that client and begins with the
/// first message. One that is not is known to be rejected.
pub proof fn law_only_the_approved_are_served(
    session: snow::HandshakeState,
    peer: Seq<u8>,
    approved: bool,
    r: Result<EncryptedWriteStream, EncStreamErr>,
)
    requires
        server_settled(session, peer, approved, r),
    ensures
        match r {
            Ok(stream) => approved && stream.peer() == peer && stream.outgoing() == Some(
                (split_keys(session).1, 0u64),
            ),
            Err(e) => !approved && e is ClientNotAccepted,
        },
{
}

} // verus!
