//! The client's side: it begins the handshake, waits for its approval and then reads.

use crate::encrypted_stream::noise::{
    after_read, build_initiator, client_says, generate_keypair, handshake_read, handshake_write,
    in_step, into_transport, own_static, received, receiving, split_keys, transport_read,
    xx_progress, PATTERN,
};
use crate::encrypted_stream::{frame, send, EncStreamErr};
use crate::models::ClientId;
use crate::wire::copy_of;
use vstd::prelude::*;

verus! {

/// A client that has not sent anything yet.
pub struct ClientEncryptedStreamStarter;

/// A client that has sent its first message and waits for the server's answer.
pub struct AwaitingServer {
    noise: snow::HandshakeState,
    public_key: Vec<u8>,
}

/// A client that has sent its last message and waits for the server's verdict.
pub struct AwaitingApproval {
    noise: snow::HandshakeState,
}

/// A stream from which a client reads what a server encrypts for it.
pub struct EncryptedReadStream {
    noise: snow::TransportState,
}

/// Whether `hello` begins a handshake: every server that has had no message yet takes it, and is then
/// in step with the client's session.
pub open spec fn greets(hello: Seq<u8>, session: snow::HandshakeState) -> bool {
    forall|server: snow::HandshakeState|
        xx_progress(server) == Some((false, 0nat)) ==> {
            &&& #[trigger] after_read(server, hello) matches Some(heard)
            &&& in_step(session, heard)
        }
}

impl ClientEncryptedStreamStarter {
    /// A client at the beginning of a key exchange.
    pub fn new() -> (r: Self)
        ensures
            r == ClientEncryptedStreamStarter,
    {
        ClientEncryptedStreamStarter
    }

    /// Begins the key exchange with a fresh key: the first message, an ephemeral key in a frame, is
    /// put behind `outgoing`.
    pub fn key_exchange(self, outgoing: &mut Vec<u8>) -> (r: Result<AwaitingServer, EncStreamErr>)
        ensures
            r matches Ok(client) && {
                &&& client.own_key().len() == 32
                &&& own_static(client.session()) == client.own_key()
                &&& exists|hello: Seq<u8>|
                    {
                        &&& hello.len() == 32
                        &&& final(outgoing)@ == old(outgoing)@ + #[trigger] frame(hello)
                        &&& greets(hello, client.session())
                        &&& client.begun(hello)
                    }
            },
    {
        let key = match generate_keypair(PATTERN) {
            Ok(key) => key,
            Err(_) => return Err(EncStreamErr::Other),
        };
        let mut noise = match build_initiator(PATTERN, &key.0) {
            Ok(noise) => noise,
            Err(_) => return Err(EncStreamErr::Other),
        };
        let ghost fresh = noise;
        // -> e
        let message = match handshake_write(&mut noise) {
            Ok(message) => message,
            Err(_) => return Err(EncStreamErr::Other),
        };
        send(outgoing, &message);
        proof {
            assert forall|server: snow::HandshakeState|
                xx_progress(server) == Some((false, 0nat)) implies {
                &&& #[trigger] after_read(server, message@) matches Some(heard)
                &&& in_step(noise, heard)
            } by {
                assert(in_step(fresh, server));
            }
        }
        Ok(AwaitingServer { noise, public_key: key.1 })
    }
}

impl AwaitingServer {
    /// The client has written the first message and is to read the second.
    #[verifier::type_invariant]
    spec fn inv(&self) -> bool {
        xx_progress(self.noise) == Some((true, 1nat))
    }

    /// The session as it stands.
    pub closed spec fn session(&self) -> snow::HandshakeState {
        self.noise
    }

    /// Whether the session comes from a key pair that was drawn for it, whose public key is the
    /// client's, and has written `hello`.
    pub closed spec fn begun(&self, hello: Seq<u8>) -> bool {
        exists|pair: (Vec<u8>, Vec<u8>), fresh: snow::HandshakeState|
            {
                &&& call_ensures(generate_keypair, (PATTERN,), Ok(pair))
                &&& #[trigger] call_ensures(build_initiator, (PATTERN, &pair.0), Ok(fresh))
                &&& client_says(fresh, hello, self.noise)
                &&& self.public_key == pair.1
            }
    }

    /// The client's public key.
    pub closed spec fn own_key(&self) -> Seq<u8> {
        self.public_key@
    }

    /// The id under which the server will know this client.
    pub fn client_id(&self) -> (r: ClientId)
        ensures
            r.key() == self.own_key(),
    {
        ClientId::new(copy_of(&self.public_key))
    }

    /// Takes the server's message. If it is genuine, the client's last message, its static key in a
    /// frame, is put behind `outgoing`; otherwise nothing is sent.
    pub fn on_message(self, message: &[u8], outgoing: &mut Vec<u8>) -> (r: Result<
        AwaitingApproval,
        EncStreamErr,
    >)
        ensures
            r is Ok <==> after_read(self.session(), message@) is Some,
            match r {
                Ok(next) => {
                    &&& own_static(next.session()) == own_static(self.session())
                    &&& exists|reply: Seq<u8>|
                        {
                            &&& reply.len() == 64
                            &&& final(outgoing)@ == old(outgoing)@ + #[trigger] frame(reply)
                            &&& client_says(
                                after_read(self.session(), message@)->0,
                                reply,
                                next.session(),
                            )
                        }
                },
                Err(e) => e == EncStreamErr::Other && final(outgoing)@ == old(outgoing)@,
            },
    {
        proof {
            use_type_invariant(&self);
        }
        let mut noise = self.noise;
        // <- e, ee, s, es
        if handshake_read(&mut noise, message).is_err() {
            return Err(EncStreamErr::Other);
        }
        // -> s, se
        match handshake_write(&mut noise) {
            Ok(reply) => {
                send(outgoing, &reply);
                Ok(AwaitingApproval { noise })
            },
            Err(_) => Err(EncStreamErr::Other),
        }
    }
}

/// Whether `r` is what a client makes of the server's verdict at the end of the handshake `session`.
pub open spec fn client_settled(
    session: snow::HandshakeState,
    verdict: u8,
    r: Result<EncryptedReadStream, EncStreamErr>,
) -> bool {
    match r {
        Ok(stream) => {
            &&& verdict == 1
            &&& stream.incoming() == Some((split_keys(session).1, 0u64))
            &&& forall|server: snow::HandshakeState| #[trigger]
                in_step(session, server) ==> split_keys(server) == split_keys(session)
        },
        Err(e) => verdict != 1 && e == EncStreamErr::ClientNotAccepted,
    }
}

impl AwaitingApproval {
    /// All three messages have passed.
    #[verifier::type_invariant]
    spec fn inv(&self) -> bool {
        xx_progress(self.noise) == Some((true, 3nat))
    }

    /// The session as it stands.
    pub closed spec fn session(&self) -> snow::HandshakeState {
        self.noise
    }

    /// Takes the server's verdict. Any byte but 1 is a rejection.
    pub fn on_approval(self, verdict: u8) -> (r: Result<EncryptedReadStream, EncStreamErr>)
        ensures
            client_settled(self.session(), verdict, r),
    {
        proof {
            use_type_invariant(&self);
        }
        // Give up if we were rejected
        if verdict != 1 {
            return Err(EncStreamErr::ClientNotAccepted);
        }
        match into_transport(self.noise) {
            Ok(noise) => Ok(EncryptedReadStream { noise }),
            Err(_) => Err(EncStreamErr::Other),
        }
    }
}

/// What the underlying stream had for a reader.
pub enum Received {
    /// A whole message.
    Message(Vec<u8>),
    /// The stream ended before a whole message was there.
    UnexpectedEof,
    /// Nothing yet.
    Pending,
}

/// What a read comes to.
#[derive(Clone, Copy, Debug, PartialEq, Eq, Structural)]
pub enum PollRead {
    /// So many bytes were put at the front of the buffer. None means the end of the stream.
    Ready(usize),
    /// "Decryption error".
    DecryptionError,
    /// Nothing yet.
    Pending,
}

impl EncryptedReadStream {
    /// Key and counter of the next message that is due; none if this side may not receive.
    pub closed spec fn incoming(&self) -> Option<(Seq<u8>, u64)> {
        receiving(self.noise)
    }

    /// Makes of what was received what is handed to the reader.
    pub fn poll_read(&mut self, r: Received, buf: &mut [u8]) -> (polled: PollRead)
        ensures
            final(buf)@.len() == old(buf)@.len(),
            match r {
                Received::Pending => polled is Pending,
                Received::UnexpectedEof => polled == PollRead::Ready(0),
                Received::Message(_) => polled is Ready || polled is DecryptionError,
            },
            !(r is Message) ==> final(self).incoming() == old(self).incoming() && final(buf)@ == old(
                buf,
            )@,
            match (r, old(self).incoming()) {
                (Received::Message(msg), Some((key, counter))) => {
                    let (payload, after) = received(key, counter, msg@, old(buf)@.len());
                    &&& final(self).incoming() == Some((key, after))
                    &&& match payload {
                        Some(text) => polled == PollRead::Ready(text.len() as usize) && final(buf)@
                            == text + old(buf)@.skip(text.len() as int) && text.len() + 16
                            == msg@.len(),
                        None => polled is DecryptionError,
                    }
                },
                (Received::Message(_), None) => polled is DecryptionError && final(self).incoming()
                    is None,
                _ => true,
            },
    {
        match r {
            Received::Message(msg) => {
                match transport_read(&mut self.noise, &msg, buf) {
                    Ok(written) => PollRead::Ready(written),
                    Err(_) => PollRead::DecryptionError,
                }
            },
            Received::UnexpectedEof => PollRead::Ready(0),
            Received::Pending => PollRead::Pending,
        }
    }
}

/// Of all bytes that a server can send for its verdict, 1 and no other lets a client in. The client then
/// receives from the first message on, under the key of the server's messages. After any other byte it is
/// told that it was rejected.
pub proof fn law_only_one_lets_in(
    session: snow::HandshakeState,
    verdict: u8,
    r: Result<EncryptedReadStream, EncStreamErr>,
)
    requires
        client_settled(session, verdict, r),
    ensures
        match r {
            Ok(stream) => verdict == 1 && stream.incoming() == Some((split_keys(session).1, 0u64)),
            Err(e) => verdict != 1 && e is ClientNotAccepted,
        },
{
}

} // verus!
