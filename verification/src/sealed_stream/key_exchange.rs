//! How the two sides of a sealed stream agree on a secret.

use crate::client_approver::{ApproverErr, ClientApprover};
use crate::crypto::{diffie_hellman, public_key, x25519_public, x25519_shared};
use crate::encrypted_stream::EncStreamErr;
use crate::models::ClientId;
use crate::sealed_stream::{EncryptedReadStream, EncryptedWriteStream};
use crate::server::{approval_byte, BuildMode, ClientApprovalStrategy};
use crate::wire::{append_slice, copy_of, ByteReader};
use vstd::prelude::*;

verus! {

/// Whether `shared` is also what the owner of the key `their_public` derives, given the public key
/// that belongs to `secret`.
pub open spec fn agrees(secret: Seq<u8>, their_public: Seq<u8>, shared: Seq<u8>) -> bool {
    forall|other: Seq<u8>|
        other.len() == 32 && their_public == #[trigger] x25519_public(other) ==> shared
            == x25519_shared(other, x25519_public(secret))
}

/// The client's side of a key exchange.
pub struct ClientEncryptedStreamStarter {
    secret: [u8; 32],
}

/// Whether `r` is what a client makes of the key `theirs` and the server's verdict `approval`.
pub open spec fn client_concluded(
    secret: Seq<u8>,
    theirs: Seq<u8>,
    approval: u8,
    r: Result<EncryptedReadStream, EncStreamErr>,
) -> bool {
    match r {
        Ok(stream) => {
            &&& approval == 1
            &&& stream.secret() == x25519_shared(secret, theirs)
            &&& agrees(secret, theirs, stream.secret())
            &&& stream.remainder() == Seq::<u8>::empty()
            &&& stream.aside() == Seq::<Seq<u8>>::empty()
            &&& !stream.failed()
        },
        Err(e) => approval != 1 && e == EncStreamErr::ClientNotAccepted,
    }
}

impl ClientEncryptedStreamStarter {
    /// The client's secret key.
    pub closed spec fn secret(&self) -> Seq<u8> {
        self.secret@
    }

    /// A client with the secret key `secret`.
    pub fn new(secret: [u8; 32]) -> (r: Self)
        ensures
            r.secret() == secret@,
    {
        ClientEncryptedStreamStarter { secret }
    }

    /// What the client sends first: its public key.
    pub fn handshake(&self) -> (r: [u8; 32])
        ensures
            r@ == x25519_public(self.secret()),
    {
        public_key(&self.secret)
    }

    /// What the client makes of the server's key and verdict.
    pub fn conclude(self, their_pubkey: [u8; 32], approval: u8) -> (r: Result<
        EncryptedReadStream,
        EncStreamErr,
    >)
        ensures
            client_concluded(self.secret(), their_pubkey@, approval, r),
    {
        if approval != 1 {
            return Err(EncStreamErr::ClientNotAccepted);
        }
        let shared_secret = diffie_hellman(&self.secret, &their_pubkey);
        Ok(EncryptedReadStream::new(shared_secret))
    }

    /// Performs the whole exchange: sends the public key, reads the server's key and verdict.
    pub fn key_exchange(self, incoming: &mut ByteReader, outgoing: &mut Vec<u8>) -> (r: Result<
        EncryptedReadStream,
        EncStreamErr,
    >)
        ensures
            final(outgoing)@ == old(outgoing)@ + x25519_public(self.secret()),
            old(incoming)@.len() < 33 ==> r == Err::<EncryptedReadStream, EncStreamErr>(
                EncStreamErr::IOErr,
            ) && final(incoming)@ == Seq::<u8>::empty(),
            old(incoming)@.len() >= 33 ==> {
                &&& final(incoming)@ == old(incoming)@.skip(33)
                &&& client_concluded(
                    self.secret(),
                    old(incoming)@.take(32),
                    old(incoming)@[32],
                    r,
                )
            },
    {
        let ghost before = incoming@;
        let send_hs = self.handshake();
        append_slice(outgoing, &send_hs);
        let read_hs = match incoming.read_exact(32) {
            Ok(bytes) => bytes,
            Err(_) => return Err(EncStreamErr::IOErr),
        };
        let verdict = match incoming.read_exact(1) {
            Ok(bytes) => bytes,
            Err(_) => return Err(EncStreamErr::IOErr),
        };
        assert(incoming@ =~= before.skip(33));
        assert(verdict@[0] == before[32]);
        self.conclude(vec_to_array(&read_hs), verdict[0])
    }
}

/// The server's side of a key exchange.
pub struct ServerEncryptedStreamStarter {
    secret: [u8; 32],
}

/// A client whose key the server has, and on which nothing is decided yet.
pub struct PendingClient {
    secret: [u8; 32],
    their_pubkey: [u8; 32],
}

/// Whether `r` is what a server makes of the client key `theirs` once the verdict is known.
pub open spec fn server_concluded(
    secret: Seq<u8>,
    theirs: Seq<u8>,
    approved: bool,
    r: Result<EncryptedWriteStream, EncStreamErr>,
) -> bool {
    match r {
        Ok(stream) => {
            &&& approved
            &&& stream.secret() == x25519_shared(secret, theirs)
            &&& agrees(secret, theirs, stream.secret())
            &&& stream.peer() == theirs
        },
        Err(e) => !approved && e == EncStreamErr::ClientNotAccepted,
    }
}

impl PendingClient {
    /// The server's secret key.
    pub closed spec fn secret(&self) -> Seq<u8> {
        self.secret@
    }

    /// The client's public key.
    pub closed spec fn peer(&self) -> Seq<u8> {
        self.their_pubkey@
    }

    /// The client that is to be decided on.
    pub fn client_id(&self) -> (r: ClientId)
        ensures
            r.key() == self.peer(),
    {
        ClientId::new(copy_of(&self.their_pubkey))
    }

    /// Decides on the client: the byte to send to the client, and the stream if it is accepted.
    pub fn decide(self, approved: bool) -> (r: (u8, Result<EncryptedWriteStream, EncStreamErr>))
        ensures
            r.0 == approval_byte(approved),
            server_concluded(self.secret(), self.peer(), approved, r.1),
    {
        if !approved {
            return (0, Err(EncStreamErr::ClientNotAccepted));
        }
        let shared_secret = diffie_hellman(&self.secret, &self.their_pubkey);
        (1, Ok(EncryptedWriteStream::new(shared_secret, self.their_pubkey)))
    }
}

impl ServerEncryptedStreamStarter {
    /// The server's secret key.
    pub closed spec fn secret(&self) -> Seq<u8> {
        self.secret@
    }

    /// A server with the secret key `secret`.
    pub fn new(secret: [u8; 32]) -> (r: Self)
        ensures
            r.secret() == secret@,
    {
        ServerEncryptedStreamStarter { secret }
    }

    /// What the server sends first: its public key.
    pub fn handshake(&self) -> (r: [u8; 32])
        ensures
            r@ == x25519_public(self.secret()),
    {
        public_key(&self.secret)
    }

    /// Takes the client's key.
    pub fn receive(self, their_pubkey: [u8; 32]) -> (r: PendingClient)
        ensures
            r.secret() == self.secret(),
            r.peer() == their_pubkey@,
    {
        PendingClient { secret: self.secret, their_pubkey }
    }

    /// Performs the whole exchange: sends the public key, reads the client's key, has the client
    /// approved and sends the verdict. No verdict is sent if the approver fails.
    ///
    /// Approving everybody is not for production.
    pub fn key_exchange<A: ClientApprover>(
        self,
        approval_strat: ClientApprovalStrategy,
        build: BuildMode,
        approver: &A,
        incoming: &mut ByteReader,
        outgoing: &mut Vec<u8>,
    ) -> (r: Result<EncryptedWriteStream, EncStreamErr>)
        requires
            !(build is Production && approval_strat is ApproveAll),
        ensures
            old(incoming)@.len() < 32 ==> {
                &&& r == Err::<EncryptedWriteStream, EncStreamErr>(EncStreamErr::IOErr)
                &&& final(incoming)@ == Seq::<u8>::empty()
                &&& final(outgoing)@ == old(outgoing)@ + x25519_public(self.secret())
            },
            old(incoming)@.len() >= 32 ==> final(incoming)@ == old(incoming)@.skip(32),
            old(incoming)@.len() >= 32 && approval_strat is ApproveAll ==> {
                &&& final(outgoing)@ == old(outgoing)@ + x25519_public(self.secret()) + seq![1u8]
                &&& server_concluded(self.secret(), old(incoming)@.take(32), true, r)
            },
            old(incoming)@.len() >= 32 && approval_strat is Interactive ==> exists|
                id: ClientId,
                answer: Result<bool, ApproverErr>,
            |
                {
                    &&& id.key() == old(incoming)@.take(32)
                    &&& #[trigger] call_ensures(A::submit, (approver, id), answer)
                    &&& match answer {
                        Ok(approved) => final(outgoing)@ == old(outgoing)@ + x25519_public(
                            self.secret(),
                        ) + seq![approval_byte(approved)] && server_concluded(
                            self.secret(),
                            old(incoming)@.take(32),
                            approved,
                            r,
                        ),
                        Err(_) => final(outgoing)@ == old(outgoing)@ + x25519_public(
                            self.secret(),
                        ) && r == Err::<EncryptedWriteStream, EncStreamErr>(EncStreamErr::Other),
                    }
                },
    {
        let send_hs = self.handshake();
        append_slice(outgoing, &send_hs);
        let read_hs = match incoming.read_exact(32) {
            Ok(bytes) => bytes,
            Err(_) => return Err(EncStreamErr::IOErr),
        };
        let pending = self.receive(vec_to_array(&read_hs));
        let approved: bool = match approval_strat {
            ClientApprovalStrategy::ApproveAll => true,
            ClientApprovalStrategy::Interactive => match approver.submit(pending.client_id()) {
                Ok(answer) => answer,
                Err(_) => return Err(EncStreamErr::Other),
            },
        };
        let (verdict, stream) = pending.decide(approved);
        let ghost sent = outgoing@;
        outgoing.push(verdict);
        assert(outgoing@ =~= sent + seq![verdict]);
        stream
    }
}

/// A client and a server that exchanged their public keys take the same way from there: two streams
/// with the same secret, so that what the one seals the other opens; or an error that says that the
/// client was rejected.
pub proof fn law_both_ends_agree(
    client_secret: Seq<u8>,
    server_secret: Seq<u8>,
    approved: bool,
    client: Result<EncryptedReadStream, EncStreamErr>,
    server: Result<EncryptedWriteStream, EncStreamErr>,
)
    requires
        client_secret.len() == 32,
        server_secret.len() == 32,
        client_concluded(
            client_secret,
            x25519_public(server_secret),
            approval_byte(approved),
            client,
        ),
        server_concluded(server_secret, x25519_public(client_secret), approved, server),
    ensures
        match (client, server) {
            (Ok(reader), Ok(writer)) => approved && reader.secret() == writer.secret(),
            (Err(c), Err(s)) => !approved && c == EncStreamErr::ClientNotAccepted && s
                == EncStreamErr::ClientNotAccepted,
            _ => false,
        },
{
}

/// A key of 32 bytes that was read from a stream.
fn vec_to_array(bytes: &Vec<u8>) -> (r: [u8; 32])
    requires
        bytes@.len() == 32,
    ensures
        r@ == bytes@,
{
    let mut key: [u8; 32] = [0; 32];
    let mut i: usize = 0;
    while i < 32
        invariant
            i <= 32,
            bytes@.len() == 32,
            key@.take(i as int) == bytes@.take(i as int),
        decreases 32 - i,
    {
        key[i] = bytes[i];
        i = i + 1;
        assert(key@.take(i as int) =~= bytes@.take(i as int));
    }
    assert(key@.take(32) =~= key@);
    assert(bytes@.take(32) =~= bytes@);
    key
}

/// Of all bytes that a server can send for its verdict, 1 and no other lets a client in. The client then
/// holds the secret that it shares with the server, and nothing has arrived yet. After any other byte it
/// is told that it was rejected.
pub proof fn law_only_one_lets_in(
    secret: Seq<u8>,
    theirs: Seq<u8>,
    verdict: u8,
    r: Result<EncryptedReadStream, EncStreamErr>,
)
    requires
        client_concluded(secret, theirs, verdict, r),
    ensures
        match r {
            Ok(stream) => {
                &&& verdict == 1
                &&& stream.secret() == x25519_shared(secret, theirs)
                &&& stream.remainder().len() == 0
                &&& stream.aside().len() == 0
                &&& !stream.failed()
            },
            Err(e) => verdict != 1 && e is ClientNotAccepted,
        },
{
}

/// A client that is approved, and no other, gets a stream, which leads to that client and is sealed under
/// the secret that is shared with it. One that is not is known to be rejected.
pub proof fn law_only_the_approved_are_served(
    secret: Seq<u8>,
    theirs: Seq<u8>,
    approved: bool,
    r: Result<EncryptedWriteStream, EncStreamErr>,
)
    requires
        server_concluded(secret, theirs, approved, r),
    ensures
        match r {
            Ok(stream) => {
                &&& approved
                &&& stream.secret() == x25519_shared(secret, theirs)
                &&& stream.peer() == theirs
            },
            Err(e) => !approved && e is ClientNotAccepted,
        },
{
}

} // verus!
