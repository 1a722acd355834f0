//! What the streams need of a Noise session.
//!
//! `snow` keeps a session's keys and counters to itself. The names here stand for what a session
//! holds: how far a handshake has come and which keys it has settled on, and the key and message
//! counter of each direction of an established transport. A key stands for itself and the cipher that
//! it belongs to.
//!
//! The messages of a handshake hold fresh random keys, so nothing is said of their bytes. What is said
//! is what they do: a message that one side writes is taken by a side that is in step with it, the
//! two are in step again, and two sides that are in step at the end have settled on the same keys.

use vstd::prelude::*;

verus! {

/// The Noise protocol of every stream.
pub const PATTERN: &'static str = "Noise_XX_25519_ChaChaPoly_BLAKE2s";

/// The longest payload of a Noise message, which is at most 65535 bytes long: the authentication tag
/// takes 16.
pub const MAX_PAYLOAD: usize = 65519;

/// `snow::HandshakeState`: a session whose handshake is under way.
#[verifier::external_type_specification]
#[verifier::external_body]
pub struct ExHandshakeState(snow::HandshakeState);

/// `snow::TransportState`: a session whose handshake is over.
#[verifier::external_type_specification]
#[verifier::external_body]
pub struct ExTransportState(snow::TransportState);

/// The session could not do what was asked of it.
#[derive(Clone, Copy, Debug, PartialEq, Eq, Structural)]
pub struct NoiseErr;

/// For a handshake of [`PATTERN`] that was built with a local key and nothing else: whether this side
/// began it, and how many messages have passed.
pub uninterp spec fn xx_progress(noise: snow::HandshakeState) -> Option<(bool, nat)>;

/// The public key that belongs to a private key.
pub uninterp spec fn noise_public(private_key: Seq<u8>) -> Seq<u8>;

/// This side's static public key.
pub uninterp spec fn own_static(noise: snow::HandshakeState) -> Seq<u8>;

/// The other side's static public key, as far as it is known.
pub uninterp spec fn remote_static(noise: snow::HandshakeState) -> Option<Seq<u8>>;

/// The keys that the handshake has come to: for messages of the side that began it, and for those
/// of the other.
pub uninterp spec fn split_keys(noise: snow::HandshakeState) -> (Seq<u8>, Seq<u8>);

/// The session after it has taken `message` from the other side; none if it does not take it.
pub uninterp spec fn after_read(noise: snow::HandshakeState, message: Seq<u8>) -> Option<
    snow::HandshakeState,
>;

/// Whether the side that began the handshake and the other side have taken exactly each other's
/// messages so far, and hold what is needed to take the next one.
pub uninterp spec fn in_step(client: snow::HandshakeState, server: snow::HandshakeState) -> bool;

/// The key and the message counter for sending; none if this side may not send.
pub uninterp spec fn sending(noise: snow::TransportState) -> Option<(Seq<u8>, u64)>;

/// The key and the message counter for receiving; none if this side may not receive.
pub uninterp spec fn receiving(noise: snow::TransportState) -> Option<(Seq<u8>, u64)>;

/// The transport message that carries `payload` under `key` with the counter `counter`.
pub uninterp spec fn noise_seal(key: Seq<u8>, counter: u64, payload: Seq<u8>) -> Seq<u8>;

/// What a transport message carries, if it is genuine under `key` with the counter `counter`.
pub uninterp spec fn noise_open(key: Seq<u8>, counter: u64, message: Seq<u8>) -> Option<Seq<u8>>;

/// Whether the side that began the handshake and writes `message` on its way from `before` to `after`
/// is understood: every other side that was in step takes the message and is in step again.
pub open spec fn client_says(
    before: snow::HandshakeState,
    message: Seq<u8>,
    after: snow::HandshakeState,
) -> bool {
    forall|server: snow::HandshakeState| #[trigger]
        in_step(before, server) ==> {
            &&& after_read(server, message) matches Some(heard)
            &&& in_step(after, heard)
        }
}

/// Whether the other side, which writes `message` on its way from `before` to `after`, is understood:
/// every side that began and was in step takes the message and is in step again.
pub open spec fn server_says(
    before: snow::HandshakeState,
    message: Seq<u8>,
    after: snow::HandshakeState,
) -> bool {
    forall|client: snow::HandshakeState| #[trigger]
        in_step(client, before) ==> {
            &&& after_read(client, message) matches Some(heard)
            &&& in_step(heard, after)
        }
}

/// Whether it is this side's turn to write the handshake message number `position`.
pub open spec fn writes_next(initiator: bool, position: nat) -> bool {
    position < 3 && (position % 2 == 0) == initiator
}

/// Whether it is the other side's turn to write the handshake message number `position`.
pub open spec fn reads_next(initiator: bool, position: nat) -> bool {
    position < 3 && (position % 2 == 0) != initiator
}

/// The length of the handshake message number `position` without a payload: an ephemeral key; an
/// ephemeral key, an encrypted static key and a tag; an encrypted static key and a tag.
pub open spec fn handshake_len(position: nat) -> nat {
    if position == 0 {
        32
    } else if position == 1 {
        96
    } else {
        64
    }
}

/// `snow::Builder::generate_keypair` for the protocol [`PATTERN`]: a private key and the public key that
/// belongs to it. Which keys is left to chance; the call succeeds and both are 32 bytes long.
#[verifier::external_body]
pub(crate) fn generate_keypair(pattern: &str) -> (r: Result<(Vec<u8>, Vec<u8>), NoiseErr>)
    requires
        pattern@ == PATTERN@,
    ensures
        match r {
            Ok((private, public)) => {
                &&& private@.len() == 32
                &&& public@.len() == 32
                &&& public@ == noise_public(private@)
            },
            Err(_) => false,
        },
{
    let params = pattern.parse().map_err(|_: snow::Error| NoiseErr)?;
    let pair = snow::Builder::new(params).generate_keypair().map_err(|_| NoiseErr)?;
    Ok((pair.private, pair.public))
}

/// `snow::Builder::build_initiator` with a local private key, for the protocol [`PATTERN`]. The call
/// succeeds, no message has passed, and the session is in step with every other side that has had
/// none either.
#[verifier::external_body]
pub(crate) fn build_initiator(pattern: &str, private_key: &Vec<u8>) -> (r: Result<
    snow::HandshakeState,
    NoiseErr,
>)
    requires
        pattern@ == PATTERN@,
        private_key@.len() == 32,
    ensures
        match r {
            Ok(noise) => {
                &&& xx_progress(noise) == Some((true, 0nat))
                &&& own_static(noise) == noise_public(private_key@)
                &&& forall|server: snow::HandshakeState|
                    xx_progress(server) == Some((false, 0nat)) ==> #[trigger] in_step(noise, server)
            },
            Err(_) => false,
        },
{
    let params = pattern.parse().map_err(|_: snow::Error| NoiseErr)?;
    snow::Builder::new(params).local_private_key(private_key).build_initiator().map_err(
        |_| NoiseErr,
    )
}

/// `snow::Builder::build_responder` with a local private key, for the protocol [`PATTERN`]. The call
/// succeeds, and no message has passed.
#[verifier::external_body]
pub(crate) fn build_responder(pattern: &str, private_key: &Vec<u8>) -> (r: Result<
    snow::HandshakeState,
    NoiseErr,
>)
    requires
        pattern@ == PATTERN@,
        private_key@.len() == 32,
    ensures
        match r {
            Ok(noise) => {
                &&& xx_progress(noise) == Some((false, 0nat))
                &&& own_static(noise) == noise_public(private_key@)
            },
            Err(_) => false,
        },
{
    let params = pattern.parse().map_err(|_: snow::Error| NoiseErr)?;
    snow::Builder::new(params).local_private_key(private_key).build_responder().map_err(
        |_| NoiseErr,
    )
}

/// `snow::HandshakeState::write_message` without a payload. The message holds fresh keys, so nothing
/// is said of its bytes. The call succeeds exactly when it is this side's turn; then one more message
/// has passed, it has the length that the pattern gives it, and a side that is in step takes it and
/// stays in step. This side's own key, and what it knows of the other's, stay as they were.
#[verifier::external_body]
pub(crate) fn handshake_write(noise: &mut snow::HandshakeState) -> (r: Result<Vec<u8>, NoiseErr>)
    ensures
        xx_progress(*old(noise)) matches Some((initiator, position)) ==> if writes_next(
            initiator,
            position,
        ) {
            &&& r matches Ok(message)
            &&& message@.len() == handshake_len(position)
            &&& xx_progress(*final(noise)) == Some((initiator, position + 1))
            &&& if initiator {
                client_says(*old(noise), message@, *final(noise))
            } else {
                server_says(*old(noise), message@, *final(noise))
            }
        } else {
            &&& r is Err
            &&& xx_progress(*final(noise)) == xx_progress(*old(noise))
        },
        remote_static(*final(noise)) == remote_static(*old(noise)),
        own_static(*final(noise)) == own_static(*old(noise)),
{
    let mut message = vec![0u8; 65535];
    let len = noise.write_message(&[], &mut message).map_err(|_| NoiseErr)?;
    message.truncate(len);
    Ok(message)
}

/// `snow::HandshakeState::read_message` with the payload dropped. Whether the session takes the
/// message, and what becomes of it then, depends on the session and the message alone. It can take
/// one only when it is the other side's turn; then one more message has passed, and after the message
/// that brings it the other side's static key is known. The first message is a bare key: any message
/// of 32 bytes or more that Noise allows is taken for one. Whether a later one is genuine, the cipher
/// decides. This side's own key stays as it was. Of a session that has refused a message nothing else
/// is told but its progress.
#[verifier::external_body]
pub(crate) fn handshake_read(noise: &mut snow::HandshakeState, message: &[u8]) -> (r: Result<
    (),
    NoiseErr,
>)
    ensures
        match r {
            Ok(_) => after_read(*old(noise), message@) == Some(*final(noise)),
            Err(_) => after_read(*old(noise), message@) is None,
        },
        xx_progress(*old(noise)) matches Some((initiator, position)) ==> match r {
            Ok(_) => {
                &&& reads_next(initiator, position)
                &&& xx_progress(*final(noise)) == Some((initiator, position + 1))
                &&& position > 0 ==> {
                    &&& remote_static(*final(noise)) matches Some(key)
                    &&& key.len() == 32
                }
            },
            Err(_) => {
                &&& xx_progress(*final(noise)) == xx_progress(*old(noise))
                &&& !(!initiator && position == 0 && 32 <= message@.len() <= 65535)
            },
        },
        own_static(*final(noise)) == own_static(*old(noise)),
{
    let mut payload = vec![0u8; 65535];
    noise.read_message(message, &mut payload).map(|_| ()).map_err(|_| NoiseErr)
}

/// `snow::HandshakeState::get_remote_static`: the other side's static public key, if it is known. At
/// the end of a handshake it is the key that the side in step has for its own.
#[verifier::external_body]
pub(crate) fn remote_key(noise: &snow::HandshakeState) -> (r: Option<Vec<u8>>)
    ensures
        match r {
            Some(key) => {
                &&& remote_static(*noise) == Some(key@)
                &&& xx_progress(*noise) == Some((false, 3nat)) ==> forall|
                    client: snow::HandshakeState,
                | #[trigger]
                    in_step(client, *noise) ==> key@ == own_static(client)
            },
            None => remote_static(*noise) is None,
        },
{
    noise.get_remote_static().map(|key| key.to_vec())
}

/// `snow::HandshakeState::into_transport_mode`. It succeeds exactly when the handshake is over; each
/// direction then has the key that the handshake came to, which is the same for both sides if they are
/// in step, and no message has passed.
#[verifier::external_body]
pub(crate) fn into_transport(noise: snow::HandshakeState) -> (r: Result<
    snow::TransportState,
    NoiseErr,
>)
    ensures
        xx_progress(noise) matches Some((initiator, position)) ==> match r {
            Ok(transport) => {
                let (first, second) = split_keys(noise);
                &&& position == 3
                &&& if initiator {
                    forall|server: snow::HandshakeState| #[trigger]
                        in_step(noise, server) ==> split_keys(server) == split_keys(noise)
                } else {
                    forall|client: snow::HandshakeState| #[trigger]
                        in_step(client, noise) ==> split_keys(client) == split_keys(noise)
                }
                &&& sending(transport) == Some(
                    (
                        if initiator {
                            first
                        } else {
                            second
                        },
                        0u64,
                    ),
                )
                &&& receiving(transport) == Some(
                    (
                        if initiator {
                            second
                        } else {
                            first
                        },
                        0u64,
                    ),
                )
            },
            Err(_) => position != 3,
        },
{
    noise.into_transport_mode().map_err(|_| NoiseErr)
}

/// `snow::TransportState::write_message`. The message depends on the key, the counter and the payload
/// alone, is longer than the payload by the tag, and opens to the payload; the counter goes up by
/// one. The call fails, and changes nothing, if this side may not send, if the message would be
/// longer than Noise allows, or if the counter has run out.
#[verifier::external_body]
pub(crate) fn transport_write(noise: &mut snow::TransportState, payload: &[u8]) -> (r: Result<
    Vec<u8>,
    NoiseErr,
>)
    ensures
        receiving(*final(noise)) == receiving(*old(noise)),
        match (r, sending(*old(noise))) {
            (Ok(message), Some((key, counter))) => {
                &&& payload@.len() <= MAX_PAYLOAD && counter < u64::MAX
                &&& message@ == noise_seal(key, counter, payload@)
                &&& message@.len() == payload@.len() + 16
                &&& noise_open(key, counter, message@) == Some(payload@)
                &&& sending(*final(noise)) == Some((key, (counter + 1) as u64))
            },
            (Ok(_), None) => false,
            (Err(_), Some((key, counter))) => {
                &&& payload@.len() > MAX_PAYLOAD || counter == u64::MAX
                &&& sending(*final(noise)) == sending(*old(noise))
            },
            (Err(_), None) => sending(*final(noise)) is None,
        },
{
    let mut message = vec![0u8; 65535];
    let len = noise.write_message(payload, &mut message).map_err(|_| NoiseErr)?;
    message.truncate(len);
    Ok(message)
}

/// What receiving `message` into a buffer with room for `room` bytes comes to, when the next message
/// is due under `key` with the counter `counter`: the payload, or none, and the counter afterwards.
/// A message that is too short to be one, or too long for the buffer, does not count; a forged one
/// does.
pub open spec fn received(key: Seq<u8>, counter: u64, message: Seq<u8>, room: nat) -> (
    Option<Seq<u8>>,
    u64,
) {
    if message.len() < 16 || message.len() > room + 16 || counter == u64::MAX {
        (None, counter)
    } else {
        (noise_open(key, counter, message), (counter + 1) as u64)
    }
}

/// `snow::TransportState::read_message`. A genuine message puts its payload, which is shorter by the
/// tag, at the front of the buffer; otherwise the call fails and the buffer may hold anything. The
/// result depends on the key, the counter, the message and the room in the buffer alone.
#[verifier::external_body]
pub(crate) fn transport_read(
    noise: &mut snow::TransportState,
    message: &[u8],
    buf: &mut [u8],
) -> (r: Result<usize, NoiseErr>)
    ensures
        sending(*final(noise)) == sending(*old(noise)),
        final(buf)@.len() == old(buf)@.len(),
        match receiving(*old(noise)) {
            Some((key, counter)) => {
                let (payload, after) = received(key, counter, message@, old(buf)@.len());
                &&& receiving(*final(noise)) == Some((key, after))
                &&& match (r, payload) {
                    (Ok(written), Some(text)) => {
                        &&& written == text.len()
                        &&& written + 16 == message@.len()
                        &&& final(buf)@ == text + old(buf)@.skip(written as int)
                    },
                    (Err(_), None) => true,
                    _ => false,
                }
            },
            None => r is Err && receiving(*final(noise)) is None,
        },
{
    noise.read_message(message, buf).map_err(|_| NoiseErr)
}

/// A message of the longest payload is as long as a frame can tell: 65535 bytes, of which the tag takes
/// 16.
pub proof fn law_payload_fits_a_frame()
    ensures
        MAX_PAYLOAD + 16 == 0x1_0000 - 1,
        PATTERN@ == "Noise_XX_25519_ChaChaPoly_BLAKE2s"@,
{
}

} // verus!
