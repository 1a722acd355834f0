//! Streams that are encrypted with the Noise protocol.
//!
//! Every Noise message travels in a frame: its length in two big-endian bytes, then the message.

pub mod client;
pub mod noise;
pub mod server;

use crate::encrypted_stream::noise::{noise_open, noise_seal, received, MAX_PAYLOAD};
use crate::wire::{
    append_slice, be16, from_be16, law_be16_round_trip, ByteReader, UnexpectedEof,
};
use vstd::prelude::*;

verus! {

/// Why an encrypted stream could not be set up.
#[derive(Clone, Copy, Debug, PartialEq, Eq, Structural)]
pub enum EncStreamErr {
    /// The server turned the client away.
    ClientNotAccepted,
    /// A message could not be encoded or decoded.
    BincodeErr,
    /// The underlying stream failed or ended early.
    IOErr,
    /// Anything else, such as an approver or a Noise session that failed.
    Other,
}

/// The text of an error.
pub open spec fn err_text(err: EncStreamErr) -> Seq<char> {
    match err {
        EncStreamErr::ClientNotAccepted => "Client rejected by server"@,
        EncStreamErr::BincodeErr => "Bincode serialization error"@,
        EncStreamErr::IOErr => "I/O error"@,
        EncStreamErr::Other => "Other error"@,
    }
}

impl EncStreamErr {
    /// What to tell the user.
    pub fn message(&self) -> (r: &'static str)
        ensures
            r@ == err_text(*self),
    {
        match self {
            EncStreamErr::ClientNotAccepted => "Client rejected by server",
            EncStreamErr::BincodeErr => "Bincode serialization error",
            EncStreamErr::IOErr => "I/O error",
            EncStreamErr::Other => "Other error",
        }
    }
}

/// The frame of `message`. The length wraps at 65536.
pub open spec fn frame(message: Seq<u8>) -> Seq<u8> {
    be16(message.len()) + message
}

/// Reads a frame off the front of `stream`: the message, and what is left of the stream.
pub open spec fn read_frame(stream: Seq<u8>) -> Option<(Seq<u8>, Seq<u8>)> {
    if stream.len() < 2 {
        None
    } else {
        let len = from_be16(stream[0], stream[1]);
        if stream.len() < 2 + len {
            None
        } else {
            Some((stream.subrange(2, (2 + len) as int), stream.skip((2 + len) as int)))
        }
    }
}

/// A framed message is read back, whatever follows it, if 16 bits can hold its length.
pub proof fn law_frame_round_trip(message: Seq<u8>, rest: Seq<u8>)
    requires
        message.len() <= 65535,
    ensures
        read_frame(frame(message) + rest) == Some((message, rest)),
{
    let all = frame(message) + rest;
    law_be16_round_trip(message.len());
    assert(all.subrange(2, (2 + message.len()) as int) =~= message);
    assert(all.skip((2 + message.len()) as int) =~= rest);
}

/// How many bytes of a message follow the two bytes of a frame header.
pub fn frame_len(header: &[u8; 2]) -> (r: usize)
    ensures
        r == from_be16(header@[0], header@[1]),
{
    header[0] as usize * 256 + header[1] as usize
}

/// Receives one message: two bytes of length, then so many bytes.
pub fn recv(stream: &mut ByteReader) -> (r: Result<Vec<u8>, UnexpectedEof>)
    ensures
        match read_frame(old(stream)@) {
            Some((message, rest)) => {
                &&& r matches Ok(got)
                &&& got@ == message
                &&& final(stream)@ == rest
            },
            None => r is Err && final(stream)@ == Seq::<u8>::empty(),
        },
{
    let ghost before = stream@;
    let header = stream.read_exact(2)?;
    let msg_len: usize = frame_len(&[header[0], header[1]]);
    assert(header@[0] == before[0] && header@[1] == before[1]);
    let msg = stream.read_exact(msg_len)?;
    assert(msg@ =~= before.subrange(2, 2 + msg_len));
    assert(stream@ =~= before.skip(2 + msg_len));
    Ok(msg)
}

/// Sends one message: two bytes of length, then the message. Returns how many bytes that are.
pub fn send(stream: &mut Vec<u8>, buf: &[u8]) -> (r: usize)
    requires
        buf@.len() + 2 <= usize::MAX,
    ensures
        final(stream)@ == old(stream)@ + frame(buf@),
        r == buf@.len() + 2,
{
    let len: usize = buf.len();
    stream.push(((len / 256) % 256) as u8);
    stream.push((len % 256) as u8);
    append_slice(stream, buf);
    assert(stream@ =~= old(stream)@ + frame(buf@));
    2 + len
}

/// The messages that carry `chunks` one by one, the first with the counter `counter`.
pub open spec fn sealed_messages(key: Seq<u8>, counter: u64, chunks: Seq<Seq<u8>>) -> Seq<Seq<u8>> {
    Seq::new(chunks.len(), |i: int| noise_seal(key, (counter + i) as u64, chunks[i]))
}

/// The payloads that a receiver gets of `messages`, one after the other, each into a buffer with
/// room for `room` bytes. None stands for a message that it rejects.
pub open spec fn payloads(
    key: Seq<u8>,
    counter: u64,
    messages: Seq<Seq<u8>>,
    room: nat,
) -> Seq<Option<Seq<u8>>>
    decreases messages.len(),
{
    if messages.len() == 0 {
        Seq::empty()
    } else {
        let (payload, after) = received(key, counter, messages[0], room);
        seq![payload] + payloads(key, after, messages.drop_first(), room)
    }
}

/// The counter that a receiver has come to after `messages`.
pub open spec fn counter_after(
    key: Seq<u8>,
    counter: u64,
    messages: Seq<Seq<u8>>,
    room: nat,
) -> u64
    decreases messages.len(),
{
    if messages.len() == 0 {
        counter
    } else {
        counter_after(
            key,
            received(key, counter, messages[0], room).1,
            messages.drop_first(),
            room,
        )
    }
}

/// What was written is what is read: a receiver with the sender's key and counter, and with room for
/// each chunk, gets the chunks in order, and its counter keeps up with the sender's. That a message
/// is longer than its payload by the tag, and opens to it, is what every write ensures of it.
pub proof fn law_messages_round_trip(
    key: Seq<u8>,
    counter: u64,
    chunks: Seq<Seq<u8>>,
    room: nat,
)
    requires
        counter + chunks.len() <= u64::MAX,
        forall|i: int|
            0 <= i < chunks.len() ==> {
                let message = noise_seal(key, (counter + i) as u64, #[trigger] chunks[i]);
                &&& chunks[i].len() <= room
                &&& message.len() == chunks[i].len() + 16
                &&& noise_open(key, (counter + i) as u64, message) == Some(chunks[i])
            },
    ensures
        payloads(key, counter, sealed_messages(key, counter, chunks), room) == Seq::new(
            chunks.len(),
            |i: int| Some(chunks[i]),
        ),
        counter_after(key, counter, sealed_messages(key, counter, chunks), room) == counter
            + chunks.len(),
    decreases chunks.len(),
{
    let messages = sealed_messages(key, counter, chunks);
    if chunks.len() > 0 {
        let next = (counter + 1) as u64;
        let rest = chunks.drop_first();
        assert(chunks[0].len() <= room);
        assert(received(key, counter, messages[0], room) == (Some(chunks[0]), next));
        assert forall|i: int| 0 <= i < rest.len() implies {
            let message = noise_seal(key, (next + i) as u64, #[trigger] rest[i]);
            &&& rest[i].len() <= room
            &&& message.len() == rest[i].len() + 16
            &&& noise_open(key, (next + i) as u64, message) == Some(rest[i])
        } by {
            assert(rest[i] == chunks[i + 1]);
            assert(next + i == counter + (i + 1));
        }
        law_messages_round_trip(key, next, rest, room);
        assert(messages.drop_first() =~= sealed_messages(key, next, rest)) by {
            assert forall|i: int| 0 <= i < rest.len() implies messages.drop_first()[i]
                == #[trigger] sealed_messages(key, next, rest)[i] by {
                assert(next + i == counter + (i + 1));
            }
        }
    }
    assert(payloads(key, counter, messages, room) =~= Seq::new(
        chunks.len(),
        |i: int| Some(chunks[i]),
    ));
}

/// The messages of the whole frames at the front of `stream`.
pub open spec fn frames(stream: Seq<u8>) -> Seq<Seq<u8>>
    decreases stream.len(),
{
    match read_frame(stream) {
        None => Seq::empty(),
        Some((message, rest)) => seq![message] + frames(rest),
    }
}

/// The frames of `messages`, one after the other.
pub open spec fn framed(messages: Seq<Seq<u8>>) -> Seq<u8>
    decreases messages.len(),
{
    if messages.len() == 0 {
        Seq::empty()
    } else {
        frame(messages[0]) + framed(messages.drop_first())
    }
}

/// A stream of frames holds exactly the messages that were put into it.
pub proof fn law_frames_round_trip(messages: Seq<Seq<u8>>)
    requires
        forall|i: int| 0 <= i < messages.len() ==> (#[trigger] messages[i]).len() <= 65535,
    ensures
        frames(framed(messages)) == messages,
    decreases messages.len(),
{
    if messages.len() > 0 {
        let rest = messages.drop_first();
        law_frame_round_trip(messages[0], framed(rest));
        assert forall|i: int| 0 <= i < rest.len() implies (#[trigger] rest[i]).len() <= 65535 by {
            assert(rest[i] == messages[i + 1]);
        }
        law_frames_round_trip(rest);
        assert(seq![messages[0]] + rest =~= messages);
    } else {
        assert(frames(framed(messages)) =~= messages);
    }
}

/// The transfer of data over an encrypted stream: cut the stream into frames, receive their messages
/// in order, and the payloads are the chunks that were written. That a message is longer than its
/// payload by the tag, and opens to it, is what every write ensures of it.
pub proof fn law_stream_carries_chunks(
    key: Seq<u8>,
    counter: u64,
    chunks: Seq<Seq<u8>>,
    room: nat,
)
    requires
        counter + chunks.len() <= u64::MAX,
        forall|i: int|
            0 <= i < chunks.len() ==> {
                let message = noise_seal(key, (counter + i) as u64, #[trigger] chunks[i]);
                &&& chunks[i].len() <= MAX_PAYLOAD
                &&& chunks[i].len() <= room
                &&& message.len() == chunks[i].len() + 16
                &&& noise_open(key, (counter + i) as u64, message) == Some(chunks[i])
            },
    ensures
        payloads(
            key,
            counter,
            frames(framed(sealed_messages(key, counter, chunks))),
            room,
        ) == Seq::new(chunks.len(), |i: int| Some(chunks[i])),
{
    let messages = sealed_messages(key, counter, chunks);
    assert forall|i: int| 0 <= i < messages.len() implies (#[trigger] messages[i]).len()
        <= 65535 by {
        assert(chunks[i].len() <= MAX_PAYLOAD);
    }
    law_frames_round_trip(messages);
    law_messages_round_trip(key, counter, chunks, room);
}

/// A frame is two bytes that tell a length, the first of which counts 256 times as much as the second,
/// and the message.
pub proof fn law_frame_layout(message: Seq<u8>)
    ensures
        ({
            let bytes = frame(message);
            &&& bytes.len() == message.len() + 2
            &&& bytes[0] * 256 + bytes[1] == message.len() % 0x1_0000
            &&& bytes.skip(2) == message
        }),
{
    assert(frame(message).skip(2) =~= message);
}

/// What is read off a stream is what was there: the frame of the message, and behind it what is left. A
/// stream has no frame at its front exactly if it is shorter than its first two bytes tell.
pub proof fn law_frame_is_what_was_there(stream: Seq<u8>)
    ensures
        match read_frame(stream) {
            Some((message, rest)) => {
                &&& message.len() <= 65535
                &&& frame(message) + rest == stream
            },
            None => stream.len() < 2 || stream.len() < 2 + stream[0] * 256 + stream[1],
        },
{
    if let Some((message, rest)) = read_frame(stream) {
        assert(message.len() == stream[0] * 256 + stream[1]);
        assert(frame(message) + rest =~= stream);
    }
}

/// Each error tells the user what is wrong.
pub proof fn law_errors_say_what_is_wrong(err: EncStreamErr)
    ensures
        err is ClientNotAccepted ==> err_text(err) == "Client rejected by server"@,
        err is BincodeErr ==> err_text(err) == "Bincode serialization error"@,
        err is IOErr ==> err_text(err) == "I/O error"@,
        err is Other ==> err_text(err) == "Other error"@,
{
}

} // verus!
