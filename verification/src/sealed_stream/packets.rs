//! What a stream of sealed packets holds.
//!
//! A packet is a sealed chunk behind its 64-bit length. A reader takes whole packets off the front
//! of the bytes it has and keeps the rest for later.

use crate::codec::{law_prefixed_round_trip, prefixed, read_prefixed, CodecError};
use crate::crypto::aead_open;
use crate::wire::{concat, from_le};
use vstd::prelude::*;

verus! {

/// The sealed chunks of the packets at the front of `bytes`, up to the first packet that is
/// incomplete or empty.
pub open spec fn packets(bytes: Seq<u8>) -> Seq<Seq<u8>>
    decreases bytes.len(),
{
    match read_prefixed(bytes) {
        Err(_) => Seq::empty(),
        Ok((data, taken)) => if data.len() == 0 {
            Seq::empty()
        } else {
            seq![data] + packets(bytes.skip(taken as int))
        },
    }
}

/// How many bytes of `bytes` a reader has dealt with when it has taken [`packets`] off it. A packet
/// without data ends the reading; it counts as dealt with.
pub open spec fn consumed(bytes: Seq<u8>) -> nat
    decreases bytes.len(),
{
    match read_prefixed(bytes) {
        Err(_) => 0,
        Ok((data, taken)) => if data.len() == 0 {
            taken
        } else {
            taken + consumed(bytes.skip(taken as int))
        },
    }
}

/// Whether reading `bytes` comes upon a packet without data.
pub open spec fn has_empty_packet(bytes: Seq<u8>) -> bool
    decreases bytes.len(),
{
    match read_prefixed(bytes) {
        Err(_) => false,
        Ok((data, taken)) => if data.len() == 0 {
            true
        } else {
            has_empty_packet(bytes.skip(taken as int))
        },
    }
}

/// Whether reading `bytes` comes upon a length that does not fit this machine's `usize`.
pub open spec fn has_bad_length(bytes: Seq<u8>) -> bool
    decreases bytes.len(),
{
    match read_prefixed(bytes) {
        Err(e) => e == CodecError::InvalidLength,
        Ok((data, taken)) => if data.len() == 0 {
            false
        } else {
            has_bad_length(bytes.skip(taken as int))
        },
    }
}

/// The nonce that goes with the shared secret `secret`.
pub open spec fn nonce_of(secret: Seq<u8>) -> Seq<u8> {
    secret.take(12)
}

/// What the sealed chunk `sealed` opens to under the shared secret `secret`.
pub open spec fn opened(secret: Seq<u8>, sealed: Seq<u8>) -> Option<Seq<u8>> {
    aead_open(secret, nonce_of(secret), sealed)
}

/// Whether every one of the sealed chunks opens.
pub open spec fn all_open(secret: Seq<u8>, sealed: Seq<Seq<u8>>) -> bool {
    forall|i: int| 0 <= i < sealed.len() ==> opened(secret, #[trigger] sealed[i]) is Some
}

/// The plaintexts of sealed chunks that open.
pub open spec fn plaintexts(secret: Seq<u8>, sealed: Seq<Seq<u8>>) -> Seq<Seq<u8>> {
    Seq::new(sealed.len(), |i: int| opened(secret, sealed[i])->0)
}

/// Where plaintexts go that are put one after the other into a buffer with a limited room.
#[verifier::ext_equal]
pub ghost struct Placed {
    /// The bytes that the buffer then starts with.
    pub bytes: Seq<u8>,
    /// How many bytes of it are reported to the reader's caller.
    pub counted: nat,
    /// The plaintexts that did not fit and are set aside.
    pub aside: Seq<Seq<u8>>,
}

/// Puts `chunks` one after the other into a buffer with room for `room` bytes. A chunk that does not
/// fit fills the buffer up, is not counted, and is set aside whole.
pub open spec fn place(chunks: Seq<Seq<u8>>, room: nat) -> Placed
    decreases chunks.len(),
{
    if chunks.len() == 0 {
        Placed { bytes: Seq::empty(), counted: 0, aside: Seq::empty() }
    } else {
        let before = place(chunks.drop_last(), room);
        let chunk = chunks.last();
        if chunk.len() <= room - before.bytes.len() {
            Placed {
                bytes: before.bytes + chunk,
                counted: before.counted + chunk.len(),
                aside: before.aside,
            }
        } else {
            Placed {
                bytes: before.bytes + chunk.take(room - before.bytes.len()),
                counted: before.counted,
                aside: before.aside.push(chunk),
            }
        }
    }
}

/// The packets that carry the sealed chunks, one after the other.
pub open spec fn packet_bytes(sealed: Seq<Seq<u8>>) -> Seq<u8>
    decreases sealed.len(),
{
    if sealed.len() == 0 {
        Seq::empty()
    } else {
        prefixed(sealed[0]) + packet_bytes(sealed.drop_first())
    }
}

/// Sealed chunks as a writer makes them: not empty, and of a length that fits this machine.
pub open spec fn sendable(sealed: Seq<Seq<u8>>) -> bool {
    forall|i: int|
        0 <= i < sealed.len() ==> 0 < (#[trigger] sealed[i]).len() <= usize::MAX
}

/// What is placed never overruns the room, and the count stays within what was placed.
pub proof fn lemma_place_bounds(chunks: Seq<Seq<u8>>, room: nat)
    ensures
        place(chunks, room).bytes.len() <= room,
        place(chunks, room).counted <= place(chunks, room).bytes.len(),
    decreases chunks.len(),
{
    if chunks.len() > 0 {
        lemma_place_bounds(chunks.drop_last(), room);
    }
}

/// Dealing with bytes never goes past their end.
pub proof fn lemma_consumed_bound(bytes: Seq<u8>)
    ensures
        consumed(bytes) <= bytes.len(),
    decreases bytes.len(),
{
    match read_prefixed(bytes) {
        Err(_) => {},
        Ok((data, taken)) => {
            if data.len() > 0 {
                lemma_consumed_bound(bytes.skip(taken as int));
            }
        },
    }
}

/// If all chunks fit into the room together, the buffer holds all of them, all are counted, and
/// nothing is set aside.
pub proof fn law_place_fits(chunks: Seq<Seq<u8>>, room: nat)
    requires
        concat(chunks).len() <= room,
    ensures
        place(chunks, room).bytes == concat(chunks),
        place(chunks, room).counted == concat(chunks).len(),
        place(chunks, room).aside == Seq::<Seq<u8>>::empty(),
    decreases chunks.len(),
{
    if chunks.len() > 0 {
        law_place_fits(chunks.drop_last(), room);
    }
}

/// What is counted and what is set aside are all the chunks, in order: a chunk that does not fit has
/// filled the buffer up, so that nothing after it is counted.
pub proof fn law_place_keeps_all(chunks: Seq<Seq<u8>>, room: nat)
    ensures
        ({
            let placed = place(chunks, room);
            &&& placed.counted <= placed.bytes.len() <= room
            &&& placed.bytes.take(placed.counted as int) + concat(placed.aside) == concat(chunks)
            &&& placed.aside.len() == 0 ==> placed.counted == placed.bytes.len()
            &&& placed.aside.len() > 0 ==> placed.bytes.len() == room
        }),
    decreases chunks.len(),
{
    let placed = place(chunks, room);
    if chunks.len() > 0 {
        let before = place(chunks.drop_last(), room);
        let chunk = chunks.last();
        law_place_keeps_all(chunks.drop_last(), room);
        if chunk.len() <= room - before.bytes.len() {
            if before.aside.len() == 0 {
                assert(before.bytes.take(before.counted as int) =~= before.bytes);
                assert(concat(before.aside) =~= Seq::<u8>::empty());
                assert(placed.bytes.take(placed.counted as int) + concat(placed.aside)
                    =~= concat(chunks));
            } else {
                assert(chunk =~= Seq::<u8>::empty());
                assert(placed.bytes =~= before.bytes);
                assert(concat(chunks) =~= concat(chunks.drop_last()));
            }
        } else {
            assert(placed.aside.drop_last() =~= before.aside);
            assert(placed.bytes.take(placed.counted as int) =~= before.bytes.take(
                before.counted as int,
            ));
            assert(placed.bytes.take(placed.counted as int) + concat(placed.aside) =~= concat(
                chunks,
            ));
        }
    } else {
        assert(placed.bytes.take(0) + concat(placed.aside) =~= concat(chunks));
    }
}

/// A reader finds in a stream of packets exactly the chunks that were put into it, deals with all
/// of its bytes, and meets neither an empty packet nor a bad length.
pub proof fn law_packets_round_trip(sealed: Seq<Seq<u8>>)
    requires
        sendable(sealed),
    ensures
        packets(packet_bytes(sealed)) == sealed,
        consumed(packet_bytes(sealed)) == packet_bytes(sealed).len(),
        !has_empty_packet(packet_bytes(sealed)),
        !has_bad_length(packet_bytes(sealed)),
    decreases sealed.len(),
{
    if sealed.len() > 0 {
        let first = sealed[0];
        let rest = sealed.drop_first();
        let wire = packet_bytes(sealed);
        law_prefixed_round_trip(first, packet_bytes(rest));
        crate::wire::lemma_le_len(first.len(), 8);
        assert(wire.skip((8 + first.len()) as int) =~= packet_bytes(rest));
        assert forall|i: int| 0 <= i < rest.len() implies 0 < (#[trigger] rest[i]).len()
            <= usize::MAX by {
            assert(rest[i] == sealed[i + 1]);
        }
        law_packets_round_trip(rest);
        assert(seq![first] + rest =~= sealed);
    } else {
        assert(packet_bytes(sealed) =~= Seq::empty());
        assert(packets(packet_bytes(sealed)) =~= sealed);
    }
}

/// Reading bytes in two portions, with the rest of the first kept for the second, finds the same
/// packets as reading them at once.
pub proof fn law_packets_split(a: Seq<u8>, b: Seq<u8>)
    requires
        !has_empty_packet(a),
        !has_bad_length(a),
    ensures
        packets(a + b) == packets(a) + packets(a.skip(consumed(a) as int) + b),
        consumed(a + b) == consumed(a) + consumed(a.skip(consumed(a) as int) + b),
        has_empty_packet(a + b) == has_empty_packet(a.skip(consumed(a) as int) + b),
        has_bad_length(a + b) == has_bad_length(a.skip(consumed(a) as int) + b),
    decreases a.len(),
{
    match read_prefixed(a) {
        Err(_) => {
            assert(a.skip(0) =~= a);
            assert(packets(a) + packets(a + b) =~= packets(a + b));
        },
        Ok((data, taken)) => {
            let rest = a.skip(taken as int);
            lemma_consumed_bound(rest);
            assert((a + b).take(8) =~= a.take(8));
            assert((a + b).subrange(8, taken as int) =~= a.subrange(8, taken as int));
            assert((a + b).skip(taken as int) =~= rest + b);
            law_packets_split(rest, b);
            assert(rest.skip(consumed(rest) as int) =~= a.skip(consumed(a) as int));
            let tail = packets(a.skip(consumed(a) as int) + b);
            assert(seq![data] + (packets(rest) + tail) =~= (seq![data] + packets(rest)) + tail);
        },
    }
}

/// What a reader has left over after it was given `pieces`, one after the other.
pub open spec fn remainder_after(pieces: Seq<Seq<u8>>) -> Seq<u8>
    decreases pieces.len(),
{
    if pieces.len() == 0 {
        Seq::empty()
    } else {
        let have = remainder_after(pieces.drop_last()) + pieces.last();
        have.skip(consumed(have) as int)
    }
}

/// The sealed chunks that a reader has found after it was given `pieces`, one after the other.
pub open spec fn found_after(pieces: Seq<Seq<u8>>) -> Seq<Seq<u8>>
    decreases pieces.len(),
{
    if pieces.len() == 0 {
        Seq::empty()
    } else {
        found_after(pieces.drop_last()) + packets(
            remainder_after(pieces.drop_last()) + pieces.last(),
        )
    }
}

/// The bytes before a position in a stream without empty packets and bad lengths have neither.
pub(crate) proof fn lemma_prefix_clean(a: Seq<u8>, b: Seq<u8>)
    requires
        !has_empty_packet(a + b),
        !has_bad_length(a + b),
    ensures
        !has_empty_packet(a),
        !has_bad_length(a),
    decreases a.len(),
{
    if a.len() >= 8 {
        assert((a + b).take(8) =~= a.take(8));
    }
    match read_prefixed(a) {
        Err(_) => {},
        Ok((data, taken)) => {
            assert((a + b).subrange(8, taken as int) =~= a.subrange(8, taken as int));
            if data.len() > 0 {
                assert((a + b).skip(taken as int) =~= a.skip(taken as int) + b);
                lemma_prefix_clean(a.skip(taken as int), b);
            }
        },
    }
}

/// How a stream is cut into pieces on its way does not matter: after all pieces the reader has found
/// the packets of the whole stream, and holds what is left of the whole stream.
pub proof fn law_fragmentation(pieces: Seq<Seq<u8>>)
    requires
        !has_empty_packet(concat(pieces)),
        !has_bad_length(concat(pieces)),
    ensures
        found_after(pieces) == packets(concat(pieces)),
        remainder_after(pieces) == concat(pieces).skip(consumed(concat(pieces)) as int),
    decreases pieces.len(),
{
    if pieces.len() == 0 {
        assert(packets(concat(pieces)) =~= Seq::<Seq<u8>>::empty());
        assert(concat(pieces).skip(0) =~= Seq::<u8>::empty());
    } else {
        let a = concat(pieces.drop_last());
        let b = pieces.last();
        lemma_prefix_clean(a, b);
        law_fragmentation(pieces.drop_last());
        law_packets_split(a, b);
        lemma_consumed_bound(a);
        let have = a.skip(consumed(a) as int) + b;
        lemma_consumed_bound(have);
        assert((a + b).skip(consumed(a + b) as int) =~= have.skip(consumed(have) as int));
    }
}

/// What was written is what is read: if `sealed` opens chunk by chunk to `chunks`, then a reader
/// that gets the packets of `sealed` in any pieces finds, over all reads, plaintexts that
/// concatenate to `chunks`, and has nothing left over.
pub proof fn law_stream_round_trip(
    secret: Seq<u8>,
    chunks: Seq<Seq<u8>>,
    sealed: Seq<Seq<u8>>,
    pieces: Seq<Seq<u8>>,
)
    requires
        sendable(sealed),
        chunks.len() == sealed.len(),
        forall|i: int|
            0 <= i < sealed.len() ==> opened(secret, #[trigger] sealed[i]) == Some(chunks[i]),
        concat(pieces) == packet_bytes(sealed),
    ensures
        all_open(secret, found_after(pieces)),
        concat(plaintexts(secret, found_after(pieces))) == concat(chunks),
        remainder_after(pieces) == Seq::<u8>::empty(),
{
    law_packets_round_trip(sealed);
    law_fragmentation(pieces);
    let wire = packet_bytes(sealed);
    assert(wire.skip(wire.len() as int) =~= Seq::<u8>::empty());
    assert(plaintexts(secret, sealed) =~= chunks);
}

/// The nonce is the first twelve bytes of the secret, in order.
pub proof fn law_nonce_begins_the_secret(secret: Seq<u8>, i: int)
    requires
        secret.len() == 32,
        0 <= i < 12,
    ensures
        nonce_of(secret).len() == 12,
        nonce_of(secret)[i] == secret[i],
{
}

/// A reader takes packets off the front one by one: a packet with data, whatever follows it, is found
/// first. A packet without data is dealt with and ends the reading, whatever follows it.
pub proof fn law_packets_are_taken_off_the_front(data: Seq<u8>, rest: Seq<u8>)
    requires
        data.len() <= usize::MAX,
    ensures
        ({
            let bytes = prefixed(data) + rest;
            if data.len() > 0 {
                &&& packets(bytes) == seq![data] + packets(rest)
                &&& consumed(bytes) == 8 + data.len() + consumed(rest)
                &&& has_empty_packet(bytes) == has_empty_packet(rest)
                &&& has_bad_length(bytes) == has_bad_length(rest)
            } else {
                &&& packets(bytes) == Seq::<Seq<u8>>::empty()
                &&& consumed(bytes) == 8
                &&& has_empty_packet(bytes)
                &&& !has_bad_length(bytes)
            }
        }),
{
    let bytes = prefixed(data) + rest;
    law_prefixed_round_trip(data, rest);
    crate::wire::lemma_le_len(data.len(), 8);
    assert(bytes.skip((8 + data.len()) as int) =~= rest);
}

/// A packet that has not arrived in full waits: nothing is found, and nothing is dealt with.
pub proof fn law_partial_packet_waits(data: Seq<u8>, n: int)
    requires
        data.len() <= usize::MAX,
        0 <= n < prefixed(data).len(),
    ensures
        ({
            let part = prefixed(data).take(n);
            &&& packets(part) == Seq::<Seq<u8>>::empty()
            &&& consumed(part) == 0
            &&& !has_empty_packet(part)
            &&& !has_bad_length(part)
        }),
{
    let part = prefixed(data).take(n);
    crate::wire::lemma_le_len(data.len(), 8);
    crate::wire::lemma_le_limits();
    crate::wire::law_le_round_trip(data.len(), 8);
    if n >= 8 {
        assert(part.take(8) =~= crate::wire::le(data.len(), 8));
    }
}

/// The buffer is filled from the front with the plaintexts in order, as far as there is room. As many
/// whole plaintexts are counted as fit: the first that is set aside would not have fitted behind those
/// that are counted. What is set aside are whole plaintexts.
pub proof fn law_place_fills_the_room(chunks: Seq<Seq<u8>>, room: nat)
    ensures
        ({
            let placed = place(chunks, room);
            &&& placed.bytes == if concat(chunks).len() <= room {
                concat(chunks)
            } else {
                concat(chunks).take(room as int)
            }
            &&& placed.aside.len() > 0 ==> placed.counted + placed.aside[0].len() > room
            &&& forall|i: int|
                0 <= i < placed.aside.len() ==> chunks.contains(#[trigger] placed.aside[i])
        }),
    decreases chunks.len(),
{
    let placed = place(chunks, room);
    law_place_keeps_all(chunks, room);
    if chunks.len() > 0 {
        let fewer = chunks.drop_last();
        let before = place(fewer, room);
        let chunk = chunks.last();
        law_place_fills_the_room(fewer, room);
        law_place_keeps_all(fewer, room);
        assert(concat(chunks) == concat(fewer) + chunk);
        assert(placed.bytes =~= if concat(chunks).len() <= room {
            concat(chunks)
        } else {
            concat(chunks).take(room as int)
        });
        assert forall|i: int| 0 <= i < placed.aside.len() implies chunks.contains(
            #[trigger] placed.aside[i],
        ) by {
            if i < before.aside.len() {
                assert(placed.aside[i] == before.aside[i]);
                let j = choose|j: int| 0 <= j < fewer.len() && fewer[j] == before.aside[i];
                assert(fewer.contains(before.aside[i]));
                assert(chunks[j] == before.aside[i]);
            } else {
                assert(chunks[chunks.len() - 1] == chunk);
            }
        }
    } else {
        assert(placed.bytes =~= concat(chunks));
    }
}

/// A length that does not fit this machine is found where it stands, and nothing is taken off there.
pub proof fn law_bad_length_is_found(bytes: Seq<u8>)
    requires
        bytes.len() >= 8,
        from_le(bytes.take(8)) > usize::MAX,
    ensures
        has_bad_length(bytes),
        packets(bytes) == Seq::<Seq<u8>>::empty(),
        consumed(bytes) == 0,
        !has_empty_packet(bytes),
{
}

/// Sealed chunks all open exactly if each of them does, under the secret and the nonce that it begins
/// with; and their plaintexts are what they open to, in order.
pub proof fn law_chunks_open_one_by_one(secret: Seq<u8>, sealed: Seq<Seq<u8>>, chunk: Seq<u8>)
    ensures
        opened(secret, chunk) == aead_open(secret, secret.subrange(0, 12), chunk),
        all_open(secret, Seq::empty()),
        all_open(secret, sealed.push(chunk)) <==> all_open(secret, sealed) && aead_open(
            secret,
            secret.subrange(0, 12),
            chunk,
        ) is Some,
        plaintexts(secret, Seq::empty()) == Seq::<Seq<u8>>::empty(),
        plaintexts(secret, sealed.push(chunk)) == plaintexts(secret, sealed).push(
            aead_open(secret, secret.subrange(0, 12), chunk)->0,
        ),
{
    let more = sealed.push(chunk);
    assert(nonce_of(secret) =~= secret.subrange(0, 12));
    assert(more[sealed.len() as int] == chunk);
    assert(forall|i: int| 0 <= i < sealed.len() ==> #[trigger] sealed[i] == more[i]);
    assert(plaintexts(secret, more) =~= plaintexts(secret, sealed).push(opened(secret, chunk)->0));
    assert(plaintexts(secret, Seq::empty()) =~= Seq::<Seq<u8>>::empty());
}

} // verus!
