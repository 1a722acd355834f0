//! Streams of packets that are sealed under a shared secret.
//!
//! The two sides exchange X25519 public keys in the clear; the server then says with one byte
//! whether it accepts the client. The secret that both sides derive is the key of every packet, and
//! its first bytes are the nonce.

pub mod key_exchange;
pub mod packets;

use crate::codec::{decode_run, encode_run, prefixed, CodecError};
use crate::crypto::{aead_seal, open, seal};
use crate::models::ClientId;
use crate::sealed_stream::packets::{
    all_open, consumed, found_after, has_bad_length, law_packets_round_trip, law_packets_split,
    law_place_fits, law_place_keeps_all, law_stream_round_trip, lemma_consumed_bound,
    lemma_place_bounds, lemma_prefix_clean, nonce_of, opened, packet_bytes, packets, place,
    plaintexts, remainder_after, sendable,
};
use crate::wire::{append_slice, concat, copy_into, copy_of, lemma_concat_add, sub_vec};
use vstd::prelude::*;
use vstd::slice::slice_subrange;

verus! {

/// The most plaintext bytes that go into one packet.
pub const CHUNK_SIZE: usize = 5012;

/// The bytes of a nonce.
pub const NONCE_LEN: usize = 12;

/// The nonces of a stream: every one is the first bytes of the shared secret.
pub struct SharedSecretNonceSeq {
    inner: [u8; 32],
}

impl SharedSecretNonceSeq {
    /// The shared secret.
    pub closed spec fn secret(&self) -> Seq<u8> {
        self.inner@
    }

    /// The nonces that belong to `inner`.
    pub fn new(inner: [u8; 32]) -> (r: Self)
        ensures
            r.secret() == inner@,
    {
        SharedSecretNonceSeq { inner }
    }

    /// The next nonce.
    pub fn advance(&self) -> (r: [u8; 12])
        ensures
            r@ == nonce_of(self.secret()),
    {
        let mut nonce: [u8; 12] = [0; 12];
        let mut i: usize = 0;
        while i < NONCE_LEN
            invariant
                i <= NONCE_LEN,
                nonce@.take(i as int) == self.inner@.take(i as int),
            decreases NONCE_LEN - i,
        {
            nonce[i] = self.inner[i];
            i = i + 1;
            assert(nonce@.take(i as int) =~= self.inner@.take(i as int));
        }
        assert(nonce@ =~= self.inner@.take(12));
        nonce
    }
}

/// The sealing half of a stream.
pub struct EncryptedWriteStream {
    key: SharedSecretNonceSeq,
    their_pubkey: [u8; 32],
}

/// What one write puts on the wire, and how much of the caller's buffer it covers.
pub struct SealedChunk {
    pub packet: Vec<u8>,
    pub taken: usize,
}

/// How many bytes of a buffer of `len` bytes one write covers.
pub open spec fn chunk_len(len: nat) -> nat {
    if len <= CHUNK_SIZE {
        len
    } else {
        CHUNK_SIZE as nat
    }
}

impl EncryptedWriteStream {
    /// The shared secret.
    pub closed spec fn secret(&self) -> Seq<u8> {
        self.key.secret()
    }

    /// The public key of the client.
    pub closed spec fn peer(&self) -> Seq<u8> {
        self.their_pubkey@
    }

    /// The sealing half for a client with the key `their_pubkey`.
    pub fn new(shared_secret: [u8; 32], their_pubkey: [u8; 32]) -> (r: Self)
        ensures
            r.secret() == shared_secret@,
            r.peer() == their_pubkey@,
    {
        EncryptedWriteStream { key: SharedSecretNonceSeq::new(shared_secret), their_pubkey }
    }

    /// The client at the other end.
    pub fn get_client_id(&self) -> (r: ClientId)
        ensures
            r.key() == self.peer(),
    {
        ClientId::new(copy_of(&self.their_pubkey))
    }

    /// Seals the next chunk of `buf`: the packet to send, and how many bytes of `buf` are in it.
    pub fn poll_write(&self, buf: &[u8]) -> (r: SealedChunk)
        ensures
            r.taken == chunk_len(buf@.len()),
            r.packet@ == prefixed(
                aead_seal(self.secret(), nonce_of(self.secret()), buf@.take(r.taken as int)),
            ),
            opened(
                self.secret(),
                aead_seal(self.secret(), nonce_of(self.secret()), buf@.take(r.taken as int)),
            ) == Some(buf@.take(r.taken as int)),
            aead_seal(
                self.secret(),
                nonce_of(self.secret()),
                buf@.take(r.taken as int),
            ).len() == r.taken + 16,
    {
        let taken: usize = if buf.len() < CHUNK_SIZE {
            buf.len()
        } else {
            CHUNK_SIZE
        };
        let encrypt_me = sub_vec(buf, 0, taken);
        assert(encrypt_me@ =~= buf@.take(taken as int));
        let nonce = self.key.advance();
        let sealed = seal(&self.key.inner, &nonce, encrypt_me);
        SealedChunk { packet: encode_run(&sealed), taken }
    }
}

/// The opening half of a stream.
pub struct EncryptedReadStream {
    key: SharedSecretNonceSeq,
    read_remainder: Vec<u8>,
    unwritten: Vec<Vec<u8>>,
    failed: bool,
}

/// The contents of a list of byte vectors.
pub open spec fn views(list: Seq<Vec<u8>>) -> Seq<Seq<u8>> {
    Seq::new(list.len(), |i: int| list[i]@)
}

impl EncryptedReadStream {
    /// The shared secret.
    pub closed spec fn secret(&self) -> Seq<u8> {
        self.key.secret()
    }

    /// The bytes of a packet that has not arrived in full.
    pub closed spec fn remainder(&self) -> Seq<u8> {
        self.read_remainder@
    }

    /// The plaintexts that did not fit into the caller's buffer, oldest first.
    pub closed spec fn aside(&self) -> Seq<Seq<u8>> {
        views(self.unwritten@)
    }

    /// Whether the underlying stream has failed and no read has reported it yet.
    pub closed spec fn failed(&self) -> bool {
        self.failed
    }

    /// The opening half for `shared_secret`, with nothing received yet.
    pub fn new(shared_secret: [u8; 32]) -> (r: Self)
        ensures
            r.secret() == shared_secret@,
            r.remainder() == Seq::<u8>::empty(),
            r.aside() == Seq::<Seq<u8>>::empty(),
            !r.failed(),
    {
        let r = EncryptedReadStream {
            key: SharedSecretNonceSeq::new(shared_secret),
            read_remainder: Vec::new(),
            unwritten: Vec::new(),
            failed: false,
        };
        assert(r.aside() =~= Seq::<Seq<u8>>::empty());
        r
    }

    /// Takes the packets off the front of `remainder_plus_read` and puts their plaintexts into
    /// `write_into`; returns how many bytes of it to report. What comes after the last whole packet
    /// is kept, and plaintexts that do not fit are set aside.
    pub fn read_packets_from_buffer(
        &mut self,
        remainder_plus_read: &mut Vec<u8>,
        write_into: &mut [u8],
    ) -> (total: usize)
        requires
            all_open(old(self).secret(), packets(old(remainder_plus_read)@)),
            !has_bad_length(old(remainder_plus_read)@),
        ensures
            ({
                let bytes = old(remainder_plus_read)@;
                let placed = place(
                    plaintexts(old(self).secret(), packets(bytes)),
                    old(write_into)@.len(),
                );
                &&& total == placed.counted
                &&& final(write_into)@ == placed.bytes + old(write_into)@.skip(
                    placed.bytes.len() as int,
                )
                &&& final(remainder_plus_read)@ == bytes.take(consumed(bytes) as int)
                &&& final(self).remainder() == bytes.skip(consumed(bytes) as int)
                &&& final(self).aside() == old(self).aside() + placed.aside
                &&& final(self).secret() == old(self).secret()
                &&& final(self).failed() == old(self).failed()
            }),
    {
        let ghost bytes = remainder_plus_read@;
        let ghost secret = self.secret();
        let ghost mut done: Seq<Seq<u8>> = Seq::empty();
        let room: usize = write_into.len();
        let len: usize = remainder_plus_read.len();
        let mut pos: usize = 0;
        let mut filled: usize = 0;
        let mut total: usize = 0;
        let mut advance: usize = 0;
        let mut more: bool = true;
        proof {
            assert(bytes.skip(0) =~= bytes);
            assert(done + packets(bytes) =~= packets(bytes));
            assert(plaintexts(secret, done) =~= Seq::<Seq<u8>>::empty());
            assert(write_into@ =~= Seq::<u8>::empty() + old(write_into)@.skip(0));
            assert(self.aside() =~= old(self).aside() + Seq::<Seq<u8>>::empty());
        }
        while more
            invariant
                bytes == remainder_plus_read@,
                len == bytes.len(),
                secret == self.secret(),
                secret == old(self).secret(),
                self.failed == old(self).failed,
                room == write_into@.len(),
                room == old(write_into)@.len(),
                pos <= len,
                advance <= len,
                all_open(secret, packets(bytes)),
                !has_bad_length(bytes),
                more ==> packets(bytes) == done + packets(bytes.skip(pos as int)),
                more ==> consumed(bytes) == pos + consumed(bytes.skip(pos as int)),
                more ==> has_bad_length(bytes) == has_bad_length(bytes.skip(pos as int)),
                more ==> advance == pos,
                !more ==> packets(bytes) == done,
                !more ==> consumed(bytes) == advance,
                filled == place(plaintexts(secret, done), room as nat).bytes.len(),
                filled <= room,
                total <= filled,
                total == place(plaintexts(secret, done), room as nat).counted,
                write_into@ == place(plaintexts(secret, done), room as nat).bytes + old(
                    write_into,
                )@.skip(filled as int),
                self.aside() == old(self).aside() + place(
                    plaintexts(secret, done),
                    room as nat,
                ).aside,
            decreases len - pos + (if more {
                1int
            } else {
                0int
            }),
        {
            let ghost rest = bytes.skip(pos as int);
            let window = slice_subrange(remainder_plus_read.as_slice(), pos, len);
            assert(window@ =~= rest);
            match decode_run(window) {
                Err(_) => {
                    more = false;
                    assert(done + packets(rest) =~= done);
                },
                Ok((decrypt_buff, used)) => {
                    advance = pos + used;
                    if decrypt_buff.len() == 0 {
                        more = false;
                        assert(done + packets(rest) =~= done);
                    } else {
                        let ghost sealed = decrypt_buff@;
                        let ghost before = done;
                        let ghost placed = place(plaintexts(secret, done), room as nat);
                        let ghost buffer = write_into@;
                        let ghost aside_before = self.aside();
                        proof {
                            assert(packets(rest) == seq![sealed] + packets(
                                rest.skip(used as int),
                            ));
                            assert(rest.skip(used as int) =~= bytes.skip(pos + used));
                            done = done.push(sealed);
                            assert(packets(bytes) =~= done + packets(bytes.skip(pos + used)));
                            assert(packets(bytes)[before.len() as int] == sealed);
                            assert(opened(secret, packets(bytes)[before.len() as int]) is Some);
                            assert(done.drop_last() =~= before);
                            assert(plaintexts(secret, done).drop_last() =~= plaintexts(
                                secret,
                                before,
                            ));
                            lemma_place_bounds(plaintexts(secret, done), room as nat);
                        }
                        let nonce = self.key.advance();
                        match open(&self.key.inner, &nonce, decrypt_buff) {
                            None => {
                                assert(false);
                            },
                            Some(just_content) => {
                                assert(plaintexts(secret, done).last() == just_content@);
                                if just_content.len() <= room - filled {
                                    copy_into(write_into, filled, &just_content);
                                    total = total + just_content.len();
                                    filled = filled + just_content.len();
                                    assert(buffer.take(placed.bytes.len() as int) =~= placed.bytes);
                                    assert(write_into@ =~= place(
                                        plaintexts(secret, done),
                                        room as nat,
                                    ).bytes + old(write_into)@.skip(filled as int));
                                } else {
                                    let part = sub_vec(&just_content, 0, room - filled);
                                    copy_into(write_into, filled, &part);
                                    filled = room;
                                    assert(part@ =~= just_content@.take(
                                        room - placed.bytes.len(),
                                    ));
                                    assert(buffer.take(placed.bytes.len() as int) =~= placed.bytes);
                                    assert(write_into@ =~= place(
                                        plaintexts(secret, done),
                                        room as nat,
                                    ).bytes + old(write_into)@.skip(filled as int));
                                    let ghost content = just_content@;
                                    self.unwritten.push(just_content);
                                    assert(self.aside() =~= aside_before.push(content));
                                    assert(old(self).aside() + placed.aside.push(content)
                                        =~= aside_before.push(content));
                                }
                            },
                        }
                        pos = advance;
                    }
                },
            }
        }
        proof {
            lemma_consumed_bound(bytes);
        }
        self.read_remainder = remainder_plus_read.split_off(advance);
        assert(self.read_remainder@ =~= bytes.skip(advance as int));
        assert(remainder_plus_read@ =~= bytes.take(advance as int));
        total
    }
}

/// What polling the underlying stream gave.
pub enum Polled {
    /// These bytes arrived; none means that the stream has ended.
    Ready(Vec<u8>),
    /// The stream failed.
    Failed,
    /// Nothing is there yet.
    Pending,
}

/// What the beginning of a read comes to.
#[derive(Clone, Copy, Debug, PartialEq, Eq, Structural)]
pub enum BegunRead {
    /// The underlying stream has failed, and the read is over.
    Failed,
    /// So many bytes of the buffer hold data that was set aside.
    Drained(usize),
}

/// What a read reports to its caller.
#[derive(Clone, Copy, Debug, PartialEq, Eq, Structural)]
pub enum ReadOutcome {
    /// So many bytes of the buffer hold data.
    Ready(usize),
    /// No whole packet has arrived: the caller is to poll again at once.
    PollAgain,
    /// The underlying stream failed.
    Failed,
    /// The underlying stream has nothing yet.
    Pending,
}

/// Whether a reader that holds `remainder` can go on with the newly arrived `fresh`, when the read has
/// already filled the buffer with `drained` bytes: whole packets must open, and a read that has
/// nothing to report may come upon the end of the stream only between packets.
pub open spec fn readable(
    secret: Seq<u8>,
    remainder: Seq<u8>,
    drained: usize,
    fresh: Seq<u8>,
) -> bool {
    if fresh.len() == 0 {
        remainder.len() == 0 || drained > 0
    } else {
        all_open(secret, packets(remainder + fresh)) && !has_bad_length(remainder + fresh)
    }
}

/// What the end of a read comes to.
#[verifier::ext_equal]
pub ghost struct EndOfRead {
    /// What is reported to the caller.
    pub outcome: ReadOutcome,
    /// What the caller's buffer then holds.
    pub buf: Seq<u8>,
    /// The bytes of a packet that has not arrived in full.
    pub remainder: Seq<u8>,
    /// The plaintexts that are set aside.
    pub aside: Seq<Seq<u8>>,
    /// Whether a failure is still to be reported.
    pub failed: bool,
}

/// The end of a read by a reader that holds `remainder`, when the bytes `fresh` have arrived, into a
/// buffer that the read has already filled with `drained` bytes. They are reported together with the
/// plaintexts that follow them.
pub open spec fn ready_read(
    secret: Seq<u8>,
    remainder: Seq<u8>,
    buf: Seq<u8>,
    drained: usize,
    fresh: Seq<u8>,
) -> EndOfRead {
    if fresh.len() == 0 {
        EndOfRead {
            outcome: ReadOutcome::Ready(drained),
            buf,
            remainder,
            aside: Seq::empty(),
            failed: false,
        }
    } else {
        let have = remainder + fresh;
        let placed = place(plaintexts(secret, packets(have)), (buf.len() - drained) as nat);
        EndOfRead {
            outcome: if drained + placed.counted == 0 {
                ReadOutcome::PollAgain
            } else {
                ReadOutcome::Ready((drained + placed.counted) as usize)
            },
            buf: buf.take(drained as int) + placed.bytes + buf.skip(drained + placed.bytes.len()),
            remainder: have.skip(consumed(have) as int),
            aside: placed.aside,
            failed: false,
        }
    }
}

/// The end of a read, whatever the underlying stream gave. Bytes that the buffer has been filled with
/// are reported even if nothing more is there, or the underlying stream failed; the failure is then
/// for the next read to report.
pub open spec fn end_of_read(
    secret: Seq<u8>,
    remainder: Seq<u8>,
    buf: Seq<u8>,
    drained: usize,
    polled: Polled,
) -> EndOfRead {
    match polled {
        Polled::Ready(fresh) => ready_read(secret, remainder, buf, drained, fresh@),
        Polled::Failed => EndOfRead {
            outcome: if drained > 0 {
                ReadOutcome::Ready(drained)
            } else {
                ReadOutcome::Failed
            },
            buf,
            remainder,
            aside: Seq::empty(),
            failed: drained > 0,
        },
        Polled::Pending => EndOfRead {
            outcome: if drained > 0 {
                ReadOutcome::Ready(drained)
            } else {
                ReadOutcome::Pending
            },
            buf,
            remainder,
            aside: Seq::empty(),
            failed: false,
        },
    }
}

/// No failure of the underlying stream is lost: the read reports it, or reports the bytes that it has
/// and leaves the failure to the next read, which reports it as soon as it begins.
pub proof fn law_failure_is_reported(
    secret: Seq<u8>,
    remainder: Seq<u8>,
    buf: Seq<u8>,
    drained: usize,
)
    ensures
        ({
            let end = end_of_read(secret, remainder, buf, drained, Polled::Failed);
            &&& end.outcome is Failed <==> drained == 0
            &&& end.failed <==> drained > 0
            &&& drained > 0 ==> end.outcome == ReadOutcome::Ready(drained)
            &&& end.buf == buf && end.remainder == remainder
        }),
{
}

/// What a caller has received who reads into a buffer of `room` bytes again and again, and what the
/// reader then holds.
#[verifier::ext_equal]
pub ghost struct Reading {
    /// The bytes that were reported, one read after the other.
    pub delivered: Seq<u8>,
    /// The bytes of a packet that has not arrived in full.
    pub remainder: Seq<u8>,
    /// The plaintexts that are set aside.
    pub aside: Seq<Seq<u8>>,
}

/// The buffer of `room` bytes after the plaintexts `aside` have been moved into it.
pub open spec fn begun_buffer(aside: Seq<Seq<u8>>, room: nat) -> Seq<u8> {
    concat(aside) + Seq::new(room, |i: int| 0u8).skip(concat(aside).len() as int)
}

/// One more read into a buffer of `room` bytes, while `fresh` arrives: the plaintexts that were set
/// aside come first.
pub open spec fn read_on(secret: Seq<u8>, before: Reading, fresh: Seq<u8>, room: nat) -> Reading {
    let end = ready_read(
        secret,
        before.remainder,
        begun_buffer(before.aside, room),
        concat(before.aside).len() as usize,
        fresh,
    );
    Reading {
        delivered: before.delivered + match end.outcome {
            ReadOutcome::Ready(count) => end.buf.take(count as int),
            _ => Seq::empty(),
        },
        remainder: end.remainder,
        aside: end.aside,
    }
}

/// The reads of a new reader into a buffer of `room` bytes while `pieces` arrive, one to a read.
pub open spec fn reading(secret: Seq<u8>, pieces: Seq<Seq<u8>>, room: nat) -> Reading
    decreases pieces.len(),
{
    if pieces.len() == 0 {
        Reading { delivered: Seq::empty(), remainder: Seq::empty(), aside: Seq::empty() }
    } else {
        read_on(secret, reading(secret, pieces.drop_last(), room), pieces.last(), room)
    }
}

/// Whether no piece is empty, and what is set aside always fits into the buffer of the next read.
pub open spec fn held_fits(secret: Seq<u8>, pieces: Seq<Seq<u8>>, room: nat) -> bool
    decreases pieces.len(),
{
    pieces.len() == 0 || {
        &&& held_fits(secret, pieces.drop_last(), room)
        &&& pieces.last().len() > 0
        &&& concat(reading(secret, pieces.drop_last(), room).aside).len() <= room
    }
}

/// Nothing is lost, nothing comes twice and nothing changes its place: what the caller has received
/// and what is still set aside are the plaintexts of all packets that the reader has found, in order.
pub proof fn law_reads_deliver_what_is_found(secret: Seq<u8>, pieces: Seq<Seq<u8>>, room: nat)
    requires
        room <= usize::MAX,
        held_fits(secret, pieces, room),
    ensures
        ({
            let now = reading(secret, pieces, room);
            &&& now.delivered + concat(now.aside) == concat(plaintexts(secret, found_after(pieces)))
            &&& now.remainder == remainder_after(pieces)
        }),
    decreases pieces.len(),
{
    let now = reading(secret, pieces, room);
    if pieces.len() == 0 {
        assert(plaintexts(secret, found_after(pieces)) =~= Seq::<Seq<u8>>::empty());
        assert(now.delivered + concat(now.aside) =~= Seq::<u8>::empty());
    } else {
        let earlier = pieces.drop_last();
        law_reads_deliver_what_is_found(secret, earlier, room);
        let before = reading(secret, earlier, room);
        let held = concat(before.aside);
        let have = remainder_after(earlier) + pieces.last();
        let texts = plaintexts(secret, packets(have));
        let placed = place(texts, (room - held.len()) as nat);
        law_place_keeps_all(texts, (room - held.len()) as nat);
        let buf = begun_buffer(before.aside, room);
        assert(buf.len() == room);
        assert(buf.take(held.len() as int) =~= held);
        let end = ready_read(secret, before.remainder, buf, held.len() as usize, pieces.last());
        assert(end.buf.take((held.len() + placed.counted) as int) =~= held + placed.bytes.take(
            placed.counted as int,
        ));
        assert(held.len() + placed.counted == 0 ==> held + placed.bytes.take(placed.counted as int)
            =~= Seq::<u8>::empty());
        assert(now.delivered =~= before.delivered + (held + placed.bytes.take(
            placed.counted as int,
        )));
        assert(now.delivered + concat(now.aside) =~= (before.delivered + held) + (
        placed.bytes.take(placed.counted as int) + concat(placed.aside)));
        assert(plaintexts(secret, found_after(pieces)) =~= plaintexts(
            secret,
            found_after(earlier),
        ) + texts);
        lemma_concat_add(plaintexts(secret, found_after(earlier)), texts);
    }
}

/// A read with room for everything delivers everything: what was set aside, oldest first, and behind
/// it the plaintexts of the packets that have arrived.
pub proof fn law_read_with_room_delivers_all(
    secret: Seq<u8>,
    before: Reading,
    fresh: Seq<u8>,
    room: nat,
)
    requires
        fresh.len() > 0,
        room <= usize::MAX,
        concat(before.aside).len() + concat(
            plaintexts(secret, packets(before.remainder + fresh)),
        ).len() <= room,
    ensures
        ({
            let now = read_on(secret, before, fresh, room);
            &&& now.delivered == before.delivered + concat(before.aside) + concat(
                plaintexts(secret, packets(before.remainder + fresh)),
            )
            &&& now.aside == Seq::<Seq<u8>>::empty()
        }),
{
    let held = concat(before.aside);
    let texts = plaintexts(secret, packets(before.remainder + fresh));
    law_place_fits(texts, (room - held.len()) as nat);
    let buf = begun_buffer(before.aside, room);
    assert(buf.take(held.len() as int) =~= held);
    let end = ready_read(secret, before.remainder, buf, held.len() as usize, fresh);
    assert(end.buf.take((held.len() + concat(texts).len()) as int) =~= held + concat(texts));
    assert(read_on(secret, before, fresh, room).delivered =~= before.delivered + held + concat(
        texts,
    ));
}

/// A read at the end of the stream delivers what was still set aside.
pub proof fn law_end_of_stream_delivers_the_rest(secret: Seq<u8>, before: Reading, room: nat)
    requires
        concat(before.aside).len() <= room <= usize::MAX,
    ensures
        read_on(secret, before, Seq::empty(), room) == (Reading {
            delivered: before.delivered + concat(before.aside),
            remainder: before.remainder,
            aside: Seq::empty(),
        }),
{
    let buf = begun_buffer(before.aside, room);
    assert(buf.take(concat(before.aside).len() as int) =~= concat(before.aside));
}

/// The chunks into which repeated writes cut `data`.
pub open spec fn chunks_of(data: Seq<u8>) -> Seq<Seq<u8>>
    decreases data.len(),
{
    if data.len() == 0 {
        Seq::empty()
    } else {
        let taken = chunk_len(data.len()) as int;
        seq![data.take(taken)] + chunks_of(data.skip(taken))
    }
}

/// The sealed chunks of repeated writes of `data`.
pub open spec fn sealed_chunks(secret: Seq<u8>, data: Seq<u8>) -> Seq<Seq<u8>> {
    Seq::new(
        chunks_of(data).len(),
        |i: int| aead_seal(secret, nonce_of(secret), chunks_of(data)[i]),
    )
}

/// Repeated writes cover the data, no more and no less, and none of them is empty or too long.
pub proof fn law_chunks_cover_the_data(data: Seq<u8>)
    ensures
        concat(chunks_of(data)) == data,
        forall|i: int|
            0 <= i < chunks_of(data).len() ==> 0 < (#[trigger] chunks_of(data)[i]).len()
                <= CHUNK_SIZE,
    decreases data.len(),
{
    if data.len() == 0 {
        assert(concat(chunks_of(data)) =~= data);
    } else {
        let taken = chunk_len(data.len()) as int;
        let head = data.take(taken);
        let rest = data.skip(taken);
        law_chunks_cover_the_data(rest);
        lemma_concat_add(seq![head], chunks_of(rest));
        assert(concat(seq![head]) =~= head) by {
            reveal_with_fuel(concat, 2);
        }
        assert(head + rest =~= data);
        assert forall|i: int| 0 <= i < chunks_of(data).len() implies 0 < (
        #[trigger] chunks_of(data)[i]).len() <= CHUNK_SIZE by {
            if i > 0 {
                assert(chunks_of(data)[i] == chunks_of(rest)[i - 1]);
            }
        }
    }
}

/// The transfer of data over a sealed stream: what one side writes, however it is cut into pieces on
/// its way, is what the other side reads, as long as what is set aside fits into the buffer of the
/// next read; and the read that comes upon the end of the stream delivers the last of it. That a
/// sealed chunk is longer by the tag and opens to the chunk is what every write ensures of it.
pub proof fn law_stream_carries_data(
    secret: Seq<u8>,
    data: Seq<u8>,
    pieces: Seq<Seq<u8>>,
    room: nat,
)
    requires
        room <= usize::MAX,
        forall|i: int|
            0 <= i < chunks_of(data).len() ==> {
                let sealed = aead_seal(secret, nonce_of(secret), #[trigger] chunks_of(data)[i]);
                &&& sealed.len() == chunks_of(data)[i].len() + 16
                &&& opened(secret, sealed) == Some(chunks_of(data)[i])
            },
        concat(pieces) == packet_bytes(sealed_chunks(secret, data)),
        held_fits(secret, pieces, room),
    ensures
        ({
            let now = reading(secret, pieces, room);
            &&& now.delivered + concat(now.aside) == data
            &&& now.remainder == Seq::<u8>::empty()
            &&& concat(now.aside).len() <= room ==> read_on(secret, now, Seq::empty(), room) == (
            Reading { delivered: data, remainder: Seq::empty(), aside: Seq::empty() })
        }),
{
    let chunks = chunks_of(data);
    let sealed = sealed_chunks(secret, data);
    law_chunks_cover_the_data(data);
    assert forall|i: int| 0 <= i < sealed.len() implies 0 < (#[trigger] sealed[i]).len()
        <= usize::MAX by {
        assert(0 < chunks[i].len() <= CHUNK_SIZE);
    }
    assert forall|i: int| 0 <= i < sealed.len() implies opened(secret, #[trigger] sealed[i])
        == Some(chunks[i]) by {
        assert(0 < chunks[i].len());
    }
    law_stream_round_trip(secret, chunks, sealed, pieces);
    law_reads_deliver_what_is_found(secret, pieces, room);
    let now = reading(secret, pieces, room);
    if concat(now.aside).len() <= room {
        law_end_of_stream_delivers_the_rest(secret, now, room);
    }
}

impl EncryptedReadStream {
    /// Whether the plaintexts that were set aside fit into `room` bytes.
    pub fn aside_fits(&self, room: usize) -> (r: bool)
        ensures
            r == (concat(self.aside()).len() <= room),
    {
        let ghost order = self.aside();
        let mut left: usize = room;
        let mut i: usize = 0;
        while i < self.unwritten.len()
            invariant
                i <= self.unwritten@.len(),
                order == self.aside(),
                left <= room,
                concat(order.take(i as int)).len() + left == room,
            decreases self.unwritten@.len() - i,
        {
            proof {
                assert(order.take(i + 1).drop_last() =~= order.take(i as int));
                assert(order.take(i + 1).last() == self.unwritten@[i as int]@);
                lemma_concat_prefix_len(order, i + 1);
            }
            if self.unwritten[i].len() > left {
                return false;
            }
            left = left - self.unwritten[i].len();
            i = i + 1;
        }
        assert(order.take(self.unwritten@.len() as int) =~= order);
        true
    }

    /// Begins a read. If the read before has kept a failure back, it is reported now, and the read is
    /// over. Otherwise the plaintexts that were set aside are moved into `buf`, the oldest first, and the
    /// rest of `buf` is what the underlying stream is to be polled for.
    pub fn start_read(&mut self, buf: &mut [u8]) -> (r: BegunRead)
        requires
            concat(old(self).aside()).len() <= old(buf)@.len(),
        ensures
            !final(self).failed(),
            final(self).remainder() == old(self).remainder(),
            final(self).secret() == old(self).secret(),
            if old(self).failed() {
                &&& r is Failed
                &&& final(buf)@ == old(buf)@
                &&& final(self).aside() == old(self).aside()
            } else {
                &&& r matches BegunRead::Drained(drained)
                &&& drained == concat(old(self).aside()).len()
                &&& final(buf)@ == concat(old(self).aside()) + old(buf)@.skip(drained as int)
                &&& final(self).aside() == Seq::<Seq<u8>>::empty()
            },
    {
        if self.failed {
            self.failed = false;
            return BegunRead::Failed;
        }
        let ghost order = self.aside();
        let room: usize = buf.len();
        let mut drained: usize = 0;
        let mut i: usize = 0;
        assert(order.take(0) =~= Seq::<Seq<u8>>::empty());
        assert(buf@ =~= concat(order.take(0)) + old(buf)@.skip(0));
        while i < self.unwritten.len()
            invariant
                *self == *old(self),
                order == self.aside(),
                i <= self.unwritten@.len(),
                room == buf@.len(),
                room == old(buf)@.len(),
                concat(order).len() <= room,
                drained == concat(order.take(i as int)).len(),
                buf@ == concat(order.take(i as int)) + old(buf)@.skip(drained as int),
            decreases self.unwritten@.len() - i,
        {
            let ghost buffer = buf@;
            let ghost before = concat(order.take(i as int));
            proof {
                assert(order.take(i + 1).drop_last() =~= order.take(i as int));
                assert(order.take(i + 1).last() == self.unwritten@[i as int]@);
                lemma_concat_prefix_len(order, i + 1);
            }
            copy_into(buf, drained, &self.unwritten[i]);
            drained = drained + self.unwritten[i].len();
            assert(buffer.take(before.len() as int) =~= before);
            assert(buf@ =~= concat(order.take(i + 1)) + old(buf)@.skip(drained as int));
            i = i + 1;
        }
        assert(order.take(self.unwritten@.len() as int) =~= order);
        self.unwritten = Vec::new();
        assert(self.aside() =~= Seq::<Seq<u8>>::empty());
        BegunRead::Drained(drained)
    }

    /// Ends a read that [`Self::start_read`] began: takes what the underlying stream gave, fills `buf`
    /// from `drained` on, and reports all that is in it.
    pub fn finish_read(&mut self, buf: &mut [u8], drained: usize, polled: Polled) -> (r: ReadOutcome)
        requires
            drained <= old(buf)@.len(),
            old(self).aside().len() == 0,
            !old(self).failed(),
            polled matches Polled::Ready(fresh) ==> readable(
                old(self).secret(),
                old(self).remainder(),
                drained,
                fresh@,
            ),
        ensures
            final(self).secret() == old(self).secret(),
            (EndOfRead {
                outcome: r,
                buf: final(buf)@,
                remainder: final(self).remainder(),
                aside: final(self).aside(),
                failed: final(self).failed(),
            }) == end_of_read(
                old(self).secret(),
                old(self).remainder(),
                old(buf)@,
                drained,
                polled,
            ),
    {
        assert(self.aside() =~= Seq::<Seq<u8>>::empty());
        match polled {
            Polled::Failed => if drained > 0 {
                self.failed = true;
                ReadOutcome::Ready(drained)
            } else {
                ReadOutcome::Failed
            },
            Polled::Pending => if drained > 0 {
                ReadOutcome::Ready(drained)
            } else {
                ReadOutcome::Pending
            },
            Polled::Ready(fresh) => {
                if fresh.len() == 0 {
                    return ReadOutcome::Ready(drained);
                }
                let mut remainder_plus_read: Vec<u8> = Vec::new();
                append_slice(&mut remainder_plus_read, &self.read_remainder);
                append_slice(&mut remainder_plus_read, &fresh);
                assert(remainder_plus_read@ =~= old(self).remainder() + fresh@);
                let ghost whole = buf@;
                let room: usize = buf.len();
                let (head, tail) = buf.split_at_mut(drained);
                let written: usize = self.read_packets_from_buffer(&mut remainder_plus_read, tail);
                proof {
                    let have = old(self).remainder() + fresh@;
                    let placed = place(
                        plaintexts(old(self).secret(), packets(have)),
                        (whole.len() - drained) as nat,
                    );
                    lemma_place_bounds(
                        plaintexts(old(self).secret(), packets(have)),
                        (whole.len() - drained) as nat,
                    );
                    assert(buf@ =~= whole.take(drained as int) + placed.bytes + whole.skip(
                        drained + placed.bytes.len(),
                    ));
                    assert(Seq::<Seq<u8>>::empty() + placed.aside =~= placed.aside);
                    assert(drained + written <= room);
                }
                if drained + written == 0 {
                    ReadOutcome::PollAgain
                } else {
                    ReadOutcome::Ready(drained + written)
                }
            },
        }
    }

    /// Whether every whole packet at the front of `bytes` opens and no length is out of range.
    pub fn packets_open(&self, bytes: &Vec<u8>) -> (r: bool)
        ensures
            r == (all_open(self.secret(), packets(bytes@)) && !has_bad_length(bytes@)),
    {
        let ghost secret = self.secret();
        let ghost mut done: Seq<Seq<u8>> = Seq::empty();
        let len: usize = bytes.len();
        let mut pos: usize = 0;
        proof {
            assert(bytes@.skip(0) =~= bytes@);
            assert(done + packets(bytes@) =~= packets(bytes@));
        }
        loop
            invariant
                len == bytes@.len(),
                secret == self.secret(),
                pos <= len,
                packets(bytes@) == done + packets(bytes@.skip(pos as int)),
                has_bad_length(bytes@) == has_bad_length(bytes@.skip(pos as int)),
                all_open(secret, done),
            decreases len - pos,
        {
            let ghost rest = bytes@.skip(pos as int);
            let window = slice_subrange(bytes.as_slice(), pos, len);
            assert(window@ =~= rest);
            match decode_run(window) {
                Err(e) => {
                    assert(done + packets(rest) =~= done);
                    return e != CodecError::InvalidLength;
                },
                Ok((data, used)) => {
                    if data.len() == 0 {
                        assert(done + packets(rest) =~= done);
                        return true;
                    }
                    let ghost sealed = data@;
                    let ghost before = done;
                    proof {
                        assert(rest.skip(used as int) =~= bytes@.skip(pos + used));
                        done = done.push(sealed);
                        assert(packets(bytes@) =~= done + packets(bytes@.skip(pos + used)));
                        assert(packets(bytes@)[before.len() as int] == sealed);
                    }
                    let nonce = self.key.advance();
                    if open(&self.key.inner, &nonce, data).is_none() {
                        return false;
                    }
                    proof {
                        assert forall|i: int| 0 <= i < done.len() implies opened(
                            secret,
                            #[trigger] done[i],
                        ) is Some by {
                            if i < before.len() {
                                assert(done[i] == before[i]);
                            }
                        }
                    }
                    pos = pos + used;
                },
            }
        }
    }

    /// Ends a read as [`Self::finish_read`] does, if the arrived bytes are readable. If they are not,
    /// nothing changes and there is no outcome.
    pub fn try_finish_read(&mut self, buf: &mut [u8], drained: usize, polled: Polled) -> (r: Option<
        ReadOutcome,
    >)
        requires
            drained <= old(buf)@.len(),
            old(self).aside().len() == 0,
            !old(self).failed(),
        ensures
            final(self).secret() == old(self).secret(),
            match r {
                Some(outcome) => (EndOfRead {
                    outcome,
                    buf: final(buf)@,
                    remainder: final(self).remainder(),
                    aside: final(self).aside(),
                    failed: final(self).failed(),
                }) == end_of_read(
                    old(self).secret(),
                    old(self).remainder(),
                    old(buf)@,
                    drained,
                    polled,
                ),
                None => {
                    &&& final(buf)@ == old(buf)@
                    &&& final(self).remainder() == old(self).remainder()
                    &&& final(self).aside() == old(self).aside()
                    &&& !final(self).failed()
                },
            },
            r is None <==> (polled matches Polled::Ready(fresh) && !readable(
                old(self).secret(),
                old(self).remainder(),
                drained,
                fresh@,
            )),
    {
        let readable_now: bool = match &polled {
            Polled::Ready(fresh) => {
                if fresh.len() == 0 {
                    self.read_remainder.len() == 0 || drained > 0
                } else {
                    let mut have: Vec<u8> = Vec::new();
                    append_slice(&mut have, &self.read_remainder);
                    append_slice(&mut have, fresh);
                    assert(have@ =~= self.remainder() + fresh@);
                    self.packets_open(&have)
                }
            },
            _ => true,
        };
        if readable_now {
            Some(self.finish_read(buf, drained, polled))
        } else {
            None
        }
    }
}

/// A prefix of a list of parts concatenates to no more than the whole list.
proof fn lemma_concat_prefix_len(parts: Seq<Seq<u8>>, n: int)
    requires
        0 <= n <= parts.len(),
    ensures
        concat(parts.take(n)).len() <= concat(parts).len(),
{
    lemma_concat_add(parts.take(n), parts.skip(n));
    assert(parts.take(n) + parts.skip(n) =~= parts);
}

/// One write covers the whole buffer if that is at most 5012 bytes long, and 5012 bytes of a longer one.
pub proof fn law_write_covers_a_chunk(len: nat)
    ensures
        len <= 5012 ==> chunk_len(len) == len,
        len > 5012 ==> chunk_len(len) == 5012,
{
}

/// Repeated writes cut data into chunks of 5012 bytes; only the last may be shorter.
pub proof fn law_chunks_are_full(data: Seq<u8>, i: int)
    requires
        0 <= i < chunks_of(data).len(),
    ensures
        i < chunks_of(data).len() - 1 ==> chunks_of(data)[i].len() == 5012,
        chunks_of(data)[i] == data.subrange(
            5012 * i,
            if i < chunks_of(data).len() - 1 {
                5012 * i + 5012
            } else {
                data.len() as int
            },
        ),
        i < chunks_of(data).len() - 1 ==> 5012 * i + 5012 < data.len(),
        5012 * i < data.len(),
    decreases data.len(),
{
    let taken = chunk_len(data.len()) as int;
    let head = data.take(taken);
    let rest = data.skip(taken);
    if i == 0 {
        if data.len() > 5012 {
            assert(rest.len() > 0);
            assert(chunks_of(rest).len() > 0);
            assert(head =~= data.subrange(0, 5012));
        } else {
            assert(rest.len() == 0);
            assert(head =~= data.subrange(0, data.len() as int));
        }
    } else {
        assert(chunks_of(data)[i] == chunks_of(rest)[i - 1]);
        assert(rest.len() > 0);
        law_chunks_are_full(rest, i - 1);
        assert(chunks_of(data)[i] =~= data.subrange(
            5012 * i,
            if i < chunks_of(data).len() - 1 {
                5012 * i + 5012
            } else {
                data.len() as int
            },
        ));
    }
}

/// A read into which something arrives reports as many bytes as it has, and asks to be polled again at
/// once exactly if it has none. It has the bytes that it began with and those of the plaintexts that are
/// counted behind them. It never keeps a failure back, and the buffer keeps its length and what it began
/// with.
pub proof fn law_read_reports_what_it_has(
    secret: Seq<u8>,
    remainder: Seq<u8>,
    buf: Seq<u8>,
    drained: usize,
    fresh: Seq<u8>,
)
    requires
        fresh.len() > 0,
        drained <= buf.len() <= usize::MAX,
    ensures
        ({
            let end = ready_read(secret, remainder, buf, drained, fresh);
            let texts = plaintexts(secret, packets(remainder + fresh));
            let room = (buf.len() - drained) as nat;
            let has = drained + place(texts, room).counted;
            &&& end.outcome is PollAgain <==> has == 0
            &&& has > 0 ==> end.outcome == ReadOutcome::Ready(has as usize)
            &&& end.buf.len() == buf.len()
            &&& end.buf.take(drained as int) == buf.take(drained as int)
            &&& concat(texts).len() <= room ==> end.buf.subrange(drained as int, has as int)
                == concat(texts)
            &&& has as int <= buf.len()
            &&& !end.failed
        }),
{
    let end = ready_read(secret, remainder, buf, drained, fresh);
    let texts = plaintexts(secret, packets(remainder + fresh));
    let room = (buf.len() - drained) as nat;
    let placed = place(texts, room);
    law_place_keeps_all(texts, room);
    assert(end.buf.take(drained as int) =~= buf.take(drained as int));
    if concat(texts).len() <= room {
        law_place_fits(texts, room);
        assert(end.buf.subrange(drained as int, drained + placed.counted) =~= concat(texts));
    }
}

/// A read in which nothing arrives, because the stream has ended or has nothing yet, leaves everything as
/// it is and reports what it began with. If that is nothing, the one is reported as the end and the other
/// as nothing yet.
pub proof fn law_read_without_news(
    secret: Seq<u8>,
    remainder: Seq<u8>,
    buf: Seq<u8>,
    drained: usize,
    polled: Polled,
)
    requires
        polled matches Polled::Ready(fresh) ==> fresh@.len() == 0,
        !(polled is Failed),
    ensures
        ({
            let end = end_of_read(secret, remainder, buf, drained, polled);
            &&& end.buf == buf
            &&& end.remainder == remainder
            &&& end.aside.len() == 0
            &&& !end.failed
            &&& drained > 0 || polled is Ready ==> end.outcome == ReadOutcome::Ready(drained)
            &&& drained == 0 && polled is Pending ==> end.outcome is Pending
        }),
{
}

/// What a writer has written can be read, wherever it was cut on its way: a reader that has taken a part
/// of it can go on with what arrives next.
pub proof fn law_written_is_readable(
    secret: Seq<u8>,
    sealed: Seq<Seq<u8>>,
    taken: Seq<u8>,
    fresh: Seq<u8>,
    rest: Seq<u8>,
    drained: usize,
)
    requires
        sendable(sealed),
        all_open(secret, sealed),
        packet_bytes(sealed) == taken + fresh + rest,
        fresh.len() > 0,
    ensures
        readable(secret, taken.skip(consumed(taken) as int), drained, fresh),
{
    let remainder = taken.skip(consumed(taken) as int);
    let have = taken + fresh;
    law_packets_round_trip(sealed);
    lemma_prefix_clean(have, rest);
    lemma_prefix_clean(taken, fresh);
    law_packets_split(have, rest);
    law_packets_split(taken, fresh);
    let found = packets(remainder + fresh);
    let before = packets(taken).len() as int;
    assert forall|i: int| 0 <= i < found.len() implies opened(secret, #[trigger] found[i]) is Some by {
        assert(packets(have)[before + i] == found[i]);
        assert(sealed[before + i] == found[i]);
    }
}

/// What has a packet in it that does not open cannot be read, whichever packet that is.
pub proof fn law_forged_is_not_readable(secret: Seq<u8>, sealed: Seq<Seq<u8>>, i: int, drained: usize)
    requires
        sendable(sealed),
        0 <= i < sealed.len(),
        opened(secret, sealed[i]) is None,
    ensures
        !readable(secret, Seq::empty(), drained, packet_bytes(sealed)),
{
    law_packets_round_trip(sealed);
    crate::wire::lemma_le_len(sealed[0].len(), 8);
    assert(Seq::<u8>::empty() + packet_bytes(sealed) =~= packet_bytes(sealed));
}

/// A stream that ends can be read up to its end exactly if it ends between packets, or if the read has
/// something to report.
pub proof fn law_end_is_readable(secret: Seq<u8>, remainder: Seq<u8>, drained: usize)
    ensures
        remainder.len() == 0 ==> readable(secret, remainder, drained, Seq::empty()),
        drained > 0 ==> readable(secret, remainder, drained, Seq::empty()),
        remainder.len() > 0 && drained == 0 ==> !readable(secret, remainder, drained, Seq::empty()),
{
}

} // verus!
