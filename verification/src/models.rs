//! The messages that server and client exchange, and the identity of a client.

use crate::codec::{
    decode_info, decode_reply, encode_info, encode_reply, info_bytes, law_info_record_round_trip,
    read_info, read_reply, reply_bytes, CodecError,
};
use crate::wire::{append_slice, copy_of, le, u64_le_bytes, ByteReader};
use std::hash::{Hash, Hasher};
use vstd::arithmetic::power::{lemma_pow0, lemma_pow1, pow};
use vstd::prelude::*;
use vstd::utf8::encode_utf8;

verus! {

/// What a data server tells a client before it sends the data.
#[derive(Debug, PartialEq)]
pub struct DataSrvInfo {
    pub tcp_port: u16,
    pub data_length: u64,
    pub encrypted: bool,
    pub data_name: String,
}

/// What is in a [`DataSrvInfo`].
pub ghost struct InfoView {
    pub tcp_port: u16,
    pub data_length: u64,
    pub encrypted: bool,
    pub data_name: Seq<char>,
}

impl View for DataSrvInfo {
    type V = InfoView;

    open spec fn view(&self) -> InfoView {
        InfoView {
            tcp_port: self.tcp_port,
            data_length: self.data_length,
            encrypted: self.encrypted,
            data_name: self.data_name@,
        }
    }
}

/// Why a message could not be read from a stream.
#[derive(Clone, Copy, Debug, PartialEq, Eq, Structural)]
pub enum ReadError {
    /// The stream ended inside the message.
    UnexpectedEof,
    /// The message was complete but did not decode.
    Codec(CodecError),
}

/// The record of `info`, without the byte that gives its length.
pub open spec fn info_record(info: InfoView) -> Seq<u8> {
    info_bytes(info.tcp_port, info.data_length, info.encrypted, info.data_name)
}

/// `info` as it is written to a stream: one byte of length, which wraps at 256, and the record.
pub open spec fn info_message(info: InfoView) -> Seq<u8> {
    seq![(info_record(info).len() % 256) as u8] + info_record(info)
}

/// Reads an info message off the front of `stream`: the info, or the error, and what is left.
pub open spec fn read_info_message(stream: Seq<u8>) -> (Result<InfoView, ReadError>, Seq<u8>) {
    if stream.len() < 1 || stream.len() < 1 + stream[0] {
        (Err(ReadError::UnexpectedEof), Seq::empty())
    } else {
        let record = stream.subrange(1, 1 + stream[0]);
        let left = stream.skip(1 + stream[0]);
        match read_info(record) {
            Ok((tcp_port, data_length, encrypted, data_name)) => (
                Ok(InfoView { tcp_port, data_length, encrypted, data_name }),
                left,
            ),
            Err(e) => (Err(ReadError::Codec(e)), left),
        }
    }
}

/// What is written of an info is read back and nothing behind it is touched, as long as the record
/// is at most 255 bytes long, so that one byte can tell its length.
pub proof fn law_info_round_trip(info: InfoView, rest: Seq<u8>)
    requires
        info_record(info).len() <= 255,
    ensures
        read_info_message(info_message(info) + rest) == (Ok::<InfoView, ReadError>(info), rest),
{
    let record = info_record(info);
    let all = info_message(info) + rest;
    crate::wire::lemma_le_len(info.tcp_port as nat, 2);
    crate::wire::lemma_le_len(info.data_length as nat, 8);
    assert(encode_utf8(info.data_name).len() <= record.len());
    law_info_record_round_trip(
        info.tcp_port,
        info.data_length,
        info.encrypted,
        info.data_name,
        Seq::empty(),
    );
    assert(record + Seq::<u8>::empty() =~= record);
    assert(all.subrange(1, 1 + all[0]) =~= record);
    assert(all.skip(1 + all[0]) =~= rest);
}

impl DataSrvInfo {
    /// Writes the length byte and the record to `stream`.
    pub fn write_to_stream(&self, stream: &mut Vec<u8>)
        ensures
            final(stream)@ == old(stream)@ + info_message(self@),
    {
        let serialized = encode_info(
            self.tcp_port,
            self.data_length,
            self.encrypted,
            self.data_name.as_str(),
        );
        stream.push((serialized.len() % 256) as u8);
        append_slice(stream, &serialized);
        assert(stream@ =~= old(stream)@ + info_message(self@));
    }

    /// Reads the length byte and the record from `stream`.
    pub fn read_from_stream(stream: &mut ByteReader) -> (r: Result<Self, ReadError>)
        ensures
            final(stream)@ == read_info_message(old(stream)@).1,
            match (r, read_info_message(old(stream)@).0) {
                (Ok(got), Ok(want)) => got@ == want,
                (Err(got), Err(want)) => got == want,
                _ => false,
            },
    {
        let ghost before = stream@;
        let len_byte = match stream.read_exact(1) {
            Ok(b) => b,
            Err(_) => return Err(ReadError::UnexpectedEof),
        };
        let len: u8 = len_byte[0];
        match stream.read_exact(len as usize) {
            Ok(record) => {
                assert(record@ =~= before.subrange(1, 1 + before[0]));
                assert(stream@ =~= before.skip(1 + before[0]));
                Self::from_record(&record)
            },
            Err(_) => Err(ReadError::UnexpectedEof),
        }
    }

    /// Decodes a record that has been read in full.
    pub fn from_record(record: &Vec<u8>) -> (r: Result<Self, ReadError>)
        ensures
            match (r, read_info(record@)) {
                (Ok(got), Ok((tcp_port, data_length, encrypted, data_name))) => got@ == (InfoView {
                    tcp_port,
                    data_length,
                    encrypted,
                    data_name,
                }),
                (Err(got), Err(want)) => got == ReadError::Codec(want),
                _ => false,
            },
    {
        match decode_info(record) {
            Ok((tcp_port, data_length, encrypted, data_name)) => Ok(
                DataSrvInfo { tcp_port, data_length, encrypted, data_name },
            ),
            Err(e) => Err(ReadError::Codec(e)),
        }
    }
}

/// What a server answers to a client that looks for servers.
#[derive(Debug)]
pub struct DiscoveryReply {
    pub server_name: String,
    pub tcp_port: u16,
}

impl DiscoveryReply {
    /// The datagram that carries the reply.
    pub fn to_bytes(&self) -> (r: Vec<u8>)
        ensures
            r@ == reply_bytes(self.server_name@, self.tcp_port),
    {
        encode_reply(self.server_name.as_str(), self.tcp_port)
    }

    /// Reads a reply off the front of a datagram buffer.
    pub fn from_bytes(bytes: &[u8]) -> (r: Result<Self, CodecError>)
        ensures
            match (r, read_reply(bytes@)) {
                (Ok(got), Ok(want)) => got.server_name@ == want.0 && got.tcp_port == want.1,
                (Err(got), Err(want)) => got == want,
                _ => false,
            },
    {
        match decode_reply(bytes) {
            Ok((server_name, tcp_port)) => Ok(DiscoveryReply { server_name, tcp_port }),
            Err(e) => Err(e),
        }
    }
}

/// A client, known by its public key.
#[derive(Debug, Hash, PartialEq, Eq)]
pub struct ClientId {
    pubkey: Vec<u8>,
}

/// The pronounceable words that encode `bytes`.
pub uninterp spec fn mnemonic_words(bytes: Seq<u8>) -> Seq<char>;

/// `mnemonic::to_string`. The words depend on the bytes alone; they are ASCII, and no bytes need no
/// words. There may not be so many bytes that the text would not fit into memory.
#[verifier::external_body]
pub(crate) fn mnemonic_string(bytes: &[u8]) -> (r: String)
    requires
        bytes@.len() <= usize::MAX / 16,
    ensures
        r@ == mnemonic_words(bytes@),
        vstd::utf8::is_ascii_chars(r@),
        bytes@.len() == 0 ==> r@ == Seq::<char>::empty(),
{
    mnemonic::to_string(bytes)
}

/// The hash that `std::collections::hash_map::DefaultHasher` gives for the bytes of a key. Which
/// number that is, its documentation leaves open; it may change with the machine and the release.
#[verifier::external_body]
fn default_hash(bytes: &Vec<u8>) -> (r: u64) {
    let mut hasher = std::collections::hash_map::DefaultHasher::new();
    bytes.hash(&mut hasher);
    hasher.finish()
}

/// The name under which a client with the key hash `hash` is shown.
pub fn hash_name(hash: u64) -> (r: String)
    ensures
        r@ == mnemonic_words(le(hash as nat, 8)),
        vstd::utf8::is_ascii_chars(r@),
{
    let bytes = u64_le_bytes(hash);
    proof {
        crate::wire::lemma_le_len(hash as nat, 8);
    }
    mnemonic_string(&bytes)
}

impl ClientId {
    /// The key of the client.
    pub closed spec fn key(&self) -> Seq<u8> {
        self.pubkey@
    }

    /// The client with the key `pubkey`.
    pub fn new(pubkey: Vec<u8>) -> (r: Self)
        ensures
            r.key() == pubkey@,
    {
        ClientId { pubkey }
    }

    /// The key of the client, spelled out in words.
    pub fn key_words(&self) -> (r: String)
        requires
            self.key().len() <= usize::MAX / 16,
        ensures
            r@ == mnemonic_words(self.key()),
    {
        mnemonic_string(&self.pubkey)
    }

    /// Whether `hash` is a hash that was taken of the client's key.
    pub closed spec fn hashes_to(&self, hash: u64) -> bool {
        call_ensures(default_hash, (&self.pubkey,), hash)
    }

    /// Whether the client is shown under `name`: the words of a hash that was taken of its key.
    pub open spec fn is_shown_as(&self, name: Seq<char>) -> bool {
        exists|hash: u64|
            self.hashes_to(hash) && name == #[trigger] mnemonic_words(le(hash as nat, 8))
    }

    /// A hash of the client's key. Which number that is may change with the machine and the release.
    pub fn hashed(&self) -> (r: u64)
        ensures
            self.hashes_to(r),
    {
        default_hash(&self.pubkey)
    }

    /// The name under which the client is shown: the mnemonic of a hash of its key.
    pub fn to_string(&self) -> (r: String)
        ensures
            self.is_shown_as(r@),
            vstd::utf8::is_ascii_chars(r@),
    {
        let hash: u64 = self.hashed();
        hash_name(hash)
    }
}

impl Clone for ClientId {
    fn clone(&self) -> (r: Self)
        ensures
            r.key() == self.key(),
    {
        ClientId { pubkey: copy_of(&self.pubkey) }
    }
}

/// An info message is the info's record behind one byte that tells its length, as far as a byte can.
pub proof fn law_info_message_tells_its_length(info: InfoView)
    ensures
        ({
            let message = info_message(info);
            &&& message.len() == info_record(info).len() + 1
            &&& message[0] == info_record(info).len() % 256
            &&& message.skip(1) == info_record(info)
        }),
{
    assert(info_message(info).skip(1) =~= info_record(info));
}

/// An info record begins with the port, low byte first, and the length of the data, low byte first, and
/// then has a flag that is 1 for encrypted data and 0 for other data.
pub proof fn law_info_record_layout(info: InfoView, i: nat)
    requires
        i < 8,
    ensures
        ({
            let record = info_record(info);
            &&& record.len() == 19 + encode_utf8(info.data_name).len()
            &&& record[0] + 256 * record[1] == info.tcp_port
            &&& record[2 + i as int] == (info.data_length as int / pow(256, i)) % 256
            &&& record[10] == 1 <==> info.encrypted
            &&& record[10] == 0 <==> !info.encrypted
            &&& record.skip(19) == encode_utf8(info.data_name)
        }),
{
    let record = info_record(info);
    crate::wire::law_le_digits(info.tcp_port as nat, 2, 0);
    crate::wire::law_le_digits(info.tcp_port as nat, 2, 1);
    crate::wire::law_le_digits(info.data_length as nat, 8, i);
    crate::wire::lemma_le_len(encode_utf8(info.data_name).len(), 8);
    lemma_pow0(256);
    lemma_pow1(256);
    assert(record.skip(19) =~= encode_utf8(info.data_name));
}

/// Reading an info takes the byte that tells a length and so many bytes behind it, no more and no less,
/// and makes of them what their record says. A stream that has fewer is at its end.
pub proof fn law_info_is_read_as_told(stream: Seq<u8>)
    ensures
        ({
            let (r, left) = read_info_message(stream);
            if stream.len() > 0 && stream.len() > stream[0] {
                &&& left.len() == stream.len() - 1 - stream[0]
                &&& left == stream.skip(1 + stream[0])
                &&& match (r, read_info(stream.subrange(1, 1 + stream[0]))) {
                    (Ok(info), Ok((tcp_port, data_length, encrypted, data_name))) => {
                        &&& info.tcp_port == tcp_port
                        &&& info.data_length == data_length
                        &&& info.encrypted == encrypted
                        &&& info.data_name == data_name
                    },
                    (Err(ReadError::Codec(got)), Err(e)) => got == e,
                    _ => false,
                }
            } else {
                r == Err::<InfoView, ReadError>(ReadError::UnexpectedEof) && left.len() == 0
            }
        }),
{
}

/// A client is shown under the words of the eight bytes, low byte first, of a hash of its key, and under
/// no other name.
pub proof fn law_client_is_shown_by_its_hash(client: ClientId, hash: u64, name: Seq<char>)
    ensures
        client.hashes_to(hash) ==> client.is_shown_as(mnemonic_words(le(hash as nat, 8))),
        client.is_shown_as(name) ==> exists|h: u64|
            client.hashes_to(h) && name == #[trigger] mnemonic_words(le(h as nat, 8)),
{
}

} // verus!
