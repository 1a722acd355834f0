//! The bincode encodings that the wire messages are made of.
//!
//! bincode writes a record as its fields one after the other: integers little-endian in their own
//! width, a flag as one byte, a string or a byte vector as a 64-bit length and then its bytes.

use crate::wire::{from_le, lemma_le_len, lemma_le_limits, le, law_le_round_trip};
use vstd::prelude::*;
use vstd::utf8::{decode_utf8, encode_utf8, valid_utf8};

verus! {

/// Why bytes could not be decoded.
#[derive(Clone, Copy, Debug, PartialEq, Eq, Structural)]
pub enum CodecError {
    /// The bytes end inside the record.
    UnexpectedEof,
    /// The bytes of a string are not UTF-8.
    InvalidUtf8,
    /// A flag is neither 0 nor 1.
    InvalidBool,
    /// A length does not fit this machine's `usize`.
    InvalidLength,
}

/// A string or byte vector as bincode writes it.
pub open spec fn prefixed(bytes: Seq<u8>) -> Seq<u8> {
    le(bytes.len(), 8) + bytes
}

/// Reads a length-prefixed byte run off the front of `bytes`: the run, and how many bytes it took.
pub open spec fn read_prefixed(bytes: Seq<u8>) -> Result<(Seq<u8>, nat), CodecError> {
    if bytes.len() < 8 {
        Err(CodecError::UnexpectedEof)
    } else {
        let len = from_le(bytes.take(8));
        if len > usize::MAX {
            Err(CodecError::InvalidLength)
        } else if len > bytes.len() - 8 {
            Err(CodecError::UnexpectedEof)
        } else {
            Ok((bytes.subrange(8, (8 + len) as int), 8 + len))
        }
    }
}

/// Reads a length-prefixed string off the front of `bytes`.
pub open spec fn read_string(bytes: Seq<u8>) -> Result<(Seq<char>, nat), CodecError> {
    match read_prefixed(bytes) {
        Err(e) => Err(e),
        Ok((run, taken)) => if valid_utf8(run) {
            Ok((decode_utf8(run), taken))
        } else {
            Err(CodecError::InvalidUtf8)
        },
    }
}

/// The record of a 16-bit port, a 64-bit length, a flag and a name.
pub open spec fn info_bytes(
    tcp_port: u16,
    data_length: u64,
    encrypted: bool,
    data_name: Seq<char>,
) -> Seq<u8> {
    le(tcp_port as nat, 2) + le(data_length as nat, 8) + seq![
        if encrypted {
            1u8
        } else {
            0u8
        },
    ] + prefixed(encode_utf8(data_name))
}

/// Reads the record of [`info_bytes`]; bytes behind it are ignored.
pub open spec fn read_info(bytes: Seq<u8>) -> Result<(u16, u64, bool, Seq<char>), CodecError> {
    if bytes.len() < 11 {
        Err(CodecError::UnexpectedEof)
    } else if bytes[10] > 1 {
        Err(CodecError::InvalidBool)
    } else {
        match read_string(bytes.skip(11)) {
            Err(e) => Err(e),
            Ok((name, _)) => Ok(
                (
                    from_le(bytes.take(2)) as u16,
                    from_le(bytes.subrange(2, 10)) as u64,
                    bytes[10] == 1,
                    name,
                ),
            ),
        }
    }
}

/// The record of a name and a 16-bit port.
pub open spec fn reply_bytes(server_name: Seq<char>, tcp_port: u16) -> Seq<u8> {
    prefixed(encode_utf8(server_name)) + le(tcp_port as nat, 2)
}

/// Reads the record of [`reply_bytes`]; bytes behind it are ignored.
pub open spec fn read_reply(bytes: Seq<u8>) -> Result<(Seq<char>, u16), CodecError> {
    match read_string(bytes) {
        Err(e) => Err(e),
        Ok((name, taken)) => if bytes.len() < taken + 2 {
            Err(CodecError::UnexpectedEof)
        } else {
            Ok((name, from_le(bytes.subrange(taken as int, (taken + 2) as int)) as u16))
        },
    }
}

/// A length-prefixed run is read back, whatever follows it.
pub proof fn law_prefixed_round_trip(run: Seq<u8>, rest: Seq<u8>)
    requires
        run.len() <= usize::MAX,
    ensures
        read_prefixed(prefixed(run) + rest) == Ok::<(Seq<u8>, nat), CodecError>(
            (run, 8 + run.len()),
        ),
{
    let all = prefixed(run) + rest;
    lemma_le_len(run.len(), 8);
    lemma_le_limits();
    law_le_round_trip(run.len(), 8);
    assert(all.take(8) =~= le(run.len(), 8));
    assert(all.subrange(8, (8 + run.len()) as int) =~= run);
}

/// A string is read back, whatever follows it.
pub proof fn law_string_round_trip(text: Seq<char>, rest: Seq<u8>)
    requires
        encode_utf8(text).len() <= usize::MAX,
    ensures
        read_string(prefixed(encode_utf8(text)) + rest) == Ok::<(Seq<char>, nat), CodecError>(
            (text, 8 + encode_utf8(text).len()),
        ),
{
    broadcast use vstd::utf8::encode_utf8_valid_utf8, vstd::utf8::encode_utf8_decode_utf8;

    law_prefixed_round_trip(encode_utf8(text), rest);
}

/// The server's record is read back, whatever follows it.
pub proof fn law_info_record_round_trip(
    tcp_port: u16,
    data_length: u64,
    encrypted: bool,
    data_name: Seq<char>,
    rest: Seq<u8>,
)
    requires
        encode_utf8(data_name).len() <= usize::MAX,
    ensures
        read_info(info_bytes(tcp_port, data_length, encrypted, data_name) + rest) == Ok::<
            (u16, u64, bool, Seq<char>),
            CodecError,
        >((tcp_port, data_length, encrypted, data_name)),
{
    let all = info_bytes(tcp_port, data_length, encrypted, data_name) + rest;
    lemma_le_len(tcp_port as nat, 2);
    lemma_le_len(data_length as nat, 8);
    lemma_le_limits();
    law_le_round_trip(tcp_port as nat, 2);
    law_le_round_trip(data_length as nat, 8);
    law_string_round_trip(data_name, rest);
    assert(all.take(2) =~= le(tcp_port as nat, 2));
    assert(all.subrange(2, 10) =~= le(data_length as nat, 8));
    assert(all.skip(11) =~= prefixed(encode_utf8(data_name)) + rest);
}

/// The discovery record is read back, whatever follows it.
pub proof fn law_reply_record_round_trip(server_name: Seq<char>, tcp_port: u16, rest: Seq<u8>)
    requires
        encode_utf8(server_name).len() <= usize::MAX,
    ensures
        read_reply(reply_bytes(server_name, tcp_port) + rest) == Ok::<(Seq<char>, u16), CodecError>(
            (server_name, tcp_port),
        ),
{
    let name = encode_utf8(server_name);
    let all = reply_bytes(server_name, tcp_port) + rest;
    lemma_le_len(tcp_port as nat, 2);
    lemma_le_len(name.len(), 8);
    lemma_le_limits();
    law_le_round_trip(tcp_port as nat, 2);
    law_string_round_trip(server_name, le(tcp_port as nat, 2) + rest);
    assert(all =~= prefixed(name) + (le(tcp_port as nat, 2) + rest));
    assert(all.subrange((8 + name.len()) as int, (10 + name.len()) as int) =~= le(tcp_port as nat, 2));
}

/// `bincode::serialize` of a port, a length, a flag and a name. The contract gives the bytes that
/// bincode's fixed-width little-endian encoding has for these fields; without a size limit
/// serialising them into a vector does not fail.
#[verifier::external_body]
pub(crate) fn encode_info(
    tcp_port: u16,
    data_length: u64,
    encrypted: bool,
    data_name: &str,
) -> (r: Vec<u8>)
    ensures
        r@ == info_bytes(tcp_port, data_length, encrypted, data_name@),
{
    bincode::serialize(&(tcp_port, data_length, encrypted, data_name)).unwrap()
}

/// `bincode::deserialize` of a port, a length, a flag and a name. The contract says for which bytes
/// it succeeds, with which fields, and which error each other input gives; bytes behind the record
/// are ignored.
#[verifier::external_body]
pub(crate) fn decode_info(bytes: &[u8]) -> (r: Result<(u16, u64, bool, String), CodecError>)
    ensures
        match (r, read_info(bytes@)) {
            (Ok(got), Ok(want)) => got.0 == want.0 && got.1 == want.1 && got.2 == want.2 && got.3@
                == want.3,
            (Err(got), Err(want)) => got == want,
            _ => false,
        },
{
    bincode::deserialize(bytes).map_err(|e: Box<bincode::ErrorKind>| match *e {
        bincode::ErrorKind::Io(_) => CodecError::UnexpectedEof,
        bincode::ErrorKind::InvalidUtf8Encoding(_) => CodecError::InvalidUtf8,
        bincode::ErrorKind::InvalidBoolEncoding(_) => CodecError::InvalidBool,
        _ => CodecError::InvalidLength,
    })
}

/// `bincode::serialize` of a name and a port. The contract gives the bytes, as for [`encode_info`].
#[verifier::external_body]
pub(crate) fn encode_reply(server_name: &str, tcp_port: u16) -> (r: Vec<u8>)
    ensures
        r@ == reply_bytes(server_name@, tcp_port),
{
    bincode::serialize(&(server_name, tcp_port)).unwrap()
}

/// `bincode::deserialize` of a name and a port. The contract says for which bytes it succeeds, with
/// which fields, and which error each other input gives; bytes behind the record are ignored.
#[verifier::external_body]
pub(crate) fn decode_reply(bytes: &[u8]) -> (r: Result<(String, u16), CodecError>)
    ensures
        match (r, read_reply(bytes@)) {
            (Ok(got), Ok(want)) => got.0@ == want.0 && got.1 == want.1,
            (Err(got), Err(want)) => got == want,
            _ => false,
        },
{
    bincode::deserialize(bytes).map_err(|e: Box<bincode::ErrorKind>| match *e {
        bincode::ErrorKind::Io(_) => CodecError::UnexpectedEof,
        bincode::ErrorKind::InvalidUtf8Encoding(_) => CodecError::InvalidUtf8,
        bincode::ErrorKind::InvalidBoolEncoding(_) => CodecError::InvalidBool,
        _ => CodecError::InvalidLength,
    })
}

/// `bincode::serialize` of a byte vector: its length in eight little-endian bytes, then the bytes.
#[verifier::external_body]
pub(crate) fn encode_run(run: &Vec<u8>) -> (r: Vec<u8>)
    ensures
        r@ == prefixed(run@),
{
    bincode::serialize(run).unwrap()
}

/// `bincode::deserialize_from` of a byte vector, on a cursor at the front of `bytes`, together with
/// where the cursor stands afterwards. The contract says for which bytes it succeeds, with which
/// vector, and which error each other input gives.
#[verifier::external_body]
pub(crate) fn decode_run(bytes: &[u8]) -> (r: Result<(Vec<u8>, usize), CodecError>)
    ensures
        match (r, read_prefixed(bytes@)) {
            (Ok(got), Ok(want)) => got.0@ == want.0 && got.1 == want.1,
            (Err(got), Err(want)) => got == want,
            _ => false,
        },
{
    let mut cursor = std::io::Cursor::new(bytes);
    let run: Vec<u8> = bincode::deserialize_from(&mut cursor).map_err(
        |e: Box<bincode::ErrorKind>| match *e {
            bincode::ErrorKind::Io(_) => CodecError::UnexpectedEof,
            _ => CodecError::InvalidLength,
        },
    )?;
    Ok((run, cursor.position() as usize))
}

} // verus!
