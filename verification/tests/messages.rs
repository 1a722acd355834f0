use hubtain::client_approver::ConsoleApprover;
use hubtain::codec::CodecError;
use hubtain::encrypted_stream::{frame_len, recv, send};
use hubtain::models::{hash_name, ClientId, DataSrvInfo, DiscoveryReply, ReadError};
use hubtain::wire::{ByteReader, UnexpectedEof};

fn info(name: &str) -> DataSrvInfo {
    DataSrvInfo {
        tcp_port: 0x1234,
        data_length: 5,
        encrypted: true,
        data_name: name.to_string(),
    }
}

#[test]
fn info_on_the_wire() {
    let mut stream = Vec::new();
    info("ab").write_to_stream(&mut stream);
    assert_eq!(
        stream,
        [21, 0x34, 0x12, 5, 0, 0, 0, 0, 0, 0, 0, 1, 2, 0, 0, 0, 0, 0, 0, 0, b'a', b'b']
    );
    stream.extend_from_slice(b"rest");
    let mut reader = ByteReader::new(stream);
    assert_eq!(DataSrvInfo::read_from_stream(&mut reader), Ok(info("ab")));
    assert_eq!(reader.read_to_end(), b"rest");
}

#[test]
fn info_errors() {
    let read = |bytes: &[u8]| DataSrvInfo::read_from_stream(&mut ByteReader::new(bytes.to_vec()));
    assert_eq!(read(&[]), Err(ReadError::UnexpectedEof));
    assert_eq!(read(&[5, 1, 2]), Err(ReadError::UnexpectedEof));
    assert_eq!(read(&[2, 1, 2]), Err(ReadError::Codec(CodecError::UnexpectedEof)));
    let mut record = vec![20, 0, 0, 0, 0, 0, 0, 0, 0, 0, 0, 2, 1, 0, 0, 0, 0, 0, 0, 0, b'x'];
    assert_eq!(read(&record), Err(ReadError::Codec(CodecError::InvalidBool)));
    record[11] = 0;
    record[20] = 0xff;
    assert_eq!(read(&record), Err(ReadError::Codec(CodecError::InvalidUtf8)));
    record[12] = 2;
    assert_eq!(read(&record), Err(ReadError::Codec(CodecError::UnexpectedEof)));
}

#[test]
fn long_info_wraps_its_length() {
    let mut stream = Vec::new();
    info(&"n".repeat(237)).write_to_stream(&mut stream);
    // 256 bytes of record behind a length byte of 0
    assert_eq!(stream.len(), 257);
    assert_eq!(stream[0], 0);
    let mut stream = Vec::new();
    info(&"n".repeat(236)).write_to_stream(&mut stream);
    assert_eq!(stream[0], 255);
    assert_eq!(
        DataSrvInfo::read_from_stream(&mut ByteReader::new(stream)),
        Ok(info(&"n".repeat(236)))
    );
}

#[test]
fn reply_on_the_wire() {
    let reply = DiscoveryReply { server_name: "yak".to_string(), tcp_port: 0xabcd };
    let mut bytes = reply.to_bytes();
    assert_eq!(bytes, [3, 0, 0, 0, 0, 0, 0, 0, b'y', b'a', b'k', 0xcd, 0xab]);
    bytes.extend_from_slice(&[0; 87]);
    let back = DiscoveryReply::from_bytes(&bytes).unwrap();
    assert_eq!(back.server_name, "yak");
    assert_eq!(back.tcp_port, 0xabcd);
    assert_eq!(
        DiscoveryReply::from_bytes(&bytes[..12]).err(),
        Some(CodecError::UnexpectedEof)
    );
}

#[test]
fn frames() {
    let mut stream = Vec::new();
    assert_eq!(send(&mut stream, b"hello"), 7);
    assert_eq!(send(&mut stream, &[1; 300]), 302);
    assert_eq!(&stream[..7], b"\x00\x05hello");
    assert_eq!(&stream[7..9], &[1, 44]);
    assert_eq!(frame_len(&[1, 44]), 300);
    let mut reader = ByteReader::new(stream);
    assert_eq!(recv(&mut reader), Ok(b"hello".to_vec()));
    assert_eq!(recv(&mut reader), Ok(vec![1; 300]));
    assert_eq!(recv(&mut reader), Err(UnexpectedEof));
    assert_eq!(recv(&mut ByteReader::new(vec![0, 2, 9])), Err(UnexpectedEof));
}

#[test]
fn names_of_clients() {
    let bytes = [101, 2, 240, 6, 108, 11, 20, 97];
    assert_eq!(
        hash_name(u64::from_le_bytes(bytes)),
        "digital-apollo-aroma--rival-artist-rebel"
    );
    let id = ClientId::new(vec![1, 2, 3]);
    assert_eq!(id.to_string(), id.clone().to_string());
    assert_eq!(id.to_string(), hash_name(id.hashed()));
    assert_ne!(id.to_string(), ClientId::new(vec![1, 2, 4]).to_string());
    assert_eq!(id, id.clone());
}

#[test]
fn console_approval() {
    let id = ClientId::new(vec![101, 2, 240, 6, 108, 11, 20, 97]);
    assert_eq!(id.key_words(), "digital-apollo-aroma--rival-artist-rebel");
    assert_eq!(
        ConsoleApprover::question(&id),
        "Approve 'digital-apollo-aroma--rival-artist-rebel'?"
    );
    for yes in ["y", "Y\n", " yes\r\n", "YES", "\u{3000}yEs\u{a0}"] {
        assert_eq!(ConsoleApprover::decision(Some(yes.to_string())), Ok(true));
    }
    for no in ["", "\n", "n", "no", "yess", "ye", "y es", "\u{feff}y"] {
        assert_eq!(ConsoleApprover::decision(Some(no.to_string())), Ok(false));
    }
    assert!(ConsoleApprover::decision(None).is_err());
}
