use hubtain::client_approver::{ApproverErr, ClientApprover};
use hubtain::encrypted_stream::EncStreamErr;
use hubtain::models::ClientId;
use hubtain::sealed_stream::key_exchange::{
    ClientEncryptedStreamStarter, ServerEncryptedStreamStarter,
};
use hubtain::sealed_stream::{
    BegunRead, EncryptedReadStream, EncryptedWriteStream, Polled, ReadOutcome,
};
use hubtain::server::{BuildMode, ClientApprovalStrategy};
use hubtain::wire::ByteReader;

struct Answer(Result<bool, ApproverErr>);

impl ClientApprover for Answer {
    fn submit(&self, _client_id: ClientId) -> Result<bool, ApproverErr> {
        self.0
    }
}

const CLIENT: [u8; 32] = [
    0x77, 0x07, 0x6d, 0x0a, 0x73, 0x18, 0xa5, 0x7d, 0x3c, 0x16, 0xc1, 0x72, 0x51, 0xb2, 0x66, 0x45,
    0xdf, 0x4c, 0x2f, 0x87, 0xeb, 0xc0, 0x99, 0x2a, 0xb1, 0x77, 0xfb, 0xa5, 0x1d, 0xb9, 0x2c, 0x2a,
];
const SERVER: [u8; 32] = [
    0x5d, 0xab, 0x08, 0x7e, 0x62, 0x4a, 0x8a, 0x4b, 0x79, 0xe1, 0x7f, 0x8b, 0x83, 0x80, 0x0e, 0xe6,
    0x6f, 0x3b, 0xb1, 0x29, 0x26, 0x18, 0xb6, 0xfd, 0x1c, 0x2f, 0x8b, 0x27, 0xff, 0x88, 0xe0, 0xeb,
];
/// The public key of `CLIENT`, as RFC 7748 gives it.
const CLIENT_PUBLIC: [u8; 32] = [
    0x85, 0x20, 0xf0, 0x09, 0x89, 0x30, 0xa7, 0x54, 0x74, 0x8b, 0x7d, 0xdc, 0xb4, 0x3e, 0xf7, 0x5a,
    0x0d, 0xbf, 0x3a, 0x0d, 0x26, 0x38, 0x1a, 0xf4, 0xeb, 0xa4, 0xa9, 0x8e, 0xaa, 0x9b, 0x4e, 0x6a,
];

fn exchange(
    strategy: ClientApprovalStrategy,
    build: BuildMode,
    approver: &Answer,
) -> (Result<EncryptedReadStream, EncStreamErr>, Result<EncryptedWriteStream, EncStreamErr>) {
    let client = ClientEncryptedStreamStarter::new(CLIENT);
    let server = ServerEncryptedStreamStarter::new(SERVER);
    let mut from_client = ByteReader::new(client.handshake().to_vec());
    let mut to_client = Vec::new();
    let writer = server.key_exchange(strategy, build, approver, &mut from_client, &mut to_client);
    let mut to_server = Vec::new();
    let reader = client.key_exchange(&mut ByteReader::new(to_client), &mut to_server);
    assert_eq!(to_server, CLIENT_PUBLIC);
    (reader, writer)
}

fn connected() -> (EncryptedReadStream, EncryptedWriteStream) {
    let (reader, writer) = exchange(
        ClientApprovalStrategy::ApproveAll,
        BuildMode::Testing,
        &Answer(Err(ApproverErr)),
    );
    (reader.ok().unwrap(), writer.ok().unwrap())
}

fn write_all(writer: &EncryptedWriteStream, data: &[u8]) -> Vec<u8> {
    let mut wire = Vec::new();
    let mut rest = data;
    while !rest.is_empty() {
        let sealed = writer.poll_write(rest);
        wire.extend_from_slice(&sealed.packet);
        rest = &rest[sealed.taken..];
    }
    wire
}

fn start(reader: &mut EncryptedReadStream, buf: &mut [u8]) -> usize {
    match reader.start_read(buf) {
        BegunRead::Drained(drained) => drained,
        BegunRead::Failed => panic!("no failure"),
    }
}

/// Reads the wire in pieces of `piece` bytes into a buffer of `room` bytes.
fn read_all(reader: &mut EncryptedReadStream, wire: &[u8], piece: usize, room: usize) -> Vec<u8> {
    let mut data = Vec::new();
    let mut pieces = wire.chunks(piece);
    loop {
        let mut buf = vec![0u8; room];
        assert!(reader.aside_fits(room));
        let drained = start(reader, &mut buf);
        let fresh = pieces.next().unwrap_or(&[]).to_vec();
        let ended = fresh.is_empty();
        match reader.try_finish_read(&mut buf, drained, Polled::Ready(fresh)).unwrap() {
            ReadOutcome::Ready(n) => data.extend_from_slice(&buf[..n]),
            ReadOutcome::PollAgain => (),
            other => panic!("{:?}", other),
        }
        if ended {
            return data;
        }
    }
}

#[test]
fn encrypted_stream_encrypted_copy_works() {
    let test_data = b"Oh boy what fun data to send!".repeat(100);
    let (mut reader, writer) = connected();
    let wire = write_all(&writer, &test_data);
    // A packet that is on its way in pieces is put together again
    assert_eq!(read_all(&mut reader, &wire, 1000, 8192), test_data);
}

#[test]
fn pieces_do_not_matter() {
    let test_data: Vec<u8> = (0..20_000u32).map(|i| (i % 251) as u8).collect();
    let (_, writer) = connected();
    let wire = write_all(&writer, &test_data);
    for piece in [1, 7, 5035, 5036, 5037, 30_000] {
        let (mut reader, _) = connected();
        assert!(read_all(&mut reader, &wire, piece, 32_768) == test_data);
    }
}

#[test]
fn one_write_covers_one_chunk() {
    let (_, writer) = connected();
    let sealed = writer.poll_write(&[5u8; 6000]);
    assert_eq!(sealed.taken, 5012);
    assert_eq!(sealed.packet.len(), 8 + 5012 + 16);
    assert_eq!(&sealed.packet[..8], &(5028u64).to_le_bytes());
    assert_ne!(&sealed.packet[8..13], &[5u8; 5]);
    assert_eq!(writer.poll_write(&[]).packet.len(), 8 + 16);
    assert_eq!(writer.poll_write(&[]).taken, 0);
}

/// A reader that has delivered "abcd" and has set "efgh" and "ij" aside.
fn holding() -> (EncryptedReadStream, EncryptedWriteStream) {
    let (mut reader, writer) = connected();
    let mut wire = writer.poll_write(b"abcd").packet;
    wire.extend_from_slice(&writer.poll_write(b"efgh").packet);
    wire.extend_from_slice(&writer.poll_write(b"ij").packet);
    let mut buf = [0u8; 6];
    assert_eq!(start(&mut reader, &mut buf), 0);
    assert_eq!(
        reader.try_finish_read(&mut buf, 0, Polled::Ready(wire)),
        Some(ReadOutcome::Ready(4))
    );
    assert_eq!(&buf[..4], b"abcd");
    (reader, writer)
}

#[test]
fn what_does_not_fit_is_set_aside() {
    let (mut reader, _) = holding();
    assert!(reader.aside_fits(6));
    assert!(!reader.aside_fits(5));
    let mut buf = [0u8; 8];
    assert_eq!(start(&mut reader, &mut buf), 6);
    assert_eq!(&buf, b"efghij\0\0");
    assert_eq!(
        reader.try_finish_read(&mut buf, 6, Polled::Ready(vec![])),
        Some(ReadOutcome::Ready(6))
    );
}

#[test]
fn held_bytes_come_before_new_ones() {
    let (mut reader, writer) = holding();
    let mut buf = [0u8; 20];
    let drained = start(&mut reader, &mut buf);
    let fresh = writer.poll_write(b"klm").packet;
    assert_eq!(
        reader.try_finish_read(&mut buf, drained, Polled::Ready(fresh)),
        Some(ReadOutcome::Ready(9))
    );
    assert_eq!(&buf[..9], b"efghijklm");
}

#[test]
fn held_bytes_are_reported_without_new_ones() {
    for (polled, failed) in [(Polled::Pending, false), (Polled::Failed, true)] {
        let (mut reader, writer) = holding();
        let mut buf = [0u8; 6];
        let drained = start(&mut reader, &mut buf);
        assert_eq!(
            reader.try_finish_read(&mut buf, drained, polled),
            Some(ReadOutcome::Ready(6))
        );
        assert_eq!(&buf, b"efghij");
        if failed {
            // The failure is for the next read, and for that one only
            assert_eq!(reader.start_read(&mut buf), BegunRead::Failed);
            assert_eq!(&buf, b"efghij");
        }
        assert_eq!(start(&mut reader, &mut buf), 0);
        // And what follows is not disturbed, though half a packet is there when the buffer is full
        let packet = writer.poll_write(b"klm").packet;
        let (head, tail) = packet.split_at(9);
        assert_eq!(
            reader.try_finish_read(&mut buf, 0, Polled::Ready(head.to_vec())),
            Some(ReadOutcome::PollAgain)
        );
        assert_eq!(
            reader.try_finish_read(&mut buf, 0, Polled::Ready(tail.to_vec())),
            Some(ReadOutcome::Ready(3))
        );
        assert_eq!(&buf[..3], b"klm");
    }
}

#[test]
fn full_buffer_is_not_the_end_of_the_stream() {
    let (mut reader, writer) = connected();
    let mut wire = writer.poll_write(b"abcd").packet;
    wire.extend_from_slice(&writer.poll_write(b"efgh").packet);
    wire.extend_from_slice(&writer.poll_write(b"ij").packet[..5]);
    let mut buf = [0u8; 4];
    assert_eq!(
        reader.try_finish_read(&mut buf, 0, Polled::Ready(wire)),
        Some(ReadOutcome::Ready(4))
    );
    // No room is left to poll for anything
    assert_eq!(start(&mut reader, &mut buf), 4);
    assert_eq!(
        reader.try_finish_read(&mut buf, 4, Polled::Ready(vec![])),
        Some(ReadOutcome::Ready(4))
    );
    assert_eq!(&buf, b"efgh");
    assert_eq!(reader.try_finish_read(&mut buf, 0, Polled::Ready(vec![])), None);
}

#[test]
fn small_buffers_lose_nothing() {
    let test_data: Vec<u8> = (0..60_000u32).map(|i| (i % 251) as u8).collect();
    let (mut reader, writer) = connected();
    let wire = write_all(&writer, &test_data);
    // Two packets to a read, and room for one and a bit
    assert!(read_all(&mut reader, &wire, 7000, 11_000) == test_data);
}

#[test]
fn unreadable_bytes_change_nothing() {
    let (mut reader, writer) = connected();
    let mut buf = [0u8; 64];
    let good = writer.poll_write(b"abcd").packet;
    let mut forged = good.clone();
    forged[10] ^= 1;
    assert_eq!(reader.try_finish_read(&mut buf, 0, Polled::Ready(forged)), None);
    // The stream may not end inside a packet
    let (head, tail) = good.split_at(10);
    assert_eq!(
        reader.try_finish_read(&mut buf, 0, Polled::Ready(head.to_vec())),
        Some(ReadOutcome::PollAgain)
    );
    assert_eq!(reader.try_finish_read(&mut buf, 0, Polled::Ready(vec![])), None);
    assert_eq!(
        reader.try_finish_read(&mut buf, 0, Polled::Pending),
        Some(ReadOutcome::Pending)
    );
    assert_eq!(reader.try_finish_read(&mut buf, 0, Polled::Failed), Some(ReadOutcome::Failed));
    assert_eq!(
        reader.try_finish_read(&mut buf, 0, Polled::Ready(tail.to_vec())),
        Some(ReadOutcome::Ready(4))
    );
    assert_eq!(&buf[..4], b"abcd");
}

#[test]
fn verdicts() {
    let (reader, writer) = exchange(
        ClientApprovalStrategy::Interactive,
        BuildMode::Production,
        &Answer(Ok(true)),
    );
    assert!(reader.is_ok());
    assert_eq!(writer.ok().unwrap().get_client_id(), ClientId::new(CLIENT_PUBLIC.to_vec()));

    let (reader, writer) = exchange(
        ClientApprovalStrategy::Interactive,
        BuildMode::Production,
        &Answer(Ok(false)),
    );
    assert_eq!(reader.err(), Some(EncStreamErr::ClientNotAccepted));
    assert_eq!(writer.err(), Some(EncStreamErr::ClientNotAccepted));

    let (reader, writer) = exchange(
        ClientApprovalStrategy::Interactive,
        BuildMode::Production,
        &Answer(Err(ApproverErr)),
    );
    assert_eq!(reader.err(), Some(EncStreamErr::IOErr));
    assert_eq!(writer.err(), Some(EncStreamErr::Other));
}

#[test]
fn short_key_exchange_is_an_io_error() {
    let mut out = Vec::new();
    let server = ServerEncryptedStreamStarter::new(SERVER);
    let writer = server.key_exchange(
        ClientApprovalStrategy::Interactive,
        BuildMode::Production,
        &Answer(Ok(true)),
        &mut ByteReader::new(vec![1; 31]),
        &mut out,
    );
    assert_eq!(writer.err(), Some(EncStreamErr::IOErr));
    assert_eq!(out.len(), 32);
}
