use hubtain::client::{test_srvr_sel, Download, DownloadClient, Replies};
use hubtain::client_approver::{ApproverErr, ClientApprover};
use hubtain::encrypted_stream::client::{
    ClientEncryptedStreamStarter, EncryptedReadStream, PollRead, Received,
};
use hubtain::encrypted_stream::server::{EncryptedWriteStream, ServerEncryptedStreamStarter};
use hubtain::encrypted_stream::{recv, EncStreamErr};
use hubtain::models::ClientId;
use hubtain::net::{Ipv4Addr, SocketAddr};
use hubtain::server::data_srv::{
    after_handshake, AfterHandshake, DataAction, DataEvent, DataSrv,
};
use hubtain::server::serve_loop::{ServeAction, ServeEvent};
use hubtain::server::{
    test_filesrv, BuildMode, ClientApprovalStrategy, FileSrv, FileSrvBuilder, Source,
};
use hubtain::wire::ByteReader;

const TEST_DATA: &[u8] = b"Hi I'm data";

struct Answer(Result<bool, ApproverErr>);

impl ClientApprover for Answer {
    fn submit(&self, _client_id: ClientId) -> Result<bool, ApproverErr> {
        self.0
    }
}

fn v4(port: u16) -> SocketAddr {
    SocketAddr::V4 { ip: Ipv4Addr(127, 0, 0, 1), port }
}

/// Both sides of a key exchange. The verdict is the approver's.
fn exchange(
    strategy: ClientApprovalStrategy,
    build: BuildMode,
    approver: &Answer,
) -> (Result<EncryptedReadStream, EncStreamErr>, Result<EncryptedWriteStream, EncStreamErr>) {
    let mut to_server = Vec::new();
    let client = ClientEncryptedStreamStarter::new().key_exchange(&mut to_server).unwrap();
    let client_id = client.client_id();
    let server = ServerEncryptedStreamStarter::new().key_exchange().unwrap();

    let mut from_client = ByteReader::new(to_server);
    let mut to_client = Vec::new();
    let server = server.on_message(&recv(&mut from_client).unwrap(), &mut to_client).ok().unwrap();
    let mut from_server = ByteReader::new(to_client);
    let mut to_server = Vec::new();
    let client = client.on_message(&recv(&mut from_server).unwrap(), &mut to_server).ok().unwrap();
    let mut from_client = ByteReader::new(to_server);
    let pending = server.on_message(&recv(&mut from_client).unwrap()).ok().unwrap();
    assert_eq!(pending.client_id(), client_id);
    assert_eq!(from_client.remaining(), 0);

    let mut verdict = Vec::new();
    let writer = pending.settle(strategy, build, approver, &mut verdict);
    match verdict.len() {
        1 => (client.on_approval(verdict[0]), writer),
        _ => (Err(EncStreamErr::IOErr), writer),
    }
}

fn encrypt(writer: &mut EncryptedWriteStream, data: &[u8]) -> Vec<u8> {
    let mut wire = Vec::new();
    for chunk in data.chunks(8192) {
        let before = wire.len();
        let sent = writer.poll_write(chunk, &mut wire).unwrap();
        assert_eq!(sent, chunk.len() + 18);
        assert_eq!(wire.len(), before + sent);
    }
    wire
}

fn decrypt(reader: &mut EncryptedReadStream, wire: Vec<u8>) -> Vec<u8> {
    let mut stream = ByteReader::new(wire);
    let mut data = Vec::new();
    let mut buf = vec![0u8; 8192];
    loop {
        let received = match recv(&mut stream) {
            Ok(message) => Received::Message(message),
            Err(_) => Received::UnexpectedEof,
        };
        match reader.poll_read(received, &mut buf) {
            PollRead::Ready(0) => return data,
            PollRead::Ready(n) => data.extend_from_slice(&buf[..n]),
            other => panic!("{:?}", other),
        }
    }
}

/// The server's answer to a ping, and the address that the client makes of it.
fn discover(fsrv: &FileSrv) -> SocketAddr {
    let mut serve = fsrv.serve();
    assert!(matches!(serve.on_event(ServeEvent::Shutdown(false)), ServeAction::Receive));
    let reply = match serve.on_event(ServeEvent::Ping(v4(5000))) {
        ServeAction::SendReply { to, bytes } => {
            assert_eq!(to, v4(5000));
            bytes
        }
        other => panic!("{:?}", other),
    };
    assert!(matches!(serve.on_event(ServeEvent::Done), ServeAction::AwaitData));
    assert!(matches!(serve.on_event(ServeEvent::Done), ServeAction::Finish));

    let mut replies = Replies::new();
    replies.read_reply(&reply, v4(fsrv.udp_port()));
    DownloadClient::find_server(&replies.into_vec(), test_srvr_sel).unwrap().addr
}

/// The info that a data server sends to a client that connects.
fn connect(data_srv: &mut DataSrv) -> Vec<u8> {
    assert!(matches!(data_srv.on_event(DataEvent::Shutdown(false)), DataAction::Accept));
    match data_srv.on_event(DataEvent::Accepted) {
        DataAction::SendInfo(bytes) => bytes,
        other => panic!("{:?}", other),
    }
}

fn finish_only_transfer(data_srv: &mut DataSrv) {
    assert!(matches!(data_srv.on_event(DataEvent::Done), DataAction::TransferAndShutDown));
    assert!(matches!(data_srv.on_event(DataEvent::Done), DataAction::Finish));
}

#[test]
fn basic_transfer() {
    let fsrv = test_filesrv(TEST_DATA.len() as u64, false, "otter".to_string(), v4(4001), v4(4002));
    assert_eq!(discover(&fsrv), v4(4001));

    let mut data_srv = fsrv.data_srv();
    let mut wire = connect(&mut data_srv);
    assert!(!data_srv.handshakes());
    wire.extend_from_slice(TEST_DATA);
    finish_only_transfer(&mut data_srv);

    match DownloadClient::download_to_vec(&mut ByteReader::new(wire)).unwrap() {
        Download::Plain(content) => assert_eq!(content, TEST_DATA),
        Download::Encrypted(_) => panic!("not encrypted"),
    }
}

#[test]
fn encrypted_transfer() {
    let fsrv = test_filesrv(TEST_DATA.len() as u64, true, "otter".to_string(), v4(4001), v4(4002));
    assert_eq!(discover(&fsrv), v4(4001));

    let mut data_srv = fsrv.data_srv();
    let wire = connect(&mut data_srv);
    assert!(data_srv.handshakes());
    let mut stream = ByteReader::new(wire);
    let info = match DownloadClient::download_to_vec(&mut stream).unwrap() {
        Download::Encrypted(info) => info,
        Download::Plain(_) => panic!("encrypted"),
    };
    assert_eq!(stream.remaining(), 0);
    assert_eq!(info.data_length, 11);
    assert_eq!(info.data_name, "not a real file");
    assert_eq!(info.tcp_port, 4001);

    let (reader, writer) = exchange(
        fsrv.client_approval_strategy(),
        BuildMode::Testing,
        &Answer(Err(ApproverErr)),
    );
    let mut writer = writer.ok().unwrap();
    assert_eq!(after_handshake(Ok(())), AfterHandshake::Copy);
    let sent = encrypt(&mut writer, TEST_DATA);
    finish_only_transfer(&mut data_srv);
    let content = DownloadClient::trim(decrypt(&mut reader.ok().unwrap(), sent), info.data_length);
    assert_eq!(content, TEST_DATA);
}

#[test]
fn mod_encrypted_copy_works() {
    let test_data = b"Oh boy what fun data to send!".repeat(100_000);
    let (reader, writer) = exchange(
        ClientApprovalStrategy::ApproveAll,
        BuildMode::Testing,
        &Answer(Err(ApproverErr)),
    );
    let wire = encrypt(&mut writer.ok().unwrap(), &test_data);
    assert!(decrypt(&mut reader.ok().unwrap(), wire) == test_data);
}

#[test]
fn full_small_encrypted_transfer_with_exchange() {
    let test_data = b"Oh boy what fun data to send!".repeat(100);
    let (reader, writer) = exchange(
        ClientApprovalStrategy::Interactive,
        BuildMode::Production,
        &Answer(Ok(true)),
    );
    let wire = encrypt(&mut writer.ok().unwrap(), &test_data);
    assert!(decrypt(&mut reader.ok().unwrap(), wire) == test_data);
}

#[test]
fn rejected_client_is_told() {
    let (reader, writer) = exchange(
        ClientApprovalStrategy::Interactive,
        BuildMode::Production,
        &Answer(Ok(false)),
    );
    assert_eq!(reader.err(), Some(EncStreamErr::ClientNotAccepted));
    assert_eq!(writer.err(), Some(EncStreamErr::ClientNotAccepted));
    assert_eq!(
        after_handshake(Err(EncStreamErr::ClientNotAccepted)),
        AfterHandshake::HangUp
    );
}

#[test]
fn failed_approver_sends_no_verdict() {
    let (reader, writer) = exchange(
        ClientApprovalStrategy::Interactive,
        BuildMode::Production,
        &Answer(Err(ApproverErr)),
    );
    assert_eq!(reader.err(), Some(EncStreamErr::IOErr));
    assert_eq!(writer.err(), Some(EncStreamErr::Other));
    assert_eq!(
        after_handshake(Err(EncStreamErr::Other)),
        AfterHandshake::Fail(EncStreamErr::Other)
    );
}

#[test]
fn server_that_stays_alive_serves_many() {
    let data = b"a small file\n";
    let fsrv = FileSrvBuilder::new(data.len() as u64, BuildMode::Testing)
        .set_stayalive(true)
        .build("otter".to_string(), Source::File("small.txt".to_string()), v4(4001), v4(4002))
        .ok()
        .unwrap();
    let mut serve = fsrv.serve();
    let mut data_srv = fsrv.data_srv();
    for _ in 1..25 {
        assert!(matches!(serve.on_event(ServeEvent::Shutdown(false)), ServeAction::Receive));
        assert!(matches!(
            serve.on_event(ServeEvent::Ping(v4(9))),
            ServeAction::SendReply { .. }
        ));
        assert!(matches!(serve.on_event(ServeEvent::Done), ServeAction::CheckShutdown));

        let mut wire = connect(&mut data_srv);
        assert!(matches!(data_srv.on_event(DataEvent::Done), DataAction::TransferAndGoOn));
        wire.extend_from_slice(data);
        match DownloadClient::download_to_vec(&mut ByteReader::new(wire)).unwrap() {
            Download::Plain(content) => assert_eq!(content, data),
            Download::Encrypted(_) => panic!("not encrypted"),
        }
    }
    assert!(matches!(serve.on_event(ServeEvent::Shutdown(true)), ServeAction::AwaitData));
    assert!(matches!(data_srv.on_event(DataEvent::Shutdown(true)), DataAction::Finish));
}

#[test]
fn forged_and_misplaced_messages_are_rejected() {
    let (reader, writer) = exchange(
        ClientApprovalStrategy::Interactive,
        BuildMode::Production,
        &Answer(Ok(true)),
    );
    let (mut reader, mut writer) = (reader.ok().unwrap(), writer.ok().unwrap());
    let mut wire = Vec::new();
    writer.poll_write(b"first", &mut wire).unwrap();
    let mut first = recv(&mut ByteReader::new(wire)).unwrap();
    assert_eq!(first.len(), 21);
    let mut buf = [7u8; 10];

    // Too short to be a message, and too long for the buffer: these do not count
    assert_eq!(reader.poll_read(Received::Message(vec![0; 15]), &mut buf), PollRead::DecryptionError);
    assert_eq!(
        reader.poll_read(Received::Message(first.clone()), &mut buf[..4]),
        PollRead::DecryptionError
    );
    // The message that is due
    let mut buf = [7u8; 10];
    assert_eq!(reader.poll_read(Received::Message(first.clone()), &mut buf), PollRead::Ready(5));
    assert_eq!(&buf, b"first\x07\x07\x07\x07\x07");
    // A replay, and a forgery
    assert_eq!(
        reader.poll_read(Received::Message(first.clone()), &mut buf),
        PollRead::DecryptionError
    );
    first[0] ^= 1;
    assert_eq!(reader.poll_read(Received::Message(first), &mut buf), PollRead::DecryptionError);
    assert_eq!(reader.poll_read(Received::Pending, &mut buf), PollRead::Pending);
    assert_eq!(reader.poll_read(Received::UnexpectedEof, &mut buf), PollRead::Ready(0));
}

#[test]
fn bad_handshake_messages_fail() {
    let server = ServerEncryptedStreamStarter::new().key_exchange().unwrap();
    let mut out = Vec::new();
    assert_eq!(server.on_message(&[0; 31], &mut out).err(), Some(EncStreamErr::Other));
    assert!(out.is_empty());

    let server = ServerEncryptedStreamStarter::new().key_exchange().unwrap();
    let server = server.on_message(&[9; 32], &mut out).ok().unwrap();
    assert_eq!(out.len(), 2 + 96);
    assert_eq!(server.on_message(&[0; 64]).err(), Some(EncStreamErr::Other));

    let mut out = Vec::new();
    let client = ClientEncryptedStreamStarter::new().key_exchange(&mut out).unwrap();
    assert_eq!(out.len(), 2 + 32);
    assert_eq!(client.on_message(&[0; 96], &mut out).err(), Some(EncStreamErr::Other));
    assert_eq!(out.len(), 2 + 32);
}

#[test]
fn error_texts() {
    assert_eq!(EncStreamErr::ClientNotAccepted.message(), "Client rejected by server");
    assert_eq!(EncStreamErr::BincodeErr.message(), "Bincode serialization error");
    assert_eq!(EncStreamErr::IOErr.message(), "I/O error");
    assert_eq!(EncStreamErr::Other.message(), "Other error");
}
