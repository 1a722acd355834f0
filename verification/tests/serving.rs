use hubtain::cli::{fetch_from, fetch_path, srv, FetchFrom};
use hubtain::igd::{get_external_addr, AddPort, IGDHandle, PortMappingProtocol, RemovePort};
use hubtain::mnemonic::{random_word, word_list};
use hubtain::net::{Ipv4Addr, SocketAddr};
use hubtain::ossuary_stream::{
    HandshakeAction, HandshakeEvent, HandshakeIncomplete, OssuaryStream,
};
use hubtain::progresswriter::{ProgressWriter, Written};
use hubtain::server::data_srv::{DataAction, DataEvent};
use hubtain::server::ngrok::{args, get_tunnel, NgrokLine, NgrokStep, TunnelStartedMsg};
use hubtain::server::serve_loop::{ServeAction, ServeEvent};
use hubtain::server::{
    cleanup, udp_srv_bind_addr, BuildErr, BuildMode, Cleanup, ClientApprovalStrategy, FileSrv,
    FileSrvBuilder, HolePuncher, Interface, Platform, Punch, ServeErr, Source,
};

const TCP: SocketAddr = SocketAddr::V4 { ip: Ipv4Addr(0, 0, 0, 0), port: 4001 };
const TCP6: SocketAddr = SocketAddr::V6 { bits: 0, port: 4001, flowinfo: 0, scope_id: 0 };
const UDP: SocketAddr = SocketAddr::V4 { ip: Ipv4Addr(192, 168, 1, 255), port: 42444 };

fn build(builder: FileSrvBuilder, tcp: SocketAddr) -> FileSrv {
    builder
        .build("otter".to_string(), Source::File("f.txt".to_string()), tcp, UDP)
        .ok()
        .unwrap()
}

#[test]
fn bind_addresses() {
    assert_eq!(
        udp_srv_bind_addr(42444, BuildMode::Production, Platform::Unix),
        "192.168.1.255:42444"
    );
    assert_eq!(udp_srv_bind_addr(0, BuildMode::Production, Platform::Windows), "0.0.0.0:0");
    assert_eq!(udp_srv_bind_addr(65535, BuildMode::Testing, Platform::Unix), "127.0.0.1:65535");
    let production = FileSrvBuilder::new(5, BuildMode::Production).set_udp_port(10);
    assert_eq!(production.tcp_bind_addr(), "0.0.0.0:0");
    assert_eq!(production.udp_bind_addr(Platform::Unix), "192.168.1.255:10");
    assert_eq!(FileSrvBuilder::new(5, BuildMode::Testing).tcp_bind_addr(), "127.0.0.1:0");
}

#[test]
fn only_files_are_served() {
    let builder = || FileSrvBuilder::new(5, BuildMode::Production);
    assert_eq!(
        builder().build("otter".to_string(), Source::NotAFile, TCP, UDP).err(),
        Some(BuildErr::NotAFile)
    );
    assert_eq!(
        builder().build("otter".to_string(), Source::WeirdName, TCP, UDP).err(),
        Some(BuildErr::WeirdName)
    );
    assert_eq!(BuildErr::NotAFile.message(), "Provied path is not a file!");
    assert_eq!(BuildErr::WeirdName.message(), "Provied path has weird characters!");
    let srv = build(builder(), TCP);
    assert_eq!((srv.name(), srv.file_name(), srv.udp_port()), ("otter", "f.txt", 42444));
    assert!(srv.client_approval_strategy() == ClientApprovalStrategy::ApproveAll);
}

#[test]
fn interface_and_approval() {
    let encrypted = FileSrvBuilder::new(5, BuildMode::Production).set_encryption(true);
    let once = build(encrypted, TCP);
    assert!(once.client_approval_strategy() == ClientApprovalStrategy::Interactive);
    assert_eq!(once.interface(false), Ok(Interface::Console));

    let on_and_off = FileSrvBuilder::new(5, BuildMode::Production)
        .set_encryption(true)
        .set_encryption(false);
    let srv = build(on_and_off.set_stayalive(true), TCP);
    assert!(srv.client_approval_strategy() == ClientApprovalStrategy::Interactive);
    // Nobody has to be asked about an unencrypted file
    assert_eq!(srv.interface(false), Ok(Interface::Console));
    assert_eq!(srv.interface(true), Ok(Interface::Console));

    let stays = FileSrvBuilder::new(5, BuildMode::Production)
        .set_stayalive(true)
        .set_encryption(true);
    let stays = build(stays, TCP);
    assert_eq!(stays.interface(true), Ok(Interface::Tui));
    assert_eq!(stays.interface(false), Err(ServeErr::NotATty));
    assert_eq!(
        ServeErr::NotATty.message(),
        "Refusing to use interactive mode in non-tty terminal"
    );

    let testing = FileSrvBuilder::new(5, BuildMode::Testing)
        .set_stayalive(true)
        .set_encryption(true);
    let testing = build(testing, TCP);
    assert!(testing.client_approval_strategy() == ClientApprovalStrategy::ApproveAll);
    assert_eq!(testing.interface(false), Ok(Interface::Console));
}

#[test]
fn hole_punching() {
    let with = |puncher, tcp| {
        let builder = FileSrvBuilder::new(5, BuildMode::Production).set_holepuncher(puncher);
        build(builder, tcp).punch()
    };
    assert_eq!(with(HolePuncher::Off, TCP6), Ok(Punch::Nothing));
    assert_eq!(with(HolePuncher::IGD, TCP), Ok(Punch::Igd(4001)));
    assert_eq!(with(HolePuncher::IGD, TCP6), Err(ServeErr::NoLocalAddrForIgd));
    assert_eq!(with(HolePuncher::Ngrok, TCP), Ok(Punch::Ngrok(4001)));
    assert_eq!(with(HolePuncher::Ngrok, TCP6), Err(ServeErr::NoLocalAddrForNgrok));
    assert_eq!(
        ServeErr::NoLocalAddrForIgd.message(),
        "Couldn't determine local address during IGD"
    );
    assert_eq!(
        ServeErr::NoLocalAddrForNgrok.message(),
        "Couldn't determine local address for ngrok to use"
    );
}

#[test]
fn cleanup_order() {
    assert_eq!(cleanup(false, false, false), [Cleanup::ClearShutdownFlag]);
    assert_eq!(
        cleanup(true, true, true),
        [
            Cleanup::JoinTui,
            Cleanup::ShutdownNgrok,
            Cleanup::FreeIgd,
            Cleanup::ClearShutdownFlag
        ]
    );
}

#[test]
fn serving_ends_on_failure_and_on_order() {
    let srv = build(FileSrvBuilder::new(5, BuildMode::Production).set_stayalive(true), TCP);
    let mut serve = srv.serve();
    assert!(matches!(serve.on_event(ServeEvent::Shutdown(false)), ServeAction::Receive));
    assert!(matches!(serve.on_event(ServeEvent::TimedOut), ServeAction::CheckShutdown));
    assert!(matches!(serve.on_event(ServeEvent::Shutdown(true)), ServeAction::AwaitData));
    assert!(matches!(serve.on_event(ServeEvent::Done), ServeAction::Finish));

    let mut serve = srv.serve();
    serve.on_event(ServeEvent::Shutdown(false));
    assert!(matches!(serve.on_event(ServeEvent::Failed), ServeAction::Fail));

    let mut data = srv.data_srv();
    assert!(matches!(data.on_event(DataEvent::Shutdown(false)), DataAction::Accept));
    assert!(matches!(data.on_event(DataEvent::TimedOut), DataAction::CheckShutdown));
    assert!(matches!(data.on_event(DataEvent::Shutdown(false)), DataAction::Accept));
    assert!(matches!(data.on_event(DataEvent::Accepted), DataAction::SendInfo(_)));
    assert!(matches!(data.on_event(DataEvent::Failed), DataAction::Fail));
}

#[test]
fn arguments() {
    let srv = build(srv(BuildMode::Production, 5, false, true, true), TCP);
    assert_eq!(srv.punch(), Ok(Punch::Igd(4001)));
    assert_eq!(srv.interface(true), Ok(Interface::Tui));
    assert!(srv.data_srv().handshakes());
    let plain = hubtain::cli::srv(BuildMode::Production, 5, true, false, false);
    assert_eq!(plain.udp_bind_addr(Platform::Unix), "192.168.1.255:42444");
    let plain = build(plain, TCP);
    assert!(!plain.data_srv().handshakes());
    assert_eq!(plain.punch(), Ok(Punch::Nothing));
    assert!(matches!(fetch_from(Some("h:1".to_string())), FetchFrom::Url(u) if u == "h:1"));
    assert!(matches!(fetch_from(None), FetchFrom::Broadcast(42444)));
    assert_eq!(fetch_path(Some("x/y".to_string())), "x/y");
    assert_eq!(fetch_path(None), ".");
}

#[test]
fn ngrok() {
    assert_eq!(args(37465), ["tcp", "37465", "--log", "stdout", "--log-format", "json"]);
    assert!(matches!(get_tunnel(NgrokLine::Line(None)), NgrokStep::ReadOn));
    assert!(matches!(get_tunnel(NgrokLine::Failed), NgrokStep::ReadFailed));
    assert!(matches!(get_tunnel(NgrokLine::End), NgrokStep::NoTunnel));
    let started = TunnelStartedMsg {
        addr: "//localhost:37465".to_string(),
        url: "tcp://0.tcp.ngrok.io:17585".to_string(),
        msg: "started tunnel".to_string(),
        lvl: "info".to_string(),
    };
    let mut lines = vec![NgrokLine::Line(None), NgrokLine::Line(Some(started)), NgrokLine::End];
    let step = loop {
        match get_tunnel(lines.remove(0)) {
            NgrokStep::ReadOn => (),
            other => break other,
        }
    };
    match step {
        NgrokStep::Started(handle) => {
            assert_eq!(handle.get_address(), "tcp://0.tcp.ngrok.io:17585")
        }
        _ => panic!("started"),
    }
}

#[test]
fn gateway_requests() {
    assert_eq!(
        get_external_addr(Ipv4Addr(192, 168, 1, 3), 4001),
        AddPort {
            protocol: PortMappingProtocol::TCP,
            local_ip: Ipv4Addr(192, 168, 1, 3),
            local_port: 4001,
            lease_seconds: 3600,
        }
    );
    assert_eq!(
        IGDHandle::new(5555).free(),
        RemovePort { protocol: PortMappingProtocol::TCP, port: 5555 }
    );
}

#[test]
fn words() {
    assert_eq!(word_list("a\nbc\r\n\nd"), ["a", "bc", "", "d"]);
    assert_eq!(word_list("a\n"), ["a"]);
    assert_eq!(word_list("\u{e9}t\u{e9}\r\nb\r"), ["\u{e9}t\u{e9}", "b\r"]);
    assert!(word_list("").is_empty());
    let list = word_list("otter\nyak\n");
    for _ in 0..50 {
        assert!(list.contains(&random_word(&list)));
    }
}

#[test]
fn progress() {
    let mut writer = ProgressWriter::new(vec![1u8]);
    writer.inner().push(2);
    assert_eq!(writer.poll_write(Written::Ready(5)), Written::Ready(5));
    assert_eq!(writer.poll_write(Written::Pending), Written::Pending);
    assert_eq!(writer.poll_write(Written::Failed), Written::Failed);
    assert_eq!(writer.get_written(), 5);
    writer.poll_write(Written::Ready(usize::MAX));
    assert_eq!(writer.get_written(), 4);
    assert_eq!(writer.inner(), &vec![1, 2]);
}

#[test]
fn ossuary_handshake() {
    let (mut client, first) = OssuaryStream::new(false);
    assert!(matches!(first, HandshakeAction::Write(b) if b == [1, 2, 3]));
    assert_eq!(client.poll_write(), Err(HandshakeIncomplete));
    assert!(matches!(client.handshake(HandshakeEvent::Written), HandshakeAction::AskDone));
    assert!(matches!(client.handshake(HandshakeEvent::IsDone(false)), HandshakeAction::Make));
    let made = HandshakeEvent::Made { size: 2, packet: vec![8, 9] };
    assert!(matches!(client.handshake(made), HandshakeAction::Write(b) if b == [8, 9]));
    assert!(matches!(client.handshake(HandshakeEvent::Written), HandshakeAction::Read));
    assert!(matches!(client.handshake(HandshakeEvent::Read), HandshakeAction::Receive));
    assert!(matches!(client.handshake(HandshakeEvent::WouldBlock), HandshakeAction::AskDone));
    assert!(matches!(client.handshake(HandshakeEvent::IsDone(false)), HandshakeAction::Make));
    let made = HandshakeEvent::Made { size: 0, packet: vec![] };
    assert!(matches!(client.handshake(made), HandshakeAction::Read));
    assert!(matches!(client.handshake(HandshakeEvent::Read), HandshakeAction::Receive));
    assert!(matches!(client.handshake(HandshakeEvent::Received), HandshakeAction::AskDone));
    assert!(matches!(client.handshake(HandshakeEvent::IsDone(true)), HandshakeAction::Finish));
    assert_eq!(client.poll_write(), Ok(()));

    let (mut server, first) = OssuaryStream::new(true);
    assert!(matches!(first, HandshakeAction::AskDone));
    assert!(matches!(server.handshake(HandshakeEvent::Failed), HandshakeAction::Fail));
    assert_eq!(server.poll_write(), Err(HandshakeIncomplete));
}
