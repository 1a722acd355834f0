use hubtain::broadcast_addr_picker::{
    find_local_ip, select_broadcast_addr, IfAddr, Ifv4Addr, PickErr,
};
use hubtain::client::{
    ping, reply_wait_millis, test_srvr_sel, Download, DownloadClient, DownloadErr, FindErr, Replies, SaveAs,
    ServerInfo,
};
use hubtain::codec::CodecError;
use hubtain::file_download::{FileAction, FileDownload, FileEvent};
use hubtain::models::{DataSrvInfo, DiscoveryReply, ReadError};
use hubtain::net::{IpAddr, Ipv4Addr, SocketAddr};
use hubtain::server::BuildMode;
use hubtain::wire::ByteReader;

fn v4(d: u8, port: u16) -> SocketAddr {
    SocketAddr::V4 { ip: Ipv4Addr(192, 168, 1, d), port }
}

fn reply(name: &str, tcp_port: u16) -> Vec<u8> {
    DiscoveryReply { server_name: name.to_string(), tcp_port }.to_bytes()
}

fn iface(ip: [u8; 4], mask: u8, broadcast: Option<u8>) -> IfAddr {
    let [a, b, c, d] = ip;
    IfAddr::V4(Ifv4Addr {
        ip: Ipv4Addr(a, b, c, d),
        netmask: Ipv4Addr(255, 255, 255, mask),
        broadcast: broadcast.map(|last| Ipv4Addr(a, b, c, last)),
    })
}

#[test]
fn replies_share_a_buffer() {
    let mut replies = Replies::new();
    replies.read_reply(&reply("first", 1), v4(2, 9));
    replies.read_reply(&[7; 3], v4(3, 9));
    replies.read_reply(&[8; 120], v4(4, 9));
    let all = replies.into_vec();
    assert_eq!(all.len(), 3);
    assert!(all.iter().all(|(bytes, _)| bytes.len() == 100));
    assert_eq!(&all[0].0[..15], &[5, 0, 0, 0, 0, 0, 0, 0, b'f', b'i', b'r', b's', b't', 1, 0]);
    assert_eq!(&all[1].0[..5], &[7, 7, 7, 0, 0]);
    assert_eq!(&all[1].0[3..], &all[0].0[3..]);
    assert_eq!(all[2].0, [8; 100]);
    assert_eq!(all[1].1, v4(3, 9));
}

#[test]
fn first_selected_server_is_found() {
    let mut replies = Replies::new();
    // A long reply leaves its tail behind a shorter one
    replies.read_reply(&reply("a name that is rather long", 4001), v4(2, 9));
    replies.read_reply(&reply("yak", 4002), v4(3, 9));
    let all = replies.into_vec();
    assert_eq!(
        DownloadClient::find_server(&all, test_srvr_sel),
        Ok(ServerInfo::new(v4(2, 4001)))
    );
    assert_eq!(
        DownloadClient::find_server(&all, |info: &ServerInfo| info.addr.port() == 4002),
        Ok(ServerInfo::new(v4(3, 4002)))
    );
    assert_eq!(
        DownloadClient::find_server(&all, |_: &ServerInfo| false),
        Err(FindErr::NotSelected)
    );
    assert_eq!(DownloadClient::find_server(&vec![], test_srvr_sel), Err(FindErr::NoServers));
    let spoilt = vec![(reply("yak", 1), v4(2, 9)), (vec![9; 100], v4(3, 9))];
    assert_eq!(
        DownloadClient::find_server(&spoilt, test_srvr_sel),
        Err(FindErr::Codec(CodecError::UnexpectedEof))
    );
}

#[test]
fn ports_are_replaced_and_nothing_else() {
    let mut addr = SocketAddr::V6 { bits: 77, port: 1, flowinfo: 2, scope_id: 3 };
    addr.set_port(9);
    assert_eq!(addr, SocketAddr::V6 { bits: 77, port: 9, flowinfo: 2, scope_id: 3 });
    assert_eq!(addr.port(), 9);
}

#[test]
fn local_interfaces() {
    let loopback = iface([127, 0, 0, 1], 0, Some(255));
    let odd_mask = iface([192, 168, 0, 3], 128, Some(127));
    let other_net = iface([10, 0, 0, 3], 0, Some(255));
    let no_broadcast = iface([192, 168, 5, 3], 0, None);
    let good = iface([192, 168, 1, 3], 0, Some(255));
    let late = iface([192, 168, 2, 3], 0, Some(255));
    let all = vec![IfAddr::V6, loopback, odd_mask, other_net, no_broadcast, good, late];
    assert_eq!(select_broadcast_addr(&all), Ok(IpAddr::V4(Ipv4Addr(192, 168, 1, 255))));
    assert_eq!(find_local_ip(&all), Ok(Ipv4Addr(192, 168, 5, 3)));
    let none = vec![IfAddr::V6, loopback, odd_mask, other_net];
    assert_eq!(select_broadcast_addr(&none), Err(PickErr::NoBroadcastAddr));
    assert_eq!(find_local_ip(&none), Err(PickErr::NoLocalIp));
    assert_eq!(
        PickErr::NoBroadcastAddr.message(),
        "Couldn't select a broadcast address"
    );
    assert_eq!(PickErr::NoLocalIp.message(), "Couldn't determine local IP");
}

#[test]
fn downloads_are_cut_to_length() {
    let info = |encrypted| DataSrvInfo {
        tcp_port: 1,
        data_length: 4,
        encrypted,
        data_name: "n".to_string(),
    };
    let download = |encrypted, data: &[u8]| {
        let mut wire = Vec::new();
        info(encrypted).write_to_stream(&mut wire);
        wire.extend_from_slice(data);
        DownloadClient::download_to_vec(&mut ByteReader::new(wire)).unwrap()
    };
    assert!(matches!(download(false, b"data"), Download::Plain(d) if d == b"data"));
    assert!(matches!(download(false, b"data and padding"), Download::Plain(d) if d == b"data"));
    assert!(matches!(download(false, b"da"), Download::Plain(d) if d == b"da"));
    assert!(matches!(download(true, b"data"), Download::Encrypted(i) if i == info(true)));
    assert_eq!(
        DownloadClient::download_to_vec(&mut ByteReader::new(vec![])).err(),
        Some(ReadError::UnexpectedEof)
    );
}

#[test]
fn file_plans() {
    let info = DataSrvInfo {
        tcp_port: 1,
        data_length: 4,
        encrypted: true,
        data_name: "n.txt".to_string(),
    };
    let plan = DownloadClient::download_to_file(info, true);
    assert!(matches!(&plan.save_as, SaveAs::InDirectory(name) if name == "n.txt"));
    assert!(plan.handshake);
    assert_eq!(plan.final_length, 4);
    assert_eq!(DownloadClient::finish_download(true, &plan), Ok(4));
    assert_eq!(DownloadClient::finish_download(false, &plan), Err(DownloadErr::CopyFailed));
    let info = DataSrvInfo {
        tcp_port: 1,
        data_length: 4,
        encrypted: false,
        data_name: "n.txt".to_string(),
    };
    let plan = DownloadClient::download_to_file(info, false);
    assert!(matches!(plan.save_as, SaveAs::GivenPath));
    assert!(!plan.handshake);
}

#[test]
fn broadcast_settings() {
    assert_eq!(ping(), [0]);
    assert_eq!(reply_wait_millis(BuildMode::Production), 2000);
    assert_eq!(reply_wait_millis(BuildMode::Testing), 200);
}

fn small_info(encrypted: bool) -> FileEvent {
    let info = DataSrvInfo {
        tcp_port: 1,
        data_length: 4,
        encrypted,
        data_name: "n.txt".to_string(),
    };
    FileEvent::InfoRead { info, path_is_dir: true }
}

#[test]
fn encrypted_file_download() {
    let (mut download, first) = FileDownload::new();
    assert_eq!(first, FileAction::ReadInfo);
    assert!(download.plan().is_none());
    assert_eq!(download.on_event(small_info(true)), FileAction::Handshake);
    assert_eq!(download.on_event(FileEvent::HandshakeDone), FileAction::CreateFile);
    let plan = download.plan().unwrap();
    assert!(matches!(&plan.save_as, SaveAs::InDirectory(name) if name == "n.txt"));
    assert_eq!(download.on_event(FileEvent::Created), FileAction::Copy);
    assert_eq!(download.on_event(FileEvent::CopyEnded(true)), FileAction::SetLength(4));
    assert_eq!(download.on_event(FileEvent::LengthSet), FileAction::Finish);
}

#[test]
fn plain_file_download() {
    let (mut download, _) = FileDownload::new();
    assert_eq!(download.on_event(small_info(false)), FileAction::CreateFile);
    assert_eq!(download.on_event(FileEvent::Created), FileAction::Copy);
    assert_eq!(download.on_event(FileEvent::CopyEnded(false)), FileAction::Fail);
}

#[test]
fn early_failures_touch_nothing() {
    let (mut download, _) = FileDownload::new();
    assert_eq!(download.on_event(FileEvent::Failed), FileAction::Fail);
    let (mut download, _) = FileDownload::new();
    assert_eq!(download.on_event(small_info(true)), FileAction::Handshake);
    assert_eq!(download.on_event(FileEvent::Failed), FileAction::Fail);
}
