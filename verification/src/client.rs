//! The client: how it finds a server and what it makes of a download.

use crate::codec::{law_reply_record_round_trip, read_reply, reply_bytes, CodecError};
use crate::encrypted_stream::noise::{noise_open, noise_seal, MAX_PAYLOAD};
use crate::encrypted_stream::{
    framed, frames, law_stream_carries_chunks, payloads, sealed_messages,
};
use crate::models::{
    info_message, info_record, law_info_round_trip, read_info_message, DataSrvInfo, DiscoveryReply,
    InfoView, ReadError,
};
use crate::net::SocketAddr;
use crate::server::BuildMode;
use crate::wire::{concat, sub_vec, ByteReader};
use vstd::prelude::*;
use vstd::utf8::encode_utf8;

verus! {

/// How long a client tries to connect, in seconds.
pub const CONNECT_TIMEOUT_SECONDS: u64 = 10;

/// How much of a reply to a broadcast is read.
pub const REPLY_BUFFER: usize = 100;

/// How long a client waits for replies to a broadcast, in milliseconds.
pub fn reply_wait_millis(build: BuildMode) -> (r: u64)
    ensures
        r == match build {
            BuildMode::Production => 2000u64,
            BuildMode::Testing => 200u64,
        },
{
    match build {
        BuildMode::Production => 2000,
        BuildMode::Testing => 200,
    }
}

/// What a client broadcasts to find servers.
pub fn ping() -> (r: Vec<u8>)
    ensures
        r@ == seq![0u8],
{
    vec![0u8]
}

/// The buffer `buf` after a datagram has been received into it: what does not fit is lost, and what
/// the datagram does not reach stays as it was.
pub open spec fn overlay(buf: Seq<u8>, datagram: Seq<u8>) -> Seq<u8> {
    if datagram.len() >= buf.len() {
        datagram.take(buf.len() as int)
    } else {
        datagram + buf.skip(datagram.len() as int)
    }
}

/// The replies to a broadcast. All of them are received into one buffer, which is kept as a whole
/// for each.
pub struct Replies {
    buf: Vec<u8>,
    replies: Vec<(Vec<u8>, SocketAddr)>,
}

impl Replies {
    /// The buffer is as long as it was made.
    #[verifier::type_invariant]
    spec fn inv(&self) -> bool {
        self.buf@.len() == REPLY_BUFFER
    }

    /// What is in the buffer.
    pub closed spec fn buffer(&self) -> Seq<u8> {
        self.buf@
    }

    /// The replies so far: what was in the buffer after each, and whom it came from.
    pub closed spec fn received(&self) -> Seq<(Seq<u8>, SocketAddr)> {
        self.replies@.map_values(|reply: (Vec<u8>, SocketAddr)| (reply.0@, reply.1))
    }

    /// No replies yet.
    pub fn new() -> (r: Self)
        ensures
            r.buffer() == Seq::new(100, |i: int| 0u8),
            r.received() == Seq::<(Seq<u8>, SocketAddr)>::empty(),
    {
        let mut buf: Vec<u8> = Vec::new();
        buf.resize(REPLY_BUFFER, 0);
        assert(buf@ =~= Seq::new(100, |i: int| 0u8));
        let r = Replies { buf, replies: Vec::new() };
        assert(r.received() =~= Seq::<(Seq<u8>, SocketAddr)>::empty());
        r
    }

    /// Takes a datagram from `peer`.
    pub fn read_reply(&mut self, datagram: &[u8], peer: SocketAddr)
        ensures
            final(self).buffer() == overlay(old(self).buffer(), datagram@),
            final(self).received() == old(self).received().push(
                (final(self).buffer(), peer),
            ),
    {
        proof {
            use_type_invariant(&*self);
        }
        let ghost before = self.received();
        let len: usize = if datagram.len() < REPLY_BUFFER {
            datagram.len()
        } else {
            REPLY_BUFFER
        };
        let mut content = sub_vec(datagram, 0, len);
        let mut tail = sub_vec(&self.buf, len, REPLY_BUFFER);
        content.append(&mut tail);
        assert(content@ =~= overlay(self.buf@, datagram@));
        let kept = sub_vec(&content, 0, REPLY_BUFFER);
        assert(kept@ =~= content@);
        self.buf = content;
        let mut replies: Vec<(Vec<u8>, SocketAddr)> = Vec::new();
        std::mem::swap(&mut replies, &mut self.replies);
        replies.push((kept, peer));
        self.replies = replies;
        assert(self.received() =~= before.push((self.buffer(), peer)));
    }

    /// All the replies.
    pub fn into_vec(self) -> (r: Vec<(Vec<u8>, SocketAddr)>)
        ensures
            r@.map_values(|reply: (Vec<u8>, SocketAddr)| (reply.0@, reply.1)) == self.received(),
    {
        self.replies
    }
}

/// Identifying information of a server discovered on the network.
#[derive(Clone, Copy, Debug, PartialEq, Eq, Structural)]
pub struct ServerInfo {
    pub addr: SocketAddr,
}

impl ServerInfo {
    /// The server at `addr`.
    pub fn new(addr: SocketAddr) -> (r: Self)
        ensures
            r.addr == addr,
    {
        ServerInfo { addr }
    }
}

/// Server selection strategy for testing that just selects the first server.
pub fn test_srvr_sel(_info: &ServerInfo) -> (r: bool)
    ensures
        r,
{
    true
}

/// Why no server was found.
#[derive(Clone, Copy, Debug, PartialEq, Eq, Structural)]
pub enum FindErr {
    /// A reply did not decode.
    Codec(CodecError),
    /// Nobody replied.
    NoServers,
    /// None of the servers was selected.
    NotSelected,
}

/// The server that a reply from `peer` tells of: it listens at the address of the sender, on the
/// port that the reply gives.
pub open spec fn replied(bytes: Seq<u8>, peer: SocketAddr) -> Result<ServerInfo, CodecError> {
    match read_reply(bytes) {
        Ok((_, tcp_port)) => Ok(ServerInfo { addr: peer.with_port(tcp_port) }),
        Err(e) => Err(e),
    }
}

/// The server that the reply number `i` tells of.
pub open spec fn reply_at(
    replies: Seq<(Vec<u8>, SocketAddr)>,
    i: int,
) -> Result<ServerInfo, CodecError> {
    replied(replies[i].0@, replies[i].1)
}

/// What is read of a stream that begins with an info message.
pub enum Download {
    /// The data.
    Plain(Vec<u8>),
    /// The data that follows is encrypted: the handshake comes first.
    Encrypted(DataSrvInfo),
}

/// Where a download is to be saved.
#[derive(Debug)]
pub enum SaveAs {
    /// Where the user said.
    GivenPath,
    /// In the directory that the user gave, under the name that the server gave.
    InDirectory(String),
}

/// How a download to a file goes.
#[derive(Debug)]
pub struct FilePlan {
    /// Where it goes.
    pub save_as: SaveAs,
    /// Whether the encryption handshake comes first.
    pub handshake: bool,
    /// How long the file is to be in the end. Padding beyond it is cut off.
    pub final_length: u64,
}

/// Whether `plan` is how the download of what `info` tells of goes, to a place that is a directory or
/// not. In a directory the server names the file.
pub open spec fn planned(info: InfoView, path_is_dir: bool, plan: FilePlan) -> bool {
    &&& match plan.save_as {
        SaveAs::InDirectory(name) => path_is_dir && name@ == info.data_name,
        SaveAs::GivenPath => !path_is_dir,
    }
    &&& plan.handshake == info.encrypted
    &&& plan.final_length == info.data_length
}

/// Why a download did not come about.
#[derive(Clone, Copy, Debug, PartialEq, Eq, Structural)]
pub enum DownloadErr {
    /// The data could not be copied to its end.
    CopyFailed,
}

/// What is kept of `data` when the server said that it is `data_length` bytes long.
pub open spec fn kept(data: Seq<u8>, data_length: u64) -> Seq<u8> {
    if data.len() > data_length as usize {
        data.take((data_length as usize) as int)
    } else {
        data
    }
}

/// What a client downloads from a stream to its end, if the data is not encrypted.
pub open spec fn downloaded(stream: Seq<u8>) -> Option<Seq<u8>> {
    match read_info_message(stream) {
        (Ok(info), data) if !info.encrypted => Some(kept(data, info.data_length)),
        _ => None,
    }
}

/// Client for hubtain's fetch mode.
pub struct DownloadClient;

impl DownloadClient {
    /// Selects a server among those that replied: the first that the strategy takes. One reply that
    /// does not decode spoils them all.
    pub fn find_server<SrvPred: Fn(&ServerInfo) -> bool>(
        replies: &Vec<(Vec<u8>, SocketAddr)>,
        server_selection_strategy: SrvPred,
    ) -> (r: Result<ServerInfo, FindErr>)
        requires
            forall|info: ServerInfo| call_requires(server_selection_strategy, (&info,)),
        ensures
            match r {
                Ok(info) => {
                    &&& forall|i: int|
                        0 <= i < replies@.len() ==> (#[trigger] reply_at(replies@, i)) is Ok
                    &&& exists|i: int|
                        {
                            &&& 0 <= i < replies@.len()
                            &&& #[trigger] reply_at(replies@, i) == Ok::<ServerInfo, CodecError>(
                                info,
                            )
                            &&& call_ensures(server_selection_strategy, (&info,), true)
                            &&& forall|j: int|
                                0 <= j < i ==> call_ensures(
                                    server_selection_strategy,
                                    (&(#[trigger] reply_at(replies@, j))->Ok_0,),
                                    false,
                                )
                        }
                },
                Err(FindErr::Codec(e)) => exists|i: int|
                    {
                        &&& 0 <= i < replies@.len()
                        &&& #[trigger] reply_at(replies@, i) == Err::<ServerInfo, CodecError>(e)
                        &&& forall|j: int|
                            0 <= j < i ==> (#[trigger] reply_at(replies@, j)) is Ok
                    },
                Err(FindErr::NoServers) => replies@.len() == 0,
                Err(FindErr::NotSelected) => {
                    &&& replies@.len() > 0
                    &&& forall|i: int|
                        0 <= i < replies@.len() ==> (#[trigger] reply_at(replies@, i)) is Ok
                    &&& forall|j: int|
                        0 <= j < replies@.len() ==> call_ensures(
                            server_selection_strategy,
                            (&(#[trigger] reply_at(replies@, j))->Ok_0,),
                            false,
                        )
                },
            },
    {
        let mut found: Vec<ServerInfo> = Vec::new();
        let mut i: usize = 0;
        while i < replies.len()
            invariant
                i <= replies@.len(),
                found@.len() == i,
                forall|j: int|
                    0 <= j < i ==> #[trigger] reply_at(replies@, j) == Ok::<ServerInfo, CodecError>(
                        found@[j],
                    ),
            decreases replies@.len() - i,
        {
            match DiscoveryReply::from_bytes(&replies[i].0) {
                Ok(reply) => {
                    let mut tcp_sock_addr = replies[i].1;
                    tcp_sock_addr.set_port(reply.tcp_port);
                    found.push(ServerInfo::new(tcp_sock_addr));
                },
                Err(e) => {
                    assert(reply_at(replies@, i as int) == Err::<ServerInfo, CodecError>(e));
                    return Err(FindErr::Codec(e));
                },
            }
            i = i + 1;
        }
        if found.len() == 0 {
            return Err(FindErr::NoServers);
        }
        let mut k: usize = 0;
        while k < found.len()
            invariant
                k <= found@.len() == replies@.len(),
                forall|info: ServerInfo| call_requires(server_selection_strategy, (&info,)),
                forall|j: int|
                    0 <= j < replies@.len() ==> #[trigger] reply_at(replies@, j) == Ok::<
                        ServerInfo,
                        CodecError,
                    >(found@[j]),
                forall|j: int|
                    0 <= j < k ==> call_ensures(
                        server_selection_strategy,
                        (&(#[trigger] reply_at(replies@, j))->Ok_0,),
                        false,
                    ),
            decreases found@.len() - k,
        {
            assert(reply_at(replies@, k as int) == Ok::<ServerInfo, CodecError>(found@[k as int]));
            if server_selection_strategy(&found[k]) {
                return Ok(found[k]);
            }
            k = k + 1;
        }
        Err(FindErr::NotSelected)
    }

    /// What to do about a download to a place on disk. If the place is a directory, the server names
    /// the file.
    pub fn download_to_file(info: DataSrvInfo, path_is_dir: bool) -> (r: FilePlan)
        ensures
            planned(info@, path_is_dir, r),
    {
        FilePlan {
            handshake: info.encrypted,
            final_length: info.data_length,
            save_as: if path_is_dir {
                SaveAs::InDirectory(info.data_name)
            } else {
                SaveAs::GivenPath
            },
        }
    }

    /// Ends a download to a file: the length that the file is to be given, if the data was copied. A
    /// copy that failed is no download.
    pub fn finish_download(copied: bool, plan: &FilePlan) -> (r: Result<u64, DownloadErr>)
        ensures
            match r {
                Ok(length) => copied && length == plan.final_length,
                Err(e) => !copied && e == DownloadErr::CopyFailed,
            },
    {
        if copied {
            Ok(plan.final_length)
        } else {
            Err(DownloadErr::CopyFailed)
        }
    }

    /// Downloads server data to a vec. If it is encrypted, only the info is read.
    pub fn download_to_vec(stream: &mut ByteReader) -> (r: Result<Download, ReadError>)
        ensures
            match (r, read_info_message(old(stream)@).0) {
                (Ok(Download::Plain(data)), Ok(info)) => {
                    &&& !info.encrypted
                    &&& data@ == kept(read_info_message(old(stream)@).1, info.data_length)
                    &&& final(stream)@ == Seq::<u8>::empty()
                },
                (Ok(Download::Encrypted(got)), Ok(info)) => {
                    &&& info.encrypted
                    &&& got@ == info
                    &&& final(stream)@ == read_info_message(old(stream)@).1
                },
                (Err(got), Err(want)) => got == want && final(stream)@ == read_info_message(
                    old(stream)@,
                ).1,
                _ => false,
            },
    {
        let info = match DataSrvInfo::read_from_stream(stream) {
            Ok(info) => info,
            Err(e) => return Err(e),
        };
        if info.encrypted {
            return Ok(Download::Encrypted(info));
        }
        let download = stream.read_to_end();
        Ok(Download::Plain(Self::trim(download, info.data_length)))
    }

    /// Cuts off what is left over behind the data.
    pub fn trim(data: Vec<u8>, data_length: u64) -> (r: Vec<u8>)
        ensures
            r@ == kept(data@, data_length),
    {
        let mut data = data;
        data.truncate(data_length as usize);
        data
    }
}

/// A server is found under the port that it announced: whatever was in the reply buffer before, a
/// reply that fits into it is understood.
pub proof fn law_reply_is_understood(
    buf: Seq<u8>,
    server_name: Seq<char>,
    tcp_port: u16,
    peer: SocketAddr,
)
    requires
        buf.len() == REPLY_BUFFER,
        reply_bytes(server_name, tcp_port).len() <= REPLY_BUFFER,
    ensures
        replied(overlay(buf, reply_bytes(server_name, tcp_port)), peer) == Ok::<
            ServerInfo,
            CodecError,
        >(ServerInfo { addr: peer.with_port(tcp_port) }),
        peer.with_port(tcp_port).port_of() == tcp_port,
{
    let bytes = reply_bytes(server_name, tcp_port);
    crate::wire::lemma_le_len(tcp_port as nat, 2);
    crate::wire::lemma_le_len(encode_utf8(server_name).len(), 8);
    assert(encode_utf8(server_name).len() <= bytes.len());
    law_reply_record_round_trip(server_name, tcp_port, buf.skip(bytes.len() as int));
    assert(overlay(buf, bytes) =~= bytes + buf.skip(bytes.len() as int));
}

/// What a server sends, info and data, is what a client downloads: the data, no more and no less.
/// One byte has to hold the length of the info record.
pub proof fn law_download_gives_the_data(info: InfoView, data: Seq<u8>)
    requires
        info_record(info).len() <= 255,
        !info.encrypted,
        data.len() == info.data_length,
        info.data_length <= usize::MAX,
    ensures
        downloaded(info_message(info) + data) == Some(data),
{
    law_info_round_trip(info, data);
}

/// Padding behind the data does not get into a download.
pub proof fn law_padding_is_cut_off(info: InfoView, data: Seq<u8>, padding: Seq<u8>)
    requires
        info_record(info).len() <= 255,
        !info.encrypted,
        data.len() == info.data_length,
        info.data_length <= usize::MAX,
    ensures
        downloaded(info_message(info) + data + padding) == Some(data),
{
    law_info_round_trip(info, data + padding);
    assert(info_message(info) + data + padding =~= info_message(info) + (data + padding));
    assert((data + padding).take(data.len() as int) =~= data);
    assert(padding.len() == 0 ==> data + padding =~= data);
}

/// The download of encrypted data: what a server writes chunk by chunk to its encrypted stream comes
/// out as the data, no more and no less, of a client whose stream is in step and whose reads have room
/// for each chunk. That a message opens to its chunk is what every write ensures of it.
pub proof fn law_encrypted_download_gives_the_data(
    key: Seq<u8>,
    counter: u64,
    chunks: Seq<Seq<u8>>,
    room: nat,
    data_length: u64,
)
    requires
        counter + chunks.len() <= u64::MAX,
        forall|i: int|
            0 <= i < chunks.len() ==> {
                let message = noise_seal(key, (counter + i) as u64, #[trigger] chunks[i]);
                &&& chunks[i].len() <= MAX_PAYLOAD
                &&& chunks[i].len() <= room
                &&& message.len() == chunks[i].len() + 16
                &&& noise_open(key, (counter + i) as u64, message) == Some(chunks[i])
            },
        concat(chunks).len() == data_length,
        data_length <= usize::MAX,
    ensures
        ({
            let wire = framed(sealed_messages(key, counter, chunks));
            let got = payloads(key, counter, frames(wire), room);
            let texts = Seq::new(got.len(), |i: int| got[i]->0);
            &&& forall|i: int| 0 <= i < got.len() ==> (#[trigger] got[i]) is Some
            &&& kept(concat(texts), data_length) == concat(chunks)
        }),
{
    law_stream_carries_chunks(key, counter, chunks, room);
    let wire = framed(sealed_messages(key, counter, chunks));
    let got = payloads(key, counter, frames(wire), room);
    assert(Seq::new(got.len(), |i: int| got[i]->0) =~= chunks);
}

/// The server that a reply tells of has the host of the one who sent it and the port that stands in the
/// reply, whichever they are. A reply that does not decode tells of none, for the reason it gives.
pub proof fn law_reply_names_the_port(bytes: Seq<u8>, peer: SocketAddr)
    ensures
        match (read_reply(bytes), replied(bytes, peer)) {
            (Ok((_, announced)), Ok(info)) => {
                &&& info.addr.port_of() == announced
                &&& match (peer, info.addr) {
                    (SocketAddr::V4 { ip, .. }, SocketAddr::V4 { ip: host, port }) => {
                        &&& host == ip
                        &&& port == announced
                    },
                    (
                        SocketAddr::V6 { bits, flowinfo, scope_id, .. },
                        SocketAddr::V6 { bits: host, port, flowinfo: flow, scope_id: scope },
                    ) => {
                        &&& host == bits
                        &&& port == announced
                        &&& flow == flowinfo
                        &&& scope == scope_id
                    },
                    _ => false,
                }
            },
            (Err(reason), Err(got)) => got == reason,
            _ => false,
        },
{
}

/// A datagram lands at the front of the reply buffer and leaves the rest of it alone; what does not fit
/// is lost. The buffer keeps its length.
pub proof fn law_datagram_lands_in_front(buf: Seq<u8>, datagram: Seq<u8>, i: int)
    requires
        0 <= i < buf.len(),
    ensures
        overlay(buf, datagram).len() == buf.len(),
        i < datagram.len() ==> overlay(buf, datagram)[i] == datagram[i],
        i >= datagram.len() ==> overlay(buf, datagram)[i] == buf[i],
{
}

/// The content of a file that is given the length `length`: what is over is cut off, and what is
/// missing is zeros.
pub open spec fn resized(content: Seq<u8>, length: nat) -> Seq<u8> {
    Seq::new(
        length,
        |i: int|
            if i < content.len() {
                content[i]
            } else {
                0u8
            },
    )
}

/// A file that takes what comes from the server and is then given the planned length holds the data, no
/// more and no less, whatever the length of the data and with or without padding behind it.
pub proof fn law_file_holds_the_data(
    info: InfoView,
    path_is_dir: bool,
    plan: FilePlan,
    data: Seq<u8>,
    padding: Seq<u8>,
)
    requires
        planned(info, path_is_dir, plan),
        data.len() == info.data_length,
    ensures
        plan.final_length == info.data_length,
        resized(data + padding, plan.final_length as nat) == data,
{
    assert(resized(data + padding, plan.final_length as nat) =~= data);
}

/// A download to a place that is no directory goes to that place; one to a directory goes into it, under
/// the name that the server gave. The handshake comes first exactly if the server says that the data is
/// encrypted.
pub proof fn law_file_goes_where_it_should(info: InfoView, path_is_dir: bool, plan: FilePlan)
    requires
        planned(info, path_is_dir, plan),
    ensures
        !path_is_dir <==> plan.save_as is GivenPath,
        path_is_dir ==> (plan.save_as matches SaveAs::InDirectory(name) && name@ == info.data_name),
        plan.handshake <==> info.encrypted,
{
}

/// Data of the announced length, or shorter, is kept as it is, and of what is behind the announced length
/// nothing is kept. What was kept once is kept again.
pub proof fn law_kept_is_the_data(data: Seq<u8>, padding: Seq<u8>, data_length: u64)
    requires
        data_length <= usize::MAX,
    ensures
        data.len() <= data_length ==> kept(data, data_length) == data,
        data.len() == data_length ==> kept(data + padding, data_length) == data,
        kept(kept(data, data_length), data_length) == kept(data, data_length),
        kept(data, data_length).len() <= data_length,
        kept(data, data_length).is_prefix_of(data),
{
    if data.len() == data_length {
        assert((data + padding).take(data.len() as int) =~= data);
        assert(padding.len() == 0 ==> data + padding =~= data);
    }
}

/// Nothing is downloaded in the clear from a server that says its data is encrypted.
pub proof fn law_encrypted_data_is_not_taken_as_it_is(info: InfoView, rest: Seq<u8>)
    requires
        info_record(info).len() <= 255,
        info.encrypted,
    ensures
        downloaded(info_message(info) + rest) is None,
{
    law_info_round_trip(info, rest);
}

/// A connection attempt gives up after ten seconds, and a reply has a hundred bytes to fit into.
pub proof fn law_limits()
    ensures
        CONNECT_TIMEOUT_SECONDS == 10,
        REPLY_BUFFER == 100,
{
}

/// The replies are told apart by their numbers: what reply number `i` tells of is at the host that sent
/// reply number `i`, under the port that stands in it, and comes of no other reply.
pub proof fn law_each_reply_tells_of_its_sender(replies: Seq<(Vec<u8>, SocketAddr)>, i: int)
    requires
        0 <= i < replies.len(),
    ensures
        match (read_reply(replies[i].0@), reply_at(replies, i)) {
            (Ok((_, announced)), Ok(info)) => info.addr.port_of() == announced && info.addr.with_port(
                0,
            ) == replies[i].1.with_port(0),
            (Err(reason), Err(got)) => got == reason,
            _ => false,
        },
{
}

} // verus!
