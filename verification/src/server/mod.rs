//! The file server: how it is set up, and what it does about what happens to it.

pub mod data_srv;
pub mod ngrok;
pub mod serve_loop;
pub mod tui;

use crate::models::InfoView;
use crate::net::SocketAddr;
use crate::server::data_srv::{DataPhase, DataSrv, EncryptionType};
use crate::server::serve_loop::{ServeLoop, ServePhase};
use crate::text::{host_and_port, with_port};
use vstd::prelude::*;
use vstd::string::StringExecFns;

verus! {

/// How a server comes to accept a client of an encrypted transfer.
#[derive(Clone, Copy, Debug, Hash, PartialEq, Eq, Structural)]
pub enum ClientApprovalStrategy {
    /// Somebody is asked about each client.
    Interactive,
    /// Every client is accepted. Only for tests.
    ApproveAll,
}

/// The byte by which a server tells a client whether it is accepted.
pub open spec fn approval_byte(approved: bool) -> u8 {
    if approved {
        1
    } else {
        0
    }
}

/// Method being used to punch a hole for an external address.
#[derive(Clone, Copy, Debug, PartialEq, Eq, Structural)]
pub enum HolePuncher {
    /// No hole is punched.
    Off,
    IGD,
    Ngrok,
}

/// What a program was built for.
#[derive(Clone, Copy, Debug, PartialEq, Eq, Structural)]
pub enum BuildMode {
    Production,
    Testing,
}

/// What a program runs on.
#[derive(Clone, Copy, Debug, PartialEq, Eq, Structural)]
pub enum Platform {
    Unix,
    Windows,
}

/// The address on which a server listens for broadcasts.
pub open spec fn udp_host(build: BuildMode, platform: Platform) -> Seq<char> {
    match (build, platform) {
        (BuildMode::Testing, _) => "127.0.0.1"@,
        (BuildMode::Production, Platform::Unix) => "192.168.1.255"@,
        (BuildMode::Production, Platform::Windows) => "0.0.0.0"@,
    }
}

/// The address to which a server binds its UDP socket.
pub fn udp_srv_bind_addr(port_num: u16, build: BuildMode, platform: Platform) -> (r: String)
    ensures
        r@ == host_and_port(udp_host(build, platform), port_num),
{
    match build {
        BuildMode::Testing => with_port("127.0.0.1", port_num),
        BuildMode::Production => match platform {
            Platform::Unix => with_port("192.168.1.255", port_num),
            Platform::Windows => with_port("0.0.0.0", port_num),
        },
    }
}

/// What there is at the path that is to be served.
#[derive(Debug)]
pub enum Source {
    /// Nothing, or a directory.
    NotAFile,
    /// A file whose name is not Unicode.
    WeirdName,
    /// A file with this name.
    File(String),
}

/// Why a server could not be built.
#[derive(Clone, Copy, Debug, PartialEq, Eq, Structural)]
pub enum BuildErr {
    NotAFile,
    WeirdName,
}

/// The text of an error.
pub open spec fn build_err_text(err: BuildErr) -> Seq<char> {
    match err {
        BuildErr::NotAFile => "Provied path is not a file!"@,
        BuildErr::WeirdName => "Provied path has weird characters!"@,
    }
}

impl BuildErr {
    /// What to tell the user.
    pub fn message(&self) -> (r: &'static str)
        ensures
            r@ == build_err_text(*self),
    {
        match self {
            BuildErr::NotAFile => "Provied path is not a file!",
            BuildErr::WeirdName => "Provied path has weird characters!",
        }
    }
}

/// What a server has been set up with.
pub ghost struct Settings {
    pub build: BuildMode,
    pub data_length: u64,
    pub udp_port: u16,
    pub stay_alive: bool,
    pub encryption: bool,
    pub holepunch: HolePuncher,
    pub listen_addr: Seq<char>,
    pub client_approval_strategy: ClientApprovalStrategy,
}

/// The settings of a server for `data_length` bytes, as long as nothing is set.
pub open spec fn default_settings(build: BuildMode, data_length: u64) -> Settings {
    Settings {
        build,
        data_length,
        udp_port: 0,
        stay_alive: false,
        encryption: false,
        holepunch: HolePuncher::Off,
        listen_addr: match build {
            BuildMode::Production => "0.0.0.0"@,
            BuildMode::Testing => "127.0.0.1"@,
        },
        client_approval_strategy: ClientApprovalStrategy::ApproveAll,
    }
}

/// One thing that can be set.
pub ghost enum Setting {
    UdpPort(u16),
    StayAlive(bool),
    HolePuncher(HolePuncher),
    Encryption(bool),
}

/// The settings after one more thing has been set. In production, encryption brings approval by
/// somebody with it.
pub open spec fn with_setting(before: Settings, setting: Setting) -> Settings {
    match setting {
        Setting::UdpPort(udp_port) => Settings { udp_port, ..before },
        Setting::StayAlive(stay_alive) => Settings { stay_alive, ..before },
        Setting::HolePuncher(holepunch) => Settings { holepunch, ..before },
        Setting::Encryption(encryption) => Settings {
            encryption,
            client_approval_strategy: if encryption && before.build is Production {
                ClientApprovalStrategy::Interactive
            } else {
                before.client_approval_strategy
            },
            ..before
        },
    }
}

/// The settings after all of `list` has been set, in order.
pub open spec fn with_settings(before: Settings, list: Seq<Setting>) -> Settings
    decreases list.len(),
{
    if list.len() == 0 {
        before
    } else {
        with_setting(with_settings(before, list.drop_last()), list.last())
    }
}

/// The UDP port that was set last; 0 if none was.
pub open spec fn last_udp_port(list: Seq<Setting>) -> u16
    decreases list.len(),
{
    if list.len() == 0 {
        0
    } else {
        match list.last() {
            Setting::UdpPort(port) => port,
            _ => last_udp_port(list.drop_last()),
        }
    }
}

/// Whether `addr` is an address at which a socket can be that was bound to `port`: the system gives it
/// that port, or any but 0 if it was asked for 0.
pub open spec fn bound_for(port: u16, addr: SocketAddr) -> bool {
    if port == 0 {
        addr.port_of() != 0
    } else {
        addr.port_of() == port
    }
}

/// A server is on the UDP port that was set last, whatever else was set, or on one that the system
/// chose if none or 0 was set. That a socket gets the port that it is bound to is the system's part.
pub proof fn law_udp_port_is_the_one_set(
    build: BuildMode,
    data_length: u64,
    list: Seq<Setting>,
    srv: SrvView,
)
    requires
        bound_for(with_settings(default_settings(build, data_length), list).udp_port, srv.udp_addr),
    ensures
        last_udp_port(list) != 0 ==> srv.udp_addr.port_of() == last_udp_port(list),
        last_udp_port(list) == 0 ==> srv.udp_addr.port_of() != 0,
{
    lemma_udp_port_is_kept(build, data_length, list);
}

/// No other setting touches the UDP port.
proof fn lemma_udp_port_is_kept(build: BuildMode, data_length: u64, list: Seq<Setting>)
    ensures
        with_settings(default_settings(build, data_length), list).udp_port == last_udp_port(list),
    decreases list.len(),
{
    if list.len() > 0 {
        lemma_udp_port_is_kept(build, data_length, list.drop_last());
    }
}

/// In production somebody has to approve each client of an encrypted transfer, whatever has been set
/// in whatever order.
pub proof fn law_encryption_asks_for_approval(data_length: u64, list: Seq<Setting>)
    ensures
        ({
            let settings = with_settings(default_settings(BuildMode::Production, data_length), list);
            &&& settings.build is Production
            &&& settings.encryption ==> settings.client_approval_strategy is Interactive
        }),
    decreases list.len(),
{
    if list.len() > 0 {
        law_encryption_asks_for_approval(data_length, list.drop_last());
    }
}

/// Sets up a file server.
pub struct FileSrvBuilder {
    build: BuildMode,
    data_length: u64,
    udp_port: u16,
    stay_alive: bool,
    encryption: bool,
    holepunch: HolePuncher,
    listen_addr: String,
    client_approval_strategy: ClientApprovalStrategy,
}

impl FileSrvBuilder {
    /// In production, encryption goes with approval by somebody.
    #[verifier::type_invariant]
    spec fn inv(&self) -> bool {
        self.build is Production && self.encryption ==> self.client_approval_strategy is Interactive
    }

    /// What has been set.
    pub closed spec fn settings(&self) -> Settings {
        Settings {
            build: self.build,
            data_length: self.data_length,
            udp_port: self.udp_port,
            stay_alive: self.stay_alive,
            encryption: self.encryption,
            holepunch: self.holepunch,
            listen_addr: self.listen_addr@,
            client_approval_strategy: self.client_approval_strategy,
        }
    }

    /// A server for `data_length` bytes.
    pub fn new(data_length: u64, build: BuildMode) -> (r: Self)
        ensures
            r.settings() == default_settings(build, data_length),
    {
        FileSrvBuilder {
            build,
            data_length,
            udp_port: 0,
            stay_alive: false,
            encryption: false,
            holepunch: HolePuncher::Off,
            listen_addr: match build {
                BuildMode::Production => String::from_str("0.0.0.0"),
                BuildMode::Testing => String::from_str("127.0.0.1"),
            },
            client_approval_strategy: ClientApprovalStrategy::ApproveAll,
        }
    }

    /// Sets the port on which the server listens for broadcasts.
    pub fn set_udp_port(self, port: u16) -> (r: Self)
        ensures
            r.settings() == with_setting(self.settings(), Setting::UdpPort(port)),
    {
        proof {
            use_type_invariant(&self);
        }
        FileSrvBuilder { udp_port: port, ..self }
    }

    /// Sets whether the server goes on after its first client.
    pub fn set_stayalive(self, stayalive: bool) -> (r: Self)
        ensures
            r.settings() == with_setting(self.settings(), Setting::StayAlive(stayalive)),
    {
        proof {
            use_type_invariant(&self);
        }
        FileSrvBuilder { stay_alive: stayalive, ..self }
    }

    /// Sets how the server is made reachable from outside.
    pub fn set_holepuncher(self, holepuncher: HolePuncher) -> (r: Self)
        ensures
            r.settings() == with_setting(self.settings(), Setting::HolePuncher(holepuncher)),
    {
        proof {
            use_type_invariant(&self);
        }
        FileSrvBuilder { holepunch: holepuncher, ..self }
    }

    /// Sets whether transfers are encrypted. In production somebody then has to approve each client.
    pub fn set_encryption(self, encryption: bool) -> (r: Self)
        ensures
            r.settings() == with_setting(self.settings(), Setting::Encryption(encryption)),
    {
        proof {
            use_type_invariant(&self);
        }
        let strategy: ClientApprovalStrategy = match self.build {
            BuildMode::Production => if encryption {
                ClientApprovalStrategy::Interactive
            } else {
                self.client_approval_strategy
            },
            BuildMode::Testing => self.client_approval_strategy,
        };
        FileSrvBuilder { encryption, client_approval_strategy: strategy, ..self }
    }

    /// The address to which the TCP socket is bound: any port will do.
    pub fn tcp_bind_addr(&self) -> (r: String)
        ensures
            r@ == host_and_port(self.settings().listen_addr, 0),
    {
        with_port(self.listen_addr.as_str(), 0)
    }

    /// The address to which the UDP socket is bound.
    pub fn udp_bind_addr(&self, platform: Platform) -> (r: String)
        ensures
            r@ == host_and_port(
                udp_host(self.settings().build, platform),
                self.settings().udp_port,
            ),
    {
        udp_srv_bind_addr(self.udp_port, self.build, platform)
    }

    /// Builds the server, once its sockets are bound and a name is found for it. Only a file can be
    /// served, and only under a Unicode name.
    pub fn build(
        self,
        name: String,
        source: Source,
        tcp_addr: SocketAddr,
        udp_addr: SocketAddr,
    ) -> (r: Result<FileSrv, BuildErr>)
        ensures
            match source {
                Source::NotAFile => r == Err::<FileSrv, BuildErr>(BuildErr::NotAFile),
                Source::WeirdName => r == Err::<FileSrv, BuildErr>(BuildErr::WeirdName),
                Source::File(file_name) => r matches Ok(srv) && srv@ == (SrvView {
                    stay_alive: self.settings().stay_alive,
                    tcp_addr,
                    udp_addr,
                    data_length: self.settings().data_length,
                    name: name@,
                    encrypted: self.settings().encryption,
                    client_approval_strategy: self.settings().client_approval_strategy,
                    file_name: file_name@,
                    holepuncher: self.settings().holepunch,
                }),
            },
            // In production somebody has to approve each client of an encrypted transfer
            match r {
                Ok(srv) => self.settings().build is Production && srv@.encrypted
                    ==> srv@.client_approval_strategy is Interactive,
                Err(_) => true,
            },
    {
        proof {
            use_type_invariant(&self);
        }
        let file_name = match source {
            Source::NotAFile => return Err(BuildErr::NotAFile),
            Source::WeirdName => return Err(BuildErr::WeirdName),
            Source::File(file_name) => file_name,
        };
        Ok(
            FileSrv {
                stay_alive: self.stay_alive,
                tcp_addr,
                udp_addr,
                data_length: self.data_length,
                name,
                encrypted: self.encryption,
                client_approval_strategy: self.client_approval_strategy,
                file_name,
                holepuncher: self.holepunch,
            },
        )
    }
}

/// A file server.
pub struct FileSrv {
    stay_alive: bool,
    tcp_addr: SocketAddr,
    udp_addr: SocketAddr,
    data_length: u64,
    name: String,
    encrypted: bool,
    client_approval_strategy: ClientApprovalStrategy,
    file_name: String,
    holepuncher: HolePuncher,
}

/// What a [`FileSrv`] knows.
pub ghost struct SrvView {
    pub stay_alive: bool,
    pub tcp_addr: SocketAddr,
    pub udp_addr: SocketAddr,
    pub data_length: u64,
    pub name: Seq<char>,
    pub encrypted: bool,
    pub client_approval_strategy: ClientApprovalStrategy,
    pub file_name: Seq<char>,
    pub holepuncher: HolePuncher,
}

impl View for FileSrv {
    type V = SrvView;

    closed spec fn view(&self) -> SrvView {
        SrvView {
            stay_alive: self.stay_alive,
            tcp_addr: self.tcp_addr,
            udp_addr: self.udp_addr,
            data_length: self.data_length,
            name: self.name@,
            encrypted: self.encrypted,
            client_approval_strategy: self.client_approval_strategy,
            file_name: self.file_name@,
            holepuncher: self.holepuncher,
        }
    }
}

/// Why a server does not start to serve.
#[derive(Clone, Copy, Debug, PartialEq, Eq, Structural)]
pub enum ServeErr {
    NotATty,
    NoLocalAddrForIgd,
    NoLocalAddrForNgrok,
}

/// The text of an error.
pub open spec fn serve_err_text(err: ServeErr) -> Seq<char> {
    match err {
        ServeErr::NotATty => "Refusing to use interactive mode in non-tty terminal"@,
        ServeErr::NoLocalAddrForIgd => "Couldn't determine local address during IGD"@,
        ServeErr::NoLocalAddrForNgrok => "Couldn't determine local address for ngrok to use"@,
    }
}

impl ServeErr {
    /// What to tell the user.
    pub fn message(&self) -> (r: &'static str)
        ensures
            r@ == serve_err_text(*self),
    {
        match self {
            ServeErr::NotATty => "Refusing to use interactive mode in non-tty terminal",
            ServeErr::NoLocalAddrForIgd => "Couldn't determine local address during IGD",
            ServeErr::NoLocalAddrForNgrok => "Couldn't determine local address for ngrok to use",
        }
    }
}

/// How a server talks to its user.
#[derive(Clone, Copy, Debug, PartialEq, Eq, Structural)]
pub enum Interface {
    /// The full-screen interface, with its log and its list of clients.
    Tui,
    /// Log lines, and questions about clients one by one.
    Console,
}

/// What is to be done to make a server reachable from outside.
#[derive(Clone, Copy, Debug, PartialEq, Eq, Structural)]
pub enum Punch {
    Nothing,
    /// Ask the gateway for a mapping to this port.
    Igd(u16),
    /// Ask ngrok for a tunnel to this port.
    Ngrok(u16),
}

/// One thing to tidy up when a server is done.
#[derive(Clone, Copy, Debug, PartialEq, Eq, Structural)]
pub enum Cleanup {
    JoinTui,
    ShutdownNgrok,
    FreeIgd,
    ClearShutdownFlag,
}

/// What to tidy up, in order.
pub open spec fn cleanup_steps(tui: bool, ngrok: bool, igd: bool) -> Seq<Cleanup> {
    let joined = if tui {
        seq![Cleanup::JoinTui]
    } else {
        Seq::empty()
    };
    let closed = if ngrok {
        joined.push(Cleanup::ShutdownNgrok)
    } else {
        joined
    };
    let freed = if igd {
        closed.push(Cleanup::FreeIgd)
    } else {
        closed
    };
    freed.push(Cleanup::ClearShutdownFlag)
}

/// Lists what to tidy up when a server is done, in order.
pub fn cleanup(tui: bool, ngrok: bool, igd: bool) -> (r: Vec<Cleanup>)
    ensures
        r@ == cleanup_steps(tui, ngrok, igd),
{
    let mut steps: Vec<Cleanup> = Vec::new();
    if tui {
        steps.push(Cleanup::JoinTui);
    }
    if ngrok {
        steps.push(Cleanup::ShutdownNgrok);
    }
    if igd {
        steps.push(Cleanup::FreeIgd);
    }
    steps.push(Cleanup::ClearShutdownFlag);
    assert(steps@ =~= cleanup_steps(tui, ngrok, igd));
    steps
}

/// What a server tells a client about its data.
pub open spec fn srv_info(srv: SrvView) -> InfoView {
    InfoView {
        tcp_port: srv.tcp_addr.port_of(),
        data_length: srv.data_length,
        encrypted: srv.encrypted,
        data_name: srv.file_name,
    }
}

impl FileSrv {
    /// Chooses the interface: the full-screen one if transfers are encrypted, somebody has to approve
    /// clients and the server stays alive. It takes a terminal.
    pub fn interface(&self, stdout_is_tty: bool) -> (r: Result<Interface, ServeErr>)
        ensures
            r == if self@.encrypted && self@.client_approval_strategy is Interactive
                && self@.stay_alive {
                if stdout_is_tty {
                    Ok::<Interface, ServeErr>(Interface::Tui)
                } else {
                    Err::<Interface, ServeErr>(ServeErr::NotATty)
                }
            } else {
                Ok::<Interface, ServeErr>(Interface::Console)
            },
    {
        if self.encrypted && self.client_approval_strategy == ClientApprovalStrategy::Interactive
            && self.stay_alive {
            if !stdout_is_tty {
                return Err(ServeErr::NotATty);
            }
            Ok(Interface::Tui)
        } else {
            Ok(Interface::Console)
        }
    }

    /// Decides how the server is made reachable from outside, which takes an IPv4 address.
    pub fn punch(&self) -> (r: Result<Punch, ServeErr>)
        ensures
            r == match (self@.holepuncher, self@.tcp_addr) {
                (HolePuncher::Off, _) => Ok::<Punch, ServeErr>(Punch::Nothing),
                (HolePuncher::IGD, SocketAddr::V4 { port, .. }) => Ok::<Punch, ServeErr>(
                    Punch::Igd(port),
                ),
                (HolePuncher::IGD, _) => Err::<Punch, ServeErr>(ServeErr::NoLocalAddrForIgd),
                (HolePuncher::Ngrok, SocketAddr::V4 { port, .. }) => Ok::<Punch, ServeErr>(
                    Punch::Ngrok(port),
                ),
                (HolePuncher::Ngrok, _) => Err::<Punch, ServeErr>(ServeErr::NoLocalAddrForNgrok),
            },
    {
        match self.holepuncher {
            HolePuncher::Off => Ok(Punch::Nothing),
            HolePuncher::IGD => match self.tcp_addr {
                SocketAddr::V4 { port, .. } => Ok(Punch::Igd(port)),
                _ => Err(ServeErr::NoLocalAddrForIgd),
            },
            HolePuncher::Ngrok => match self.tcp_addr {
                SocketAddr::V4 { port, .. } => Ok(Punch::Ngrok(port)),
                _ => Err(ServeErr::NoLocalAddrForNgrok),
            },
        }
    }

    /// Begins to answer broadcasts.
    pub fn serve(&self) -> (r: ServeLoop)
        ensures
            r.phase() == ServePhase::CheckingShutdown,
            r.stays_alive() == self@.stay_alive,
            r.announced() == (self@.name, self@.tcp_addr.port_of()),
    {
        ServeLoop::new(self.stay_alive, self.name.clone(), self.tcp_addr.port())
    }

    /// Begins to serve data. This runs independently of the answers to broadcasts, and does the job
    /// of actually transferring data to clients.
    pub fn data_srv(&self) -> (r: DataSrv)
        ensures
            r.phase() == DataPhase::CheckingShutdown,
            r.stays_alive() == self@.stay_alive,
            r.info() == srv_info(self@),
    {
        let enctype: EncryptionType = if self.encrypted {
            EncryptionType::Ephemeral
        } else {
            EncryptionType::Plain
        };
        DataSrv::new(
            self.stay_alive,
            self.tcp_addr.port(),
            self.data_length,
            enctype,
            self.file_name.clone(),
        )
    }

    /// The UDP port the server is bound to.
    pub fn udp_port(&self) -> (r: u16)
        ensures
            r == self@.udp_addr.port_of(),
    {
        self.udp_addr.port()
    }

    /// The name of the server.
    pub fn name(&self) -> (r: &str)
        ensures
            r@ == self@.name,
    {
        self.name.as_str()
    }

    /// The name of the file that is served.
    pub fn file_name(&self) -> (r: &str)
        ensures
            r@ == self@.file_name,
    {
        self.file_name.as_str()
    }

    /// How clients come to be accepted.
    pub fn client_approval_strategy(&self) -> (r: ClientApprovalStrategy)
        ensures
            r == self@.client_approval_strategy,
    {
        self.client_approval_strategy
    }
}

/// A server for tests, which serves `data_length` bytes to one client and accepts everybody.
pub fn test_filesrv(
    data_length: u64,
    encrypted: bool,
    name: String,
    tcp_addr: SocketAddr,
    udp_addr: SocketAddr,
) -> (r: FileSrv)
    ensures
        r@ == (SrvView {
            stay_alive: false,
            tcp_addr,
            udp_addr,
            data_length,
            name: name@,
            encrypted,
            client_approval_strategy: ClientApprovalStrategy::ApproveAll,
            file_name: "not a real file"@,
            holepuncher: HolePuncher::Off,
        }),
{
    FileSrv {
        stay_alive: false,
        tcp_addr,
        udp_addr,
        data_length,
        name,
        encrypted,
        client_approval_strategy: ClientApprovalStrategy::ApproveAll,
        file_name: String::from_str("not a real file"),
        holepuncher: HolePuncher::Off,
    }
}

/// What is set is what was said, and nothing else changes, but that in production somebody has to approve
/// clients once encryption is on.
pub proof fn law_setting_changes_itself(before: Settings, setting: Setting)
    ensures
        ({
            let now = with_setting(before, setting);
            &&& now.udp_port == match setting {
                Setting::UdpPort(port) => port,
                _ => before.udp_port,
            }
            &&& now.stay_alive == match setting {
                Setting::StayAlive(stay_alive) => stay_alive,
                _ => before.stay_alive,
            }
            &&& now.holepunch == match setting {
                Setting::HolePuncher(holepunch) => holepunch,
                _ => before.holepunch,
            }
            &&& now.encryption == match setting {
                Setting::Encryption(encryption) => encryption,
                _ => before.encryption,
            }
            &&& now.build == before.build
            &&& now.data_length == before.data_length
            &&& now.listen_addr == before.listen_addr
            &&& setting == Setting::Encryption(true) && before.build is Production
                ==> now.client_approval_strategy is Interactive
            &&& !(setting == Setting::Encryption(true) && before.build is Production)
                ==> now.client_approval_strategy == before.client_approval_strategy
        }),
{
}

/// Whether two settings are about the same thing.
pub open spec fn same_thing(a: Setting, b: Setting) -> bool {
    ||| a is UdpPort && b is UdpPort
    ||| a is StayAlive && b is StayAlive
    ||| a is HolePuncher && b is HolePuncher
    ||| a is Encryption && b is Encryption
}

/// Of the settings about one thing the last one counts, wherever it stands among settings about other
/// things; and a thing about which nothing is said stays as it was.
pub proof fn law_last_setting_counts(before: Settings, list: Seq<Setting>, i: int)
    requires
        0 <= i < list.len(),
        forall|j: int| i < j < list.len() ==> !same_thing(#[trigger] list[j], list[i]),
    ensures
        ({
            let now = with_settings(before, list);
            match list[i] {
                Setting::UdpPort(port) => now.udp_port == port,
                Setting::StayAlive(stay_alive) => now.stay_alive == stay_alive,
                Setting::HolePuncher(holepunch) => now.holepunch == holepunch,
                Setting::Encryption(encryption) => now.encryption == encryption,
            }
        }),
        with_settings(before, list).build == before.build,
        with_settings(before, list).data_length == before.data_length,
        with_settings(before, list).listen_addr == before.listen_addr,
    decreases list.len(),
{
    lemma_settings_keep(before, list);
    if i < list.len() - 1 {
        let less = list.drop_last();
        assert(!same_thing(list[list.len() - 1], list[i]));
        assert forall|j: int| i < j < less.len() implies !same_thing(
            #[trigger] less[j],
            less[i],
        ) by {
            assert(less[j] == list[j]);
        }
        law_last_setting_counts(before, less, i);
    }
}

/// Nothing that can be set touches what a server was made with.
proof fn lemma_settings_keep(before: Settings, list: Seq<Setting>)
    ensures
        with_settings(before, list).build == before.build,
        with_settings(before, list).data_length == before.data_length,
        with_settings(before, list).listen_addr == before.listen_addr,
    decreases list.len(),
{
    if list.len() > 0 {
        lemma_settings_keep(before, list.drop_last());
    }
}

/// What nothing is said about stays as it was.
pub proof fn law_unsaid_stays(before: Settings, list: Seq<Setting>)
    ensures
        ({
            let now = with_settings(before, list);
            &&& (forall|i: int| 0 <= i < list.len() ==> !((#[trigger] list[i]) is UdpPort))
                ==> now.udp_port == before.udp_port
            &&& (forall|i: int| 0 <= i < list.len() ==> !((#[trigger] list[i]) is StayAlive))
                ==> now.stay_alive == before.stay_alive
            &&& (forall|i: int| 0 <= i < list.len() ==> !((#[trigger] list[i]) is HolePuncher))
                ==> now.holepunch == before.holepunch
            &&& (forall|i: int| 0 <= i < list.len() ==> !((#[trigger] list[i]) is Encryption))
                ==> now.encryption == before.encryption && now.client_approval_strategy
                == before.client_approval_strategy
        }),
    decreases list.len(),
{
    if list.len() > 0 {
        let less = list.drop_last();
        law_unsaid_stays(before, less);
        assert(forall|i: int| 0 <= i < less.len() ==> (#[trigger] less[i]) == list[i]);
        assert(list.last() == list[list.len() - 1]);
    }
}

/// As long as nothing is set, a server serves one client in the clear, is not reachable from outside and
/// lets the system choose its port. It serves as many bytes as it was made for. In tests it keeps to this
/// machine.
pub proof fn law_defaults(build: BuildMode, data_length: u64)
    ensures
        ({
            let settings = default_settings(build, data_length);
            &&& settings.build == build
            &&& settings.data_length == data_length
            &&& settings.udp_port == 0
            &&& !settings.stay_alive
            &&& !settings.encryption
            &&& settings.holepunch is Off
            &&& settings.client_approval_strategy is ApproveAll
            &&& build is Testing ==> settings.listen_addr == "127.0.0.1"@
            &&& build is Production ==> settings.listen_addr == "0.0.0.0"@
        }),
{
}

/// In tests a server hears of nothing beyond this machine, whatever it runs on. In production it hears
/// broadcasts to the local network on Unix, and everything on Windows, where the broadcast address cannot
/// be bound.
pub proof fn law_broadcasts_are_heard(platform: Platform)
    ensures
        udp_host(BuildMode::Testing, platform) == "127.0.0.1"@,
        platform is Unix ==> udp_host(BuildMode::Production, platform) == "192.168.1.255"@,
        platform is Windows ==> udp_host(BuildMode::Production, platform) == "0.0.0.0"@,
{
}

/// What a client is told is true of the server: the port that it listens on, how long its data is, whether
/// that is encrypted, and the name of the file.
pub proof fn law_clients_are_told_the_truth(srv: SrvView)
    ensures
        ({
            let info = srv_info(srv);
            &&& match srv.tcp_addr {
                SocketAddr::V4 { port, .. } => info.tcp_port == port,
                SocketAddr::V6 { port, .. } => info.tcp_port == port,
            }
            &&& info.data_length == srv.data_length
            &&& info.encrypted <==> srv.encrypted
            &&& info.data_name == srv.file_name
        }),
{
}

/// A client that is accepted is told 1 and one that is not is told 0.
pub proof fn law_approval_is_told(approved: bool)
    ensures
        approved <==> approval_byte(approved) == 1,
        !approved <==> approval_byte(approved) == 0,
{
}

/// What was there is tidied up, and nothing else: each thing once, the interface first, and the order to
/// shut down, which is always taken back, last.
pub proof fn law_all_is_tidied_up(tui: bool, ngrok: bool, igd: bool)
    ensures
        ({
            let steps = cleanup_steps(tui, ngrok, igd);
            &&& steps.contains(Cleanup::JoinTui) <==> tui
            &&& steps.contains(Cleanup::ShutdownNgrok) <==> ngrok
            &&& steps.contains(Cleanup::FreeIgd) <==> igd
            &&& steps.len() > 0 && steps.last() == Cleanup::ClearShutdownFlag
            &&& tui ==> steps[0] == Cleanup::JoinTui
            &&& ngrok && igd ==> steps[steps.len() - 3] == Cleanup::ShutdownNgrok
            &&& igd ==> steps[steps.len() - 2] == Cleanup::FreeIgd
            &&& steps.no_duplicates()
        }),
{
    let steps = cleanup_steps(tui, ngrok, igd);
    if tui {
        assert(steps[0] == Cleanup::JoinTui);
    }
    if igd {
        assert(steps[steps.len() - 2] == Cleanup::FreeIgd);
    }
    if ngrok {
        if igd {
            assert(steps[steps.len() - 3] == Cleanup::ShutdownNgrok);
        } else {
            assert(steps[steps.len() - 2] == Cleanup::ShutdownNgrok);
        }
    }
}

/// Each error tells the user what is wrong.
pub proof fn law_errors_say_what_is_wrong(build: BuildErr, serve: ServeErr)
    ensures
        build is NotAFile ==> build_err_text(build) == "Provied path is not a file!"@,
        build is WeirdName ==> build_err_text(build) == "Provied path has weird characters!"@,
        serve is NotATty ==> serve_err_text(serve)
            == "Refusing to use interactive mode in non-tty terminal"@,
        serve is NoLocalAddrForIgd ==> serve_err_text(serve)
            == "Couldn't determine local address during IGD"@,
        serve is NoLocalAddrForNgrok ==> serve_err_text(serve)
            == "Couldn't determine local address for ngrok to use"@,
{
}

/// The full-screen interface is for servers that stay alive and have somebody approve the clients of
/// encrypted transfers, and for terminals. A server that calls for it does not start without a terminal; any
/// other server starts, and makes do with the console.
pub proof fn law_interface_takes_a_terminal(
    srv: FileSrv,
    stdout_is_tty: bool,
    r: Result<Interface, ServeErr>,
)
    requires
        call_ensures(FileSrv::interface, (&srv, stdout_is_tty), r),
    ensures
        ({
            let wants_tui = srv@.stay_alive && srv@.encrypted
                && srv@.client_approval_strategy is Interactive;
            &&& wants_tui && stdout_is_tty <==> r == Ok::<Interface, ServeErr>(Interface::Tui)
            &&& wants_tui && !stdout_is_tty <==> r == Err::<Interface, ServeErr>(ServeErr::NotATty)
            &&& !wants_tui <==> r == Ok::<Interface, ServeErr>(Interface::Console)
        }),
{
}

/// What is made reachable from outside is the port on which the server listens for clients, whichever it
/// is, by the method that was set and no other. A server that is not on an IPv4 address cannot be made
/// reachable.
pub proof fn law_hole_leads_to_the_server(srv: FileSrv, r: Result<Punch, ServeErr>)
    requires
        call_ensures(FileSrv::punch, (&srv,), r),
    ensures
        srv@.holepuncher is Off <==> r == Ok::<Punch, ServeErr>(Punch::Nothing),
        r matches Ok(Punch::Igd(port)) ==> srv@.holepuncher is IGD && port
            == srv@.tcp_addr.port_of(),
        r matches Ok(Punch::Ngrok(port)) ==> srv@.holepuncher is Ngrok && port
            == srv@.tcp_addr.port_of(),
        r is Err <==> srv@.tcp_addr is V6 && !(srv@.holepuncher is Off),
        r is Err ==> (r->Err_0 is NoLocalAddrForIgd <==> srv@.holepuncher is IGD),
        r is Err ==> (r->Err_0 is NoLocalAddrForNgrok <==> srv@.holepuncher is Ngrok),
{
}

/// The two parts of a server tell the same: the port in the answers to broadcasts is the port in the info
/// and the port on which the server listens for clients; and both go on after the first client, or neither.
pub proof fn law_both_parts_tell_the_same(srv: FileSrv, answers: ServeLoop, serves: DataSrv)
    requires
        call_ensures(FileSrv::serve, (&srv,), answers),
        call_ensures(FileSrv::data_srv, (&srv,), serves),
    ensures
        answers.announced().1 == serves.info().tcp_port,
        serves.info().tcp_port == srv@.tcp_addr.port_of(),
        answers.announced().0 == srv@.name,
        serves.info().data_name == srv@.file_name,
        serves.info().data_length == srv@.data_length,
        serves.info().encrypted == srv@.encrypted,
        answers.stays_alive() == srv@.stay_alive,
        serves.stays_alive() == srv@.stay_alive,
{
}

} // verus!
