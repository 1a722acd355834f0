//! What the program's arguments mean.

use crate::server::{
    default_settings, with_settings, BuildMode, ClientApprovalStrategy, FileSrvBuilder, HolePuncher,
    Setting, Settings,
};
use vstd::prelude::*;
use vstd::string::StringExecFns;

verus! {

/// The port of the broadcasts by which clients find servers.
pub const UDP_PORT: u16 = 42444;

/// The settings that the arguments of the server mode stand for.
pub open spec fn srv_settings(
    build: BuildMode,
    data_length: u64,
    no_encryption: bool,
    stayalive: bool,
    igd: bool,
) -> Settings {
    Settings {
        udp_port: 42444,
        stay_alive: stayalive,
        encryption: !no_encryption,
        holepunch: if igd {
            HolePuncher::IGD
        } else {
            HolePuncher::Off
        },
        client_approval_strategy: if !no_encryption && build is Production {
            ClientApprovalStrategy::Interactive
        } else {
            ClientApprovalStrategy::ApproveAll
        },
        ..default_settings(build, data_length)
    }
}

/// Sets up a server by the arguments of the server mode.
pub fn srv(
    build: BuildMode,
    data_length: u64,
    no_encryption: bool,
    stayalive: bool,
    igd: bool,
) -> (r: FileSrvBuilder)
    ensures
        r.settings() == srv_settings(build, data_length, no_encryption, stayalive, igd),
        r.settings().stay_alive == stayalive,
        r.settings().encryption == !no_encryption,
        r.settings().holepunch is IGD <==> igd,
        r.settings().holepunch is Off <==> !igd,
        r.settings().udp_port == 42444,
        r.settings().data_length == data_length,
{
    let holepuncher: HolePuncher = if igd {
        HolePuncher::IGD
    } else {
        HolePuncher::Off
    };
    FileSrvBuilder::new(data_length, build).set_udp_port(UDP_PORT).set_stayalive(
        stayalive,
    ).set_encryption(!no_encryption).set_holepuncher(holepuncher)
}

/// How a client comes to its server.
#[derive(Debug)]
pub enum FetchFrom {
    /// It connects to this address.
    Url(String),
    /// It looks for servers by a broadcast to this port.
    Broadcast(u16),
}

/// Decides how a client comes to its server.
pub fn fetch_from(server_url: Option<String>) -> (r: FetchFrom)
    ensures
        match server_url {
            Some(url) => r == FetchFrom::Url(url),
            None => r == FetchFrom::Broadcast(42444),
        },
{
    match server_url {
        Some(url) => FetchFrom::Url(url),
        None => FetchFrom::Broadcast(UDP_PORT),
    }
}

/// Where a download is saved: where the user said, or in the current directory.
pub fn fetch_path(file: Option<String>) -> (r: String)
    ensures
        r@ == match file {
            Some(path) => path@,
            None => "."@,
        },
{
    match file {
        Some(path) => path,
        None => String::from_str("."),
    }
}

/// Each argument of the server mode governs its own setting, and all else is as it is by default. The
/// broadcasts go to the port that clients use.
pub proof fn law_arguments_govern_their_settings(
    build: BuildMode,
    data_length: u64,
    no_encryption: bool,
    stayalive: bool,
    igd: bool,
)
    ensures
        ({
            let settings = srv_settings(build, data_length, no_encryption, stayalive, igd);
            &&& settings.stay_alive <==> stayalive
            &&& settings.encryption <==> !no_encryption
            &&& settings.holepunch is IGD <==> igd
            &&& settings.holepunch is Off <==> !igd
            &&& settings.udp_port == 42444
            &&& settings.data_length == data_length
            &&& settings.build == build
            &&& settings.listen_addr == default_settings(build, data_length).listen_addr
            &&& settings.client_approval_strategy is Interactive <==> build is Production
                && !no_encryption
            &&& settings.udp_port == UDP_PORT
        }),
{
}

/// The arguments of the server mode set four things, one after the other.
pub proof fn law_arguments_are_settings(
    build: BuildMode,
    data_length: u64,
    no_encryption: bool,
    stayalive: bool,
    igd: bool,
)
    ensures
        srv_settings(build, data_length, no_encryption, stayalive, igd) == with_settings(
            default_settings(build, data_length),
            seq![
                Setting::UdpPort(42444),
                Setting::StayAlive(stayalive),
                Setting::Encryption(!no_encryption),
                Setting::HolePuncher(
                    if igd {
                        HolePuncher::IGD
                    } else {
                        HolePuncher::Off
                    },
                ),
            ],
        ),
{
    let puncher = if igd {
        HolePuncher::IGD
    } else {
        HolePuncher::Off
    };
    let first = seq![Setting::UdpPort(42444)];
    let second = first.push(Setting::StayAlive(stayalive));
    let third = second.push(Setting::Encryption(!no_encryption));
    let all = seq![
        Setting::UdpPort(42444),
        Setting::StayAlive(stayalive),
        Setting::Encryption(!no_encryption),
        Setting::HolePuncher(puncher),
    ];
    reveal_with_fuel(with_settings, 5);
    assert(all.drop_last() =~= third);
    assert(third.drop_last() =~= second);
    assert(second.drop_last() =~= first);
    assert(first.drop_last() =~= Seq::<Setting>::empty());
}

/// An argument that changes leaves the settings of the others as they are.
pub proof fn law_arguments_do_not_meddle(
    build: BuildMode,
    data_length: u64,
    first: (bool, bool, bool),
    second: (bool, bool, bool),
)
    ensures
        ({
            let one = srv_settings(build, data_length, first.0, first.1, first.2);
            let other = srv_settings(build, data_length, second.0, second.1, second.2);
            &&& first.0 == second.0 <==> one.encryption == other.encryption
            &&& first.0 == second.0 ==> one.client_approval_strategy
                == other.client_approval_strategy
            &&& first.1 == second.1 <==> one.stay_alive == other.stay_alive
            &&& first.2 == second.2 <==> one.holepunch == other.holepunch
            &&& one.udp_port == other.udp_port
            &&& one.data_length == other.data_length
            &&& one.listen_addr == other.listen_addr
        }),
{
}

/// Servers and clients that are told nothing else meet at one port: a server that is set up by its
/// arguments listens where a client that was given no address sends its broadcast. A client that was given
/// an address, whichever it is, connects to that and sends none.
pub proof fn law_server_and_client_meet(
    build: BuildMode,
    data_length: u64,
    flags: (bool, bool, bool),
    server: FileSrvBuilder,
    url: Option<String>,
    from: FetchFrom,
)
    requires
        call_ensures(srv, (build, data_length, flags.0, flags.1, flags.2), server),
        call_ensures(fetch_from, (url,), from),
    ensures
        match url {
            Some(address) => from == FetchFrom::Url(address),
            None => from matches FetchFrom::Broadcast(port) && port == server.settings().udp_port
                && port == 42444,
        },
{
}

/// A download goes where the user said, and into the current directory if the user said nothing.
pub proof fn law_download_goes_where_the_user_said(file: Option<String>, path: String)
    requires
        call_ensures(fetch_path, (file,), path),
    ensures
        file matches Some(given) ==> path@ == given@,
        file is None ==> path@.len() == 1 && path@[0] == '.',
{
    reveal_strlit(".");
}

} // verus!
