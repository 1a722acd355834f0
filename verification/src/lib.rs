//! Verified core of hubtain, a small file transfer server and client: the wire formats, the
//! encrypted streams, the discovery and serving rules and the state of the terminal interface.
//! Sockets, files, processes and the terminal itself belong to the program around it.

pub mod wire;
pub mod text;
pub mod codec;
pub mod crypto;
pub mod models;
pub mod sealed_stream;
pub mod encrypted_stream;
pub mod client_approver;
pub mod client;
pub mod file_download;
pub mod net;
pub mod broadcast_addr_picker;
pub mod igd;
pub mod mnemonic;
pub mod progresswriter;
pub mod ossuary_stream;
pub mod server;
pub mod tui;
pub mod cli;
