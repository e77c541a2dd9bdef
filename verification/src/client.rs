//! Clients that send folders to a server.
//!
//! This module holds the first client, which only knew its server; the client
//! of [`client`] frames and sends files.
pub mod client;

use vstd::prelude::*;

verus! {

/// The first client: the server it sends to.
pub struct Client {
    server_ip: String,
    server_port: u32,
}

impl Client {
    /// A client for the server at `server_ip`, port `server_port`.
    pub fn init(server_ip: String, server_port: u32) -> (r: Self)
        ensures
            r.server_ip() == server_ip@,
            r.server_port() == server_port,
    {
        Self { server_ip: server_ip.clone(), server_port }
    }

    /// The server's address.
    pub closed spec fn server_ip(&self) -> Seq<char> {
        self.server_ip@
    }

    /// The server's port.
    pub closed spec fn server_port(&self) -> u32 {
        self.server_port
    }
}

} // verus!
