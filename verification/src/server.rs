//! Servers that receive folders and files from clients.
//!
//! This module holds the first server, which only creates folders; the
//! server of [`server`] also saves files. A create-folder request is laid out
//! as
//!
//! ```text
//! | operation | length  | folder name    | checksum |
//! | 1 byte    | 2 bytes | length bytes   | 4 bytes  |
//! ```
pub mod read_log;
pub mod server;

use vstd::prelude::*;
use vstd::utf8::{decode_utf8, valid_utf8};
pub use crate::server::server::ReadFromStream;
use crate::checksum::crc32;
use crate::server::read_log::{all_gave_bytes, end_after, ended, extends, failed, reads_in_order, reads_since};
use crate::server::server::{
    missing, path_at, path_crc_at, path_len_at, path_segment_in, read_path_segment,
    ObservedStream, ServerError,
};
use crate::text::{decimal, join_address};

verus! {

/// The folder-creating server.
pub struct Server {
    port: u32,
    ip: String,
}

impl Server {
    /// A server for the address `ip`, port `port`.
    pub fn init(ip: String, port: u32) -> (r: Self)
        ensures
            r.ip() == ip@,
            r.port() == port,
    {
        Self { ip, port }
    }

    /// The address the server listens on.
    pub closed spec fn ip(&self) -> Seq<char> {
        self.ip@
    }

    /// The port the server listens on.
    pub closed spec fn port(&self) -> u32 {
        self.port
    }

    /// The address `ip:port` to listen on.
    pub fn server_address(&self) -> (r: String)
        ensures
            r@ == self.ip() + seq![':'] + decimal(self.port() as nat),
    {
        join_address(self.ip.as_str(), self.port)
    }

    /// Reads a create-folder request at `current_processed_index` (after its
    /// operation byte), from the stream when the buffer does not hold it yet.
    /// Returns how far the buffer is processed, how far it is read, and the
    /// folder to create: the received name when its checksum matches, none
    /// when it does not. The name must be UTF-8. Nothing is read when the
    /// buffer already holds the request; otherwise each read goes to the end
    /// of the bytes read so far, and only while the request is incomplete.
    pub fn create_folder<T: ReadFromStream>(
        socket: &mut ObservedStream<T>,
        buf: &mut Vec<u8>,
        valid_read_index: usize,
        current_processed_index: usize,
    ) -> (r: Result<(usize, usize, Option<String>), ServerError>)
        requires
            current_processed_index <= valid_read_index <= old(buf)@.len(),
        ensures
            final(buf)@.len() >= valid_read_index,
            final(buf)@.take(valid_read_index as int) == old(buf)@.take(valid_read_index as int),
            match r {
                Ok((processed, read, folder)) => {
                    let b = final(buf)@;
                    let s = current_processed_index as int;
                    &&& valid_read_index <= read <= b.len()
                    &&& processed == s + 6 + path_len_at(b, s)
                    &&& processed <= read
                    &&& valid_utf8(path_at(b, s))
                    &&& (folder is Some <==> path_crc_at(b, s) == crc32(path_at(b, s)))
                    &&& folder matches Some(name) ==> name@ == decode_utf8(path_at(b, s))
                },
                Err(ServerError::InvalidPathUtf8) => {
                    &&& current_processed_index + 2 + path_len_at(
                        final(buf)@,
                        current_processed_index as int,
                    ) <= final(buf)@.len()
                    &&& !valid_utf8(path_at(final(buf)@, current_processed_index as int))
                },
                Err(ServerError::MissingPath { read }) => read < path_len_at(
                    final(buf)@,
                    current_processed_index as int,
                ),
                Err(ServerError::MissingChecksum { read }) => read < 4,
                Err(e) => e is MissingPathLength || e is StreamRead,
            },
            extends(old(socket).reads(), final(socket).reads()),
            ({
                let new = reads_since(old(socket).reads(), final(socket).reads());
                let s = current_processed_index as int;
                &&& reads_in_order(
                    new,
                    valid_read_index as int,
                    s + 6 + path_len_at(final(buf)@, s),
                )
                &&& r matches Ok((_, read, _)) ==> {
                    &&& all_gave_bytes(new)
                    &&& read == end_after(new, valid_read_index as int, new.len() as int)
                }
                &&& (missing(r) <==> ended(new))
                &&& r matches Err(ServerError::StreamRead(_)) ==> failed(new)
                &&& !ended(new) && !failed(new) ==> (r is Ok <==> valid_utf8(path_at(final(buf)@, s)))
            }),
            path_segment_in(old(buf)@, current_processed_index as int, valid_read_index as int) ==> {
                &&& final(buf)@ == old(buf)@
                &&& *final(socket) == *old(socket)
                &&& (r is Ok <==> valid_utf8(path_at(old(buf)@, current_processed_index as int)))
                &&& r matches Ok((_, read, _)) ==> read == valid_read_index
            },
    {
        match read_path_segment(socket, buf, valid_read_index, current_processed_index) {
            Ok((state, name, received, expected)) => {
                let folder = if expected == received {
                    Some(name)
                } else {
                    None
                };
                Ok((state.start_index, state.end_index, folder))
            },
            Err(e) => Err(e),
        }
    }
}

/// What the first server does with a request, by its first byte.
#[derive(Debug, Clone, Copy, PartialEq, Eq)]
pub enum Request {
    /// Byte 1: create a folder.
    CreateFolder,
    /// Byte 2: save a file, which this server does not do.
    SaveFile,
    /// Anything else.
    Unknown,
}

/// The request that the first byte stands for: 1 asks to create a folder,
/// 2 to save a file, and any other byte is unknown.
pub fn request_of(first: u8) -> (r: Request)
    ensures
        r == (if first == 1 {
            Request::CreateFolder
        } else if first == 2 {
            Request::SaveFile
        } else {
            Request::Unknown
        }),
{
    if first == 1 {
        Request::CreateFolder
    } else if first == 2 {
        Request::SaveFile
    } else {
        Request::Unknown
    }
}

} // verus!
