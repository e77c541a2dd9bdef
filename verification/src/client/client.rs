//! The client that sends every file of a folder to the server.
//!
//! Each file goes in a request of its own:
//!
//! ```text
//! | operation | path length | path | path CRC | data length | data | data CRC |
//! | 0x02      | 2 bytes     |      | 4 bytes  | 4 bytes     |      | 4 bytes  |
//! ```
//!
//! The header, up to the data length, is built here; the data and its CRC
//! follow as the file is read.
use vstd::prelude::*;
use vstd::utf8::valid_utf8;
use crate::checksum::{crc32, crc32_continue};
use crate::endian::{be_u32_at, u16_bytes, u16_to_be_bytes, u32_bytes, u32_to_be_bytes};
use crate::byte_buffer::append_bytes;
use crate::server::server::{
    lemma_path_segment_decodes, path_accepted, path_at, path_crc_at, path_len_at, path_segment,
    path_segment_in,
};
use crate::text::{decimal, join_address};

verus! {

/// The operation byte of a save-file request.
pub const SAVE_FILE_OPERATION: u8 = 2;

/// Why a file could not be sent.
#[derive(Debug, Clone, Copy, PartialEq, Eq)]
pub enum ClientError {
    /// The file is longer than a request can state (`u32::MAX` bytes).
    FileTooLarge { size: u64 },
}

/// The header of a save-file request for the path `path` and `length` bytes
/// of data.
pub open spec fn file_request_header(path: Seq<u8>, length: nat) -> Seq<u8> {
    seq![2u8] + path_segment(path) + u32_bytes(length as u32)
}

/// A whole save-file request: header, data, and the CRC-32 of the data.
pub open spec fn file_request(path: Seq<u8>, data: Seq<u8>) -> Seq<u8> {
    file_request_header(path, data.len()) + data + u32_bytes(crc32(data))
}

/// A client that sends to a server at `server_ip:server_port`.
pub struct Client {
    server_ip: String,
    server_port: u32,
}

impl Client {
    /// A client for the server at `server_ip`, port `server_port`.
    pub fn init(server_ip: String, server_port: u32) -> (r: Self)
        ensures
            r.server_ip() == server_ip@,
            r.server_port() == server_port,
    {
        Self { server_ip: server_ip.clone(), server_port }
    }

    /// The server's address.
    pub closed spec fn server_ip(&self) -> Seq<char> {
        self.server_ip@
    }

    /// The server's port.
    pub closed spec fn server_port(&self) -> u32 {
        self.server_port
    }

    /// The address `ip:port` to connect to.
    pub fn server_address(&self) -> (r: String)
        ensures
            r@ == self.server_ip() + seq![':'] + decimal(self.server_port() as nat),
    {
        join_address(self.server_ip.as_str(), self.server_port)
    }

    /// The length of `path` as two big-endian bytes.
    pub fn get_length_as_u16_bytes(path: Vec<u8>) -> (r: [u8; 2])
        requires
            path@.len() <= u16::MAX,
        ensures
            r@ == u16_bytes(path@.len() as u16),
    {
        u16_to_be_bytes(path.len() as u16)
    }

    /// The CRC-32 of `buf`.
    pub fn get_checksum_bytes(buf: Vec<u8>) -> (r: u32)
        ensures
            r == crc32(buf@),
    {
        crc32_continue(0, buf.as_slice())
    }

    /// The length of `path` as four big-endian bytes.
    pub fn get_length_as_u32_bytes(path: Vec<u8>) -> (r: [u8; 4])
        requires
            path@.len() <= u32::MAX,
        ensures
            r@ == u32_bytes(path@.len() as u32),
    {
        u32_to_be_bytes(path.len() as u32)
    }

    /// The header of the request that sends a file at `file_path` holding
    /// `file_length` bytes, or an error when the length does not fit in
    /// four bytes.
    pub fn file_request_header(file_path: &[u8], file_length: u64) -> (r: Result<
        Vec<u8>,
        ClientError,
    >)
        requires
            file_path@.len() <= u16::MAX,
        ensures
            match r {
                Ok(header) => file_length <= u32::MAX && header@ == file_request_header(
                    file_path@,
                    file_length as nat,
                ),
                Err(e) => file_length > u32::MAX && e == ClientError::FileTooLarge {
                    size: file_length,
                },
            },
    {
        let mut buf: Vec<u8> = Vec::new();
        buf.push(SAVE_FILE_OPERATION);
        let mut file_name_bytes: Vec<u8> = Vec::new();
        append_bytes(&mut file_name_bytes, file_path);
        let length_bytes = Self::get_length_as_u16_bytes(file_name_bytes.clone());
        append_bytes(&mut buf, length_bytes.as_slice());
        append_bytes(&mut buf, file_path);
        let checksum = Self::get_checksum_bytes(file_name_bytes);
        let checksum_bytes = u32_to_be_bytes(checksum);
        append_bytes(&mut buf, checksum_bytes.as_slice());
        if file_length > u32::MAX as u64 {
            return Err(ClientError::FileTooLarge { size: file_length });
        }
        let file_data_len = file_length as u32;
        let data_length_bytes = u32_to_be_bytes(file_data_len);
        append_bytes(&mut buf, data_length_bytes.as_slice());
        assert(buf@ =~= file_request_header(file_path@, file_length as nat));
        Ok(buf)
    }
}

/// The file data of a request as the client sends it: the pieces sent so far
/// and their running CRC-32, which follows the data when all is sent, so that
/// the header, the pieces and [`DataStream::checksum_bytes`] make up
/// [`file_request`] of the data sent.
pub struct DataStream {
    checksum: u32,
    sent: Ghost<Seq<u8>>,
}

impl DataStream {
    /// The data sent so far, in order.
    pub closed spec fn sent(&self) -> Seq<u8> {
        self.sent@
    }

    #[verifier::type_invariant]
    spec fn checksum_matches(&self) -> bool {
        self.checksum == crc32(self.sent@)
    }

    /// A stream that has sent nothing yet.
    pub fn new() -> (r: Self)
        ensures
            r.sent() == Seq::<u8>::empty(),
    {
        proof {
            crate::checksum::lemma_crc32_update_empty(0);
        }
        DataStream { checksum: 0, sent: Ghost(Seq::empty()) }
    }

    /// Records that `data` is sent after what was sent before.
    pub fn send(&mut self, data: &[u8])
        ensures
            final(self).sent() == old(self).sent() + data@,
    {
        proof {
            use_type_invariant(&*self);
            crate::checksum::lemma_crc32_update_concat(0, self.sent@, data@);
        }
        let checksum = crc32_continue(self.checksum, data);
        *self = DataStream { checksum, sent: Ghost(self.sent@ + data@) };
    }

    /// The four bytes that end the request: the big-endian CRC-32 of all data
    /// sent.
    pub fn checksum_bytes(&self) -> (r: [u8; 4])
        ensures
            r@ == u32_bytes(crc32(self.sent())),
    {
        proof {
            use_type_invariant(self);
        }
        u32_to_be_bytes(self.checksum)
    }
}

/// What the server reads from a request the client sends: the path segment
/// after the operation byte gives the path back and is accepted exactly when
/// the path is UTF-8; the data length, the data and the data checksum follow.
pub proof fn lemma_file_request_decodes(path: Seq<u8>, data: Seq<u8>)
    requires
        path.len() <= u16::MAX,
        data.len() <= u32::MAX,
    ensures
        ({
            let b = file_request(path, data);
            let l = path.len() as int;
            let d = data.len() as int;
            &&& b.len() == 15 + l + d
            &&& b[0] == SAVE_FILE_OPERATION
            &&& path_segment_in(b, 1, b.len() as int)
            &&& path_len_at(b, 1) == l
            &&& path_at(b, 1) == path
            &&& path_crc_at(b, 1) == crc32(path)
            &&& (path_accepted(b, 1) <==> valid_utf8(path))
            &&& be_u32_at(b, 7 + l) == d
            &&& b.subrange(11 + l, 11 + l + d) == data
            &&& be_u32_at(b, 11 + l + d) == crc32(data)
        }),
{
    let l = path.len() as int;
    let d = data.len() as int;
    let tail = u32_bytes(data.len() as u32) + data + u32_bytes(crc32(data));
    let b = file_request(path, data);
    assert(b =~= seq![2u8] + path_segment(path) + tail);
    lemma_path_segment_decodes(seq![2u8], path, tail);
    crate::endian::lemma_u32_bytes_value(data.len() as u32);
    crate::endian::lemma_u32_bytes_value(crc32(data));
    let lb = u32_bytes(data.len() as u32);
    let cb = u32_bytes(crc32(data));
    assert(b[7 + l] == lb[0]);
    assert(b[8 + l] == lb[1]);
    assert(b[9 + l] == lb[2]);
    assert(b[10 + l] == lb[3]);
    assert(b.subrange(11 + l, 11 + l + d) =~= data);
    assert(b[11 + l + d] == cb[0]);
    assert(b[12 + l + d] == cb[1]);
    assert(b[13 + l + d] == cb[2]);
    assert(b[14 + l + d] == cb[3]);
}

} // verus!
