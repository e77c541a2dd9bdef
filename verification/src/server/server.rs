//! The file-receiving server: it reads a frame from a stream into a buffer,
//! validates it and hands the decoded path and file data to its caller.
//!
//! A request to save a file is laid out as
//!
//! ```text
//! | path length | path bytes  | path CRC | data length | data bytes  | data CRC |
//! | 2 bytes     | path length | 4 bytes  | 4 bytes     | data length | 4 bytes  |
//! ```
//!
//! with every number big-endian. The caller has already read the operation
//! byte in front of it.
use vstd::prelude::*;
use vstd::slice::slice_subrange;
use vstd::utf8::{decode_utf8, valid_utf8};
use crate::checksum::{crc32, crc32_continue, lemma_crc32_update_empty};
use crate::endian::{be_u16_at, be_u32_at, read_u16_be, read_u32_be};
use crate::text::{join_address, utf8_string, decimal};
use crate::server::read_log::{
    all_gave_bytes, count_of, end_after, ended, extends, failed, gave_bytes, lemma_extends_chain,
    lemma_all_gave_bytes, lemma_extends_push, lemma_extends_refl, lemma_reads_chain, lemma_reads_push, reads_in_order,
    reads_since,
};

verus! {

#[verifier::external_type_specification]
#[verifier::external_body]
pub struct ExIoError(std::io::Error);

/// A source of bytes, such as a TCP stream, that writes what it reads into a
/// buffer from a given index.
pub trait ReadFromStream {
    /// Reads bytes into `buf` from `start_index` on and returns how many were
    /// read; 0 means the stream has ended. An implementation leaves the bytes
    /// before `start_index` as they were, and the bytes it reports lie within
    /// the buffer.
    fn read_data(&mut self, buf: &mut Vec<u8>, start_index: usize) -> (r: Result<
        usize,
        std::io::Error,
    >)
        requires
            start_index <= old(buf)@.len(),
        ensures
            final(buf)@.len() >= start_index,
            final(buf)@.take(start_index as int) == old(buf)@.take(start_index as int),
            r matches Ok(n) ==> start_index + n <= final(buf)@.len(),
    ;
}

/// A stream that the decoders read through, with a record of every read
/// made through it: the index it wrote from and the count it returned (none
/// when it failed).
pub struct ObservedStream<T> {
    stream: T,
    reads: Ghost<Seq<(usize, Option<usize>)>>,
}

impl<T: ReadFromStream> ObservedStream<T> {
    /// The reads made through this value, in order.
    pub closed spec fn reads(&self) -> Seq<(usize, Option<usize>)> {
        self.reads@
    }

    /// The stream read from.
    pub closed spec fn stream(&self) -> T {
        self.stream
    }

    /// `stream`, before any read through it.
    pub fn new(stream: T) -> (r: Self)
        ensures
            r.reads() == Seq::<(usize, Option<usize>)>::empty(),
            r.stream() == stream,
    {
        ObservedStream { stream, reads: Ghost(Seq::empty()) }
    }

    /// The stream itself, for the caller to use directly; the record of reads
    /// stays as it was.
    pub fn inner_mut(&mut self) -> (r: &mut T)
        ensures
            *r == old(self).stream(),
            final(self).stream() == *final(r),
            final(self).reads() == old(self).reads(),
    {
        &mut self.stream
    }

    /// The stream itself, given back.
    pub fn into_inner(self) -> (r: T)
        ensures
            r == self.stream(),
    {
        self.stream
    }

    /// Reads into `buf` from `start_index` on with [`ReadFromStream::read_data`]
    /// and records the read.
    pub fn read(&mut self, buf: &mut Vec<u8>, start_index: usize) -> (r: Result<
        usize,
        std::io::Error,
    >)
        requires
            start_index <= old(buf)@.len(),
        ensures
            final(buf)@.len() >= start_index,
            final(buf)@.take(start_index as int) == old(buf)@.take(start_index as int),
            r matches Ok(n) ==> start_index + n <= final(buf)@.len(),
            final(self).reads() == old(self).reads().push(
                (
                    start_index,
                    match r {
                        Ok(n) => Some(n),
                        Err(_) => None,
                    },
                ),
            ),
    {
        let r = self.stream.read_data(buf, start_index);
        let ghost count = match r {
            Ok(n) => Some(n),
            Err(_) => None,
        };
        self.reads = Ghost(self.reads@.push((start_index, count)));
        r
    }
}

/// Where a decoder stands in its buffer: bytes before `start_index` are
/// processed, bytes from `start_index` to `end_index` are read but not yet
/// processed.
#[derive(Debug, Clone, Copy, PartialEq, Eq)]
pub struct BufferState {
    pub start_index: usize,
    pub end_index: usize,
}

/// Why a request could not be decoded.
#[derive(Debug)]
pub enum ServerError {
    /// The stream failed while reading.
    StreamRead(std::io::Error),
    /// The stream ended before the two bytes of the path length.
    MissingPathLength,
    /// The stream ended inside the path; `read` path bytes had arrived.
    MissingPath { read: usize },
    /// The path is not valid UTF-8.
    InvalidPathUtf8,
    /// The stream ended inside a checksum; `read` of its bytes had arrived.
    MissingChecksum { read: usize },
    /// The checksum sent after the path is not the CRC-32 of the path.
    PathChecksumMismatch { received: u32, expected: u32 },
    /// The stream ended before the four bytes of the data length.
    MissingFileLength,
    /// The stream ended inside the file data; `read` unprocessed bytes were
    /// in the buffer (none, as every piece is handed out before reading).
    MissingFileData { read: usize },
    /// The checksum sent after the data is not the CRC-32 of the data.
    FileChecksumMismatch { expected: u32, received: u32 },
}

/// Whether the error is that the stream ended before the bytes it was read
/// for.
pub open spec fn is_missing(e: ServerError) -> bool {
    match e {
        ServerError::MissingPathLength => true,
        ServerError::MissingPath { .. } => true,
        ServerError::MissingChecksum { .. } => true,
        ServerError::MissingFileLength => true,
        ServerError::MissingFileData { .. } => true,
        _ => false,
    }
}

/// Whether the result is an error of [`is_missing`].
pub open spec fn missing<X>(r: Result<X, ServerError>) -> bool {
    match r {
        Err(e) => is_missing(e),
        Ok(_) => false,
    }
}

/// How reading up to a needed amount of bytes failed.
pub(crate) enum FillError {
    Ended { available: usize },
    Read(std::io::Error),
}

/// Where a decoder that needs `need` bytes after `start`, with bytes read up
/// to `end`, reads next: at `end`, the end of the bytes read so far, while
/// too few bytes are there; nowhere once enough are.
pub fn read_index(start: usize, end: usize, need: usize) -> (r: Option<usize>)
    requires
        start <= end,
    ensures
        r == (if end - start < need {
            Some(end)
        } else {
            None
        }),
{
    if end - start < need {
        Some(end)
    } else {
        None
    }
}

/// What a read that returned `n` at `end` leaves, while bytes after `start`
/// are awaited: the new end of the read bytes, or, when the read gave no
/// bytes (the stream has ended), how many bytes after `start` had arrived.
pub fn after_read(start: usize, end: usize, n: usize) -> (r: Result<usize, usize>)
    requires
        start <= end,
        end + n <= usize::MAX,
    ensures
        r == (if n == 0 {
            Err::<usize, usize>((end - start) as usize)
        } else {
            Ok::<usize, usize>((end + n) as usize)
        }),
{
    if n == 0 {
        Err(end - start)
    } else {
        Ok(end + n)
    }
}

/// Reads from `socket` until the buffer holds at least `need` bytes after
/// `start`, and returns where the read bytes now end. Each read goes to the
/// index [`read_index`] gives, the end of the bytes read so far, and only
/// while too few bytes are there; [`after_read`] says what it leaves.
/// Nothing is read when the bytes are there already.
#[verifier::rlimit(50)]
pub(crate) fn fill<T: ReadFromStream>(
    socket: &mut ObservedStream<T>,
    buf: &mut Vec<u8>,
    start: usize,
    end: usize,
    need: usize,
) -> (r: Result<usize, FillError>)
    requires
        start <= end <= old(buf)@.len(),
    ensures
        final(buf)@.len() >= end,
        final(buf)@.take(end as int) == old(buf)@.take(end as int),
        extends(old(socket).reads(), final(socket).reads()),
        ({
            let new = reads_since(old(socket).reads(), final(socket).reads());
            &&& reads_in_order(new, end as int, start + need)
            &&& r matches Ok(e) ==> {
                &&& e == end_after(new, end as int, new.len() as int)
                &&& all_gave_bytes(new)
                &&& !ended(new) && !failed(new)
                &&& end <= e <= final(buf)@.len()
                &&& e - start >= need
            }
            &&& r matches Err(FillError::Ended { available }) ==> ended(new) && available
                == new.last().0 - start && available < need
            &&& r matches Err(FillError::Read(_)) ==> failed(new)
        }),
        end - start >= need ==> (r matches Ok(e) && e == end) && final(buf)@ == old(buf)@
            && *final(socket) == *old(socket),
{
    let mut e = end;
    proof {
        lemma_extends_refl(socket.reads());
    }
    loop
        invariant
            start <= end <= e <= buf@.len(),
            buf@.take(end as int) == old(buf)@.take(end as int),
            e == end ==> buf@ == old(buf)@ && *socket == *old(socket),
            end - start >= need ==> e == end,
            extends(old(socket).reads(), socket.reads()),
            ({
                let new = reads_since(old(socket).reads(), socket.reads());
                &&& reads_in_order(new, end as int, start + need)
                &&& all_gave_bytes(new)
                &&& e == end_after(new, end as int, new.len() as int)
            }),
        ensures
            start <= end <= e <= buf@.len(),
            buf@.take(end as int) == old(buf)@.take(end as int),
            e - start >= need,
            end - start >= need ==> e == end && buf@ == old(buf)@ && *socket == *old(socket),
            extends(old(socket).reads(), socket.reads()),
            ({
                let new = reads_since(old(socket).reads(), socket.reads());
                &&& reads_in_order(new, end as int, start + need)
                &&& all_gave_bytes(new)
                &&& e == end_after(new, end as int, new.len() as int)
            }),
        decreases if e - start >= need {
            0
        } else {
            need - (e - start)
        },
    {
        let at = match read_index(start, e, need) {
            None => break,
            Some(at) => at,
        };
        let ghost before = buf@;
        let ghost log_before = socket.reads();
        let res = socket.read(buf, at);
        let len = buf.len();
        proof {
            assert(buf@.take(end as int) =~= buf@.take(e as int).take(end as int));
            assert(before.take(end as int) =~= before.take(e as int).take(end as int));
            let read = (
                at,
                match res {
                    Ok(n) => Some(n),
                    Err(_) => None,
                },
            );
            let prev = reads_since(old(socket).reads(), log_before);
            lemma_extends_push(old(socket).reads(), log_before, read);
            lemma_reads_push(prev, read, end as int);
            assert(prev.push(read).last() == read);
            assert forall|i: int| 0 <= i < prev.push(read).len() implies (#[trigger] prev.push(
                read,
            )[i]).0 < start + need by {
                if i < prev.len() {
                    assert(prev.push(read)[i] == prev[i]);
                }
            }
            assert forall|i: int| 0 <= i < prev.push(read).len() - 1 implies gave_bytes(
                #[trigger] prev.push(read)[i],
            ) by {
                assert(prev.push(read)[i] == prev[i]);
            }
            if res is Ok && count_of(read) > 0 {
                assert forall|i: int| 0 <= i < prev.push(read).len() implies gave_bytes(
                    #[trigger] prev.push(read)[i],
                ) by {
                    if i < prev.len() {
                        assert(prev.push(read)[i] == prev[i]);
                    }
                }
            }
        }
        match res {
            Err(x) => return Err(FillError::Read(x)),
            Ok(n) => {
                assert(e + n <= len);
                match after_read(start, e, n) {
                    Ok(next) => {
                        e = next;
                    },
                    Err(available) => return Err(FillError::Ended { available }),
                }
            },
        }
    }
    proof {
        lemma_all_gave_bytes(reads_since(old(socket).reads(), socket.reads()));
    }
    Ok(e)
}

/// Two sequences that agree up to `n` agree at every index below `n`.
pub(crate) proof fn lemma_take_agree(a: Seq<u8>, b: Seq<u8>, n: int, i: int)
    requires
        a.take(n) == b.take(n),
        0 <= i < n <= a.len(),
        n <= b.len(),
    ensures
        a[i] == b[i],
{
    assert(a.take(n)[i] == a[i]);
    assert(b.take(n)[i] == b[i]);
}

/// The length field of the path segment that starts at `s`.
pub open spec fn path_len_at(b: Seq<u8>, s: int) -> int {
    be_u16_at(b, s)
}

/// The path bytes of the path segment that starts at `s`.
pub open spec fn path_at(b: Seq<u8>, s: int) -> Seq<u8> {
    b.subrange(s + 2, s + 2 + path_len_at(b, s))
}

/// The checksum field of the path segment that starts at `s`.
pub open spec fn path_crc_at(b: Seq<u8>, s: int) -> int {
    be_u32_at(b, s + 2 + path_len_at(b, s))
}

/// Whether the bytes of `b` from `s` to `e` hold a whole path segment.
pub open spec fn path_segment_in(b: Seq<u8>, s: int, e: int) -> bool {
    e - s >= 2 && e - s >= 6 + path_len_at(b, s)
}

/// Whether the path segment at `s` is accepted: its path is UTF-8 and its
/// checksum is the CRC-32 of the path.
pub open spec fn path_accepted(b: Seq<u8>, s: int) -> bool {
    valid_utf8(path_at(b, s)) && path_crc_at(b, s) == crc32(path_at(b, s))
}

/// Reads the four checksum bytes at `*start_index`, from the stream if the
/// buffer does not hold them yet, and moves `*start_index` past them.
pub fn read_checksum<T: ReadFromStream>(
    end_index: &mut usize,
    start_index: &mut usize,
    socket: &mut ObservedStream<T>,
    buf: &mut Vec<u8>,
) -> (r: Result<u32, ServerError>)
    requires
        *old(start_index) <= *old(end_index) <= old(buf)@.len(),
    ensures
        final(buf)@.len() >= *old(end_index),
        final(buf)@.take(*old(end_index) as int) == old(buf)@.take(*old(end_index) as int),
        r matches Ok(c) ==> {
            &&& *final(start_index) == *old(start_index) + 4
            &&& *old(end_index) <= *final(end_index) <= final(buf)@.len()
            &&& *final(start_index) <= *final(end_index)
            &&& c == be_u32_at(final(buf)@, *old(start_index) as int)
        },
        r matches Err(e) ==> e is MissingChecksum || e is StreamRead,
        r matches Err(ServerError::MissingChecksum { read }) ==> read < 4,
        extends(old(socket).reads(), final(socket).reads()),
        ({
            let new = reads_since(old(socket).reads(), final(socket).reads());
            &&& reads_in_order(new, *old(end_index) as int, *old(start_index) + 4)
            &&& r is Ok ==> all_gave_bytes(new) && !ended(new) && *final(end_index) == end_after(
                new,
                *old(end_index) as int,
                new.len() as int,
            )
            &&& (missing(r) <==> ended(new))
            &&& r matches Err(ServerError::StreamRead(_)) ==> failed(new)
            &&& !ended(new) && !failed(new) ==> r is Ok
        }),
        *old(end_index) - *old(start_index) >= 4 ==> {
            &&& r is Ok
            &&& final(buf)@ == old(buf)@
            &&& *final(socket) == *old(socket)
            &&& *final(end_index) == *old(end_index)
        },
{
    let checksum_bytes_length: usize = 4;
    let e = match fill(socket, buf, *start_index, *end_index, checksum_bytes_length) {
        Ok(e) => e,
        Err(FillError::Ended { available }) => {
            return Err(ServerError::MissingChecksum { read: available });
        },
        Err(FillError::Read(x)) => return Err(ServerError::StreamRead(x)),
    };
    *end_index = e;
    let s = *start_index;
    let field = read_u32_be(slice_subrange(buf.as_slice(), s, s + checksum_bytes_length));
    let no_bytes: [u8; 0] = [];
    // The received value passes through a hasher that is fed nothing.
    let received = crc32_continue(field, no_bytes.as_slice());
    proof {
        assert(no_bytes@ =~= Seq::<u8>::empty());
        lemma_crc32_update_empty(field);
    }
    *start_index = s + checksum_bytes_length;
    Ok(received)
}

/// The file-receiving server.
pub struct Server {
    port: u32,
    ip: String,
}

impl Server {
    /// A server for the address `ip`, port `port`.
    pub fn init(ip: String, port: u32) -> (r: Self)
        ensures
            r.ip() == ip@,
            r.port() == port,
    {
        Self { ip, port }
    }

    /// The address the server listens on.
    pub closed spec fn ip(&self) -> Seq<char> {
        self.ip@
    }

    /// The port the server listens on.
    pub closed spec fn port(&self) -> u32 {
        self.port
    }

    /// The address `ip:port` to listen on.
    pub fn server_address(&self) -> (r: String)
        ensures
            r@ == self.ip() + seq![':'] + decimal(self.port() as nat),
    {
        join_address(self.ip.as_str(), self.port)
    }

    /// Reads the path segment of a request at `start_index`, from the stream
    /// when the buffer does not hold it yet, and returns the buffer state after
    /// it with the path. The path must be UTF-8 and its checksum must match.
    /// Nothing is read when the buffer already holds the segment; otherwise
    /// each read goes where [`read_index`] says and [`after_read`] says what
    /// it leaves.
    pub fn read_file_path<T: ReadFromStream>(
        socket: &mut ObservedStream<T>,
        buf: &mut Vec<u8>,
        end_index: usize,
        start_index: usize,
    ) -> (r: Result<(BufferState, String), ServerError>)
        requires
            start_index <= end_index <= old(buf)@.len(),
        ensures
            final(buf)@.len() >= end_index,
            final(buf)@.take(end_index as int) == old(buf)@.take(end_index as int),
            match r {
                Ok((st, path)) => {
                    let b = final(buf)@;
                    &&& end_index <= st.end_index <= b.len()
                    &&& st.start_index == start_index + 6 + path_len_at(b, start_index as int)
                    &&& st.start_index <= st.end_index
                    &&& path_accepted(b, start_index as int)
                    &&& path@ == decode_utf8(path_at(b, start_index as int))
                },
                Err(ServerError::InvalidPathUtf8) => {
                    &&& start_index + 2 + path_len_at(final(buf)@, start_index as int)
                        <= final(buf)@.len()
                    &&& !valid_utf8(path_at(final(buf)@, start_index as int))
                },
                Err(ServerError::PathChecksumMismatch { received, expected }) => {
                    let b = final(buf)@;
                    &&& start_index + 6 + path_len_at(b, start_index as int) <= b.len()
                    &&& valid_utf8(path_at(b, start_index as int))
                    &&& received == path_crc_at(b, start_index as int)
                    &&& expected == crc32(path_at(b, start_index as int))
                    &&& received != expected
                },
                Err(ServerError::MissingPath { read }) => read < path_len_at(
                    final(buf)@,
                    start_index as int,
                ),
                Err(ServerError::MissingChecksum { read }) => read < 4,
                Err(e) => e is MissingPathLength || e is StreamRead,
            },
            extends(old(socket).reads(), final(socket).reads()),
            ({
                let new = reads_since(old(socket).reads(), final(socket).reads());
                let s = start_index as int;
                &&& reads_in_order(new, end_index as int, s + 6 + path_len_at(final(buf)@, s))
                &&& r matches Ok((st, _)) ==> {
                    &&& all_gave_bytes(new)
                    &&& !ended(new)
                    &&& st.end_index == end_after(new, end_index as int, new.len() as int)
                }
                &&& (missing(r) <==> ended(new))
                &&& r matches Err(ServerError::StreamRead(_)) ==> failed(new)
                &&& !ended(new) && !failed(new) ==> (r is Ok <==> path_accepted(
                    final(buf)@,
                    s,
                ))
            }),
            path_segment_in(old(buf)@, start_index as int, end_index as int) ==> {
                &&& final(buf)@ == old(buf)@
                &&& *final(socket) == *old(socket)
                &&& (r is Ok <==> path_accepted(old(buf)@, start_index as int))
                &&& r matches Ok((st, _)) ==> st.end_index == end_index
                &&& r matches Err(e) ==> (e is InvalidPathUtf8 || e is PathChecksumMismatch)
            },
    {
        match read_path_segment(socket, buf, end_index, start_index) {
            Ok((state, path, received, expected)) => {
                if expected == received {
                    Ok((state, path))
                } else {
                    Err(ServerError::PathChecksumMismatch { received, expected })
                }
            },
            Err(e) => Err(e),
        }
    }
}

/// Reads the path segment at `start_index`, from the stream when the buffer
/// does not hold it yet: its length, its path, which must be UTF-8, and the
/// checksum that follows. Returns the buffer state after the segment, the
/// path, the checksum received and the CRC-32 of the path. Nothing is read
/// when the buffer already holds the segment.
#[verifier::rlimit(50)]
pub fn read_path_segment<T: ReadFromStream>(
    socket: &mut ObservedStream<T>,
    buf: &mut Vec<u8>,
    end_index: usize,
    start_index: usize,
) -> (r: Result<(BufferState, String, u32, u32), ServerError>)
    requires
        start_index <= end_index <= old(buf)@.len(),
    ensures
        final(buf)@.len() >= end_index,
        final(buf)@.take(end_index as int) == old(buf)@.take(end_index as int),
        match r {
            Ok((st, path, received, expected)) => {
                let b = final(buf)@;
                let s = start_index as int;
                &&& end_index <= st.end_index <= b.len()
                &&& st.start_index == s + 6 + path_len_at(b, s)
                &&& st.start_index <= st.end_index
                &&& valid_utf8(path_at(b, s))
                &&& path@ == decode_utf8(path_at(b, s))
                &&& received == path_crc_at(b, s)
                &&& expected == crc32(path_at(b, s))
            },
            Err(ServerError::InvalidPathUtf8) => {
                &&& start_index + 2 + path_len_at(final(buf)@, start_index as int)
                    <= final(buf)@.len()
                &&& !valid_utf8(path_at(final(buf)@, start_index as int))
            },
            Err(ServerError::MissingPath { read }) => read < path_len_at(
                final(buf)@,
                start_index as int,
            ),
            Err(ServerError::MissingChecksum { read }) => read < 4,
            Err(e) => e is MissingPathLength || e is StreamRead,
        },
        extends(old(socket).reads(), final(socket).reads()),
        ({
            let new = reads_since(old(socket).reads(), final(socket).reads());
            let s = start_index as int;
            &&& reads_in_order(new, end_index as int, s + 6 + path_len_at(final(buf)@, s))
            &&& r matches Ok((st, _, _, _)) ==> {
                &&& all_gave_bytes(new)
                &&& !ended(new)
                &&& st.end_index == end_after(new, end_index as int, new.len() as int)
            }
            &&& (missing(r) <==> ended(new))
            &&& r matches Err(ServerError::StreamRead(_)) ==> failed(new)
            &&& !ended(new) && !failed(new) ==> (r is Ok <==> valid_utf8(path_at(final(buf)@, s)))
        }),
        path_segment_in(old(buf)@, start_index as int, end_index as int) ==> {
            &&& final(buf)@ == old(buf)@
            &&& *final(socket) == *old(socket)
            &&& (r is Ok <==> valid_utf8(path_at(old(buf)@, start_index as int)))
            &&& r matches Ok((st, _, _, _)) ==> st.end_index == end_index
            &&& r matches Err(e) ==> e is InvalidPathUtf8
        },
{
    let mut end = end_index;
    let mut start = start_index;
    let data_length_bytes: usize = 2;
    let ghost s0 = socket.reads();
    let filled = fill(socket, buf, start, end, data_length_bytes);
    let ghost s1 = socket.reads();
    let ghost a = reads_since(s0, s1);
    end = match filled {
        Ok(e) => e,
        Err(FillError::Ended { .. }) => return Err(ServerError::MissingPathLength),
        Err(FillError::Read(x)) => return Err(ServerError::StreamRead(x)),
    };
    let ghost b1 = buf@;
    let path_length = read_u16_be(slice_subrange(buf.as_slice(), start, start + 2)) as usize;
    assert(path_length == path_len_at(b1, start_index as int));
    start = start + data_length_bytes;
    let end1 = end;
    let filled = fill(socket, buf, start, end, path_length);
    let ghost b2 = buf@;
    let ghost s2 = socket.reads();
    let ghost bb = reads_since(s1, s2);
    let ghost l = path_len_at(b1, start_index as int);
    proof {
        lemma_take_agree(b2, b1, end1 as int, start_index as int);
        lemma_take_agree(b2, b1, end1 as int, start_index + 1);
        lemma_extends_chain(s0, s1, s2);
        lemma_reads_chain(a, bb, end_index as int, start_index + 2, start_index + 2 + l);
    }
    end = match filled {
        Ok(e) => e,
        Err(FillError::Ended { available }) => {
            return Err(ServerError::MissingPath { read: available });
        },
        Err(FillError::Read(x)) => return Err(ServerError::StreamRead(x)),
    };
    proof {
        lemma_all_gave_bytes(a + bb);
    }
    let path_bytes = slice_subrange(buf.as_slice(), start, start + path_length);
    assert(path_bytes@ == path_at(b2, start_index as int));
    let relative_file_path = match utf8_string(path_bytes) {
        Some(p) => p,
        None => return Err(ServerError::InvalidPathUtf8),
    };
    let expected_checksum = crc32_continue(0, path_bytes);
    start = start + path_length;
    let end2 = end;
    let checked = read_checksum(&mut end, &mut start, socket, buf);
    let ghost b3 = buf@;
    let ghost s3 = socket.reads();
    let ghost c = reads_since(s2, s3);
    proof {
        lemma_take_agree(b3, b2, end2 as int, start_index as int);
        lemma_take_agree(b3, b2, end2 as int, start_index + 1);
        assert forall|i: int| start_index + 2 <= i < end2 implies b3[i] == b2[i] by {
            lemma_take_agree(b3, b2, end2 as int, i);
        }
        assert(path_at(b3, start_index as int) =~= path_at(b2, start_index as int));
        let v = end_index as int;
        assert(b2.take(v) =~= b2.take(end1 as int).take(v));
        assert(b1.take(v) =~= b1.take(end1 as int).take(v));
        assert(b3.take(v) =~= b3.take(end2 as int).take(v));
        assert(b2.take(v) =~= b2.take(end2 as int).take(v));
        lemma_extends_chain(s0, s2, s3);
        assert(reads_since(s0, s2) == a + bb);
        lemma_reads_chain(a + bb, c, end_index as int, start_index + 2 + l, start_index + 6 + l);
    }
    let received_checksum = match checked {
        Ok(c) => c,
        Err(e) => return Err(e),
    };
    Ok(
        (
            BufferState { start_index: start, end_index: end },
            relative_file_path,
            received_checksum,
            expected_checksum,
        ),
    )
}

/// Where the next read of file data goes, as the start of the unprocessed
/// bytes and the read's index: after the bytes read so far, or at the start
/// of the buffer once everything in it (`buf_len` bytes) has been processed.
pub open spec fn read_range_of(start: int, end: int, buf_len: int) -> (int, int) {
    if start == buf_len {
        (0, 0)
    } else {
        (start, end)
    }
}

/// The piece of file data in the buffer after a read of `n` bytes at `end`,
/// with the bytes from `start` unprocessed and `remaining` bytes of data to
/// come: up to the end of the data, or up to the end of the bytes read.
pub open spec fn piece_of(start: int, end: int, n: int, remaining: int) -> (int, int) {
    if end + n - start > remaining {
        (start, start + remaining)
    } else {
        (start, end + n)
    }
}

/// The piece of file data that a read returning `n` at `end` delivers, with
/// the bytes from `start` to `end` unprocessed and `remaining` bytes of data
/// still to come: an error when the read gave no bytes (the stream has ended),
/// the rest of the data when more than that has arrived (the checksum follows
/// it), and everything from `start` on otherwise.
pub fn piece_after_read(start: usize, end: usize, n: usize, remaining: u32) -> (r: Result<
    (usize, usize),
    ServerError,
>)
    requires
        start <= end,
        end + n <= usize::MAX,
    ensures
        r == (if n == 0 {
            Err::<(usize, usize), ServerError>(
                ServerError::MissingFileData { read: (end - start) as usize },
            )
        } else if end + n - start > remaining {
            Ok::<(usize, usize), ServerError>((start, (start + remaining) as usize))
        } else {
            Ok::<(usize, usize), ServerError>((start, (end + n) as usize))
        }),
{
    if n == 0 {
        return Err(ServerError::MissingFileData { read: end - start });
    }
    let last = end + n;
    if ((last - start) as u64) > (remaining as u64) {
        Ok((start, start + remaining as usize))
    } else {
        Ok((start, last))
    }
}

/// Receives the data part of a save-file request: its length, the data
/// itself in pieces as they arrive, and its checksum. Each piece is a range
/// of the buffer that the caller writes to the file before asking for the
/// next one.
pub struct FileReceiver {
    start_index: usize,
    end_index: usize,
    remaining: u32,
    file_length: u32,
    checksum: u32,
    started: bool,
    received: Ghost<Seq<u8>>,
}

impl FileReceiver {
    /// The data handed out so far, in order.
    pub closed spec fn received(&self) -> Seq<u8> {
        self.received@
    }

    /// The length of the file data, as the request states it.
    pub closed spec fn file_length(&self) -> nat {
        self.file_length as nat
    }

    /// How many data bytes are still to come.
    pub closed spec fn remaining(&self) -> nat {
        self.remaining as nat
    }

    /// The first unprocessed byte of the buffer.
    pub closed spec fn start(&self) -> int {
        self.start_index as int
    }

    /// The end of the bytes read into the buffer.
    pub closed spec fn end(&self) -> int {
        self.end_index as int
    }

    /// Whether the first piece, taken from the buffer as it was, has been
    /// handed out.
    pub closed spec fn started(&self) -> bool {
        self.started
    }

    /// The receiver's own consistency: the running checksum is that of the
    /// data handed out, which together with what remains makes up the file.
    pub closed spec fn wf(&self) -> bool {
        &&& self.start_index <= self.end_index
        &&& self.received@.len() + self.remaining == self.file_length
        &&& self.checksum == crc32(self.received@)
        &&& self.started && self.remaining > 0 ==> self.start_index == self.end_index
        &&& !self.started ==> self.received@.len() == 0
    }

    /// Reads the data length at `start_index`, from the stream if the buffer
    /// does not hold it yet. Nothing is read when the buffer holds it.
    pub fn begin<T: ReadFromStream>(
        socket: &mut ObservedStream<T>,
        buf: &mut Vec<u8>,
        end_index: usize,
        start_index: usize,
    ) -> (r: Result<FileReceiver, ServerError>)
        requires
            start_index <= end_index <= old(buf)@.len(),
        ensures
            final(buf)@.len() >= end_index,
            final(buf)@.take(end_index as int) == old(buf)@.take(end_index as int),
            r matches Ok(rx) ==> {
                &&& rx.wf()
                &&& !rx.started()
                &&& rx.received() == Seq::<u8>::empty()
                &&& rx.file_length() == be_u32_at(final(buf)@, start_index as int)
                &&& rx.start() == start_index + 4
                &&& end_index <= rx.end() <= final(buf)@.len()
            },
            r matches Err(e) ==> e is MissingFileLength || e is StreamRead,
            extends(old(socket).reads(), final(socket).reads()),
            ({
                let new = reads_since(old(socket).reads(), final(socket).reads());
                &&& reads_in_order(new, end_index as int, start_index + 4)
                &&& r matches Ok(rx) ==> {
                    &&& all_gave_bytes(new)
                    &&& !ended(new)
                    &&& rx.end() == end_after(new, end_index as int, new.len() as int)
                }
                &&& (missing(r) <==> ended(new))
                &&& r matches Err(ServerError::StreamRead(_)) ==> failed(new)
                &&& !ended(new) && !failed(new) ==> r is Ok
            }),
            end_index - start_index >= 4 ==> {
                &&& r is Ok
                &&& final(buf)@ == old(buf)@
                &&& *final(socket) == *old(socket)
                &&& r matches Ok(rx) && rx.end() == end_index
            },
    {
        let data_length_bytes: usize = 4;
        let end = match fill(socket, buf, start_index, end_index, data_length_bytes) {
            Ok(e) => e,
            Err(FillError::Ended { .. }) => return Err(ServerError::MissingFileLength),
            Err(FillError::Read(x)) => return Err(ServerError::StreamRead(x)),
        };
        let file_data_length = read_u32_be(
            slice_subrange(buf.as_slice(), start_index, start_index + data_length_bytes),
        );
        proof {
            lemma_crc32_update_empty(0);
        }
        Ok(
            FileReceiver {
                start_index: start_index + data_length_bytes,
                end_index: end,
                remaining: file_data_length,
                file_length: file_data_length,
                checksum: 0,
                started: false,
                received: Ghost(Seq::empty()),
            },
        )
    }

    /// Whether all data has been handed out, so that the checksum comes next.
    pub fn is_complete(&self) -> (r: bool)
        ensures
            r == (self.started() && self.remaining() == 0),
    {
        self.started && self.remaining == 0
    }

    /// The next piece of file data, as a range of `buf`, or `None` when all
    /// data has been handed out. The first piece is what the buffer already
    /// holds; each later one comes from one read of the stream, at the index
    /// [`FileReceiver::read_range`] gives, and is the range that
    /// [`piece_after_read`] gives for what the read returned.
    pub fn next_chunk<T: ReadFromStream>(&mut self, socket: &mut ObservedStream<T>, buf: &mut Vec<u8>) -> (r: Result<
        Option<(usize, usize)>,
        ServerError,
    >)
        requires
            old(self).wf(),
            old(self).end() <= old(buf)@.len(),
        ensures
            final(self).file_length() == old(self).file_length(),
            r matches Ok(Some((a, b))) ==> {
                &&& final(self).wf()
                &&& final(self).started()
                &&& a <= b <= final(buf)@.len()
                &&& final(self).end() <= final(buf)@.len()
                &&& final(self).received() == old(self).received() + final(buf)@.subrange(
                    a as int,
                    b as int,
                )
            },
            r matches Ok(None) ==> {
                &&& old(self).started() && old(self).remaining() == 0
                &&& *final(self) == *old(self)
                &&& final(buf)@ == old(buf)@
                &&& *final(socket) == *old(socket)
            },
            r matches Err(e) ==> e is MissingFileData || e is StreamRead,
            r matches Err(ServerError::MissingFileData { read }) ==> read == 0,
            old(self).started() && old(self).end() - old(self).start() < old(self).remaining() ==> {
                let range = read_range_of(
                    old(self).start(),
                    old(self).end(),
                    old(buf)@.len() as int,
                );
                let log = final(socket).reads();
                &&& log.len() == old(socket).reads().len() + 1
                &&& log.drop_last() == old(socket).reads()
                &&& log.last().0 == range.1
                &&& (r is Ok <==> gave_bytes(log.last()))
                &&& r matches Ok(Some((a, b))) ==> (a as int, b as int) == piece_of(
                    range.0,
                    range.1,
                    count_of(log.last()),
                    old(self).remaining() as int,
                )
                &&& r is Ok ==> (r matches Ok(Some(_)))
                &&& (missing(r) <==> ended(log))
                &&& r matches Err(ServerError::StreamRead(_)) ==> failed(log)
            },
            old(self).started() ==> (r matches Ok(Some((a, _))) ==> a == (if old(self).start()
                == old(buf)@.len() {
                0
            } else {
                old(self).start()
            })),
            !old(self).started() ==> {
                &&& final(buf)@ == old(buf)@
                &&& *final(socket) == *old(socket)
                &&& r matches Ok(Some((a, b)))
                &&& a == old(self).start()
                &&& b == (if old(self).end() - old(self).start() >= old(self).remaining() {
                    old(self).start() + old(self).remaining()
                } else {
                    old(self).end()
                })
                &&& final(self).end() == old(self).end()
            },
            old(self).started() && old(self).remaining() > 0 ==> (r matches Ok(Some(_))
                ==> final(self).remaining() < old(self).remaining()),
    {
        if !self.started {
            let start = self.start_index;
            let end = self.end_index;
            let file_data_end_index = if ((end - start) as u64) >= (self.remaining as u64) {
                start + self.remaining as usize
            } else {
                end
            };
            let piece = slice_subrange(buf.as_slice(), start, file_data_end_index);
            let checksum = crc32_continue(self.checksum, piece);
            proof {
                crate::checksum::lemma_crc32_update_concat(0, self.received@, piece@);
            }
            *self = FileReceiver {
                start_index: file_data_end_index,
                end_index: end,
                remaining: self.remaining - (file_data_end_index - start) as u32,
                file_length: self.file_length,
                checksum,
                started: true,
                received: Ghost(self.received@ + piece@),
            };
            return Ok(Some((start, file_data_end_index)));
        }
        if ((self.end_index - self.start_index) as u64) < (self.remaining as u64) {
            let (start, end) = self.read_range(buf.len());
            let ghost log0 = socket.reads();
            let res = socket.read(buf, end);
            proof {
                let log = socket.reads();
                assert(log.drop_last() =~= log0);
                assert(log.last() == log[log.len() - 1]);
            }
            let n = match res {
                Ok(n) => n,
                Err(x) => return Err(ServerError::StreamRead(x)),
            };
            let len = buf.len();
            assert(end + n <= len);
            let (piece_start, piece_end) = match piece_after_read(start, end, n, self.remaining) {
                Ok(range) => range,
                Err(e) => return Err(e),
            };
            let piece = slice_subrange(buf.as_slice(), piece_start, piece_end);
            let checksum = crc32_continue(self.checksum, piece);
            proof {
                crate::checksum::lemma_crc32_update_concat(0, self.received@, piece@);
            }
            *self = FileReceiver {
                start_index: piece_end,
                end_index: end + n,
                remaining: self.remaining - (piece_end - piece_start) as u32,
                file_length: self.file_length,
                checksum,
                started: true,
                received: Ghost(self.received@ + piece@),
            };
            Ok(Some((piece_start, piece_end)))
        } else {
            Ok(None)
        }
    }

    /// Where the next read of file data goes, as the unprocessed bytes' start
    /// and the read's index: after the bytes read so far, or at the start of
    /// the buffer once everything in it has been processed.
    pub fn read_range(&self, buf_len: usize) -> (r: (usize, usize))
        ensures
            r == (if self.start() == buf_len {
                (0usize, 0usize)
            } else {
                (self.start() as usize, self.end() as usize)
            }),
    {
        if self.start_index == buf_len {
            (0, 0)
        } else {
            (self.start_index, self.end_index)
        }
    }

    /// Reads the checksum that follows the data, from the stream if the buffer
    /// does not hold it yet, and accepts the data when the checksum is the
    /// CRC-32 of all data handed out. Returns the buffer state after it.
    pub fn finish<T: ReadFromStream>(self, socket: &mut ObservedStream<T>, buf: &mut Vec<u8>) -> (r: Result<
        BufferState,
        ServerError,
    >)
        requires
            self.wf(),
            self.started(),
            self.remaining() == 0,
            self.end() <= old(buf)@.len(),
        ensures
            final(buf)@.len() >= self.end(),
            final(buf)@.take(self.end()) == old(buf)@.take(self.end()),
            r matches Ok(st) ==> {
                &&& self.received().len() == self.file_length()
                &&& be_u32_at(final(buf)@, self.start()) == crc32(self.received())
                &&& st.start_index == self.start() + 4
                &&& st.start_index <= st.end_index <= final(buf)@.len()
            },
            r matches Err(ServerError::FileChecksumMismatch { expected, received }) ==> {
                &&& expected == crc32(self.received())
                &&& received == be_u32_at(final(buf)@, self.start())
                &&& expected != received
            },
            r matches Err(e) ==> e is MissingChecksum || e is StreamRead || e is FileChecksumMismatch,
            extends(old(socket).reads(), final(socket).reads()),
            ({
                let new = reads_since(old(socket).reads(), final(socket).reads());
                &&& reads_in_order(new, self.end(), self.start() + 4)
                &&& r matches Ok(st) ==> all_gave_bytes(new) && st.end_index == end_after(
                    new,
                    self.end(),
                    new.len() as int,
                )
                &&& (missing(r) <==> ended(new))
                &&& r matches Err(ServerError::StreamRead(_)) ==> failed(new)
                &&& !ended(new) && !failed(new) ==> (r is Ok <==> be_u32_at(
                    final(buf)@,
                    self.start(),
                ) == crc32(self.received()))
            }),
            self.end() - self.start() >= 4 ==> {
                &&& final(buf)@ == old(buf)@
                &&& *final(socket) == *old(socket)
                &&& (r is Ok <==> be_u32_at(old(buf)@, self.start()) == crc32(self.received()))
                &&& r matches Ok(st) ==> st.end_index == self.end()
            },
    {
        let mut start = self.start_index;
        let mut end = self.end_index;
        let received_checksum = match read_checksum(&mut end, &mut start, socket, buf) {
            Ok(c) => c,
            Err(e) => return Err(e),
        };
        let expected_checksum = self.checksum;
        if received_checksum != expected_checksum {
            return Err(
                ServerError::FileChecksumMismatch {
                    expected: expected_checksum,
                    received: received_checksum,
                },
            );
        }
        Ok(BufferState { start_index: start, end_index: end })
    }
}

/// The bytes of a path segment: the length of the path, the path, and the
/// CRC-32 of the path.
pub open spec fn path_segment(path: Seq<u8>) -> Seq<u8> {
    crate::endian::u16_bytes(path.len() as u16) + path + crate::endian::u32_bytes(crc32(path))
}

/// A path segment, wherever it stands and whatever follows it, reads back as
/// its path and checksum; it is accepted exactly when the path is UTF-8.
pub proof fn lemma_path_segment_decodes(prefix: Seq<u8>, path: Seq<u8>, rest: Seq<u8>)
    requires
        path.len() <= 65535,
    ensures
        ({
            let b = prefix + path_segment(path) + rest;
            let s = prefix.len() as int;
            &&& path_segment_in(b, s, b.len() as int)
            &&& path_len_at(b, s) == path.len()
            &&& path_at(b, s) == path
            &&& path_crc_at(b, s) == crc32(path)
            &&& (path_accepted(b, s) <==> valid_utf8(path))
            &&& path_segment(path).len() == 6 + path.len()
        }),
{
    let b = prefix + path_segment(path) + rest;
    let s = prefix.len() as int;
    let l = path.len();
    crate::endian::lemma_u16_bytes_value(l as u16);
    crate::endian::lemma_u32_bytes_value(crc32(path));
    let lb = crate::endian::u16_bytes(l as u16);
    let cb = crate::endian::u32_bytes(crc32(path));
    assert(b[s] == lb[0]);
    assert(b[s + 1] == lb[1]);
    assert(path_len_at(b, s) == l);
    assert(path_at(b, s) =~= path);
    assert(b[s + 2 + l] == cb[0]);
    assert(b[s + 3 + l] == cb[1]);
    assert(b[s + 4 + l] == cb[2]);
    assert(b[s + 5 + l] == cb[3]);
}

/// The operations a request can start with.
#[derive(Debug, Clone, Copy, PartialEq, Eq)]
pub enum Operation {
    /// Byte 1: create the parent folder of a path.
    CreateParentFolder,
    /// Byte 2: save a file.
    SaveFile,
}

/// The operation that the first byte of a request stands for, if any.
pub fn operation_of(first: u8) -> (r: Option<Operation>)
    ensures
        r == (if first == 1 {
            Some(Operation::CreateParentFolder)
        } else if first == 2 {
            Some(Operation::SaveFile)
        } else {
            None
        }),
{
    if first == 1 {
        Some(Operation::CreateParentFolder)
    } else if first == 2 {
        Some(Operation::SaveFile)
    } else {
        None
    }
}

/// The two bytes the server answers a request with: the big-endian 16-bit
/// number 1 on success, -1 on failure.
pub fn response_bytes(success: bool) -> (r: [u8; 2])
    ensures
        r@ == (if success {
            seq![0u8, 1u8]
        } else {
            seq![0xffu8, 0xffu8]
        }),
{
    let r = if success {
        [0u8, 1u8]
    } else {
        [0xffu8, 0xffu8]
    };
    assert(r@ =~= (if success {
        seq![0u8, 1u8]
    } else {
        seq![0xffu8, 0xffu8]
    }));
    r
}

/// `s` without the `/` characters it starts with.
pub open spec fn without_leading_slashes(s: Seq<char>) -> Seq<char>
    decreases s.len(),
{
    if s.len() > 0 && s[0] == '/' {
        without_leading_slashes(s.drop_first())
    } else {
        s
    }
}

/// `s` without the `/` characters it ends with.
pub open spec fn without_trailing_slashes(s: Seq<char>) -> Seq<char>
    decreases s.len(),
{
    if s.len() > 0 && s.last() == '/' {
        without_trailing_slashes(s.drop_last())
    } else {
        s
    }
}

/// `s` without its last component: up to and including its last `/`.
pub open spec fn without_last_component(s: Seq<char>) -> Seq<char>
    decreases s.len(),
{
    if s.len() > 0 && s.last() != '/' {
        without_last_component(s.drop_last())
    } else {
        s
    }
}

/// Where a received path is saved: below `root`, with the path's leading
/// `/` characters removed so that it cannot replace the root.
pub open spec fn saved_path_of(root: Seq<char>, path: Seq<char>) -> Seq<char> {
    root + seq!['/'] + without_leading_slashes(path)
}

/// The folder that holds `path`: the path without trailing `/`, without its
/// last component, and without the `/` between them; `/` itself when only
/// the root is left.
pub open spec fn parent_folder_of(path: Seq<char>) -> Seq<char> {
    let p = without_trailing_slashes(without_last_component(without_trailing_slashes(path)));
    if p.len() == 0 && path.len() > 0 && path[0] == '/' {
        seq!['/']
    } else {
        p
    }
}

proof fn lemma_no_leading_slash(s: Seq<char>)
    ensures
        without_leading_slashes(s).len() > 0 ==> without_leading_slashes(s)[0] != '/',
        without_leading_slashes(s).len() <= s.len(),
    decreases s.len(),
{
    if s.len() > 0 && s[0] == '/' {
        lemma_no_leading_slash(s.drop_first());
    }
}

/// A saved path lies below the root: it starts with the root and a `/`, and
/// what follows does not start with `/`, so no received path replaces the
/// root.
pub proof fn lemma_saved_path_below_root(root: Seq<char>, path: Seq<char>)
    ensures
        saved_path_of(root, path).take(root.len() + 1int) == root + seq!['/'],
        saved_path_of(root, path).len() > root.len() + 1int ==> saved_path_of(root, path)[root.len()
            + 1int] != '/',
{
    let s = saved_path_of(root, path);
    lemma_no_leading_slash(path);
    assert(s.take(root.len() + 1int) =~= root + seq!['/']);
    if s.len() > root.len() + 1int {
        assert(s[root.len() + 1int] == without_leading_slashes(path)[0]);
    }
}

/// A received path without its leading `/` characters, so that it can be
/// placed below the saving directory.
pub fn relative_to_root(path: &str) -> (r: &str)
    ensures
        r@ == without_leading_slashes(path@),
{
    let n = path.unicode_len();
    let mut i: usize = 0;
    assert(path@.skip(0) =~= path@);
    while i < n && path.get_char(i) == '/'
        invariant
            i <= n == path@.len(),
            without_leading_slashes(path@.skip(i as int)) == without_leading_slashes(path@),
        decreases n - i,
    {
        proof {
            assert(path@.skip(i as int).drop_first() =~= path@.skip(i + 1));
        }
        i = i + 1;
    }
    proof {
        assert(without_leading_slashes(path@.skip(i as int)) == path@.skip(i as int));
    }
    let r = path.substring_char(i, n);
    assert(r@ =~= path@.skip(i as int));
    r
}

/// Where a received path is saved below the saving directory `root`.
pub fn saved_path(root: &str, path: &str) -> (r: String)
    ensures
        r@ == saved_path_of(root@, path@),
{
    let mut saved = root.to_owned();
    saved.append("/");
    saved.append(relative_to_root(path));
    proof {
        reveal_strlit("/");
    }
    assert(saved@ =~= saved_path_of(root@, path@));
    saved
}

/// The number of characters of `s` before its trailing `/` characters.
fn trailing_slashes_start(s: &str, end: usize) -> (r: usize)
    requires
        end <= s@.len(),
    ensures
        r <= end,
        s@.take(r as int) == without_trailing_slashes(s@.take(end as int)),
{
    let mut e = end;
    while e > 0 && s.get_char(e - 1) == '/'
        invariant
            e <= end <= s@.len(),
            without_trailing_slashes(s@.take(e as int)) == without_trailing_slashes(
                s@.take(end as int),
            ),
        decreases e,
    {
        proof {
            assert(s@.take(e as int).drop_last() =~= s@.take(e - 1));
        }
        e = e - 1;
    }
    proof {
        assert(without_trailing_slashes(s@.take(e as int)) == s@.take(e as int));
    }
    e
}

/// The folder that holds `path`, the folder to create before saving a file
/// at `path`.
pub fn parent_folder(path: &str) -> (r: &str)
    ensures
        r@ == parent_folder_of(path@),
{
    let n = path.unicode_len();
    assert(path@.take(n as int) =~= path@);
    let e = trailing_slashes_start(path, n);
    let mut c = e;
    while c > 0 && path.get_char(c - 1) != '/'
        invariant
            c <= e <= path@.len(),
            without_last_component(path@.take(c as int)) == without_last_component(
                path@.take(e as int),
            ),
        decreases c,
    {
        proof {
            assert(path@.take(c as int).drop_last() =~= path@.take(c - 1));
        }
        c = c - 1;
    }
    proof {
        assert(without_last_component(path@.take(c as int)) == path@.take(c as int));
    }
    let p = trailing_slashes_start(path, c);
    if p == 0 && n > 0 && path.get_char(0) == '/' {
        let root = path.substring_char(0, 1);
        assert(root@ =~= seq!['/']);
        root
    } else {
        let r = path.substring_char(0, p);
        assert(r@ =~= path@.take(p as int));
        r
    }
}

} // verus!
