//! Reading frames out of a buffer that a stream fills.
use vstd::prelude::*;
use bytes::BytesMut;
use crate::byte_buffer::{bytes_mut_as_slice, bytes_mut_contents, ByteCursor};
use crate::relay::frame::{Error, Frame, Operations};

verus! {

/// Reads a frame from the start of `buffer`: the frame when the buffer holds
/// a whole one, none when it holds only part of one, and the error otherwise.
pub fn parse_frame<F: Frame<O>, O: Operations>(buffer: &BytesMut) -> (r: Result<Option<F>, Error>)
    ensures
        match F::frame_read(bytes_mut_contents(*buffer)).0 {
            Ok(v) => r matches Ok(Some(f)) && f@ == v,
            Err(Error::Incomplete) => r matches Ok(None),
            Err(e) => r == Err::<Option<F>, Error>(e),
        },
{
    let bytes = bytes_mut_as_slice(buffer);
    let mut buf = ByteCursor::new(bytes);
    proof {
        assert(buf.rest() =~= bytes@);
    }
    match F::parse(&mut buf) {
        Ok(frame) => Ok(Some(frame)),
        Err(Error::Incomplete) => Ok(None),
        Err(e) => Err(e),
    }
}

/// What to do next while reading a frame from a stream.
pub enum ReadStep<F> {
    /// A whole frame is in the buffer.
    Frame(F),
    /// Only part of a frame is in the buffer: read more from the stream.
    ReadMore,
    /// The stream ended cleanly between frames.
    Closed,
    /// The stream ended inside a frame: the connection was reset.
    Reset,
    /// The buffer holds bytes that are not a frame.
    Failed(Error),
}

/// The next step of reading a frame from a stream into `buffer`, given
/// whether the last read from the stream found it ended. Once the stream has
/// ended, an empty buffer is a clean close and anything else a reset.
pub fn read_frame_step<F: Frame<O>, O: Operations>(buffer: &BytesMut, stream_ended: bool) -> (r:
    ReadStep<F>)
    ensures
        stream_ended ==> (if bytes_mut_contents(*buffer).len() == 0 {
            r is Closed
        } else {
            r is Reset
        }),
        !stream_ended ==> match F::frame_read(bytes_mut_contents(*buffer)).0 {
            Ok(v) => r matches ReadStep::Frame(f) && f@ == v,
            Err(Error::Incomplete) => r is ReadMore,
            Err(e) => r matches ReadStep::Failed(x) && x == e,
        },
{
    if stream_ended {
        if bytes_mut_as_slice(buffer).len() == 0 {
            return ReadStep::Closed;
        } else {
            return ReadStep::Reset;
        }
    }
    match parse_frame::<F, O>(buffer) {
        Ok(Some(frame)) => ReadStep::Frame(frame),
        Ok(None) => ReadStep::ReadMore,
        Err(e) => ReadStep::Failed(e),
    }
}

} // verus!
