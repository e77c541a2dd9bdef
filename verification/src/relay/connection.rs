//! Connections that carry frames between peers and the relay.
use vstd::prelude::*;
use crate::relay::frame::{Frame, Operations};

verus! {

/// A connection over a stream `S` with a read buffer `B`, that receives
/// frames `RF` (operations `RO`) and sends frames `SF` (operations `SO`),
/// failing with `E`.
pub trait Connection<S, B, RF, SF, RO, SO, E>: Sized where
    RO: Operations,
    SO: Operations,
    RF: Frame<RO>,
    SF: Frame<SO>,
 {
    /// A connection over `socket` with an empty read buffer.
    fn new(socket: S) -> Self;

    /// The next frame, or none when the stream ended cleanly.
    fn read_frame(&mut self) -> Result<Option<RF>, E>;

    /// Sends a frame.
    fn write_frame(&mut self, frame: SF) -> Result<(), E>;
}

} // verus!
