//! Byte containers that frames are written to and read from: `bytes::BytesMut`
//! for outgoing frames, and a read cursor over a byte slice for incoming ones.
use vstd::prelude::*;
use bytes::BufMut;
use bytes::BytesMut;

verus! {

#[verifier::external_type_specification]
#[verifier::external_body]
pub struct ExBytesMut(bytes::BytesMut);

/// The bytes that a `BytesMut` holds, in order.
pub uninterp spec fn bytes_mut_contents(b: bytes::BytesMut) -> Seq<u8>;

/// `BytesMut::with_capacity`: an empty buffer (its documentation: "contains no
/// data, even though there is capacity").
#[verifier::external_body]
pub(crate) fn bytes_mut_with_capacity(capacity: usize) -> (r: BytesMut)
    ensures
        bytes_mut_contents(r) == Seq::<u8>::empty(),
{
    BytesMut::with_capacity(capacity)
}

/// `BufMut::put_u8` on a `BytesMut`: appends one byte (its source calls
/// `extend_from_slice`, which grows the buffer; growth past `isize::MAX`
/// panics).
#[verifier::external_body]
pub(crate) fn bytes_mut_put_u8(b: &mut BytesMut, x: u8)
    requires
        bytes_mut_contents(*old(b)).len() + 1 <= isize::MAX,
    ensures
        bytes_mut_contents(*final(b)) == bytes_mut_contents(*old(b)).push(x),
{
    b.put_u8(x)
}

/// `BytesMut::extend_from_slice`: appends the bytes of `s` (growth past
/// `isize::MAX` panics).
#[verifier::external_body]
pub(crate) fn bytes_mut_extend(b: &mut BytesMut, s: &[u8])
    requires
        bytes_mut_contents(*old(b)).len() + s@.len() <= isize::MAX,
    ensures
        bytes_mut_contents(*final(b)) == bytes_mut_contents(*old(b)) + s@,
{
    b.extend_from_slice(s)
}

/// `<BytesMut as AsRef<[u8]>>::as_ref`: the held bytes as a slice.
#[verifier::external_body]
pub(crate) fn bytes_mut_as_slice(b: &BytesMut) -> (r: &[u8])
    ensures
        r@ == bytes_mut_contents(*b),
{
    b.as_ref()
}

/// A read position over a byte slice. Reading a byte moves the position past
/// it; the position never passes the end of the slice.
pub struct ByteCursor<'a> {
    data: &'a [u8],
    pos: usize,
}

impl<'a> ByteCursor<'a> {
    #[verifier::type_invariant]
    spec fn position_in_bounds(self) -> bool {
        self.pos <= self.data@.len()
    }

    /// All the bytes under the cursor, read or not.
    pub closed spec fn bytes(&self) -> Seq<u8> {
        self.data@
    }

    /// How many bytes have been read.
    pub closed spec fn pos(&self) -> nat {
        self.pos as nat
    }

    /// The bytes not read yet.
    pub open spec fn rest(&self) -> Seq<u8> {
        self.bytes().skip(self.pos() as int)
    }

    /// A cursor at the start of `data`.
    pub fn new(data: &'a [u8]) -> (r: Self)
        ensures
            r.bytes() == data@,
            r.pos() == 0,
    {
        ByteCursor { data, pos: 0 }
    }

    /// The current position.
    pub fn position(&self) -> (r: usize)
        ensures
            r == self.pos(),
            self.pos() <= self.bytes().len(),
    {
        proof {
            use_type_invariant(self);
        }
        self.pos
    }

    /// The whole underlying slice.
    pub fn get_ref(&self) -> (r: &'a [u8])
        ensures
            r@ == self.bytes(),
    {
        self.data
    }

    /// The number of bytes not read yet.
    pub fn remaining(&self) -> (r: usize)
        ensures
            self.pos() <= self.bytes().len(),
            r == self.bytes().len() - self.pos(),
            r == self.rest().len(),
    {
        proof {
            use_type_invariant(self);
        }
        self.data.len() - self.pos
    }

    /// Whether any byte is left to read.
    pub fn has_remaining(&self) -> (r: bool)
        ensures
            r == (self.rest().len() > 0),
    {
        self.remaining() > 0
    }

    /// Reads the next byte.
    pub fn get_u8(&mut self) -> (r: u8)
        requires
            old(self).rest().len() >= 1,
        ensures
            r == old(self).rest()[0],
            r == old(self).bytes()[old(self).pos() as int],
            old(self).pos() < old(self).bytes().len(),
            final(self).bytes() == old(self).bytes(),
            final(self).pos() == old(self).pos() + 1,
    {
        proof {
            use_type_invariant(&*self);
        }
        let b = self.data[self.pos];
        self.pos = self.pos + 1;
        b
    }

    /// Moves the position forward by `count` bytes.
    pub fn advance(&mut self, count: usize)
        requires
            count <= old(self).rest().len(),
        ensures
            final(self).bytes() == old(self).bytes(),
            final(self).pos() == old(self).pos() + count,
    {
        proof {
            use_type_invariant(&*self);
            assert(self.rest().len() == self.data@.len() - self.pos);
        }
        let len = self.data.len();
        assert(self.pos + count <= len);
        self.pos = self.pos + count;
    }
}

/// Appends the bytes of `s` to `v`.
pub fn append_bytes(v: &mut Vec<u8>, s: &[u8])
    ensures
        final(v)@ == old(v)@ + s@,
{
    v.extend_from_slice(s);
    assert(v@ =~= old(v)@ + s@);
}

} // verus!
