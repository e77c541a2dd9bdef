//! Peers: their identifiers, addresses and the metadata a relay reports.
use vstd::prelude::*;
use rand::RngCore;
use crate::byte_buffer::{append_bytes, ByteCursor};
use crate::endian::{
    be_u64_at, be_value, lemma_be_value_16, lemma_u64_bytes_value, read_u64_be_at, u64_bytes,
    u64_to_be_bytes,
};
use crate::relay::frame::{Error, FrameFault};

verus! {

/// Length of a peer identifier in bytes.
pub const PEER_ID_LENGTH_BYTES: usize = 64;

/// Length of a serialized [`PeerInfo`]: one byte of address type, sixteen of
/// address and sixteen of round-trip time.
pub const PEER_INFO_SERIALIZE_BYTES_LEN: usize = 33;

/// Identifies a peer without knowing its address.
#[derive(Debug, Clone, Copy, PartialEq, Eq, Hash)]
pub struct PeerId([u8; PEER_ID_LENGTH_BYTES]);

impl View for PeerId {
    type V = Seq<u8>;

    closed spec fn view(&self) -> Seq<u8> {
        self.0@
    }
}

impl PeerId {
    /// Every identifier has 64 bytes.
    pub proof fn lemma_view_len(self)
        ensures
            self@.len() == PEER_ID_LENGTH_BYTES,
    {
    }

    /// Two identifiers are the same exactly when their bytes are.
    pub proof fn lemma_view_determines(self, other: PeerId)
        ensures
            self == other <==> self@ == other@,
    {
        if self@ == other@ {
            assert forall|i: int| 0 <= i < PEER_ID_LENGTH_BYTES implies self.0[i] == other.0[i] by {
                assert(self.0[i] == self@[i]);
                assert(other.0[i] == other@[i]);
            }
            broadcast use vstd::array::axiom_array_ext_equal;
            assert(self.0 =~= other.0);
        }
    }
}

/// Sixty-four zero bytes: the identifier carried by a [`PeerInfo`] that was
/// read from the wire, where identifiers are not sent.
pub open spec fn zero_peer_id() -> Seq<u8> {
    Seq::new(64, |i: int| 0u8)
}

/// Reading a peer identifier from `bytes`: the identifier and how many bytes
/// the read moves past.
pub open spec fn peer_id_read(bytes: Seq<u8>) -> (Result<Seq<u8>, Error>, nat) {
    if bytes.len() < 64 {
        (Err(Error::Incomplete), 0)
    } else {
        (Ok(bytes.take(64)), 64)
    }
}

/// Sixty-four bytes from `rand`'s thread-local generator
/// (`rand::rng().fill_bytes`); nothing is claimed of their values.
#[verifier::external_body]
fn random_peer_id_bytes() -> (r: [u8; PEER_ID_LENGTH_BYTES]) {
    let mut random_bytes: [u8; PEER_ID_LENGTH_BYTES] = [0; PEER_ID_LENGTH_BYTES];
    rand::rng().fill_bytes(&mut random_bytes);
    random_bytes
}

impl Default for PeerId {
    /// A random identifier.
    fn default() -> (r: Self)
        ensures
            r@.len() == PEER_ID_LENGTH_BYTES,
    {
        PeerId(random_peer_id_bytes())
    }
}

impl PeerId {
    /// The identifier made of the 64 bytes of `buf` from `start_index`.
    pub fn new(buf: &[u8], start_index: usize) -> (r: Self)
        requires
            start_index + 64 <= buf@.len(),
        ensures
            r@ == buf@.subrange(start_index as int, start_index + 64),
    {
        let n = buf.len();
        let mut bytes = [0u8; 64];
        let mut i: usize = 0;
        while i < 64
            invariant
                i <= 64,
                n == buf@.len(),
                start_index + 64 <= n,
                bytes@.len() == 64,
                forall|j: int| 0 <= j < i ==> bytes@[j] == buf@[start_index + j],
            decreases 64 - i,
        {
            bytes[i] = buf[start_index + i];
            i = i + 1;
        }
        assert(bytes@ =~= buf@.subrange(start_index as int, start_index + 64));
        PeerId(bytes)
    }

    /// The identifier from sixty-four given bytes.
    pub fn from_bytes(bytes: [u8; PEER_ID_LENGTH_BYTES]) -> (r: Self)
        ensures
            r@ == bytes@,
    {
        PeerId(bytes)
    }

    /// The length of the identifier in bytes: always 64.
    pub fn len(&self) -> (r: usize)
        ensures
            r == self@.len(),
            r == PEER_ID_LENGTH_BYTES,
    {
        PEER_ID_LENGTH_BYTES
    }

    /// The bytes of the identifier.
    pub fn as_bytes(&self) -> (r: &[u8])
        ensures
            r@ == self@,
    {
        self.0.as_slice()
    }

    /// Whether the identifier has no bytes: never.
    pub fn is_empty(&self) -> (r: bool)
        ensures
            r == (self@.len() == 0),
            !r,
    {
        false
    }

    /// Reads an identifier from the cursor and moves past it, or reports
    /// `Incomplete` without moving when fewer than 64 bytes are left.
    pub fn try_from_cursor(value: &mut ByteCursor) -> (r: Result<PeerId, Error>)
        ensures
            final(value).bytes() == old(value).bytes(),
            final(value).pos() >= old(value).pos(),
            (match r {
                Ok(id) => Ok(id@),
                Err(e) => Err(e),
            }, (final(value).pos() - old(value).pos()) as nat) == peer_id_read(old(value).rest()),
    {
        if value.remaining() < PEER_ID_LENGTH_BYTES {
            return Err(Error::Incomplete);
        }
        let start = value.position();
        let peer_id = PeerId::new(value.get_ref(), start);
        value.advance(peer_id.len());
        assert(peer_id@ =~= old(value).rest().take(64));
        Ok(peer_id)
    }
}

/// An IPv4 or IPv6 address, by its octets.
#[derive(Debug, Clone, Copy, PartialEq, Eq, Hash)]
pub enum IpAddress {
    V4([u8; 4]),
    V6([u8; 16]),
}

/// An address as its kind and octets.
pub enum IpView {
    V4(Seq<u8>),
    V6(Seq<u8>),
}

impl View for IpAddress {
    type V = IpView;

    open spec fn view(&self) -> IpView {
        match self {
            IpAddress::V4(o) => IpView::V4(o@),
            IpAddress::V6(o) => IpView::V6(o@),
        }
    }
}

/// The octets of an address: 4 for IPv4, 16 for IPv6.
pub open spec fn ip_octets(ip: IpView) -> Seq<u8> {
    match ip {
        IpView::V4(o) => o,
        IpView::V6(o) => o,
    }
}

/// Whether an address has the octet count of its kind.
pub open spec fn ip_well_formed(ip: IpView) -> bool {
    match ip {
        IpView::V4(o) => o.len() == 4,
        IpView::V6(o) => o.len() == 16,
    }
}

impl IpAddress {
    /// The unspecified IPv4 address `0.0.0.0`.
    pub fn unspecified_v4() -> (r: IpAddress)
        ensures
            r@ == IpView::V4(seq![0u8, 0u8, 0u8, 0u8]),
    {
        let r = IpAddress::V4([0u8, 0u8, 0u8, 0u8]);
        assert(r@ == IpView::V4(seq![0u8, 0u8, 0u8, 0u8])) by {
            assert([0u8, 0u8, 0u8, 0u8]@ =~= seq![0u8, 0u8, 0u8, 0u8]);
        }
        r
    }

    /// Every address value has the octet count of its kind.
    pub proof fn lemma_well_formed(self)
        ensures
            ip_well_formed(self@),
    {
    }

    /// The octets of the address.
    pub fn octets(&self) -> (r: Vec<u8>)
        ensures
            r@ == ip_octets(self@),
    {
        let mut v: Vec<u8> = Vec::new();
        match self {
            IpAddress::V4(o) => append_bytes(&mut v, o.as_slice()),
            IpAddress::V6(o) => append_bytes(&mut v, o.as_slice()),
        }
        assert(v@ =~= ip_octets(self@));
        v
    }
}

/// What the relay reports about a peer: the peer, its public address and the
/// round-trip time from the relay to it in milliseconds.
#[derive(Debug, Clone, PartialEq, Eq)]
pub struct PeerInfo {
    pub peer_id: PeerId,
    pub ip: IpAddress,
    pub ping_rtt: u64,
}

/// A [`PeerInfo`] as plain values.
pub struct PeerInfoView {
    pub peer_id: Seq<u8>,
    pub ip: IpView,
    pub ping_rtt: u64,
}

impl View for PeerInfo {
    type V = PeerInfoView;

    open spec fn view(&self) -> PeerInfoView {
        PeerInfoView { peer_id: self.peer_id@, ip: self.ip@, ping_rtt: self.ping_rtt }
    }
}

/// The address field of a serialized [`PeerInfo`]: the octets, padded with
/// zeros to sixteen bytes.
pub open spec fn ip_field(ip: IpView) -> Seq<u8> {
    match ip {
        IpView::V4(o) => o + Seq::new(12, |i: int| 0u8),
        IpView::V6(o) => o,
    }
}

/// The address-type byte of a serialized [`PeerInfo`]: 0 for IPv4, 1 for IPv6.
pub open spec fn ip_type_byte(ip: IpView) -> u8 {
    match ip {
        IpView::V4(_) => 0,
        IpView::V6(_) => 1,
    }
}

/// The 33 bytes of a [`PeerInfo`]: address type, padded address, and the
/// round-trip time in milliseconds as a big-endian 128-bit number.
pub open spec fn peer_info_bytes(info: PeerInfoView) -> Seq<u8> {
    seq![ip_type_byte(info.ip)] + ip_field(info.ip) + Seq::new(8, |i: int| 0u8) + u64_bytes(
        info.ping_rtt,
    )
}

/// Reading a [`PeerInfo`] from `bytes`: the value and how many bytes the read
/// moves past. The identifier is not on the wire and reads as zeros; the
/// round-trip time keeps the low 64 bits of the 128-bit field.
pub open spec fn peer_info_read(bytes: Seq<u8>) -> (Result<PeerInfoView, Error>, nat) {
    if bytes.len() < 33 {
        (Err(Error::Incomplete), 0)
    } else if bytes[0] == 0 {
        (
            Ok(
                PeerInfoView {
                    peer_id: zero_peer_id(),
                    ip: IpView::V4(bytes.subrange(1, 5)),
                    ping_rtt: be_u64_at(bytes, 25) as u64,
                },
            ),
            33,
        )
    } else if bytes[0] == 1 {
        (
            Ok(
                PeerInfoView {
                    peer_id: zero_peer_id(),
                    ip: IpView::V6(bytes.subrange(1, 17)),
                    ping_rtt: be_u64_at(bytes, 25) as u64,
                },
            ),
            33,
        )
    } else {
        (Err(Error::Other(FrameFault::InvalidIpType)), 17)
    }
}

impl Default for PeerInfo {
    /// The metadata of an unknown peer: zero identifier, `0.0.0.0`, zero
    /// round-trip time.
    fn default() -> (r: PeerInfo)
        ensures
            r@ == (PeerInfoView {
                peer_id: zero_peer_id(),
                ip: IpView::V4(seq![0u8, 0u8, 0u8, 0u8]),
                ping_rtt: 0,
            }),
    {
        let r = PeerInfo { peer_id: PeerId([0u8; 64]), ip: IpAddress::unspecified_v4(), ping_rtt: 0 };
        assert(r.peer_id@ =~= zero_peer_id());
        r
    }
}

impl PeerInfo {

    /// The 33-byte payload of this metadata.
    pub fn to_be_bytes(&self) -> (r: Vec<u8>)
        ensures
            r@ == peer_info_bytes(self@),
            r@.len() == PEER_INFO_SERIALIZE_BYTES_LEN,
    {
        let mut bytes: Vec<u8> = Vec::with_capacity(PEER_INFO_SERIALIZE_BYTES_LEN);
        match self.ip {
            IpAddress::V4(_) => bytes.push(0u8),
            IpAddress::V6(_) => bytes.push(1u8),
        }
        match self.ip {
            IpAddress::V4(o) => {
                let mut padded = [0u8; 16];
                padded[0] = o[0];
                padded[1] = o[1];
                padded[2] = o[2];
                padded[3] = o[3];
                assert(padded@ =~= ip_field(self.ip@));
                append_bytes(&mut bytes, padded.as_slice());
            },
            IpAddress::V6(o) => {
                append_bytes(&mut bytes, o.as_slice());
            },
        }
        let high = [0u8; 8];
        append_bytes(&mut bytes, high.as_slice());
        let low = u64_to_be_bytes(self.ping_rtt);
        append_bytes(&mut bytes, low.as_slice());
        assert(high@ =~= Seq::new(8, |i: int| 0u8));
        assert(bytes@ =~= peer_info_bytes(self@));
        bytes
    }

    /// Reads a [`PeerInfo`] from the cursor: `Incomplete` without moving when
    /// fewer than 33 bytes are left; an error after the address when the type
    /// byte is neither 0 nor 1; otherwise the value, moving past all 33 bytes.
    pub fn try_from_cursor(value: &mut ByteCursor) -> (r: Result<PeerInfo, Error>)
        ensures
            final(value).bytes() == old(value).bytes(),
            final(value).pos() >= old(value).pos(),
            (match r {
                Ok(info) => Ok(info@),
                Err(e) => Err(e),
            }, (final(value).pos() - old(value).pos()) as nat) == peer_info_read(
                old(value).rest(),
            ),
    {
        if value.remaining() < PEER_INFO_SERIALIZE_BYTES_LEN {
            return Err(Error::Incomplete);
        }
        let ghost rest = old(value).rest();
        let ghost p0 = old(value).pos();
        let ghost all = old(value).bytes();
        let ip_type = value.get_u8();
        let mut ip_bytes = [0u8; 16];
        let mut i: usize = 0;
        while i < 16
            invariant
                i <= 16,
                ip_bytes@.len() == 16,
                value.bytes() == all,
                value.pos() == p0 + 1 + i,
                p0 + 33 <= all.len(),
                rest == all.skip(p0 as int),
                forall|j: int| 0 <= j < i ==> ip_bytes@[j] == all[p0 + 1 + j],
            decreases 16 - i,
        {
            ip_bytes[i] = value.get_u8();
            i = i + 1;
        }
        assert(forall|j: int| 0 <= j < 16 ==> ip_bytes@[j] == rest[1 + j]);
        let ip = if ip_type == 0 {
            let o = [ip_bytes[0], ip_bytes[1], ip_bytes[2], ip_bytes[3]];
            assert(o@ =~= rest.subrange(1, 5));
            IpAddress::V4(o)
        } else if ip_type == 1 {
            assert(ip_bytes@ =~= rest.subrange(1, 17));
            IpAddress::V6(ip_bytes)
        } else {
            return Err(Error::Other(FrameFault::InvalidIpType));
        };
        let pos = value.position();
        let data = value.get_ref();
        let n = data.len();
        assert(pos + 16 <= n);
        let ping_rtt = read_u64_be_at(data, pos + 8);
        assert(be_u64_at(all, pos + 8) == be_u64_at(rest, 25));
        value.advance(16);
        let r = PeerInfo { peer_id: PeerId([0u8; 64]), ip, ping_rtt };
        assert(r.peer_id@ =~= zero_peer_id());
        Ok(r)
    }
}

/// Reading back the bytes of a [`PeerInfo`] gives its address and round-trip
/// time, with the zero identifier, and moves past all 33 bytes.
pub proof fn lemma_peer_info_round_trip(info: PeerInfoView, rest: Seq<u8>)
    requires
        ip_well_formed(info.ip),
    ensures
        peer_info_bytes(info).len() == 33,
        peer_info_read(peer_info_bytes(info) + rest) == (
            Ok::<PeerInfoView, Error>(
                PeerInfoView { peer_id: zero_peer_id(), ip: info.ip, ping_rtt: info.ping_rtt },
            ),
            33nat,
        ),
{
    lemma_u64_bytes_value(info.ping_rtt);
    let b = peer_info_bytes(info) + rest;
    assert(peer_info_bytes(info).len() == 33);
    assert(b.subrange(25, 33) =~= u64_bytes(info.ping_rtt));
    assert(be_u64_at(b, 25) == be_u64_at(u64_bytes(info.ping_rtt), 0));
    match info.ip {
        IpView::V4(o) => {
            assert(b.subrange(1, 5) =~= o);
        },
        IpView::V6(o) => {
            assert(b.subrange(1, 17) =~= o);
        },
    }
}

/// The 33 bytes of peer metadata are the address type (0 for IPv4, 1 for
/// IPv6), the address padded with zeros to sixteen bytes, and the round-trip
/// time as one 128-bit big-endian number.
pub proof fn lemma_peer_info_layout(info: PeerInfoView)
    requires
        ip_well_formed(info.ip),
    ensures
        ({
            let p = peer_info_bytes(info);
            &&& p.len() == 33
            &&& be_value(p.subrange(17, 33)) == info.ping_rtt
            &&& match info.ip {
                IpView::V4(o) => {
                    &&& p[0] == 0
                    &&& p.subrange(1, 5) == o
                    &&& forall|i: int| 5 <= i < 17 ==> p[i] == 0
                },
                IpView::V6(o) => p[0] == 1 && p.subrange(1, 17) == o,
            }
        }),
{
    let p = peer_info_bytes(info);
    let rtt = u64_bytes(info.ping_rtt);
    lemma_u64_bytes_value(info.ping_rtt);
    let field = p.subrange(17, 33);
    lemma_be_value_16(field);
    assert forall|j: int| 0 <= j < 8 implies field[j] == 0 && field[8 + j] == rtt[j] by {
        assert(field[j] == p[17 + j]);
        assert(field[8 + j] == p[25 + j]);
    }
    assert(be_u64_at(field, 0) == 0);
    assert(be_u64_at(field, 8) == be_u64_at(rtt, 0));
    match info.ip {
        IpView::V4(o) => {
            assert(p.subrange(1, 5) =~= o);
        },
        IpView::V6(o) => {
            assert(p.subrange(1, 17) =~= o);
        },
    }
}

/// Reading peer metadata from 33 or more bytes: a type byte of 0 gives the
/// IPv4 address in the first four address bytes, 1 the sixteen-byte IPv6
/// address, either one the round-trip time as the low 64 bits of the 128-bit
/// big-endian number after the address, and the read moves past 33 bytes;
/// any other type byte is an invalid address type. Fewer bytes are
/// incomplete.
pub proof fn lemma_peer_info_read_layout(b: Seq<u8>)
    ensures
        b.len() < 33 ==> peer_info_read(b).0 == Err::<PeerInfoView, Error>(Error::Incomplete),
        b.len() >= 33 ==> match peer_info_read(b).0 {
            Ok(v) => {
                &&& b[0] <= 1
                &&& v.ping_rtt == be_value(b.subrange(17, 33)) % 18446744073709551616
                &&& peer_info_read(b).1 == 33
                &&& v.ip == (if b[0] == 0 {
                    IpView::V4(b.subrange(1, 5))
                } else {
                    IpView::V6(b.subrange(1, 17))
                })
            },
            Err(e) => b[0] > 1 && e == Error::Other(FrameFault::InvalidIpType),
        },
{
    if b.len() >= 33 {
        let field = b.subrange(17, 33);
        lemma_be_value_16(field);
        assert(be_u64_at(field, 8) == be_u64_at(b, 25));
        let h = be_u64_at(field, 0);
        let l = be_u64_at(field, 8);
        assert(h >= 0);
        assert((h * 18446744073709551616 + l) % 18446744073709551616 == l) by (nonlinear_arith)
            requires
                h >= 0,
                0 <= l < 18446744073709551616,
        ;
    }
}

} // verus!
