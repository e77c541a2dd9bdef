//! The relay server's decisions.
//!
//! The relay helps two peers connect through a technique like TCP hole
//! punching. Each peer registers with the relay; a source peer probes a
//! destination peer to learn its public address and round-trip time, then
//! asks the relay to tell the destination to connect back to it.
use vstd::prelude::*;
use crate::byte_buffer::{append_bytes, ByteCursor};
use crate::endian::{u64_bytes, u64_to_be_bytes};
use crate::relay::frame::{Error, FrameFault, PeerCommands, PeerFrames, RelayFrames, StatusCodes};
use crate::relay::peer;
use crate::relay::peer::{ip_octets, IpAddress, PEER_ID_LENGTH_BYTES};

verus! {

/// Health of the relay, as reported to a ping.
#[derive(Debug, Clone, Copy, PartialEq, Eq)]
pub enum HealthStatus {
    HEALTHY,
    UNHEALTHY,
}

/// The byte of each health status: 1 when healthy, 0 otherwise.
pub open spec fn health_code(h: HealthStatus) -> u8 {
    match h {
        HealthStatus::HEALTHY => 1,
        HealthStatus::UNHEALTHY => 0,
    }
}

/// The health status that a byte stands for, if any.
pub open spec fn health_of(b: u8) -> Option<HealthStatus> {
    if b == 1 {
        Some(HealthStatus::HEALTHY)
    } else if b == 0 {
        Some(HealthStatus::UNHEALTHY)
    } else {
        None
    }
}

impl HealthStatus {
    /// The byte of this health status.
    pub fn to_u8(self) -> (r: u8)
        ensures
            r == health_code(self),
    {
        match self {
            HealthStatus::HEALTHY => 1,
            HealthStatus::UNHEALTHY => 0,
        }
    }

    /// The health status that `value` stands for.
    pub fn try_from_u8(value: u8) -> (r: Result<HealthStatus, Error>)
        ensures
            r == (match health_of(value) {
                Some(h) => Ok(h),
                None => Err(Error::Other(FrameFault::UnsupportedHealthStatus)),
            }),
    {
        if value == 1 {
            Ok(HealthStatus::HEALTHY)
        } else if value == 0 {
            Ok(HealthStatus::UNHEALTHY)
        } else {
            Err(Error::Other(FrameFault::UnsupportedHealthStatus))
        }
    }
}

/// Length of a probe acknowledgement frame.
pub const PROBE_ACK_LENGTH: usize = 1;

/// A peer identifier as the relay first kept it, read from a cursor.
#[derive(Debug, Clone, PartialEq, Eq, Hash)]
pub struct PeerId([u8; PEER_ID_LENGTH_BYTES]);

impl View for PeerId {
    type V = Seq<u8>;

    closed spec fn view(&self) -> Seq<u8> {
        self.0@
    }
}

impl PeerId {
    /// The identifier made of the 64 bytes of `buf` from `start_index`.
    pub fn new(buf: &[u8], start_index: usize) -> (r: Self)
        requires
            start_index + 64 <= buf@.len(),
        ensures
            r@ == buf@.subrange(start_index as int, start_index + 64),
    {
        let id = peer::PeerId::new(buf, start_index);
        let mut bytes = [0u8; 64];
        let source = id.as_bytes();
        let mut i: usize = 0;
        while i < 64
            invariant
                i <= 64,
                start_index + 64 <= buf@.len(),
                source@ == buf@.subrange(start_index as int, start_index + 64),
                bytes@.len() == 64,
                forall|j: int| 0 <= j < i ==> bytes@[j] == source@[j],
            decreases 64 - i,
        {
            bytes[i] = source[i];
            i = i + 1;
        }
        assert(bytes@ =~= buf@.subrange(start_index as int, start_index + 64));
        PeerId(bytes)
    }

    /// The length of the identifier in bytes: always 64.
    pub fn len(&self) -> (r: usize)
        ensures
            r == PEER_ID_LENGTH_BYTES,
            r == self@.len(),
    {
        PEER_ID_LENGTH_BYTES
    }

    /// Reads an identifier from the cursor and moves past it; when fewer than
    /// 64 bytes are left it reports that the data is too short (an
    /// invalid-data error) without moving.
    pub fn try_from_cursor(value: &mut ByteCursor) -> (r: Result<PeerId, Error>)
        ensures
            final(value).bytes() == old(value).bytes(),
            old(value).rest().len() < 64 ==> r == Err::<PeerId, Error>(Error::Incomplete)
                && final(value).pos() == old(value).pos(),
            old(value).rest().len() >= 64 ==> (r matches Ok(id) && id@ == old(value).rest().take(
                64,
            )) && final(value).pos() == old(value).pos() + 64,
    {
        let remaining_bytes_to_read = value.remaining();
        if remaining_bytes_to_read < PEER_ID_LENGTH_BYTES {
            return Err(Error::Incomplete);
        }
        let start = value.position();
        let peer_id = PeerId::new(value.get_ref(), start);
        value.advance(peer_id.len());
        assert(peer_id@ =~= old(value).rest().take(64));
        Ok(peer_id)
    }
}

/// Peer metadata as the relay first kept it: the peer, its address and the
/// round-trip time to it in milliseconds.
#[derive(Debug, Clone)]
pub struct PeerInfo {
    peer_id: PeerId,
    ip: IpAddress,
    ping_rtt: u64,
}

impl PeerInfo {
    /// Metadata from its parts.
    pub fn new(peer_id: PeerId, ip: IpAddress, ping_rtt: u64) -> (r: Self)
        ensures
            r.peer_id() == peer_id@,
            r.ip() == ip@,
            r.ping_rtt() == ping_rtt,
    {
        PeerInfo { peer_id, ip, ping_rtt }
    }

    /// The peer.
    pub closed spec fn peer_id(&self) -> Seq<u8> {
        self.peer_id@
    }

    /// The peer's address.
    pub closed spec fn ip(&self) -> peer::IpView {
        self.ip@
    }

    /// The round-trip time in milliseconds.
    pub closed spec fn ping_rtt(&self) -> u64 {
        self.ping_rtt
    }

    /// The payload: the address octets (4 or 16), then the round-trip time in
    /// milliseconds as a big-endian 128-bit number.
    pub fn to_be_bytes(&self) -> (r: Vec<u8>)
        ensures
            r@ == ip_octets(self.ip()) + Seq::new(8, |i: int| 0u8) + u64_bytes(self.ping_rtt()),
    {
        let mut bytes: Vec<u8> = Vec::with_capacity(20);
        let ip_bytes = self.ip.octets();
        append_bytes(&mut bytes, ip_bytes.as_slice());
        let high = [0u8; 8];
        append_bytes(&mut bytes, high.as_slice());
        let low = u64_to_be_bytes(self.ping_rtt);
        append_bytes(&mut bytes, low.as_slice());
        assert(high@ =~= Seq::new(8, |i: int| 0u8));
        assert(bytes@ =~= ip_octets(self.ip()) + Seq::new(8, |i: int| 0u8) + u64_bytes(
            self.ping_rtt(),
        ));
        bytes
    }
}

/// What the relay does for a frame that a peer sent it.
#[derive(Debug, PartialEq, Eq)]
pub enum RelayAction {
    /// Register the sending peer under this identifier, then answer with
    /// [`registration_reply`].
    Register(peer::PeerId),
    /// Probe the peer with this identifier, then answer with [`probe_reply`].
    Probe(peer::PeerId),
    /// Tell the peer with this identifier to connect to the sender, then
    /// answer with [`synchronization_reply`].
    Synchronize(peer::PeerId),
    /// Answer with this frame right away.
    Reply(PeerFrames),
    /// A probe acknowledgement outside a probe: nothing is answered.
    Ignore,
}

/// The action for a frame received from a peer: registrations, probes and
/// connection requests go to the server; a ping is answered as healthy; a
/// stray probe acknowledgement is ignored.
pub fn action_for(frame: RelayFrames) -> (r: RelayAction)
    ensures
        match frame {
            RelayFrames::Register(id) => r == RelayAction::Register(id),
            RelayFrames::Probe(id) => r == RelayAction::Probe(id),
            RelayFrames::DoConnect(id) => r == RelayAction::Synchronize(id),
            RelayFrames::Ping => r == RelayAction::Reply(
                PeerFrames::PingResult(HealthStatus::HEALTHY),
            ),
            RelayFrames::ProbeAck => r == RelayAction::Ignore,
        },
{
    match frame {
        RelayFrames::Register(peer_id) => RelayAction::Register(peer_id),
        RelayFrames::Probe(peer_id) => RelayAction::Probe(peer_id),
        RelayFrames::DoConnect(peer_id) => RelayAction::Synchronize(peer_id),
        RelayFrames::Ping => RelayAction::Reply(PeerFrames::PingResult(HealthStatus::HEALTHY)),
        RelayFrames::ProbeAck => RelayAction::Ignore,
    }
}

/// The answer to a registration: success or failure.
pub fn registration_reply(registered: bool) -> (r: PeerFrames)
    ensures
        r == PeerFrames::RegisterResult(
            if registered {
                StatusCodes::SUCCESS
            } else {
                StatusCodes::FAILURE
            },
        ),
{
    if registered {
        PeerFrames::RegisterResult(StatusCodes::SUCCESS)
    } else {
        PeerFrames::RegisterResult(StatusCodes::FAILURE)
    }
}

/// The answer to a probe: the probed peer's metadata, or none.
pub fn probe_reply(found: Option<peer::PeerInfo>) -> (r: PeerFrames)
    ensures
        r == PeerFrames::ProbeResult(found),
{
    PeerFrames::ProbeResult(found)
}

/// The answer to a request to make a peer connect: success or failure.
pub fn synchronization_reply(done: bool) -> (r: PeerFrames)
    ensures
        r == PeerFrames::DoConnectResult(
            if done {
                StatusCodes::SUCCESS
            } else {
                StatusCodes::FAILURE
            },
        ),
{
    if done {
        PeerFrames::DoConnectResult(StatusCodes::SUCCESS)
    } else {
        PeerFrames::DoConnectResult(StatusCodes::FAILURE)
    }
}

/// The command the relay sends to a probed peer.
pub fn probe_command() -> (r: PeerFrames)
    ensures
        r == PeerFrames::Command(PeerCommands::SYNC),
{
    PeerFrames::Command(PeerCommands::SYNC)
}

/// The command that tells a peer to connect to `source_ip`.
pub fn connect_command(source_ip: IpAddress) -> (r: PeerFrames)
    ensures
        r == PeerFrames::Command(PeerCommands::DOCONNECT(source_ip)),
{
    PeerFrames::Command(PeerCommands::DOCONNECT(source_ip))
}

/// The probe to send to a peer found in the relay's registry: the peer's
/// entry with the command that asks it to acknowledge, or
/// [`ProbeError::NotRegistered`] when the registry has no entry for it.
pub fn probe_target<T>(entry: Option<T>) -> (r: Result<(T, PeerFrames), ProbeError>)
    ensures
        match entry {
            Some(e) => r == Ok::<(T, PeerFrames), ProbeError>(
                (e, PeerFrames::Command(PeerCommands::SYNC)),
            ),
            None => r == Err::<(T, PeerFrames), ProbeError>(ProbeError::NotRegistered),
        },
{
    match entry {
        Some(e) => Ok((e, probe_command())),
        None => Err(ProbeError::NotRegistered),
    }
}

/// The request to send to a destination peer found in the relay's registry
/// so that it connects to `source_ip`: the peer's entry with the command, or
/// [`ProbeError::NotRegistered`] when the registry has no entry for it.
pub fn synchronization_target<T>(entry: Option<T>, source_ip: IpAddress) -> (r: Result<
    (T, PeerFrames),
    ProbeError,
>)
    ensures
        match entry {
            Some(e) => r == Ok::<(T, PeerFrames), ProbeError>(
                (e, PeerFrames::Command(PeerCommands::DOCONNECT(source_ip))),
            ),
            None => r == Err::<(T, PeerFrames), ProbeError>(ProbeError::NotRegistered),
        },
{
    match entry {
        Some(e) => Ok((e, connect_command(source_ip))),
        None => Err(ProbeError::NotRegistered),
    }
}

/// Why a probe or a request to connect failed.
#[derive(Debug, Clone, Copy, PartialEq, Eq)]
pub enum ProbeError {
    /// The peer is not registered.
    NotRegistered,
    /// The probed peer answered with something other than an acknowledgement.
    InvalidAnswer,
    /// The probed peer's stream ended without an acknowledgement.
    NoAnswer,
}

/// The outcome of probing a registered peer at `ip`, given its answer and
/// the time from sending the probe to reading the answer: the peer's
/// metadata when it acknowledged.
pub fn probe_result(
    peer_id: peer::PeerId,
    ip: IpAddress,
    elapsed_millis: u64,
    answer: Option<RelayFrames>,
) -> (r: Result<peer::PeerInfo, ProbeError>)
    ensures
        match answer {
            Some(RelayFrames::ProbeAck) => r matches Ok(info) && info.peer_id == peer_id
                && info.ip == ip && info.ping_rtt == elapsed_millis,
            Some(_) => r == Err::<peer::PeerInfo, ProbeError>(ProbeError::InvalidAnswer),
            None => r == Err::<peer::PeerInfo, ProbeError>(ProbeError::NoAnswer),
        },
{
    match answer {
        Some(RelayFrames::ProbeAck) => Ok(
            peer::PeerInfo { peer_id, ip, ping_rtt: elapsed_millis },
        ),
        Some(_) => Err(ProbeError::InvalidAnswer),
        None => Err(ProbeError::NoAnswer),
    }
}

} // verus!
