//! Frames exchanged with the relay server.
//!
//! Every frame starts with a one-byte operation code followed by a body whose
//! shape the operation fixes. [`RelayFrames`] travel from peers to the relay,
//! [`PeerFrames`] from the relay to peers.
use vstd::prelude::*;
use bytes::BytesMut;
use crate::byte_buffer::{
    bytes_mut_contents, bytes_mut_extend, bytes_mut_put_u8, bytes_mut_with_capacity, ByteCursor,
};
use crate::relay::peer::{
    ip_octets, ip_well_formed, lemma_peer_info_round_trip, peer_id_read, peer_info_bytes,
    peer_info_read, zero_peer_id, IpAddress, IpView, PeerId, PeerInfo, PeerInfoView,
};
use crate::relay::relay::{health_code, health_of, HealthStatus};

verus! {

/// Why a frame could not be read, besides running out of bytes.
#[derive(Debug, Clone, Copy, PartialEq, Eq)]
pub enum FrameFault {
    /// The operation byte is not one of [`RelayOperations`].
    UnsupportedRelayOperation,
    /// The operation byte is not one of [`PeerOperations`].
    UnsupportedPeerOperation,
    /// The status byte is not one of [`StatusCodes`].
    UnsupportedStatusCode,
    /// The health byte is not one of [`HealthStatus`].
    UnsupportedHealthStatus,
    /// The command byte is not one of [`PeerCommands`].
    UnknownPeerCommand,
    /// The address-type byte of a [`PeerInfo`] is neither 0 nor 1.
    InvalidIpType,
}

/// The kind of I/O error that a frame error stands for.
#[derive(Debug, Clone, Copy, PartialEq, Eq)]
pub enum FaultKind {
    InvalidInput,
    InvalidData,
}

impl FrameFault {
    /// The I/O error kind of this fault.
    pub fn kind(&self) -> (r: FaultKind)
        ensures
            r == (match self {
                FrameFault::InvalidIpType => FaultKind::InvalidData,
                _ => FaultKind::InvalidInput,
            }),
    {
        match self {
            FrameFault::InvalidIpType => FaultKind::InvalidData,
            _ => FaultKind::InvalidInput,
        }
    }

    /// The message of this fault.
    pub fn message(&self) -> (r: &'static str)
        ensures
            r@ == (match self {
                FrameFault::UnsupportedRelayOperation => "Receiving Operation not supported"@,
                FrameFault::UnsupportedPeerOperation => "Sending Operation not supported"@,
                FrameFault::UnsupportedStatusCode => "Status Code not supported"@,
                FrameFault::UnsupportedHealthStatus => "Health Status not supported"@,
                FrameFault::UnknownPeerCommand => "Unknown Peer Command"@,
                FrameFault::InvalidIpType => "Invalid IP type"@,
            }),
    {
        match self {
            FrameFault::UnsupportedRelayOperation => "Receiving Operation not supported",
            FrameFault::UnsupportedPeerOperation => "Sending Operation not supported",
            FrameFault::UnsupportedStatusCode => "Status Code not supported",
            FrameFault::UnsupportedHealthStatus => "Health Status not supported",
            FrameFault::UnknownPeerCommand => "Unknown Peer Command",
            FrameFault::InvalidIpType => "Invalid IP type",
        }
    }
}

/// Error for reading a frame.
#[derive(Debug, Clone, Copy, PartialEq, Eq)]
pub enum Error {
    /// The bytes end before the frame does.
    Incomplete,
    Other(FrameFault),
}

impl Error {
    /// The text of the error.
    pub fn message(&self) -> (r: &'static str)
        ensures
            r@ == (match self {
                Error::Incomplete => "Incomplete Frame Received"@,
                Error::Other(f) => match f {
                    FrameFault::UnsupportedRelayOperation => "Receiving Operation not supported"@,
                    FrameFault::UnsupportedPeerOperation => "Sending Operation not supported"@,
                    FrameFault::UnsupportedStatusCode => "Status Code not supported"@,
                    FrameFault::UnsupportedHealthStatus => "Health Status not supported"@,
                    FrameFault::UnknownPeerCommand => "Unknown Peer Command"@,
                    FrameFault::InvalidIpType => "Invalid IP type"@,
                },
            }),
    {
        match self {
            Error::Incomplete => "Incomplete Frame Received",
            Error::Other(fault) => fault.message(),
        }
    }
}

/// A set of operation codes.
pub trait Operations {
    /// The byte that stands for this operation.
    spec fn code(&self) -> u8;

    /// The byte that stands for this operation.
    fn to_u8(&self) -> (r: u8)
        ensures
            r == self.code(),
    ;
}

/// Operations that peers send to the relay server.
#[derive(Debug, Clone, Copy, PartialEq, Eq)]
pub enum RelayOperations {
    /// Register the peer, so that other peers can reach it.
    Register,
    /// Ask for the details needed to connect to a peer.
    Probe,
    /// Tell a peer to open a connection.
    DoConnect,
    /// Measure the round trip to the relay.
    Ping,
    /// A peer's answer to a probe.
    ProbeAck,
}

/// The byte of each relay operation.
pub open spec fn relay_operation_code(op: RelayOperations) -> u8 {
    match op {
        RelayOperations::Register => 1,
        RelayOperations::Probe => 2,
        RelayOperations::DoConnect => 3,
        RelayOperations::Ping => 4,
        RelayOperations::ProbeAck => 5,
    }
}

/// The relay operation that a byte stands for, if any.
pub open spec fn relay_operation_of(b: u8) -> Option<RelayOperations> {
    if b == 1 {
        Some(RelayOperations::Register)
    } else if b == 2 {
        Some(RelayOperations::Probe)
    } else if b == 3 {
        Some(RelayOperations::DoConnect)
    } else if b == 4 {
        Some(RelayOperations::Ping)
    } else if b == 5 {
        Some(RelayOperations::ProbeAck)
    } else {
        None
    }
}

impl Operations for RelayOperations {
    open spec fn code(&self) -> u8 {
        relay_operation_code(*self)
    }

    fn to_u8(&self) -> (r: u8) {
        match self {
            RelayOperations::Register => 1,
            RelayOperations::Probe => 2,
            RelayOperations::DoConnect => 3,
            RelayOperations::Ping => 4,
            RelayOperations::ProbeAck => 5,
        }
    }
}

impl RelayOperations {
    /// The relay operation that `value` stands for.
    pub fn try_from_u8(value: u8) -> (r: Result<RelayOperations, Error>)
        ensures
            r == (match relay_operation_of(value) {
                Some(op) => Ok(op),
                None => Err(Error::Other(FrameFault::UnsupportedRelayOperation)),
            }),
    {
        match value {
            1 => Ok(RelayOperations::Register),
            2 => Ok(RelayOperations::Probe),
            3 => Ok(RelayOperations::DoConnect),
            4 => Ok(RelayOperations::Ping),
            5 => Ok(RelayOperations::ProbeAck),
            _ => Err(Error::Other(FrameFault::UnsupportedRelayOperation)),
        }
    }
}

/// Operations that the relay server sends to peers.
#[derive(Debug, Clone, Copy, PartialEq, Eq)]
pub enum PeerOperations {
    /// Answer to a registration.
    RegisterResult,
    /// The details of a probed peer.
    ProbeResult,
    /// Answer to a request to make a peer connect.
    DoConnectResult,
    /// Answer to a ping.
    PingResult,
    /// A command for the destination peer.
    Commands,
}

/// The byte of each peer operation.
pub open spec fn peer_operation_code(op: PeerOperations) -> u8 {
    match op {
        PeerOperations::RegisterResult => 21,
        PeerOperations::ProbeResult => 22,
        PeerOperations::DoConnectResult => 23,
        PeerOperations::PingResult => 24,
        PeerOperations::Commands => 25,
    }
}

/// The peer operation that a byte stands for, if any.
pub open spec fn peer_operation_of(b: u8) -> Option<PeerOperations> {
    if b == 21 {
        Some(PeerOperations::RegisterResult)
    } else if b == 22 {
        Some(PeerOperations::ProbeResult)
    } else if b == 23 {
        Some(PeerOperations::DoConnectResult)
    } else if b == 24 {
        Some(PeerOperations::PingResult)
    } else if b == 25 {
        Some(PeerOperations::Commands)
    } else {
        None
    }
}

impl Operations for PeerOperations {
    open spec fn code(&self) -> u8 {
        peer_operation_code(*self)
    }

    fn to_u8(&self) -> (r: u8) {
        match self {
            PeerOperations::RegisterResult => 21,
            PeerOperations::ProbeResult => 22,
            PeerOperations::DoConnectResult => 23,
            PeerOperations::PingResult => 24,
            PeerOperations::Commands => 25,
        }
    }
}

impl PeerOperations {
    /// The peer operation that `value` stands for.
    pub fn try_from_u8(value: u8) -> (r: Result<PeerOperations, Error>)
        ensures
            r == (match peer_operation_of(value) {
                Some(op) => Ok(op),
                None => Err(Error::Other(FrameFault::UnsupportedPeerOperation)),
            }),
    {
        match value {
            21 => Ok(PeerOperations::RegisterResult),
            22 => Ok(PeerOperations::ProbeResult),
            23 => Ok(PeerOperations::DoConnectResult),
            24 => Ok(PeerOperations::PingResult),
            25 => Ok(PeerOperations::Commands),
            _ => Err(Error::Other(FrameFault::UnsupportedPeerOperation)),
        }
    }
}

/// Outcome of a request, as the relay reports it.
#[derive(Debug, Clone, Copy, PartialEq, Eq)]
pub enum StatusCodes {
    SUCCESS,
    FAILURE,
}

/// The byte of each status: 200 for success, 111 for failure.
pub open spec fn status_code(s: StatusCodes) -> u8 {
    match s {
        StatusCodes::SUCCESS => 200,
        StatusCodes::FAILURE => 111,
    }
}

/// The status that a byte stands for, if any.
pub open spec fn status_of(b: u8) -> Option<StatusCodes> {
    if b == 200 {
        Some(StatusCodes::SUCCESS)
    } else if b == 111 {
        Some(StatusCodes::FAILURE)
    } else {
        None
    }
}

impl StatusCodes {
    /// The byte of this status.
    pub fn into_u8(self) -> (r: u8)
        ensures
            r == status_code(self),
    {
        match self {
            StatusCodes::SUCCESS => 200,
            StatusCodes::FAILURE => 111,
        }
    }

    /// The status that `value` stands for.
    pub fn try_from_u8(value: u8) -> (r: Result<StatusCodes, Error>)
        ensures
            r == (match status_of(value) {
                Some(s) => Ok(s),
                None => Err(Error::Other(FrameFault::UnsupportedStatusCode)),
            }),
    {
        if value == 200 {
            Ok(StatusCodes::SUCCESS)
        } else if value == 111 {
            Ok(StatusCodes::FAILURE)
        } else {
            Err(Error::Other(FrameFault::UnsupportedStatusCode))
        }
    }
}

/// Command byte that asks a peer to acknowledge a probe.
pub const SYNC_CODE: u8 = 100;

/// Command byte that asks a peer to connect to an address.
pub const DOCONNECT_CODE: u8 = 101;

/// Commands that the relay sends to a destination peer.
#[derive(Debug, Clone, Copy, PartialEq, Eq)]
pub enum PeerCommands {
    /// Answer with a probe acknowledgement.
    SYNC,
    /// Open a connection to the given address.
    DOCONNECT(IpAddress),
}

/// A command as plain values.
pub enum CommandView {
    Sync,
    DoConnect(IpView),
}

impl View for PeerCommands {
    type V = CommandView;

    open spec fn view(&self) -> CommandView {
        match self {
            PeerCommands::SYNC => CommandView::Sync,
            PeerCommands::DOCONNECT(ip) => CommandView::DoConnect(ip@),
        }
    }
}

/// The bytes of a command: its code, then the octets of the address for
/// `DOCONNECT`.
pub open spec fn command_bytes(c: CommandView) -> Seq<u8> {
    match c {
        CommandView::Sync => seq![100u8],
        CommandView::DoConnect(ip) => seq![101u8] + ip_octets(ip),
    }
}

impl PeerCommands {
    /// The bytes of this command.
    pub fn to_be_bytes(self) -> (r: Vec<u8>)
        ensures
            r@ == command_bytes(self@),
    {
        let mut bytes: Vec<u8> = Vec::with_capacity(64);
        match self {
            PeerCommands::SYNC => bytes.push(SYNC_CODE),
            PeerCommands::DOCONNECT(source_ip) => {
                bytes.push(DOCONNECT_CODE);
                let octets = source_ip.octets();
                crate::byte_buffer::append_bytes(&mut bytes, octets.as_slice());
            },
        }
        assert(bytes@ =~= command_bytes(self@));
        bytes
    }
}

/// A frame that can be read from and written to bytes, whose operations are
/// `O`.
pub trait Frame<O: Operations>: Sized + View {
    /// Reading the operation byte from `bytes`: the operation and how many
    /// bytes the read moves past.
    spec fn operation_read(bytes: Seq<u8>) -> (Result<O, Error>, nat);

    /// Reading a whole frame from `bytes`: the frame and how many bytes the
    /// read moves past.
    spec fn frame_read(bytes: Seq<u8>) -> (Result<Self::V, Error>, nat);

    /// The bytes of a frame.
    spec fn frame_bytes(v: Self::V) -> Seq<u8>;

    /// Reads the operation byte.
    fn read_operation(buf: &mut ByteCursor) -> (r: Result<O, Error>)
        ensures
            final(buf).bytes() == old(buf).bytes(),
            final(buf).pos() >= old(buf).pos(),
            (r, (final(buf).pos() - old(buf).pos()) as nat) == Self::operation_read(
                old(buf).rest(),
            ),
    ;

    /// Reads a frame and moves past it.
    fn parse(buf: &mut ByteCursor) -> (r: Result<Self, Error>)
        ensures
            final(buf).bytes() == old(buf).bytes(),
            final(buf).pos() >= old(buf).pos(),
            (match r {
                Ok(f) => Ok(f@),
                Err(e) => Err(e),
            }, (final(buf).pos() - old(buf).pos()) as nat) == Self::frame_read(old(buf).rest()),
    ;

    /// Writes the operation byte and then the body.
    fn to_be_bytes(self) -> (r: BytesMut)
        ensures
            bytes_mut_contents(r) == Self::frame_bytes(self@),
    ;
}

/// Frames that peers send to the relay server.
#[derive(Debug, PartialEq, Eq)]
pub enum RelayFrames {
    Register(PeerId),
    Probe(PeerId),
    DoConnect(PeerId),
    Ping,
    ProbeAck,
}

/// A [`RelayFrames`] as plain values.
pub enum RelayFrameView {
    Register(Seq<u8>),
    Probe(Seq<u8>),
    DoConnect(Seq<u8>),
    Ping,
    ProbeAck,
}

impl View for RelayFrames {
    type V = RelayFrameView;

    open spec fn view(&self) -> RelayFrameView {
        match self {
            RelayFrames::Register(id) => RelayFrameView::Register(id@),
            RelayFrames::Probe(id) => RelayFrameView::Probe(id@),
            RelayFrames::DoConnect(id) => RelayFrameView::DoConnect(id@),
            RelayFrames::Ping => RelayFrameView::Ping,
            RelayFrames::ProbeAck => RelayFrameView::ProbeAck,
        }
    }
}

/// Reading a relay operation byte from `bytes`.
pub open spec fn relay_operation_read(bytes: Seq<u8>) -> (Result<RelayOperations, Error>, nat) {
    if bytes.len() == 0 {
        (Err(Error::Incomplete), 0)
    } else {
        match relay_operation_of(bytes[0]) {
            Some(op) => (Ok(op), 1),
            None => (Err(Error::Other(FrameFault::UnsupportedRelayOperation)), 1),
        }
    }
}

/// Reading a frame whose body is a peer identifier, after its operation byte.
pub open spec fn with_peer_id(
    bytes: Seq<u8>,
    make: spec_fn(Seq<u8>) -> RelayFrameView,
) -> (Result<RelayFrameView, Error>, nat) {
    match peer_id_read(bytes.skip(1)) {
        (Ok(id), n) => (Ok(make(id)), n + 1),
        (Err(e), n) => (Err(e), n + 1),
    }
}

/// Reading a [`RelayFrames`] from `bytes`.
pub open spec fn relay_frame_read(bytes: Seq<u8>) -> (Result<RelayFrameView, Error>, nat) {
    match relay_operation_read(bytes) {
        (Err(e), n) => (Err(e), n),
        (Ok(RelayOperations::Register), _) => with_peer_id(
            bytes,
            |id: Seq<u8>| RelayFrameView::Register(id),
        ),
        (Ok(RelayOperations::Probe), _) => with_peer_id(
            bytes,
            |id: Seq<u8>| RelayFrameView::Probe(id),
        ),
        (Ok(RelayOperations::DoConnect), _) => with_peer_id(
            bytes,
            |id: Seq<u8>| RelayFrameView::DoConnect(id),
        ),
        (Ok(RelayOperations::Ping), n) => (Ok(RelayFrameView::Ping), n),
        (Ok(RelayOperations::ProbeAck), n) => (Ok(RelayFrameView::ProbeAck), n),
    }
}

/// The bytes of a [`RelayFrames`]: the operation byte, then the identifier
/// for the frames that carry one.
pub open spec fn relay_frame_bytes(f: RelayFrameView) -> Seq<u8> {
    match f {
        RelayFrameView::Register(id) => seq![1u8] + id,
        RelayFrameView::Probe(id) => seq![2u8] + id,
        RelayFrameView::DoConnect(id) => seq![3u8] + id,
        RelayFrameView::Ping => seq![4u8],
        RelayFrameView::ProbeAck => seq![5u8],
    }
}

impl Frame<RelayOperations> for RelayFrames {
    open spec fn operation_read(bytes: Seq<u8>) -> (Result<RelayOperations, Error>, nat) {
        relay_operation_read(bytes)
    }

    open spec fn frame_read(bytes: Seq<u8>) -> (Result<RelayFrameView, Error>, nat) {
        relay_frame_read(bytes)
    }

    open spec fn frame_bytes(v: RelayFrameView) -> Seq<u8> {
        relay_frame_bytes(v)
    }

    fn read_operation(buf: &mut ByteCursor) -> (r: Result<RelayOperations, Error>) {
        if !buf.has_remaining() {
            return Err(Error::Incomplete);
        }
        let b = buf.get_u8();
        RelayOperations::try_from_u8(b)
    }

    fn parse(buf: &mut ByteCursor) -> (r: Result<RelayFrames, Error>) {
        let ghost rest = old(buf).rest();
        let ghost p0 = old(buf).pos();
        let _ = buf.remaining();
        let op = Self::read_operation(buf);
        proof {
            if rest.len() > 0 {
                assert(buf.rest() =~= rest.skip(1));
            }
        }
        match op {
            Err(e) => Err(e),
            Ok(RelayOperations::Register) => match PeerId::try_from_cursor(buf) {
                Ok(id) => Ok(RelayFrames::Register(id)),
                Err(e) => Err(e),
            },
            Ok(RelayOperations::Probe) => match PeerId::try_from_cursor(buf) {
                Ok(id) => Ok(RelayFrames::Probe(id)),
                Err(e) => Err(e),
            },
            Ok(RelayOperations::DoConnect) => match PeerId::try_from_cursor(buf) {
                Ok(id) => Ok(RelayFrames::DoConnect(id)),
                Err(e) => Err(e),
            },
            Ok(RelayOperations::Ping) => Ok(RelayFrames::Ping),
            Ok(RelayOperations::ProbeAck) => Ok(RelayFrames::ProbeAck),
        }
    }

    fn to_be_bytes(self) -> (r: BytesMut) {
        let mut bytes = bytes_mut_with_capacity(1024);
        match self {
            RelayFrames::Register(peer_id) => {
                proof {
                    peer_id.lemma_view_len();
                }
                bytes_mut_put_u8(&mut bytes, RelayOperations::Register.to_u8());
                bytes_mut_extend(&mut bytes, peer_id.as_bytes());
            },
            RelayFrames::Probe(peer_id) => {
                proof {
                    peer_id.lemma_view_len();
                }
                bytes_mut_put_u8(&mut bytes, RelayOperations::Probe.to_u8());
                bytes_mut_extend(&mut bytes, peer_id.as_bytes());
            },
            RelayFrames::DoConnect(peer_id) => {
                proof {
                    peer_id.lemma_view_len();
                }
                bytes_mut_put_u8(&mut bytes, RelayOperations::DoConnect.to_u8());
                bytes_mut_extend(&mut bytes, peer_id.as_bytes());
            },
            RelayFrames::Ping => {
                bytes_mut_put_u8(&mut bytes, RelayOperations::Ping.to_u8());
            },
            RelayFrames::ProbeAck => {
                bytes_mut_put_u8(&mut bytes, RelayOperations::ProbeAck.to_u8());
            },
        }
        assert(bytes_mut_contents(bytes) =~= relay_frame_bytes(self@));
        bytes
    }
}

/// Frames that the relay server sends to peers.
#[derive(Debug, Clone, PartialEq, Eq)]
pub enum PeerFrames {
    RegisterResult(StatusCodes),
    ProbeResult(Option<PeerInfo>),
    DoConnectResult(StatusCodes),
    PingResult(HealthStatus),
    Command(PeerCommands),
}

/// A [`PeerFrames`] as plain values.
pub enum PeerFrameView {
    RegisterResult(StatusCodes),
    ProbeResult(Option<PeerInfoView>),
    DoConnectResult(StatusCodes),
    PingResult(HealthStatus),
    Command(CommandView),
}

impl View for PeerFrames {
    type V = PeerFrameView;

    open spec fn view(&self) -> PeerFrameView {
        match self {
            PeerFrames::RegisterResult(s) => PeerFrameView::RegisterResult(*s),
            PeerFrames::ProbeResult(None) => PeerFrameView::ProbeResult(None),
            PeerFrames::ProbeResult(Some(info)) => PeerFrameView::ProbeResult(Some(info@)),
            PeerFrames::DoConnectResult(s) => PeerFrameView::DoConnectResult(*s),
            PeerFrames::PingResult(h) => PeerFrameView::PingResult(*h),
            PeerFrames::Command(c) => PeerFrameView::Command(c@),
        }
    }
}

/// Reading a peer operation byte from `bytes`.
pub open spec fn peer_operation_read(bytes: Seq<u8>) -> (Result<PeerOperations, Error>, nat) {
    if bytes.len() == 0 {
        (Err(Error::Incomplete), 0)
    } else {
        match peer_operation_of(bytes[0]) {
            Some(op) => (Ok(op), 1),
            None => (Err(Error::Other(FrameFault::UnsupportedPeerOperation)), 1),
        }
    }
}

/// Reading the body of a [`PeerFrames`] whose operation is `op` from `bytes`,
/// which start with the operation byte and hold at least two bytes.
pub open spec fn peer_body_read(op: PeerOperations, bytes: Seq<u8>) -> (
    Result<PeerFrameView, Error>,
    nat,
) {
    let b = bytes[1];
    match op {
        PeerOperations::RegisterResult => match status_of(b) {
            Some(s) => (Ok(PeerFrameView::RegisterResult(s)), 2),
            None => (Err(Error::Other(FrameFault::UnsupportedStatusCode)), 2),
        },
        PeerOperations::ProbeResult => match status_of(b) {
            None => (Err(Error::Other(FrameFault::UnsupportedStatusCode)), 2),
            Some(StatusCodes::FAILURE) => (Ok(PeerFrameView::ProbeResult(None)), 2),
            Some(StatusCodes::SUCCESS) => match peer_info_read(bytes.skip(2)) {
                (Ok(info), n) => (Ok(PeerFrameView::ProbeResult(Some(info))), n + 2),
                (Err(e), n) => (Err(e), n + 2),
            },
        },
        PeerOperations::DoConnectResult => match status_of(b) {
            Some(s) => (Ok(PeerFrameView::DoConnectResult(s)), 2),
            None => (Err(Error::Other(FrameFault::UnsupportedStatusCode)), 2),
        },
        PeerOperations::PingResult => match health_of(b) {
            Some(h) => (Ok(PeerFrameView::PingResult(h)), 2),
            None => (Err(Error::Other(FrameFault::UnsupportedHealthStatus)), 2),
        },
        PeerOperations::Commands => if b == 100 {
            (Ok(PeerFrameView::Command(CommandView::Sync)), 2)
        } else if b == 101 {
            if bytes.len() < 6 {
                (Err(Error::Incomplete), 2)
            } else {
                (Ok(PeerFrameView::Command(CommandView::DoConnect(IpView::V4(bytes.subrange(2, 6))))), 6)
            }
        } else {
            (Err(Error::Other(FrameFault::UnknownPeerCommand)), 2)
        },
    }
}

/// Reading a [`PeerFrames`] from `bytes`. The address of a `DOCONNECT`
/// command is read as IPv4: four bytes.
pub open spec fn peer_frame_read(bytes: Seq<u8>) -> (Result<PeerFrameView, Error>, nat) {
    match peer_operation_read(bytes) {
        (Err(e), n) => (Err(e), n),
        (Ok(op), n) => if bytes.len() < 2 {
            (Err(Error::Incomplete), n)
        } else {
            peer_body_read(op, bytes)
        },
    }
}

/// The bytes of a [`PeerFrames`]: the operation byte, then the status, health
/// or command byte, then the peer metadata of a successful probe or the
/// address of a `DOCONNECT` command.
pub open spec fn peer_frame_bytes(f: PeerFrameView) -> Seq<u8> {
    match f {
        PeerFrameView::RegisterResult(s) => seq![21u8, status_code(s)],
        PeerFrameView::ProbeResult(None) => seq![22u8, 111u8],
        PeerFrameView::ProbeResult(Some(info)) => seq![22u8, 200u8] + peer_info_bytes(info),
        PeerFrameView::DoConnectResult(s) => seq![23u8, status_code(s)],
        PeerFrameView::PingResult(h) => seq![24u8, health_code(h)],
        PeerFrameView::Command(c) => seq![25u8] + command_bytes(c),
    }
}

impl Frame<PeerOperations> for PeerFrames {
    open spec fn operation_read(bytes: Seq<u8>) -> (Result<PeerOperations, Error>, nat) {
        peer_operation_read(bytes)
    }

    open spec fn frame_read(bytes: Seq<u8>) -> (Result<PeerFrameView, Error>, nat) {
        peer_frame_read(bytes)
    }

    open spec fn frame_bytes(v: PeerFrameView) -> Seq<u8> {
        peer_frame_bytes(v)
    }

    fn read_operation(buf: &mut ByteCursor) -> (r: Result<PeerOperations, Error>) {
        if !buf.has_remaining() {
            return Err(Error::Incomplete);
        }
        let b = buf.get_u8();
        PeerOperations::try_from_u8(b)
    }

    fn parse(buf: &mut ByteCursor) -> (r: Result<PeerFrames, Error>) {
        let ghost rest = old(buf).rest();
        let ghost p0 = old(buf).pos();
        let ghost all = old(buf).bytes();
        let _ = buf.remaining();
        let op = match Self::read_operation(buf) {
            Ok(op) => op,
            Err(e) => return Err(e),
        };
        if !buf.has_remaining() {
            return Err(Error::Incomplete);
        }
        let b = buf.get_u8();
        proof {
            assert(rest[1] == b);
            assert(buf.rest() =~= rest.skip(2));
        }
        match op {
            PeerOperations::RegisterResult => match StatusCodes::try_from_u8(b) {
                Ok(s) => Ok(PeerFrames::RegisterResult(s)),
                Err(e) => Err(e),
            },
            PeerOperations::ProbeResult => match StatusCodes::try_from_u8(b) {
                Err(e) => Err(e),
                Ok(StatusCodes::FAILURE) => Ok(PeerFrames::ProbeResult(None)),
                Ok(StatusCodes::SUCCESS) => match PeerInfo::try_from_cursor(buf) {
                    Ok(info) => Ok(PeerFrames::ProbeResult(Some(info))),
                    Err(e) => Err(e),
                },
            },
            PeerOperations::DoConnectResult => match StatusCodes::try_from_u8(b) {
                Ok(s) => Ok(PeerFrames::DoConnectResult(s)),
                Err(e) => Err(e),
            },
            PeerOperations::PingResult => match HealthStatus::try_from_u8(b) {
                Ok(h) => Ok(PeerFrames::PingResult(h)),
                Err(e) => Err(e),
            },
            PeerOperations::Commands => {
                if b == SYNC_CODE {
                    Ok(PeerFrames::Command(PeerCommands::SYNC))
                } else if b == DOCONNECT_CODE {
                    if buf.remaining() < 4 {
                        return Err(Error::Incomplete);
                    }
                    let o0 = buf.get_u8();
                    let o1 = buf.get_u8();
                    let o2 = buf.get_u8();
                    let o3 = buf.get_u8();
                    let octets = [o0, o1, o2, o3];
                    assert(octets@ =~= rest.subrange(2, 6));
                    Ok(PeerFrames::Command(PeerCommands::DOCONNECT(IpAddress::V4(octets))))
                } else {
                    Err(Error::Other(FrameFault::UnknownPeerCommand))
                }
            },
        }
    }

    fn to_be_bytes(self) -> (r: BytesMut) {
        let mut bytes = bytes_mut_with_capacity(1024);
        match self {
            PeerFrames::RegisterResult(status_codes) => {
                bytes_mut_put_u8(&mut bytes, PeerOperations::RegisterResult.to_u8());
                bytes_mut_put_u8(&mut bytes, status_codes.into_u8());
            },
            PeerFrames::ProbeResult(peer_info) => {
                bytes_mut_put_u8(&mut bytes, PeerOperations::ProbeResult.to_u8());
                match peer_info {
                    None => {
                        bytes_mut_put_u8(&mut bytes, StatusCodes::FAILURE.into_u8());
                    },
                    Some(info) => {
                        bytes_mut_put_u8(&mut bytes, StatusCodes::SUCCESS.into_u8());
                        let payload = info.to_be_bytes();
                        bytes_mut_extend(&mut bytes, payload.as_slice());
                    },
                }
            },
            PeerFrames::Command(peer_commands) => {
                bytes_mut_put_u8(&mut bytes, PeerOperations::Commands.to_u8());
                let payload = peer_commands.to_be_bytes();
                proof {
                    match peer_commands {
                        PeerCommands::DOCONNECT(ip) => ip.lemma_well_formed(),
                        PeerCommands::SYNC => {},
                    }
                }
                bytes_mut_extend(&mut bytes, payload.as_slice());
            },
            PeerFrames::DoConnectResult(status_codes) => {
                bytes_mut_put_u8(&mut bytes, PeerOperations::DoConnectResult.to_u8());
                bytes_mut_put_u8(&mut bytes, status_codes.into_u8());
            },
            PeerFrames::PingResult(health_status) => {
                bytes_mut_put_u8(&mut bytes, PeerOperations::PingResult.to_u8());
                bytes_mut_put_u8(&mut bytes, health_status.to_u8());
            },
        }
        assert(bytes_mut_contents(bytes) =~= peer_frame_bytes(self@));
        bytes
    }
}

/// Whether each identifier in a relay frame has 64 bytes, as every
/// [`RelayFrames`] value does.
pub open spec fn relay_frame_well_formed(f: RelayFrameView) -> bool {
    match f {
        RelayFrameView::Register(id) => id.len() == 64,
        RelayFrameView::Probe(id) => id.len() == 64,
        RelayFrameView::DoConnect(id) => id.len() == 64,
        _ => true,
    }
}

/// Whether the identifier and addresses in a peer frame have the lengths that
/// every [`PeerFrames`] value has.
pub open spec fn peer_frame_well_formed(f: PeerFrameView) -> bool {
    match f {
        PeerFrameView::ProbeResult(Some(info)) => info.peer_id.len() == 64 && ip_well_formed(info.ip),
        PeerFrameView::Command(CommandView::DoConnect(ip)) => ip_well_formed(ip),
        _ => true,
    }
}

/// What a peer receives of a frame: probe results carry no identifier on the
/// wire, so the identifier reads back as zeros.
pub open spec fn as_received(f: PeerFrameView) -> PeerFrameView {
    match f {
        PeerFrameView::ProbeResult(Some(info)) => PeerFrameView::ProbeResult(
            Some(PeerInfoView { peer_id: zero_peer_id(), ip: info.ip, ping_rtt: info.ping_rtt }),
        ),
        _ => f,
    }
}

/// Whether a frame is a `DOCONNECT` command to an IPv6 address, whose sixteen
/// octets are written but read back as a four-octet IPv4 address.
pub open spec fn is_ipv6_doconnect(f: PeerFrameView) -> bool {
    f matches PeerFrameView::Command(CommandView::DoConnect(IpView::V6(_)))
}

impl RelayFrames {
    /// Every relay frame value is well formed.
    pub proof fn lemma_view_well_formed(self)
        ensures
            relay_frame_well_formed(self@),
    {
        match self {
            RelayFrames::Register(id) => id.lemma_view_len(),
            RelayFrames::Probe(id) => id.lemma_view_len(),
            RelayFrames::DoConnect(id) => id.lemma_view_len(),
            _ => {},
        }
    }
}

impl PeerFrames {
    /// Every peer frame value is well formed.
    pub proof fn lemma_view_well_formed(self)
        ensures
            peer_frame_well_formed(self@),
    {
        match self {
            PeerFrames::ProbeResult(Some(info)) => {
                info.peer_id.lemma_view_len();
                info.ip.lemma_well_formed();
            },
            PeerFrames::Command(PeerCommands::DOCONNECT(ip)) => ip.lemma_well_formed(),
            _ => {},
        }
    }
}

/// Each operation, status and health byte reads back as what wrote it, and
/// distinct values have distinct bytes.
pub proof fn lemma_codes_round_trip(
    r: RelayOperations,
    p: PeerOperations,
    s: StatusCodes,
    h: HealthStatus,
)
    ensures
        relay_operation_of(relay_operation_code(r)) == Some(r),
        peer_operation_of(peer_operation_code(p)) == Some(p),
        status_of(status_code(s)) == Some(s),
        health_of(health_code(h)) == Some(h),
        forall|b: u8| #[trigger] relay_operation_of(b) matches Some(x) ==> relay_operation_code(x) == b,
        forall|b: u8| #[trigger] peer_operation_of(b) matches Some(x) ==> peer_operation_code(x) == b,
        forall|b: u8| #[trigger] status_of(b) matches Some(x) ==> status_code(x) == b,
        forall|b: u8| #[trigger] health_of(b) matches Some(x) ==> health_code(x) == b,
{
}

/// Reading the bytes of a relay frame, whatever follows them, gives the frame
/// back and moves past exactly its bytes.
pub proof fn lemma_relay_frame_round_trip(f: RelayFrameView, rest: Seq<u8>)
    requires
        relay_frame_well_formed(f),
    ensures
        relay_frame_read(relay_frame_bytes(f) + rest) == (
            Ok::<RelayFrameView, Error>(f),
            relay_frame_bytes(f).len(),
        ),
{
    let b = relay_frame_bytes(f) + rest;
    match f {
        RelayFrameView::Register(id) => {
            assert(b.skip(1).take(64) =~= id);
        },
        RelayFrameView::Probe(id) => {
            assert(b.skip(1).take(64) =~= id);
        },
        RelayFrameView::DoConnect(id) => {
            assert(b.skip(1).take(64) =~= id);
        },
        _ => {},
    }
}

/// Every proper prefix of the bytes of a relay frame reads as incomplete.
pub proof fn lemma_relay_frame_prefix_incomplete(f: RelayFrameView, k: int)
    requires
        relay_frame_well_formed(f),
        0 <= k < relay_frame_bytes(f).len(),
    ensures
        relay_frame_read(relay_frame_bytes(f).take(k)).0 == Err::<RelayFrameView, Error>(
            Error::Incomplete,
        ),
{
    let b = relay_frame_bytes(f).take(k);
    if k > 0 {
        assert(b[0] == relay_frame_bytes(f)[0]);
    }
}

/// Reading the bytes of a peer frame, whatever follows them, gives the frame
/// as a peer receives it and moves past exactly its bytes; `DOCONNECT`
/// commands to IPv6 addresses are the exception.
#[verifier::rlimit(50)]
#[verifier::spinoff_prover]
pub proof fn lemma_peer_frame_round_trip(f: PeerFrameView, rest: Seq<u8>)
    requires
        peer_frame_well_formed(f),
        !is_ipv6_doconnect(f),
    ensures
        peer_frame_read(peer_frame_bytes(f) + rest) == (
            Ok::<PeerFrameView, Error>(as_received(f)),
            peer_frame_bytes(f).len(),
        ),
{
    let b = peer_frame_bytes(f) + rest;
    match f {
        PeerFrameView::ProbeResult(Some(info)) => {
            lemma_peer_info_round_trip(info, rest);
            assert(b.skip(2) =~= peer_info_bytes(info) + rest);
        },
        PeerFrameView::Command(CommandView::DoConnect(ip)) => {
            assert(b.subrange(2, 6) =~= ip_octets(ip));
        },
        _ => {},
    }
}

/// Every proper prefix of the bytes of a peer frame reads as incomplete;
/// `DOCONNECT` commands to IPv6 addresses are the exception.
pub proof fn lemma_peer_frame_prefix_incomplete(f: PeerFrameView, k: int)
    requires
        peer_frame_well_formed(f),
        !is_ipv6_doconnect(f),
        0 <= k < peer_frame_bytes(f).len(),
    ensures
        peer_frame_read(peer_frame_bytes(f).take(k)).0 == Err::<PeerFrameView, Error>(
            Error::Incomplete,
        ),
{
    let full = peer_frame_bytes(f);
    let b = full.take(k);
    if k > 1 {
        assert(b[0] == full[0]);
        assert(b[1] == full[1]);
        match f {
            PeerFrameView::ProbeResult(Some(info)) => {
                assert(b.skip(2).len() < 33);
            },
            _ => {},
        }
    } else if k == 1 {
        assert(b[0] == full[0]);
    }
}

/// The operation a relay frame carries.
pub open spec fn relay_frame_operation(f: RelayFrameView) -> RelayOperations {
    match f {
        RelayFrameView::Register(_) => RelayOperations::Register,
        RelayFrameView::Probe(_) => RelayOperations::Probe,
        RelayFrameView::DoConnect(_) => RelayOperations::DoConnect,
        RelayFrameView::Ping => RelayOperations::Ping,
        RelayFrameView::ProbeAck => RelayOperations::ProbeAck,
    }
}

/// The operation a peer frame carries.
pub open spec fn peer_frame_operation(f: PeerFrameView) -> PeerOperations {
    match f {
        PeerFrameView::RegisterResult(_) => PeerOperations::RegisterResult,
        PeerFrameView::ProbeResult(_) => PeerOperations::ProbeResult,
        PeerFrameView::DoConnectResult(_) => PeerOperations::DoConnectResult,
        PeerFrameView::PingResult(_) => PeerOperations::PingResult,
        PeerFrameView::Command(_) => PeerOperations::Commands,
    }
}

/// Every frame starts with the byte of its operation. A relay frame that
/// names a peer carries the peer's identifier right after it; a peer frame
/// that answers a request carries the status after it, success followed by
/// the peer's metadata in a probe result, and a ping result carries the
/// relay's health.
pub proof fn lemma_frame_layout(r: RelayFrameView, p: PeerFrameView)
    ensures
        relay_frame_bytes(r)[0] == relay_operation_code(relay_frame_operation(r)),
        peer_frame_bytes(p)[0] == peer_operation_code(peer_frame_operation(p)),
        match r {
            RelayFrameView::Register(id) => relay_frame_bytes(r).skip(1) == id,
            RelayFrameView::Probe(id) => relay_frame_bytes(r).skip(1) == id,
            RelayFrameView::DoConnect(id) => relay_frame_bytes(r).skip(1) == id,
            _ => relay_frame_bytes(r).len() == 1,
        },
        match p {
            PeerFrameView::RegisterResult(s) => peer_frame_bytes(p)[1] == status_code(s)
                && peer_frame_bytes(p).len() == 2,
            PeerFrameView::DoConnectResult(s) => peer_frame_bytes(p)[1] == status_code(s)
                && peer_frame_bytes(p).len() == 2,
            PeerFrameView::ProbeResult(None) => peer_frame_bytes(p)[1] == status_code(
                StatusCodes::FAILURE,
            ) && peer_frame_bytes(p).len() == 2,
            PeerFrameView::ProbeResult(Some(info)) => peer_frame_bytes(p)[1] == status_code(
                StatusCodes::SUCCESS,
            ) && peer_frame_bytes(p).skip(2) == peer_info_bytes(info),
            PeerFrameView::PingResult(h) => peer_frame_bytes(p)[1] == health_code(h)
                && peer_frame_bytes(p).len() == 2,
            PeerFrameView::Command(c) => peer_frame_bytes(p).skip(1) == command_bytes(c),
        },
{
    match r {
        RelayFrameView::Register(id) => assert(relay_frame_bytes(r).skip(1) =~= id),
        RelayFrameView::Probe(id) => assert(relay_frame_bytes(r).skip(1) =~= id),
        RelayFrameView::DoConnect(id) => assert(relay_frame_bytes(r).skip(1) =~= id),
        _ => {},
    }
    match p {
        PeerFrameView::ProbeResult(Some(info)) => {
            assert(peer_frame_bytes(p).skip(2) =~= peer_info_bytes(info));
        },
        PeerFrameView::Command(c) => assert(peer_frame_bytes(p).skip(1) =~= command_bytes(c)),
        _ => {},
    }
}

} // verus!
