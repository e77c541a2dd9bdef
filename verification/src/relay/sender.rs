//! The source peer's side of connecting to another peer through the relay.
//!
//! The source registers with the relay and waits for a successful answer,
//! then probes the destination and waits for its metadata; with it, it can
//! connect to the destination.
use vstd::prelude::*;
use crate::relay::frame::{PeerFrames, RelayFrames, StatusCodes};
use crate::relay::peer::{PeerId, PeerInfo};

verus! {

/// Why connecting to a peer failed.
#[derive(Debug, Clone, Copy, PartialEq, Eq)]
pub enum SenderError {
    /// The relay refused the registration.
    RegistrationFailed,
    /// The relay answered the registration with another frame.
    InvalidRegistrationResponse,
    /// The relay does not know the destination peer.
    PeerInfoNotFound,
    /// The relay answered the probe with another frame.
    InvalidProbeResponse,
}

/// Where the handshake stands.
#[derive(Debug, Clone, Copy, PartialEq, Eq)]
pub enum HandshakeStage {
    /// Waiting for the answer to the registration.
    Registering,
    /// Waiting for the answer to the probe.
    Probing,
    /// The destination's metadata has arrived.
    Done,
}

/// What the source peer does next.
#[derive(Debug, PartialEq, Eq)]
pub enum ConnectStep {
    /// Send this frame to the relay.
    Send(RelayFrames),
    /// Read the next frame from the relay.
    Wait,
    /// Connect to the destination peer, whose metadata this is.
    Connect(PeerInfo),
}

/// The handshake with the relay that precedes connecting to a peer.
pub struct PeerHandshake {
    stage: HandshakeStage,
    destination: PeerId,
}

impl PeerHandshake {
    /// The current stage.
    pub closed spec fn stage(&self) -> HandshakeStage {
        self.stage
    }

    /// The peer to connect to.
    pub closed spec fn destination(&self) -> PeerId {
        self.destination
    }

    /// Starts a handshake from `source_peer_id` to `destination_peer_id`:
    /// the first frame to send is the source's registration.
    pub fn start(source_peer_id: PeerId, destination_peer_id: PeerId) -> (r: (
        PeerHandshake,
        RelayFrames,
    ))
        ensures
            r.0.stage() == HandshakeStage::Registering,
            r.0.destination() == destination_peer_id,
            r.1 == RelayFrames::Register(source_peer_id),
    {
        (
            PeerHandshake { stage: HandshakeStage::Registering, destination: destination_peer_id },
            RelayFrames::Register(source_peer_id),
        )
    }

    /// The current stage.
    pub fn current_stage(&self) -> (r: HandshakeStage)
        ensures
            r == self.stage(),
    {
        self.stage
    }

    /// The next step after reading `frame` from the relay (none when the
    /// relay's stream held no whole frame).
    pub fn on_frame(&mut self, frame: Option<PeerFrames>) -> (r: Result<ConnectStep, SenderError>)
        requires
            old(self).stage() != HandshakeStage::Done,
        ensures
            final(self).destination() == old(self).destination(),
            old(self).stage() == HandshakeStage::Registering ==> match frame {
                None => r == Ok::<ConnectStep, SenderError>(ConnectStep::Wait) && final(self).stage()
                    == HandshakeStage::Registering,
                Some(PeerFrames::RegisterResult(StatusCodes::SUCCESS)) => r == Ok::<
                    ConnectStep,
                    SenderError,
                >(ConnectStep::Send(RelayFrames::Probe(old(self).destination())))
                    && final(self).stage() == HandshakeStage::Probing,
                Some(PeerFrames::RegisterResult(_)) => r == Err::<ConnectStep, SenderError>(
                    SenderError::RegistrationFailed,
                ),
                Some(_) => r == Err::<ConnectStep, SenderError>(
                    SenderError::InvalidRegistrationResponse,
                ),
            },
            old(self).stage() == HandshakeStage::Probing ==> match frame {
                None => r == Ok::<ConnectStep, SenderError>(ConnectStep::Wait) && final(self).stage()
                    == HandshakeStage::Probing,
                Some(PeerFrames::ProbeResult(Some(info))) => r == Ok::<ConnectStep, SenderError>(
                    ConnectStep::Connect(info),
                ) && final(self).stage() == HandshakeStage::Done,
                Some(PeerFrames::ProbeResult(None)) => r == Err::<ConnectStep, SenderError>(
                    SenderError::PeerInfoNotFound,
                ),
                Some(_) => r == Err::<ConnectStep, SenderError>(SenderError::InvalidProbeResponse),
            },
    {
        match self.stage {
            HandshakeStage::Registering => match frame {
                None => Ok(ConnectStep::Wait),
                Some(PeerFrames::RegisterResult(status_codes)) => {
                    match status_codes {
                        StatusCodes::SUCCESS => {
                            self.stage = HandshakeStage::Probing;
                            let destination = self.destination;
                            Ok(ConnectStep::Send(RelayFrames::Probe(destination)))
                        },
                        StatusCodes::FAILURE => Err(SenderError::RegistrationFailed),
                    }
                },
                Some(_) => Err(SenderError::InvalidRegistrationResponse),
            },
            HandshakeStage::Probing => match frame {
                None => Ok(ConnectStep::Wait),
                Some(PeerFrames::ProbeResult(Some(info))) => {
                    self.stage = HandshakeStage::Done;
                    Ok(ConnectStep::Connect(info))
                },
                Some(PeerFrames::ProbeResult(None)) => Err(SenderError::PeerInfoNotFound),
                Some(_) => Err(SenderError::InvalidProbeResponse),
            },
            HandshakeStage::Done => Ok(ConnectStep::Wait),
        }
    }
}

} // verus!
