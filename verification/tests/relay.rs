use base64::prelude::BASE64_STANDARD;
use base64::Engine;
use bytes::BytesMut;
use localtransfer::relay::frame::{
    Error, Frame, Operations, PeerCommands, PeerFrames, RelayFrames, RelayOperations, StatusCodes,
};
use localtransfer::relay::framehelper::{parse_frame, read_frame_step, ReadStep};
use localtransfer::relay::peer::{IpAddress, PeerId, PeerInfo};
use localtransfer::relay::relay::{
    action_for, connect_command, probe_command, probe_reply, probe_result, probe_target,
    registration_reply, synchronization_reply, synchronization_target, HealthStatus, ProbeError,
    RelayAction,
};
use localtransfer::relay::sender::{ConnectStep, HandshakeStage, PeerHandshake, SenderError};

#[test]
fn test_write_frame_to_stream() {
    let frame = PeerFrames::RegisterResult(StatusCodes::SUCCESS);
    let buf = frame.to_be_bytes();
    assert!(buf.len() > 0);
    // The first byte should be the operation code for RegisterResult
    assert_eq!(buf[0], 21);
    // The second byte should be the StatusCodes::SUCCESS as u8
    assert_eq!(buf[1], StatusCodes::SUCCESS.into_u8());
}

#[test]
fn test_read_frame_from_stream_register() {
    // Prepare a Register frame: [operation_byte, peer_id_bytes...]
    let mut register_bytes = vec![1u8];
    let peer_id_bytes =
        BASE64_STANDARD.encode("Peer12345678987654321_999999999999_000000000001212111");
    register_bytes.extend_from_slice(&peer_id_bytes.clone().into_bytes());

    // The stream delivers the frame in two reads.
    let mut buffer = BytesMut::with_capacity(1024);
    let mut arrivals = vec![register_bytes[..10].to_vec(), register_bytes[10..].to_vec()].into_iter();
    let result = loop {
        match read_frame_step::<RelayFrames, RelayOperations>(&buffer, false) {
            ReadStep::Frame(frame) => break Some(frame),
            ReadStep::ReadMore => match arrivals.next() {
                Some(bytes) => buffer.extend_from_slice(&bytes),
                None => panic!("stream ended"),
            },
            _ => panic!("unexpected step"),
        }
    };

    if let Some(RelayFrames::Register(peer_id)) = result {
        assert_eq!(peer_id, PeerId::new(&peer_id_bytes.into_bytes(), 0));
    } else {
        panic!("Expected RecevingFrames::Register");
    }
}

#[test]
fn test_parse_frame_success() {
    let mut buffer = BytesMut::new();
    buffer.extend_from_slice(&[RelayOperations::Ping.to_u8()]);
    let result = parse_frame::<RelayFrames, RelayOperations>(&buffer);
    assert!(result.is_ok());
    let frame = result.unwrap();
    if let Some(RelayFrames::Ping) = frame {
        // Success
    } else {
        panic!("Expected RecevingFrames::Ping");
    }
}

#[test]
fn test_parse_frame_incomplete() {
    let buffer = BytesMut::new();
    let result = parse_frame::<RelayFrames, RelayOperations>(&buffer);
    assert!(result.is_ok());
    assert!(result.unwrap().is_none());
}

#[test]
fn test_parse_frame_invalid_operation() {
    let mut buffer = BytesMut::new();
    buffer.extend_from_slice(&[0xFF]);
    let result = parse_frame::<RelayFrames, RelayOperations>(&buffer);
    assert!(result.is_err());
}

#[test]
fn test_parse_frame_valid_register() {
    let peer_id = PeerId::default();
    let mut buffer = BytesMut::new();
    buffer.extend_from_slice(&[RelayOperations::Register.to_u8()]);
    buffer.extend_from_slice(&peer_id.as_bytes());
    assert!(buffer.len() >= 65);
    let result = parse_frame::<RelayFrames, RelayOperations>(&buffer);
    assert!(result.is_ok());
    if let Some(RelayFrames::Register(parsed)) = result.unwrap() {
        assert_eq!(parsed, peer_id);
    } else {
        panic!("Expected RecevingFrames::Register");
    }
}

#[test]
fn test_parse_frame_valid_probe() {
    let peer_id = PeerId::default();
    let mut buffer = BytesMut::new();
    buffer.extend_from_slice(&[RelayOperations::Probe.to_u8()]);
    buffer.extend_from_slice(&peer_id.as_bytes());
    assert!(buffer.len() >= 65);
    let result = parse_frame::<RelayFrames, RelayOperations>(&buffer);
    assert!(result.is_ok());
    if let Some(RelayFrames::Probe(_peer_id)) = result.unwrap() {
    } else {
        panic!("Expected RecevingFrames::Probe");
    }
}

#[test]
fn stream_end_is_clean_only_between_frames() {
    let empty = BytesMut::new();
    assert!(matches!(read_frame_step::<RelayFrames, RelayOperations>(&empty, true), ReadStep::Closed));
    let mut partial = BytesMut::new();
    partial.extend_from_slice(&[2, 1, 2]);
    assert!(matches!(read_frame_step::<RelayFrames, RelayOperations>(&partial, true), ReadStep::Reset));
    assert!(matches!(read_frame_step::<RelayFrames, RelayOperations>(&partial, false), ReadStep::ReadMore));
    let mut bad = BytesMut::new();
    bad.extend_from_slice(&[9]);
    assert!(matches!(
        read_frame_step::<RelayFrames, RelayOperations>(&bad, false),
        ReadStep::Failed(Error::Other(_))
    ));
}

#[test]
fn peer_ids() {
    let bytes: Vec<u8> = (0..100u8).collect();
    let id = PeerId::new(&bytes, 10);
    assert_eq!(id.as_bytes(), &bytes[10..74]);
    assert_eq!(id.len(), 64);
    assert!(!id.is_empty());
    let legacy = localtransfer::relay::relay::PeerId::new(&bytes, 36);
    assert_eq!(legacy.len(), 64);
    let random = PeerId::default();
    assert_eq!(random.as_bytes().len(), 64);
}

#[test]
fn legacy_peer_info_payload() {
    let info = localtransfer::relay::relay::PeerInfo::new(
        localtransfer::relay::relay::PeerId::new(&[3u8; 64], 0),
        IpAddress::V4([10, 0, 0, 1]),
        258,
    );
    let bytes = info.to_be_bytes();
    let mut expected = vec![10, 0, 0, 1];
    expected.extend_from_slice(&258u128.to_be_bytes());
    assert_eq!(bytes, expected);
}

#[test]
fn relay_actions_and_replies() {
    let id = PeerId::new(&[4u8; 64], 0);
    assert_eq!(action_for(RelayFrames::Register(id)), RelayAction::Register(id));
    assert_eq!(action_for(RelayFrames::Probe(id)), RelayAction::Probe(id));
    assert_eq!(action_for(RelayFrames::DoConnect(id)), RelayAction::Synchronize(id));
    assert_eq!(
        action_for(RelayFrames::Ping),
        RelayAction::Reply(PeerFrames::PingResult(HealthStatus::HEALTHY))
    );
    assert_eq!(action_for(RelayFrames::ProbeAck), RelayAction::Ignore);
    assert_eq!(registration_reply(true), PeerFrames::RegisterResult(StatusCodes::SUCCESS));
    assert_eq!(registration_reply(false), PeerFrames::RegisterResult(StatusCodes::FAILURE));
    assert_eq!(synchronization_reply(false), PeerFrames::DoConnectResult(StatusCodes::FAILURE));
    assert_eq!(probe_reply(None), PeerFrames::ProbeResult(None));
    assert_eq!(probe_command(), PeerFrames::Command(PeerCommands::SYNC));
    let ip = IpAddress::V4([1, 2, 3, 4]);
    assert_eq!(connect_command(ip), PeerFrames::Command(PeerCommands::DOCONNECT(ip)));
}

#[test]
fn probing_a_peer() {
    let id = PeerId::new(&[6u8; 64], 0);
    let ip = IpAddress::V4([10, 0, 0, 7]);
    assert_eq!(
        probe_result(id, ip, 12, Some(RelayFrames::ProbeAck)),
        Ok(PeerInfo { peer_id: id, ip, ping_rtt: 12 })
    );
    assert_eq!(probe_result(id, ip, 12, Some(RelayFrames::Ping)), Err(ProbeError::InvalidAnswer));
    assert_eq!(probe_result(id, ip, 12, None), Err(ProbeError::NoAnswer));
}

#[test]
fn handshake_registers_then_probes() {
    let source = PeerId::new(&[1u8; 64], 0);
    let destination = PeerId::new(&[2u8; 64], 0);
    let (mut handshake, first) = PeerHandshake::start(source, destination);
    assert_eq!(first, RelayFrames::Register(source));
    assert_eq!(handshake.on_frame(None), Ok(ConnectStep::Wait));
    assert_eq!(
        handshake.on_frame(Some(PeerFrames::RegisterResult(StatusCodes::SUCCESS))),
        Ok(ConnectStep::Send(RelayFrames::Probe(destination)))
    );
    assert_eq!(handshake.current_stage(), HandshakeStage::Probing);
    let info = PeerInfo::default();
    assert_eq!(
        handshake.on_frame(Some(PeerFrames::ProbeResult(Some(info.clone())))),
        Ok(ConnectStep::Connect(info))
    );
    assert_eq!(handshake.current_stage(), HandshakeStage::Done);
}

#[test]
fn handshake_failures() {
    let source = PeerId::new(&[1u8; 64], 0);
    let destination = PeerId::new(&[2u8; 64], 0);
    let (mut h, _) = PeerHandshake::start(source, destination);
    assert_eq!(
        h.on_frame(Some(PeerFrames::RegisterResult(StatusCodes::FAILURE))),
        Err(SenderError::RegistrationFailed)
    );
    let (mut h, _) = PeerHandshake::start(source, destination);
    assert_eq!(
        h.on_frame(Some(PeerFrames::ProbeResult(None))),
        Err(SenderError::InvalidRegistrationResponse)
    );
    let (mut h, _) = PeerHandshake::start(source, destination);
    h.on_frame(Some(PeerFrames::RegisterResult(StatusCodes::SUCCESS))).unwrap();
    assert_eq!(h.on_frame(Some(PeerFrames::ProbeResult(None))), Err(SenderError::PeerInfoNotFound));
    let (mut h, _) = PeerHandshake::start(source, destination);
    h.on_frame(Some(PeerFrames::RegisterResult(StatusCodes::SUCCESS))).unwrap();
    assert_eq!(
        h.on_frame(Some(PeerFrames::PingResult(HealthStatus::HEALTHY))),
        Err(SenderError::InvalidProbeResponse)
    );
}

#[test]
fn registry_lookups() {
    assert_eq!(
        probe_target(Some(7u32)),
        Ok((7u32, PeerFrames::Command(PeerCommands::SYNC)))
    );
    assert_eq!(probe_target::<u32>(None), Err(ProbeError::NotRegistered));
    let ip = IpAddress::V4([10, 0, 0, 2]);
    assert_eq!(
        synchronization_target(Some("peer"), ip),
        Ok(("peer", PeerFrames::Command(PeerCommands::DOCONNECT(ip))))
    );
    assert_eq!(synchronization_target::<u32>(None, ip), Err(ProbeError::NotRegistered));
}
