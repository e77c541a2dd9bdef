use localtransfer::byte_buffer::ByteCursor;
use localtransfer::relay::frame::{
    Error, FaultKind, Frame, FrameFault, Operations, PeerCommands, PeerFrames, PeerOperations,
    RelayFrames, RelayOperations, StatusCodes, SYNC_CODE,
};
use localtransfer::relay::peer::{IpAddress, PeerId, PeerInfo};
use localtransfer::relay::relay::HealthStatus;

#[test]
fn test_read_operation_receiving_frame() {
    // Test for each ReceivingOperations variant
    let ops = [
        (01, RelayOperations::Register),
        (02, RelayOperations::Probe),
        (03, RelayOperations::DoConnect),
        (04, RelayOperations::Ping),
    ];

    for (byte, expected_op) in ops.iter() {
        let bytes = [*byte as u8];
        let mut buf = ByteCursor::new(&bytes[..]);
        let op = RelayFrames::read_operation(&mut buf).unwrap();
        assert_eq!(&op, expected_op);
    }

    // Test for incomplete buffer
    let empty: &[u8] = &[];
    let mut empty_buf = ByteCursor::new(empty);
    let err = RelayFrames::read_operation(&mut empty_buf).unwrap_err();
    assert!(matches!(err, Error::Incomplete));

    // Test for unsupported operation
    let invalid_bytes: &[u8] = &[0xFF];
    let mut invalid_buf = ByteCursor::new(invalid_bytes);
    let err = RelayFrames::read_operation(&mut invalid_buf).unwrap_err();
    assert!(matches!(err, Error::Other(_)));
}

#[test]
fn test_read_operation_sending_frame() {
    // Test for each SendingOperations variant
    let ops = [
        (21, PeerOperations::RegisterResult),
        (22, PeerOperations::ProbeResult),
        (23, PeerOperations::DoConnectResult),
        (24, PeerOperations::PingResult),
        (25, PeerOperations::Commands),
    ];

    for (byte, expected_op) in ops.iter() {
        let bytes = [*byte as u8];
        let mut buf = ByteCursor::new(&bytes[..]);
        let op = PeerFrames::read_operation(&mut buf).unwrap();
        assert_eq!(&op, expected_op);
    }

    // Test for incomplete buffer
    let empty: &[u8] = &[];
    let mut empty_buf = ByteCursor::new(empty);
    let err = PeerFrames::read_operation(&mut empty_buf).unwrap_err();
    assert!(matches!(err, Error::Incomplete));

    // Test for unsupported operation
    let invalid_bytes: &[u8] = &[0xFF];
    let mut invalid_buf = ByteCursor::new(invalid_bytes);
    let err = PeerFrames::read_operation(&mut invalid_buf).unwrap_err();
    assert!(matches!(err, Error::Other(_)));
}

#[test]
fn test_to_be_bytes_sending_frame() {
    // Example: RegisterResult with StatusCodes::SUCCESS
    let operation = PeerOperations::RegisterResult;
    let frame = PeerFrames::RegisterResult(StatusCodes::SUCCESS);
    let bytes = frame.to_be_bytes();
    // Should start with operation byte, then frame bytes
    assert_eq!(bytes[0], operation.to_u8());
    assert_eq!(bytes[1], StatusCodes::SUCCESS.into_u8());

    // Example: PingResult with HealthStatus
    let operation = PeerOperations::PingResult;
    let frame = PeerFrames::PingResult(HealthStatus::HEALTHY);
    let bytes = frame.to_be_bytes();
    assert_eq!(bytes[0], operation.to_u8());
    assert_eq!(bytes[1], HealthStatus::HEALTHY.to_u8());

    // Example: Command with PeerCommands::SYNC
    let operation = PeerOperations::Commands;
    let frame = PeerFrames::Command(PeerCommands::SYNC);
    let bytes = frame.to_be_bytes();
    assert_eq!(bytes[0], operation.to_u8());
    assert_eq!(bytes[1], SYNC_CODE);

    // Example: DoConnectResult with StatusCodes::FAILURE
    let operation = PeerOperations::DoConnectResult;
    let frame = PeerFrames::DoConnectResult(StatusCodes::FAILURE);
    let bytes = frame.to_be_bytes();
    assert_eq!(bytes[0], operation.to_u8());
    assert_eq!(bytes[1], StatusCodes::FAILURE.into_u8());

    // Example: ProbeResult with None PeerInfo
    let operation = PeerOperations::ProbeResult;
    let frame = PeerFrames::ProbeResult(None);
    let bytes = frame.to_be_bytes();
    assert_eq!(bytes[0], operation.to_u8());
    assert_eq!(bytes[1], StatusCodes::FAILURE.into_u8());
    assert_eq!(bytes.len(), 2);

    // Example: ProbeResult with Some PeerInfo
    let dummy_peer_info = PeerInfo::default();
    let operation = PeerOperations::ProbeResult;
    let frame = PeerFrames::ProbeResult(Some(dummy_peer_info.clone()));
    let bytes = frame.to_be_bytes();
    assert_eq!(bytes[0], operation.to_u8());
    assert_eq!(bytes[1], StatusCodes::SUCCESS.into_u8());
    let expected_peer_info_bytes = dummy_peer_info.to_be_bytes();
    assert_eq!(&bytes[2..], &expected_peer_info_bytes[..]);
}

#[test]
fn operation_codes_match_their_bytes() {
    assert_eq!(RelayOperations::Register.to_u8(), 1);
    assert_eq!(RelayOperations::ProbeAck.to_u8(), 5);
    assert_eq!(PeerOperations::Commands.to_u8(), 25);
    assert_eq!(StatusCodes::SUCCESS.into_u8(), 200);
    assert_eq!(StatusCodes::FAILURE.into_u8(), 111);
    assert_eq!(RelayOperations::try_from_u8(3), Ok(RelayOperations::DoConnect));
    assert_eq!(PeerOperations::try_from_u8(20), Err(Error::Other(FrameFault::UnsupportedPeerOperation)));
    assert_eq!(StatusCodes::try_from_u8(112), Err(Error::Other(FrameFault::UnsupportedStatusCode)));
    assert_eq!(HealthStatus::try_from_u8(0), Ok(HealthStatus::UNHEALTHY));
    assert_eq!(HealthStatus::try_from_u8(7), Err(Error::Other(FrameFault::UnsupportedHealthStatus)));
}

#[test]
fn relay_frames_round_trip() {
    let id = PeerId::new(&[7u8; 70], 3);
    let frames = vec![
        RelayFrames::Register(id),
        RelayFrames::Probe(id),
        RelayFrames::DoConnect(id),
        RelayFrames::Ping,
        RelayFrames::ProbeAck,
    ];
    for frame in frames {
        let expected_len = match frame {
            RelayFrames::Ping | RelayFrames::ProbeAck => 1,
            _ => 65,
        };
        let copy = match &frame {
            RelayFrames::Register(i) => RelayFrames::Register(*i),
            RelayFrames::Probe(i) => RelayFrames::Probe(*i),
            RelayFrames::DoConnect(i) => RelayFrames::DoConnect(*i),
            RelayFrames::Ping => RelayFrames::Ping,
            RelayFrames::ProbeAck => RelayFrames::ProbeAck,
        };
        let mut bytes = frame.to_be_bytes().to_vec();
        assert_eq!(bytes.len(), expected_len);
        bytes.extend_from_slice(&[9, 9, 9]);
        let mut cursor = ByteCursor::new(&bytes);
        let parsed = RelayFrames::parse(&mut cursor).unwrap();
        assert_eq!(parsed, copy);
        assert_eq!(cursor.position(), expected_len);
    }
}

#[test]
fn relay_frame_prefixes_are_incomplete() {
    let bytes = RelayFrames::Probe(PeerId::new(&[1u8; 64], 0)).to_be_bytes().to_vec();
    for k in 0..bytes.len() {
        let mut cursor = ByteCursor::new(&bytes[..k]);
        assert_eq!(RelayFrames::parse(&mut cursor), Err(Error::Incomplete));
    }
}

#[test]
fn peer_frames_round_trip() {
    let info = PeerInfo {
        peer_id: PeerId::new(&[0u8; 64], 0),
        ip: IpAddress::V6([1, 2, 3, 4, 5, 6, 7, 8, 9, 10, 11, 12, 13, 14, 15, 16]),
        ping_rtt: 0x0102_0304_0506_0708,
    };
    let frames = vec![
        PeerFrames::RegisterResult(StatusCodes::FAILURE),
        PeerFrames::ProbeResult(None),
        PeerFrames::ProbeResult(Some(info.clone())),
        PeerFrames::DoConnectResult(StatusCodes::SUCCESS),
        PeerFrames::PingResult(HealthStatus::UNHEALTHY),
        PeerFrames::Command(PeerCommands::SYNC),
        PeerFrames::Command(PeerCommands::DOCONNECT(IpAddress::V4([10, 0, 0, 139]))),
    ];
    for frame in frames {
        let bytes = frame.clone().to_be_bytes().to_vec();
        let mut cursor = ByteCursor::new(&bytes);
        assert_eq!(PeerFrames::parse(&mut cursor), Ok(frame));
        assert_eq!(cursor.position(), bytes.len());
        for k in 0..bytes.len() {
            let mut cursor = ByteCursor::new(&bytes[..k]);
            assert_eq!(PeerFrames::parse(&mut cursor), Err(Error::Incomplete));
        }
    }
}

#[test]
fn probe_result_drops_the_peer_id() {
    let info = PeerInfo {
        peer_id: PeerId::new(&[5u8; 64], 0),
        ip: IpAddress::V4([192, 168, 1, 20]),
        ping_rtt: 42,
    };
    let bytes = PeerFrames::ProbeResult(Some(info)).to_be_bytes().to_vec();
    assert_eq!(bytes.len(), 2 + 33);
    let mut cursor = ByteCursor::new(&bytes);
    let expected = PeerInfo {
        peer_id: PeerId::new(&[0u8; 64], 0),
        ip: IpAddress::V4([192, 168, 1, 20]),
        ping_rtt: 42,
    };
    assert_eq!(PeerFrames::parse(&mut cursor), Ok(PeerFrames::ProbeResult(Some(expected))));
}

#[test]
fn ipv6_doconnect_reads_back_as_ipv4() {
    let octets = [1, 2, 3, 4, 5, 6, 7, 8, 9, 10, 11, 12, 13, 14, 15, 16];
    let bytes = PeerFrames::Command(PeerCommands::DOCONNECT(IpAddress::V6(octets))).to_be_bytes().to_vec();
    assert_eq!(bytes.len(), 18);
    let mut cursor = ByteCursor::new(&bytes);
    assert_eq!(
        PeerFrames::parse(&mut cursor),
        Ok(PeerFrames::Command(PeerCommands::DOCONNECT(IpAddress::V4([1, 2, 3, 4]))))
    );
    assert_eq!(cursor.position(), 6);
}

#[test]
fn peer_frame_errors() {
    let cases: Vec<(Vec<u8>, Error, usize)> = vec![
        (vec![21, 7], Error::Other(FrameFault::UnsupportedStatusCode), 2),
        (vec![24, 9], Error::Other(FrameFault::UnsupportedHealthStatus), 2),
        (vec![25, 99], Error::Other(FrameFault::UnknownPeerCommand), 2),
        (vec![26], Error::Other(FrameFault::UnsupportedPeerOperation), 1),
        (vec![22, 200, 2], Error::Incomplete, 2),
    ];
    for (bytes, err, pos) in cases {
        let mut cursor = ByteCursor::new(&bytes);
        assert_eq!(PeerFrames::parse(&mut cursor), Err(err));
        assert_eq!(cursor.position(), pos);
    }
    let mut bytes = vec![22, 200, 7];
    bytes.extend_from_slice(&[0u8; 32]);
    let mut cursor = ByteCursor::new(&bytes);
    assert_eq!(PeerFrames::parse(&mut cursor), Err(Error::Other(FrameFault::InvalidIpType)));
    assert_eq!(cursor.position(), 2 + 17);
}

#[test]
fn error_messages_and_kinds() {
    assert_eq!(Error::Incomplete.message(), "Incomplete Frame Received");
    assert_eq!(Error::Other(FrameFault::UnsupportedRelayOperation).message(), "Receiving Operation not supported");
    assert_eq!(FrameFault::InvalidIpType.kind(), FaultKind::InvalidData);
    assert_eq!(FrameFault::UnknownPeerCommand.kind(), FaultKind::InvalidInput);
}
