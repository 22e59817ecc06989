use std::collections::hash_map::DefaultHasher;
use std::hash::{Hash, Hasher};

use nvdaremoteaudio_server::config::{
    STATUS_ACCESS_KEY, TCP_HEARTBEAT_INTERVAL_MS, UDP_AUDIO_PAYLOAD_MAX_BYTES,
    UDP_SESSION_TIMEOUT_MS,
};
use nvdaremoteaudio_server::endpoint::Endpoint;
use nvdaremoteaudio_server::error::{ErrorKind, IoError};
use nvdaremoteaudio_server::framing::timed_out;
use nvdaremoteaudio_server::protocol::{
    encode_udp_audio_data, encode_udp_heartbeat, encode_udp_register, encode_udp_register_ack,
    parse_udp_packet, ClientRole, ControlMessageRequest, ControlMessageType, HandshakeRequest,
    SessionId, StatusAccessRequest, UdpPacket, UdpPacketError,
};
use nvdaremoteaudio_server::server::{
    accept_handshake, accepted_response, after_ack_sent, after_enqueue, after_handshake_reply,
    answer_status, check_handshake, decide_handshake, disconnect_reason, dispatch_worker_index,
    end_control_session, handle_datagram, on_control_line, publisher_taken_response, role_label,
    udp_dispatch_worker_count, AudioDispatchJob, ControlStep, DispatchRun, DispatchStep,
    EnqueueOutcome, HandshakeDecision, StatusAnswer, UdpAction, UdpRejection,
};
use nvdaremoteaudio_server::state::{
    AudioDispatchError, RegisterSessionError, StreamRegistry, UdpHeartbeatError,
};

fn addr(port: u16) -> Endpoint {
    Endpoint::V4 { ip: 0x7f00_0001, port }
}

fn request(role: ClientRole, key: &str) -> HandshakeRequest {
    HandshakeRequest { role, key: key.to_owned() }
}

fn connect(registry: &mut StreamRegistry, role: ClientRole, key: &str) -> SessionId {
    match accept_handshake(registry, &request(role, key), "127.0.0.1:40000") {
        HandshakeDecision::Accept(registration) => registration.session_id,
        other => panic!("not accepted: {:?}", other),
    }
}

fn udp_register(registry: &mut StreamRegistry, session: SessionId, peer: Endpoint, now: u64) {
    match handle_datagram(registry, &encode_udp_register(session), peer, now) {
        UdpAction::Acknowledge { session_id, ack, .. } => {
            assert_eq!(session_id, session);
            assert_eq!(
                parse_udp_packet(&ack, UDP_AUDIO_PAYLOAD_MAX_BYTES).unwrap(),
                UdpPacket::RegisterAck { session_id: session }
            );
            assert!(after_ack_sent(registry, session, Some(ack.len()), ack.len(), now));
        }
        other => panic!("not acknowledged: {:?}", other),
    }
}

fn heartbeat_line() -> Result<ControlMessageRequest, IoError> {
    Ok(ControlMessageRequest { message_type: ControlMessageType::Heartbeat })
}

fn forward(action: UdpAction) -> AudioDispatchJob {
    match action {
        UdpAction::Forward(job) => job,
        other => panic!("not forwarded: {:?}", other),
    }
}

fn send_all(registry: &mut StreamRegistry, job: AudioDispatchJob, now: u64) -> Vec<(Endpoint, Vec<u8>)> {
    let mut sent = Vec::new();
    let mut run = DispatchRun::start(registry, job).unwrap();
    loop {
        match run.step(registry, now) {
            DispatchStep::Send { endpoint, packet, .. } => {
                assert!(run.after_send(Some(packet.len()), packet.len()));
                sent.push((endpoint, packet));
            }
            DispatchStep::Skip => {}
            DispatchStep::EncodeFailed { .. } => {}
            DispatchStep::Done => break,
        }
    }
    run.finish(registry, now);
    sent
}

#[test]
fn forwards_udp_audio_after_control_authentication() {
    let mut registry = StreamRegistry::new(UDP_SESSION_TIMEOUT_MS);
    let key = "NVDA remote 密码 $ 123";
    let publisher = connect(&mut registry, ClientRole::Publisher, key);
    let subscriber = connect(&mut registry, ClientRole::Subscriber, key);
    udp_register(&mut registry, publisher, addr(4000), 1000);
    udp_register(&mut registry, subscriber, addr(5000), 1000);
    for session in [publisher, subscriber] {
        assert!(matches!(
            on_control_line(&mut registry, session, heartbeat_line(), 1000),
            ControlStep::Continue
        ));
    }

    let packet =
        encode_udp_audio_data(publisher, 1, 123, b"hello", UDP_AUDIO_PAYLOAD_MAX_BYTES).unwrap();
    let job = forward(handle_datagram(&mut registry, &packet, addr(4000), 1001));
    assert_eq!(job.publisher_session_id, publisher);
    assert_eq!(job.key, key);
    let sent = send_all(&mut registry, job, 1001);
    assert_eq!(sent.len(), 1);
    assert_eq!(sent[0].0, addr(5000));
    assert_eq!(
        parse_udp_packet(&sent[0].1, UDP_AUDIO_PAYLOAD_MAX_BYTES).unwrap(),
        UdpPacket::AudioData {
            session_id: subscriber,
            sequence: 1,
            timestamp_ms: 123,
            payload: b"hello",
        }
    );

    let query = StatusAccessRequest { key: STATUS_ACCESS_KEY.to_owned() };
    let snapshot = match answer_status(&registry, Some(&query), 1002) {
        StatusAnswer::Snapshot(snapshot) => snapshot,
        other => panic!("no snapshot: {:?}", other),
    };
    assert_eq!(snapshot.active_publisher_count, 1);
    assert_eq!(snapshot.active_subscriber_count, 1);
    assert_eq!(snapshot.active_udp_publisher_count, 1);
    assert_eq!(snapshot.active_udp_subscriber_count, 1);
    assert_eq!(snapshot.streams[0].udp_audio_packets_in_total, 1);
    assert_eq!(snapshot.streams[0].udp_audio_bytes_in_total, 5);
    assert_eq!(snapshot.streams[0].udp_audio_packets_out_total, 1);
    assert_eq!(snapshot.streams[0].udp_audio_bytes_out_total, 5);
}

#[test]
fn rejects_invalid_status_key() {
    let registry = StreamRegistry::new(UDP_SESSION_TIMEOUT_MS);
    let query = StatusAccessRequest { key: "wrong".to_owned() };
    match answer_status(&registry, Some(&query), 0) {
        StatusAnswer::Refused(response) => {
            assert_eq!(response.status, "error");
            assert_eq!(response.message, "invalid status key");
        }
        other => panic!("not refused: {:?}", other),
    }
}

#[test]
fn rejects_what_is_no_status_request() {
    let registry = StreamRegistry::new(UDP_SESSION_TIMEOUT_MS);
    match answer_status(&registry, None, 0) {
        StatusAnswer::Refused(response) => {
            assert_eq!(response.status, "error");
            assert_eq!(response.message, "invalid status request");
        }
        other => panic!("not refused: {:?}", other),
    }
}

#[test]
fn control_connection_times_out_without_heartbeat() {
    let mut registry = StreamRegistry::new(UDP_SESSION_TIMEOUT_MS);
    let session = connect(&mut registry, ClientRole::Subscriber, "room");
    let result = match on_control_line(&mut registry, session, Err(timed_out("control message")), 0) {
        ControlStep::End(result) => result,
        other => panic!("goes on: {:?}", other),
    };
    assert_eq!(disconnect_reason(&result), "timeout");
    end_control_session(&mut registry, session, &result, 0);
    assert_eq!(registry.session_role_and_key(session), None);
}

#[test]
fn requires_reregister_after_udp_source_port_change() {
    let mut registry = StreamRegistry::new(UDP_SESSION_TIMEOUT_MS);
    let publisher = connect(&mut registry, ClientRole::Publisher, "room");
    let subscriber = connect(&mut registry, ClientRole::Subscriber, "room");
    udp_register(&mut registry, publisher, addr(4000), 0);
    udp_register(&mut registry, subscriber, addr(5000), 0);

    match handle_datagram(&mut registry, &encode_udp_heartbeat(publisher), addr(4001), 1) {
        UdpAction::Reject(UdpRejection::HeartbeatRefused(session, error)) => {
            assert_eq!(session, publisher);
            assert_eq!(error, UdpHeartbeatError::UdpEndpointMismatch);
        }
        other => panic!("not refused: {:?}", other),
    }
    let packet = encode_udp_audio_data(
        publisher,
        1,
        111,
        b"before-reregister",
        UDP_AUDIO_PAYLOAD_MAX_BYTES,
    )
    .unwrap();
    match handle_datagram(&mut registry, &packet, addr(4001), 1) {
        UdpAction::Reject(UdpRejection::AudioRefused(session, error)) => {
            assert_eq!(session, publisher);
            assert_eq!(error, AudioDispatchError::UdpEndpointMismatch);
        }
        other => panic!("not refused: {:?}", other),
    }

    udp_register(&mut registry, publisher, addr(4001), 2);
    let packet = encode_udp_audio_data(
        publisher,
        2,
        222,
        b"after-reregister",
        UDP_AUDIO_PAYLOAD_MAX_BYTES,
    )
    .unwrap();
    let job = forward(handle_datagram(&mut registry, &packet, addr(4001), 3));
    let sent = send_all(&mut registry, job, 3);
    assert_eq!(
        parse_udp_packet(&sent[0].1, UDP_AUDIO_PAYLOAD_MAX_BYTES).unwrap(),
        UdpPacket::AudioData {
            session_id: subscriber,
            sequence: 2,
            timestamp_ms: 222,
            payload: b"after-reregister",
        }
    );
}

#[test]
fn control_disconnect_immediately_invalidates_udp_session() {
    let mut registry = StreamRegistry::new(UDP_SESSION_TIMEOUT_MS);
    let publisher = connect(&mut registry, ClientRole::Publisher, "room");
    let subscriber = connect(&mut registry, ClientRole::Subscriber, "room");
    udp_register(&mut registry, publisher, addr(4000), 0);
    udp_register(&mut registry, subscriber, addr(5000), 0);

    let packet =
        encode_udp_audio_data(publisher, 1, 123, b"hello", UDP_AUDIO_PAYLOAD_MAX_BYTES).unwrap();
    let waiting = forward(handle_datagram(&mut registry, &packet, addr(4000), 1));

    let closed = IoError::new(ErrorKind::UnexpectedEof, "closed");
    let result = match on_control_line(&mut registry, publisher, Err(closed), 1) {
        ControlStep::End(result) => result,
        other => panic!("goes on: {:?}", other),
    };
    assert!(result.is_ok());
    end_control_session(&mut registry, publisher, &result, 1);

    match handle_datagram(&mut registry, &packet, addr(4000), 2) {
        UdpAction::Reject(UdpRejection::AudioUnknownSession(session)) => {
            assert_eq!(session, publisher);
        }
        other => panic!("not rejected: {:?}", other),
    }
    assert!(DispatchRun::start(&registry, waiting).is_none());
    let snapshot = registry.snapshot_at(3);
    assert_eq!(snapshot.unknown_udp_session_packets_total, 1);
    assert_eq!(
        snapshot.streams[0].last_publisher_disconnect_reason.as_deref(),
        Some("peer_disconnected")
    );
}

#[test]
fn handshake_with_a_bad_key_is_refused_without_reply() {
    let mut registry = StreamRegistry::new(100);
    match accept_handshake(&mut registry, &request(ClientRole::Publisher, ""), "peer") {
        HandshakeDecision::Refuse(error) => {
            assert_eq!(error.kind, ErrorKind::InvalidInput);
            assert_eq!(error.message, "key must not be empty");
        }
        other => panic!("not refused: {:?}", other),
    }
    assert!(check_handshake(&request(ClientRole::Publisher, "a\tb")).is_err());
    assert!(check_handshake(&request(ClientRole::Publisher, "a b")).is_ok());
    assert_eq!(registry.snapshot_at(0).stream_count, 0);
}

#[test]
fn second_publisher_is_told() {
    let mut registry = StreamRegistry::new(100);
    let first = connect(&mut registry, ClientRole::Publisher, "room-123");
    match accept_handshake(&mut registry, &request(ClientRole::Publisher, "room-123"), "peer") {
        HandshakeDecision::RefuseWithReply(error) => {
            assert_eq!(error.kind, ErrorKind::AlreadyExists);
            assert_eq!(error.message, "publisher already connected for this key");
        }
        other => panic!("not refused: {:?}", other),
    }
    assert!(registry.session_matches(first, ClientRole::Publisher, "room-123"));
    let response = publisher_taken_response("room-123");
    assert_eq!(response.status, "error");
    assert_eq!(response.message, "publisher already connected for this key");
    assert_eq!(response.key, Some("room-123"));
    assert_eq!(response.role, None);
    assert_eq!(response.session_id, None);
    assert_eq!(response.udp_port, None);
    assert_eq!(response.tcp_heartbeat_interval_ms, None);
    assert_eq!(response.udp_session_timeout_ms, None);
    assert_eq!(response.udp_audio_payload_max_bytes, None);
}

#[test]
fn failed_session_id_is_reported() {
    let failure = IoError::new(ErrorKind::Other, "failed to generate session id: x");
    match decide_handshake(Err(RegisterSessionError::SessionIdGeneration(failure))) {
        HandshakeDecision::Refuse(error) => {
            assert_eq!(error.kind, ErrorKind::Other);
            assert_eq!(
                error.message,
                "failed to allocate session id: failed to generate session id: x"
            );
        }
        other => panic!("not refused: {:?}", other),
    }
}

#[test]
fn accepted_client_is_told_the_limits() {
    let response = accepted_response(
        ClientRole::Publisher,
        "room-123",
        "00112233445566778899aabbccddeeff",
        6838,
    );
    assert_eq!(response.status, "ok");
    assert_eq!(response.message, "control session established");
    assert_eq!(response.role, Some(ClientRole::Publisher));
    assert_eq!(response.key, Some("room-123"));
    assert_eq!(response.session_id, Some("00112233445566778899aabbccddeeff"));
    assert_eq!(response.udp_port, Some(6838));
    assert_eq!(response.tcp_heartbeat_interval_ms, Some(TCP_HEARTBEAT_INTERVAL_MS));
    assert_eq!(response.udp_session_timeout_ms, Some(15000));
    assert_eq!(response.udp_audio_payload_max_bytes, Some(1200));
}

#[test]
fn unwritten_reply_disconnects_again() {
    let mut registry = StreamRegistry::new(100);
    let kept = connect(&mut registry, ClientRole::Subscriber, "room");
    let lost = connect(&mut registry, ClientRole::Subscriber, "room");
    assert!(after_handshake_reply(&mut registry, kept, Ok(()), 1).is_ok());
    let failure = IoError::new(ErrorKind::BrokenPipe, "pipe");
    let result = after_handshake_reply(&mut registry, lost, Err(failure), 2);
    assert_eq!(result.unwrap_err().message, "pipe");
    let snapshot = registry.snapshot_at(3);
    assert_eq!(snapshot.active_subscriber_count, 1);
    assert_eq!(
        snapshot.streams[0].last_subscriber_disconnect_reason.as_deref(),
        Some("handshake_response_failed")
    );
}

#[test]
fn heartbeat_on_a_lost_session_ends_the_connection() {
    let mut registry = StreamRegistry::new(100);
    let session = connect(&mut registry, ClientRole::Subscriber, "room");
    registry.unregister_session_at(session, "gone", 1);
    match on_control_line(&mut registry, session, heartbeat_line(), 2) {
        ControlStep::End(Err(error)) => {
            assert_eq!(error.kind, ErrorKind::UnexpectedEof);
            assert_eq!(error.message, "control session no longer exists");
        }
        other => panic!("goes on: {:?}", other),
    }
}

#[test]
fn disconnect_reasons_go_by_the_kind() {
    let reason = |kind| disconnect_reason(&Err(IoError::new(kind, "the message")));
    assert_eq!(disconnect_reason(&Ok(())), "peer_disconnected");
    assert_eq!(reason(ErrorKind::TimedOut), "timeout");
    assert_eq!(reason(ErrorKind::InvalidData), "protocol_error");
    assert_eq!(reason(ErrorKind::BrokenPipe), "peer_disconnected");
    assert_eq!(reason(ErrorKind::ConnectionReset), "peer_disconnected");
    assert_eq!(reason(ErrorKind::ConnectionAborted), "peer_disconnected");
    assert_eq!(reason(ErrorKind::UnexpectedEof), "peer_disconnected");
    assert_eq!(reason(ErrorKind::Other), "the message");
    assert_eq!(reason(ErrorKind::InvalidInput), "the message");
}

#[test]
fn roles_have_names() {
    assert_eq!(role_label(ClientRole::Publisher), "publisher");
    assert_eq!(role_label(ClientRole::Subscriber), "subscriber");
}

#[test]
fn datagrams_are_sorted_out() {
    let mut registry = StreamRegistry::new(100);
    let unknown = SessionId::from_bytes([0x77; 16]);
    assert!(matches!(
        handle_datagram(&mut registry, b"RAS1", addr(1), 0),
        UdpAction::Reject(UdpRejection::Invalid(UdpPacketError::TooShort))
    ));
    match handle_datagram(&mut registry, &encode_udp_register(unknown), addr(1), 0) {
        UdpAction::Reject(UdpRejection::RegisterUnknownSession(session)) => {
            assert_eq!(session, unknown);
        }
        other => panic!("not rejected: {:?}", other),
    }
    match handle_datagram(&mut registry, &encode_udp_heartbeat(unknown), addr(1), 0) {
        UdpAction::Reject(UdpRejection::HeartbeatUnknownSession(session)) => {
            assert_eq!(session, unknown);
        }
        other => panic!("not rejected: {:?}", other),
    }
    match handle_datagram(&mut registry, &encode_udp_register_ack(unknown), addr(1), 0) {
        UdpAction::Reject(UdpRejection::UnexpectedRegisterAck(session)) => {
            assert_eq!(session, unknown);
        }
        other => panic!("not rejected: {:?}", other),
    }
    let subscriber = connect(&mut registry, ClientRole::Subscriber, "room");
    udp_register(&mut registry, subscriber, addr(1), 0);
    assert!(matches!(
        handle_datagram(&mut registry, &encode_udp_heartbeat(subscriber), addr(1), 99),
        UdpAction::Heard
    ));
    assert!(matches!(
        handle_datagram(&mut registry, &encode_udp_heartbeat(subscriber), addr(1), 199),
        UdpAction::Reject(UdpRejection::HeartbeatRefused(_, UdpHeartbeatError::UdpEndpointExpired))
    ));
    let audio = encode_udp_audio_data(subscriber, 1, 1, b"x", 1).unwrap();
    assert!(matches!(
        handle_datagram(&mut registry, &audio, addr(1), 100),
        UdpAction::Reject(UdpRejection::AudioRefused(_, AudioDispatchError::WrongRole))
    ));
    let snapshot = registry.snapshot_at(100);
    assert_eq!(snapshot.invalid_udp_packets_total, 2);
    assert_eq!(snapshot.unknown_udp_session_packets_total, 2);
}

#[test]
fn unsent_acks_are_counted() {
    let mut registry = StreamRegistry::new(100);
    let session = connect(&mut registry, ClientRole::Subscriber, "room");
    assert!(after_ack_sent(&mut registry, session, Some(22), 22, 1));
    assert!(!after_ack_sent(&mut registry, session, Some(21), 22, 2));
    assert!(!after_ack_sent(&mut registry, session, None, 22, 3));
    assert_eq!(registry.snapshot_at(4).streams[0].udp_send_errors_total, 2);
}

#[test]
fn worker_count_is_clamped() {
    assert_eq!(udp_dispatch_worker_count(None), 1);
    assert_eq!(udp_dispatch_worker_count(Some(0)), 1);
    assert_eq!(udp_dispatch_worker_count(Some(1)), 1);
    assert_eq!(udp_dispatch_worker_count(Some(5)), 5);
    assert_eq!(udp_dispatch_worker_count(Some(8)), 8);
    assert_eq!(udp_dispatch_worker_count(Some(64)), 8);
}

#[test]
fn worker_goes_by_the_hash_of_the_key() {
    for key in ["", "room", "Room", "NVDA remote 密码 $ 123", "load_room_07"] {
        for count in 1..9usize {
            let mut hasher = DefaultHasher::new();
            key.hash(&mut hasher);
            let expected = (hasher.finish() as usize) % count;
            assert_eq!(dispatch_worker_index(key, count), expected);
        }
    }
}

#[test]
fn full_queue_counts_every_target_as_failed() {
    let mut registry = StreamRegistry::new(100);
    let publisher = connect(&mut registry, ClientRole::Publisher, "room");
    let a = connect(&mut registry, ClientRole::Subscriber, "room");
    let b = connect(&mut registry, ClientRole::Subscriber, "room");
    for (session, port) in [(publisher, 1), (a, 2), (b, 3)] {
        udp_register(&mut registry, session, addr(port), 0);
    }
    let audio = encode_udp_audio_data(publisher, 1, 1, b"x", 1).unwrap();
    let job = forward(handle_datagram(&mut registry, &audio, addr(1), 1));
    assert!(after_enqueue(&mut registry, EnqueueOutcome::Queued, 2).is_ok());
    assert!(after_enqueue(&mut registry, EnqueueOutcome::Full(job), 3).is_ok());
    let snapshot = registry.snapshot_at(4);
    assert_eq!(snapshot.streams[0].udp_send_errors_total, 2);
    assert_eq!(snapshot.streams[0].udp_audio_packets_out_total, 0);
    let error = after_enqueue(&mut registry, EnqueueOutcome::Closed, 5).unwrap_err();
    assert_eq!(error.kind, ErrorKind::BrokenPipe);
    assert_eq!(error.message, "udp dispatch worker channel closed unexpectedly");
}

#[test]
fn dispatch_skips_gone_targets_and_counts_failures() {
    let mut registry = StreamRegistry::new(100);
    let publisher = connect(&mut registry, ClientRole::Publisher, "room");
    let mut subscribers = Vec::new();
    for port in 2..6u16 {
        let session = connect(&mut registry, ClientRole::Subscriber, "room");
        udp_register(&mut registry, session, addr(port), 0);
        subscribers.push(session);
    }
    udp_register(&mut registry, publisher, addr(1), 0);
    let audio = encode_udp_audio_data(publisher, 1, 1, b"abc", 3).unwrap();
    let job = forward(handle_datagram(&mut registry, &audio, addr(1), 1));
    assert_eq!(job.targets.len(), 4);
    registry.unregister_session_at(subscribers[0], "gone", 2);

    let mut run = DispatchRun::start(&registry, job).unwrap();
    let mut skipped = 0;
    let mut sent = 0;
    loop {
        match run.step(&registry, 3) {
            DispatchStep::Skip => skipped += 1,
            DispatchStep::Send { packet, .. } => {
                sent += 1;
                let result = match sent {
                    1 => Some(packet.len()),
                    2 => Some(packet.len() - 1),
                    _ => None,
                };
                assert_eq!(run.after_send(result, packet.len()), sent == 1);
            }
            DispatchStep::EncodeFailed { .. } => panic!("payload is small"),
            DispatchStep::Done => break,
        }
    }
    assert!(matches!(run.step(&registry, 3), DispatchStep::Done));
    run.finish(&mut registry, 4);
    assert_eq!(skipped, 1);
    assert_eq!(sent, 3);
    let snapshot = registry.snapshot_at(5);
    assert_eq!(snapshot.streams[0].udp_audio_packets_out_total, 1);
    assert_eq!(snapshot.streams[0].udp_audio_bytes_out_total, 3);
    assert_eq!(snapshot.streams[0].udp_send_errors_total, 2);
}

#[test]
fn oversized_audio_is_not_passed_on() {
    let mut registry = StreamRegistry::new(100);
    let publisher = connect(&mut registry, ClientRole::Publisher, "room");
    let subscriber = connect(&mut registry, ClientRole::Subscriber, "room");
    udp_register(&mut registry, publisher, addr(1), 0);
    udp_register(&mut registry, subscriber, addr(2), 0);
    let plan = registry.prepare_audio_dispatch_at(publisher, addr(1), 1201, 1).unwrap();
    let job = AudioDispatchJob::from_plan(plan, 1, 1, &[0; 1201]);
    let mut run = DispatchRun::start(&registry, job).unwrap();
    match run.step(&registry, 1) {
        DispatchStep::EncodeFailed { session_id, error } => {
            assert_eq!(session_id, subscriber);
            assert_eq!(error.message(), "udp audio payload exceeds limit: 1201 > 1200");
        }
        other => panic!("encoded: {:?}", other),
    }
    run.finish(&mut registry, 2);
    assert_eq!(registry.snapshot_at(3).streams[0].udp_send_errors_total, 1);
}
