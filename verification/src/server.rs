//! What the relay does with control connections, UDP packets, audio in transit and status
//! queries, once the bytes are there.

use std::collections::hash_map::DefaultHasher;
use std::hash::Hasher;

use vstd::prelude::*;
use vstd::slice::*;
use vstd::std_specs::hash::*;
use vstd::string::*;
use vstd::utf8::*;

use crate::config::{
    STATUS_ACCESS_KEY, TCP_HEARTBEAT_INTERVAL_MS, UDP_AUDIO_PAYLOAD_MAX_BYTES,
    UDP_PACKET_MAX_BYTES, UDP_SESSION_TIMEOUT_MS,
};
use crate::big_endian::lemma_be_bytes_len;
use crate::endpoint::Endpoint;
use crate::error::{ErrorKind, IoError};
use crate::laws::law_audio_goes_to_active_subscribers;
use crate::model::RegistryView;
use crate::protocol::{
    encode_packet, encode_udp_audio_data, encode_udp_register_ack, id_bytes, is_drawn, key_problem,
    law_encode_writes_what_parse_read, law_parse_reads_what_encode_writes, lemma_session_id_number,
    parse_packet, parse_udp_packet, payload_fits, validate_key, ClientRole, ControlMessageRequest,
    ControlMessageType, HandshakeRequest, HandshakeResponse, Packet, PayloadTooLarge, SessionId,
    StatusAccessRequest, StatusAccessResponse, UdpPacket, UdpPacketError,
};
use crate::state::{
    are_targets_of, audio_refusal, comes_of_a_draw, heartbeat_result, is_draw_failure, is_snapshot, target_pairs,
    totals_are_sums,
    AudioDispatchError, AudioDispatchPlan, RegisterSessionError, RegistrySnapshot,
    SessionRegistration, StreamRegistry, UdpDispatchTarget, UdpHeartbeatError,
};
use crate::text::same_text;

verus! {

/// How many audio packets wait for one worker at most.
pub const UDP_DISPATCH_CHANNEL_CAPACITY: usize = 64;

/// How many workers pass audio on at most.
pub const MAX_UDP_DISPATCH_WORKERS: usize = 8;

/// The name of a role in logs.
pub open spec fn role_name(role: ClientRole) -> Seq<char> {
    match role {
        ClientRole::Publisher => "publisher"@,
        ClientRole::Subscriber => "subscriber"@,
    }
}

/// The name of a role in logs.
pub fn role_label(role: ClientRole) -> (label: &'static str)
    ensures
        label@ == role_name(role),
{
    match role {
        ClientRole::Publisher => "publisher",
        ClientRole::Subscriber => "subscriber",
    }
}

/// Why a control connection ended, in a word.
pub open spec fn reason_for(result: Result<(), IoError>) -> Seq<char> {
    match result {
        Ok(()) => "peer_disconnected"@,
        Err(e) => match e.kind {
            ErrorKind::TimedOut => "timeout"@,
            ErrorKind::InvalidData => "protocol_error"@,
            ErrorKind::BrokenPipe => "peer_disconnected"@,
            ErrorKind::ConnectionReset => "peer_disconnected"@,
            ErrorKind::ConnectionAborted => "peer_disconnected"@,
            ErrorKind::UnexpectedEof => "peer_disconnected"@,
            _ => e.message@,
        },
    }
}

/// Why a control connection ended, in a word.
pub fn disconnect_reason(result: &Result<(), IoError>) -> (reason: String)
    ensures
        reason@ == reason_for(*result),
{
    match result {
        Ok(()) => "peer_disconnected".to_owned(),
        Err(e) => match e.kind {
            ErrorKind::TimedOut => "timeout".to_owned(),
            ErrorKind::InvalidData => "protocol_error".to_owned(),
            ErrorKind::BrokenPipe => "peer_disconnected".to_owned(),
            ErrorKind::ConnectionReset => "peer_disconnected".to_owned(),
            ErrorKind::ConnectionAborted => "peer_disconnected".to_owned(),
            ErrorKind::UnexpectedEof => "peer_disconnected".to_owned(),
            _ => e.message.clone(),
        },
    }
}

/// What becomes of a handshake.
#[derive(Debug)]
pub enum HandshakeDecision {
    /// The client is connected.
    Accept(SessionRegistration),
    /// The client is told that its key has a publisher, and the connection ends.
    RefuseWithReply(IoError),
    /// The connection ends without a word.
    Refuse(IoError),
}

/// Whether a failure has a kind and a message.
pub open spec fn is_failure(error: IoError, kind: ErrorKind, message: Seq<char>) -> bool {
    error.kind == kind && error.message@ == message
}

/// What is reported where no session id could be drawn.
pub open spec fn allocation_failure(detail: Seq<char>) -> Seq<char> {
    "failed to allocate session id: "@ + detail
}

/// Whether this is what becomes of a handshake, given what came of the registration.
pub open spec fn is_handshake_decision(
    result: Result<SessionRegistration, RegisterSessionError>,
    decision: HandshakeDecision,
) -> bool {
    match result {
        Ok(registration) => decision == HandshakeDecision::Accept(registration),
        Err(RegisterSessionError::PublisherAlreadyConnected) => {
            &&& decision matches HandshakeDecision::RefuseWithReply(error)
            &&& is_failure(
                error,
                ErrorKind::AlreadyExists,
                "publisher already connected for this key"@,
            )
        },
        Err(RegisterSessionError::SessionIdGeneration(e)) => {
            &&& decision matches HandshakeDecision::Refuse(error)
            &&& is_failure(error, e.kind, allocation_failure(e.message@))
        },
    }
}

/// What becomes of a handshake, given what came of the registration.
pub fn decide_handshake(result: Result<SessionRegistration, RegisterSessionError>) -> (decision:
    HandshakeDecision)
    ensures
        is_handshake_decision(result, decision),
{
    match result {
        Ok(registration) => HandshakeDecision::Accept(registration),
        Err(RegisterSessionError::PublisherAlreadyConnected) => HandshakeDecision::RefuseWithReply(
            IoError::new(ErrorKind::AlreadyExists, "publisher already connected for this key"),
        ),
        Err(RegisterSessionError::SessionIdGeneration(e)) => HandshakeDecision::Refuse(
            IoError {
                kind: e.kind,
                message: "failed to allocate session id: ".to_owned().concat(e.message.as_str()),
            },
        ),
    }
}

/// Tests the key of a handshake.
pub fn check_handshake(request: &HandshakeRequest) -> (result: Result<(), IoError>)
    ensures
        match key_problem(request.key@) {
            None => result is Ok,
            Some(message) => result matches Err(e) && is_failure(
                e,
                ErrorKind::InvalidInput,
                message,
            ),
        },
{
    match validate_key(request.key.as_str()) {
        Ok(()) => Ok(()),
        Err(message) => Err(IoError::new(ErrorKind::InvalidInput, message)),
    }
}

/// Connects a client by its handshake.
pub fn accept_handshake(
    registry: &mut StreamRegistry,
    request: &HandshakeRequest,
    peer_addr: &str,
) -> (decision: HandshakeDecision)
    requires
        old(registry).inv(),
    ensures
        final(registry).inv(),
        ({
            let refused = request.role == ClientRole::Publisher && old(registry)@.has_publisher(
                request.key@,
            );
            match key_problem(request.key@) {
                Some(message) => {
                    &&& decision matches HandshakeDecision::Refuse(e)
                    &&& is_failure(e, ErrorKind::InvalidInput, message)
                    &&& final(registry)@ == old(registry)@
                },
                None => match decision {
                    HandshakeDecision::Accept(registration) => {
                        &&& !refused
                        &&& !old(registry)@.sessions.contains_key(registration.session_id@)
                        &&& comes_of_a_draw(old(registry)@, registration.session_id@)
                        &&& old(registry)@.connects(
                            request.role,
                            request.key@,
                            peer_addr@,
                            registration.session_id@,
                            final(registry)@,
                        )
                    },
                    HandshakeDecision::RefuseWithReply(e) => {
                        &&& refused
                        &&& is_failure(
                            e,
                            ErrorKind::AlreadyExists,
                            "publisher already connected for this key"@,
                        )
                        &&& final(registry)@ == old(registry)@
                    },
                    HandshakeDecision::Refuse(e) => {
                        &&& !refused
                        &&& e.kind == ErrorKind::Other
                        &&& exists|detail: Seq<char>|
                            e.message@ == #[trigger] allocation_failure(detail) && is_draw_failure(
                                detail,
                            )
                        &&& exists|failure: IoError| #[trigger]
                            is_drawn(Err::<SessionId, IoError>(failure)) && e.message@
                                == allocation_failure(failure.message@)
                        &&& final(registry)@ == old(registry)@
                    },
                },
            }
        }),
{
    match check_handshake(request) {
        Ok(()) => {},
        Err(e) => {
            return HandshakeDecision::Refuse(e);
        },
    }
    let result = registry.register_control_session(
        request.role,
        request.key.as_str(),
        peer_addr.to_owned(),
    );
    decide_handshake(result)
}

/// The reply to a client that is connected.
pub fn accepted_response<'a>(
    role: ClientRole,
    key: &'a str,
    session_hex: &'a str,
    udp_port: u16,
) -> (response: HandshakeResponse<'a>)
    ensures
        response.status@ == "ok"@,
        response.message@ == "control session established"@,
        response.role == Some(role),
        response.key == Some(key),
        response.session_id == Some(session_hex),
        response.udp_port == Some(udp_port),
        response.tcp_heartbeat_interval_ms == Some(TCP_HEARTBEAT_INTERVAL_MS),
        response.udp_session_timeout_ms == Some(UDP_SESSION_TIMEOUT_MS),
        response.udp_audio_payload_max_bytes == Some(UDP_AUDIO_PAYLOAD_MAX_BYTES),
{
    HandshakeResponse {
        status: "ok",
        message: "control session established",
        role: Some(role),
        key: Some(key),
        session_id: Some(session_hex),
        udp_port: Some(udp_port),
        tcp_heartbeat_interval_ms: Some(TCP_HEARTBEAT_INTERVAL_MS),
        udp_session_timeout_ms: Some(UDP_SESSION_TIMEOUT_MS),
        udp_audio_payload_max_bytes: Some(UDP_AUDIO_PAYLOAD_MAX_BYTES),
    }
}

/// The reply to a publisher whose key has one already.
pub fn publisher_taken_response<'a>(key: &'a str) -> (response: HandshakeResponse<'a>)
    ensures
        response.status@ == "error"@,
        response.message@ == "publisher already connected for this key"@,
        response.role is None,
        response.key == Some(key),
        response.session_id is None,
        response.udp_port is None,
        response.tcp_heartbeat_interval_ms is None,
        response.udp_session_timeout_ms is None,
        response.udp_audio_payload_max_bytes is None,
{
    HandshakeResponse {
        status: "error",
        message: "publisher already connected for this key",
        role: None,
        key: Some(key),
        session_id: None,
        udp_port: None,
        tcp_heartbeat_interval_ms: None,
        udp_session_timeout_ms: None,
        udp_audio_payload_max_bytes: None,
    }
}

/// Goes on after the reply to a client that is connected: where it could not be written, the
/// client is disconnected again.
pub fn after_handshake_reply(
    registry: &mut StreamRegistry,
    session_id: SessionId,
    written: Result<(), IoError>,
    now: u64,
) -> (result: Result<(), IoError>)
    requires
        old(registry).inv(),
    ensures
        final(registry).inv(),
        result == written,
        final(registry)@ == match written {
            Ok(()) => old(registry)@,
            Err(_) => old(registry)@.disconnected(session_id@, "handshake_response_failed"@, now),
        },
{
    if written.is_err() {
        registry.unregister_session_at(session_id, "handshake_response_failed", now);
    }
    written
}

/// What to do after a line on a control connection.
#[derive(Debug)]
pub enum ControlStep {
    /// Read the next line.
    Continue,
    /// End the connection.
    End(Result<(), IoError>),
}

/// Takes in a line of a control connection, or the failure to read one. Where the peer closes the
/// connection, that is a proper end.
pub fn on_control_line(
    registry: &mut StreamRegistry,
    session_id: SessionId,
    line: Result<ControlMessageRequest, IoError>,
    now: u64,
) -> (step: ControlStep)
    requires
        old(registry).inv(),
    ensures
        final(registry).inv(),
        match line {
            Ok(message) => {
                &&& final(registry)@ == old(registry)@.control_heartbeat(session_id@, now)
                &&& if old(registry)@.sessions.contains_key(session_id@) {
                    step is Continue
                } else {
                    &&& step matches ControlStep::End(Err(e))
                    &&& is_failure(
                        e,
                        ErrorKind::UnexpectedEof,
                        "control session no longer exists"@,
                    )
                }
            },
            Err(e) => {
                &&& final(registry)@ == old(registry)@
                &&& step == ControlStep::End(
                    if e.kind == ErrorKind::UnexpectedEof {
                        Ok(())
                    } else {
                        Err(e)
                    },
                )
            },
        },
{
    match line {
        Ok(message) => match message.message_type {
            ControlMessageType::Heartbeat => {
                if registry.record_control_heartbeat_at(session_id, now) {
                    ControlStep::Continue
                } else {
                    ControlStep::End(
                        Err(
                            IoError::new(
                                ErrorKind::UnexpectedEof,
                                "control session no longer exists",
                            ),
                        ),
                    )
                }
            },
        },
        Err(e) => {
            if e.kind == ErrorKind::UnexpectedEof {
                ControlStep::End(Ok(()))
            } else {
                ControlStep::End(Err(e))
            }
        },
    }
}

/// Disconnects a client whose control connection has ended.
pub fn end_control_session(
    registry: &mut StreamRegistry,
    session_id: SessionId,
    result: &Result<(), IoError>,
    now: u64,
)
    requires
        old(registry).inv(),
    ensures
        final(registry).inv(),
        final(registry)@ == old(registry)@.disconnected(session_id@, reason_for(*result), now),
{
    let reason = disconnect_reason(result);
    registry.unregister_session_at(session_id, reason.as_str(), now);
}

/// An audio packet on its way to the subscribers.
#[derive(Debug)]
pub struct AudioDispatchJob {
    pub publisher_session_id: SessionId,
    pub key: String,
    pub sequence: u64,
    pub timestamp_ms: u64,
    pub payload: Vec<u8>,
    pub targets: Vec<UdpDispatchTarget>,
}

impl AudioDispatchJob {
    /// An audio packet to be sent where a plan says.
    pub fn from_plan(
        plan: AudioDispatchPlan,
        sequence: u64,
        timestamp_ms: u64,
        payload: &[u8],
    ) -> (job: AudioDispatchJob)
        ensures
            job.publisher_session_id == plan.publisher_session_id,
            job.key == plan.key,
            job.sequence == sequence,
            job.timestamp_ms == timestamp_ms,
            job.payload@ == payload@,
            job.targets == plan.targets,
    {
        AudioDispatchJob {
            publisher_session_id: plan.publisher_session_id,
            key: plan.key,
            sequence,
            timestamp_ms,
            payload: slice_to_vec(payload),
            targets: plan.targets,
        }
    }
}

/// Why a UDP packet was turned down.
#[derive(Debug)]
pub enum UdpRejection {
    Invalid(UdpPacketError),
    UnexpectedRegisterAck(SessionId),
    RegisterUnknownSession(SessionId),
    HeartbeatUnknownSession(SessionId),
    HeartbeatRefused(SessionId, UdpHeartbeatError),
    AudioUnknownSession(SessionId),
    AudioRefused(SessionId, AudioDispatchError),
}

/// What to do after a UDP packet.
#[derive(Debug)]
pub enum UdpAction {
    /// Confirm a registration: send a packet back to where it came from.
    Acknowledge { session_id: SessionId, role: ClientRole, key: String, ack: Vec<u8> },
    /// Nothing: a heartbeat was counted.
    Heard,
    /// Pass audio on.
    Forward(AudioDispatchJob),
    /// Nothing: the packet was turned down.
    Reject(UdpRejection),
}

/// What a UDP packet makes of the registry.
pub open spec fn after_datagram(
    registry: RegistryView,
    datagram: Seq<u8>,
    peer: Endpoint,
    now: u64,
) -> RegistryView {
    match parse_packet(datagram, UDP_AUDIO_PAYLOAD_MAX_BYTES) {
        Err(_) => registry.invalid_packet(),
        Ok(Packet::RegisterAck { .. }) => registry.invalid_packet(),
        Ok(Packet::Register { id }) => if registry.sessions.contains_key(id) {
            registry.udp_registered(id, peer, now)
        } else {
            registry.unknown_session()
        },
        Ok(Packet::Heartbeat { id }) => if registry.sessions.contains_key(id) {
            registry.udp_heartbeat(id, peer, now)
        } else {
            registry.unknown_session()
        },
        Ok(Packet::AudioData { id, payload, .. }) => if registry.sessions.contains_key(id) {
            registry.audio_received(id, peer, payload.len() as usize, now)
        } else {
            registry.unknown_session()
        },
    }
}

/// Whether this is what to do after a UDP packet.
pub open spec fn is_action_for(
    registry: RegistryView,
    datagram: Seq<u8>,
    peer: Endpoint,
    now: u64,
    action: UdpAction,
) -> bool {
    match parse_packet(datagram, UDP_AUDIO_PAYLOAD_MAX_BYTES) {
        Err(e) => action == UdpAction::Reject(UdpRejection::Invalid(e)),
        Ok(Packet::RegisterAck { id }) => {
            &&& action matches UdpAction::Reject(UdpRejection::UnexpectedRegisterAck(named))
            &&& named@ == id
        },
        Ok(Packet::Register { id }) => if registry.sessions.contains_key(id) {
            &&& action matches UdpAction::Acknowledge { session_id, role, key, ack }
            &&& session_id@ == id
            &&& role == registry.sessions[id].role
            &&& key@ == registry.sessions[id].key
            &&& ack@ == encode_packet(Packet::RegisterAck { id })
        } else {
            &&& action matches UdpAction::Reject(UdpRejection::RegisterUnknownSession(named))
            &&& named@ == id
        },
        Ok(Packet::Heartbeat { id }) => match heartbeat_result(registry, id, peer, now) {
            Ok(()) => action is Heard,
            Err(UdpHeartbeatError::UnknownSession) => {
                &&& action matches UdpAction::Reject(UdpRejection::HeartbeatUnknownSession(named))
                &&& named@ == id
            },
            Err(e) => {
                &&& action matches UdpAction::Reject(UdpRejection::HeartbeatRefused(named, why))
                &&& named@ == id
                &&& why == e
            },
        },
        Ok(Packet::AudioData { id, sequence, timestamp_ms, payload }) => match audio_refusal(
            registry,
            id,
            peer,
            now,
        ) {
            None => {
                &&& action matches UdpAction::Forward(job)
                &&& job.publisher_session_id@ == id
                &&& job.key@ == registry.sessions[id].key
                &&& job.sequence == sequence
                &&& job.timestamp_ms == timestamp_ms
                &&& job.payload@ == payload
                &&& are_targets_of(job.targets@, registry, job.key@, now)
            },
            Some(AudioDispatchError::UnknownSession) => {
                &&& action matches UdpAction::Reject(UdpRejection::AudioUnknownSession(named))
                &&& named@ == id
            },
            Some(e) => {
                &&& action matches UdpAction::Reject(UdpRejection::AudioRefused(named, why))
                &&& named@ == id
                &&& why == e
            },
        },
    }
}

/// Takes in a UDP packet.
pub fn handle_datagram(
    registry: &mut StreamRegistry,
    datagram: &[u8],
    peer: Endpoint,
    now: u64,
) -> (action: UdpAction)
    requires
        old(registry).inv(),
    ensures
        final(registry).inv(),
        final(registry)@ == after_datagram(old(registry)@, datagram@, peer, now),
        is_action_for(old(registry)@, datagram@, peer, now, action),
{
    let packet = match parse_udp_packet(datagram, UDP_AUDIO_PAYLOAD_MAX_BYTES) {
        Ok(packet) => packet,
        Err(e) => {
            registry.record_invalid_udp_packet();
            return UdpAction::Reject(UdpRejection::Invalid(e));
        },
    };
    match packet {
        UdpPacket::Register { session_id } => {
            match registry.record_udp_register_at(session_id, peer, now) {
                Ok(()) => {},
                Err(_) => {
                    registry.record_unknown_udp_session();
                    return UdpAction::Reject(UdpRejection::RegisterUnknownSession(session_id));
                },
            }
            match registry.session_role_and_key(session_id) {
                Some((role, key)) => UdpAction::Acknowledge {
                    session_id,
                    role,
                    key,
                    ack: encode_udp_register_ack(session_id),
                },
                None => UdpAction::Reject(UdpRejection::RegisterUnknownSession(session_id)),
            }
        },
        UdpPacket::Heartbeat { session_id } => {
            match registry.record_udp_heartbeat_at(session_id, peer, now) {
                Ok(()) => UdpAction::Heard,
                Err(UdpHeartbeatError::UnknownSession) => {
                    registry.record_unknown_udp_session();
                    UdpAction::Reject(UdpRejection::HeartbeatUnknownSession(session_id))
                },
                Err(e) => UdpAction::Reject(UdpRejection::HeartbeatRefused(session_id, e)),
            }
        },
        UdpPacket::RegisterAck { session_id } => {
            registry.record_invalid_udp_packet();
            UdpAction::Reject(UdpRejection::UnexpectedRegisterAck(session_id))
        },
        UdpPacket::AudioData { session_id, sequence, timestamp_ms, payload } => {
            match registry.prepare_audio_dispatch_at(session_id, peer, payload.len(), now) {
                Ok(plan) => UdpAction::Forward(
                    AudioDispatchJob::from_plan(plan, sequence, timestamp_ms, payload),
                ),
                Err(AudioDispatchError::UnknownSession) => {
                    registry.record_unknown_udp_session();
                    UdpAction::Reject(UdpRejection::AudioUnknownSession(session_id))
                },
                Err(e) => UdpAction::Reject(UdpRejection::AudioRefused(session_id, e)),
            }
        },
    }
}

/// Whether a packet was sent completely: what is known to be sent is all there is.
pub open spec fn sent_completely(sent: Option<usize>, expected: usize) -> bool {
    sent == Some(expected)
}

/// Goes on after a confirmation was sent, in whole, in part or not at all; says whether it was
/// sent completely.
pub fn after_ack_sent(
    registry: &mut StreamRegistry,
    session_id: SessionId,
    sent: Option<usize>,
    expected: usize,
    now: u64,
) -> (complete: bool)
    requires
        old(registry).inv(),
    ensures
        final(registry).inv(),
        complete == sent_completely(sent, expected),
        final(registry)@ == if complete {
            old(registry)@
        } else {
            old(registry)@.send_error(session_id@, now)
        },
{
    let complete = match sent {
        Some(n) => n == expected,
        None => false,
    };
    if !complete {
        registry.record_udp_send_error_at(session_id, now);
    }
    complete
}

/// The number of workers that pass audio on: as many as the machine runs at once, but at least
/// one and no more than the limit.
pub fn udp_dispatch_worker_count(parallelism: Option<usize>) -> (count: usize)
    ensures
        count == match parallelism {
            Some(n) => if n < 1 {
                1
            } else if n > MAX_UDP_DISPATCH_WORKERS {
                MAX_UDP_DISPATCH_WORKERS
            } else {
                n
            },
            None => 1,
        },
{
    match parallelism {
        Some(n) => {
            if n < 1 {
                1
            } else if n > MAX_UDP_DISPATCH_WORKERS {
                MAX_UDP_DISPATCH_WORKERS
            } else {
                n
            }
        },
        None => 1,
    }
}

/// The worker that passes on all audio under a key.
pub open spec fn worker_for(key: Seq<char>, worker_count: usize) -> usize {
    (DefaultHasher::spec_finish(seq![encode_utf8(key), seq![0xffu8]]) as usize) % worker_count
}

/// The worker that passes on all audio under a key: by the hash of the key, which is that of its
/// bytes and an end mark.
pub fn dispatch_worker_index(key: &str, worker_count: usize) -> (index: usize)
    requires
        worker_count > 0,
    ensures
        index == worker_for(key@, worker_count),
        index < worker_count,
{
    let mut hasher = DefaultHasher::new();
    hasher.write(key.as_bytes());
    let end_mark: [u8; 1] = [0xff];
    hasher.write(end_mark.as_slice());
    assert(hasher@ =~= seq![encode_utf8(key@), seq![0xffu8]]) by {
        assert(end_mark@ =~= seq![0xffu8]);
    }
    (hasher.finish() as usize) % worker_count
}

/// What came of handing audio to a worker.
#[derive(Debug)]
pub enum EnqueueOutcome {
    Queued,
    /// The worker is gone.
    Closed,
    /// Too much is waiting for the worker; the audio comes back.
    Full(AudioDispatchJob),
}

/// Goes on after audio was handed to a worker. Audio for which there is no room is dropped, and
/// counts as a failure for each target.
pub fn after_enqueue(registry: &mut StreamRegistry, outcome: EnqueueOutcome, now: u64) -> (result:
    Result<(), IoError>)
    requires
        old(registry).inv(),
    ensures
        final(registry).inv(),
        match outcome {
            EnqueueOutcome::Queued => result is Ok && final(registry)@ == old(registry)@,
            EnqueueOutcome::Closed => {
                &&& result matches Err(e)
                &&& is_failure(
                    e,
                    ErrorKind::BrokenPipe,
                    "udp dispatch worker channel closed unexpectedly"@,
                )
                &&& final(registry)@ == old(registry)@
            },
            EnqueueOutcome::Full(job) => {
                &&& result is Ok
                &&& final(registry)@ == old(registry)@.audio_sent(
                    job.key@,
                    job.payload@.len() as usize,
                    0,
                    job.targets@.len() as usize,
                    now,
                )
            },
        },
{
    match outcome {
        EnqueueOutcome::Queued => Ok(()),
        EnqueueOutcome::Closed => Err(
            IoError::new(
                ErrorKind::BrokenPipe,
                "udp dispatch worker channel closed unexpectedly",
            ),
        ),
        EnqueueOutcome::Full(job) => {
            registry.record_audio_dispatch_outcome_at(
                job.key.as_str(),
                job.payload.len(),
                0,
                job.targets.len(),
                now,
            );
            Ok(())
        },
    }
}

/// What a worker does about one target.
#[derive(Debug)]
pub enum DispatchStep {
    /// Send a packet to an endpoint, and report what was sent.
    Send { session_id: SessionId, endpoint: Endpoint, packet: Vec<u8> },
    /// Nothing: the target is gone, or its endpoint no longer counts.
    Skip,
    /// Nothing: the payload is above the limit.
    EncodeFailed { session_id: SessionId, error: PayloadTooLarge },
    /// Nothing: all targets were dealt with.
    Done,
}

/// A worker's pass over the targets of one audio packet.
#[derive(Debug)]
pub struct DispatchRun {
    job: AudioDispatchJob,
    next: usize,
    sending: bool,
    successful_targets: usize,
    send_errors: usize,
}

/// How far a worker's pass has come.
#[verifier::ext_equal]
pub struct DispatchProgress {
    pub next: nat,
    pub sending: bool,
    pub successful_targets: nat,
    pub send_errors: nat,
}

impl View for DispatchRun {
    type V = DispatchProgress;

    closed spec fn view(&self) -> DispatchProgress {
        DispatchProgress {
            next: self.next as nat,
            sending: self.sending,
            successful_targets: self.successful_targets as nat,
            send_errors: self.send_errors as nat,
        }
    }
}

/// The packet that passes audio on to a subscriber: the publisher's, under the subscriber's id.
pub open spec fn forwarded_packet(job: AudioDispatchJob, target: UdpDispatchTarget) -> Packet {
    Packet::AudioData {
        id: target.session_id@,
        sequence: job.sequence,
        timestamp_ms: job.timestamp_ms,
        payload: job.payload@,
    }
}

/// Whether audio still goes to the target at a place.
pub open spec fn is_live(
    job: AudioDispatchJob,
    registry: RegistryView,
    now: u64,
    place: int,
) -> bool {
    registry.is_active_target(
        job.targets@[place].session_id@,
        job.targets@[place].endpoint,
        now,
    )
}

/// How far the pass is once the next target, if there is one, was dealt with: a packet is on its
/// way, or its payload is too large, or the target is passed over.
pub open spec fn after_step(
    job: AudioDispatchJob,
    registry: RegistryView,
    now: u64,
    before: DispatchProgress,
) -> DispatchProgress {
    if before.next == job.targets@.len() {
        before
    } else if !is_live(job, registry, now, before.next as int) {
        DispatchProgress { next: before.next + 1, ..before }
    } else if job.payload@.len() > UDP_AUDIO_PAYLOAD_MAX_BYTES {
        DispatchProgress { next: before.next + 1, send_errors: before.send_errors + 1, ..before }
    } else {
        DispatchProgress { next: before.next + 1, sending: true, ..before }
    }
}

/// Whether this is what to do about the next target.
pub open spec fn is_step(
    job: AudioDispatchJob,
    registry: RegistryView,
    now: u64,
    before: DispatchProgress,
    step: DispatchStep,
) -> bool {
    let target = job.targets@[before.next as int];
    if before.next == job.targets@.len() {
        step is Done
    } else if !is_live(job, registry, now, before.next as int) {
        step is Skip
    } else if job.payload@.len() > UDP_AUDIO_PAYLOAD_MAX_BYTES {
        &&& step matches DispatchStep::EncodeFailed { session_id, error }
        &&& session_id == target.session_id
        &&& error == (PayloadTooLarge {
            len: job.payload@.len() as usize,
            limit: UDP_AUDIO_PAYLOAD_MAX_BYTES,
        })
    } else {
        &&& step matches DispatchStep::Send { session_id, endpoint, packet }
        &&& session_id == target.session_id
        &&& endpoint == target.endpoint
        &&& packet@ == encode_packet(forwarded_packet(job, target))
    }
}

/// How far the pass is once it is known whether a packet was sent completely.
pub open spec fn after_report(before: DispatchProgress, complete: bool) -> DispatchProgress {
    if complete {
        DispatchProgress {
            sending: false,
            successful_targets: before.successful_targets + 1,
            ..before
        }
    } else {
        DispatchProgress { sending: false, send_errors: before.send_errors + 1, ..before }
    }
}

/// How far the pass is at its start.
pub open spec fn pass_start() -> DispatchProgress {
    DispatchProgress { next: 0, sending: false, successful_targets: 0, send_errors: 0 }
}

/// How far the pass is after some targets. The registry may change and time goes on during the
/// pass: `registry` and `now` say how they stand when each target's turn comes, and `complete`
/// whether the packet for it is sent completely.
pub open spec fn pass_after(
    job: AudioDispatchJob,
    registry: spec_fn(int) -> RegistryView,
    now: spec_fn(int) -> u64,
    complete: spec_fn(int) -> bool,
    count: nat,
) -> DispatchProgress
    decreases count,
{
    if count == 0 {
        pass_start()
    } else {
        let stepped = after_step(
            job,
            registry(count - 1),
            now(count - 1),
            pass_after(job, registry, now, complete, (count - 1) as nat),
        );
        if stepped.sending {
            after_report(stepped, complete(count - 1))
        } else {
            stepped
        }
    }
}

/// The number of targets, out of the first ones, that audio still goes to when their turn comes.
pub open spec fn live_targets(
    job: AudioDispatchJob,
    registry: spec_fn(int) -> RegistryView,
    now: spec_fn(int) -> u64,
    count: nat,
) -> nat
    decreases count,
{
    if count == 0 {
        0
    } else if is_live(job, registry(count - 1), now(count - 1), count - 1) {
        live_targets(job, registry, now, (count - 1) as nat) + 1
    } else {
        live_targets(job, registry, now, (count - 1) as nat)
    }
}

/// A pass deals with each target once, whatever happens to the registry meanwhile. Each target
/// that audio still goes to when its turn comes counts once, as reached or as missed, and no other
/// target counts; where every packet is sent completely, none counts as missed.
pub proof fn law_pass_counts_each_live_target_once(
    job: AudioDispatchJob,
    registry: spec_fn(int) -> RegistryView,
    now: spec_fn(int) -> u64,
    complete: spec_fn(int) -> bool,
    count: nat,
)
    requires
        count <= job.targets@.len(),
    ensures
        ({
            let progress = pass_after(job, registry, now, complete, count);
            &&& progress.next == count
            &&& !progress.sending
            &&& progress.successful_targets + progress.send_errors == live_targets(
                job,
                registry,
                now,
                count,
            )
            &&& job.payload@.len() <= UDP_AUDIO_PAYLOAD_MAX_BYTES && (forall|i: int|
                0 <= i < count ==> #[trigger] complete(i)) ==> progress.send_errors == 0
            &&& job.payload@.len() > UDP_AUDIO_PAYLOAD_MAX_BYTES ==> progress.successful_targets
                == 0
        }),
    decreases count,
{
    if count > 0 {
        law_pass_counts_each_live_target_once(job, registry, now, complete, (count - 1) as nat);
    }
}

/// What comes of one target: nothing where audio no longer goes to it; a success where the packet
/// for it is sent completely; else, or where the payload is above the limit, a failure.
pub proof fn law_target_counts_as_it_fares(
    job: AudioDispatchJob,
    registry: spec_fn(int) -> RegistryView,
    now: spec_fn(int) -> u64,
    complete: spec_fn(int) -> bool,
    place: nat,
)
    requires
        place < job.targets@.len(),
    ensures
        ({
            let before = pass_after(job, registry, now, complete, place);
            let after = pass_after(job, registry, now, complete, place + 1);
            let target = job.targets@[place as int];
            let sessions = registry(place as int).sessions;
            let live = {
                &&& sessions.contains_key(target.session_id@)
                &&& sessions[target.session_id@].role == ClientRole::Subscriber
                &&& sessions[target.session_id@].udp_endpoint == Some(target.endpoint)
                &&& sessions[target.session_id@].udp_last_seen_unix_ms matches Some(seen)
                &&& registry(place as int).udp_session_timeout_ms > 0
                &&& now(place as int) - seen < registry(place as int).udp_session_timeout_ms
            };
            let reached = live && job.payload@.len() <= 1200 && complete(place as int);
            &&& after.successful_targets - before.successful_targets == if reached {
                1int
            } else {
                0int
            }
            &&& after.send_errors - before.send_errors == if live && !reached {
                1int
            } else {
                0int
            }
        }),
{
    law_pass_counts_each_live_target_once(job, registry, now, complete, place);
}

/// The steps of a pass: each target in its turn, whatever becomes of those before it.
pub open spec fn are_steps_of_pass(
    job: AudioDispatchJob,
    registry: spec_fn(int) -> RegistryView,
    now: spec_fn(int) -> u64,
    complete: spec_fn(int) -> bool,
    steps: Seq<DispatchStep>,
) -> bool {
    forall|i: int|
        0 <= i < steps.len() ==> is_step(
            job,
            registry(i),
            now(i),
            pass_after(job, registry, now, complete, i as nat),
            #[trigger] steps[i],
        )
}

/// The packet for a target goes to that target: whatever is sent at a place in a pass goes to the
/// endpoint of the target at that place, names its session, and is the publisher's audio under
/// the session id of the target.
pub proof fn law_each_packet_goes_to_its_own_target(
    job: AudioDispatchJob,
    registry: spec_fn(int) -> RegistryView,
    now: spec_fn(int) -> u64,
    complete: spec_fn(int) -> bool,
    steps: Seq<DispatchStep>,
    i: int,
)
    requires
        are_steps_of_pass(job, registry, now, complete, steps),
        0 <= i < steps.len() == job.targets@.len(),
    ensures
        steps[i] matches DispatchStep::Send { session_id, endpoint, packet } ==> {
            &&& session_id == job.targets@[i].session_id
            &&& endpoint == job.targets@[i].endpoint
            &&& parse_packet(packet@, 1200) == Ok::<Packet, UdpPacketError>(
                Packet::AudioData {
                    id: session_id@,
                    sequence: job.sequence,
                    timestamp_ms: job.timestamp_ms,
                    payload: job.payload@,
                },
            )
        },
        steps[i] matches DispatchStep::EncodeFailed { session_id, error } ==> {
            &&& session_id == job.targets@[i].session_id
            &&& job.payload@.len() > 1200
            &&& error.len == job.payload@.len()
            &&& error.limit == 1200
        },
        !(steps[i] is Done),
        steps[i] is Skip <==> !registry(i).is_active_target(
            job.targets@[i].session_id@,
            job.targets@[i].endpoint,
            now(i),
        ),
        steps[i] is Send ==> job.payload@.len() <= 1200,
{
    law_pass_counts_each_live_target_once(job, registry, now, complete, i as nat);
    assert(is_step(
        job,
        registry(i),
        now(i),
        pass_after(job, registry, now, complete, i as nat),
        steps[i],
    ));
    assert(job.payload@.len() == job.payload.len());
    if steps[i] is Send {
        law_parse_reads_what_encode_writes(
            Packet::AudioData {
                id: job.targets@[i].session_id@,
                sequence: job.sequence,
                timestamp_ms: job.timestamp_ms,
                payload: job.payload@,
            },
            UDP_AUDIO_PAYLOAD_MAX_BYTES,
        );
    }
}

/// A pass ends once every target had its turn, and not before.
pub proof fn law_pass_ends_after_the_last_target(
    job: AudioDispatchJob,
    registry: RegistryView,
    now: u64,
    before: DispatchProgress,
    step: DispatchStep,
)
    requires
        before.next <= job.targets@.len(),
        is_step(job, registry, now, before, step),
    ensures
        step is Done <==> before.next == job.targets@.len(),
        step is Done ==> after_step(job, registry, now, before) == before,
        !(step is Done) ==> after_step(job, registry, now, before).next == before.next + 1,
{
}

/// Where audio still goes to every target and the payload is within the limit, a pass sends to
/// the targets of the audio packet, each at its own endpoint and under its own session id, and to
/// nobody else.
pub proof fn law_pass_sends_to_the_targets(
    job: AudioDispatchJob,
    registry: spec_fn(int) -> RegistryView,
    now: spec_fn(int) -> u64,
    complete: spec_fn(int) -> bool,
    steps: Seq<DispatchStep>,
)
    requires
        are_steps_of_pass(job, registry, now, complete, steps),
        steps.len() == job.targets@.len(),
        job.payload@.len() <= UDP_AUDIO_PAYLOAD_MAX_BYTES,
        forall|i: int|
            0 <= i < steps.len() ==> is_live(job, #[trigger] registry(i), now(i), i),
    ensures
        steps.map_values(|step: DispatchStep| (step->Send_session_id@, step->endpoint))
            == target_pairs(job.targets@),
        forall|i: int| 0 <= i < steps.len() ==> (#[trigger] steps[i]) is Send,
{
    assert forall|i: int| 0 <= i < steps.len() implies (#[trigger] steps[i]) is Send
        && steps[i]->Send_session_id == job.targets@[i].session_id && steps[i]->endpoint
        == job.targets@[i].endpoint by {
        assert(is_live(job, registry(i), now(i), i));
        law_each_packet_goes_to_its_own_target(job, registry, now, complete, steps, i);
    }
    assert(steps.map_values(|step: DispatchStep| (step->Send_session_id@, step->endpoint))
        =~= target_pairs(job.targets@));
}

/// Where audio goes to every target, nothing changes during the pass and every packet is sent
/// completely, the pass reaches all targets.
pub proof fn law_undisturbed_pass_reaches_all(
    job: AudioDispatchJob,
    registry: RegistryView,
    now: u64,
    count: nat,
)
    requires
        count <= job.targets@.len(),
        job.payload@.len() <= UDP_AUDIO_PAYLOAD_MAX_BYTES,
        forall|i: int| 0 <= i < count ==> #[trigger] is_live(job, registry, now, i),
    ensures
        pass_after(job, |i: int| registry, |i: int| now, |i: int| true, count) == (
        DispatchProgress {
            next: count,
            sending: false,
            successful_targets: count,
            send_errors: 0,
        }),
    decreases count,
{
    if count > 0 {
        law_undisturbed_pass_reaches_all(job, registry, now, (count - 1) as nat);
        assert(is_live(job, registry, now, count - 1));
    }
}

impl DispatchRun {
    /// The audio packet.
    pub closed spec fn spec_job(self) -> AudioDispatchJob {
        self.job
    }

    /// What holds of every pass: no target is counted twice.
    pub closed spec fn inv(self) -> bool {
        &&& self.next <= self.job.targets@.len()
        &&& self.successful_targets + self.send_errors + (if self.sending {
            1int
        } else {
            0int
        }) <= self.next
    }

    /// No target is counted twice: those that count as reached and those that count as missed are
    /// no more, taken together, than those dealt with.
    pub proof fn law_no_target_counts_twice(self)
        requires
            self.inv(),
        ensures
            self@.next <= self.spec_job().targets@.len(),
            self@.successful_targets + self@.send_errors <= self@.next,
    {
    }

    /// Begins the pass, unless the publisher is gone.
    pub fn start(registry: &StreamRegistry, job: AudioDispatchJob) -> (run: Option<DispatchRun>)
        requires
            registry.inv(),
        ensures
            ({
                let id = job.publisher_session_id@;
                run is Some <==> {
                    &&& registry@.sessions.contains_key(id)
                    &&& registry@.sessions[id].role == ClientRole::Publisher
                    &&& registry@.sessions[id].key == job.key@
                }
            }),
            run matches Some(r) ==> {
                &&& r.inv()
                &&& r.spec_job() == job
                &&& r@ == pass_start()
            },
    {
        if !registry.session_matches(
            job.publisher_session_id,
            ClientRole::Publisher,
            job.key.as_str(),
        ) {
            return None;
        }
        Some(
            DispatchRun {
                job,
                next: 0,
                sending: false,
                successful_targets: 0,
                send_errors: 0,
            },
        )
    }

    /// Goes on to the next target.
    pub fn step(&mut self, registry: &StreamRegistry, now: u64) -> (step: DispatchStep)
        requires
            registry.inv(),
            old(self).inv(),
            !old(self)@.sending,
        ensures
            final(self).inv(),
            final(self).spec_job() == old(self).spec_job(),
            final(self)@ == after_step(old(self).spec_job(), registry@, now, old(self)@),
            is_step(old(self).spec_job(), registry@, now, old(self)@, step),
    {
        if self.next >= self.job.targets.len() {
            return DispatchStep::Done;
        }
        let target = self.job.targets[self.next];
        self.next = self.next + 1;
        if !registry.subscriber_target_is_active_at(target.session_id, target.endpoint, now) {
            return DispatchStep::Skip;
        }
        match encode_udp_audio_data(
            target.session_id,
            self.job.sequence,
            self.job.timestamp_ms,
            self.job.payload.as_slice(),
            UDP_AUDIO_PAYLOAD_MAX_BYTES,
        ) {
            Ok(packet) => {
                self.sending = true;
                DispatchStep::Send {
                    session_id: target.session_id,
                    endpoint: target.endpoint,
                    packet,
                }
            },
            Err(error) => {
                self.send_errors = self.send_errors + 1;
                DispatchStep::EncodeFailed { session_id: target.session_id, error }
            },
        }
    }

    /// Takes in what was sent of a packet, if anything; says whether that was all.
    pub fn after_send(&mut self, sent: Option<usize>, expected: usize) -> (complete: bool)
        requires
            old(self).inv(),
            old(self)@.sending,
        ensures
            final(self).inv(),
            final(self).spec_job() == old(self).spec_job(),
            complete == sent_completely(sent, expected),
            final(self)@ == after_report(old(self)@, complete),
    {
        self.sending = false;
        let complete = match sent {
            Some(n) => n == expected,
            None => false,
        };
        if complete {
            self.successful_targets = self.successful_targets + 1;
        } else {
            self.send_errors = self.send_errors + 1;
        }
        complete
    }

    /// Ends the pass and counts what came of it.
    pub fn finish(self, registry: &mut StreamRegistry, now: u64)
        requires
            old(registry).inv(),
            self.inv(),
        ensures
            final(registry).inv(),
            final(registry)@ == old(registry)@.audio_sent(
                self.spec_job().key@,
                self.spec_job().payload@.len() as usize,
                self@.successful_targets as usize,
                self@.send_errors as usize,
                now,
            ),
    {
        registry.record_audio_dispatch_outcome_at(
            self.job.key.as_str(),
            self.job.payload.len(),
            self.successful_targets,
            self.send_errors,
            now,
        );
    }
}

/// The answer to a status query.
#[derive(Debug)]
pub enum StatusAnswer {
    Refused(StatusAccessResponse<'static>),
    Snapshot(RegistrySnapshot),
}

/// Whether an answer turns a query down with a message.
pub open spec fn is_refusal(answer: StatusAnswer, message: Seq<char>) -> bool {
    &&& answer matches StatusAnswer::Refused(response)
    &&& response.status@ == "error"@
    &&& response.message@ == message
}

/// Answers a status query, or something that is none.
pub fn answer_status(
    registry: &StreamRegistry,
    request: Option<&StatusAccessRequest>,
    now: u64,
) -> (answer: StatusAnswer)
    requires
        registry.inv(),
    ensures
        match request {
            None => is_refusal(answer, "invalid status request"@),
            Some(r) => if r.key@ != STATUS_ACCESS_KEY@ {
                is_refusal(answer, "invalid status key"@)
            } else {
                &&& answer matches StatusAnswer::Snapshot(snapshot)
                &&& is_snapshot(snapshot, registry@, now)
                &&& totals_are_sums(snapshot)
            },
        },
{
    match request {
        None => StatusAnswer::Refused(
            StatusAccessResponse { status: "error", message: "invalid status request" },
        ),
        Some(r) => {
            if !same_text(r.key.as_str(), STATUS_ACCESS_KEY) {
                StatusAnswer::Refused(
                    StatusAccessResponse { status: "error", message: "invalid status key" },
                )
            } else {
                StatusAnswer::Snapshot(registry.snapshot_at(now))
            }
        },
    }
}

/// Audio is passed on as it came: the packet that a subscriber gets is the publisher's packet
/// with the subscriber's session id in place of the publisher's, and reads back as that.
pub proof fn law_forwarding_replaces_the_session_id(
    datagram: Seq<u8>,
    job: AudioDispatchJob,
    target: UdpDispatchTarget,
)
    requires
        parse_packet(datagram, UDP_AUDIO_PAYLOAD_MAX_BYTES) matches Ok(
            Packet::AudioData { id, sequence, timestamp_ms, payload },
        ) && job.sequence == sequence && job.timestamp_ms == timestamp_ms && job.payload@
            == payload,
    ensures
        encode_packet(forwarded_packet(job, target)) == datagram.take(6) + id_bytes(
            target.session_id@,
        ) + datagram.skip(22),
        parse_packet(
            encode_packet(forwarded_packet(job, target)),
            UDP_AUDIO_PAYLOAD_MAX_BYTES,
        ) == Ok::<Packet, UdpPacketError>(forwarded_packet(job, target)),
{
    law_encode_writes_what_parse_read(datagram, UDP_AUDIO_PAYLOAD_MAX_BYTES);
    let packet = parse_packet(datagram, UDP_AUDIO_PAYLOAD_MAX_BYTES)->Ok_0;
    lemma_session_id_number(packet->AudioData_id);
    lemma_session_id_number(target.session_id@);
    let forwarded = encode_packet(forwarded_packet(job, target));
    assert(encode_packet(packet) == datagram);
    assert(forwarded =~= datagram.take(6) + id_bytes(target.session_id@) + datagram.skip(22));
    law_parse_reads_what_encode_writes(forwarded_packet(job, target), UDP_AUDIO_PAYLOAD_MAX_BYTES);
}

/// Every packet with a payload within the limit fits into the buffer that packets are received
/// in.
pub proof fn law_packets_fit_the_buffer(packet: Packet)
    requires
        payload_fits(packet, UDP_AUDIO_PAYLOAD_MAX_BYTES),
    ensures
        encode_packet(packet).len() <= UDP_PACKET_MAX_BYTES,
{
    let id = match packet {
        Packet::Register { id } => id,
        Packet::RegisterAck { id } => id,
        Packet::Heartbeat { id } => id,
        Packet::AudioData { id, .. } => id,
    };
    lemma_session_id_number(id);
    if let Packet::AudioData { sequence, timestamp_ms, .. } = packet {
        lemma_be_bytes_len(sequence as nat, 8);
        lemma_be_bytes_len(timestamp_ms as nat, 8);
    }
}

/// Audio is passed on only for a publisher, and only from the endpoint that speaks for it.
pub proof fn law_only_a_registered_publisher_is_heard(
    registry: RegistryView,
    datagram: Seq<u8>,
    peer: Endpoint,
    now: u64,
    job: AudioDispatchJob,
)
    requires
        is_action_for(registry, datagram, peer, now, UdpAction::Forward(job)),
    ensures
        ({
            let id = job.publisher_session_id@;
            &&& registry.sessions.contains_key(id)
            &&& registry.sessions[id].role == ClientRole::Publisher
            &&& registry.sessions[id].key == job.key@
            &&& registry.sessions[id].active_endpoint(now, registry.udp_session_timeout_ms) == Some(
                peer,
            )
        }),
{
}

/// The audio that a registered publisher sends goes to each active subscriber of its key, at the
/// endpoint that speaks for it, and to nobody else.
pub proof fn law_audio_reaches_the_subscribers(
    registry: RegistryView,
    id: u128,
    sequence: u64,
    timestamp_ms: u64,
    payload: Seq<u8>,
    peer: Endpoint,
    now: u64,
    action: UdpAction,
)
    requires
        registry.consistent(),
        payload.len() <= UDP_AUDIO_PAYLOAD_MAX_BYTES,
        registry.sessions.contains_key(id),
        registry.sessions[id].role == ClientRole::Publisher,
        registry.sessions[id].active_endpoint(now, registry.udp_session_timeout_ms) == Some(peer),
        is_action_for(
            registry,
            encode_packet(Packet::AudioData { id, sequence, timestamp_ms, payload }),
            peer,
            now,
            action,
        ),
    ensures
        action matches UdpAction::Forward(job) && job.payload@ == payload && job.sequence
            == sequence && job.timestamp_ms == timestamp_ms && forall|
            subscriber: u128,
            endpoint: Endpoint,
        |
            #![trigger target_pairs(job.targets@).contains((subscriber, endpoint))]
            target_pairs(job.targets@).contains((subscriber, endpoint)) <==> {
                &&& registry.is_active_target(subscriber, endpoint, now)
                &&& registry.sessions[subscriber].key == registry.sessions[id].key
            },
{
    let packet = Packet::AudioData { id, sequence, timestamp_ms, payload };
    law_parse_reads_what_encode_writes(packet, UDP_AUDIO_PAYLOAD_MAX_BYTES);
    assert(audio_refusal(registry, id, peer, now) is None);
    let job = action->Forward_0;
    let key = registry.sessions[id].key;
    assert forall|subscriber: u128, endpoint: Endpoint|
        #![trigger target_pairs(job.targets@).contains((subscriber, endpoint))]
        target_pairs(job.targets@).contains((subscriber, endpoint)) <==> {
            &&& registry.is_active_target(subscriber, endpoint, now)
            &&& registry.sessions[subscriber].key == key
        } by {
        assert(target_pairs(job.targets@).to_set().contains((subscriber, endpoint))
            == target_pairs(job.targets@).contains((subscriber, endpoint)));
        law_audio_goes_to_active_subscribers(registry, key, subscriber, endpoint, now);
    }
}

/// From the publisher's packet to those that the subscribers get: where a registered publisher
/// sends audio, the pass over what comes of it sends one packet to each subscriber of the key
/// whose endpoint has been silent for less than the timeout, at that endpoint, with the
/// publisher's sequence number, timestamp and payload under the subscriber's session id; and it
/// sends no other packet.
pub proof fn law_audio_is_fanned_out_to_the_subscribers(
    registry: RegistryView,
    id: u128,
    sequence: u64,
    timestamp_ms: u64,
    payload: Seq<u8>,
    peer: Endpoint,
    now: u64,
    action: UdpAction,
    complete: spec_fn(int) -> bool,
    steps: Seq<DispatchStep>,
    subscriber: u128,
    endpoint: Endpoint,
)
    requires
        registry.consistent(),
        payload.len() <= UDP_AUDIO_PAYLOAD_MAX_BYTES,
        registry.sessions.contains_key(id),
        registry.sessions[id].role == ClientRole::Publisher,
        registry.sessions[id].active_endpoint(now, registry.udp_session_timeout_ms) == Some(peer),
        is_action_for(
            registry,
            encode_packet(Packet::AudioData { id, sequence, timestamp_ms, payload }),
            peer,
            now,
            action,
        ),
        action matches UdpAction::Forward(job) && steps.len() == job.targets@.len()
            && are_steps_of_pass(job, |i: int| registry, |i: int| now, complete, steps),
    ensures
        (exists|i: int|
            0 <= i < steps.len() && (#[trigger] steps[i]) is Send
                && steps[i]->Send_session_id@ == subscriber && steps[i]->endpoint == endpoint) <==> {
            &&& registry.sessions.contains_key(subscriber)
            &&& registry.sessions[subscriber].role == ClientRole::Subscriber
            &&& registry.sessions[subscriber].key == registry.sessions[id].key
            &&& registry.sessions[subscriber].udp_endpoint == Some(endpoint)
            &&& registry.sessions[subscriber].udp_last_seen_unix_ms matches Some(seen)
            &&& now - seen < registry.udp_session_timeout_ms
        },
        forall|i: int|
            0 <= i < steps.len() ==> (#[trigger] steps[i]) is Send && parse_packet(
                steps[i]->packet@,
                UDP_AUDIO_PAYLOAD_MAX_BYTES,
            ) == Ok::<Packet, UdpPacketError>(
                Packet::AudioData {
                    id: steps[i]->Send_session_id@,
                    sequence,
                    timestamp_ms,
                    payload,
                },
            ),
        forall|i: int, j: int|
            0 <= i < j < steps.len() ==> (#[trigger] steps[i])->Send_session_id@ != (
            #[trigger] steps[j])->Send_session_id@,
{
    law_audio_reaches_the_subscribers(
        registry,
        id,
        sequence,
        timestamp_ms,
        payload,
        peer,
        now,
        action,
    );
    law_parse_reads_what_encode_writes(
        Packet::AudioData { id, sequence, timestamp_ms, payload },
        UDP_AUDIO_PAYLOAD_MAX_BYTES,
    );
    let job = action->Forward_0;
    let registries = |i: int| registry;
    let times = |i: int| now;
    let pairs = target_pairs(job.targets@);
    assert forall|i: int| 0 <= i < steps.len() implies is_live(
        job,
        #[trigger] registries(i),
        times(i),
        i,
    ) by {
        assert(pairs[i] == (job.targets@[i].session_id@, job.targets@[i].endpoint));
        assert(pairs.contains((job.targets@[i].session_id@, job.targets@[i].endpoint)));
    }
    law_pass_sends_to_the_targets(job, registries, times, complete, steps);
    let sent = steps.map_values(|step: DispatchStep| (step->Send_session_id@, step->endpoint));
    assert forall|i: int| 0 <= i < steps.len() implies #[trigger] pairs[i] == (
        steps[i]->Send_session_id@,
        steps[i]->endpoint,
    ) by {
        assert(sent[i] == pairs[i]);
    }
    assert forall|i: int| 0 <= i < steps.len() implies (#[trigger] steps[i]) is Send
        && parse_packet(steps[i]->packet@, UDP_AUDIO_PAYLOAD_MAX_BYTES) == Ok::<
        Packet,
        UdpPacketError,
    >(Packet::AudioData { id: steps[i]->Send_session_id@, sequence, timestamp_ms, payload }) by {
        law_each_packet_goes_to_its_own_target(
            job,
            registries,
            times,
            complete,
            steps,
            i,
        );
    }
    assert forall|i: int, j: int| 0 <= i < j < steps.len() implies (
    #[trigger] steps[i])->Send_session_id@ != (#[trigger] steps[j])->Send_session_id@ by {
        assert(pairs[i] != pairs[j]);
        assert(pairs.contains(pairs[i]) && pairs.contains(pairs[j]));
        assert(pairs.contains((pairs[i].0, pairs[i].1)));
        assert(pairs.contains((pairs[j].0, pairs[j].1)));
    }
    assert(pairs.contains((subscriber, endpoint)) <==> exists|i: int|
        0 <= i < steps.len() && (#[trigger] steps[i]) is Send && steps[i]->Send_session_id@
            == subscriber && steps[i]->endpoint == endpoint) by {
        if pairs.contains((subscriber, endpoint)) {
            let i = choose|i: int| 0 <= i < pairs.len() && pairs[i] == (subscriber, endpoint);
            assert(steps[i] is Send);
        }
        if exists|i: int|
            0 <= i < steps.len() && (#[trigger] steps[i]) is Send && steps[i]->Send_session_id@
                == subscriber && steps[i]->endpoint == endpoint {
            let i = choose|i: int|
                0 <= i < steps.len() && (#[trigger] steps[i]) is Send
                    && steps[i]->Send_session_id@ == subscriber && steps[i]->endpoint == endpoint;
            assert(pairs[i] == (subscriber, endpoint));
        }
    }
}

} // verus!
