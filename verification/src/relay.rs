//! What the relay promises to its clients: on handshakes, on control connections, on UDP packets,
//! on audio in transit and on status queries.

use std::collections::hash_map::DefaultHasher;

use vstd::prelude::*;
use vstd::std_specs::hash::*;
use vstd::utf8::*;

use crate::datagrams::{
    law_audio_datagram, law_heartbeat_datagram, law_register_datagram, law_useless_datagram,
    speaks_for, with_unknown,
};
use crate::endpoint::Endpoint;
use crate::error::{ErrorKind, IoError};
use crate::laws::{heard_in_time, law_sessions_change_one_by_one, law_snapshot_fits_together};
use crate::load_test::{check_handshake_response, check_loopback, response_problem};
use crate::model::{RegistryView, SessionView};
use crate::operations::{is_published, newcomer};
use crate::protocol::{
    encode_packet, hex_bytes, hex_text, id_bytes, key_problem, law_hex_round_trip,
    law_parse_reads_what_encode_writes, parse_packet, payload_fits, ClientRole,
    ControlMessageRequest, HandshakeRequest, HandshakeResponse, HandshakeResponseOwned, Packet,
    SessionId, StatusAccessRequest, UdpPacketError,
};
use crate::server::{
    accept_handshake, accepted_response, after_ack_sent, after_enqueue, after_handshake_reply,
    answer_status, check_handshake, decide_handshake, disconnect_reason, dispatch_worker_index,
    end_control_session,
    handle_datagram, on_control_line, publisher_taken_response, reason_for,
    udp_dispatch_worker_count, AudioDispatchJob,
    ControlStep, DispatchRun, DispatchStep, EnqueueOutcome, HandshakeDecision, StatusAnswer,
    UdpAction,
};
use crate::state::{
    is_snapshot, is_stream_snapshot, AudioDispatchPlan, RegisterSessionError, RegistrySnapshot,
    SessionRegistration, StreamRegistry, StreamSnapshot,
};
use crate::traffic::{
    law_audio_out_is_counted, law_send_error_is_counted, plus, traffic, TrafficCounts,
};

verus! {

/// A handshake with a key that is fine connects the client, unless it would be a second publisher
/// of the key or no session id could be drawn; a handshake that does not connect the client
/// changes nothing.
pub proof fn law_handshake_connects(
    registry: &mut StreamRegistry,
    request: HandshakeRequest,
    peer: &str,
    decision: HandshakeDecision,
)
    requires
        registry.inv(),
        call_ensures(accept_handshake, (registry, &request, peer), decision),
    ensures
        ({
            let sessions = old(registry)@.sessions;
            let second = request.role == ClientRole::Publisher && is_published(
                sessions,
                request.key@,
            );
            match decision {
                HandshakeDecision::Accept(registration) => {
                    &&& key_problem(request.key@) is None
                    &&& !second
                    &&& !sessions.contains_key(registration.session_id@)
                    &&& final(registry)@.sessions == sessions.insert(
                        registration.session_id@,
                        newcomer(request.role, request.key@, peer@),
                    )
                },
                HandshakeDecision::RefuseWithReply(e) => {
                    &&& key_problem(request.key@) is None
                    &&& second
                    &&& e.kind == ErrorKind::AlreadyExists
                    &&& final(registry)@ == old(registry)@
                },
                HandshakeDecision::Refuse(e) => {
                    &&& key_problem(request.key@) is Some || !second
                    &&& key_problem(request.key@) matches Some(message) ==> e.kind
                        == ErrorKind::InvalidInput && e.message@ == message
                    &&& key_problem(request.key@) is None ==> e.kind == ErrorKind::Other
                    &&& final(registry)@ == old(registry)@
                },
            }
        }),
{
    let before = registry@;
    registry.law_every_registry_is_consistent();
    if before.has_publisher(request.key@) {
        let id = before.streams[request.key@].publisher_session->0;
        assert(before.streams[request.key@].lists(ClientRole::Publisher, id));
        assert(before.sessions.contains_key(id));
    }
    if is_published(before.sessions, request.key@) {
        let id = choose|id: u128| #[trigger]
            before.sessions.contains_key(id) && before.sessions[id].role == ClientRole::Publisher
                && before.sessions[id].key == request.key@;
        assert(before.streams[request.key@].lists(ClientRole::Publisher, id));
    }
}

/// What comes of a registration is passed on: a session is accepted as it is, a second publisher
/// is told, and a failed draw is not.
pub proof fn law_registration_decides_the_handshake(
    result: Result<SessionRegistration, RegisterSessionError>,
    decision: HandshakeDecision,
)
    requires
        call_ensures(decide_handshake, (result,), decision),
    ensures
        result matches Ok(registration) ==> decision == HandshakeDecision::Accept(registration),
        result == Err::<SessionRegistration, RegisterSessionError>(
            RegisterSessionError::PublisherAlreadyConnected,
        ) ==> (decision matches HandshakeDecision::RefuseWithReply(e) && e.kind
            == ErrorKind::AlreadyExists),
        result matches Err(RegisterSessionError::SessionIdGeneration(failure)) ==> (
        decision matches HandshakeDecision::Refuse(e) && e.kind == failure.kind && e.message@
            == "failed to allocate session id: "@ + failure.message@),
{
}

/// A handshake is let through exactly if nothing is wrong with its key.
pub proof fn law_handshake_is_tested_by_its_key(
    request: HandshakeRequest,
    result: Result<(), IoError>,
)
    requires
        call_ensures(check_handshake, (&request,), result),
    ensures
        result is Ok <==> key_problem(request.key@) is None,
        result matches Err(e) ==> e.kind == ErrorKind::InvalidInput && Some(e.message@)
            == key_problem(request.key@),
{
}

/// The reply that an accepted client gets is one that a client accepts, for the role and the key
/// that it asked for; and the client reads its session id back out of it.
pub proof fn law_client_accepts_the_reply_of_the_relay(
    role: ClientRole,
    key: &str,
    session_id: u128,
    session_hex: &str,
    udp_port: u16,
    response: HandshakeResponse<'_>,
    read: HandshakeResponseOwned,
)
    requires
        call_ensures(accepted_response, (role, key, session_hex, udp_port), response),
        session_hex@ == hex_text(id_bytes(session_id)),
        read.status@ == response.status@,
        read.message@ == response.message@,
        read.role == response.role,
        match (read.key, response.key) {
            (Some(a), Some(b)) => a@ == b@,
            (None, None) => true,
            _ => false,
        },
        match (read.session_id, response.session_id) {
            (Some(a), Some(b)) => a@ == b@,
            (None, None) => true,
            _ => false,
        },
        read.udp_port == response.udp_port,
        read.tcp_heartbeat_interval_ms == response.tcp_heartbeat_interval_ms,
        read.udp_session_timeout_ms == response.udp_session_timeout_ms,
        read.udp_audio_payload_max_bytes == response.udp_audio_payload_max_bytes,
    ensures
        response_problem(read, role, key@) is None,
        hex_bytes(encode_utf8(read.session_id->0@)) == id_bytes(session_id),
        read.udp_port == Some(udp_port),
{
    law_hex_round_trip(session_id);
}

/// Where the reply to a client could not be written, the client is gone again; else it stays.
pub proof fn law_unwritten_reply_takes_the_session_back(
    registry: &mut StreamRegistry,
    session_id: SessionId,
    written: Result<(), IoError>,
    now: u64,
    result: Result<(), IoError>,
)
    requires
        registry.inv(),
        call_ensures(after_handshake_reply, (registry, session_id, written, now), result),
    ensures
        result == written,
        written is Ok ==> final(registry)@ == old(registry)@,
        written is Err ==> final(registry)@.sessions == old(registry)@.sessions.remove(
            session_id@,
        ),
{
    law_sessions_change_one_by_one(
        registry@,
        ClientRole::Publisher,
        Seq::empty(),
        "handshake_response_failed"@,
        session_id@,
        arbitrary(),
        0,
        0,
        0,
        now,
    );
}

/// A control connection goes on exactly as long as its lines are heartbeats and its session
/// exists. The end of the stream is a proper end; any other failure is the reason of the end. A
/// line changes no session.
pub proof fn law_control_connection_lasts_while_heartbeats_come(
    registry: &mut StreamRegistry,
    session_id: SessionId,
    line: Result<ControlMessageRequest, IoError>,
    now: u64,
    step: ControlStep,
)
    requires
        registry.inv(),
        call_ensures(on_control_line, (registry, session_id, line, now), step),
    ensures
        step is Continue <==> line is Ok && old(registry)@.sessions.contains_key(session_id@),
        line matches Err(e) ==> step == ControlStep::End(
            if e.kind == ErrorKind::UnexpectedEof {
                Ok(())
            } else {
                Err(e)
            },
        ),
        final(registry)@.sessions == old(registry)@.sessions,
        line is Err ==> final(registry)@ == old(registry)@,
{
}

/// Once a control connection has ended, its session is gone, and every other session is as it
/// was; the reason is that of the end.
pub proof fn law_ended_connection_ends_the_session(
    registry: &mut StreamRegistry,
    session_id: SessionId,
    result: Result<(), IoError>,
    now: u64,
)
    requires
        registry.inv(),
        call_ensures(end_control_session, (registry, session_id, &result, now), ()),
    ensures
        final(registry)@.sessions == old(registry)@.sessions.remove(session_id@),
        result is Ok ==> reason_for(result) == "peer_disconnected"@,
{
    law_sessions_change_one_by_one(
        registry@,
        ClientRole::Publisher,
        Seq::empty(),
        reason_for(result),
        session_id@,
        arbitrary(),
        0,
        0,
        0,
        now,
    );
}

/// A registration from a known session is confirmed and binds the session to where it came from;
/// one from an unknown session is counted, and nothing is sent.
pub proof fn law_relay_confirms_registrations(
    registry: &mut StreamRegistry,
    datagram: &[u8],
    id: u128,
    peer: Endpoint,
    now: u64,
    action: UdpAction,
)
    requires
        registry.inv(),
        datagram@ == encode_packet(Packet::Register { id }),
        call_ensures(handle_datagram, (registry, datagram, peer, now), action),
    ensures
        old(registry)@.sessions.contains_key(id) ==> {
            &&& final(registry)@.sessions == old(registry)@.sessions.insert(
                id,
                SessionView {
                    udp_endpoint: Some(peer),
                    udp_last_seen_unix_ms: Some(now),
                    ..old(registry)@.sessions[id]
                },
            )
            &&& action matches UdpAction::Acknowledge { ack, .. }
            &&& ack@ == encode_packet(Packet::RegisterAck { id })
        },
        !old(registry)@.sessions.contains_key(id) ==> final(registry)@ == with_unknown(
            old(registry)@,
        ) && action is Reject,
{
    law_register_datagram(registry@, id, peer, now, action);
    law_parse_reads_what_encode_writes(Packet::Register { id }, 1200);
}

/// A heartbeat counts exactly from the endpoint that speaks for its session.
pub proof fn law_relay_hears_heartbeats(
    registry: &mut StreamRegistry,
    datagram: &[u8],
    id: u128,
    peer: Endpoint,
    now: u64,
    action: UdpAction,
)
    requires
        registry.inv(),
        datagram@ == encode_packet(Packet::Heartbeat { id }),
        call_ensures(handle_datagram, (registry, datagram, peer, now), action),
    ensures
        action is Heard <==> speaks_for(old(registry)@, id, peer, now),
        action is Heard || action is Reject,
        action is Heard ==> final(registry)@.sessions == old(registry)@.sessions.insert(
            id,
            SessionView { udp_last_seen_unix_ms: Some(now), ..old(registry)@.sessions[id] },
        ),
        action is Reject ==> final(registry)@.sessions == old(registry)@.sessions
            && final(registry)@.streams == old(registry)@.streams,
{
    registry.law_every_registry_is_consistent();
    law_heartbeat_datagram(registry@, id, peer, now, action);
}

/// Audio is passed on exactly from the endpoint that speaks for a publisher, as it came and under
/// the publisher's key.
pub proof fn law_relay_passes_audio_on(
    registry: &mut StreamRegistry,
    datagram: &[u8],
    id: u128,
    sequence: u64,
    timestamp_ms: u64,
    payload: Seq<u8>,
    peer: Endpoint,
    now: u64,
    action: UdpAction,
)
    requires
        registry.inv(),
        payload.len() <= 1200,
        datagram@ == encode_packet(Packet::AudioData { id, sequence, timestamp_ms, payload }),
        call_ensures(handle_datagram, (registry, datagram, peer, now), action),
    ensures
        action is Forward <==> speaks_for(old(registry)@, id, peer, now)
            && old(registry)@.sessions[id].role == ClientRole::Publisher,
        action is Forward || action is Reject,
        action matches UdpAction::Forward(job) ==> {
            &&& job.publisher_session_id@ == id
            &&& job.key@ == old(registry)@.sessions[id].key
            &&& job.sequence == sequence
            &&& job.timestamp_ms == timestamp_ms
            &&& job.payload@ == payload
        },
        action is Reject ==> final(registry)@.sessions == old(registry)@.sessions
            && final(registry)@.streams == old(registry)@.streams,
{
    registry.law_every_registry_is_consistent();
    law_audio_datagram(registry@, id, sequence, timestamp_ms, payload, peer, now, action);
}

/// What is no packet of a client is turned down and counted, and changes nothing else.
pub proof fn law_relay_counts_what_is_no_packet(
    registry: &mut StreamRegistry,
    datagram: &[u8],
    peer: Endpoint,
    now: u64,
    action: UdpAction,
)
    requires
        registry.inv(),
        forall|packet: Packet|
            payload_fits(packet, 1200) && #[trigger] encode_packet(packet) == datagram@ ==> packet
                is RegisterAck,
        call_ensures(handle_datagram, (registry, datagram, peer, now), action),
    ensures
        action is Reject,
        final(registry)@ == (RegistryView {
            invalid_udp_packets_total: plus(old(registry)@.invalid_udp_packets_total, 1),
            ..old(registry)@
        }),
{
    law_useless_datagram(registry@, datagram@, peer, now, action);
}

/// A confirmation that was not sent completely shows as one failure under the key of its session;
/// one that was shows nowhere.
pub proof fn law_unsent_confirmation_shows(
    registry: &mut StreamRegistry,
    session_id: SessionId,
    sent: Option<usize>,
    expected: usize,
    now: u64,
    complete: bool,
    before: StreamSnapshot,
    after: StreamSnapshot,
    asked: u64,
)
    requires
        registry.inv(),
        call_ensures(after_ack_sent, (registry, session_id, sent, expected, now), complete),
        registry@.sessions.contains_key(session_id@),
        registry@.sessions[session_id@].key == before.key@,
        is_stream_snapshot(before, registry@, before.key@, asked),
    ensures
        complete <==> sent == Some(expected),
        complete ==> final(registry)@ == old(registry)@,
        !complete && is_stream_snapshot(after, final(registry)@, before.key@, asked) ==> traffic(
            after,
        ) == (TrafficCounts {
            udp_send_errors_total: plus(before.udp_send_errors_total, 1),
            ..traffic(before)
        }),
{
    registry.law_every_registry_is_consistent();
    let later = registry@.send_error(session_id@, now);
    if is_stream_snapshot(after, later, before.key@, asked) {
        law_send_error_is_counted(registry@, session_id@, now, before, asked, after, asked);
    }
}

/// Audio for which a worker has no room shows as one failure for each of its targets; audio that
/// a worker took shows nowhere yet.
pub proof fn law_dropped_audio_shows(
    registry: &mut StreamRegistry,
    outcome: EnqueueOutcome,
    now: u64,
    result: Result<(), IoError>,
    before: StreamSnapshot,
    after: StreamSnapshot,
    asked: u64,
)
    requires
        registry.inv(),
        call_ensures(after_enqueue, (registry, outcome, now), result),
        is_stream_snapshot(before, registry@, before.key@, asked),
        registry@.streams.contains_key(before.key@),
    ensures
        result is Err <==> outcome is Closed,
        !(outcome is Full) ==> final(registry)@ == old(registry)@,
        outcome matches EnqueueOutcome::Full(job) ==> (job.key@ == before.key@
            && is_stream_snapshot(after, final(registry)@, before.key@, asked) ==> traffic(after)
            == (TrafficCounts {
            udp_send_errors_total: plus(
                before.udp_send_errors_total,
                job.targets@.len() as int,
            ),
            ..traffic(before)
        })),
{
    if let EnqueueOutcome::Full(job) = outcome {
        assert(job.payload@.len() == job.payload.len());
        assert(job.targets@.len() == job.targets.len());
        let later = registry@.audio_sent(
            job.key@,
            job.payload@.len() as usize,
            0,
            job.targets@.len() as usize,
            now,
        );
        if job.key@ == before.key@ && is_stream_snapshot(after, later, before.key@, asked) {
            law_audio_out_is_counted(
                registry@,
                job.payload@.len() as usize,
                0,
                job.targets@.len() as usize,
                now,
                before,
                asked,
                after,
                asked,
            );
        }
    }
}

/// A pass begins exactly as long as the publisher is there under its key, before the first target
/// and with nothing counted.
pub proof fn law_pass_begins_while_the_publisher_is_there(
    registry: StreamRegistry,
    job: AudioDispatchJob,
    run: Option<DispatchRun>,
)
    requires
        registry.inv(),
        call_ensures(DispatchRun::start, (&registry, job), run),
    ensures
        run is Some <==> registry@.sessions.contains_key(job.publisher_session_id@)
            && registry@.sessions[job.publisher_session_id@].role == ClientRole::Publisher
            && registry@.sessions[job.publisher_session_id@].key == job.key@,
        run matches Some(r) ==> r.spec_job() == job && r@.next == 0 && !r@.sending
            && r@.successful_targets == 0 && r@.send_errors == 0,
{
}

/// A step of a pass deals with the next target: it sends to that target's own endpoint, under its
/// own session id, exactly if the target is a subscriber that registered that endpoint and was
/// heard of within the timeout, and the payload is within the limit.
pub proof fn law_step_deals_with_the_next_target(
    run: &mut DispatchRun,
    registry: StreamRegistry,
    now: u64,
    step: DispatchStep,
)
    requires
        registry.inv(),
        run.inv(),
        !run@.sending,
        run@.next < run.spec_job().targets@.len(),
        call_ensures(DispatchRun::step, (run, &registry, now), step),
    ensures
        ({
            let job = old(run).spec_job();
            let target = job.targets@[old(run)@.next as int];
            let sessions = registry@.sessions;
            let live = {
                &&& sessions.contains_key(target.session_id@)
                &&& sessions[target.session_id@].role == ClientRole::Subscriber
                &&& sessions[target.session_id@].udp_endpoint == Some(target.endpoint)
                &&& heard_in_time(registry@, target.session_id@, now)
            };
            &&& final(run).spec_job() == job
            &&& final(run)@.next == old(run)@.next + 1
            &&& step is Skip <==> !live
            &&& step is EncodeFailed <==> live && job.payload@.len() > 1200
            &&& step is Send <==> live && job.payload@.len() <= 1200
            &&& step matches DispatchStep::Send { session_id, endpoint, packet } ==> {
                &&& session_id == target.session_id
                &&& endpoint == target.endpoint
                &&& parse_packet(packet@, 1200) == Ok::<Packet, UdpPacketError>(
                    Packet::AudioData {
                        id: target.session_id@,
                        sequence: job.sequence,
                        timestamp_ms: job.timestamp_ms,
                        payload: job.payload@,
                    },
                )
            }
            &&& final(run)@.sending <==> step is Send
            &&& final(run)@.successful_targets == old(run)@.successful_targets
            &&& final(run)@.send_errors == old(run)@.send_errors + if step is EncodeFailed {
                1int
            } else {
                0int
            }
        }),
{
    let job = run.spec_job();
    let target = job.targets@[run@.next as int];
    if job.payload@.len() <= 1200 {
        law_parse_reads_what_encode_writes(
            Packet::AudioData {
                id: target.session_id@,
                sequence: job.sequence,
                timestamp_ms: job.timestamp_ms,
                payload: job.payload@,
            },
            1200,
        );
    }
}

/// What was sent counts as a success exactly if it was everything, else as a failure.
pub proof fn law_packet_counts_once_sent(
    run: &mut DispatchRun,
    sent: Option<usize>,
    expected: usize,
    complete: bool,
)
    requires
        run.inv(),
        run@.sending,
        call_ensures(DispatchRun::after_send, (run, sent, expected), complete),
    ensures
        complete <==> sent == Some(expected),
        final(run).spec_job() == old(run).spec_job(),
        final(run)@.next == old(run)@.next,
        !final(run)@.sending,
        final(run)@.successful_targets == old(run)@.successful_targets + if complete {
            1int
        } else {
            0int
        },
        final(run)@.send_errors == old(run)@.send_errors + if complete {
            0int
        } else {
            1int
        },
{
}

/// The end of a pass shows under the key of the audio: the packets that went out, their payloads'
/// bytes, and the failures.
pub proof fn law_finished_pass_shows(
    run: DispatchRun,
    registry: &mut StreamRegistry,
    now: u64,
    before: StreamSnapshot,
    after: StreamSnapshot,
    asked: u64,
)
    requires
        registry.inv(),
        run.inv(),
        call_ensures(DispatchRun::finish, (run, registry, now), ()),
        registry@.streams.contains_key(run.spec_job().key@),
        before.key@ == run.spec_job().key@,
        is_stream_snapshot(before, registry@, before.key@, asked),
    ensures
        final(registry)@.sessions == old(registry)@.sessions,
        is_stream_snapshot(after, final(registry)@, before.key@, asked) ==> traffic(after) == (
        TrafficCounts {
            udp_audio_packets_out_total: plus(
                before.udp_audio_packets_out_total,
                run@.successful_targets as int,
            ),
            udp_audio_bytes_out_total: plus(
                before.udp_audio_bytes_out_total,
                (run.spec_job().payload@.len() * run@.successful_targets) as int,
            ),
            udp_send_errors_total: plus(before.udp_send_errors_total, run@.send_errors as int),
            ..traffic(before)
        }),
{
    let job = run.spec_job();
    run.law_no_target_counts_twice();
    assert(job.payload@.len() == job.payload.len());
    assert(job.targets@.len() == job.targets.len());
    let later = registry@.audio_sent(
        job.key@,
        job.payload@.len() as usize,
        run@.successful_targets as usize,
        run@.send_errors as usize,
        now,
    );
    if is_stream_snapshot(after, later, before.key@, asked) {
        law_audio_out_is_counted(
            registry@,
            job.payload@.len() as usize,
            run@.successful_targets as usize,
            run@.send_errors as usize,
            now,
            before,
            asked,
            after,
            asked,
        );
    }
}

/// A status query is answered exactly if it presents the key of status queries, character for
/// character; then it is told what the registry holds.
pub proof fn law_status_is_told_to_those_who_know_the_key(
    registry: StreamRegistry,
    request: Option<&StatusAccessRequest>,
    now: u64,
    answer: StatusAnswer,
)
    requires
        registry.inv(),
        call_ensures(answer_status, (&registry, request, now), answer),
    ensures
        answer is Snapshot <==> (request matches Some(r) && r.key@ == "audiostatus"@),
        answer matches StatusAnswer::Snapshot(snapshot) ==> is_snapshot(snapshot, registry@, now),
{
}

/// There is always a worker, and never more than eight; within that there are as many as the
/// machine runs at once.
pub proof fn law_workers_are_one_to_eight(parallelism: Option<usize>, count: usize)
    requires
        call_ensures(udp_dispatch_worker_count, (parallelism,), count),
    ensures
        1 <= count <= 8,
        parallelism matches Some(n) && 1 <= n <= 8 ==> Some(count) == parallelism,
        parallelism matches Some(n) && n > 8 ==> count == 8,
        parallelism is None ==> count == 1,
{
}

/// Audio to be sent is what came in, to where the plan says.
pub proof fn law_audio_is_sent_as_planned(
    plan: AudioDispatchPlan,
    sequence: u64,
    timestamp_ms: u64,
    payload: &[u8],
    job: AudioDispatchJob,
)
    requires
        call_ensures(AudioDispatchJob::from_plan, (plan, sequence, timestamp_ms, payload), job),
    ensures
        job.publisher_session_id == plan.publisher_session_id,
        job.key@ == plan.key@,
        job.sequence == sequence,
        job.timestamp_ms == timestamp_ms,
        job.payload@ == payload@,
        job.targets@ == plan.targets@,
{
}

/// A client takes the session id and the port out of a reply that it accepts, and accepts no
/// other.
pub proof fn law_client_reads_its_session_id(
    response: HandshakeResponseOwned,
    role: ClientRole,
    key: &str,
    result: Result<(SessionId, u16), IoError>,
)
    requires
        call_ensures(check_handshake_response, (&response, role, key), result),
    ensures
        result is Ok <==> response_problem(response, role, key@) is None,
        result matches Ok((session_id, udp_port)) ==> {
            &&& response.session_id matches Some(text)
            &&& hex_bytes(encode_utf8(text@)) == id_bytes(session_id@)
            &&& response.udp_port == Some(udp_port)
        },
{
}

/// The reason of an end is the failure's own message, but for the kinds that have a word: a
/// timeout, a breach of the protocol, and every way in which the peer can be gone, which are one.
pub proof fn law_every_way_to_be_gone_is_one(result: Result<(), IoError>, reason: String)
    requires
        call_ensures(disconnect_reason, (&result,), reason),
    ensures
        match result {
            Ok(()) => reason@ == "peer_disconnected"@,
            Err(e) => if e.kind == ErrorKind::BrokenPipe || e.kind == ErrorKind::ConnectionReset
                || e.kind == ErrorKind::ConnectionAborted || e.kind == ErrorKind::UnexpectedEof {
                reason@ == reason_for(Ok::<(), IoError>(()))
            } else if e.kind == ErrorKind::TimedOut {
                reason@ == "timeout"@
            } else if e.kind == ErrorKind::InvalidData {
                reason@ == "protocol_error"@
            } else {
                reason@ == e.message@
            },
        },
{
}

/// A second publisher is told its key and nothing of a session, in a reply that no client takes
/// for a session.
pub proof fn law_second_publisher_gets_no_session(
    key: &str,
    response: HandshakeResponse<'_>,
    read: HandshakeResponseOwned,
    role: ClientRole,
)
    requires
        call_ensures(publisher_taken_response, (key,), response),
        read.status@ == response.status@,
        read.message@ == response.message@,
    ensures
        response.key matches Some(k) && k@ == key@,
        response.session_id is None,
        response.udp_port is None,
        response_problem(read, role, key@) is Some,
{
    reveal_strlit("ok");
    reveal_strlit("error");
    assert("ok"@.len() == 2 && "error"@.len() == 5);
    assert("ok"@ != "error"@);
}

/// All audio under a key goes through one worker: the one that the hash of the key's bytes and an
/// end mark falls to, whatever else is going on.
pub proof fn law_worker_goes_by_the_key(key: &str, worker_count: usize, index: usize)
    requires
        worker_count > 0,
        call_ensures(dispatch_worker_index, (key, worker_count), index),
    ensures
        index < worker_count,
        index == (DefaultHasher::spec_finish(seq![encode_utf8(key@), seq![0xffu8]]) as usize)
            % worker_count,
{
}

/// A status query at a time sees the registry as of that time.
pub proof fn law_report_is_of_its_time(
    registry: StreamRegistry,
    now: u64,
    snapshot: RegistrySnapshot,
)
    requires
        registry.inv(),
        call_ensures(StreamRegistry::snapshot_at, (&registry, now), snapshot),
    ensures
        snapshot.generated_at_unix_ms == now,
        is_snapshot(snapshot, registry@, now),
        snapshot.active_publisher_count + snapshot.active_subscriber_count
            == registry@.sessions.dom().len(),
{
    registry.law_every_registry_is_consistent();
    law_snapshot_fits_together(snapshot, registry@, now);
}

/// A relay of the load test's own is accepted exactly on this machine, for both of its addresses.
pub proof fn law_own_relay_is_on_this_machine(
    control: Endpoint,
    status: Endpoint,
    result: Result<(), IoError>,
)
    requires
        call_ensures(check_loopback, (control, status), result),
    ensures
        result is Ok <==> control.spec_is_loopback() && status.spec_is_loopback(),
{
}

} // verus!
