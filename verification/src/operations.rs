//! What the operations of the registry promise to whoever calls them: what comes back, and what
//! the registry holds afterwards.

use vstd::prelude::*;

use crate::clock::clock_shows;
use crate::datagrams::speaks_for;
use crate::endpoint::Endpoint;
use crate::error::IoError;
use crate::laws::{
    heard_in_time, law_audio_goes_to_active_subscribers, law_sessions_change_one_by_one,
};
use crate::model::SessionView;
use crate::protocol::{is_drawn, ClientRole, SessionId};
use crate::state::{
    after_admission, are_targets_of, id_after, is_first_free, is_stream_snapshot, target_pairs,
    Admission, AudioDispatchError, AudioDispatchPlan, RegisterSessionError, RegisterStep,
    SessionRegistration, StreamRegistry, StreamSnapshot, UdpHeartbeatError, UdpRegisterError,
};
use crate::traffic::{law_audio_out_is_counted, plus, traffic, TrafficCounts};

verus! {

/// A client that has just connected: without an endpoint.
pub open spec fn newcomer(role: ClientRole, key: Seq<char>, peer: Seq<char>) -> SessionView {
    SessionView {
        role,
        key,
        tcp_peer_addr: peer,
        udp_endpoint: None,
        udp_last_seen_unix_ms: None,
    }
}

/// Whether some session publishes under a key.
pub open spec fn is_published(sessions: Map<u128, SessionView>, key: Seq<char>) -> bool {
    exists|id: u128| #[trigger]
        sessions.contains_key(id) && sessions[id].role == ClientRole::Publisher && sessions[id].key
            == key
}

/// A new registry has no session, no stream and nothing counted.
pub proof fn law_new_registry_is_empty(timeout_ms: u64, registry: StreamRegistry)
    requires
        call_ensures(StreamRegistry::new, (timeout_ms,), registry),
    ensures
        registry.inv(),
        forall|id: u128| !#[trigger] registry@.sessions.contains_key(id),
        forall|key: Seq<char>| !#[trigger] registry@.streams.contains_key(key),
        registry@.invalid_udp_packets_total == 0,
        registry@.unknown_udp_session_packets_total == 0,
        registry@.udp_session_timeout_ms == timeout_ms,
{
}

/// A client is connected under the drawn id unless its key has a publisher already and it would
/// be another, the draw failed, or the id is taken; where it is not connected, nothing changes.
pub proof fn law_client_is_admitted_under_a_free_id(
    registry: &mut StreamRegistry,
    role: ClientRole,
    key: &str,
    peer: &str,
    draw: Result<SessionId, IoError>,
    now: u64,
    admission: Admission,
)
    requires
        registry.inv(),
        call_ensures(StreamRegistry::admit_at, (registry, role, key, peer, draw, now), admission),
    ensures
        ({
            let sessions = old(registry)@.sessions;
            if role == ClientRole::Publisher && is_published(sessions, key@) {
                &&& admission == Admission::Refused(
                    RegisterSessionError::PublisherAlreadyConnected,
                )
                &&& final(registry)@ == old(registry)@
            } else {
                match draw {
                    Err(e) => {
                        &&& admission == Admission::Refused(
                            RegisterSessionError::SessionIdGeneration(e),
                        )
                        &&& final(registry)@ == old(registry)@
                    },
                    Ok(id) => if sessions.contains_key(id@) {
                        admission is IdTaken && final(registry)@ == old(registry)@
                    } else {
                        &&& admission == Admission::Admitted(SessionRegistration { session_id: id })
                        &&& final(registry)@.sessions == sessions.insert(
                            id@,
                            newcomer(role, key@, peer@),
                        )
                    },
                }
            }
        }),
{
    let before = registry@;
    registry.law_every_registry_is_consistent();
    if before.has_publisher(key@) {
        let id = before.streams[key@].publisher_session->0;
        assert(before.streams[key@].lists(ClientRole::Publisher, id));
        assert(before.sessions.contains_key(id));
    }
    if is_published(before.sessions, key@) {
        let id = choose|id: u128| #[trigger]
            before.sessions.contains_key(id) && before.sessions[id].role == ClientRole::Publisher
                && before.sessions[id].key == key@;
        assert(before.streams[key@].lists(ClientRole::Publisher, id));
    }
}

/// A client that registers gets a session of its own, under an id that comes of a draw and that
/// no session had; it is refused only as a second publisher of its key, or where the draw failed.
pub proof fn law_client_registers_under_a_drawn_id(
    registry: &mut StreamRegistry,
    role: ClientRole,
    key: &str,
    peer: String,
    result: Result<SessionRegistration, RegisterSessionError>,
)
    requires
        registry.inv(),
        call_ensures(
            StreamRegistry::register_control_session,
            (registry, role, key, peer),
            result,
        ),
    ensures
        ({
            let sessions = old(registry)@.sessions;
            let second = role == ClientRole::Publisher && is_published(sessions, key@);
            match result {
                Ok(registration) => {
                    &&& !second
                    &&& !sessions.contains_key(registration.session_id@)
                    &&& final(registry)@.sessions == sessions.insert(
                        registration.session_id@,
                        newcomer(role, key@, peer@),
                    )
                    &&& exists|drawn: SessionId| #[trigger]
                        is_drawn(Ok::<SessionId, IoError>(drawn)) && (drawn@
                            != registration.session_id@ ==> sessions.contains_key(drawn@))
                },
                Err(RegisterSessionError::PublisherAlreadyConnected) => {
                    second && final(registry)@ == old(registry)@
                },
                Err(RegisterSessionError::SessionIdGeneration(e)) => {
                    &&& !second
                    &&& is_drawn(Err::<SessionId, IoError>(e))
                    &&& final(registry)@ == old(registry)@
                },
            }
        }),
{
    let before = registry@;
    registry.law_every_registry_is_consistent();
    if before.has_publisher(key@) {
        let id = before.streams[key@].publisher_session->0;
        assert(before.streams[key@].lists(ClientRole::Publisher, id));
        assert(before.sessions.contains_key(id));
    }
    if is_published(before.sessions, key@) {
        let id = choose|id: u128| #[trigger]
            before.sessions.contains_key(id) && before.sessions[id].role == ClientRole::Publisher
                && before.sessions[id].key == key@;
        assert(before.streams[key@].lists(ClientRole::Publisher, id));
    }
    if let Ok(registration) = result {
        let id = registration.session_id@;
        let drawn = choose|start: SessionId| #[trigger]
            is_drawn(Ok::<SessionId, IoError>(start)) && is_first_free(
                before,
                start@,
                id,
            );
        let steps = choose|steps: nat|
            {
                &&& id == #[trigger] id_after(drawn@, steps)
                &&& !before.sessions.contains_key(id)
                &&& forall|j: nat|
                    j < steps ==> before.sessions.contains_key(
                        #[trigger] id_after(drawn@, j),
                    )
            };
        assert(id_after(drawn@, 0) == drawn@);
        assert(is_drawn(Ok::<SessionId, IoError>(drawn)));
    }
}

/// A client that is disconnected is gone, and it alone; one that is not there is no loss.
pub proof fn law_disconnected_client_is_gone(
    registry: &mut StreamRegistry,
    session_id: SessionId,
    reason: &str,
    now: u64,
)
    requires
        registry.inv(),
    ensures
        call_ensures(
            StreamRegistry::unregister_session_at,
            (registry, session_id, reason, now),
            (),
        ) ==> final(registry)@.sessions == old(registry)@.sessions.remove(session_id@),
        call_ensures(StreamRegistry::unregister_session, (registry, session_id, reason), ())
            ==> final(registry)@.sessions == old(registry)@.sessions.remove(session_id@),
{
    assert forall|at: u64|
        #[trigger] registry@.disconnected(session_id@, reason@, at).sessions
            == registry@.sessions.remove(session_id@) by {
        law_sessions_change_one_by_one(
            registry@,
            ClientRole::Publisher,
            reason@,
            reason@,
            session_id@,
            arbitrary(),
            0,
            0,
            0,
            at,
        );
    }
}

/// A heartbeat on a control connection counts exactly if its session exists, and leaves the
/// sessions as they are.
pub proof fn law_control_heartbeat_finds_its_session(
    registry: &mut StreamRegistry,
    session_id: SessionId,
    now: u64,
    known: bool,
    before: StreamSnapshot,
    after: StreamSnapshot,
    asked: u64,
)
    requires
        registry.inv(),
        call_ensures(
            StreamRegistry::record_control_heartbeat_at,
            (registry, session_id, now),
            known,
        ),
    ensures
        known <==> old(registry)@.sessions.contains_key(session_id@),
        !known ==> final(registry)@ == old(registry)@,
        final(registry)@.sessions == old(registry)@.sessions,
        known && old(registry)@.sessions[session_id@].key == before.key@ && is_stream_snapshot(
            before,
            old(registry)@,
            before.key@,
            asked,
        ) && is_stream_snapshot(after, final(registry)@, before.key@, asked) ==> traffic(after)
            == match old(registry)@.sessions[session_id@].role {
            ClientRole::Publisher => TrafficCounts {
                publisher_tcp_heartbeats_total: plus(before.publisher_tcp_heartbeats_total, 1),
                ..traffic(before)
            },
            ClientRole::Subscriber => TrafficCounts {
                subscriber_tcp_heartbeats_total: plus(before.subscriber_tcp_heartbeats_total, 1),
                ..traffic(before)
            },
        },
{
    registry.law_every_registry_is_consistent();
}

/// A known session registers an endpoint, at a time that the clock shows where none is given; an
/// unknown one does not.
pub proof fn law_known_session_registers(
    registry: &mut StreamRegistry,
    session_id: SessionId,
    endpoint: Endpoint,
    now: u64,
    result: Result<(), UdpRegisterError>,
)
    requires
        registry.inv(),
    ensures
        call_ensures(
            StreamRegistry::record_udp_register_at,
            (registry, session_id, endpoint, now),
            result,
        ) ==> {
            &&& result is Ok <==> old(registry)@.sessions.contains_key(session_id@)
            &&& result is Err ==> final(registry)@ == old(registry)@
            &&& result is Ok ==> final(registry)@.sessions == old(registry)@.sessions.insert(
                session_id@,
                SessionView {
                    udp_endpoint: Some(endpoint),
                    udp_last_seen_unix_ms: Some(now),
                    ..old(registry)@.sessions[session_id@]
                },
            )
        },
        call_ensures(
            StreamRegistry::record_udp_register,
            (registry, session_id, endpoint),
            result,
        ) ==> {
            &&& result is Ok <==> old(registry)@.sessions.contains_key(session_id@)
            &&& result is Err ==> final(registry)@ == old(registry)@
            &&& result is Ok ==> exists|time: u64| #[trigger]
                clock_shows(time) && final(registry)@.sessions == old(registry)@.sessions.insert(
                    session_id@,
                    SessionView {
                        udp_endpoint: Some(endpoint),
                        udp_last_seen_unix_ms: Some(time),
                        ..old(registry)@.sessions[session_id@]
                    },
                )
        },
{
}

/// A UDP heartbeat counts exactly if it comes from the endpoint that speaks for its session, at a
/// time that the clock shows where none is given; then the session was last heard of at that time.
pub proof fn law_heartbeat_counts_from_the_right_endpoint(
    registry: &mut StreamRegistry,
    session_id: SessionId,
    endpoint: Endpoint,
    now: u64,
    result: Result<(), UdpHeartbeatError>,
)
    requires
        registry.inv(),
    ensures
        call_ensures(
            StreamRegistry::record_udp_heartbeat_at,
            (registry, session_id, endpoint, now),
            result,
        ) ==> {
            &&& result is Ok <==> speaks_for(old(registry)@, session_id@, endpoint, now)
            &&& result is Err ==> final(registry)@ == old(registry)@
            &&& result is Ok ==> final(registry)@.sessions == old(registry)@.sessions.insert(
                session_id@,
                SessionView {
                    udp_last_seen_unix_ms: Some(now),
                    ..old(registry)@.sessions[session_id@]
                },
            )
        },
        call_ensures(
            StreamRegistry::record_udp_heartbeat,
            (registry, session_id, endpoint),
            result,
        ) ==> exists|time: u64| #[trigger]
            clock_shows(time) && (result is Ok <==> speaks_for(
                old(registry)@,
                session_id@,
                endpoint,
                time,
            )) && (result is Err ==> final(registry)@ == old(registry)@) && (result is Ok
                ==> final(registry)@.sessions == old(registry)@.sessions.insert(
                session_id@,
                SessionView {
                    udp_last_seen_unix_ms: Some(time),
                    ..old(registry)@.sessions[session_id@]
                },
            )),
{
    registry.law_every_registry_is_consistent();
}

/// Audio is accepted exactly from the endpoint that speaks for a publisher; it goes, under the
/// publisher's key, to each of the key's subscribers that has been heard of within the timeout, at
/// the endpoint of that subscriber, and to nobody else; and it shows in what came in.
pub proof fn law_audio_is_accepted_from_a_publisher(
    registry: &mut StreamRegistry,
    session_id: SessionId,
    endpoint: Endpoint,
    payload_bytes: usize,
    now: u64,
    result: Result<AudioDispatchPlan, AudioDispatchError>,
    subscriber: u128,
    to: Endpoint,
    before: StreamSnapshot,
    after: StreamSnapshot,
    asked: u64,
)
    requires
        registry.inv(),
        call_ensures(
            StreamRegistry::prepare_audio_dispatch_at,
            (registry, session_id, endpoint, payload_bytes, now),
            result,
        ),
    ensures
        result is Ok <==> speaks_for(old(registry)@, session_id@, endpoint, now) && old(registry)@.sessions[session_id@].role == ClientRole::Publisher,
        result is Err ==> final(registry)@ == old(registry)@,
        result matches Ok(plan) ==> {
            let sessions = old(registry)@.sessions;
            &&& plan.publisher_session_id == session_id
            &&& plan.key@ == sessions[session_id@].key
            &&& target_pairs(plan.targets@).no_duplicates()
            &&& target_pairs(plan.targets@).contains((subscriber, to)) <==> {
                &&& sessions.contains_key(subscriber)
                &&& sessions[subscriber].role == ClientRole::Subscriber
                &&& sessions[subscriber].key == sessions[session_id@].key
                &&& sessions[subscriber].udp_endpoint == Some(to)
                &&& heard_in_time(old(registry)@, subscriber, now)
            }
            &&& final(registry)@.sessions == sessions.insert(
                session_id@,
                SessionView { udp_last_seen_unix_ms: Some(now), ..sessions[session_id@] },
            )
            &&& plan.key@ == before.key@ && is_stream_snapshot(
                before,
                old(registry)@,
                before.key@,
                asked,
            ) && is_stream_snapshot(after, final(registry)@, before.key@, asked) ==> traffic(after)
                == (TrafficCounts {
                udp_audio_packets_in_total: plus(before.udp_audio_packets_in_total, 1),
                udp_audio_bytes_in_total: plus(
                    before.udp_audio_bytes_in_total,
                    payload_bytes as int,
                ),
                ..traffic(before)
            })
        },
{
    registry.law_every_registry_is_consistent();
    if let Ok(plan) = result {
        let pairs = target_pairs(plan.targets@);
        assert(pairs.to_set().contains((subscriber, to)) == pairs.contains((subscriber, to)));
        law_audio_goes_to_active_subscribers(registry@, plan.key@, subscriber, to, now);
    }
}

/// What became of a pass, and what could not be sent, shows in what went out.
pub proof fn law_outcomes_show_in_what_went_out(
    registry: &mut StreamRegistry,
    session_id: SessionId,
    key: &str,
    payload_bytes: usize,
    successful_targets: usize,
    send_errors: usize,
    now: u64,
    before: StreamSnapshot,
    after: StreamSnapshot,
    asked: u64,
)
    requires
        registry.inv(),
        is_stream_snapshot(before, registry@, before.key@, asked),
    ensures
        call_ensures(
            StreamRegistry::record_audio_dispatch_outcome_at,
            (registry, key, payload_bytes, successful_targets, send_errors, now),
            (),
        ) ==> {
            &&& final(registry)@.sessions == old(registry)@.sessions
            &&& old(registry)@.streams.contains_key(key@) && before.key@ == key@
                && is_stream_snapshot(after, final(registry)@, before.key@, asked) ==> traffic(
                after,
            ) == (TrafficCounts {
                udp_audio_packets_out_total: plus(
                    before.udp_audio_packets_out_total,
                    successful_targets as int,
                ),
                udp_audio_bytes_out_total: plus(
                    before.udp_audio_bytes_out_total,
                    payload_bytes * successful_targets,
                ),
                udp_send_errors_total: plus(before.udp_send_errors_total, send_errors as int),
                ..traffic(before)
            })
        },
        call_ensures(
            StreamRegistry::record_udp_send_error_at,
            (registry, session_id, now),
            (),
        ) ==> {
            &&& final(registry)@.sessions == old(registry)@.sessions
            &&& old(registry)@.sessions.contains_key(session_id@) && old(registry)@.sessions[session_id@].key == before.key@ && is_stream_snapshot(
                after,
                final(registry)@,
                before.key@,
                asked,
            ) ==> traffic(after) == (TrafficCounts {
                udp_send_errors_total: plus(before.udp_send_errors_total, 1),
                ..traffic(before)
            })
        },
{
    registry.law_every_registry_is_consistent();
    let earlier = registry@;
    let later = earlier.audio_sent(key@, payload_bytes, successful_targets, send_errors, now);
    if earlier.streams.contains_key(key@) && before.key@ == key@ && is_stream_snapshot(
        after,
        later,
        before.key@,
        asked,
    ) {
        law_audio_out_is_counted(
            earlier,
            payload_bytes,
            successful_targets,
            send_errors,
            now,
            before,
            asked,
            after,
            asked,
        );
    }
}

/// What the registry answers about a session is what that session is, and only that session.
pub proof fn law_questions_are_answered_from_the_session(
    registry: StreamRegistry,
    session_id: SessionId,
    role: ClientRole,
    key: &str,
    endpoint: Endpoint,
    now: u64,
    peer: Option<String>,
    matching: bool,
    active: bool,
    found: Option<(ClientRole, String)>,
)
    requires
        registry.inv(),
        call_ensures(StreamRegistry::tcp_peer_addr, (&registry, session_id), peer),
        call_ensures(StreamRegistry::session_matches, (&registry, session_id, role, key), matching),
        call_ensures(
            StreamRegistry::subscriber_target_is_active_at,
            (&registry, session_id, endpoint, now),
            active,
        ),
        call_ensures(StreamRegistry::session_role_and_key, (&registry, session_id), found),
    ensures
        ({
            let known = registry@.sessions.contains_key(session_id@);
            let session = registry@.sessions[session_id@];
            &&& peer is Some <==> known
            &&& peer matches Some(p) ==> p@ == session.tcp_peer_addr
            &&& matching <==> known && session.role == role && session.key == key@
            &&& found is Some <==> known
            &&& found matches Some(f) ==> f.0 == session.role && f.1@ == session.key
            &&& active <==> known && session.role == ClientRole::Subscriber
                && session.udp_endpoint == Some(endpoint) && heard_in_time(
                registry@,
                session_id@,
                now,
            )
        }),
{
}

/// Audio is judged by the clock: where no time is given, it is accepted exactly if its endpoint
/// speaks for a publisher at the time that the clock shows, and the publisher was last heard of
/// at that time.
pub proof fn law_audio_is_judged_by_the_clock(
    registry: &mut StreamRegistry,
    session_id: SessionId,
    endpoint: Endpoint,
    payload_bytes: usize,
    result: Result<AudioDispatchPlan, AudioDispatchError>,
)
    requires
        registry.inv(),
        call_ensures(
            StreamRegistry::prepare_audio_dispatch,
            (registry, session_id, endpoint, payload_bytes),
            result,
        ),
    ensures
        exists|time: u64| #[trigger]
            clock_shows(time) && (result is Ok <==> speaks_for(
                old(registry)@,
                session_id@,
                endpoint,
                time,
            ) && old(registry)@.sessions[session_id@].role == ClientRole::Publisher) && (result is Ok
                ==> final(registry)@.sessions == old(registry)@.sessions.insert(
                session_id@,
                SessionView {
                    udp_last_seen_unix_ms: Some(time),
                    ..old(registry)@.sessions[session_id@]
                },
            )) && (result matches Ok(plan) ==> are_targets_of(
                plan.targets@,
                old(registry)@,
                plan.key@,
                time,
            )),
        result is Err ==> final(registry)@ == old(registry)@,
{
    registry.law_every_registry_is_consistent();
}

/// What happens now is dated by the clock: where no time is given, the last activity of a stream
/// is at a time that the clock shows.
pub proof fn law_activity_is_dated_by_the_clock(
    registry: &mut StreamRegistry,
    session_id: SessionId,
    key: &str,
    reason: &str,
    payload_bytes: usize,
    successful_targets: usize,
    send_errors: usize,
    row: StreamSnapshot,
    asked: u64,
)
    requires
        registry.inv(),
        registry@.sessions.contains_key(session_id@),
        registry@.sessions[session_id@].key == key@,
    ensures
        call_ensures(StreamRegistry::record_control_heartbeat, (registry, session_id), true)
            && is_stream_snapshot(row, final(registry)@, key@, asked) ==> clock_shows(
            row.last_activity_unix_ms,
        ),
        call_ensures(StreamRegistry::record_udp_send_error, (registry, session_id), ())
            && is_stream_snapshot(row, final(registry)@, key@, asked) ==> clock_shows(
            row.last_activity_unix_ms,
        ),
        call_ensures(
            StreamRegistry::record_audio_dispatch_outcome,
            (registry, key, payload_bytes, successful_targets, send_errors),
            (),
        ) && successful_targets + send_errors > 0 && is_stream_snapshot(
            row,
            final(registry)@,
            key@,
            asked,
        ) ==> clock_shows(row.last_activity_unix_ms),
        call_ensures(StreamRegistry::unregister_session, (registry, session_id, reason), ())
            && final(registry)@.streams.contains_key(key@) && is_stream_snapshot(
            row,
            final(registry)@,
            key@,
            asked,
        ) ==> clock_shows(row.last_activity_unix_ms),
{
    registry.law_every_registry_is_consistent();
}

/// What follows an attempt to connect: success and refusal stand, and only a taken id is followed
/// by another draw.
pub proof fn law_only_a_taken_id_is_drawn_again(admission: Admission, step: RegisterStep)
    requires
        call_ensures(after_admission, (admission,), step),
    ensures
        step is DrawAgain <==> admission is IdTaken,
        admission matches Admission::Admitted(registration) ==> step == RegisterStep::Registered(
            registration,
        ),
        admission matches Admission::Refused(e) ==> step == RegisterStep::Failed(e),
{
}

/// The id that is found is free, and every id from the one to begin with up to it, around at the
/// end, is taken.
pub proof fn law_found_id_is_free(
    registry: StreamRegistry,
    start: SessionId,
    id: SessionId,
    passed: u128,
)
    requires
        registry.inv(),
        call_ensures(StreamRegistry::free_id_from, (&registry, start), id),
    ensures
        !registry@.sessions.contains_key(id@),
        !registry@.sessions.contains_key(start@) ==> id@ == start@,
        start@ <= passed < id@ ==> registry@.sessions.contains_key(passed),
        id@ < start@ && (passed < id@ || start@ <= passed) ==> registry@.sessions.contains_key(
            passed,
        ),
{
    let steps = choose|steps: nat|
        {
            &&& id@ == #[trigger] id_after(start@, steps)
            &&& !registry@.sessions.contains_key(id@)
            &&& forall|j: nat|
                j < steps ==> registry@.sessions.contains_key(#[trigger] id_after(start@, j))
        };
    assert(id_after(start@, 0) == start@);
    let whole = u128::MAX + 1;
    if start@ <= passed < id@ {
        assert(id_after(start@, (passed - start@) as nat) == passed);
        assert(id@ - start@ <= steps);
    } else if id@ < start@ && start@ <= passed {
        assert(id_after(start@, (passed - start@) as nat) == passed);
        assert(id@ + whole - start@ <= steps);
    } else if id@ < start@ && passed < id@ {
        assert(id_after(start@, (passed + whole - start@) as nat) == passed);
        assert(id@ + whole - start@ <= steps);
    }
}

} // verus!
