//! What holds of the registry across its operations.

use vstd::prelude::*;
use vstd::set_lib::*;
use vstd::utf8::*;

use crate::clock::clock_shows;
use crate::endpoint::Endpoint;
use crate::model::{
    is_recent, law_connecting_keeps_consistency, RegistryView, SessionView, StreamView,
    UdpEndpointValidationError,
};
use crate::protocol::{key_problem, ClientRole, SessionId};
use crate::state::{
    active_udp_endpoint, audio_refusal, ensure_udp_endpoint_matches, heartbeat_result, is_snapshot,
    one_if, snapshot_keys, sum_over, totals_are_sums, AudioDispatchError, RegistrySnapshot,
    SessionEntry, StreamRegistry, StreamSnapshot, UdpHeartbeatError,
};
use crate::text::{bytes_before, lemma_text_order_is_strict, text_before};

verus! {

/// A key has at most one publisher.
pub proof fn law_one_publisher_per_key(registry: RegistryView, a: u128, b: u128)
    requires
        registry.consistent(),
        registry.sessions.contains_key(a),
        registry.sessions.contains_key(b),
        registry.sessions[a].role == ClientRole::Publisher,
        registry.sessions[b].role == ClientRole::Publisher,
        registry.sessions[a].key == registry.sessions[b].key,
    ensures
        a == b,
{
}

/// A key has a publisher exactly when some session publishes under it.
pub proof fn law_has_publisher_means_a_publishing_session(registry: RegistryView, key: Seq<char>)
    requires
        registry.consistent(),
    ensures
        registry.has_publisher(key) <==> exists|id: u128| #[trigger]
            registry.sessions.contains_key(id) && registry.sessions[id].role
                == ClientRole::Publisher && registry.sessions[id].key == key,
{
    if registry.has_publisher(key) {
        let id = registry.streams[key].publisher_session->0;
        assert(registry.streams[key].lists(ClientRole::Publisher, id));
        assert(registry.sessions.contains_key(id));
    }
}

/// A stream exists exactly as long as a session is under its key.
pub proof fn law_stream_exists_while_in_use(registry: RegistryView, key: Seq<char>)
    requires
        registry.consistent(),
    ensures
        registry.streams.contains_key(key) <==> exists|id: u128| #[trigger]
            registry.sessions.contains_key(id) && registry.sessions[id].key == key,
{
    if registry.streams.contains_key(key) {
        let stream = registry.streams[key];
        assert(!stream.is_deserted());
        if stream.publisher_session is Some {
            assert(stream.lists(ClientRole::Publisher, stream.publisher_session->0));
            assert(registry.sessions.contains_key(stream.publisher_session->0));
        } else {
            if forall|id: u128| !stream.subscribers.contains(id) {
                assert(stream.subscribers =~= Set::empty());
            }
            let id = choose|id: u128| stream.subscribers.contains(id);
            assert(stream.lists(ClientRole::Subscriber, id));
            assert(registry.sessions.contains_key(id));
        }
    }
}

/// A publisher that has connected is the publisher of its key, so that no second one is let in,
/// until it leaves; then the key is free again.
pub proof fn law_publisher_holds_its_key(
    registry: RegistryView,
    key: Seq<char>,
    tcp_peer_addr: Seq<char>,
    id: u128,
    reason: Seq<char>,
    connected_at: u64,
    left_at: u64,
)
    requires
        registry.consistent(),
        !registry.sessions.contains_key(id),
        !registry.has_publisher(key),
    ensures
        registry.connected(ClientRole::Publisher, key, tcp_peer_addr, id, connected_at).has_publisher(
            key,
        ),
        !registry.connected(
            ClientRole::Publisher,
            key,
            tcp_peer_addr,
            id,
            connected_at,
        ).disconnected(id, reason, left_at).has_publisher(key),
{
}

/// When a publisher leaves, its key is free for another.
pub proof fn law_key_is_free_once_publisher_left(
    registry: RegistryView,
    id: u128,
    reason: Seq<char>,
    now: u64,
)
    requires
        registry.consistent(),
        registry.sessions.contains_key(id),
        registry.sessions[id].role == ClientRole::Publisher,
    ensures
        !registry.disconnected(id, reason, now).has_publisher(registry.sessions[id].key),
{
    assert(registry.streams[registry.sessions[id].key].lists(ClientRole::Publisher, id));
}

/// A session that has left is unknown at once: whatever packet names it changes nothing and is
/// turned down, and no audio goes to it.
pub proof fn law_disconnect_invalidates_session(
    registry: RegistryView,
    id: u128,
    reason: Seq<char>,
    left_at: u64,
    endpoint: Endpoint,
    key: Seq<char>,
    payload_bytes: usize,
    now: u64,
)
    ensures
        ({
            let after = registry.disconnected(id, reason, left_at);
            &&& !after.sessions.contains_key(id)
            &&& after.control_heartbeat(id, now) == after
            &&& after.udp_registered(id, endpoint, now) == after
            &&& after.udp_heartbeat(id, endpoint, now) == after
            &&& after.audio_received(id, endpoint, payload_bytes, now) == after
            &&& heartbeat_result(after, id, endpoint, now) == Err::<(), UdpHeartbeatError>(
                UdpHeartbeatError::UnknownSession,
            )
            &&& audio_refusal(after, id, endpoint, now) == Some(AudioDispatchError::UnknownSession)
            &&& !after.dispatch_targets(key, now).contains((id, endpoint))
            &&& !after.is_active_target(id, endpoint, now)
        }),
{
}

/// Nothing flows before an endpoint has registered: a client that has just connected can neither
/// send audio nor heartbeats, and receives nothing.
pub proof fn law_registration_comes_first(
    registry: RegistryView,
    role: ClientRole,
    key: Seq<char>,
    tcp_peer_addr: Seq<char>,
    id: u128,
    connected_at: u64,
    endpoint: Endpoint,
    now: u64,
)
    ensures
        ({
            let after = registry.connected(role, key, tcp_peer_addr, id, connected_at);
            &&& heartbeat_result(after, id, endpoint, now) == Err::<(), UdpHeartbeatError>(
                UdpHeartbeatError::UdpNotRegistered,
            )
            &&& audio_refusal(after, id, endpoint, now) == Some(
                if role == ClientRole::Publisher {
                    AudioDispatchError::UdpNotRegistered
                } else {
                    AudioDispatchError::WrongRole
                },
            )
            &&& !after.dispatch_targets(key, now).contains((id, endpoint))
            &&& !after.is_active_target(id, endpoint, now)
        }),
{
}

/// A subscriber never sends audio, whatever it has registered.
pub proof fn law_subscriber_never_publishes(
    registry: RegistryView,
    id: u128,
    endpoint: Endpoint,
    payload_bytes: usize,
    now: u64,
)
    requires
        registry.sessions.contains_key(id),
        registry.sessions[id].role == ClientRole::Subscriber,
    ensures
        audio_refusal(registry, id, endpoint, now) == Some(AudioDispatchError::WrongRole),
        registry.audio_received(id, endpoint, payload_bytes, now) == registry,
{
}

/// Once an endpoint has registered, it alone speaks for the session, for as long as the timeout
/// lasts: another endpoint is turned down, and so is this one later on.
pub proof fn law_registered_endpoint_speaks(
    registry: RegistryView,
    id: u128,
    endpoint: Endpoint,
    other: Endpoint,
    registered_at: u64,
    now: u64,
)
    requires
        registry.sessions.contains_key(id),
        other != endpoint,
    ensures
        ({
            let after = registry.udp_registered(id, endpoint, registered_at);
            let in_time = is_recent(registered_at, now, registry.udp_session_timeout_ms);
            &&& heartbeat_result(after, id, endpoint, now) == if in_time {
                Ok::<(), UdpHeartbeatError>(())
            } else {
                Err(UdpHeartbeatError::UdpEndpointExpired)
            }
            &&& heartbeat_result(after, id, other, now) == Err::<(), UdpHeartbeatError>(
                UdpHeartbeatError::UdpEndpointMismatch,
            )
            &&& registry.sessions[id].role == ClientRole::Publisher ==> {
                &&& audio_refusal(after, id, endpoint, now) == if in_time {
                    None::<AudioDispatchError>
                } else {
                    Some(AudioDispatchError::UdpEndpointExpired)
                }
                &&& audio_refusal(after, id, other, now) == Some(
                    AudioDispatchError::UdpEndpointMismatch,
                )
            }
            &&& registry.sessions[id].role == ClientRole::Subscriber ==> {
                &&& after.is_active_target(id, endpoint, now) == in_time
                &&& !after.is_active_target(id, other, now)
            }
        }),
{
}

/// Sending and receiving rest on one notion of an active endpoint: a sender is accepted exactly
/// when the active endpoint of its session is its own.
pub proof fn law_sender_is_accepted_from_the_active_endpoint(
    session: SessionView,
    source: Endpoint,
    now: u64,
    timeout_ms: u64,
)
    ensures
        session.endpoint_problem(source, now, timeout_ms) is None <==> session.active_endpoint(
            now,
            timeout_ms,
        ) == Some(source),
{
}

/// An endpoint that has been silent for the timeout, or longer, is expired: it is no longer
/// active, and a packet from it is turned down as such.
pub proof fn law_silence_expires_an_endpoint(
    session: SessionView,
    endpoint: Endpoint,
    last_seen: u64,
    now: u64,
    timeout_ms: u64,
)
    requires
        session.udp_endpoint == Some(endpoint),
        session.udp_last_seen_unix_ms == Some(last_seen),
        now - last_seen >= timeout_ms,
    ensures
        session.active_endpoint(now, timeout_ms) is None,
        session.endpoint_problem(endpoint, now, timeout_ms) == Some(
            UdpEndpointValidationError::EndpointExpired,
        ),
{
}

/// An endpoint that has been silent for less than the timeout is active. A clock that steps back
/// never expires it.
pub proof fn law_heard_endpoint_stays_active(
    session: SessionView,
    endpoint: Endpoint,
    last_seen: u64,
    now: u64,
    timeout_ms: u64,
)
    requires
        session.udp_endpoint == Some(endpoint),
        session.udp_last_seen_unix_ms == Some(last_seen),
        now - last_seen < timeout_ms,
        timeout_ms > 0,
    ensures
        session.active_endpoint(now, timeout_ms) == Some(endpoint),
        session.endpoint_problem(endpoint, now, timeout_ms) is None,
{
}

/// Registering again, from the same endpoint or another, always works for a known session and
/// replaces what was registered before.
pub proof fn law_registering_again_replaces(
    registry: RegistryView,
    id: u128,
    first: Endpoint,
    second: Endpoint,
    first_at: u64,
    second_at: u64,
)
    requires
        registry.sessions.contains_key(id),
    ensures
        ({
            let after = registry.udp_registered(id, first, first_at).udp_registered(
                id,
                second,
                second_at,
            );
            &&& after.sessions[id].udp_endpoint == Some(second)
            &&& after.sessions[id].udp_last_seen_unix_ms == Some(second_at)
            &&& after.sessions == registry.udp_registered(id, second, second_at).sessions
        }),
{
    let after = registry.udp_registered(id, first, first_at).udp_registered(id, second, second_at);
    assert(after.sessions =~= registry.udp_registered(id, second, second_at).sessions);
}

/// No heartbeat and no audio packet ever moves a session to another endpoint.
pub proof fn law_only_registering_rebinds(
    registry: RegistryView,
    id: u128,
    endpoint: Endpoint,
    payload_bytes: usize,
    now: u64,
    other: u128,
)
    ensures
        registry.sessions.contains_key(other) ==> {
            &&& registry.udp_heartbeat(id, endpoint, now).sessions[other].udp_endpoint
                == registry.sessions[other].udp_endpoint
            &&& registry.audio_received(id, endpoint, payload_bytes, now).sessions[other].udp_endpoint
                == registry.sessions[other].udp_endpoint
            &&& registry.control_heartbeat(id, now).sessions[other].udp_endpoint
                == registry.sessions[other].udp_endpoint
        },
{
}

/// A heartbeat that counts gives the endpoint the whole timeout again.
pub proof fn law_heartbeat_renews(
    registry: RegistryView,
    id: u128,
    endpoint: Endpoint,
    heard_at: u64,
    now: u64,
)
    requires
        heartbeat_result(registry, id, endpoint, heard_at) is Ok,
        is_recent(heard_at, now, registry.udp_session_timeout_ms),
    ensures
        heartbeat_result(registry.udp_heartbeat(id, endpoint, heard_at), id, endpoint, now) is Ok,
        registry.sessions[id].role == ClientRole::Publisher ==> audio_refusal(
            registry.udp_heartbeat(id, endpoint, heard_at),
            id,
            endpoint,
            now,
        ) is None,
        registry.sessions[id].role == ClientRole::Subscriber ==> registry.udp_heartbeat(
            id,
            endpoint,
            heard_at,
        ).is_active_target(id, endpoint, now),
{
}

/// A packet that is turned down changes nothing.
pub proof fn law_refused_packets_change_nothing(
    registry: RegistryView,
    id: u128,
    endpoint: Endpoint,
    payload_bytes: usize,
    now: u64,
)
    ensures
        heartbeat_result(registry, id, endpoint, now) is Err ==> registry.udp_heartbeat(
            id,
            endpoint,
            now,
        ) == registry,
        audio_refusal(registry, id, endpoint, now) is Some ==> registry.audio_received(
            id,
            endpoint,
            payload_bytes,
            now,
        ) == registry,
{
}

/// Audio goes exactly to the active subscribers of the key, each at the endpoint that it
/// registered; never back to a publisher.
pub proof fn law_audio_goes_to_active_subscribers(
    registry: RegistryView,
    key: Seq<char>,
    id: u128,
    endpoint: Endpoint,
    now: u64,
)
    requires
        registry.consistent(),
    ensures
        registry.dispatch_targets(key, now).contains((id, endpoint)) <==> {
            &&& registry.sessions.contains_key(id)
            &&& registry.sessions[id].role == ClientRole::Subscriber
            &&& registry.sessions[id].key == key
            &&& registry.sessions[id].udp_endpoint == Some(endpoint)
            &&& is_recent(
                registry.sessions[id].udp_last_seen_unix_ms->0,
                now,
                registry.udp_session_timeout_ms,
            )
        },
        registry.dispatch_targets(key, now).contains((id, endpoint))
            ==> registry.is_active_target(id, endpoint, now),
{
    if registry.dispatch_targets(key, now).contains((id, endpoint)) {
        assert(registry.streams[key].lists(ClientRole::Subscriber, id));
    }
    if registry.sessions.contains_key(id) && registry.sessions[id].role == ClientRole::Subscriber
        && registry.sessions[id].key == key {
        assert(registry.streams[key].lists(ClientRole::Subscriber, id));
    }
}

/// The way to audio: a publisher and a subscriber connect under one key, both register their
/// endpoints, and as long as neither timeout has passed the publisher may send and the subscriber
/// receives.
pub proof fn law_connect_register_and_audio_flows(
    registry: RegistryView,
    key: Seq<char>,
    publisher: u128,
    subscriber: u128,
    publisher_peer: Seq<char>,
    subscriber_peer: Seq<char>,
    publisher_endpoint: Endpoint,
    subscriber_endpoint: Endpoint,
    connected_at: u64,
    registered_at: u64,
    now: u64,
)
    requires
        publisher != subscriber,
        is_recent(registered_at, now, registry.udp_session_timeout_ms),
    ensures
        ({
            let ready = registry.connected(
                ClientRole::Publisher,
                key,
                publisher_peer,
                publisher,
                connected_at,
            ).connected(
                ClientRole::Subscriber,
                key,
                subscriber_peer,
                subscriber,
                connected_at,
            ).udp_registered(publisher, publisher_endpoint, registered_at).udp_registered(
                subscriber,
                subscriber_endpoint,
                registered_at,
            );
            &&& audio_refusal(ready, publisher, publisher_endpoint, now) is None
            &&& ready.dispatch_targets(key, now).contains((subscriber, subscriber_endpoint))
        }),
{
}

/// The end of a session, and its traffic, leave the streams of all other keys and all other
/// sessions as they are.
pub proof fn law_keys_do_not_touch_each_other(
    registry: RegistryView,
    id: u128,
    endpoint: Endpoint,
    reason: Seq<char>,
    payload_bytes: usize,
    now: u64,
    key: Seq<char>,
    other: u128,
)
    requires
        registry.sessions.contains_key(id),
        key != registry.sessions[id].key,
        other != id,
        registry.streams.contains_key(key),
        registry.sessions.contains_key(other),
    ensures
        untouched(registry, registry.disconnected(id, reason, now), key, other),
        untouched(registry, registry.control_heartbeat(id, now), key, other),
        untouched(registry, registry.udp_registered(id, endpoint, now), key, other),
        untouched(registry, registry.udp_heartbeat(id, endpoint, now), key, other),
        untouched(registry, registry.audio_received(id, endpoint, payload_bytes, now), key, other),
        untouched(registry, registry.send_error(id, now), key, other),
{
}

/// A new client leaves the streams of all other keys and all other sessions as they are.
pub proof fn law_newcomers_touch_only_their_key(
    registry: RegistryView,
    role: ClientRole,
    new_key: Seq<char>,
    tcp_peer_addr: Seq<char>,
    id: u128,
    now: u64,
    key: Seq<char>,
    other: u128,
)
    requires
        key != new_key,
        other != id,
        registry.streams.contains_key(key),
        registry.sessions.contains_key(other),
    ensures
        untouched(
            registry,
            registry.connected(role, new_key, tcp_peer_addr, id, now),
            key,
            other,
        ),
{
}

/// Whether a session is still there, with the same role, key and control connection.
pub open spec fn keeps_identity(before: RegistryView, after: RegistryView, id: u128) -> bool {
    &&& after.sessions.contains_key(id)
    &&& after.sessions[id].role == before.sessions[id].role
    &&& after.sessions[id].key == before.sessions[id].key
    &&& after.sessions[id].tcp_peer_addr == before.sessions[id].tcp_peer_addr
}

/// A session keeps its role and its key for as long as it lasts: nothing but its own end takes it
/// away, and nothing changes what it is.
pub proof fn law_sessions_keep_their_role_and_key(
    registry: RegistryView,
    session: u128,
    id: u128,
    endpoint: Endpoint,
    role: ClientRole,
    key: Seq<char>,
    text: Seq<char>,
    payload_bytes: usize,
    successful_targets: usize,
    send_errors: usize,
    now: u64,
)
    requires
        registry.sessions.contains_key(session),
    ensures
        id != session ==> keeps_identity(
            registry,
            registry.connected(role, key, text, id, now),
            session,
        ),
        id != session ==> keeps_identity(registry, registry.disconnected(id, text, now), session),
        keeps_identity(registry, registry.control_heartbeat(id, now), session),
        keeps_identity(registry, registry.udp_registered(id, endpoint, now), session),
        keeps_identity(registry, registry.udp_heartbeat(id, endpoint, now), session),
        keeps_identity(registry, registry.audio_received(id, endpoint, payload_bytes, now), session),
        keeps_identity(registry, registry.send_error(id, now), session),
        keeps_identity(
            registry,
            registry.audio_sent(key, payload_bytes, successful_targets, send_errors, now),
            session,
        ),
{
}

/// Whether every key in use is one that a handshake may present.
pub open spec fn keys_are_valid(registry: RegistryView) -> bool {
    forall|key: Seq<char>| #[trigger]
        registry.streams.contains_key(key) ==> key_problem(key) is None
}

/// Where handshakes present valid keys only, no other key is ever in use: none that is empty or
/// too long, and none with a control character.
pub proof fn law_keys_in_use_stay_valid(
    registry: RegistryView,
    id: u128,
    endpoint: Endpoint,
    role: ClientRole,
    key: Seq<char>,
    text: Seq<char>,
    payload_bytes: usize,
    successful_targets: usize,
    send_errors: usize,
    now: u64,
)
    requires
        keys_are_valid(registry),
    ensures
        key_problem(key) is None ==> keys_are_valid(registry.connected(role, key, text, id, now)),
        keys_are_valid(registry.disconnected(id, text, now)),
        keys_are_valid(registry.control_heartbeat(id, now)),
        keys_are_valid(registry.udp_registered(id, endpoint, now)),
        keys_are_valid(registry.udp_heartbeat(id, endpoint, now)),
        keys_are_valid(registry.audio_received(id, endpoint, payload_bytes, now)),
        keys_are_valid(registry.send_error(id, now)),
        keys_are_valid(
            registry.audio_sent(key, payload_bytes, successful_targets, send_errors, now),
        ),
{
}

/// Whether a stream and a session are the same in two registries.
pub open spec fn untouched(
    before: RegistryView,
    after: RegistryView,
    key: Seq<char>,
    id: u128,
) -> bool {
    &&& after.streams.contains_key(key)
    &&& after.streams[key] == before.streams[key]
    &&& after.sessions.contains_key(id)
    &&& after.sessions[id] == before.sessions[id]
}

/// A client that comes and goes leaves the sessions as they were, and the streams with the same
/// sessions; where it was alone under its key, nothing at all remains of it.
pub proof fn law_coming_and_going_leaves_no_session(
    registry: RegistryView,
    role: ClientRole,
    key: Seq<char>,
    tcp_peer_addr: Seq<char>,
    id: u128,
    reason: Seq<char>,
    came_at: u64,
    left_at: u64,
)
    requires
        registry.consistent(),
        !registry.sessions.contains_key(id),
        role == ClientRole::Publisher ==> !registry.has_publisher(key),
    ensures
        ({
            let after = registry.connected(role, key, tcp_peer_addr, id, came_at).disconnected(
                id,
                reason,
                left_at,
            );
            &&& after.sessions == registry.sessions
            &&& after.streams.dom() == registry.streams.dom()
            &&& forall|k: Seq<char>| #[trigger]
                registry.streams.contains_key(k) ==> {
                    &&& after.streams[k].publisher_session == registry.streams[k].publisher_session
                    &&& after.streams[k].subscribers == registry.streams[k].subscribers
                    &&& k != key ==> after.streams[k] == registry.streams[k]
                }
            &&& !registry.streams.contains_key(key) ==> after == registry
        }),
{
    let during = registry.connected(role, key, tcp_peer_addr, id, came_at);
    let after = during.disconnected(id, reason, left_at);
    law_connecting_keeps_consistency(registry, role, key, tcp_peer_addr, id, came_at);
    assert(after.sessions =~= registry.sessions);
    let before_stream = registry.stream_or_fresh(key, came_at);
    let stream = before_stream.connected(role, id, came_at).disconnected(role, id, reason, left_at);
    if registry.streams.contains_key(key) {
        assert(!before_stream.lists(role, id));
        assert(stream.publisher_session == before_stream.publisher_session);
        assert(stream.subscribers =~= before_stream.subscribers);
        assert(!before_stream.is_deserted());
        assert(!stream.is_deserted());
        assert(after.streams.dom() =~= registry.streams.dom());
    } else {
        assert(stream.subscribers =~= Set::empty());
        assert(stream.is_deserted());
        assert(after.streams =~= registry.streams);
        assert(after =~= registry);
    }
}

proof fn lemma_sums_compare(
    streams: Seq<StreamSnapshot>,
    smaller: spec_fn(StreamSnapshot) -> int,
    larger: spec_fn(StreamSnapshot) -> int,
)
    requires
        forall|i: int|
            0 <= i < streams.len() ==> smaller(#[trigger] streams[i]) <= larger(streams[i]),
    ensures
        sum_over(streams, smaller) <= sum_over(streams, larger),
    decreases streams.len(),
{
    if streams.len() > 0 {
        let shorter = streams.drop_last();
        assert forall|i: int| 0 <= i < shorter.len() implies smaller(#[trigger] shorter[i])
            <= larger(shorter[i]) by {
            assert(shorter[i] == streams[i]);
        }
        lemma_sums_compare(shorter, smaller, larger);
        assert(streams[streams.len() - 1] == streams.last());
    }
}

proof fn lemma_sum_of_ones(streams: Seq<StreamSnapshot>)
    ensures
        sum_over(streams, |s: StreamSnapshot| 1int) == streams.len(),
    decreases streams.len(),
{
    if streams.len() > 0 {
        lemma_sum_of_ones(streams.drop_last());
    }
}

/// What a status query sees fits together: no more sessions are active than connected, stream by
/// stream and in all; no more publishers than streams; and publishers and subscribers together
/// are all sessions.
pub proof fn law_snapshot_fits_together(
    snapshot: RegistrySnapshot,
    registry: RegistryView,
    now: u64,
)
    requires
        registry.consistent(),
        is_snapshot(snapshot, registry, now),
        totals_are_sums(snapshot),
    ensures
        forall|i: int|
            0 <= i < snapshot.streams@.len() ==> {
                let stream = #[trigger] snapshot.streams@[i];
                &&& stream.publisher_udp_registered ==> stream.publisher_control_connected
                &&& stream.subscriber_udp_registered_count <= stream.subscriber_count
            },
        snapshot.active_udp_publisher_count <= snapshot.active_publisher_count,
        snapshot.active_udp_subscriber_count <= snapshot.active_subscriber_count,
        snapshot.active_publisher_count <= snapshot.stream_count,
        snapshot.active_publisher_count + snapshot.active_subscriber_count
            == registry.sessions.dom().len(),
{
    let streams = snapshot.streams@;
    assert forall|i: int| 0 <= i < streams.len() implies {
        let stream = #[trigger] streams[i];
        &&& stream.publisher_udp_registered ==> stream.publisher_control_connected
        &&& stream.subscriber_udp_registered_count <= stream.subscriber_count
    } by {
        let key = streams[i].key@;
        assert(snapshot_keys(streams)[i] == key);
        assert(snapshot_keys(streams).to_set().contains(key));
        assert(registry.streams.contains_key(key));
        let subscribers = registry.streams[key].subscribers;
        assert forall|id: u128| #[trigger] subscribers.contains(id) implies registry.sessions.dom().contains(
            id,
        ) by {
            assert(registry.streams[key].lists(ClientRole::Subscriber, id));
        }
        assert(subscribers.subset_of(registry.sessions.dom()));
        lemma_set_subset_finite(registry.sessions.dom(), subscribers);
        assert(registry.active_subscribers(key, now).subset_of(subscribers));
        lemma_len_subset(registry.active_subscribers(key, now), subscribers);
    }
    let connected = |s: StreamSnapshot| one_if(s.publisher_control_connected);
    let subscribed = |s: StreamSnapshot| s.subscriber_count as int;
    let registered = |s: StreamSnapshot| one_if(s.publisher_udp_registered);
    let active = |s: StreamSnapshot| s.subscriber_udp_registered_count as int;
    let one = |s: StreamSnapshot| 1int;
    lemma_sums_compare(streams, registered, connected);
    lemma_sums_compare(streams, active, subscribed);
    lemma_sums_compare(streams, connected, one);
    lemma_sum_of_ones(streams);
    let publishers = registry.sessions_of(ClientRole::Publisher);
    let others = registry.sessions_of(ClientRole::Subscriber);
    assert(publishers.subset_of(registry.sessions.dom()));
    assert(others.subset_of(registry.sessions.dom()));
    lemma_set_subset_finite(registry.sessions.dom(), publishers);
    lemma_set_subset_finite(registry.sessions.dom(), others);
    assert(publishers.disjoint(others));
    assert(publishers + others =~= registry.sessions.dom());
    lemma_set_disjoint_lens(publishers, others);
}

/// A subscriber is asked about as of now: one whose endpoint, as far as the clock was ever read to
/// show, has been silent for the timeout or longer is not active; and one whose endpoint has been
/// silent for less is.
pub proof fn law_target_is_judged_by_the_clock(
    registry: StreamRegistry,
    session_id: SessionId,
    endpoint: Endpoint,
    last_seen: u64,
    active: bool,
)
    requires
        registry.inv(),
        call_ensures(
            StreamRegistry::subscriber_target_is_active,
            (&registry, session_id, endpoint),
            active,
        ),
        registry@.sessions.contains_key(session_id@),
        registry@.sessions[session_id@].udp_last_seen_unix_ms == Some(last_seen),
    ensures
        (forall|now: u64| #[trigger]
            clock_shows(now) ==> now - last_seen >= registry@.udp_session_timeout_ms) ==> !active,
        (forall|now: u64| #[trigger]
            clock_shows(now) ==> now - last_seen < registry@.udp_session_timeout_ms)
            && registry@.udp_session_timeout_ms > 0
            && registry@.sessions[session_id@].role == ClientRole::Subscriber
            && registry@.sessions[session_id@].udp_endpoint == Some(endpoint) ==> active,
        active ==> exists|now: u64| #[trigger]
            clock_shows(now) && now - last_seen < registry@.udp_session_timeout_ms,
{
}

/// A status query is answered as of now: with a time that the clock was read to show.
pub proof fn law_report_is_dated_by_the_clock(
    registry: StreamRegistry,
    snapshot: RegistrySnapshot,
)
    requires
        registry.inv(),
        call_ensures(StreamRegistry::snapshot, (&registry,), snapshot),
    ensures
        clock_shows(snapshot.generated_at_unix_ms),
        is_snapshot(snapshot, registry@, snapshot.generated_at_unix_ms),
{
}

/// Whether the limits and the counts of useless packets are the same in two registries.
pub open spec fn same_frame(before: RegistryView, after: RegistryView) -> bool {
    &&& after.udp_session_timeout_ms == before.udp_session_timeout_ms
    &&& after.invalid_udp_packets_total == before.invalid_udp_packets_total
    &&& after.unknown_udp_session_packets_total == before.unknown_udp_session_packets_total
}

/// What each operation makes of the sessions: a client that connects is there with its role, key
/// and peer, without an endpoint; one that leaves is gone; a registration gives its session the
/// endpoint, and a packet that counts the time; everything else leaves the sessions as they are.
pub proof fn law_sessions_change_one_by_one(
    registry: RegistryView,
    role: ClientRole,
    key: Seq<char>,
    text: Seq<char>,
    id: u128,
    endpoint: Endpoint,
    payload_bytes: usize,
    successful_targets: usize,
    send_errors: usize,
    now: u64,
)
    ensures
        registry.connected(role, key, text, id, now).sessions == registry.sessions.insert(
            id,
            SessionView {
                role,
                key,
                tcp_peer_addr: text,
                udp_endpoint: None,
                udp_last_seen_unix_ms: None,
            },
        ),
        registry.disconnected(id, text, now).sessions == registry.sessions.remove(id),
        registry.sessions.contains_key(id) ==> registry.udp_registered(id, endpoint, now).sessions
            == registry.sessions.insert(
            id,
            SessionView {
                udp_endpoint: Some(endpoint),
                udp_last_seen_unix_ms: Some(now),
                ..registry.sessions[id]
            },
        ),
        heartbeat_result(registry, id, endpoint, now) is Ok ==> registry.udp_heartbeat(
            id,
            endpoint,
            now,
        ).sessions == registry.sessions.insert(
            id,
            SessionView { udp_last_seen_unix_ms: Some(now), ..registry.sessions[id] },
        ),
        audio_refusal(registry, id, endpoint, now) is None ==> registry.audio_received(
            id,
            endpoint,
            payload_bytes,
            now,
        ).sessions == registry.sessions.insert(
            id,
            SessionView { udp_last_seen_unix_ms: Some(now), ..registry.sessions[id] },
        ),
        registry.control_heartbeat(id, now).sessions == registry.sessions,
        registry.send_error(id, now).sessions == registry.sessions,
        registry.audio_sent(key, payload_bytes, successful_targets, send_errors, now).sessions
            == registry.sessions,
        registry.invalid_packet().sessions == registry.sessions,
        registry.unknown_session().sessions == registry.sessions,
        same_frame(registry, registry.connected(role, key, text, id, now)),
        same_frame(registry, registry.disconnected(id, text, now)),
        same_frame(registry, registry.udp_registered(id, endpoint, now)),
        same_frame(registry, registry.udp_heartbeat(id, endpoint, now)),
        same_frame(registry, registry.audio_received(id, endpoint, payload_bytes, now)),
        same_frame(registry, registry.control_heartbeat(id, now)),
        same_frame(registry, registry.send_error(id, now)),
        same_frame(
            registry,
            registry.audio_sent(key, payload_bytes, successful_targets, send_errors, now),
        ),
{
    if !registry.sessions.contains_key(id) {
        assert(registry.sessions.remove(id) =~= registry.sessions);
    }
}

/// Packets that are none, and packets that name no session, are counted one by one, each in its
/// own place and around at 2^64; nothing else changes.
pub proof fn law_useless_packets_are_counted(registry: RegistryView)
    ensures
        registry.invalid_packet() == (RegistryView {
            invalid_udp_packets_total: ((registry.invalid_udp_packets_total + 1)
                % 0x1_0000_0000_0000_0000) as u64,
            ..registry
        }),
        registry.unknown_session() == (RegistryView {
            unknown_udp_session_packets_total: ((registry.unknown_udp_session_packets_total + 1)
                % 0x1_0000_0000_0000_0000) as u64,
            ..registry
        }),
        RegistryView::fresh(registry.udp_session_timeout_ms) == (RegistryView {
            sessions: Map::empty(),
            streams: Map::empty(),
            invalid_udp_packets_total: 0,
            unknown_udp_session_packets_total: 0,
            udp_session_timeout_ms: registry.udp_session_timeout_ms,
        }),
{
}

/// What becomes of a pass shows under its key alone, and traffic makes no stream come or go.
pub proof fn law_traffic_stays_under_its_key(
    registry: RegistryView,
    key: Seq<char>,
    other: Seq<char>,
    id: u128,
    endpoint: Endpoint,
    payload_bytes: usize,
    successful_targets: usize,
    send_errors: usize,
    now: u64,
)
    requires
        registry.consistent(),
        other != key,
    ensures
        ({
            let after = registry.audio_sent(
                key,
                payload_bytes,
                successful_targets,
                send_errors,
                now,
            );
            &&& after.streams.dom() == registry.streams.dom()
            &&& after.streams[other] == registry.streams[other]
            &&& !registry.streams.contains_key(key) ==> after == registry
        }),
        registry.udp_registered(id, endpoint, now).streams.dom() == registry.streams.dom(),
        registry.udp_heartbeat(id, endpoint, now).streams.dom() == registry.streams.dom(),
        registry.audio_received(id, endpoint, payload_bytes, now).streams.dom()
            == registry.streams.dom(),
        registry.control_heartbeat(id, now).streams.dom() == registry.streams.dom(),
        registry.send_error(id, now).streams.dom() == registry.streams.dom(),
{
    assert(registry.audio_sent(
        key,
        payload_bytes,
        successful_targets,
        send_errors,
        now,
    ).streams.dom() =~= registry.streams.dom());
    assert(registry.udp_registered(id, endpoint, now).streams.dom() =~= registry.streams.dom());
    assert(registry.udp_heartbeat(id, endpoint, now).streams.dom() =~= registry.streams.dom());
    assert(registry.audio_received(id, endpoint, payload_bytes, now).streams.dom()
        =~= registry.streams.dom());
    assert(registry.control_heartbeat(id, now).streams.dom() =~= registry.streams.dom());
    assert(registry.send_error(id, now).streams.dom() =~= registry.streams.dom());
}

/// Whether the endpoint of a session has been heard of within the timeout.
pub open spec fn heard_in_time(registry: RegistryView, id: u128, now: u64) -> bool {
    &&& registry.sessions[id].udp_endpoint is Some
    &&& registry.sessions[id].udp_last_seen_unix_ms matches Some(seen)
    &&& registry.udp_session_timeout_ms > 0
    &&& now - seen < registry.udp_session_timeout_ms
}

/// Whether a session is under a key.
pub open spec fn is_in_use(registry: RegistryView, key: Seq<char>) -> bool {
    exists|id: u128| #[trigger]
        registry.sessions.contains_key(id) && registry.sessions[id].key == key
}

/// The sessions of a role under a key.
pub open spec fn members(registry: RegistryView, role: ClientRole, key: Seq<char>) -> Set<u128> {
    Set::new(
        |id: u128|
            registry.sessions.contains_key(id) && registry.sessions[id].role == role
                && registry.sessions[id].key == key,
    )
}

/// The sessions of a role under a key whose endpoints have been heard of within the timeout.
pub open spec fn heard_members(
    registry: RegistryView,
    role: ClientRole,
    key: Seq<char>,
    now: u64,
) -> Set<u128> {
    Set::new(
        |id: u128|
            registry.sessions.contains_key(id) && registry.sessions[id].role == role
                && registry.sessions[id].key == key && heard_in_time(registry, id, now),
    )
}

/// What a status query counts are the sessions: in all, by their roles, and those whose endpoints
/// have been heard of within the timeout. There is one row for each key that a session is under.
pub proof fn law_report_counts_the_sessions(
    registry: RegistryView,
    snapshot: RegistrySnapshot,
    now: u64,
)
    requires
        registry.consistent(),
        is_snapshot(snapshot, registry, now),
    ensures
        snapshot.generated_at_unix_ms == now,
        snapshot.invalid_udp_packets_total == registry.invalid_udp_packets_total,
        snapshot.unknown_udp_session_packets_total == registry.unknown_udp_session_packets_total,
        snapshot.active_publisher_count == Set::new(
            |id: u128|
                registry.sessions.contains_key(id) && registry.sessions[id].role
                    == ClientRole::Publisher,
        ).len(),
        snapshot.active_subscriber_count == Set::new(
            |id: u128|
                registry.sessions.contains_key(id) && registry.sessions[id].role
                    == ClientRole::Subscriber,
        ).len(),
        snapshot.active_udp_publisher_count == Set::new(
            |id: u128|
                registry.sessions.contains_key(id) && registry.sessions[id].role
                    == ClientRole::Publisher && heard_in_time(registry, id, now),
        ).len(),
        snapshot.active_udp_subscriber_count == Set::new(
            |id: u128|
                registry.sessions.contains_key(id) && registry.sessions[id].role
                    == ClientRole::Subscriber && heard_in_time(registry, id, now),
        ).len(),
        snapshot.stream_count == snapshot.streams@.len(),
        forall|i: int, j: int|
            0 <= i < j < snapshot.streams@.len() ==> (#[trigger] snapshot.streams@[i]).key@ != (
            #[trigger] snapshot.streams@[j]).key@,
        forall|id: u128| #[trigger]
            registry.sessions.contains_key(id) ==> exists|i: int|
                0 <= i < snapshot.streams@.len() && (#[trigger] snapshot.streams@[i]).key@
                    == registry.sessions[id].key,
        forall|i: int|
            0 <= i < snapshot.streams@.len() ==> is_in_use(
                registry,
                (#[trigger] snapshot.streams@[i]).key@,
            ),
{
    assert(registry.sessions_of(ClientRole::Publisher) =~= Set::new(
        |id: u128|
            registry.sessions.contains_key(id) && registry.sessions[id].role
                == ClientRole::Publisher,
    ));
    assert(registry.sessions_of(ClientRole::Subscriber) =~= Set::new(
        |id: u128|
            registry.sessions.contains_key(id) && registry.sessions[id].role
                == ClientRole::Subscriber,
    ));
    assert(registry.active_sessions_of(ClientRole::Publisher, now) =~= Set::new(
        |id: u128|
            registry.sessions.contains_key(id) && registry.sessions[id].role
                == ClientRole::Publisher && heard_in_time(registry, id, now),
    ));
    assert(registry.active_sessions_of(ClientRole::Subscriber, now) =~= Set::new(
        |id: u128|
            registry.sessions.contains_key(id) && registry.sessions[id].role
                == ClientRole::Subscriber && heard_in_time(registry, id, now),
    ));
    let rows = snapshot.streams@;
    let keys = snapshot_keys(rows);
    assert forall|i: int, j: int| 0 <= i < j < rows.len() implies (#[trigger] rows[i]).key@ != (
    #[trigger] rows[j]).key@ by {
        assert(text_before(rows[i].key@, rows[j].key@));
        lemma_text_order_is_strict(rows[i].key@, rows[i].key@);
    }
    assert forall|id: u128| #[trigger] registry.sessions.contains_key(id) implies exists|i: int|
        0 <= i < rows.len() && (#[trigger] rows[i]).key@ == registry.sessions[id].key by {
        assert(keys.to_set().contains(registry.sessions[id].key));
        let i = choose|i: int| 0 <= i < keys.len() && keys[i] == registry.sessions[id].key;
        assert(rows[i].key@ == keys[i]);
    }
    assert forall|i: int| 0 <= i < rows.len() implies is_in_use(
        registry,
        (#[trigger] rows[i]).key@,
    ) by {
        assert(keys[i] == rows[i].key@);
        assert(keys.to_set().contains(rows[i].key@));
        law_stream_exists_while_in_use(registry, rows[i].key@);
    }
}

/// What a status query counts under a key are the sessions under that key.
pub proof fn law_row_counts_its_sessions(
    registry: RegistryView,
    snapshot: RegistrySnapshot,
    now: u64,
    i: int,
)
    requires
        registry.consistent(),
        is_snapshot(snapshot, registry, now),
        0 <= i < snapshot.streams@.len(),
    ensures
        ({
            let row = snapshot.streams@[i];
            let key = row.key@;
            &&& row.publisher_control_connected <==> exists|id: u128| #[trigger]
                members(registry, ClientRole::Publisher, key).contains(id)
            &&& row.publisher_udp_registered <==> exists|id: u128| #[trigger]
                heard_members(registry, ClientRole::Publisher, key, now).contains(id)
            &&& row.subscriber_count == members(registry, ClientRole::Subscriber, key).len()
            &&& row.subscriber_udp_registered_count == heard_members(
                registry,
                ClientRole::Subscriber,
                key,
                now,
            ).len()
        }),
{
    let row = snapshot.streams@[i];
    let key = row.key@;
    assert(snapshot_keys(snapshot.streams@)[i] == key);
    assert(snapshot_keys(snapshot.streams@).to_set().contains(key));
    let stream = registry.streams[key];
    assert forall|id: u128|
        members(registry, ClientRole::Subscriber, key).contains(id) == stream.subscribers.contains(
            id,
        ) by {
        if registry.sessions.contains_key(id) && registry.sessions[id].key == key {
            assert(stream.lists(registry.sessions[id].role, id));
        }
        assert(stream.lists(ClientRole::Subscriber, id) == stream.subscribers.contains(id));
    }
    assert(members(registry, ClientRole::Subscriber, key) =~= stream.subscribers);
    assert(heard_members(registry, ClientRole::Subscriber, key, now)
        =~= registry.active_subscribers(key, now)) by {
        assert forall|id: u128|
            heard_members(registry, ClientRole::Subscriber, key, now).contains(id)
                == registry.active_subscribers(key, now).contains(id) by {
            assert(members(registry, ClientRole::Subscriber, key).contains(id)
                == stream.subscribers.contains(id));
        }
    }
    if stream.publisher_session is Some {
        let id = stream.publisher_session->0;
        assert(stream.lists(ClientRole::Publisher, id));
        assert(members(registry, ClientRole::Publisher, key).contains(id));
        assert(heard_members(registry, ClientRole::Publisher, key, now).contains(id)
            == registry.is_active(id, now));
    }
    assert forall|id: u128| #[trigger]
        members(registry, ClientRole::Publisher, key).contains(id) implies stream.publisher_session
        == Some(id) by {
        assert(stream.lists(registry.sessions[id].role, id));
    }
    assert forall|id: u128| #[trigger]
        heard_members(registry, ClientRole::Publisher, key, now).contains(id) implies members(
        registry,
        ClientRole::Publisher,
        key,
    ).contains(id) by {}
}

/// A stream lists who connected and did not leave.
pub proof fn law_streams_list_who_is_there(stream: StreamView, role: ClientRole, id: u128, now: u64)
    ensures
        stream.connected(role, id, now).lists(role, id),
        forall|reason: Seq<char>| !#[trigger] stream.disconnected(role, id, reason, now).lists(
            role,
            id,
        ),
        forall|other: u128, r: ClientRole|
            other != id && r == ClientRole::Subscriber ==> #[trigger] stream.connected(
                role,
                id,
                now,
            ).lists(r, other) == stream.lists(r, other),
        forall|other: u128, r: ClientRole, reason: Seq<char>|
            other != id ==> #[trigger] stream.disconnected(role, id, reason, now).lists(r, other)
                == stream.lists(r, other),
{
}

/// The rows of a report go up by the bytes of their keys.
pub proof fn law_report_is_in_order(
    registry: RegistryView,
    snapshot: RegistrySnapshot,
    now: u64,
    i: int,
    j: int,
)
    requires
        is_snapshot(snapshot, registry, now),
        0 <= i < j < snapshot.streams@.len(),
    ensures
        bytes_before(
            encode_utf8(snapshot.streams@[i].key@),
            encode_utf8(snapshot.streams@[j].key@),
        ),
{
}

/// An endpoint is active exactly if there is one, it was heard of, and that was less than the
/// timeout ago; and it is that endpoint.
pub proof fn law_endpoint_is_active_within_the_timeout(
    endpoint: Option<Endpoint>,
    last_seen: Option<u64>,
    now: u64,
    timeout_ms: u64,
    active: Option<Endpoint>,
)
    requires
        call_ensures(active_udp_endpoint, (endpoint, last_seen, now, timeout_ms), active),
    ensures
        active is Some <==> endpoint is Some && timeout_ms > 0 && (last_seen matches Some(seen)
            && now - seen < timeout_ms),
        active is Some ==> active == endpoint,
{
}

/// A sender is accepted exactly if it is the registered endpoint of the session, heard of less
/// than the timeout ago.
pub proof fn law_sender_is_the_registered_endpoint(
    session: SessionEntry,
    source: Endpoint,
    now: u64,
    timeout_ms: u64,
    result: Result<(), UdpEndpointValidationError>,
)
    requires
        call_ensures(ensure_udp_endpoint_matches, (&session, source, now, timeout_ms), result),
    ensures
        result is Ok <==> session.udp_endpoint == Some(source) && timeout_ms > 0 && (
        session.udp_last_seen_unix_ms matches Some(seen) && now - seen < timeout_ms),
        session.udp_endpoint is None ==> result == Err::<(), UdpEndpointValidationError>(
            UdpEndpointValidationError::NotRegistered,
        ),
        session.udp_endpoint is Some && session.udp_endpoint != Some(source) ==> result == Err::<
            (),
            UdpEndpointValidationError,
        >(UdpEndpointValidationError::EndpointMismatch),
        session.udp_endpoint == Some(source) && (session.udp_last_seen_unix_ms matches Some(seen)
            && now - seen >= timeout_ms) ==> result == Err::<(), UdpEndpointValidationError>(
            UdpEndpointValidationError::EndpointExpired,
        ),
{
}

} // verus!
