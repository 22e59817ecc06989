//! What the registry of sessions and streams is, and what each operation makes of it.

use vstd::prelude::*;
use vstd::set_lib::*;

use crate::clock::clock_shows;
use crate::endpoint::Endpoint;
use crate::protocol::ClientRole;

verus! {

/// Why a packet does not come from the endpoint that speaks for a session.
#[derive(Clone, Copy, Debug, PartialEq, Eq, Structural)]
pub enum UdpEndpointValidationError {
    NotRegistered,
    EndpointMismatch,
    EndpointExpired,
}

/// A client with an established control connection.
#[verifier::ext_equal]
pub struct SessionView {
    pub role: ClientRole,
    pub key: Seq<char>,
    pub tcp_peer_addr: Seq<char>,
    pub udp_endpoint: Option<Endpoint>,
    pub udp_last_seen_unix_ms: Option<u64>,
}

/// The time that has passed since something was last seen. A clock that went back counts as no
/// time at all.
pub open spec fn elapsed_ms(last_seen: u64, now: u64) -> int {
    if now < last_seen {
        0
    } else {
        now - last_seen
    }
}

/// Whether something last seen at one time still counts at another: until the timeout has passed.
pub open spec fn is_recent(last_seen: u64, now: u64, timeout_ms: u64) -> bool {
    elapsed_ms(last_seen, now) < timeout_ms
}

/// The endpoint of a session as long as it counts.
pub open spec fn active_endpoint(
    endpoint: Option<Endpoint>,
    last_seen: Option<u64>,
    now: u64,
    timeout_ms: u64,
) -> Option<Endpoint> {
    if endpoint is Some && last_seen is Some && is_recent(last_seen->0, now, timeout_ms) {
        endpoint
    } else {
        None
    }
}

impl SessionView {
    /// A session whose control connection was just established.
    pub open spec fn fresh(role: ClientRole, key: Seq<char>, tcp_peer_addr: Seq<char>) -> SessionView {
        SessionView {
            role,
            key,
            tcp_peer_addr,
            udp_endpoint: None,
            udp_last_seen_unix_ms: None,
        }
    }

    /// The endpoint that speaks for the session, as long as it counts.
    pub open spec fn active_endpoint(self, now: u64, timeout_ms: u64) -> Option<Endpoint> {
        active_endpoint(self.udp_endpoint, self.udp_last_seen_unix_ms, now, timeout_ms)
    }

    /// What stands against a packet from an endpoint, if anything does.
    pub open spec fn endpoint_problem(
        self,
        source: Endpoint,
        now: u64,
        timeout_ms: u64,
    ) -> Option<UdpEndpointValidationError> {
        if self.udp_endpoint is None {
            Some(UdpEndpointValidationError::NotRegistered)
        } else if self.udp_endpoint->0 != source {
            Some(UdpEndpointValidationError::EndpointMismatch)
        } else if self.udp_last_seen_unix_ms is None {
            Some(UdpEndpointValidationError::NotRegistered)
        } else if !is_recent(self.udp_last_seen_unix_ms->0, now, timeout_ms) {
            Some(UdpEndpointValidationError::EndpointExpired)
        } else {
            None
        }
    }

    /// The session once its endpoint was heard of.
    pub open spec fn seen(self, now: u64) -> SessionView {
        SessionView { udp_last_seen_unix_ms: Some(now), ..self }
    }

    /// The session once an endpoint speaks for it.
    pub open spec fn bound_to(self, endpoint: Endpoint, now: u64) -> SessionView {
        SessionView { udp_endpoint: Some(endpoint), udp_last_seen_unix_ms: Some(now), ..self }
    }
}

/// The sessions under one key, and what was counted there. Counters wrap around.
#[verifier::ext_equal]
pub struct StreamView {
    pub publisher_session: Option<u128>,
    pub subscribers: Set<u128>,
    pub publisher_connections_total: u64,
    pub subscriber_connections_total: u64,
    pub publisher_tcp_heartbeats_total: u64,
    pub subscriber_tcp_heartbeats_total: u64,
    pub publisher_udp_registers_total: u64,
    pub subscriber_udp_registers_total: u64,
    pub publisher_udp_heartbeats_total: u64,
    pub subscriber_udp_heartbeats_total: u64,
    pub udp_audio_packets_in_total: u64,
    pub udp_audio_bytes_in_total: u64,
    pub udp_audio_packets_out_total: u64,
    pub udp_audio_bytes_out_total: u64,
    pub udp_send_errors_total: u64,
    pub last_activity_unix_ms: u64,
    pub last_publisher_disconnect_reason: Option<Seq<char>>,
    pub last_subscriber_disconnect_reason: Option<Seq<char>>,
}

impl StreamView {
    /// A stream without sessions.
    pub open spec fn fresh(now: u64) -> StreamView {
        StreamView {
            publisher_session: None,
            subscribers: Set::empty(),
            publisher_connections_total: 0,
            subscriber_connections_total: 0,
            publisher_tcp_heartbeats_total: 0,
            subscriber_tcp_heartbeats_total: 0,
            publisher_udp_registers_total: 0,
            subscriber_udp_registers_total: 0,
            publisher_udp_heartbeats_total: 0,
            subscriber_udp_heartbeats_total: 0,
            udp_audio_packets_in_total: 0,
            udp_audio_bytes_in_total: 0,
            udp_audio_packets_out_total: 0,
            udp_audio_bytes_out_total: 0,
            udp_send_errors_total: 0,
            last_activity_unix_ms: now,
            last_publisher_disconnect_reason: None,
            last_subscriber_disconnect_reason: None,
        }
    }

    /// Whether no session is left.
    pub open spec fn is_deserted(self) -> bool {
        self.publisher_session is None && self.subscribers == Set::<u128>::empty()
    }

    /// Whether the stream lists a session under a role.
    pub open spec fn lists(self, role: ClientRole, id: u128) -> bool {
        match role {
            ClientRole::Publisher => self.publisher_session == Some(id),
            ClientRole::Subscriber => self.subscribers.contains(id),
        }
    }

    /// The stream once a session has connected.
    pub open spec fn connected(self, role: ClientRole, id: u128, now: u64) -> StreamView {
        match role {
            ClientRole::Publisher => StreamView {
                publisher_session: Some(id),
                publisher_connections_total: self.publisher_connections_total.wrapping_add(1),
                last_activity_unix_ms: now,
                ..self
            },
            ClientRole::Subscriber => StreamView {
                subscribers: self.subscribers.insert(id),
                subscriber_connections_total: self.subscriber_connections_total.wrapping_add(1),
                last_activity_unix_ms: now,
                ..self
            },
        }
    }

    /// The stream once a session has left.
    pub open spec fn disconnected(
        self,
        role: ClientRole,
        id: u128,
        reason: Seq<char>,
        now: u64,
    ) -> StreamView {
        match role {
            ClientRole::Publisher => StreamView {
                publisher_session: if self.publisher_session == Some(id) {
                    None
                } else {
                    self.publisher_session
                },
                last_publisher_disconnect_reason: Some(reason),
                last_activity_unix_ms: now,
                ..self
            },
            ClientRole::Subscriber => StreamView {
                subscribers: self.subscribers.remove(id),
                last_subscriber_disconnect_reason: Some(reason),
                last_activity_unix_ms: now,
                ..self
            },
        }
    }

    /// The stream with one more heartbeat on a control connection.
    pub open spec fn control_heartbeat(self, role: ClientRole, now: u64) -> StreamView {
        match role {
            ClientRole::Publisher => StreamView {
                publisher_tcp_heartbeats_total: self.publisher_tcp_heartbeats_total.wrapping_add(1),
                last_activity_unix_ms: now,
                ..self
            },
            ClientRole::Subscriber => StreamView {
                subscriber_tcp_heartbeats_total: self.subscriber_tcp_heartbeats_total.wrapping_add(
                    1,
                ),
                last_activity_unix_ms: now,
                ..self
            },
        }
    }

    /// The stream with one more registration of an endpoint.
    pub open spec fn udp_register(self, role: ClientRole, now: u64) -> StreamView {
        match role {
            ClientRole::Publisher => StreamView {
                publisher_udp_registers_total: self.publisher_udp_registers_total.wrapping_add(1),
                last_activity_unix_ms: now,
                ..self
            },
            ClientRole::Subscriber => StreamView {
                subscriber_udp_registers_total: self.subscriber_udp_registers_total.wrapping_add(1),
                last_activity_unix_ms: now,
                ..self
            },
        }
    }

    /// The stream with one more UDP heartbeat.
    pub open spec fn udp_heartbeat(self, role: ClientRole, now: u64) -> StreamView {
        match role {
            ClientRole::Publisher => StreamView {
                publisher_udp_heartbeats_total: self.publisher_udp_heartbeats_total.wrapping_add(1),
                last_activity_unix_ms: now,
                ..self
            },
            ClientRole::Subscriber => StreamView {
                subscriber_udp_heartbeats_total: self.subscriber_udp_heartbeats_total.wrapping_add(
                    1,
                ),
                last_activity_unix_ms: now,
                ..self
            },
        }
    }

    /// The stream with one more audio packet received.
    pub open spec fn audio_in(self, payload_bytes: usize, now: u64) -> StreamView {
        StreamView {
            udp_audio_packets_in_total: self.udp_audio_packets_in_total.wrapping_add(1),
            udp_audio_bytes_in_total: self.udp_audio_bytes_in_total.wrapping_add(
                payload_bytes as u64,
            ),
            last_activity_unix_ms: now,
            ..self
        }
    }

    /// The stream with one more packet that could not be sent.
    pub open spec fn send_error(self, now: u64) -> StreamView {
        StreamView {
            udp_send_errors_total: self.udp_send_errors_total.wrapping_add(1),
            last_activity_unix_ms: now,
            ..self
        }
    }

    /// The stream with one more audio packet passed on, to some targets with success and to
    /// others without.
    pub open spec fn audio_out(
        self,
        payload_bytes: usize,
        successful_targets: usize,
        send_errors: usize,
        now: u64,
    ) -> StreamView {
        StreamView {
            udp_audio_packets_out_total: self.udp_audio_packets_out_total.wrapping_add(
                successful_targets as u64,
            ),
            udp_audio_bytes_out_total: self.udp_audio_bytes_out_total.wrapping_add(
                (payload_bytes as u64).wrapping_mul(successful_targets as u64),
            ),
            udp_send_errors_total: self.udp_send_errors_total.wrapping_add(send_errors as u64),
            last_activity_unix_ms: now,
            ..self
        }
    }
}

/// All sessions by their ids, and all streams by their keys.
#[verifier::ext_equal]
pub struct RegistryView {
    pub sessions: Map<u128, SessionView>,
    pub streams: Map<Seq<char>, StreamView>,
    pub invalid_udp_packets_total: u64,
    pub unknown_udp_session_packets_total: u64,
    pub udp_session_timeout_ms: u64,
}

impl RegistryView {
    /// The registry before anyone connects.
    pub open spec fn fresh(udp_session_timeout_ms: u64) -> RegistryView {
        RegistryView {
            sessions: Map::empty(),
            streams: Map::empty(),
            invalid_udp_packets_total: 0,
            unknown_udp_session_packets_total: 0,
            udp_session_timeout_ms,
        }
    }

    /// Whether the streams list exactly the sessions, each under its key and in its role; no
    /// stream is deserted; and an endpoint is there where a time of its last packet is.
    pub open spec fn consistent(self) -> bool {
        &&& self.sessions.dom().finite()
        &&& forall|id: u128| #[trigger]
            self.sessions.contains_key(id) ==> {
                let session = self.sessions[id];
                &&& self.streams.contains_key(session.key)
                &&& self.streams[session.key].lists(session.role, id)
                &&& session.udp_endpoint is Some <==> session.udp_last_seen_unix_ms is Some
            }
        &&& forall|key: Seq<char>, role: ClientRole, id: u128|
            self.streams.contains_key(key) && #[trigger] self.streams[key].lists(role, id) ==> {
                &&& self.sessions.contains_key(id)
                &&& self.sessions[id].key == key
                &&& self.sessions[id].role == role
            }
        &&& forall|key: Seq<char>| #[trigger]
            self.streams.contains_key(key) ==> !self.streams[key].is_deserted()
    }

    /// Whether a key has a publisher.
    pub open spec fn has_publisher(self, key: Seq<char>) -> bool {
        self.streams.contains_key(key) && self.streams[key].publisher_session is Some
    }

    /// The stream of a key, or a new one.
    pub open spec fn stream_or_fresh(self, key: Seq<char>, now: u64) -> StreamView {
        if self.streams.contains_key(key) {
            self.streams[key]
        } else {
            StreamView::fresh(now)
        }
    }

    /// The registry with another stream under a key that has one; the same registry otherwise.
    pub open spec fn with_stream(self, key: Seq<char>, stream: StreamView) -> RegistryView {
        if self.streams.contains_key(key) {
            RegistryView { streams: self.streams.insert(key, stream), ..self }
        } else {
            self
        }
    }

    /// The registry with another state of a session.
    pub open spec fn with_session(self, id: u128, session: SessionView) -> RegistryView {
        RegistryView { sessions: self.sessions.insert(id, session), ..self }
    }

    /// The registry once a client has connected.
    pub open spec fn connected(
        self,
        role: ClientRole,
        key: Seq<char>,
        tcp_peer_addr: Seq<char>,
        id: u128,
        now: u64,
    ) -> RegistryView {
        RegistryView {
            sessions: self.sessions.insert(id, SessionView::fresh(role, key, tcp_peer_addr)),
            streams: self.streams.insert(
                key,
                self.stream_or_fresh(key, now).connected(role, id, now),
            ),
            ..self
        }
    }

    /// Whether one registry comes of another by connecting a client at the time that the clock
    /// shows.
    pub open spec fn connects(
        self,
        role: ClientRole,
        key: Seq<char>,
        tcp_peer_addr: Seq<char>,
        id: u128,
        after: RegistryView,
    ) -> bool {
        exists|now: u64| #[trigger]
            clock_shows(now) && after == self.connected(role, key, tcp_peer_addr, id, now)
    }

    /// The registry once a client has left: its session is gone, and so is its stream if that is
    /// deserted.
    pub open spec fn disconnected(self, id: u128, reason: Seq<char>, now: u64) -> RegistryView {
        if self.sessions.contains_key(id) {
            let session = self.sessions[id];
            let stream = self.streams[session.key].disconnected(session.role, id, reason, now);
            RegistryView {
                sessions: self.sessions.remove(id),
                streams: if !self.streams.contains_key(session.key) {
                    self.streams
                } else if stream.is_deserted() {
                    self.streams.remove(session.key)
                } else {
                    self.streams.insert(session.key, stream)
                },
                ..self
            }
        } else {
            self
        }
    }

    /// The registry after a heartbeat on a control connection.
    pub open spec fn control_heartbeat(self, id: u128, now: u64) -> RegistryView {
        if self.sessions.contains_key(id) {
            let session = self.sessions[id];
            self.with_stream(
                session.key,
                self.streams[session.key].control_heartbeat(session.role, now),
            )
        } else {
            self
        }
    }

    /// The registry after an endpoint registered for a session.
    pub open spec fn udp_registered(self, id: u128, endpoint: Endpoint, now: u64) -> RegistryView {
        if self.sessions.contains_key(id) {
            let session = self.sessions[id];
            self.with_session(id, session.bound_to(endpoint, now)).with_stream(
                session.key,
                self.streams[session.key].udp_register(session.role, now),
            )
        } else {
            self
        }
    }

    /// The registry after a UDP heartbeat.
    pub open spec fn udp_heartbeat(self, id: u128, endpoint: Endpoint, now: u64) -> RegistryView {
        if self.sessions.contains_key(id) && self.sessions[id].endpoint_problem(
            endpoint,
            now,
            self.udp_session_timeout_ms,
        ) is None {
            let session = self.sessions[id];
            self.with_session(id, session.seen(now)).with_stream(
                session.key,
                self.streams[session.key].udp_heartbeat(session.role, now),
            )
        } else {
            self
        }
    }

    /// Whether a session may send audio from an endpoint.
    pub open spec fn may_send_audio(self, id: u128, endpoint: Endpoint, now: u64) -> bool {
        &&& self.sessions.contains_key(id)
        &&& self.sessions[id].role == ClientRole::Publisher
        &&& self.sessions[id].endpoint_problem(endpoint, now, self.udp_session_timeout_ms) is None
    }

    /// The registry after an audio packet came in.
    pub open spec fn audio_received(
        self,
        id: u128,
        endpoint: Endpoint,
        payload_bytes: usize,
        now: u64,
    ) -> RegistryView {
        if self.may_send_audio(id, endpoint, now) {
            let session = self.sessions[id];
            self.with_session(id, session.seen(now)).with_stream(
                session.key,
                self.streams[session.key].audio_in(payload_bytes, now),
            )
        } else {
            self
        }
    }

    /// Where an audio packet under a key goes: to each subscriber of the key whose endpoint still
    /// counts, at that endpoint.
    pub open spec fn dispatch_targets(self, key: Seq<char>, now: u64) -> Set<(u128, Endpoint)> {
        Set::new(
            |target: (u128, Endpoint)|
                {
                    &&& self.streams.contains_key(key)
                    &&& self.streams[key].subscribers.contains(target.0)
                    &&& self.sessions.contains_key(target.0)
                    &&& self.sessions[target.0].active_endpoint(now, self.udp_session_timeout_ms)
                        == Some(target.1)
                },
        )
    }

    /// Whether audio may still go to a subscriber at an endpoint.
    pub open spec fn is_active_target(self, id: u128, endpoint: Endpoint, now: u64) -> bool {
        &&& self.sessions.contains_key(id)
        &&& self.sessions[id].role == ClientRole::Subscriber
        &&& self.sessions[id].active_endpoint(now, self.udp_session_timeout_ms) == Some(endpoint)
    }

    /// The registry after a packet for a session could not be sent.
    pub open spec fn send_error(self, id: u128, now: u64) -> RegistryView {
        if self.sessions.contains_key(id) {
            let key = self.sessions[id].key;
            self.with_stream(key, self.streams[key].send_error(now))
        } else {
            self
        }
    }

    /// The registry after an audio packet was passed on, or dropped.
    pub open spec fn audio_sent(
        self,
        key: Seq<char>,
        payload_bytes: usize,
        successful_targets: usize,
        send_errors: usize,
        now: u64,
    ) -> RegistryView {
        if successful_targets == 0 && send_errors == 0 {
            self
        } else {
            self.with_stream(
                key,
                self.streams[key].audio_out(payload_bytes, successful_targets, send_errors, now),
            )
        }
    }

    /// The registry after a packet that is none.
    pub open spec fn invalid_packet(self) -> RegistryView {
        RegistryView {
            invalid_udp_packets_total: self.invalid_udp_packets_total.wrapping_add(1),
            ..self
        }
    }

    /// The registry after a packet that names no session.
    pub open spec fn unknown_session(self) -> RegistryView {
        RegistryView {
            unknown_udp_session_packets_total: self.unknown_udp_session_packets_total.wrapping_add(
                1,
            ),
            ..self
        }
    }

    /// Whether the endpoint of a session still counts.
    pub open spec fn is_active(self, id: u128, now: u64) -> bool {
        &&& self.sessions.contains_key(id)
        &&& self.sessions[id].active_endpoint(now, self.udp_session_timeout_ms) is Some
    }

    /// Whether a key has a publisher whose endpoint still counts.
    pub open spec fn has_active_publisher(self, key: Seq<char>, now: u64) -> bool {
        &&& self.has_publisher(key)
        &&& self.is_active(self.streams[key].publisher_session->0, now)
    }

    /// The subscribers of a key whose endpoints still count.
    pub open spec fn active_subscribers(self, key: Seq<char>, now: u64) -> Set<u128> {
        Set::new(|id: u128| self.streams[key].subscribers.contains(id) && self.is_active(id, now))
    }

    /// The sessions under some keys that count.
    pub open spec fn sessions_under(
        self,
        keys: Set<Seq<char>>,
        counts: spec_fn(SessionView) -> bool,
    ) -> Set<u128> {
        Set::new(
            |id: u128|
                {
                    &&& self.sessions.contains_key(id)
                    &&& keys.contains(self.sessions[id].key)
                    &&& counts(self.sessions[id])
                },
        )
    }

    /// The sessions of a role.
    pub open spec fn sessions_of(self, role: ClientRole) -> Set<u128> {
        Set::new(|id: u128| self.sessions.contains_key(id) && self.sessions[id].role == role)
    }

    /// The sessions of a role whose endpoints still count.
    pub open spec fn active_sessions_of(self, role: ClientRole, now: u64) -> Set<u128> {
        Set::new(
            |id: u128|
                {
                    &&& self.sessions.contains_key(id)
                    &&& self.sessions[id].role == role
                    &&& self.sessions[id].active_endpoint(now, self.udp_session_timeout_ms) is Some
                },
        )
    }
}

/// With one more key there are just the sessions of that key more, and never more than all.
pub proof fn lemma_sessions_under_one_more(
    registry: RegistryView,
    keys: Set<Seq<char>>,
    key: Seq<char>,
    counts: spec_fn(SessionView) -> bool,
)
    requires
        registry.sessions.dom().finite(),
        !keys.contains(key),
    ensures
        registry.sessions_under(keys.insert(key), counts).len() == registry.sessions_under(
            keys,
            counts,
        ).len() + registry.sessions_under(Set::empty().insert(key), counts).len(),
        registry.sessions_under(keys.insert(key), counts).len() <= registry.sessions.dom().len(),
{
    let before = registry.sessions_under(keys, counts);
    let added = registry.sessions_under(Set::empty().insert(key), counts);
    let after = registry.sessions_under(keys.insert(key), counts);
    assert(before.subset_of(registry.sessions.dom()));
    assert(added.subset_of(registry.sessions.dom()));
    assert(after.subset_of(registry.sessions.dom()));
    lemma_set_subset_finite(registry.sessions.dom(), before);
    lemma_set_subset_finite(registry.sessions.dom(), added);
    assert(after =~= before + added);
    assert(before.disjoint(added));
    lemma_set_disjoint_lens(before, added);
    lemma_len_subset(after, registry.sessions.dom());
}

/// Under a key there are the sessions that its stream lists.
pub proof fn lemma_sessions_under_key(registry: RegistryView, key: Seq<char>, now: u64)
    requires
        registry.consistent(),
        registry.streams.contains_key(key),
    ensures
        registry.sessions_under(Set::empty().insert(key), counted(ClientRole::Publisher)).len()
            == if registry.has_publisher(key) {
            1nat
        } else {
            0nat
        },
        registry.sessions_under(Set::empty().insert(key), counted(ClientRole::Subscriber))
            == registry.streams[key].subscribers,
        registry.sessions_under(
            Set::empty().insert(key),
            counted_active(ClientRole::Publisher, now, registry.udp_session_timeout_ms),
        ).len() == if registry.has_active_publisher(key, now) {
            1nat
        } else {
            0nat
        },
        registry.sessions_under(
            Set::empty().insert(key),
            counted_active(ClientRole::Subscriber, now, registry.udp_session_timeout_ms),
        ) == registry.active_subscribers(key, now),
{
    let stream = registry.streams[key];
    let only = Set::<Seq<char>>::empty().insert(key);
    let timeout = registry.udp_session_timeout_ms;
    let publishers = registry.sessions_under(only, counted(ClientRole::Publisher));
    let active = registry.sessions_under(only, counted_active(ClientRole::Publisher, now, timeout));
    assert forall|id: u128| #[trigger] publishers.contains(id) implies stream.publisher_session
        == Some(id) by {
        assert(registry.sessions.contains_key(id));
    }
    if registry.has_publisher(key) {
        let id = stream.publisher_session->0;
        assert(stream.lists(ClientRole::Publisher, id));
        assert(publishers =~= Set::empty().insert(id));
        if registry.has_active_publisher(key, now) {
            assert(active =~= Set::empty().insert(id));
        } else {
            assert forall|other: u128| !active.contains(other) by {
                assert(active.contains(other) ==> publishers.contains(other));
            }
            assert(active =~= Set::empty());
        }
    } else {
        assert(publishers =~= Set::empty());
        assert forall|other: u128| !active.contains(other) by {
            assert(active.contains(other) ==> publishers.contains(other));
        }
        assert(active =~= Set::empty());
    }
    assert forall|id: u128|
        registry.sessions_under(only, counted(ClientRole::Subscriber)).contains(id)
            == stream.subscribers.contains(id) by {
        if registry.sessions.contains_key(id) && registry.sessions[id].key == key {
            assert(stream.lists(registry.sessions[id].role, id));
        }
        assert(stream.lists(ClientRole::Subscriber, id) == stream.subscribers.contains(id));
    }
    assert(registry.sessions_under(only, counted(ClientRole::Subscriber)) =~= stream.subscribers);
    assert forall|id: u128|
        registry.sessions_under(
            only,
            counted_active(ClientRole::Subscriber, now, timeout),
        ).contains(id) == registry.active_subscribers(key, now).contains(id) by {
        assert(registry.sessions_under(only, counted(ClientRole::Subscriber)).contains(id)
            == stream.subscribers.contains(id));
    }
    assert(registry.sessions_under(only, counted_active(ClientRole::Subscriber, now, timeout))
        =~= registry.active_subscribers(key, now));
}

/// Under all keys together there are all sessions.
pub proof fn lemma_sessions_under_all(registry: RegistryView, now: u64)
    requires
        registry.consistent(),
    ensures
        forall|role: ClientRole| #[trigger]
            registry.sessions_of(role) == registry.sessions_under(
                registry.streams.dom(),
                counted(role),
            ),
        forall|role: ClientRole| #[trigger]
            registry.active_sessions_of(role, now) == registry.sessions_under(
                registry.streams.dom(),
                counted_active(role, now, registry.udp_session_timeout_ms),
            ),
{
    let timeout = registry.udp_session_timeout_ms;
    assert forall|role: ClientRole| #[trigger]
        registry.sessions_of(role) == registry.sessions_under(
            registry.streams.dom(),
            counted(role),
        ) by {
        assert(registry.sessions_of(role) =~= registry.sessions_under(
            registry.streams.dom(),
            counted(role),
        ));
    }
    assert forall|role: ClientRole| #[trigger]
        registry.active_sessions_of(role, now) == registry.sessions_under(
            registry.streams.dom(),
            counted_active(role, now, timeout),
        ) by {
        assert(registry.active_sessions_of(role, now) =~= registry.sessions_under(
            registry.streams.dom(),
            counted_active(role, now, timeout),
        ));
    }
}

/// The sessions of a role.
pub open spec fn counted(role: ClientRole) -> spec_fn(SessionView) -> bool {
    |session: SessionView| session.role == role
}

/// The sessions of a role whose endpoints still count.
pub open spec fn counted_active(role: ClientRole, now: u64, timeout_ms: u64) -> spec_fn(
    SessionView,
) -> bool {
    |session: SessionView| session.role == role && session.active_endpoint(now, timeout_ms) is Some
}

/// The empty registry is consistent.
pub proof fn law_fresh_registry_is_consistent(udp_session_timeout_ms: u64)
    ensures
        RegistryView::fresh(udp_session_timeout_ms).consistent(),
{
}

/// Connecting a client under an id that no session has, as a publisher only where the key has
/// none, keeps the registry consistent.
pub proof fn law_connecting_keeps_consistency(
    registry: RegistryView,
    role: ClientRole,
    key: Seq<char>,
    tcp_peer_addr: Seq<char>,
    id: u128,
    now: u64,
)
    requires
        registry.consistent(),
        !registry.sessions.contains_key(id),
        role == ClientRole::Publisher ==> !registry.has_publisher(key),
    ensures
        registry.connected(role, key, tcp_peer_addr, id, now).consistent(),
{
    let after = registry.connected(role, key, tcp_peer_addr, id, now);
    let stream = registry.stream_or_fresh(key, now);
    assert(after.streams[key] == stream.connected(role, id, now));
    assert forall|other: u128| #[trigger] after.sessions.contains_key(other) implies {
        let session = after.sessions[other];
        &&& after.streams.contains_key(session.key)
        &&& after.streams[session.key].lists(session.role, other)
        &&& session.udp_endpoint is Some <==> session.udp_last_seen_unix_ms is Some
    } by {
        if other != id {
            assert(registry.sessions.contains_key(other));
            let session = registry.sessions[other];
            assert(registry.streams[session.key].lists(session.role, other));
        }
    }
    assert forall|k: Seq<char>, r: ClientRole, other: u128|
        after.streams.contains_key(k) && #[trigger] after.streams[k].lists(r, other) implies {
        &&& after.sessions.contains_key(other)
        &&& after.sessions[other].key == k
        &&& after.sessions[other].role == r
    } by {
        if registry.streams.contains_key(k) && registry.streams[k].lists(r, other) {
            assert(registry.sessions.contains_key(other));
        } else {
            assert(k == key);
            assert(other == id && r == role);
        }
    }
    assert forall|k: Seq<char>| #[trigger] after.streams.contains_key(k) implies !after.streams[k].is_deserted() by {
        if k == key {
            assert(after.streams[k].lists(role, id));
        } else {
            assert(registry.streams.contains_key(k));
        }
    }
}

/// Disconnecting a client keeps the registry consistent.
pub proof fn law_disconnecting_keeps_consistency(
    registry: RegistryView,
    id: u128,
    reason: Seq<char>,
    now: u64,
)
    requires
        registry.consistent(),
    ensures
        registry.disconnected(id, reason, now).consistent(),
{
    if registry.sessions.contains_key(id) {
        let after = registry.disconnected(id, reason, now);
        let gone = registry.sessions[id];
        let stream = registry.streams[gone.key].disconnected(gone.role, id, reason, now);
        assert forall|other: u128| #[trigger] after.sessions.contains_key(other) implies {
            let session = after.sessions[other];
            &&& after.streams.contains_key(session.key)
            &&& after.streams[session.key].lists(session.role, other)
            &&& session.udp_endpoint is Some <==> session.udp_last_seen_unix_ms is Some
        } by {
            assert(registry.sessions.contains_key(other) && other != id);
            let session = registry.sessions[other];
            assert(registry.streams[session.key].lists(session.role, other));
            if session.key == gone.key {
                assert(stream.lists(session.role, other));
                assert(!stream.is_deserted());
            }
        }
        assert forall|k: Seq<char>, r: ClientRole, other: u128|
            after.streams.contains_key(k) && #[trigger] after.streams[k].lists(r, other) implies {
            &&& after.sessions.contains_key(other)
            &&& after.sessions[other].key == k
            &&& after.sessions[other].role == r
        } by {
            assert(registry.streams[k].lists(r, other));
            if other == id {
                assert(k == gone.key && r == gone.role);
                assert(registry.streams[gone.key].lists(gone.role, id));
            }
        }
        assert forall|k: Seq<char>| #[trigger] after.streams.contains_key(k) implies !after.streams[k].is_deserted() by {
            assert(registry.streams.contains_key(k));
        }
    }
}

/// Replacing a session by one with the same role and key, and a stream by one with the same
/// sessions, keeps the registry consistent.
proof fn lemma_updates_keep_consistency(
    before: RegistryView,
    id: u128,
    session: SessionView,
    stream: StreamView,
)
    requires
        before.consistent(),
        before.sessions.contains_key(id),
        session.role == before.sessions[id].role,
        session.key == before.sessions[id].key,
        session.udp_endpoint is Some <==> session.udp_last_seen_unix_ms is Some,
        stream.publisher_session == before.streams[session.key].publisher_session,
        stream.subscribers == before.streams[session.key].subscribers,
    ensures
        before.with_session(id, session).with_stream(session.key, stream).consistent(),
{
    let after = before.with_session(id, session).with_stream(session.key, stream);
    assert(after.sessions.dom() =~= before.sessions.dom());
    assert forall|other: u128| #[trigger] after.sessions.contains_key(other) implies {
        let s = after.sessions[other];
        &&& after.streams.contains_key(s.key)
        &&& after.streams[s.key].lists(s.role, other)
        &&& s.udp_endpoint is Some <==> s.udp_last_seen_unix_ms is Some
    } by {
        assert(before.sessions.contains_key(other));
        let s = before.sessions[other];
        assert(before.streams[s.key].lists(s.role, other));
    }
    assert forall|k: Seq<char>, r: ClientRole, other: u128|
        after.streams.contains_key(k) && #[trigger] after.streams[k].lists(r, other) implies {
        &&& after.sessions.contains_key(other)
        &&& after.sessions[other].key == k
        &&& after.sessions[other].role == r
    } by {
        assert(before.streams[k].lists(r, other));
    }
    assert forall|k: Seq<char>| #[trigger] after.streams.contains_key(k) implies !after.streams[k].is_deserted() by {
        assert(before.streams.contains_key(k));
    }
}

/// Replacing a stream by one with the same sessions keeps the registry consistent.
proof fn lemma_stream_update_keeps_consistency(
    before: RegistryView,
    key: Seq<char>,
    stream: StreamView,
)
    requires
        before.consistent(),
        stream.publisher_session == before.streams[key].publisher_session,
        stream.subscribers == before.streams[key].subscribers,
    ensures
        before.with_stream(key, stream).consistent(),
{
    let after = before.with_stream(key, stream);
    assert forall|other: u128| #[trigger] after.sessions.contains_key(other) implies {
        let s = after.sessions[other];
        &&& after.streams.contains_key(s.key)
        &&& after.streams[s.key].lists(s.role, other)
        &&& s.udp_endpoint is Some <==> s.udp_last_seen_unix_ms is Some
    } by {
        assert(before.sessions.contains_key(other));
        let s = before.sessions[other];
        assert(before.streams[s.key].lists(s.role, other));
    }
    assert forall|k: Seq<char>, r: ClientRole, other: u128|
        after.streams.contains_key(k) && #[trigger] after.streams[k].lists(r, other) implies {
        &&& after.sessions.contains_key(other)
        &&& after.sessions[other].key == k
        &&& after.sessions[other].role == r
    } by {
        assert(before.streams[k].lists(r, other));
    }
    assert forall|k: Seq<char>| #[trigger] after.streams.contains_key(k) implies !after.streams[k].is_deserted() by {
        assert(before.streams.contains_key(k));
    }
}

/// Whatever packets come in, and whatever becomes of those that go out, the registry stays
/// consistent.
pub proof fn law_traffic_keeps_consistency(
    registry: RegistryView,
    id: u128,
    endpoint: Endpoint,
    key: Seq<char>,
    payload_bytes: usize,
    successful_targets: usize,
    send_errors: usize,
    now: u64,
)
    requires
        registry.consistent(),
    ensures
        registry.control_heartbeat(id, now).consistent(),
        registry.udp_registered(id, endpoint, now).consistent(),
        registry.udp_heartbeat(id, endpoint, now).consistent(),
        registry.audio_received(id, endpoint, payload_bytes, now).consistent(),
        registry.send_error(id, now).consistent(),
        registry.audio_sent(key, payload_bytes, successful_targets, send_errors, now).consistent(),
        registry.invalid_packet().consistent(),
        registry.unknown_session().consistent(),
{
    if registry.sessions.contains_key(id) {
        let session = registry.sessions[id];
        let stream = registry.streams[session.key];
        lemma_stream_update_keeps_consistency(
            registry,
            session.key,
            stream.control_heartbeat(session.role, now),
        );
        lemma_stream_update_keeps_consistency(registry, session.key, stream.send_error(now));
        lemma_updates_keep_consistency(
            registry,
            id,
            session.bound_to(endpoint, now),
            stream.udp_register(session.role, now),
        );
        if session.endpoint_problem(endpoint, now, registry.udp_session_timeout_ms) is None {
            lemma_updates_keep_consistency(
                registry,
                id,
                session.seen(now),
                stream.udp_heartbeat(session.role, now),
            );
            lemma_updates_keep_consistency(
                registry,
                id,
                session.seen(now),
                stream.audio_in(payload_bytes, now),
            );
        }
    }
    lemma_stream_update_keeps_consistency(
        registry,
        key,
        registry.streams[key].audio_out(payload_bytes, successful_targets, send_errors, now),
    );
    let invalid = registry.invalid_packet();
    let unknown = registry.unknown_session();
    assert(invalid.sessions == registry.sessions && invalid.streams == registry.streams);
    assert(unknown.sessions == registry.sessions && unknown.streams == registry.streams);
}

} // verus!
