//! The registry: which clients are connected, which endpoints speak for them, and where audio
//! goes.
//!
//! Every operation that depends on the time comes twice: once with the time as an argument, and
//! once reading the clock.

use std::collections::HashMap;

use vstd::prelude::*;
use vstd::set_lib::*;
use vstd::std_specs::hash::*;
use vstd::string::*;

use crate::clock::{clock_shows, unix_now_ms};
use crate::endpoint::Endpoint;
use crate::error::{ErrorKind, IoError};
use crate::model::{
    active_endpoint, counted, counted_active, law_connecting_keeps_consistency,
    law_disconnecting_keeps_consistency, law_fresh_registry_is_consistent,
    law_traffic_keeps_consistency, lemma_sessions_under_all, lemma_sessions_under_key,
    lemma_sessions_under_one_more, RegistryView, SessionView, UdpEndpointValidationError,
};
use crate::protocol::{is_drawn, random_failure_message, ClientRole, SessionId};
use crate::streams::{optional_text, StreamEntry, StreamTable};
use crate::text::{same_text, text_before};

verus! {

broadcast use vstd::std_specs::hash::group_hash_axioms;

/// Whether this is reported where no session id comes of drawing: the random source failed.
pub open spec fn is_draw_failure(message: Seq<char>) -> bool {
    exists|detail: Seq<char>| message == #[trigger] random_failure_message(detail)
}

/// The session id some steps after another, counting up and around.
pub open spec fn id_after(start: u128, steps: nat) -> u128 {
    ((start + steps) % (u128::MAX + 1)) as u128
}

/// Whether a session id is the first that no session has, from another on.
pub open spec fn is_first_free(registry: RegistryView, start: u128, id: u128) -> bool {
    exists|steps: nat|
        {
            &&& id == #[trigger] id_after(start, steps)
            &&& !registry.sessions.contains_key(id)
            &&& forall|j: nat|
                j < steps ==> registry.sessions.contains_key(#[trigger] id_after(start, j))
        }
}

/// Whether a session id comes of a draw: it is the one that was drawn, or the first that no
/// session has from that one on.
pub open spec fn comes_of_a_draw(registry: RegistryView, id: u128) -> bool {
    exists|start: SessionId| #[trigger]
        is_drawn(Ok::<SessionId, IoError>(start)) && is_first_free(registry, start@, id)
}

/// A client with an established control connection.
#[derive(Debug)]
pub struct SessionEntry {
    pub session_id: SessionId,
    pub role: ClientRole,
    pub key: String,
    pub tcp_peer_addr: String,
    pub udp_endpoint: Option<Endpoint>,
    pub udp_last_seen_unix_ms: Option<u64>,
}

impl View for SessionEntry {
    type V = SessionView;

    open spec fn view(&self) -> SessionView {
        SessionView {
            role: self.role,
            key: self.key@,
            tcp_peer_addr: self.tcp_peer_addr@,
            udp_endpoint: self.udp_endpoint,
            udp_last_seen_unix_ms: self.udp_last_seen_unix_ms,
        }
    }
}

/// All connected clients and their streams.
#[derive(Debug)]
pub struct StreamRegistry {
    streams: StreamTable,
    sessions: HashMap<u128, SessionEntry>,
    invalid_udp_packets_total: u64,
    unknown_udp_session_packets_total: u64,
    udp_session_timeout_ms: u64,
}

/// The session of a client that has just connected.
#[derive(Clone, Copy, Debug, PartialEq, Eq)]
pub struct SessionRegistration {
    pub session_id: SessionId,
}

/// Why a client was not connected.
#[derive(Debug)]
pub enum RegisterSessionError {
    PublisherAlreadyConnected,
    SessionIdGeneration(IoError),
}

/// What became of an attempt to connect a client under a drawn session id.
#[derive(Debug)]
pub enum Admission {
    Admitted(SessionRegistration),
    /// The id is taken: another one is needed.
    IdTaken,
    Refused(RegisterSessionError),
}

/// What to do after an attempt to connect a client.
#[derive(Debug)]
pub enum RegisterStep {
    Registered(SessionRegistration),
    /// Draw another session id, and try again.
    DrawAgain,
    Failed(RegisterSessionError),
}

/// What to do after an attempt to connect a client: where the id was taken, another is drawn.
pub fn after_admission(admission: Admission) -> (step: RegisterStep)
    ensures
        step == match admission {
            Admission::Admitted(registration) => RegisterStep::Registered(registration),
            Admission::IdTaken => RegisterStep::DrawAgain,
            Admission::Refused(e) => RegisterStep::Failed(e),
        },
{
    match admission {
        Admission::Admitted(registration) => RegisterStep::Registered(registration),
        Admission::IdTaken => RegisterStep::DrawAgain,
        Admission::Refused(e) => RegisterStep::Failed(e),
    }
}

/// A subscriber with the endpoint that it receives audio at.
#[derive(Clone, Copy, Debug, PartialEq, Eq)]
pub struct UdpDispatchTarget {
    pub session_id: SessionId,
    pub endpoint: Endpoint,
}

/// Where an audio packet goes.
#[derive(Clone, Debug, PartialEq, Eq)]
pub struct AudioDispatchPlan {
    pub publisher_session_id: SessionId,
    pub key: String,
    pub targets: Vec<UdpDispatchTarget>,
}

/// Why an audio packet goes nowhere.
#[derive(Clone, Copy, Debug, PartialEq, Eq, Structural)]
pub enum AudioDispatchError {
    UnknownSession,
    WrongRole,
    UdpNotRegistered,
    UdpEndpointMismatch,
    UdpEndpointExpired,
}

/// Why an endpoint was not registered.
#[derive(Clone, Copy, Debug, PartialEq, Eq, Structural)]
pub enum UdpRegisterError {
    UnknownSession,
}

/// Why a UDP heartbeat does not count.
#[derive(Clone, Copy, Debug, PartialEq, Eq, Structural)]
pub enum UdpHeartbeatError {
    UnknownSession,
    UdpNotRegistered,
    UdpEndpointMismatch,
    UdpEndpointExpired,
}

/// What a status query sees.
#[derive(Debug)]
pub struct RegistrySnapshot {
    pub generated_at_unix_ms: u64,
    pub stream_count: usize,
    pub active_publisher_count: usize,
    pub active_subscriber_count: usize,
    pub active_udp_publisher_count: usize,
    pub active_udp_subscriber_count: usize,
    pub invalid_udp_packets_total: u64,
    pub unknown_udp_session_packets_total: u64,
    pub streams: Vec<StreamSnapshot>,
}

/// What a status query sees of one stream.
#[derive(Debug)]
pub struct StreamSnapshot {
    pub key: String,
    pub publisher_control_connected: bool,
    pub publisher_udp_registered: bool,
    pub subscriber_count: usize,
    pub subscriber_udp_registered_count: usize,
    pub publisher_connections_total: u64,
    pub subscriber_connections_total: u64,
    pub publisher_tcp_heartbeats_total: u64,
    pub subscriber_tcp_heartbeats_total: u64,
    pub publisher_udp_registers_total: u64,
    pub subscriber_udp_registers_total: u64,
    pub publisher_udp_heartbeats_total: u64,
    pub subscriber_udp_heartbeats_total: u64,
    pub udp_audio_packets_in_total: u64,
    pub udp_audio_bytes_in_total: u64,
    pub udp_audio_packets_out_total: u64,
    pub udp_audio_bytes_out_total: u64,
    pub udp_send_errors_total: u64,
    pub last_activity_unix_ms: u64,
    pub last_publisher_disconnect_reason: Option<String>,
    pub last_subscriber_disconnect_reason: Option<String>,
}

/// Whether this is what a status query sees of the stream under a key.
pub open spec fn is_stream_snapshot(
    snapshot: StreamSnapshot,
    registry: RegistryView,
    key: Seq<char>,
    now: u64,
) -> bool {
    let stream = registry.streams[key];
    &&& snapshot.key@ == key
    &&& snapshot.publisher_control_connected == registry.has_publisher(key)
    &&& snapshot.publisher_udp_registered == registry.has_active_publisher(key, now)
    &&& snapshot.subscriber_count == stream.subscribers.len()
    &&& snapshot.subscriber_udp_registered_count == registry.active_subscribers(key, now).len()
    &&& snapshot.publisher_connections_total == stream.publisher_connections_total
    &&& snapshot.subscriber_connections_total == stream.subscriber_connections_total
    &&& snapshot.publisher_tcp_heartbeats_total == stream.publisher_tcp_heartbeats_total
    &&& snapshot.subscriber_tcp_heartbeats_total == stream.subscriber_tcp_heartbeats_total
    &&& snapshot.publisher_udp_registers_total == stream.publisher_udp_registers_total
    &&& snapshot.subscriber_udp_registers_total == stream.subscriber_udp_registers_total
    &&& snapshot.publisher_udp_heartbeats_total == stream.publisher_udp_heartbeats_total
    &&& snapshot.subscriber_udp_heartbeats_total == stream.subscriber_udp_heartbeats_total
    &&& snapshot.udp_audio_packets_in_total == stream.udp_audio_packets_in_total
    &&& snapshot.udp_audio_bytes_in_total == stream.udp_audio_bytes_in_total
    &&& snapshot.udp_audio_packets_out_total == stream.udp_audio_packets_out_total
    &&& snapshot.udp_audio_bytes_out_total == stream.udp_audio_bytes_out_total
    &&& snapshot.udp_send_errors_total == stream.udp_send_errors_total
    &&& snapshot.last_activity_unix_ms == stream.last_activity_unix_ms
    &&& optional_text(snapshot.last_publisher_disconnect_reason)
        == stream.last_publisher_disconnect_reason
    &&& optional_text(snapshot.last_subscriber_disconnect_reason)
        == stream.last_subscriber_disconnect_reason
}

/// The keys of the streams that a status query sees.
pub open spec fn snapshot_keys(streams: Seq<StreamSnapshot>) -> Seq<Seq<char>> {
    streams.map_values(|stream: StreamSnapshot| stream.key@)
}

/// Whether this is what a status query sees at a time: every stream once, in the order of the
/// keys, and the numbers of sessions.
pub open spec fn is_snapshot(snapshot: RegistrySnapshot, registry: RegistryView, now: u64) -> bool {
    &&& snapshot.generated_at_unix_ms == now
    &&& snapshot.stream_count == snapshot.streams@.len()
    &&& snapshot.active_publisher_count == registry.sessions_of(ClientRole::Publisher).len()
    &&& snapshot.active_subscriber_count == registry.sessions_of(ClientRole::Subscriber).len()
    &&& snapshot.active_udp_publisher_count == registry.active_sessions_of(
        ClientRole::Publisher,
        now,
    ).len()
    &&& snapshot.active_udp_subscriber_count == registry.active_sessions_of(
        ClientRole::Subscriber,
        now,
    ).len()
    &&& snapshot.invalid_udp_packets_total == registry.invalid_udp_packets_total
    &&& snapshot.unknown_udp_session_packets_total == registry.unknown_udp_session_packets_total
    &&& snapshot_keys(snapshot.streams@).to_set() == registry.streams.dom()
    &&& forall|i: int, j: int|
        0 <= i < j < snapshot.streams@.len() ==> text_before(
            #[trigger] snapshot.streams@[i].key@,
            #[trigger] snapshot.streams@[j].key@,
        )
    &&& forall|i: int|
        0 <= i < snapshot.streams@.len() ==> is_stream_snapshot(
            #[trigger] snapshot.streams@[i],
            registry,
            snapshot.streams@[i].key@,
            now,
        )
}

/// The sum of a number over streams.
pub open spec fn sum_over(
    streams: Seq<StreamSnapshot>,
    number: spec_fn(StreamSnapshot) -> int,
) -> int
    decreases streams.len(),
{
    if streams.len() == 0 {
        0
    } else {
        sum_over(streams.drop_last(), number) + number(streams.last())
    }
}

/// One for yes, zero for no.
pub open spec fn one_if(yes: bool) -> int {
    if yes {
        1
    } else {
        0
    }
}

/// Whether the numbers of sessions are the sums of those of the streams.
pub open spec fn totals_are_sums(snapshot: RegistrySnapshot) -> bool {
    &&& snapshot.active_publisher_count == sum_over(
        snapshot.streams@,
        |s: StreamSnapshot| one_if(s.publisher_control_connected),
    )
    &&& snapshot.active_subscriber_count == sum_over(
        snapshot.streams@,
        |s: StreamSnapshot| s.subscriber_count as int,
    )
    &&& snapshot.active_udp_publisher_count == sum_over(
        snapshot.streams@,
        |s: StreamSnapshot| one_if(s.publisher_udp_registered),
    )
    &&& snapshot.active_udp_subscriber_count == sum_over(
        snapshot.streams@,
        |s: StreamSnapshot| s.subscriber_udp_registered_count as int,
    )
}

/// The endpoint of a session as long as it counts.
pub fn active_udp_endpoint(
    endpoint: Option<Endpoint>,
    last_seen_unix_ms: Option<u64>,
    now: u64,
    udp_session_timeout_ms: u64,
) -> (active: Option<Endpoint>)
    ensures
        active == active_endpoint(endpoint, last_seen_unix_ms, now, udp_session_timeout_ms),
{
    match (endpoint, last_seen_unix_ms) {
        (Some(e), Some(last_seen)) => {
            if now.saturating_sub(last_seen) < udp_session_timeout_ms {
                Some(e)
            } else {
                None
            }
        },
        _ => None,
    }
}

/// Tests whether a packet comes from the endpoint that speaks for a session, as long as that
/// counts.
pub fn ensure_udp_endpoint_matches(
    session: &SessionEntry,
    source_endpoint: Endpoint,
    now: u64,
    udp_session_timeout_ms: u64,
) -> (result: Result<(), UdpEndpointValidationError>)
    ensures
        match result {
            Ok(()) => session@.endpoint_problem(source_endpoint, now, udp_session_timeout_ms)
                is None,
            Err(e) => session@.endpoint_problem(source_endpoint, now, udp_session_timeout_ms)
                == Some(e),
        },
        result is Ok <==> session@.active_endpoint(now, udp_session_timeout_ms) == Some(
            source_endpoint,
        ),
{
    let registered_endpoint = match session.udp_endpoint {
        Some(e) => e,
        None => {
            return Err(UdpEndpointValidationError::NotRegistered);
        },
    };
    if registered_endpoint != source_endpoint {
        return Err(UdpEndpointValidationError::EndpointMismatch);
    }
    let last_seen: u64 = match session.udp_last_seen_unix_ms {
        Some(t) => t,
        None => {
            return Err(UdpEndpointValidationError::NotRegistered);
        },
    };
    if now.saturating_sub(last_seen) >= udp_session_timeout_ms {
        return Err(UdpEndpointValidationError::EndpointExpired);
    }
    Ok(())
}

/// What a packet from the wrong endpoint means for an audio packet.
pub open spec fn audio_error(problem: UdpEndpointValidationError) -> AudioDispatchError {
    match problem {
        UdpEndpointValidationError::NotRegistered => AudioDispatchError::UdpNotRegistered,
        UdpEndpointValidationError::EndpointMismatch => AudioDispatchError::UdpEndpointMismatch,
        UdpEndpointValidationError::EndpointExpired => AudioDispatchError::UdpEndpointExpired,
    }
}

/// What a packet from the wrong endpoint means for an audio packet.
fn map_udp_validation_error_to_audio_dispatch_error(
    err: UdpEndpointValidationError,
) -> (mapped: AudioDispatchError)
    ensures
        mapped == audio_error(err),
{
    match err {
        UdpEndpointValidationError::NotRegistered => AudioDispatchError::UdpNotRegistered,
        UdpEndpointValidationError::EndpointMismatch => AudioDispatchError::UdpEndpointMismatch,
        UdpEndpointValidationError::EndpointExpired => AudioDispatchError::UdpEndpointExpired,
    }
}

/// What a packet from the wrong endpoint means for a heartbeat.
pub open spec fn heartbeat_error(problem: UdpEndpointValidationError) -> UdpHeartbeatError {
    match problem {
        UdpEndpointValidationError::NotRegistered => UdpHeartbeatError::UdpNotRegistered,
        UdpEndpointValidationError::EndpointMismatch => UdpHeartbeatError::UdpEndpointMismatch,
        UdpEndpointValidationError::EndpointExpired => UdpHeartbeatError::UdpEndpointExpired,
    }
}

/// What a packet from the wrong endpoint means for a heartbeat.
fn map_udp_validation_error_to_heartbeat_error(
    err: UdpEndpointValidationError,
) -> (mapped: UdpHeartbeatError)
    ensures
        mapped == heartbeat_error(err),
{
    match err {
        UdpEndpointValidationError::NotRegistered => UdpHeartbeatError::UdpNotRegistered,
        UdpEndpointValidationError::EndpointMismatch => UdpHeartbeatError::UdpEndpointMismatch,
        UdpEndpointValidationError::EndpointExpired => UdpHeartbeatError::UdpEndpointExpired,
    }
}

/// What becomes of a UDP heartbeat.
pub open spec fn heartbeat_result(
    registry: RegistryView,
    id: u128,
    endpoint: Endpoint,
    now: u64,
) -> Result<(), UdpHeartbeatError> {
    if !registry.sessions.contains_key(id) {
        Err(UdpHeartbeatError::UnknownSession)
    } else {
        match registry.sessions[id].endpoint_problem(
            endpoint,
            now,
            registry.udp_session_timeout_ms,
        ) {
            Some(problem) => Err(heartbeat_error(problem)),
            None => Ok(()),
        }
    }
}

/// Why an audio packet goes nowhere, if so.
pub open spec fn audio_refusal(
    registry: RegistryView,
    id: u128,
    endpoint: Endpoint,
    now: u64,
) -> Option<AudioDispatchError> {
    if !registry.sessions.contains_key(id) {
        Some(AudioDispatchError::UnknownSession)
    } else if registry.sessions[id].role != ClientRole::Publisher {
        Some(AudioDispatchError::WrongRole)
    } else {
        match registry.sessions[id].endpoint_problem(
            endpoint,
            now,
            registry.udp_session_timeout_ms,
        ) {
            Some(problem) => Some(audio_error(problem)),
            None => None,
        }
    }
}

/// The ids and endpoints of targets.
pub open spec fn target_pairs(targets: Seq<UdpDispatchTarget>) -> Seq<(u128, Endpoint)> {
    targets.map_values(|target: UdpDispatchTarget| (target.session_id@, target.endpoint))
}

/// Whether targets are those of a key: each once, in any order.
pub open spec fn are_targets_of(
    targets: Seq<UdpDispatchTarget>,
    registry: RegistryView,
    key: Seq<char>,
    now: u64,
) -> bool {
    &&& target_pairs(targets).no_duplicates()
    &&& target_pairs(targets).to_set() == registry.dispatch_targets(key, now)
}

/// Whether this is what becomes of an audio packet at a time.
pub open spec fn is_audio_outcome(
    registry: RegistryView,
    session_id: SessionId,
    endpoint: Endpoint,
    now: u64,
    result: Result<AudioDispatchPlan, AudioDispatchError>,
) -> bool {
    match audio_refusal(registry, session_id@, endpoint, now) {
        Some(e) => result == Err::<AudioDispatchPlan, AudioDispatchError>(e),
        None => {
            &&& result matches Ok(plan)
            &&& plan.publisher_session_id == session_id
            &&& plan.key@ == registry.sessions[session_id@].key
            &&& are_targets_of(plan.targets@, registry, plan.key@, now)
        },
    }
}

impl View for StreamRegistry {
    type V = RegistryView;

    closed spec fn view(&self) -> RegistryView {
        RegistryView {
            sessions: self.sessions@.map_values(|session: SessionEntry| session@),
            streams: self.streams@,
            invalid_udp_packets_total: self.invalid_udp_packets_total,
            unknown_udp_session_packets_total: self.unknown_udp_session_packets_total,
            udp_session_timeout_ms: self.udp_session_timeout_ms,
        }
    }
}

impl StreamRegistry {
    /// What holds of every registry: it is consistent, and filed in order.
    pub closed spec fn inv(self) -> bool {
        &&& self@.consistent()
        &&& self.streams.in_order()
        &&& forall|id: u128| #[trigger]
            self.sessions@.contains_key(id) ==> self.sessions@[id].session_id@ == id
    }

    /// Every registry is consistent.
    pub proof fn law_every_registry_is_consistent(self)
        requires
            self.inv(),
        ensures
            self@.consistent(),
    {
    }

    /// A registry without clients.
    pub fn new(udp_session_timeout_ms: u64) -> (registry: StreamRegistry)
        ensures
            registry.inv(),
            registry@ == RegistryView::fresh(udp_session_timeout_ms),
    {
        let registry = StreamRegistry {
            streams: StreamTable::new(),
            sessions: HashMap::new(),
            invalid_udp_packets_total: 0,
            unknown_udp_session_packets_total: 0,
            udp_session_timeout_ms,
        };
        assert(registry@.sessions =~= Map::<u128, SessionView>::empty());
        proof {
            law_fresh_registry_is_consistent(udp_session_timeout_ms);
        }
        registry
    }

    /// Whether a key has a publisher.
    fn has_publisher(&self, key: &str) -> (taken: bool)
        requires
            self.inv(),
        ensures
            taken == self@.has_publisher(key@),
    {
        match self.streams.get(key) {
            Some(stream) => stream.publisher_session.is_some(),
            None => false,
        }
    }

    /// Connects a client under a drawn session id, or says why not.
    pub fn admit_at(
        &mut self,
        role: ClientRole,
        key: &str,
        tcp_peer_addr: &str,
        draw: Result<SessionId, IoError>,
        now: u64,
    ) -> (admission: Admission)
        requires
            old(self).inv(),
        ensures
            final(self).inv(),
            match admission {
                Admission::Admitted(registration) => {
                    &&& draw == Ok::<SessionId, IoError>(registration.session_id)
                    &&& final(self)@ == old(self)@.connected(
                        role,
                        key@,
                        tcp_peer_addr@,
                        registration.session_id@,
                        now,
                    )
                },
                _ => final(self)@ == old(self)@,
            },
            admission == Admission::Refused(RegisterSessionError::PublisherAlreadyConnected)
                <==> role == ClientRole::Publisher && old(self)@.has_publisher(key@),
            !(role == ClientRole::Publisher && old(self)@.has_publisher(key@)) ==> match draw {
                Ok(id) => if old(self)@.sessions.contains_key(id@) {
                    admission is IdTaken
                } else {
                    admission is Admitted
                },
                Err(e) => admission == Admission::Refused(
                    RegisterSessionError::SessionIdGeneration(e),
                ),
            },
    {
        if role == ClientRole::Publisher && self.has_publisher(key) {
            return Admission::Refused(RegisterSessionError::PublisherAlreadyConnected);
        }
        let session_id = match draw {
            Ok(id) => id,
            Err(e) => {
                return Admission::Refused(RegisterSessionError::SessionIdGeneration(e));
            },
        };
        if self.sessions.contains_key(&session_id.number()) {
            return Admission::IdTaken;
        }
        Admission::Admitted(self.connect_at(role, key, tcp_peer_addr, session_id, now))
    }

    /// Connects a client under a session id that no session has, as a publisher only where the
    /// key has none.
    fn connect_at(
        &mut self,
        role: ClientRole,
        key: &str,
        tcp_peer_addr: &str,
        session_id: SessionId,
        now: u64,
    ) -> (registration: SessionRegistration)
        requires
            old(self).inv(),
            !old(self)@.sessions.contains_key(session_id@),
            !(role == ClientRole::Publisher && old(self)@.has_publisher(key@)),
        ensures
            final(self).inv(),
            registration.session_id == session_id,
            final(self)@ == old(self)@.connected(role, key@, tcp_peer_addr@, session_id@, now),
    {
        let id: u128 = session_id.number();
        proof {
            law_connecting_keeps_consistency(self@, role, key@, tcp_peer_addr@, id, now);
        }
        let ghost before = *self;
        let session = SessionEntry {
            session_id,
            role,
            key: key.to_owned(),
            tcp_peer_addr: tcp_peer_addr.to_owned(),
            udp_endpoint: None,
            udp_last_seen_unix_ms: None,
        };
        self.sessions.insert(id, session);
        let mut filed: bool = false;
        match self.streams.get_mut(key) {
            Some(stream) => {
                stream.connect(role, id, now);
                filed = true;
            },
            None => {},
        }
        if !filed {
            let mut stream = StreamEntry::new(now);
            stream.connect(role, id, now);
            self.streams.insert(key, stream);
        }
        assert(self@.sessions =~= before@.connected(role, key@, tcp_peer_addr@, id, now).sessions);
        assert(self@ =~= before@.connected(role, key@, tcp_peer_addr@, id, now));
        SessionRegistration { session_id }
    }

    /// The first session id that no session has, from a given one on.
    pub fn free_id_from(&self, start: SessionId) -> (id: SessionId)
        requires
            self.inv(),
        ensures
            is_first_free(self@, start@, id@),
    {
        let mut number: u128 = start.number();
        let ghost mut steps: nat = 0;
        let ghost mut passed: Set<u128> = Set::empty();
        let total: usize = self.sessions.len();
        assert(self.sessions@.dom() =~= self@.sessions.dom());
        while self.sessions.contains_key(&number)
            invariant
                self.inv(),
                total == self@.sessions.dom().len(),
                number == id_after(start@, steps),
                steps <= total,
                passed.finite(),
                passed.len() == steps,
                passed.subset_of(self@.sessions.dom()),
                forall|id: u128| #[trigger]
                    passed.contains(id) ==> exists|j: nat|
                        j < steps && id == #[trigger] id_after(start@, j),
                forall|j: nat|
                    j < steps ==> self@.sessions.contains_key(#[trigger] id_after(start@, j)),
            decreases total - steps,
        {
            proof {
                assert(!passed.contains(number));
                let more = passed.insert(number);
                assert(more.subset_of(self@.sessions.dom()));
                lemma_len_subset(more, self@.sessions.dom());
                assert forall|id: u128| #[trigger] more.contains(id) implies exists|j: nat|
                    j < steps + 1 && id == #[trigger] id_after(start@, j) by {
                    if id == number {
                        assert(id == id_after(start@, steps));
                    } else {
                        assert(passed.contains(id));
                    }
                }
                passed = more;
                steps = steps + 1;
            }
            number = number.wrapping_add(1);
        }
        assert(is_first_free(self@, start@, number)) by {
            assert(number == id_after(start@, steps));
        }
        SessionId::from_number(number)
    }

    /// Connects a client under a random session id that no other session has: ids are drawn until
    /// one is free. Should 2^64 - 1 draws in a row be taken, the first free id from the next draw
    /// on is used, so that the registration comes to an end; only a failure of the random source
    /// keeps a client out for want of an id.
    pub fn register_control_session(
        &mut self,
        role: ClientRole,
        key: &str,
        tcp_peer_addr: String,
    ) -> (result: Result<SessionRegistration, RegisterSessionError>)
        requires
            old(self).inv(),
        ensures
            final(self).inv(),
            match result {
                Ok(registration) => {
                    &&& !(role == ClientRole::Publisher && old(self)@.has_publisher(key@))
                    &&& !old(self)@.sessions.contains_key(registration.session_id@)
                    &&& comes_of_a_draw(old(self)@, registration.session_id@)
                    &&& old(self)@.connects(
                        role,
                        key@,
                        tcp_peer_addr@,
                        registration.session_id@,
                        final(self)@,
                    )
                },
                Err(RegisterSessionError::PublisherAlreadyConnected) => {
                    &&& role == ClientRole::Publisher && old(self)@.has_publisher(key@)
                    &&& final(self)@ == old(self)@
                },
                Err(RegisterSessionError::SessionIdGeneration(e)) => {
                    &&& !(role == ClientRole::Publisher && old(self)@.has_publisher(key@))
                    &&& is_drawn(Err::<SessionId, IoError>(e))
                    &&& e.kind == ErrorKind::Other
                    &&& is_draw_failure(e.message@)
                    &&& final(self)@ == old(self)@
                },
            },
    {
        if role == ClientRole::Publisher && self.has_publisher(key) {
            return Err(RegisterSessionError::PublisherAlreadyConnected);
        }
        let mut draws_left: u64 = u64::MAX;
        while draws_left > 0
            invariant
                self.inv(),
                self@ == old(self)@,
                !(role == ClientRole::Publisher && old(self)@.has_publisher(key@)),
            decreases draws_left,
        {
            draws_left = draws_left - 1;
            let draw = SessionId::random();
            let ghost drawn = draw;
            let now: u64 = unix_now_ms();
            assert(is_drawn(drawn));
            let admission = self.admit_at(role, key, tcp_peer_addr.as_str(), draw, now);
            match after_admission(admission) {
                RegisterStep::Registered(registration) => {
                    proof {
                        let id = registration.session_id@;
                        assert(id_after(id, 0) == id);
                        assert(is_first_free(old(self)@, id, id));
                        assert(is_drawn(Ok::<SessionId, IoError>(registration.session_id)));
                    }
                    return Ok(registration);
                },
                RegisterStep::DrawAgain => {},
                RegisterStep::Failed(e) => {
                    return Err(e);
                },
            }
        }
        match SessionId::random() {
            Ok(drawn) => {
                assert(is_drawn(Ok::<SessionId, IoError>(drawn)));
                let session_id = self.free_id_from(drawn);
                let now: u64 = unix_now_ms();
                Ok(self.connect_at(role, key, tcp_peer_addr.as_str(), session_id, now))
            },
            Err(e) => Err(RegisterSessionError::SessionIdGeneration(e)),
        }
    }

    /// Disconnects a client.
    pub fn unregister_session_at(&mut self, session_id: SessionId, reason: &str, now: u64)
        requires
            old(self).inv(),
        ensures
            final(self).inv(),
            final(self)@ == old(self)@.disconnected(session_id@, reason@, now),
    {
        let ghost before = *self;
        let id: u128 = session_id.number();
        let session = match self.sessions.remove(&id) {
            Some(session) => session,
            None => {
                assert(self@.sessions =~= before@.sessions);
                return ;
            },
        };
        proof {
            law_disconnecting_keeps_consistency(before@, id, reason@, now);
        }
        let mut remove_stream: bool = false;
        match self.streams.get_mut(session.key.as_str()) {
            Some(stream) => {
                stream.disconnect(session.role, id, reason, now);
                remove_stream = stream.is_deserted();
            },
            None => {},
        }
        if remove_stream {
            self.streams.remove(session.key.as_str());
        }
        let ghost after = before@.disconnected(id, reason@, now);
        assert(self@.sessions =~= after.sessions);
        assert(self@.streams =~= after.streams);
    }

    /// Disconnects a client now.
    pub fn unregister_session(&mut self, session_id: SessionId, reason: &str)
        requires
            old(self).inv(),
        ensures
            final(self).inv(),
            exists|now: u64| #[trigger]
                clock_shows(now) && final(self)@ == old(self)@.disconnected(
                    session_id@,
                    reason@,
                    now,
                ),
    {
        self.unregister_session_at(session_id, reason, unix_now_ms())
    }

    /// Counts a heartbeat on a control connection, and says whether its session exists.
    pub fn record_control_heartbeat_at(&mut self, session_id: SessionId, now: u64) -> (known: bool)
        requires
            old(self).inv(),
        ensures
            final(self).inv(),
            known == old(self)@.sessions.contains_key(session_id@),
            final(self)@ == old(self)@.control_heartbeat(session_id@, now),
    {
        let ghost before = *self;
        let id: u128 = session_id.number();
        proof {
            law_traffic_keeps_consistency(
                self@,
                id,
                arbitrary(),
                arbitrary(),
                0,
                0,
                0,
                now,
            );
        }
        let (role, key) = match self.sessions.get(&id) {
            Some(session) => (session.role, session.key.clone()),
            None => {
                return false;
            },
        };
        match self.streams.get_mut(key.as_str()) {
            Some(stream) => {
                stream.count_control_heartbeat(role, now);
            },
            None => {},
        }
        assert(self@ =~= before@.control_heartbeat(id, now));
        true
    }

    /// Counts a heartbeat on a control connection now, and says whether its session exists.
    pub fn record_control_heartbeat(&mut self, session_id: SessionId) -> (known: bool)
        requires
            old(self).inv(),
        ensures
            final(self).inv(),
            known == old(self)@.sessions.contains_key(session_id@),
            exists|now: u64| #[trigger]
                clock_shows(now) && final(self)@ == old(self)@.control_heartbeat(session_id@, now),
    {
        self.record_control_heartbeat_at(session_id, unix_now_ms())
    }

    /// Lets an endpoint speak for a session.
    pub fn record_udp_register_at(
        &mut self,
        session_id: SessionId,
        endpoint: Endpoint,
        now: u64,
    ) -> (result: Result<(), UdpRegisterError>)
        requires
            old(self).inv(),
        ensures
            final(self).inv(),
            result is Ok <==> old(self)@.sessions.contains_key(session_id@),
            final(self)@ == old(self)@.udp_registered(session_id@, endpoint, now),
    {
        let ghost before = *self;
        let id: u128 = session_id.number();
        proof {
            law_traffic_keeps_consistency(self@, id, endpoint, arbitrary(), 0, 0, 0, now);
        }
        let mut session = match self.sessions.remove(&id) {
            Some(session) => session,
            None => {
                assert(self@.sessions =~= before@.sessions);
                return Err(UdpRegisterError::UnknownSession);
            },
        };
        session.udp_endpoint = Some(endpoint);
        session.udp_last_seen_unix_ms = Some(now);
        let role = session.role;
        let key = session.key.clone();
        self.sessions.insert(id, session);
        match self.streams.get_mut(key.as_str()) {
            Some(stream) => {
                stream.count_udp_register(role, now);
            },
            None => {},
        }
        assert(self@.sessions =~= before@.udp_registered(id, endpoint, now).sessions);
        assert(self@ =~= before@.udp_registered(id, endpoint, now));
        Ok(())
    }

    /// Lets an endpoint speak for a session from now on.
    pub fn record_udp_register(&mut self, session_id: SessionId, endpoint: Endpoint) -> (result:
        Result<(), UdpRegisterError>)
        requires
            old(self).inv(),
        ensures
            final(self).inv(),
            result is Ok <==> old(self)@.sessions.contains_key(session_id@),
            exists|now: u64| #[trigger]
                clock_shows(now) && final(self)@ == old(self)@.udp_registered(
                    session_id@,
                    endpoint,
                    now,
                ),
    {
        self.record_udp_register_at(session_id, endpoint, unix_now_ms())
    }

    /// Counts a UDP heartbeat from the endpoint that speaks for a session; the endpoint stays.
    pub fn record_udp_heartbeat_at(
        &mut self,
        session_id: SessionId,
        endpoint: Endpoint,
        now: u64,
    ) -> (result: Result<(), UdpHeartbeatError>)
        requires
            old(self).inv(),
        ensures
            final(self).inv(),
            result == heartbeat_result(old(self)@, session_id@, endpoint, now),
            final(self)@ == old(self)@.udp_heartbeat(session_id@, endpoint, now),
    {
        let ghost before = *self;
        let id: u128 = session_id.number();
        proof {
            law_traffic_keeps_consistency(self@, id, endpoint, arbitrary(), 0, 0, 0, now);
        }
        let (role, key) = match self.sessions.get(&id) {
            Some(session) => {
                match ensure_udp_endpoint_matches(
                    session,
                    endpoint,
                    now,
                    self.udp_session_timeout_ms,
                ) {
                    Ok(()) => {},
                    Err(e) => {
                        return Err(map_udp_validation_error_to_heartbeat_error(e));
                    },
                }
                (session.role, session.key.clone())
            },
            None => {
                return Err(UdpHeartbeatError::UnknownSession);
            },
        };
        self.mark_seen(id, now);
        match self.streams.get_mut(key.as_str()) {
            Some(stream) => {
                stream.count_udp_heartbeat(role, now);
            },
            None => {},
        }
        assert(self@ =~= before@.udp_heartbeat(id, endpoint, now));
        Ok(())
    }

    /// Notes that the endpoint of a session was heard of.
    fn mark_seen(&mut self, id: u128, now: u64)
        requires
            old(self)@.sessions.contains_key(id),
            forall|other: u128| #[trigger]
                old(self).sessions@.contains_key(other) ==> old(self).sessions@[other].session_id@
                    == other,
        ensures
            final(self)@ == old(self)@.with_session(id, old(self)@.sessions[id].seen(now)),
            final(self).streams == old(self).streams,
            final(self).udp_session_timeout_ms == old(self).udp_session_timeout_ms,
            forall|other: u128| #[trigger]
                final(self).sessions@.contains_key(other)
                    ==> final(self).sessions@[other].session_id@ == other,
    {
        let ghost before = *self;
        match self.sessions.remove(&id) {
            Some(session) => {
                let mut session = session;
                session.udp_last_seen_unix_ms = Some(now);
                self.sessions.insert(id, session);
            },
            None => {},
        }
        assert(self@.sessions =~= before@.with_session(id, before@.sessions[id].seen(now)).sessions);
    }

    /// Counts a UDP heartbeat now.
    pub fn record_udp_heartbeat(&mut self, session_id: SessionId, endpoint: Endpoint) -> (result:
        Result<(), UdpHeartbeatError>)
        requires
            old(self).inv(),
        ensures
            final(self).inv(),
            exists|now: u64| #[trigger]
                clock_shows(now) && result == heartbeat_result(
                    old(self)@,
                    session_id@,
                    endpoint,
                    now,
                ) && final(self)@ == old(self)@.udp_heartbeat(session_id@, endpoint, now),
    {
        self.record_udp_heartbeat_at(session_id, endpoint, unix_now_ms())
    }

    /// Counts a packet that is none.
    pub fn record_invalid_udp_packet(&mut self)
        requires
            old(self).inv(),
        ensures
            final(self).inv(),
            final(self)@ == old(self)@.invalid_packet(),
    {
        proof {
            law_traffic_keeps_consistency(self@, 0, arbitrary(), arbitrary(), 0, 0, 0, 0);
        }
        self.invalid_udp_packets_total = self.invalid_udp_packets_total.wrapping_add(1);
    }

    /// Counts a packet that names no session.
    pub fn record_unknown_udp_session(&mut self)
        requires
            old(self).inv(),
        ensures
            final(self).inv(),
            final(self)@ == old(self)@.unknown_session(),
    {
        proof {
            law_traffic_keeps_consistency(self@, 0, arbitrary(), arbitrary(), 0, 0, 0, 0);
        }
        self.unknown_udp_session_packets_total =
        self.unknown_udp_session_packets_total.wrapping_add(1);
    }

    /// The subscribers of a key that audio goes to.
    fn collect_targets(&self, key: &str, now: u64) -> (targets: Vec<UdpDispatchTarget>)
        requires
            self.inv(),
        ensures
            are_targets_of(targets@, self@, key@, now),
    {
        let mut targets: Vec<UdpDispatchTarget> = Vec::new();
        let stream = match self.streams.get(key) {
            Some(stream) => stream,
            None => {
                assert(target_pairs(targets@).to_set() =~= self@.dispatch_targets(key@, now));
                return targets;
            },
        };
        let ids = stream.subscriber_ids();
        let mut i: usize = 0;
        while i < ids.len()
            invariant
                self.inv(),
                i <= ids.len(),
                ids@.no_duplicates(),
                target_pairs(targets@).no_duplicates(),
                forall|t: (u128, Endpoint)| #[trigger]
                    target_pairs(targets@).contains(t) <==> {
                        &&& ids@.take(i as int).contains(t.0)
                        &&& self@.sessions.contains_key(t.0)
                        &&& self@.sessions[t.0].active_endpoint(now, self@.udp_session_timeout_ms)
                            == Some(t.1)
                    },
            decreases ids.len() - i,
        {
            let id: u128 = ids[i];
            let ghost so_far = target_pairs(targets@);
            assert(ids@.take(i + 1) =~= ids@.take(i as int).push(id));
            assert(!ids@.take(i as int).contains(id));
            assert forall|x: u128| #[trigger] ids@.take(i + 1).contains(x) <==> (ids@.take(
                i as int,
            ).contains(x) || x == id) by {
                if x == id {
                    assert(ids@.take(i + 1)[i as int] == x);
                }
                if ids@.take(i as int).contains(x) {
                    let j = choose|j: int| 0 <= j < i && ids@.take(i as int)[j] == x;
                    assert(ids@.take(i + 1)[j] == x);
                }
            }
            match self.sessions.get(&id) {
                Some(session) => {
                    match active_udp_endpoint(
                        session.udp_endpoint,
                        session.udp_last_seen_unix_ms,
                        now,
                        self.udp_session_timeout_ms,
                    ) {
                        Some(endpoint) => {
                            let target = UdpDispatchTarget {
                                session_id: session.session_id,
                                endpoint,
                            };
                            targets.push(target);
                            assert(target_pairs(targets@) =~= so_far.push((id, endpoint)));
                            assert(!so_far.contains((id, endpoint)));
                            assert forall|t: (u128, Endpoint)| #[trigger]
                                target_pairs(targets@).contains(t) <==> (so_far.contains(t) || t
                                == (id, endpoint)) by {
                                if so_far.contains(t) {
                                    let j = choose|j: int| 0 <= j < so_far.len() && so_far[j] == t;
                                    assert(target_pairs(targets@)[j] == t);
                                }
                                if t == (id, endpoint) {
                                    assert(target_pairs(targets@)[so_far.len() as int] == t);
                                }
                            }
                        },
                        None => {},
                    }
                },
                None => {},
            }
            i = i + 1;
        }
        assert(ids@.take(ids@.len() as int) =~= ids@);
        assert forall|t: (u128, Endpoint)|
            target_pairs(targets@).to_set().contains(t) == self@.dispatch_targets(
                key@,
                now,
            ).contains(t) by {
            assert(ids@.to_set().contains(t.0) == ids@.contains(t.0));
        }
        assert(target_pairs(targets@).to_set() =~= self@.dispatch_targets(key@, now));
        targets
    }

    /// Accepts an audio packet of a publisher and says where it goes.
    pub fn prepare_audio_dispatch_at(
        &mut self,
        session_id: SessionId,
        source_endpoint: Endpoint,
        payload_bytes: usize,
        now: u64,
    ) -> (result: Result<AudioDispatchPlan, AudioDispatchError>)
        requires
            old(self).inv(),
        ensures
            final(self).inv(),
            is_audio_outcome(old(self)@, session_id, source_endpoint, now, result),
            final(self)@ == old(self)@.audio_received(
                session_id@,
                source_endpoint,
                payload_bytes,
                now,
            ),
    {
        let ghost before = *self;
        let id: u128 = session_id.number();
        proof {
            law_traffic_keeps_consistency(
                self@,
                id,
                source_endpoint,
                arbitrary(),
                payload_bytes,
                0,
                0,
                now,
            );
        }
        let key = match self.sessions.get(&id) {
            Some(session) => {
                if session.role != ClientRole::Publisher {
                    return Err(AudioDispatchError::WrongRole);
                }
                match ensure_udp_endpoint_matches(
                    session,
                    source_endpoint,
                    now,
                    self.udp_session_timeout_ms,
                ) {
                    Ok(()) => {},
                    Err(e) => {
                        return Err(map_udp_validation_error_to_audio_dispatch_error(e));
                    },
                }
                session.key.clone()
            },
            None => {
                return Err(AudioDispatchError::UnknownSession);
            },
        };
        let targets = self.collect_targets(key.as_str(), now);
        self.mark_seen(id, now);
        match self.streams.get_mut(key.as_str()) {
            Some(stream) => {
                stream.count_audio_in(payload_bytes, now);
            },
            None => {},
        }
        assert(self@ =~= before@.audio_received(id, source_endpoint, payload_bytes, now));
        Ok(AudioDispatchPlan { publisher_session_id: session_id, key, targets })
    }

    /// Accepts an audio packet of a publisher now and says where it goes.
    pub fn prepare_audio_dispatch(
        &mut self,
        session_id: SessionId,
        source_endpoint: Endpoint,
        payload_bytes: usize,
    ) -> (result: Result<AudioDispatchPlan, AudioDispatchError>)
        requires
            old(self).inv(),
        ensures
            final(self).inv(),
            exists|now: u64| #[trigger]
                clock_shows(now) && is_audio_outcome(
                    old(self)@,
                    session_id,
                    source_endpoint,
                    now,
                    result,
                ) && final(self)@ == old(self)@.audio_received(
                    session_id@,
                    source_endpoint,
                    payload_bytes,
                    now,
                ),
    {
        self.prepare_audio_dispatch_at(session_id, source_endpoint, payload_bytes, unix_now_ms())
    }

    /// Counts a packet for a session that could not be sent.
    pub fn record_udp_send_error_at(&mut self, session_id: SessionId, now: u64)
        requires
            old(self).inv(),
        ensures
            final(self).inv(),
            final(self)@ == old(self)@.send_error(session_id@, now),
    {
        let ghost before = *self;
        let id: u128 = session_id.number();
        proof {
            law_traffic_keeps_consistency(self@, id, arbitrary(), arbitrary(), 0, 0, 0, now);
        }
        let key = match self.sessions.get(&id) {
            Some(session) => session.key.clone(),
            None => {
                return ;
            },
        };
        match self.streams.get_mut(key.as_str()) {
            Some(stream) => {
                stream.count_send_error(now);
            },
            None => {},
        }
        assert(self@ =~= before@.send_error(id, now));
    }

    /// Counts a packet for a session that could not be sent just now.
    pub fn record_udp_send_error(&mut self, session_id: SessionId)
        requires
            old(self).inv(),
        ensures
            final(self).inv(),
            exists|now: u64| #[trigger]
                clock_shows(now) && final(self)@ == old(self)@.send_error(session_id@, now),
    {
        self.record_udp_send_error_at(session_id, unix_now_ms())
    }

    /// Counts an audio packet that was passed on, or dropped.
    pub fn record_audio_dispatch_outcome_at(
        &mut self,
        key: &str,
        payload_bytes: usize,
        successful_targets: usize,
        send_errors: usize,
        now: u64,
    )
        requires
            old(self).inv(),
        ensures
            final(self).inv(),
            final(self)@ == old(self)@.audio_sent(
                key@,
                payload_bytes,
                successful_targets,
                send_errors,
                now,
            ),
    {
        if successful_targets == 0 && send_errors == 0 {
            return ;
        }
        let ghost before = *self;
        proof {
            law_traffic_keeps_consistency(
                self@,
                0,
                arbitrary(),
                key@,
                payload_bytes,
                successful_targets,
                send_errors,
                now,
            );
        }
        match self.streams.get_mut(key) {
            Some(stream) => {
                stream.count_audio_out(payload_bytes, successful_targets, send_errors, now);
            },
            None => {},
        }
        assert(self@ =~= before@.audio_sent(
            key@,
            payload_bytes,
            successful_targets,
            send_errors,
            now,
        ));
    }

    /// Counts an audio packet that was just passed on, or dropped.
    pub fn record_audio_dispatch_outcome(
        &mut self,
        key: &str,
        payload_bytes: usize,
        successful_targets: usize,
        send_errors: usize,
    )
        requires
            old(self).inv(),
        ensures
            final(self).inv(),
            exists|now: u64| #[trigger]
                clock_shows(now) && final(self)@ == old(self)@.audio_sent(
                    key@,
                    payload_bytes,
                    successful_targets,
                    send_errors,
                    now,
                ),
    {
        self.record_audio_dispatch_outcome_at(
            key,
            payload_bytes,
            successful_targets,
            send_errors,
            unix_now_ms(),
        )
    }

    /// The peer of a session's control connection.
    pub fn tcp_peer_addr(&self, session_id: SessionId) -> (peer: Option<String>)
        requires
            self.inv(),
        ensures
            optional_text(peer) == if self@.sessions.contains_key(session_id@) {
                Some(self@.sessions[session_id@].tcp_peer_addr)
            } else {
                None
            },
    {
        match self.sessions.get(&session_id.number()) {
            Some(session) => Some(session.tcp_peer_addr.clone()),
            None => None,
        }
    }

    /// Whether a session exists in a role under a key.
    pub fn session_matches(&self, session_id: SessionId, role: ClientRole, key: &str) -> (matching:
        bool)
        requires
            self.inv(),
        ensures
            matching == (self@.sessions.contains_key(session_id@)
                && self@.sessions[session_id@].role == role && self@.sessions[session_id@].key
                == key@),
    {
        match self.sessions.get(&session_id.number()) {
            Some(session) => session.role == role && same_text(session.key.as_str(), key),
            None => false,
        }
    }

    /// Whether audio may still go to a target.
    pub fn subscriber_target_is_active_at(
        &self,
        session_id: SessionId,
        endpoint: Endpoint,
        now: u64,
    ) -> (active: bool)
        requires
            self.inv(),
        ensures
            active == self@.is_active_target(session_id@, endpoint, now),
    {
        match self.sessions.get(&session_id.number()) {
            Some(session) => {
                session.role == ClientRole::Subscriber && active_udp_endpoint(
                    session.udp_endpoint,
                    session.udp_last_seen_unix_ms,
                    now,
                    self.udp_session_timeout_ms,
                ) == Some(endpoint)
            },
            None => false,
        }
    }

    /// Whether audio may still go to a target now.
    pub fn subscriber_target_is_active(&self, session_id: SessionId, endpoint: Endpoint) -> (active:
        bool)
        requires
            self.inv(),
        ensures
            exists|now: u64| #[trigger]
                clock_shows(now) && active == self@.is_active_target(session_id@, endpoint, now),
    {
        self.subscriber_target_is_active_at(session_id, endpoint, unix_now_ms())
    }

    /// The role and the key of a session.
    pub fn session_role_and_key(&self, session_id: SessionId) -> (found: Option<
        (ClientRole, String),
    >)
        requires
            self.inv(),
        ensures
            match found {
                Some((role, key)) => {
                    &&& self@.sessions.contains_key(session_id@)
                    &&& role == self@.sessions[session_id@].role
                    &&& key@ == self@.sessions[session_id@].key
                },
                None => !self@.sessions.contains_key(session_id@),
            },
    {
        match self.sessions.get(&session_id.number()) {
            Some(session) => Some((session.role, session.key.clone())),
            None => None,
        }
    }

    /// Whether the endpoint of a session still counts.
    fn is_active(&self, id: u128, now: u64) -> (active: bool)
        requires
            self.inv(),
        ensures
            active == self@.is_active(id, now),
    {
        match self.sessions.get(&id) {
            Some(session) => active_udp_endpoint(
                session.udp_endpoint,
                session.udp_last_seen_unix_ms,
                now,
                self.udp_session_timeout_ms,
            ).is_some(),
            None => false,
        }
    }

    /// The number of those sessions whose endpoints still count.
    fn count_active(&self, ids: &Vec<u128>, now: u64) -> (count: usize)
        requires
            self.inv(),
            ids@.no_duplicates(),
        ensures
            count == Set::new(|id: u128| ids@.to_set().contains(id) && self@.is_active(id, now)).len(),
    {
        let mut count: usize = 0;
        let mut i: usize = 0;
        let ghost mut counted: Set<u128> = Set::empty();
        while i < ids.len()
            invariant
                self.inv(),
                ids@.no_duplicates(),
                i <= ids.len(),
                count <= i,
                counted.finite(),
                count == counted.len(),
                forall|id: u128| #[trigger]
                    counted.contains(id) <==> self@.is_active(id, now) && exists|j: int|
                        0 <= j < i && #[trigger] ids@[j] == id,
            decreases ids.len() - i,
        {
            let id: u128 = ids[i];
            assert(!counted.contains(id));
            if self.is_active(id, now) {
                count = count + 1;
                proof {
                    counted = counted.insert(id);
                }
            }
            i = i + 1;
        }
        assert(counted =~= Set::new(
            |id: u128| ids@.to_set().contains(id) && self@.is_active(id, now),
        )) by {
            assert forall|id: u128| counted.contains(id) == (ids@.to_set().contains(id)
                && self@.is_active(id, now)) by {
                if ids@.contains(id) {
                    let j = choose|j: int| 0 <= j < ids@.len() && ids@[j] == id;
                    assert(ids@[j] == id);
                }
            }
        }
        count
    }

    /// What a status query sees of one stream.
    fn stream_snapshot(&self, key: &str, stream: &StreamEntry, now: u64) -> (snapshot:
        StreamSnapshot)
        requires
            self.inv(),
            self@.streams.contains_key(key@),
            stream@ == self@.streams[key@],
        ensures
            is_stream_snapshot(snapshot, self@, key@, now),
    {
        let publisher_udp_registered = match stream.publisher_session {
            Some(id) => self.is_active(id, now),
            None => false,
        };
        let ids = stream.subscriber_ids();
        let subscriber_udp_registered_count: usize = self.count_active(&ids, now);
        proof {
            ids@.unique_seq_to_set();
            assert(Set::new(|id: u128| ids@.to_set().contains(id) && self@.is_active(id, now))
                =~= self@.active_subscribers(key@, now));
        }
        StreamSnapshot {
            key: key.to_owned(),
            publisher_control_connected: stream.publisher_session.is_some(),
            publisher_udp_registered,
            subscriber_count: ids.len(),
            subscriber_udp_registered_count,
            publisher_connections_total: stream.publisher_connections_total,
            subscriber_connections_total: stream.subscriber_connections_total,
            publisher_tcp_heartbeats_total: stream.publisher_tcp_heartbeats_total,
            subscriber_tcp_heartbeats_total: stream.subscriber_tcp_heartbeats_total,
            publisher_udp_registers_total: stream.publisher_udp_registers_total,
            subscriber_udp_registers_total: stream.subscriber_udp_registers_total,
            publisher_udp_heartbeats_total: stream.publisher_udp_heartbeats_total,
            subscriber_udp_heartbeats_total: stream.subscriber_udp_heartbeats_total,
            udp_audio_packets_in_total: stream.udp_audio_packets_in_total,
            udp_audio_bytes_in_total: stream.udp_audio_bytes_in_total,
            udp_audio_packets_out_total: stream.udp_audio_packets_out_total,
            udp_audio_bytes_out_total: stream.udp_audio_bytes_out_total,
            udp_send_errors_total: stream.udp_send_errors_total,
            last_activity_unix_ms: stream.last_activity_unix_ms,
            last_publisher_disconnect_reason: copy_optional_text(
                &stream.last_publisher_disconnect_reason,
            ),
            last_subscriber_disconnect_reason: copy_optional_text(
                &stream.last_subscriber_disconnect_reason,
            ),
        }
    }

    /// What a status query sees.
    pub fn snapshot_at(&self, now: u64) -> (snapshot: RegistrySnapshot)
        requires
            self.inv(),
        ensures
            is_snapshot(snapshot, self@, now),
            totals_are_sums(snapshot),
    {
        let stream_count: usize = self.streams.len();
        let session_count: usize = self.sessions.len();
        let ghost keys = self.streams.keys();
        let ghost timeout = self@.udp_session_timeout_ms;
        let ghost publishers = counted(ClientRole::Publisher);
        let ghost subscribers = counted(ClientRole::Subscriber);
        let ghost active_publishers = counted_active(ClientRole::Publisher, now, timeout);
        let ghost active_subscribers = counted_active(ClientRole::Subscriber, now, timeout);
        let ghost connected_number = |s: StreamSnapshot| one_if(s.publisher_control_connected);
        let ghost subscriber_number = |s: StreamSnapshot| s.subscriber_count as int;
        let ghost registered_number = |s: StreamSnapshot| one_if(s.publisher_udp_registered);
        let ghost active_number = |s: StreamSnapshot| s.subscriber_udp_registered_count as int;
        proof {
            self.streams.lemma_keys();
            assert(self.sessions@.dom() =~= self@.sessions.dom());
            assert(keys.take(0).to_set() =~= Set::empty());
            assert(self@.sessions_under(Set::empty(), publishers) =~= Set::empty());
            assert(self@.sessions_under(Set::empty(), subscribers) =~= Set::empty());
            assert(self@.sessions_under(Set::empty(), active_publishers) =~= Set::empty());
            assert(self@.sessions_under(Set::empty(), active_subscribers) =~= Set::empty());
        }
        let mut streams: Vec<StreamSnapshot> = Vec::with_capacity(stream_count);
        let mut active_publisher_count: usize = 0;
        let mut active_subscriber_count: usize = 0;
        let mut active_udp_publisher_count: usize = 0;
        let mut active_udp_subscriber_count: usize = 0;
        let mut i: usize = 0;
        while i < stream_count
            invariant
                self.inv(),
                keys == self.streams.keys(),
                keys.no_duplicates(),
                timeout == self@.udp_session_timeout_ms,
                stream_count == keys.len(),
                session_count == self@.sessions.dom().len(),
                publishers == counted(ClientRole::Publisher),
                subscribers == counted(ClientRole::Subscriber),
                active_publishers == counted_active(ClientRole::Publisher, now, timeout),
                active_subscribers == counted_active(ClientRole::Subscriber, now, timeout),
                connected_number == (|s: StreamSnapshot| one_if(s.publisher_control_connected)),
                subscriber_number == (|s: StreamSnapshot| s.subscriber_count as int),
                registered_number == (|s: StreamSnapshot| one_if(s.publisher_udp_registered)),
                active_number == (|s: StreamSnapshot| s.subscriber_udp_registered_count as int),
                i <= stream_count,
                snapshot_keys(streams@) == keys.take(i as int),
                forall|j: int|
                    0 <= j < i ==> is_stream_snapshot(#[trigger] streams@[j], self@, keys[j], now),
                active_publisher_count == self@.sessions_under(
                    keys.take(i as int).to_set(),
                    publishers,
                ).len(),
                active_subscriber_count == self@.sessions_under(
                    keys.take(i as int).to_set(),
                    subscribers,
                ).len(),
                active_udp_publisher_count == self@.sessions_under(
                    keys.take(i as int).to_set(),
                    active_publishers,
                ).len(),
                active_udp_subscriber_count == self@.sessions_under(
                    keys.take(i as int).to_set(),
                    active_subscribers,
                ).len(),
                active_publisher_count == sum_over(streams@, connected_number),
                active_subscriber_count == sum_over(streams@, subscriber_number),
                active_udp_publisher_count == sum_over(streams@, registered_number),
                active_udp_subscriber_count == sum_over(streams@, active_number),
            decreases stream_count - i,
        {
            let slot = self.streams.at(i);
            let stream = self.stream_snapshot(slot.key.as_str(), &slot.entry, now);
            let ghost key = keys[i as int];
            let ghost before = keys.take(i as int).to_set();
            proof {
                assert(keys.take(i + 1) =~= keys.take(i as int).push(key));
                keys.take(i as int).lemma_push_to_set_commute(key);
                assert(!before.contains(key));
                lemma_sessions_under_key(self@, key, now);
                lemma_sessions_under_one_more(self@, before, key, publishers);
                lemma_sessions_under_one_more(self@, before, key, subscribers);
                lemma_sessions_under_one_more(self@, before, key, active_publishers);
                lemma_sessions_under_one_more(self@, before, key, active_subscribers);
            }
            if stream.publisher_control_connected {
                active_publisher_count = active_publisher_count + 1;
            }
            active_subscriber_count = active_subscriber_count + stream.subscriber_count;
            if stream.publisher_udp_registered {
                active_udp_publisher_count = active_udp_publisher_count + 1;
            }
            active_udp_subscriber_count = active_udp_subscriber_count
                + stream.subscriber_udp_registered_count;
            let ghost earlier = streams@;
            streams.push(stream);
            proof {
                assert(streams@.drop_last() =~= earlier);
                assert(snapshot_keys(streams@) =~= keys.take(i + 1));
            }
            i = i + 1;
        }
        proof {
            assert(keys.take(stream_count as int) =~= keys);
            lemma_sessions_under_all(self@, now);
            assert(snapshot_keys(streams@) == keys);
            assert forall|a: int, b: int| 0 <= a < b < streams@.len() implies text_before(
                #[trigger] streams@[a].key@,
                #[trigger] streams@[b].key@,
            ) by {
                assert(snapshot_keys(streams@)[a] == streams@[a].key@);
                assert(snapshot_keys(streams@)[b] == streams@[b].key@);
                assert(text_before(keys[a], keys[b]));
            }
        }
        RegistrySnapshot {
            generated_at_unix_ms: now,
            stream_count,
            active_publisher_count,
            active_subscriber_count,
            active_udp_publisher_count,
            active_udp_subscriber_count,
            invalid_udp_packets_total: self.invalid_udp_packets_total,
            unknown_udp_session_packets_total: self.unknown_udp_session_packets_total,
            streams,
        }
    }

    /// What a status query sees now.
    pub fn snapshot(&self) -> (snapshot: RegistrySnapshot)
        requires
            self.inv(),
        ensures
            is_snapshot(snapshot, self@, snapshot.generated_at_unix_ms),
            clock_shows(snapshot.generated_at_unix_ms),
            totals_are_sums(snapshot),
    {
        self.snapshot_at(unix_now_ms())
    }
}

/// A copy of a text that may be missing.
fn copy_optional_text(text: &Option<String>) -> (copy: Option<String>)
    ensures
        optional_text(copy) == optional_text(*text),
{
    match text {
        Some(t) => Some(t.clone()),
        None => None,
    }
}

} // verus!
