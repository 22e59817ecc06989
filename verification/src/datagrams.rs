//! What each UDP packet does, from its bytes to the registry and to what the relay does about it.

use vstd::prelude::*;

use crate::endpoint::Endpoint;
use crate::laws::{heard_in_time, law_useless_packets_are_counted};
use crate::model::{RegistryView, SessionView};
use crate::protocol::{
    encode_packet, law_encode_writes_what_parse_read, law_parse_reads_what_encode_writes,
    parse_packet, payload_fits, ClientRole, Packet, UdpPacketError,
};
use crate::server::{after_datagram, is_action_for, UdpAction, UdpRejection};
use crate::state::{
    is_stream_snapshot, target_pairs, AudioDispatchError, StreamSnapshot, UdpHeartbeatError,
};
use crate::traffic::{
    law_audio_in_is_counted, law_registration_is_counted, law_udp_heartbeat_is_counted, plus,
    traffic, TrafficCounts,
};

verus! {

/// Whether a packet from an endpoint speaks for a session: the session has registered that
/// endpoint, and heard of it within the timeout.
pub open spec fn speaks_for(registry: RegistryView, id: u128, peer: Endpoint, now: u64) -> bool {
    &&& registry.sessions.contains_key(id)
    &&& registry.sessions[id].udp_endpoint == Some(peer)
    &&& heard_in_time(registry, id, now)
}

/// The registry with one more packet that names no session.
pub open spec fn with_unknown(registry: RegistryView) -> RegistryView {
    RegistryView {
        unknown_udp_session_packets_total: plus(registry.unknown_udp_session_packets_total, 1),
        ..registry
    }
}

/// A registration of a known session binds it to where the packet came from, as of now, and is
/// confirmed for that session; one of an unknown session is counted and not answered.
pub proof fn law_register_datagram(
    registry: RegistryView,
    id: u128,
    peer: Endpoint,
    now: u64,
    action: UdpAction,
)
    requires
        is_action_for(registry, encode_packet(Packet::Register { id }), peer, now, action),
    ensures
        ({
            let after = after_datagram(
                registry,
                encode_packet(Packet::Register { id }),
                peer,
                now,
            );
            if registry.sessions.contains_key(id) {
                &&& after.sessions == registry.sessions.insert(
                    id,
                    SessionView {
                        udp_endpoint: Some(peer),
                        udp_last_seen_unix_ms: Some(now),
                        ..registry.sessions[id]
                    },
                )
                &&& after.invalid_udp_packets_total == registry.invalid_udp_packets_total
                &&& after.unknown_udp_session_packets_total
                    == registry.unknown_udp_session_packets_total
                &&& action matches UdpAction::Acknowledge { session_id, role, key, ack }
                &&& session_id@ == id
                &&& role == registry.sessions[id].role
                &&& key@ == registry.sessions[id].key
                &&& parse_packet(ack@, 1200) == Ok::<Packet, UdpPacketError>(
                    Packet::RegisterAck { id },
                )
            } else {
                &&& after == with_unknown(registry)
                &&& action matches UdpAction::Reject(UdpRejection::RegisterUnknownSession(named))
                &&& named@ == id
            }
        }),
{
    law_parse_reads_what_encode_writes(Packet::Register { id }, 1200);
    law_parse_reads_what_encode_writes(Packet::RegisterAck { id }, 1200);
    law_useless_packets_are_counted(registry);
}

/// A registration of a known session shows as one more for its role.
pub proof fn law_register_datagram_is_counted(
    registry: RegistryView,
    id: u128,
    peer: Endpoint,
    now: u64,
    before: StreamSnapshot,
    asked_before: u64,
    after: StreamSnapshot,
    asked_after: u64,
)
    requires
        registry.consistent(),
        registry.sessions.contains_key(id),
        registry.sessions[id].key == before.key@,
        is_stream_snapshot(before, registry, before.key@, asked_before),
        is_stream_snapshot(
            after,
            after_datagram(registry, encode_packet(Packet::Register { id }), peer, now),
            before.key@,
            asked_after,
        ),
    ensures
        traffic(after) == match registry.sessions[id].role {
            ClientRole::Publisher => TrafficCounts {
                publisher_udp_registers_total: plus(before.publisher_udp_registers_total, 1),
                ..traffic(before)
            },
            ClientRole::Subscriber => TrafficCounts {
                subscriber_udp_registers_total: plus(before.subscriber_udp_registers_total, 1),
                ..traffic(before)
            },
        },
{
    law_parse_reads_what_encode_writes(Packet::Register { id }, 1200);
    law_registration_is_counted(
        registry,
        id,
        peer,
        now,
        before,
        asked_before,
        after,
        asked_after,
    );
}

/// A heartbeat from the endpoint that speaks for its session gives that endpoint the whole
/// timeout again. One from elsewhere, or too late, changes nothing and is turned down: as not
/// registered, as from the wrong endpoint, or as expired.
pub proof fn law_heartbeat_datagram(
    registry: RegistryView,
    id: u128,
    peer: Endpoint,
    now: u64,
    action: UdpAction,
)
    requires
        registry.consistent(),
        is_action_for(registry, encode_packet(Packet::Heartbeat { id }), peer, now, action),
    ensures
        ({
            let after = after_datagram(
                registry,
                encode_packet(Packet::Heartbeat { id }),
                peer,
                now,
            );
            if !registry.sessions.contains_key(id) {
                &&& after == with_unknown(registry)
                &&& action matches UdpAction::Reject(UdpRejection::HeartbeatUnknownSession(named))
                &&& named@ == id
            } else if speaks_for(registry, id, peer, now) {
                &&& after.sessions == registry.sessions.insert(
                    id,
                    SessionView { udp_last_seen_unix_ms: Some(now), ..registry.sessions[id] },
                )
                &&& after.invalid_udp_packets_total == registry.invalid_udp_packets_total
                &&& after.unknown_udp_session_packets_total
                    == registry.unknown_udp_session_packets_total
                &&& action is Heard
            } else {
                &&& after == registry
                &&& action matches UdpAction::Reject(UdpRejection::HeartbeatRefused(named, why))
                &&& named@ == id
                &&& why == if registry.sessions[id].udp_endpoint is None {
                    UdpHeartbeatError::UdpNotRegistered
                } else if registry.sessions[id].udp_endpoint != Some(peer) {
                    UdpHeartbeatError::UdpEndpointMismatch
                } else {
                    UdpHeartbeatError::UdpEndpointExpired
                }
            }
        }),
{
    law_parse_reads_what_encode_writes(Packet::Heartbeat { id }, 1200);
    law_useless_packets_are_counted(registry);
}

/// A heartbeat that counts shows as one more for the role of its session.
pub proof fn law_heartbeat_datagram_is_counted(
    registry: RegistryView,
    id: u128,
    peer: Endpoint,
    now: u64,
    before: StreamSnapshot,
    asked_before: u64,
    after: StreamSnapshot,
    asked_after: u64,
)
    requires
        registry.consistent(),
        speaks_for(registry, id, peer, now),
        registry.sessions[id].key == before.key@,
        is_stream_snapshot(before, registry, before.key@, asked_before),
        is_stream_snapshot(
            after,
            after_datagram(registry, encode_packet(Packet::Heartbeat { id }), peer, now),
            before.key@,
            asked_after,
        ),
    ensures
        traffic(after) == match registry.sessions[id].role {
            ClientRole::Publisher => TrafficCounts {
                publisher_udp_heartbeats_total: plus(before.publisher_udp_heartbeats_total, 1),
                ..traffic(before)
            },
            ClientRole::Subscriber => TrafficCounts {
                subscriber_udp_heartbeats_total: plus(before.subscriber_udp_heartbeats_total, 1),
                ..traffic(before)
            },
        },
{
    law_parse_reads_what_encode_writes(Packet::Heartbeat { id }, 1200);
    law_udp_heartbeat_is_counted(
        registry,
        id,
        peer,
        now,
        before,
        asked_before,
        after,
        asked_after,
    );
}

/// Audio from the endpoint that speaks for a publisher is passed on as it came, for the
/// publisher's key, and gives that endpoint the whole timeout again. Any other audio changes
/// nothing and is turned down, a subscriber's as well.
pub proof fn law_audio_datagram(
    registry: RegistryView,
    id: u128,
    sequence: u64,
    timestamp_ms: u64,
    payload: Seq<u8>,
    peer: Endpoint,
    now: u64,
    action: UdpAction,
)
    requires
        registry.consistent(),
        payload.len() <= 1200,
        is_action_for(
            registry,
            encode_packet(Packet::AudioData { id, sequence, timestamp_ms, payload }),
            peer,
            now,
            action,
        ),
    ensures
        ({
            let after = after_datagram(
                registry,
                encode_packet(Packet::AudioData { id, sequence, timestamp_ms, payload }),
                peer,
                now,
            );
            if !registry.sessions.contains_key(id) {
                &&& after == with_unknown(registry)
                &&& action matches UdpAction::Reject(UdpRejection::AudioUnknownSession(named))
                &&& named@ == id
            } else if registry.sessions[id].role == ClientRole::Publisher && speaks_for(
                registry,
                id,
                peer,
                now,
            ) {
                &&& after.sessions == registry.sessions.insert(
                    id,
                    SessionView { udp_last_seen_unix_ms: Some(now), ..registry.sessions[id] },
                )
                &&& after.invalid_udp_packets_total == registry.invalid_udp_packets_total
                &&& after.unknown_udp_session_packets_total
                    == registry.unknown_udp_session_packets_total
                &&& action matches UdpAction::Forward(job)
                &&& job.publisher_session_id@ == id
                &&& job.key@ == registry.sessions[id].key
                &&& job.sequence == sequence
                &&& job.timestamp_ms == timestamp_ms
                &&& job.payload@ == payload
                &&& target_pairs(job.targets@).no_duplicates()
            } else {
                &&& after == registry
                &&& action matches UdpAction::Reject(UdpRejection::AudioRefused(named, why))
                &&& named@ == id
                &&& why == if registry.sessions[id].role == ClientRole::Subscriber {
                    AudioDispatchError::WrongRole
                } else if registry.sessions[id].udp_endpoint is None {
                    AudioDispatchError::UdpNotRegistered
                } else if registry.sessions[id].udp_endpoint != Some(peer) {
                    AudioDispatchError::UdpEndpointMismatch
                } else {
                    AudioDispatchError::UdpEndpointExpired
                }
            }
        }),
{
    law_parse_reads_what_encode_writes(
        Packet::AudioData { id, sequence, timestamp_ms, payload },
        1200,
    );
    law_useless_packets_are_counted(registry);
}

/// Audio that is accepted shows under the publisher's key as one packet more that came in, and as
/// many bytes more as its payload has.
pub proof fn law_audio_datagram_is_counted(
    registry: RegistryView,
    id: u128,
    sequence: u64,
    timestamp_ms: u64,
    payload: Seq<u8>,
    peer: Endpoint,
    now: u64,
    before: StreamSnapshot,
    asked_before: u64,
    after: StreamSnapshot,
    asked_after: u64,
)
    requires
        registry.consistent(),
        payload.len() <= 1200,
        speaks_for(registry, id, peer, now),
        registry.sessions[id].role == ClientRole::Publisher,
        registry.sessions[id].key == before.key@,
        is_stream_snapshot(before, registry, before.key@, asked_before),
        is_stream_snapshot(
            after,
            after_datagram(
                registry,
                encode_packet(Packet::AudioData { id, sequence, timestamp_ms, payload }),
                peer,
                now,
            ),
            before.key@,
            asked_after,
        ),
    ensures
        traffic(after) == (TrafficCounts {
            udp_audio_packets_in_total: plus(before.udp_audio_packets_in_total, 1),
            udp_audio_bytes_in_total: plus(before.udp_audio_bytes_in_total, payload.len() as int),
            ..traffic(before)
        }),
{
    law_parse_reads_what_encode_writes(
        Packet::AudioData { id, sequence, timestamp_ms, payload },
        1200,
    );
    law_audio_in_is_counted(
        registry,
        id,
        peer,
        payload.len() as usize,
        now,
        before,
        asked_before,
        after,
        asked_after,
    );
}

/// What is no packet, and a confirmation, which no client sends, is counted as invalid, whatever
/// session it names, and is turned down; nothing else changes.
pub proof fn law_useless_datagram(
    registry: RegistryView,
    datagram: Seq<u8>,
    peer: Endpoint,
    now: u64,
    action: UdpAction,
)
    requires
        forall|packet: Packet|
            payload_fits(packet, 1200) && #[trigger] encode_packet(packet) == datagram ==> packet
                is RegisterAck,
        is_action_for(registry, datagram, peer, now, action),
    ensures
        after_datagram(registry, datagram, peer, now) == (RegistryView {
            invalid_udp_packets_total: plus(registry.invalid_udp_packets_total, 1),
            ..registry
        }),
        match parse_packet(datagram, 1200) {
            Err(e) => action == UdpAction::Reject(UdpRejection::Invalid(e)),
            Ok(packet) => action matches UdpAction::Reject(
                UdpRejection::UnexpectedRegisterAck(named),
            ) && packet == (Packet::RegisterAck { id: named@ }),
        },
{
    law_encode_writes_what_parse_read(datagram, 1200);
    law_useless_packets_are_counted(registry);
}

} // verus!
