//! What the traffic counters of a status query say: how each packet, each connection and each
//! pass over the subscribers shows in them.

use vstd::prelude::*;

use crate::endpoint::Endpoint;
use crate::model::RegistryView;
use crate::protocol::ClientRole;
use crate::state::{audio_refusal, heartbeat_result, is_stream_snapshot, StreamSnapshot};
use crate::streams::optional_text;

verus! {

/// What a status query counts of one stream.
#[verifier::ext_equal]
pub struct TrafficCounts {
    pub publisher_connections_total: u64,
    pub subscriber_connections_total: u64,
    pub publisher_tcp_heartbeats_total: u64,
    pub subscriber_tcp_heartbeats_total: u64,
    pub publisher_udp_registers_total: u64,
    pub subscriber_udp_registers_total: u64,
    pub publisher_udp_heartbeats_total: u64,
    pub subscriber_udp_heartbeats_total: u64,
    pub udp_audio_packets_in_total: u64,
    pub udp_audio_bytes_in_total: u64,
    pub udp_audio_packets_out_total: u64,
    pub udp_audio_bytes_out_total: u64,
    pub udp_send_errors_total: u64,
}

/// What a status query counts of one stream.
pub open spec fn traffic(row: StreamSnapshot) -> TrafficCounts {
    TrafficCounts {
        publisher_connections_total: row.publisher_connections_total,
        subscriber_connections_total: row.subscriber_connections_total,
        publisher_tcp_heartbeats_total: row.publisher_tcp_heartbeats_total,
        subscriber_tcp_heartbeats_total: row.subscriber_tcp_heartbeats_total,
        publisher_udp_registers_total: row.publisher_udp_registers_total,
        subscriber_udp_registers_total: row.subscriber_udp_registers_total,
        publisher_udp_heartbeats_total: row.publisher_udp_heartbeats_total,
        subscriber_udp_heartbeats_total: row.subscriber_udp_heartbeats_total,
        udp_audio_packets_in_total: row.udp_audio_packets_in_total,
        udp_audio_bytes_in_total: row.udp_audio_bytes_in_total,
        udp_audio_packets_out_total: row.udp_audio_packets_out_total,
        udp_audio_bytes_out_total: row.udp_audio_bytes_out_total,
        udp_send_errors_total: row.udp_send_errors_total,
    }
}

/// A counter that went up by a number. It wraps around.
pub open spec fn plus(count: u64, more: int) -> u64 {
    ((count + more) % 0x1_0000_0000_0000_0000) as u64
}

/// Whether two rows give the same reasons for the last disconnects.
pub open spec fn same_reasons(a: StreamSnapshot, b: StreamSnapshot) -> bool {
    &&& optional_text(a.last_publisher_disconnect_reason) == optional_text(
        b.last_publisher_disconnect_reason,
    )
    &&& optional_text(a.last_subscriber_disconnect_reason) == optional_text(
        b.last_subscriber_disconnect_reason,
    )
}

/// An audio packet that is accepted shows under the key of its publisher: one packet more came in,
/// and as many bytes more as its payload has; nothing else is counted.
pub proof fn law_audio_in_is_counted(
    registry: RegistryView,
    id: u128,
    endpoint: Endpoint,
    payload_bytes: usize,
    now: u64,
    before: StreamSnapshot,
    asked_before: u64,
    after: StreamSnapshot,
    asked_after: u64,
)
    requires
        registry.consistent(),
        registry.sessions.contains_key(id),
        registry.sessions[id].key == before.key@,
        audio_refusal(registry, id, endpoint, now) is None,
        is_stream_snapshot(before, registry, before.key@, asked_before),
        is_stream_snapshot(
            after,
            registry.audio_received(id, endpoint, payload_bytes, now),
            before.key@,
            asked_after,
        ),
    ensures
        traffic(after) == (TrafficCounts {
            udp_audio_packets_in_total: plus(before.udp_audio_packets_in_total, 1),
            udp_audio_bytes_in_total: plus(before.udp_audio_bytes_in_total, payload_bytes as int),
            ..traffic(before)
        }),
        after.last_activity_unix_ms == now,
        same_reasons(before, after),
{
}

/// A pass over the subscribers shows under its key: as many packets more went out as targets were
/// reached, with the payload's bytes for each of them, and as many failures more as targets were
/// missed; nothing else is counted.
pub proof fn law_audio_out_is_counted(
    registry: RegistryView,
    payload_bytes: usize,
    successful_targets: usize,
    send_errors: usize,
    now: u64,
    before: StreamSnapshot,
    asked_before: u64,
    after: StreamSnapshot,
    asked_after: u64,
)
    requires
        registry.streams.contains_key(before.key@),
        is_stream_snapshot(before, registry, before.key@, asked_before),
        is_stream_snapshot(
            after,
            registry.audio_sent(before.key@, payload_bytes, successful_targets, send_errors, now),
            before.key@,
            asked_after,
        ),
    ensures
        traffic(after) == (TrafficCounts {
            udp_audio_packets_out_total: plus(
                before.udp_audio_packets_out_total,
                successful_targets as int,
            ),
            udp_audio_bytes_out_total: plus(
                before.udp_audio_bytes_out_total,
                payload_bytes * successful_targets,
            ),
            udp_send_errors_total: plus(before.udp_send_errors_total, send_errors as int),
            ..traffic(before)
        }),
        after.last_activity_unix_ms == if successful_targets + send_errors > 0 {
            now
        } else {
            before.last_activity_unix_ms
        },
        same_reasons(before, after),
{
    let product = payload_bytes * successful_targets;
    assert(product % 0x1_0000_0000_0000_0000 == (payload_bytes as u64).wrapping_mul(
        successful_targets as u64,
    ));
    if successful_targets == 0 {
        assert(product == 0) by (nonlinear_arith)
            requires
                product == payload_bytes * successful_targets,
                successful_targets == 0,
        ;
    }
}

/// A packet for a session that could not be sent shows as one failure more under the key of the
/// session; nothing else is counted.
pub proof fn law_send_error_is_counted(
    registry: RegistryView,
    id: u128,
    now: u64,
    before: StreamSnapshot,
    asked_before: u64,
    after: StreamSnapshot,
    asked_after: u64,
)
    requires
        registry.consistent(),
        registry.sessions.contains_key(id),
        registry.sessions[id].key == before.key@,
        is_stream_snapshot(before, registry, before.key@, asked_before),
        is_stream_snapshot(
            after,
            registry.send_error(id, now),
            before.key@,
            asked_after,
        ),
    ensures
        traffic(after) == (TrafficCounts {
            udp_send_errors_total: plus(before.udp_send_errors_total, 1),
            ..traffic(before)
        }),
        after.last_activity_unix_ms == now,
        same_reasons(before, after),
{
}

/// A heartbeat on a control connection shows as one more for the role of its session, under the
/// key of the session; nothing else is counted.
pub proof fn law_control_heartbeat_is_counted(
    registry: RegistryView,
    id: u128,
    now: u64,
    before: StreamSnapshot,
    asked_before: u64,
    after: StreamSnapshot,
    asked_after: u64,
)
    requires
        registry.consistent(),
        registry.sessions.contains_key(id),
        registry.sessions[id].key == before.key@,
        is_stream_snapshot(before, registry, before.key@, asked_before),
        is_stream_snapshot(
            after,
            registry.control_heartbeat(id, now),
            before.key@,
            asked_after,
        ),
    ensures
        traffic(after) == match registry.sessions[id].role {
            ClientRole::Publisher => TrafficCounts {
                publisher_tcp_heartbeats_total: plus(before.publisher_tcp_heartbeats_total, 1),
                ..traffic(before)
            },
            ClientRole::Subscriber => TrafficCounts {
                subscriber_tcp_heartbeats_total: plus(before.subscriber_tcp_heartbeats_total, 1),
                ..traffic(before)
            },
        },
        after.last_activity_unix_ms == now,
        same_reasons(before, after),
{
}

/// A registration of an endpoint shows as one more for the role of its session, under the key of
/// the session; nothing else is counted.
pub proof fn law_registration_is_counted(
    registry: RegistryView,
    id: u128,
    endpoint: Endpoint,
    now: u64,
    before: StreamSnapshot,
    asked_before: u64,
    after: StreamSnapshot,
    asked_after: u64,
)
    requires
        registry.consistent(),
        registry.sessions.contains_key(id),
        registry.sessions[id].key == before.key@,
        is_stream_snapshot(before, registry, before.key@, asked_before),
        is_stream_snapshot(
            after,
            registry.udp_registered(id, endpoint, now),
            before.key@,
            asked_after,
        ),
    ensures
        traffic(after) == match registry.sessions[id].role {
            ClientRole::Publisher => TrafficCounts {
                publisher_udp_registers_total: plus(before.publisher_udp_registers_total, 1),
                ..traffic(before)
            },
            ClientRole::Subscriber => TrafficCounts {
                subscriber_udp_registers_total: plus(before.subscriber_udp_registers_total, 1),
                ..traffic(before)
            },
        },
        after.last_activity_unix_ms == now,
        same_reasons(before, after),
{
}

/// A UDP heartbeat that is accepted shows as one more for the role of its session, under the key
/// of the session; nothing else is counted.
pub proof fn law_udp_heartbeat_is_counted(
    registry: RegistryView,
    id: u128,
    endpoint: Endpoint,
    now: u64,
    before: StreamSnapshot,
    asked_before: u64,
    after: StreamSnapshot,
    asked_after: u64,
)
    requires
        registry.consistent(),
        registry.sessions.contains_key(id),
        registry.sessions[id].key == before.key@,
        heartbeat_result(registry, id, endpoint, now) is Ok,
        is_stream_snapshot(before, registry, before.key@, asked_before),
        is_stream_snapshot(
            after,
            registry.udp_heartbeat(id, endpoint, now),
            before.key@,
            asked_after,
        ),
    ensures
        traffic(after) == match registry.sessions[id].role {
            ClientRole::Publisher => TrafficCounts {
                publisher_udp_heartbeats_total: plus(before.publisher_udp_heartbeats_total, 1),
                ..traffic(before)
            },
            ClientRole::Subscriber => TrafficCounts {
                subscriber_udp_heartbeats_total: plus(before.subscriber_udp_heartbeats_total, 1),
                ..traffic(before)
            },
        },
        after.last_activity_unix_ms == now,
        same_reasons(before, after),
{
}

/// A client that connects under a key in use shows as one connection more for its role; nothing
/// else is counted.
pub proof fn law_connection_is_counted(
    registry: RegistryView,
    role: ClientRole,
    tcp_peer_addr: Seq<char>,
    id: u128,
    now: u64,
    before: StreamSnapshot,
    asked_before: u64,
    after: StreamSnapshot,
    asked_after: u64,
)
    requires
        registry.streams.contains_key(before.key@),
        is_stream_snapshot(before, registry, before.key@, asked_before),
        is_stream_snapshot(
            after,
            registry.connected(role, before.key@, tcp_peer_addr, id, now),
            before.key@,
            asked_after,
        ),
    ensures
        traffic(after) == match role {
            ClientRole::Publisher => TrafficCounts {
                publisher_connections_total: plus(before.publisher_connections_total, 1),
                ..traffic(before)
            },
            ClientRole::Subscriber => TrafficCounts {
                subscriber_connections_total: plus(before.subscriber_connections_total, 1),
                ..traffic(before)
            },
        },
        after.last_activity_unix_ms == now,
        same_reasons(before, after),
{
}

/// A client that leaves, while others stay under its key, leaves the counters as they are, and the
/// reason why it left for its role.
pub proof fn law_disconnect_leaves_its_reason(
    registry: RegistryView,
    id: u128,
    reason: Seq<char>,
    now: u64,
    before: StreamSnapshot,
    asked_before: u64,
    after: StreamSnapshot,
    asked_after: u64,
)
    requires
        registry.consistent(),
        registry.sessions.contains_key(id),
        registry.sessions[id].key == before.key@,
        registry.disconnected(id, reason, now).streams.contains_key(before.key@),
        is_stream_snapshot(before, registry, before.key@, asked_before),
        is_stream_snapshot(
            after,
            registry.disconnected(id, reason, now),
            before.key@,
            asked_after,
        ),
    ensures
        traffic(after) == traffic(before),
        after.last_activity_unix_ms == now,
        optional_text(after.last_publisher_disconnect_reason)
            == match registry.sessions[id].role {
            ClientRole::Publisher => Some(reason),
            ClientRole::Subscriber => optional_text(before.last_publisher_disconnect_reason),
        },
        optional_text(after.last_subscriber_disconnect_reason)
            == match registry.sessions[id].role {
            ClientRole::Publisher => optional_text(before.last_subscriber_disconnect_reason),
            ClientRole::Subscriber => Some(reason),
        },
{
}

/// Under a key that was not in use, everything is counted from nothing, whoever was there before:
/// the first client shows as the only connection.
pub proof fn law_new_stream_counts_from_nothing(
    registry: RegistryView,
    role: ClientRole,
    key: Seq<char>,
    tcp_peer_addr: Seq<char>,
    id: u128,
    now: u64,
    row: StreamSnapshot,
    asked: u64,
)
    requires
        !registry.streams.contains_key(key),
        is_stream_snapshot(
            row,
            registry.connected(role, key, tcp_peer_addr, id, now),
            key,
            asked,
        ),
    ensures
        traffic(row) == (TrafficCounts {
            publisher_connections_total: if role == ClientRole::Publisher {
                1
            } else {
                0
            },
            subscriber_connections_total: if role == ClientRole::Subscriber {
                1
            } else {
                0
            },
            publisher_tcp_heartbeats_total: 0,
            subscriber_tcp_heartbeats_total: 0,
            publisher_udp_registers_total: 0,
            subscriber_udp_registers_total: 0,
            publisher_udp_heartbeats_total: 0,
            subscriber_udp_heartbeats_total: 0,
            udp_audio_packets_in_total: 0,
            udp_audio_bytes_in_total: 0,
            udp_audio_packets_out_total: 0,
            udp_audio_bytes_out_total: 0,
            udp_send_errors_total: 0,
        }),
        row.last_activity_unix_ms == now,
        row.last_publisher_disconnect_reason is None,
        row.last_subscriber_disconnect_reason is None,
{
}

/// The registry after one audio packet after another of one session.
pub open spec fn after_audio(
    registry: RegistryView,
    id: u128,
    endpoint: Endpoint,
    sizes: Seq<usize>,
    times: Seq<u64>,
) -> RegistryView
    decreases sizes.len(),
{
    if sizes.len() == 0 {
        registry
    } else {
        after_audio(registry, id, endpoint, sizes.drop_last(), times).audio_received(
            id,
            endpoint,
            sizes.last(),
            times[sizes.len() - 1],
        )
    }
}

/// The sum of sizes.
pub open spec fn total_size(sizes: Seq<usize>) -> nat
    decreases sizes.len(),
{
    if sizes.len() == 0 {
        0
    } else {
        total_size(sizes.drop_last()) + sizes.last() as nat
    }
}

/// Audio adds up: after any number of accepted packets, as many packets more came in, and as many
/// bytes more as their payloads have together; nothing else is counted.
pub proof fn law_audio_in_adds_up(
    registry: RegistryView,
    id: u128,
    endpoint: Endpoint,
    sizes: Seq<usize>,
    times: Seq<u64>,
    before: StreamSnapshot,
    asked_before: u64,
    after: StreamSnapshot,
    asked_after: u64,
)
    requires
        registry.consistent(),
        registry.sessions.contains_key(id),
        registry.sessions[id].key == before.key@,
        forall|n: int|
            0 <= n < sizes.len() ==> audio_refusal(
                #[trigger] after_audio(registry, id, endpoint, sizes.take(n), times),
                id,
                endpoint,
                times[n],
            ) is None,
        is_stream_snapshot(before, registry, before.key@, asked_before),
        is_stream_snapshot(
            after,
            after_audio(registry, id, endpoint, sizes, times),
            before.key@,
            asked_after,
        ),
    ensures
        traffic(after) == (TrafficCounts {
            udp_audio_packets_in_total: plus(
                before.udp_audio_packets_in_total,
                sizes.len() as int,
            ),
            udp_audio_bytes_in_total: plus(
                before.udp_audio_bytes_in_total,
                total_size(sizes) as int,
            ),
            ..traffic(before)
        }),
        same_reasons(before, after),
{
    lemma_audio_in_adds_up(registry, id, endpoint, sizes, times, before.key@);
}

proof fn lemma_audio_in_adds_up(
    registry: RegistryView,
    id: u128,
    endpoint: Endpoint,
    sizes: Seq<usize>,
    times: Seq<u64>,
    key: Seq<char>,
)
    requires
        registry.consistent(),
        registry.sessions.contains_key(id),
        registry.sessions[id].key == key,
        forall|n: int|
            0 <= n < sizes.len() ==> audio_refusal(
                #[trigger] after_audio(registry, id, endpoint, sizes.take(n), times),
                id,
                endpoint,
                times[n],
            ) is None,
    ensures
        ({
            let later = after_audio(registry, id, endpoint, sizes, times);
            let before = registry.streams[key];
            let after = later.streams[key];
            &&& later.sessions.contains_key(id)
            &&& later.sessions[id].key == key
            &&& later.streams.contains_key(key)
            &&& after.udp_audio_packets_in_total == plus(
                before.udp_audio_packets_in_total,
                sizes.len() as int,
            )
            &&& after.udp_audio_bytes_in_total == plus(
                before.udp_audio_bytes_in_total,
                total_size(sizes) as int,
            )
            &&& after.publisher_connections_total == before.publisher_connections_total
            &&& after.subscriber_connections_total == before.subscriber_connections_total
            &&& after.publisher_tcp_heartbeats_total == before.publisher_tcp_heartbeats_total
            &&& after.subscriber_tcp_heartbeats_total == before.subscriber_tcp_heartbeats_total
            &&& after.publisher_udp_registers_total == before.publisher_udp_registers_total
            &&& after.subscriber_udp_registers_total == before.subscriber_udp_registers_total
            &&& after.publisher_udp_heartbeats_total == before.publisher_udp_heartbeats_total
            &&& after.subscriber_udp_heartbeats_total == before.subscriber_udp_heartbeats_total
            &&& after.udp_audio_packets_out_total == before.udp_audio_packets_out_total
            &&& after.udp_audio_bytes_out_total == before.udp_audio_bytes_out_total
            &&& after.udp_send_errors_total == before.udp_send_errors_total
            &&& after.last_publisher_disconnect_reason == before.last_publisher_disconnect_reason
            &&& after.last_subscriber_disconnect_reason == before.last_subscriber_disconnect_reason
        }),
    decreases sizes.len(),
{
    if sizes.len() > 0 {
        let shorter = sizes.drop_last();
        assert(sizes.take(sizes.len() - 1) =~= shorter);
        assert forall|n: int| 0 <= n < shorter.len() implies audio_refusal(
            #[trigger] after_audio(registry, id, endpoint, shorter.take(n), times),
            id,
            endpoint,
            times[n],
        ) is None by {
            assert(shorter.take(n) =~= sizes.take(n));
            assert(audio_refusal(
                after_audio(registry, id, endpoint, sizes.take(n), times),
                id,
                endpoint,
                times[n],
            ) is None);
        }
        lemma_audio_in_adds_up(registry, id, endpoint, shorter, times, key);
        assert(audio_refusal(
            after_audio(registry, id, endpoint, sizes.take(sizes.len() - 1), times),
            id,
            endpoint,
            times[sizes.len() - 1],
        ) is None);
    }
}

} // verus!
