//! The streams by their keys: a table that is kept in the order of the keys.

use std::collections::HashSet;

use vstd::prelude::*;
use vstd::std_specs::hash::*;
use vstd::string::*;

use crate::model::StreamView;
use crate::protocol::ClientRole;
use crate::text::{
    lemma_text_order_is_strict, lemma_text_order_is_transitive, order_text, text_before, TextOrder,
};

verus! {

broadcast use vstd::std_specs::hash::group_hash_axioms;

/// The characters of a text that may be missing.
pub open spec fn optional_text(text: Option<String>) -> Option<Seq<char>> {
    match text {
        Some(t) => Some(t@),
        None => None,
    }
}

/// The sessions under one key, and what was counted there.
#[derive(Debug)]
pub struct StreamEntry {
    pub publisher_session: Option<u128>,
    pub subscribers: HashSet<u128>,
    pub publisher_connections_total: u64,
    pub subscriber_connections_total: u64,
    pub publisher_tcp_heartbeats_total: u64,
    pub subscriber_tcp_heartbeats_total: u64,
    pub publisher_udp_registers_total: u64,
    pub subscriber_udp_registers_total: u64,
    pub publisher_udp_heartbeats_total: u64,
    pub subscriber_udp_heartbeats_total: u64,
    pub udp_audio_packets_in_total: u64,
    pub udp_audio_bytes_in_total: u64,
    pub udp_audio_packets_out_total: u64,
    pub udp_audio_bytes_out_total: u64,
    pub udp_send_errors_total: u64,
    pub last_activity_unix_ms: u64,
    pub last_publisher_disconnect_reason: Option<String>,
    pub last_subscriber_disconnect_reason: Option<String>,
}

impl View for StreamEntry {
    type V = StreamView;

    open spec fn view(&self) -> StreamView {
        StreamView {
            publisher_session: self.publisher_session,
            subscribers: self.subscribers@,
            publisher_connections_total: self.publisher_connections_total,
            subscriber_connections_total: self.subscriber_connections_total,
            publisher_tcp_heartbeats_total: self.publisher_tcp_heartbeats_total,
            subscriber_tcp_heartbeats_total: self.subscriber_tcp_heartbeats_total,
            publisher_udp_registers_total: self.publisher_udp_registers_total,
            subscriber_udp_registers_total: self.subscriber_udp_registers_total,
            publisher_udp_heartbeats_total: self.publisher_udp_heartbeats_total,
            subscriber_udp_heartbeats_total: self.subscriber_udp_heartbeats_total,
            udp_audio_packets_in_total: self.udp_audio_packets_in_total,
            udp_audio_bytes_in_total: self.udp_audio_bytes_in_total,
            udp_audio_packets_out_total: self.udp_audio_packets_out_total,
            udp_audio_bytes_out_total: self.udp_audio_bytes_out_total,
            udp_send_errors_total: self.udp_send_errors_total,
            last_activity_unix_ms: self.last_activity_unix_ms,
            last_publisher_disconnect_reason: optional_text(self.last_publisher_disconnect_reason),
            last_subscriber_disconnect_reason: optional_text(
                self.last_subscriber_disconnect_reason,
            ),
        }
    }
}

impl StreamEntry {
    /// A stream without sessions.
    pub fn new(now: u64) -> (entry: StreamEntry)
        ensures
            entry@ == StreamView::fresh(now),
    {
        StreamEntry {
            publisher_session: None,
            subscribers: HashSet::new(),
            publisher_connections_total: 0,
            subscriber_connections_total: 0,
            publisher_tcp_heartbeats_total: 0,
            subscriber_tcp_heartbeats_total: 0,
            publisher_udp_registers_total: 0,
            subscriber_udp_registers_total: 0,
            publisher_udp_heartbeats_total: 0,
            subscriber_udp_heartbeats_total: 0,
            udp_audio_packets_in_total: 0,
            udp_audio_bytes_in_total: 0,
            udp_audio_packets_out_total: 0,
            udp_audio_bytes_out_total: 0,
            udp_send_errors_total: 0,
            last_activity_unix_ms: now,
            last_publisher_disconnect_reason: None,
            last_subscriber_disconnect_reason: None,
        }
    }

    /// Whether no session is left.
    pub fn is_deserted(&self) -> (deserted: bool)
        ensures
            deserted == self@.is_deserted(),
    {
        self.publisher_session.is_none() && self.subscribers.is_empty()
    }

    /// The ids of the subscribers, in no particular order.
    pub fn subscriber_ids(&self) -> (ids: Vec<u128>)
        ensures
            ids@.no_duplicates(),
            ids@.to_set() == self@.subscribers,
    {
        let mut ids: Vec<u128> = Vec::new();
        for id in it: self.subscribers.iter()
            invariant
                ids@ == it.seq().unref().take(it.index()),
                it.seq() == vstd::std_specs::iter::IteratorSpec::remaining(
                    &self.subscribers.iter(),
                ),
        {
            ids.push(*id);
            assert(it.seq().unref().take(it.index() + 1) =~= it.seq().unref().take(
                it.index(),
            ).push(*id));
        }
        let ghost listed = vstd::std_specs::iter::IteratorSpec::remaining(&self.subscribers.iter());
        assert(ids@ =~= listed.unref());
        assert forall|i: int, j: int|
            0 <= i < ids@.len() && 0 <= j < ids@.len() && i != j implies ids@[i] != ids@[j] by {
            assert(listed[i] != listed[j]);
        }
        ids
    }

    /// Adds a session.
    pub fn connect(&mut self, role: ClientRole, id: u128, now: u64)
        ensures
            final(self)@ == old(self)@.connected(role, id, now),
    {
        match role {
            ClientRole::Publisher => {
                self.publisher_session = Some(id);
                self.publisher_connections_total = self.publisher_connections_total.wrapping_add(1);
            },
            ClientRole::Subscriber => {
                self.subscribers.insert(id);
                self.subscriber_connections_total = self.subscriber_connections_total.wrapping_add(
                    1,
                );
            },
        }
        self.last_activity_unix_ms = now;
    }

    /// Takes a session out.
    pub fn disconnect(&mut self, role: ClientRole, id: u128, reason: &str, now: u64)
        ensures
            final(self)@ == old(self)@.disconnected(role, id, reason@, now),
    {
        match role {
            ClientRole::Publisher => {
                if self.publisher_session == Some(id) {
                    self.publisher_session = None;
                }
                self.last_publisher_disconnect_reason = Some(reason.to_owned());
            },
            ClientRole::Subscriber => {
                self.subscribers.remove(&id);
                self.last_subscriber_disconnect_reason = Some(reason.to_owned());
                assert(self.subscribers@ =~= old(self).subscribers@.remove(id));
            },
        }
        self.last_activity_unix_ms = now;
    }

    /// Counts a heartbeat on a control connection.
    pub fn count_control_heartbeat(&mut self, role: ClientRole, now: u64)
        ensures
            final(self)@ == old(self)@.control_heartbeat(role, now),
    {
        match role {
            ClientRole::Publisher => {
                self.publisher_tcp_heartbeats_total =
                self.publisher_tcp_heartbeats_total.wrapping_add(1);
            },
            ClientRole::Subscriber => {
                self.subscriber_tcp_heartbeats_total =
                self.subscriber_tcp_heartbeats_total.wrapping_add(1);
            },
        }
        self.last_activity_unix_ms = now;
    }

    /// Counts the registration of an endpoint.
    pub fn count_udp_register(&mut self, role: ClientRole, now: u64)
        ensures
            final(self)@ == old(self)@.udp_register(role, now),
    {
        match role {
            ClientRole::Publisher => {
                self.publisher_udp_registers_total =
                self.publisher_udp_registers_total.wrapping_add(1);
            },
            ClientRole::Subscriber => {
                self.subscriber_udp_registers_total =
                self.subscriber_udp_registers_total.wrapping_add(1);
            },
        }
        self.last_activity_unix_ms = now;
    }

    /// Counts a UDP heartbeat.
    pub fn count_udp_heartbeat(&mut self, role: ClientRole, now: u64)
        ensures
            final(self)@ == old(self)@.udp_heartbeat(role, now),
    {
        match role {
            ClientRole::Publisher => {
                self.publisher_udp_heartbeats_total =
                self.publisher_udp_heartbeats_total.wrapping_add(1);
            },
            ClientRole::Subscriber => {
                self.subscriber_udp_heartbeats_total =
                self.subscriber_udp_heartbeats_total.wrapping_add(1);
            },
        }
        self.last_activity_unix_ms = now;
    }

    /// Counts an audio packet that came in.
    pub fn count_audio_in(&mut self, payload_bytes: usize, now: u64)
        ensures
            final(self)@ == old(self)@.audio_in(payload_bytes, now),
    {
        self.udp_audio_packets_in_total = self.udp_audio_packets_in_total.wrapping_add(1);
        self.udp_audio_bytes_in_total =
        self.udp_audio_bytes_in_total.wrapping_add(payload_bytes as u64);
        self.last_activity_unix_ms = now;
    }

    /// Counts a packet that could not be sent.
    pub fn count_send_error(&mut self, now: u64)
        ensures
            final(self)@ == old(self)@.send_error(now),
    {
        self.udp_send_errors_total = self.udp_send_errors_total.wrapping_add(1);
        self.last_activity_unix_ms = now;
    }

    /// Counts an audio packet that was passed on.
    pub fn count_audio_out(
        &mut self,
        payload_bytes: usize,
        successful_targets: usize,
        send_errors: usize,
        now: u64,
    )
        ensures
            final(self)@ == old(self)@.audio_out(
                payload_bytes,
                successful_targets,
                send_errors,
                now,
            ),
    {
        self.udp_audio_packets_out_total =
        self.udp_audio_packets_out_total.wrapping_add(successful_targets as u64);
        self.udp_audio_bytes_out_total =
        self.udp_audio_bytes_out_total.wrapping_add(
            (payload_bytes as u64).wrapping_mul(successful_targets as u64),
        );
        self.udp_send_errors_total = self.udp_send_errors_total.wrapping_add(send_errors as u64);
        self.last_activity_unix_ms = now;
    }
}

/// A stream under its key.
#[derive(Debug)]
pub struct StreamSlot {
    pub key: String,
    pub entry: StreamEntry,
}

/// The streams by their keys.
#[derive(Debug)]
pub struct StreamTable {
    slots: Vec<StreamSlot>,
}

/// Whether the keys of a row of streams go up.
pub open spec fn keys_go_up(slots: Seq<StreamSlot>) -> bool {
    forall|i: int, j: int|
        0 <= i < j < slots.len() ==> text_before(#[trigger] slots[i].key@, #[trigger] slots[j].key@)
}

/// The streams of a row by their keys.
pub open spec fn streams_of(slots: Seq<StreamSlot>) -> Map<Seq<char>, StreamView>
    decreases slots.len(),
{
    if slots.len() == 0 {
        Map::empty()
    } else {
        streams_of(slots.drop_last()).insert(slots.last().key@, slots.last().entry@)
    }
}

/// A row holds a stream under each of its keys, and under no other.
proof fn lemma_streams_of(slots: Seq<StreamSlot>)
    requires
        keys_go_up(slots),
    ensures
        forall|i: int|
            0 <= i < slots.len() ==> streams_of(slots).contains_key(#[trigger] slots[i].key@)
                && streams_of(slots)[slots[i].key@] == slots[i].entry@,
        forall|key: Seq<char>| #[trigger]
            streams_of(slots).contains_key(key) ==> exists|i: int|
                0 <= i < slots.len() && #[trigger] slots[i].key@ == key,
        streams_of(slots).dom().finite(),
        streams_of(slots).dom().len() == slots.len(),
    decreases slots.len(),
{
    if slots.len() > 0 {
        let shorter = slots.drop_last();
        let last = slots.last();
        assert forall|i: int, j: int| 0 <= i < j < shorter.len() implies text_before(
            #[trigger] shorter[i].key@,
            #[trigger] shorter[j].key@,
        ) by {
            assert(text_before(slots[i].key@, slots[j].key@));
        }
        lemma_streams_of(shorter);
        assert forall|i: int| 0 <= i < shorter.len() implies #[trigger] shorter[i].key@ != last.key@ by {
            assert(text_before(slots[i].key@, slots[slots.len() - 1].key@));
            lemma_text_order_is_strict(last.key@, last.key@);
        }
        assert(!streams_of(shorter).contains_key(last.key@));
        assert forall|i: int| 0 <= i < slots.len() implies streams_of(slots).contains_key(
            #[trigger] slots[i].key@,
        ) && streams_of(slots)[slots[i].key@] == slots[i].entry@ by {
            if i < shorter.len() {
                assert(shorter[i].key@ == slots[i].key@);
            }
        }
        assert forall|key: Seq<char>| #[trigger] streams_of(slots).contains_key(key) implies exists|
            i: int,
        | 0 <= i < slots.len() && #[trigger] slots[i].key@ == key by {
            if key == last.key@ {
                assert(slots[slots.len() - 1].key@ == key);
            } else {
                assert(streams_of(shorter).contains_key(key));
                let i = choose|i: int| 0 <= i < shorter.len() && #[trigger] shorter[i].key@ == key;
                assert(slots[i].key@ == key);
            }
        }
    }
}

/// A row that holds the streams of a map under its keys holds that map.
proof fn lemma_streams_are(slots: Seq<StreamSlot>, streams: Map<Seq<char>, StreamView>)
    requires
        keys_go_up(slots),
        forall|i: int|
            0 <= i < slots.len() ==> streams.contains_key(#[trigger] slots[i].key@)
                && streams[slots[i].key@] == slots[i].entry@,
        forall|key: Seq<char>| #[trigger]
            streams.contains_key(key) ==> exists|i: int|
                0 <= i < slots.len() && #[trigger] slots[i].key@ == key,
    ensures
        streams_of(slots) == streams,
{
    lemma_streams_of(slots);
    assert forall|key: Seq<char>| streams.contains_key(key) implies streams_of(slots).contains_key(key)
        && streams_of(slots)[key] == streams[key] by {
        let i = choose|i: int| 0 <= i < slots.len() && #[trigger] slots[i].key@ == key;
        assert(slots[i].key@ == key);
    }
    assert forall|key: Seq<char>| streams_of(slots).contains_key(key) implies streams.contains_key(key) by {
        let i = choose|i: int| 0 <= i < slots.len() && #[trigger] slots[i].key@ == key;
        assert(slots[i].key@ == key);
    }
    assert(streams_of(slots) =~= streams);
}

/// Changing the stream at a place changes the stream of its key, and no other.
proof fn lemma_updated_row(slots: Seq<StreamSlot>, i: int)
    requires
        keys_go_up(slots),
        0 <= i < slots.len(),
    ensures
        forall|slot: StreamSlot|
            slot.key@ == slots[i].key@ ==> keys_go_up(#[trigger] slots.update(i, slot))
                && streams_of(slots.update(i, slot)) == streams_of(slots).insert(
                slots[i].key@,
                slot.entry@,
            ),
{
    lemma_streams_of(slots);
    assert forall|slot: StreamSlot| slot.key@ == slots[i].key@ implies keys_go_up(
        #[trigger] slots.update(i, slot),
    ) && streams_of(slots.update(i, slot)) == streams_of(slots).insert(slots[i].key@, slot.entry@) by {
        let updated = slots.update(i, slot);
        let streams = streams_of(slots).insert(slots[i].key@, slot.entry@);
        assert forall|a: int, b: int| 0 <= a < b < updated.len() implies text_before(
            #[trigger] updated[a].key@,
            #[trigger] updated[b].key@,
        ) by {
            assert(text_before(slots[a].key@, slots[b].key@));
        }
        assert forall|j: int| 0 <= j < updated.len() implies streams.contains_key(
            #[trigger] updated[j].key@,
        ) && streams[updated[j].key@] == updated[j].entry@ by {
            if j != i {
                assert(updated[j] == slots[j]);
                lemma_text_order_is_strict(slots[i].key@, slots[i].key@);
                assert(text_before(slots[i].key@, slots[j].key@) || text_before(
                    slots[j].key@,
                    slots[i].key@,
                ));
            }
        }
        assert forall|key: Seq<char>| #[trigger] streams.contains_key(key) implies exists|j: int|
            0 <= j < updated.len() && #[trigger] updated[j].key@ == key by {
            if key == slots[i].key@ {
                assert(updated[i].key@ == key);
            } else {
                assert(streams_of(slots).contains_key(key));
                let j = choose|j: int| 0 <= j < slots.len() && #[trigger] slots[j].key@ == key;
                assert(updated[j].key@ == key);
            }
        }
        lemma_streams_are(updated, streams);
    }
}

/// A stream put where its key belongs is there, beside all others.
proof fn lemma_inserted_slot(slots: Seq<StreamSlot>, i: int, slot: StreamSlot)
    requires
        keys_go_up(slots),
        0 <= i <= slots.len(),
        forall|j: int| 0 <= j < i ==> text_before(#[trigger] slots[j].key@, slot.key@),
        forall|j: int| i <= j < slots.len() ==> text_before(slot.key@, #[trigger] slots[j].key@),
    ensures
        keys_go_up(slots.insert(i, slot)),
        streams_of(slots.insert(i, slot)) == streams_of(slots).insert(slot.key@, slot.entry@),
{
    lemma_streams_of(slots);
    lemma_text_order_is_strict(slot.key@, slot.key@);
    let longer = slots.insert(i, slot);
    let streams = streams_of(slots).insert(slot.key@, slot.entry@);
    assert forall|a: int, b: int| 0 <= a < b < longer.len() implies text_before(
        #[trigger] longer[a].key@,
        #[trigger] longer[b].key@,
    ) by {
        let x = if a < i { a } else { a - 1 };
        let y = if b < i { b } else { b - 1 };
        if a != i && b != i {
            assert(text_before(slots[x].key@, slots[y].key@));
        } else if a == i {
            assert(text_before(slot.key@, slots[y].key@));
        } else {
            assert(text_before(slots[x].key@, slot.key@));
        }
    }
    assert forall|j: int| 0 <= j < longer.len() implies streams.contains_key(
        #[trigger] longer[j].key@,
    ) && streams[longer[j].key@] == longer[j].entry@ by {
        if j < i {
            assert(longer[j] == slots[j]);
            assert(slots[j].key@ != slot.key@);
        } else if j > i {
            assert(longer[j] == slots[j - 1]);
            assert(slots[j - 1].key@ != slot.key@);
        }
    }
    assert forall|key: Seq<char>| #[trigger] streams.contains_key(key) implies exists|j: int|
        0 <= j < longer.len() && #[trigger] longer[j].key@ == key by {
        if key == slot.key@ {
            assert(longer[i].key@ == key);
        } else {
            assert(streams_of(slots).contains_key(key));
            let j = choose|j: int| 0 <= j < slots.len() && #[trigger] slots[j].key@ == key;
            let k = if j < i { j } else { j + 1 };
            assert(longer[k].key@ == key);
        }
    }
    lemma_streams_are(longer, streams);
}

/// Taking a stream out leaves all others.
proof fn lemma_removed_slot(slots: Seq<StreamSlot>, i: int)
    requires
        keys_go_up(slots),
        0 <= i < slots.len(),
    ensures
        keys_go_up(slots.remove(i)),
        streams_of(slots.remove(i)) == streams_of(slots).remove(slots[i].key@),
{
    lemma_streams_of(slots);
    let shorter = slots.remove(i);
    let streams = streams_of(slots).remove(slots[i].key@);
    assert forall|a: int, b: int| 0 <= a < b < shorter.len() implies text_before(
        #[trigger] shorter[a].key@,
        #[trigger] shorter[b].key@,
    ) by {
        let x = if a < i { a } else { a + 1 };
        let y = if b < i { b } else { b + 1 };
        assert(text_before(slots[x].key@, slots[y].key@));
    }
    assert forall|j: int| 0 <= j < shorter.len() implies streams.contains_key(
        #[trigger] shorter[j].key@,
    ) && streams[shorter[j].key@] == shorter[j].entry@ by {
        let k = if j < i { j } else { j + 1 };
        assert(shorter[j] == slots[k]);
        lemma_text_order_is_strict(slots[i].key@, slots[i].key@);
        assert(text_before(slots[i].key@, slots[k].key@) || text_before(
            slots[k].key@,
            slots[i].key@,
        ));
    }
    assert forall|key: Seq<char>| #[trigger] streams.contains_key(key) implies exists|j: int|
        0 <= j < shorter.len() && #[trigger] shorter[j].key@ == key by {
        assert(streams_of(slots).contains_key(key));
        let j = choose|j: int| 0 <= j < slots.len() && #[trigger] slots[j].key@ == key;
        let k = if j < i { j } else { j - 1 };
        assert(shorter[k].key@ == key);
    }
    lemma_streams_are(shorter, streams);
}

impl View for StreamTable {
    type V = Map<Seq<char>, StreamView>;

    closed spec fn view(&self) -> Map<Seq<char>, StreamView> {
        streams_of(self.slots@)
    }
}

impl StreamTable {
    /// Whether the table is in order.
    pub closed spec fn in_order(self) -> bool {
        keys_go_up(self.slots@)
    }

    /// An empty table.
    pub fn new() -> (table: StreamTable)
        ensures
            table.in_order(),
            table@ == Map::<Seq<char>, StreamView>::empty(),
    {
        StreamTable { slots: Vec::new() }
    }

    /// Looks a key up: the place of its stream, or the place where that would go.
    fn find(&self, key: &str) -> (place: Result<usize, usize>)
        requires
            self.in_order(),
        ensures
            match place {
                Ok(i) => i < self.slots@.len() && self.slots@[i as int].key@ == key@,
                Err(i) => {
                    &&& i <= self.slots@.len()
                    &&& forall|j: int| 0 <= j < i ==> text_before(#[trigger] self.slots@[j].key@, key@)
                    &&& forall|j: int|
                        i <= j < self.slots@.len() ==> text_before(
                            key@,
                            #[trigger] self.slots@[j].key@,
                        )
                },
            },
    {
        let mut low: usize = 0;
        let mut high: usize = self.slots.len();
        while low < high
            invariant
                self.in_order(),
                low <= high <= self.slots@.len(),
                forall|j: int| 0 <= j < low ==> text_before(#[trigger] self.slots@[j].key@, key@),
                forall|j: int|
                    high <= j < self.slots@.len() ==> text_before(
                        key@,
                        #[trigger] self.slots@[j].key@,
                    ),
            decreases high - low,
        {
            let middle: usize = low + (high - low) / 2;
            match order_text(self.slots[middle].key.as_str(), key) {
                TextOrder::Same => {
                    return Ok(middle);
                },
                TextOrder::Before => {
                    assert forall|j: int| 0 <= j <= middle implies text_before(
                        #[trigger] self.slots@[j].key@,
                        key@,
                    ) by {
                        if j < middle {
                            lemma_text_order_is_transitive(
                                self.slots@[j].key@,
                                self.slots@[middle as int].key@,
                                key@,
                            );
                        }
                    }
                    low = middle + 1;
                },
                TextOrder::After => {
                    assert forall|j: int| middle <= j < self.slots@.len() implies text_before(
                        key@,
                        #[trigger] self.slots@[j].key@,
                    ) by {
                        if middle < j {
                            lemma_text_order_is_transitive(
                                key@,
                                self.slots@[middle as int].key@,
                                self.slots@[j].key@,
                            );
                        }
                    }
                    high = middle;
                },
            }
        }
        Err(low)
    }

    /// What a place found, or a place not found, says of the table's view.
    proof fn lemma_found(&self, key: Seq<char>, place: Result<usize, usize>)
        requires
            self.in_order(),
            match place {
                Ok(i) => i < self.slots@.len() && self.slots@[i as int].key@ == key,
                Err(i) => {
                    &&& i <= self.slots@.len()
                    &&& forall|j: int| 0 <= j < i ==> text_before(#[trigger] self.slots@[j].key@, key)
                    &&& forall|j: int|
                        i <= j < self.slots@.len() ==> text_before(
                            key,
                            #[trigger] self.slots@[j].key@,
                        )
                },
            },
        ensures
            match place {
                Ok(i) => self@.contains_key(key) && self@[key] == self.slots@[i as int].entry@,
                Err(_) => !self@.contains_key(key),
            },
    {
        lemma_streams_of(self.slots@);
        if place is Err && self@.contains_key(key) {
            let j = choose|j: int| 0 <= j < self.slots@.len() && #[trigger] self.slots@[j].key@ == key;
            assert(self.slots@[j].key@ == key);
            lemma_text_order_is_strict(key, key);
        }
    }

    /// The stream of a key.
    pub fn get(&self, key: &str) -> (entry: Option<&StreamEntry>)
        requires
            self.in_order(),
        ensures
            match entry {
                Some(e) => self@.contains_key(key@) && e@ == self@[key@],
                None => !self@.contains_key(key@),
            },
    {
        let place = self.find(key);
        proof {
            self.lemma_found(key@, place);
        }
        match place {
            Ok(i) => Some(&self.slots[i].entry),
            Err(_) => None,
        }
    }

    /// The stream of a key, to be changed.
    pub fn get_mut(&mut self, key: &str) -> (entry: Option<&mut StreamEntry>)
        requires
            old(self).in_order(),
        ensures
            final(self).in_order(),
            match entry {
                Some(e) => {
                    &&& old(self)@.contains_key(key@)
                    &&& e@ == old(self)@[key@]
                    &&& final(self)@ == old(self)@.insert(key@, final(e)@)
                },
                None => !old(self)@.contains_key(key@) && final(self)@ == old(self)@,
            },
    {
        let place = self.find(key);
        proof {
            self.lemma_found(key@, place);
        }
        match place {
            Ok(i) => {
                proof {
                    lemma_updated_row(self.slots@, i as int);
                }
                let slot = &mut self.slots[i];
                Some(&mut slot.entry)
            },
            Err(_) => None,
        }
    }

    /// Puts a stream under a key that has none.
    pub fn insert(&mut self, key: &str, entry: StreamEntry)
        requires
            old(self).in_order(),
            !old(self)@.contains_key(key@),
        ensures
            final(self).in_order(),
            final(self)@ == old(self)@.insert(key@, entry@),
    {
        let place = self.find(key);
        proof {
            self.lemma_found(key@, place);
        }
        match place {
            Ok(_) => {},
            Err(i) => {
                let slot = StreamSlot { key: key.to_owned(), entry };
                let ghost before = self.slots@;
                self.slots.insert(i, slot);
                proof {
                    lemma_inserted_slot(before, i as int, slot);
                }
            },
        }
    }

    /// Takes the stream of a key out.
    pub fn remove(&mut self, key: &str)
        requires
            old(self).in_order(),
        ensures
            final(self).in_order(),
            final(self)@ == old(self)@.remove(key@),
    {
        let place = self.find(key);
        proof {
            self.lemma_found(key@, place);
        }
        match place {
            Ok(i) => {
                let ghost before = self.slots@;
                self.slots.remove(i);
                proof {
                    lemma_removed_slot(before, i as int);
                }
            },
            Err(_) => {
                assert(self@.remove(key@) =~= self@);
            },
        }
    }

    /// The keys in their order.
    pub closed spec fn keys(self) -> Seq<Seq<char>> {
        self.slots@.map_values(|slot: StreamSlot| slot.key@)
    }

    /// The table lists each of its keys once, in order.
    pub proof fn lemma_keys(&self)
        requires
            self.in_order(),
        ensures
            self.keys().no_duplicates(),
            self.keys().to_set() == self@.dom(),
            self.keys().len() == self@.dom().len(),
            self@.dom().finite(),
            forall|i: int, j: int|
                0 <= i < j < self.keys().len() ==> text_before(
                    #[trigger] self.keys()[i],
                    #[trigger] self.keys()[j],
                ),
    {
        lemma_streams_of(self.slots@);
        assert forall|i: int, j: int| 0 <= i < j < self.keys().len() implies text_before(
            #[trigger] self.keys()[i],
            #[trigger] self.keys()[j],
        ) by {
            assert(text_before(self.slots@[i].key@, self.slots@[j].key@));
        }
        assert forall|i: int, j: int|
            0 <= i < self.keys().len() && 0 <= j < self.keys().len() && i
                != j implies self.keys()[i] != self.keys()[j] by {
            lemma_text_order_is_strict(self.keys()[i], self.keys()[i]);
            if i < j {
                assert(text_before(self.keys()[i], self.keys()[j]));
            } else {
                assert(text_before(self.keys()[j], self.keys()[i]));
            }
        }
        assert forall|key: Seq<char>| self.keys().to_set().contains(key) == self@.dom().contains(
            key,
        ) by {
            if self@.dom().contains(key) {
                assert(streams_of(self.slots@).contains_key(key));
                let i = choose|i: int|
                    0 <= i < self.slots@.len() && #[trigger] self.slots@[i].key@ == key;
                assert(self.keys()[i] == key);
            }
            if self.keys().contains(key) {
                let i = choose|i: int| 0 <= i < self.keys().len() && self.keys()[i] == key;
                assert(self.slots@[i].key@ == key);
            }
        }
        assert(self.keys().to_set() =~= self@.dom());
    }

    /// The stream at a place in the order, with its key.
    pub fn at(&self, i: usize) -> (slot: &StreamSlot)
        requires
            self.in_order(),
            i < self.keys().len(),
        ensures
            slot.key@ == self.keys()[i as int],
            self@.contains_key(slot.key@),
            slot.entry@ == self@[slot.key@],
    {
        proof {
            lemma_streams_of(self.slots@);
        }
        &self.slots[i]
    }

    /// The number of streams.
    pub fn len(&self) -> (count: usize)
        requires
            self.in_order(),
        ensures
            self@.dom().finite(),
            count == self@.dom().len(),
            count == self.keys().len(),
    {
        proof {
            lemma_streams_of(self.slots@);
        }
        self.slots.len()
    }
}

} // verus!
