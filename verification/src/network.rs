//! The network watcher: a diff of each connection-table snapshot against the
//! fingerprints reported so far.

use crate::dedup::{
    count_key, first_cycle_with, keys_of, lemma_keys_of_push, lemma_reported_on_first_cycle,
    lemma_reported_once, new_items, occurs_in, reported_in_cycle, reports_of_key, seen_after,
};
use crate::event::{event_views, NetworkEvent, NetworkEventView, TelemetryEvent, TelemetryEventView};
use vstd::prelude::*;

verus! {

/// Seconds between two readings of the connection table.
pub const POLL_INTERVAL_SECS: u64 = 20;

/// One row of a connection-table snapshot. `owner` is the process found for
/// the row's socket, if one was found.
#[derive(Debug, Clone, PartialEq, Eq)]
pub struct ConnectionEntry {
    pub local_address: String,
    pub remote_address: String,
    pub state: String,
    pub owner: Option<i32>,
}

/// The process identifier that is reported for an owner: the owner itself,
/// or -1 where none was found.
pub open spec fn resolved_pid(owner: Option<i32>) -> i32 {
    match owner {
        Some(pid) => pid,
        None => -1i32,
    }
}

/// The fingerprint of a row: both addresses, the state and the resolved
/// process identifier.
pub open spec fn fingerprint_of(c: ConnectionEntry) -> NetworkEventView {
    NetworkEventView {
        local_address: c.local_address@,
        remote_address: c.remote_address@,
        state: c.state@,
        pid: resolved_pid(c.owner),
    }
}

/// The key by which connections are told apart: the fingerprint.
pub open spec fn fingerprint_key() -> spec_fn(ConnectionEntry) -> NetworkEventView {
    |c: ConnectionEntry| fingerprint_of(c)
}

/// The event that reports the row `c`.
pub open spec fn network_event_of(c: ConnectionEntry) -> TelemetryEventView {
    TelemetryEventView::Network(fingerprint_of(c))
}

/// The events that one snapshot gives rise to when `seen` is remembered.
pub open spec fn network_events(seen: Set<NetworkEventView>, table: Seq<ConnectionEntry>) -> Seq<
    TelemetryEventView,
> {
    new_items(seen, table, fingerprint_key()).map_values(|c: ConnectionEntry| network_event_of(c))
}

/// Builds the event, and with it the fingerprint, of one row.
pub fn network_event(entry: &ConnectionEntry) -> (event: NetworkEvent)
    ensures
        event@ == fingerprint_of(*entry),
{
    let pid: i32 = match entry.owner {
        Some(pid) => pid,
        None => -1,
    };
    NetworkEvent {
        local_address: entry.local_address.clone(),
        remote_address: entry.remote_address.clone(),
        state: entry.state.clone(),
        pid,
    }
}

/// The fingerprints reported so far, each held once, in the order in which
/// they were first met. Nothing is ever removed.
pub struct NetworkWatcher {
    known_connections: Vec<NetworkEvent>,
}

impl View for NetworkWatcher {
    type V = Set<NetworkEventView>;

    closed spec fn view(&self) -> Set<NetworkEventView> {
        Set::new(
            |f: NetworkEventView|
                exists|i: int|
                    0 <= i < self.known_connections.len() && (
                    #[trigger] self.known_connections[i])@ == f,
        )
    }
}

impl NetworkWatcher {
    #[verifier::type_invariant]
    spec fn holds_each_once(&self) -> bool {
        forall|i: int, j: int|
            0 <= i < j < self.known_connections.len() ==> (#[trigger] self.known_connections[i])@
                != (#[trigger] self.known_connections[j])@
    }

    /// Starts a watcher that remembers nothing, so that the connections
    /// present at startup are reported on the first cycle.
    pub fn new() -> (watcher: NetworkWatcher)
        ensures
            watcher@ == Set::<NetworkEventView>::empty(),
    {
        NetworkWatcher { known_connections: Vec::new() }
    }

    /// Whether the fingerprint of `event` was reported before.
    pub fn has_seen(&self, event: &NetworkEvent) -> (seen: bool)
        ensures
            seen == self@.contains(event@),
    {
        let mut i: usize = 0;
        while i < self.known_connections.len()
            invariant
                i <= self.known_connections.len(),
                forall|j: int| 0 <= j < i ==> (#[trigger] self.known_connections[j])@ != event@,
            decreases self.known_connections.len() - i,
        {
            if self.known_connections[i].same_fingerprint(event) {
                return true;
            }
            i = i + 1;
        }
        false
    }

    /// Observes one connection table: reports, in table order, every row
    /// whose fingerprint was not reported before, and remembers it.
    pub fn observe(&mut self, table: &Vec<ConnectionEntry>) -> (events: Vec<TelemetryEvent>)
        ensures
            event_views(events@) == network_events(old(self)@, table@),
            final(self)@ == old(self)@.union(keys_of(table@, fingerprint_key())),
    {
        let mut events: Vec<TelemetryEvent> = Vec::new();
        let mut i: usize = 0;
        while i < table.len()
            invariant
                i <= table.len(),
                self@ == old(self)@.union(keys_of(table@.take(i as int), fingerprint_key())),
                event_views(events@) == network_events(old(self)@, table@.take(i as int)),
            decreases table.len() - i,
        {
            let ghost before = table@.take(i as int);
            let ghost upto = table@.take(i + 1);
            let ghost reported = new_items(old(self)@, before, fingerprint_key());
            proof {
                assert(upto.drop_last() =~= before);
                lemma_keys_of_push(upto, fingerprint_key());
            }
            let entry = &table[i];
            let event = network_event(entry);
            if !self.has_seen(&event) {
                let ghost earlier_events = events@;
                events.push(TelemetryEvent::Network(event.duplicate()));
                self.remember(event);
                proof {
                    assert(new_items(old(self)@, upto, fingerprint_key()) == reported.push(
                        *entry,
                    ));
                    assert(event_views(events@) =~= event_views(earlier_events).push(
                        network_event_of(*entry),
                    ));
                    assert(reported.push(*entry).map_values(
                        |c: ConnectionEntry| network_event_of(c),
                    ) =~= reported.map_values(|c: ConnectionEntry| network_event_of(c)).push(
                        network_event_of(*entry),
                    ));
                }
            }
            i = i + 1;
        }
        proof {
            assert(table@.take(table.len() as int) =~= table@);
        }
        events
    }

    /// One cycle of the watcher. A cycle whose table could not be read
    /// (`None`) reports nothing and leaves the watcher as it was.
    pub fn poll(&mut self, reading: &Option<Vec<ConnectionEntry>>) -> (events: Vec<TelemetryEvent>)
        ensures
            match reading {
                Some(table) => event_views(events@) == network_events(old(self)@, table@)
                    && final(self)@ == old(self)@.union(keys_of(table@, fingerprint_key())),
                None => events@.len() == 0 && final(self)@ == old(self)@,
            },
    {
        match reading {
            Some(table) => self.observe(table),
            None => Vec::new(),
        }
    }

    fn remember(&mut self, event: NetworkEvent)
        requires
            !old(self)@.contains(event@),
        ensures
            final(self)@ == old(self)@.insert(event@),
    {
        proof {
            use_type_invariant(&*self);
        }
        let ghost earlier = self.known_connections@;
        let mut known: Vec<NetworkEvent> = Vec::new();
        std::mem::swap(&mut self.known_connections, &mut known);
        known.push(event);
        proof {
            assert forall|i: int, j: int| 0 <= i < j < known.len() implies (#[trigger] known[i])@
                != (#[trigger] known[j])@ by {
                if j == earlier.len() {
                    assert(earlier[i]@ == known[i]@);
                } else {
                    assert(earlier[i]@ != earlier[j]@);
                }
            }
        }
        std::mem::swap(&mut self.known_connections, &mut known);
        proof {
            assert forall|f: NetworkEventView|
                self@.contains(f) <==> old(self)@.insert(event@).contains(f) by {
                if self@.contains(f) {
                    let i = choose|i: int|
                        0 <= i < self.known_connections.len() && (
                        #[trigger] self.known_connections[i])@ == f;
                    if i < earlier.len() {
                        assert(earlier[i]@ == f);
                    }
                }
                if old(self)@.contains(f) {
                    let i = choose|i: int| 0 <= i < earlier.len() && (#[trigger] earlier[i])@ == f;
                    assert(self.known_connections[i]@ == f);
                }
                if f == event@ {
                    assert(self.known_connections[earlier.len() as int]@ == f);
                }
            }
            assert(self@ =~= old(self)@.insert(event@));
        }
    }
}

/// How many events of `events` report the connection `fingerprint`.
pub open spec fn count_network_events(
    events: Seq<TelemetryEventView>,
    fingerprint: NetworkEventView,
) -> nat
    decreases events.len(),
{
    if events.len() == 0 {
        0
    } else {
        count_network_events(events.drop_last(), fingerprint) + match events.last() {
            TelemetryEventView::Network(e) => if e == fingerprint {
                1nat
            } else {
                0nat
            },
            _ => 0nat,
        }
    }
}

/// What cycle `c` reports when a new watcher observes the tables `cycles` in
/// turn.
pub open spec fn network_reports(cycles: Seq<Seq<ConnectionEntry>>, c: int) -> Seq<
    TelemetryEventView,
> {
    network_events(seen_after(Set::empty(), cycles.take(c), fingerprint_key()), cycles[c])
}

/// How many events report the connection `fingerprint` over all of `cycles`.
pub open spec fn network_reports_total(
    cycles: Seq<Seq<ConnectionEntry>>,
    fingerprint: NetworkEventView,
) -> nat
    decreases cycles.len(),
{
    if cycles.len() == 0 {
        0
    } else {
        network_reports_total(cycles.drop_last(), fingerprint) + count_network_events(
            network_reports(cycles, cycles.len() - 1),
            fingerprint,
        )
    }
}

proof fn lemma_count_network_events(items: Seq<ConnectionEntry>, fingerprint: NetworkEventView)
    ensures
        count_network_events(
            items.map_values(|c: ConnectionEntry| network_event_of(c)),
            fingerprint,
        ) == count_key(items, fingerprint_key(), fingerprint),
    decreases items.len(),
{
    let events = items.map_values(|c: ConnectionEntry| network_event_of(c));
    if items.len() > 0 {
        lemma_count_network_events(items.drop_last(), fingerprint);
        assert(events.drop_last() =~= items.drop_last().map_values(
            |c: ConnectionEntry| network_event_of(c),
        ));
        assert(events.last() == network_event_of(items.last()));
    }
}

proof fn lemma_network_total(cycles: Seq<Seq<ConnectionEntry>>, fingerprint: NetworkEventView)
    ensures
        network_reports_total(cycles, fingerprint) == reports_of_key(
            Set::empty(),
            cycles,
            fingerprint_key(),
            fingerprint,
        ),
    decreases cycles.len(),
{
    if cycles.len() > 0 {
        lemma_network_total(cycles.drop_last(), fingerprint);
        lemma_count_network_events(
            reported_in_cycle(Set::empty(), cycles, fingerprint_key(), cycles.len() - 1),
            fingerprint,
        );
    }
}

/// A cycle reports a fingerprint exactly once if its table is the first to
/// hold the fingerprint, the very first cycle included; every other cycle
/// reports it not at all.
pub proof fn law_connection_reported_on_first_sighting(
    cycles: Seq<Seq<ConnectionEntry>>,
    fingerprint: NetworkEventView,
    c: int,
)
    requires
        0 <= c < cycles.len(),
    ensures
        count_network_events(network_reports(cycles, c), fingerprint) == if first_cycle_with(
            cycles,
            fingerprint_key(),
            fingerprint,
            c,
        ) {
            1nat
        } else {
            0nat
        },
{
    lemma_reported_on_first_cycle(Set::empty(), cycles, fingerprint_key(), fingerprint, c);
    lemma_count_network_events(
        reported_in_cycle(Set::empty(), cycles, fingerprint_key(), c),
        fingerprint,
    );
}

/// Over any run of connection tables a fingerprint is reported exactly once
/// if some table holds it, and never otherwise.
pub proof fn law_connection_reported_once(
    cycles: Seq<Seq<ConnectionEntry>>,
    fingerprint: NetworkEventView,
)
    ensures
        network_reports_total(cycles, fingerprint) == if occurs_in(
            cycles,
            fingerprint_key(),
            fingerprint,
        ) {
            1nat
        } else {
            0nat
        },
{
    lemma_network_total(cycles, fingerprint);
    lemma_reported_once(Set::empty(), cycles, fingerprint_key(), fingerprint);
}

} // verus!
