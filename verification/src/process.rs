//! The process watcher: a diff of each process-table snapshot against the
//! identifiers met so far.

use crate::dedup::{
    count_key, first_cycle_with, keys_of, lemma_keys_of_push, lemma_reported_on_first_cycle,
    lemma_reported_once, new_items, occurs_in, reported_in_cycle, reports_of_key, seen_after,
};
use crate::event::{event_views, ProcessEvent, ProcessEventView, TelemetryEvent, TelemetryEventView};
use std::collections::HashSet;
use vstd::prelude::*;
use vstd::string::StringExecFns;

verus! {

broadcast use vstd::std_specs::hash::group_hash_axioms;

/// Seconds between two enumerations of the process table.
pub const POLL_INTERVAL_SECS: u64 = 10;

/// One row of a process-table snapshot.
#[derive(Debug, Clone, PartialEq, Eq)]
pub struct ProcessInfo {
    pub pid: usize,
    pub name: String,
    pub exe: String,
    pub args: Vec<String>,
}

/// The key by which processes are told apart: the identifier.
pub open spec fn pid_key() -> spec_fn(ProcessInfo) -> usize {
    |p: ProcessInfo| p.pid
}

/// The texts of `parts`, with one space between neighbours.
pub open spec fn space_joined(parts: Seq<String>) -> Seq<char>
    decreases parts.len(),
{
    if parts.len() == 0 {
        Seq::empty()
    } else if parts.len() == 1 {
        parts[0]@
    } else {
        space_joined(parts.drop_last()) + seq![' '] + parts.last()@
    }
}

/// The event that reports the process `p`.
pub open spec fn process_event_of(p: ProcessInfo) -> TelemetryEventView {
    TelemetryEventView::Process(
        ProcessEventView { pid: p.pid, name: p.name@, exe: p.exe@, cmd: space_joined(p.args@) },
    )
}

/// The events that one snapshot gives rise to when `seen` is remembered.
pub open spec fn process_events(seen: Set<usize>, snapshot: Seq<ProcessInfo>) -> Seq<
    TelemetryEventView,
> {
    new_items(seen, snapshot, pid_key()).map_values(|p: ProcessInfo| process_event_of(p))
}

/// Joins an argument list into one command line, a space between arguments.
pub fn join_args(args: &Vec<String>) -> (joined: String)
    ensures
        joined@ == space_joined(args@),
{
    let mut joined = String::new();
    let mut i: usize = 0;
    while i < args.len()
        invariant
            i <= args.len(),
            joined@ == space_joined(args@.take(i as int)),
        decreases args.len() - i,
    {
        proof {
            reveal_strlit(" ");
            assert(args@.take(i + 1).drop_last() =~= args@.take(i as int));
        }
        if i > 0 {
            joined.append(" ");
        }
        joined.append(args[i].as_str());
        i = i + 1;
    }
    proof {
        assert(args@.take(args.len() as int) =~= args@);
    }
    joined
}

/// Builds the event that reports one process.
pub fn process_event(info: &ProcessInfo) -> (event: TelemetryEvent)
    ensures
        event@ == process_event_of(*info),
{
    TelemetryEvent::Process(
        ProcessEvent {
            pid: info.pid,
            name: info.name.clone(),
            exe: info.exe.clone(),
            cmd: join_args(&info.args),
        },
    )
}

/// The identifiers met so far. The set only grows.
pub struct ProcessWatcher {
    known_pids: HashSet<usize>,
}

impl View for ProcessWatcher {
    type V = Set<usize>;

    closed spec fn view(&self) -> Set<usize> {
        self.known_pids@
    }
}

impl ProcessWatcher {
    /// Starts a watcher from the first full enumeration. Its processes are
    /// remembered and none of them is reported.
    pub fn seed(initial: &Vec<ProcessInfo>) -> (watcher: ProcessWatcher)
        ensures
            watcher@ == keys_of(initial@, pid_key()),
    {
        let mut known_pids: HashSet<usize> = HashSet::new();
        let mut i: usize = 0;
        while i < initial.len()
            invariant
                i <= initial.len(),
                known_pids@ == keys_of(initial@.take(i as int), pid_key()),
            decreases initial.len() - i,
        {
            proof {
                assert(initial@.take(i + 1).drop_last() =~= initial@.take(i as int));
                lemma_keys_of_push(initial@.take(i + 1), pid_key());
            }
            known_pids.insert(initial[i].pid);
            i = i + 1;
        }
        proof {
            assert(initial@.take(initial.len() as int) =~= initial@);
        }
        ProcessWatcher { known_pids }
    }

    /// Whether the identifier `pid` was met before.
    pub fn has_seen(&self, pid: usize) -> (seen: bool)
        ensures
            seen == self@.contains(pid),
    {
        self.known_pids.contains(&pid)
    }

    /// Observes one snapshot: reports, in snapshot order, every process whose
    /// identifier was not met before, and remembers all identifiers of the
    /// snapshot.
    pub fn observe(&mut self, snapshot: &Vec<ProcessInfo>) -> (events: Vec<TelemetryEvent>)
        ensures
            event_views(events@) == process_events(old(self)@, snapshot@),
            final(self)@ == old(self)@.union(keys_of(snapshot@, pid_key())),
    {
        let mut events: Vec<TelemetryEvent> = Vec::new();
        let mut i: usize = 0;
        while i < snapshot.len()
            invariant
                i <= snapshot.len(),
                self@ == old(self)@.union(keys_of(snapshot@.take(i as int), pid_key())),
                event_views(events@) == process_events(old(self)@, snapshot@.take(i as int)),
            decreases snapshot.len() - i,
        {
            let ghost before = snapshot@.take(i as int);
            let ghost upto = snapshot@.take(i + 1);
            let ghost reported = new_items(old(self)@, before, pid_key());
            proof {
                assert(upto.drop_last() =~= before);
                lemma_keys_of_push(upto, pid_key());
            }
            let info = &snapshot[i];
            if !self.known_pids.contains(&info.pid) {
                let event = process_event(info);
                let ghost earlier_events = events@;
                events.push(event);
                self.known_pids.insert(info.pid);
                proof {
                    assert(new_items(old(self)@, upto, pid_key()) == reported.push(*info));
                    assert(event_views(events@) =~= event_views(earlier_events).push(event@));
                    assert(reported.push(*info).map_values(|p: ProcessInfo| process_event_of(p))
                        =~= reported.map_values(|p: ProcessInfo| process_event_of(p)).push(
                        process_event_of(*info),
                    ));
                }
            }
            i = i + 1;
        }
        proof {
            assert(snapshot@.take(snapshot.len() as int) =~= snapshot@);
        }
        events
    }
}

/// How many events of `events` report the process `pid`.
pub open spec fn count_process_events(events: Seq<TelemetryEventView>, pid: usize) -> nat
    decreases events.len(),
{
    if events.len() == 0 {
        0
    } else {
        count_process_events(events.drop_last(), pid) + match events.last() {
            TelemetryEventView::Process(e) => if e.pid == pid {
                1nat
            } else {
                0nat
            },
            _ => 0nat,
        }
    }
}

/// What cycle `c` reports when a watcher seeded from `seed` observes the
/// snapshots `cycles` in turn.
pub open spec fn process_reports(
    seed: Seq<ProcessInfo>,
    cycles: Seq<Seq<ProcessInfo>>,
    c: int,
) -> Seq<TelemetryEventView> {
    process_events(seen_after(keys_of(seed, pid_key()), cycles.take(c), pid_key()), cycles[c])
}

/// How many events report the process `pid` over all of `cycles`.
pub open spec fn process_reports_total(
    seed: Seq<ProcessInfo>,
    cycles: Seq<Seq<ProcessInfo>>,
    pid: usize,
) -> nat
    decreases cycles.len(),
{
    if cycles.len() == 0 {
        0
    } else {
        process_reports_total(seed, cycles.drop_last(), pid) + count_process_events(
            process_reports(seed, cycles, cycles.len() - 1),
            pid,
        )
    }
}

proof fn lemma_count_process_events(items: Seq<ProcessInfo>, pid: usize)
    ensures
        count_process_events(items.map_values(|p: ProcessInfo| process_event_of(p)), pid)
            == count_key(items, pid_key(), pid),
    decreases items.len(),
{
    let events = items.map_values(|p: ProcessInfo| process_event_of(p));
    if items.len() > 0 {
        lemma_count_process_events(items.drop_last(), pid);
        assert(events.drop_last() =~= items.drop_last().map_values(
            |p: ProcessInfo| process_event_of(p),
        ));
        assert(events.last() == process_event_of(items.last()));
    }
}

/// A cycle reports the process `pid` exactly once if its snapshot is the
/// first to hold `pid` and the seed snapshot does not hold it; every other
/// cycle reports `pid` not at all.
pub proof fn law_process_reported_on_first_sighting(
    seed: Seq<ProcessInfo>,
    cycles: Seq<Seq<ProcessInfo>>,
    pid: usize,
    c: int,
)
    requires
        0 <= c < cycles.len(),
    ensures
        count_process_events(process_reports(seed, cycles, c), pid) == if !keys_of(
            seed,
            pid_key(),
        ).contains(pid) && first_cycle_with(cycles, pid_key(), pid, c) {
            1nat
        } else {
            0nat
        },
{
    lemma_reported_on_first_cycle(keys_of(seed, pid_key()), cycles, pid_key(), pid, c);
    lemma_count_process_events(
        reported_in_cycle(keys_of(seed, pid_key()), cycles, pid_key(), c),
        pid,
    );
}

/// Over any run of snapshots a process identifier is reported exactly once
/// if some snapshot after the seed holds it and the seed does not, and never
/// otherwise: the seed snapshot reports nothing.
pub proof fn law_process_reported_once(
    seed: Seq<ProcessInfo>,
    cycles: Seq<Seq<ProcessInfo>>,
    pid: usize,
)
    ensures
        process_reports_total(seed, cycles, pid) == if !keys_of(seed, pid_key()).contains(pid)
            && occurs_in(cycles, pid_key(), pid) {
            1nat
        } else {
            0nat
        },
{
    lemma_process_total(seed, cycles, pid);
    lemma_reported_once(keys_of(seed, pid_key()), cycles, pid_key(), pid);
}

proof fn lemma_process_total(seed: Seq<ProcessInfo>, cycles: Seq<Seq<ProcessInfo>>, pid: usize)
    ensures
        process_reports_total(seed, cycles, pid) == reports_of_key(
            keys_of(seed, pid_key()),
            cycles,
            pid_key(),
            pid,
        ),
    decreases cycles.len(),
{
    if cycles.len() > 0 {
        lemma_process_total(seed, cycles.drop_last(), pid);
        lemma_count_process_events(
            reported_in_cycle(keys_of(seed, pid_key()), cycles, pid_key(), cycles.len() - 1),
            pid,
        );
    }
}

} // verus!
