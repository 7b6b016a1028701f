use rust_collector::event::{NetworkEvent, TelemetryEvent};
use rust_collector::network::{network_event, ConnectionEntry, NetworkWatcher};

fn entry(local: &str, remote: &str, state: &str, owner: Option<i32>) -> ConnectionEntry {
    ConnectionEntry {
        local_address: local.to_string(),
        remote_address: remote.to_string(),
        state: state.to_string(),
        owner,
    }
}

fn event(local: &str, remote: &str, state: &str, pid: i32) -> TelemetryEvent {
    TelemetryEvent::Network(NetworkEvent {
        local_address: local.to_string(),
        remote_address: remote.to_string(),
        state: state.to_string(),
        pid,
    })
}

#[test]
fn same_connection_on_two_cycles_is_reported_on_the_first() {
    let mut watcher = NetworkWatcher::new();
    let table = vec![entry("127.0.0.1:80", "0.0.0.0:0", "LISTEN", Some(100))];
    let first = watcher.observe(&table);
    assert_eq!(first, vec![event("127.0.0.1:80", "0.0.0.0:0", "LISTEN", 100)]);
    let second = watcher.observe(&table);
    assert!(second.is_empty());
}

#[test]
fn connections_present_at_startup_are_reported() {
    let mut watcher = NetworkWatcher::new();
    let events = watcher.observe(&vec![
        entry("10.0.0.1:22", "10.0.0.2:5000", "ESTABLISHED", Some(7)),
        entry("0.0.0.0:53", "0.0.0.0:0", "LISTEN", Some(8)),
    ]);
    assert_eq!(
        events,
        vec![
            event("10.0.0.1:22", "10.0.0.2:5000", "ESTABLISHED", 7),
            event("0.0.0.0:53", "0.0.0.0:0", "LISTEN", 8),
        ]
    );
}

#[test]
fn unresolved_owner_is_reported_as_minus_one() {
    let mut watcher = NetworkWatcher::new();
    let events = watcher.observe(&vec![entry("1.1.1.1:1", "2.2.2.2:2", "TIME_WAIT", None)]);
    assert_eq!(events, vec![event("1.1.1.1:1", "2.2.2.2:2", "TIME_WAIT", -1)]);
    assert_eq!(
        network_event(&entry("1.1.1.1:1", "2.2.2.2:2", "TIME_WAIT", None)).pid,
        -1
    );
}

#[test]
fn owner_minus_one_and_no_owner_share_a_fingerprint() {
    let mut watcher = NetworkWatcher::new();
    let events = watcher.observe(&vec![
        entry("1.1.1.1:1", "2.2.2.2:2", "CLOSE", None),
        entry("1.1.1.1:1", "2.2.2.2:2", "CLOSE", Some(-1)),
    ]);
    assert_eq!(events.len(), 1);
}

#[test]
fn each_field_of_the_fingerprint_tells_connections_apart() {
    let mut watcher = NetworkWatcher::new();
    let events = watcher.observe(&vec![
        entry("a:1", "b:2", "LISTEN", Some(1)),
        entry("a:9", "b:2", "LISTEN", Some(1)),
        entry("a:1", "b:9", "LISTEN", Some(1)),
        entry("a:1", "b:2", "ESTABLISHED", Some(1)),
        entry("a:1", "b:2", "LISTEN", Some(2)),
        entry("a:1", "b:2", "LISTEN", Some(1)),
    ]);
    assert_eq!(events.len(), 5);
}

#[test]
fn state_change_is_a_new_fingerprint_and_old_one_stays_remembered() {
    let mut watcher = NetworkWatcher::new();
    let syn = vec![entry("a:1", "b:2", "SYN_SENT", Some(3))];
    let est = vec![entry("a:1", "b:2", "ESTABLISHED", Some(3))];
    assert_eq!(watcher.observe(&syn).len(), 1);
    assert_eq!(watcher.observe(&est), vec![event("a:1", "b:2", "ESTABLISHED", 3)]);
    assert!(watcher.observe(&syn).is_empty());
    assert!(watcher.observe(&est).is_empty());
}

#[test]
fn each_fingerprint_is_reported_on_its_first_cycle_only() {
    let mut watcher = NetworkWatcher::new();
    let a = || entry("a:1", "x:1", "LISTEN", Some(1));
    let b = || entry("b:1", "x:1", "LISTEN", Some(1));
    let c = || entry("c:1", "x:1", "LISTEN", None);
    let cycles = vec![vec![a()], vec![b(), a()], vec![], vec![c(), c(), b()], vec![a(), b(), c()]];
    let counts: Vec<usize> = cycles.iter().map(|t| watcher.observe(t).len()).collect();
    assert_eq!(counts, vec![1, 1, 0, 1, 0]);
}

#[test]
fn has_seen_follows_what_was_reported() {
    let mut watcher = NetworkWatcher::new();
    let row = entry("a:1", "b:2", "LISTEN", Some(4));
    assert!(!watcher.has_seen(&network_event(&row)));
    watcher.observe(&vec![row]);
    let same = entry("a:1", "b:2", "LISTEN", Some(4));
    let other = entry("a:1", "b:2", "LISTEN", Some(5));
    assert!(watcher.has_seen(&network_event(&same)));
    assert!(!watcher.has_seen(&network_event(&other)));
}

#[test]
fn failed_reading_skips_the_cycle() {
    let mut watcher = NetworkWatcher::new();
    assert!(watcher.poll(&None).is_empty());
    let table = Some(vec![entry("a:1", "b:2", "LISTEN", Some(4))]);
    assert_eq!(watcher.poll(&table).len(), 1);
    assert!(watcher.poll(&None).is_empty());
    assert!(watcher.poll(&table).is_empty());
}

#[test]
fn fingerprints_compare_by_all_four_fields() {
    let base = network_event(&entry("a:1", "b:2", "LISTEN", Some(4)));
    assert!(base.same_fingerprint(&network_event(&entry("a:1", "b:2", "LISTEN", Some(4)))));
    assert!(!base.same_fingerprint(&network_event(&entry("a:1", "b:2", "LISTEN", None))));
    assert!(!base.same_fingerprint(&network_event(&entry("a:1", "b:2", "CLOSE", Some(4)))));
    assert_eq!(base.duplicate(), base);
}
