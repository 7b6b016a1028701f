use rust_collector::event::{ProcessEvent, TelemetryEvent};
use rust_collector::process::{join_args, process_event, ProcessInfo, ProcessWatcher};

fn info(pid: usize, name: &str, exe: &str, args: &[&str]) -> ProcessInfo {
    ProcessInfo {
        pid,
        name: name.to_string(),
        exe: exe.to_string(),
        args: args.iter().map(|a| a.to_string()).collect(),
    }
}

fn bare(pid: usize) -> ProcessInfo {
    info(pid, "proc", "/bin/proc", &["proc"])
}

fn pids(events: &[TelemetryEvent]) -> Vec<usize> {
    events
        .iter()
        .map(|e| match e {
            TelemetryEvent::Process(p) => p.pid,
            other => panic!("not a process event: {:?}", other),
        })
        .collect()
}

#[test]
fn seed_then_one_new_process_is_reported_once() {
    let mut watcher = ProcessWatcher::seed(&vec![bare(1), bare(2)]);
    let events = watcher.observe(&vec![bare(1), bare(2), bare(3)]);
    assert_eq!(pids(&events), vec![3]);
    let again = watcher.observe(&vec![bare(1), bare(2), bare(3)]);
    assert!(again.is_empty());
}

#[test]
fn seed_snapshot_is_remembered_and_not_reported() {
    let watcher = ProcessWatcher::seed(&vec![bare(10), bare(20)]);
    assert!(watcher.has_seen(10));
    assert!(watcher.has_seen(20));
    assert!(!watcher.has_seen(30));
}

#[test]
fn empty_seed_reports_everything_on_first_cycle() {
    let mut watcher = ProcessWatcher::seed(&Vec::new());
    let events = watcher.observe(&vec![bare(7), bare(5), bare(9)]);
    assert_eq!(pids(&events), vec![7, 5, 9]);
}

#[test]
fn events_come_in_snapshot_order() {
    let mut watcher = ProcessWatcher::seed(&vec![bare(2)]);
    let events = watcher.observe(&vec![bare(9), bare(2), bare(4), bare(1)]);
    assert_eq!(pids(&events), vec![9, 4, 1]);
}

#[test]
fn identifier_listed_twice_in_one_snapshot_is_reported_once() {
    let mut watcher = ProcessWatcher::seed(&vec![bare(1)]);
    let events = watcher.observe(&vec![bare(4), bare(4), bare(1), bare(4)]);
    assert_eq!(pids(&events), vec![4]);
}

#[test]
fn reused_identifier_is_not_reported_again() {
    let mut watcher = ProcessWatcher::seed(&vec![bare(1)]);
    assert_eq!(pids(&watcher.observe(&vec![bare(1), bare(8)])), vec![8]);
    assert!(watcher.observe(&vec![bare(1)]).is_empty());
    let reuse = watcher.observe(&vec![bare(1), info(8, "other", "/bin/other", &["other"])]);
    assert!(reuse.is_empty());
    assert!(watcher.has_seen(8));
}

#[test]
fn each_identifier_is_reported_on_its_first_cycle_only() {
    let mut watcher = ProcessWatcher::seed(&vec![bare(1), bare(2)]);
    let cycles = vec![
        vec![bare(1), bare(2)],
        vec![bare(1), bare(3)],
        vec![bare(3), bare(4), bare(2)],
        vec![bare(4), bare(3), bare(5), bare(1)],
    ];
    let mut reported: Vec<Vec<usize>> = Vec::new();
    for snapshot in &cycles {
        reported.push(pids(&watcher.observe(snapshot)));
    }
    assert_eq!(reported, vec![vec![], vec![3], vec![4], vec![5]]);
}

#[test]
fn process_event_carries_name_exe_and_joined_command_line() {
    let mut watcher = ProcessWatcher::seed(&Vec::new());
    let events = watcher.observe(&vec![info(42, "sh", "/bin/sh", &["sh", "-c", "ls /tmp"])]);
    assert_eq!(
        events,
        vec![TelemetryEvent::Process(ProcessEvent {
            pid: 42,
            name: "sh".to_string(),
            exe: "/bin/sh".to_string(),
            cmd: "sh -c ls /tmp".to_string(),
        })]
    );
}

#[test]
fn process_event_of_one_row() {
    let event = process_event(&info(5, "init", "/sbin/init", &[]));
    assert_eq!(
        event,
        TelemetryEvent::Process(ProcessEvent {
            pid: 5,
            name: "init".to_string(),
            exe: "/sbin/init".to_string(),
            cmd: String::new(),
        })
    );
}

#[test]
fn join_args_puts_one_space_between_arguments() {
    let args = vec!["ls".to_string(), "-l".to_string(), "/tmp".to_string()];
    assert_eq!(join_args(&args), "ls -l /tmp");
}

#[test]
fn join_args_of_nothing_is_empty() {
    assert_eq!(join_args(&Vec::new()), "");
}

#[test]
fn join_args_of_one_argument_is_that_argument() {
    assert_eq!(join_args(&vec!["top".to_string()]), "top");
}

#[test]
fn join_args_keeps_empty_arguments() {
    let args = vec!["a".to_string(), String::new(), "b".to_string()];
    assert_eq!(join_args(&args), "a  b");
}
