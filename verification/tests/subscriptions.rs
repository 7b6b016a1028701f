use rust_collector::event::{FileEvent, TelemetryEvent, UsbEvent};
use rust_collector::filesystem::{delivered_events, file_events, FsNotification};
use rust_collector::usb::{usb_event, UsbNotification};

fn notification(action: &str, paths: &[&str]) -> FsNotification {
    FsNotification {
        action: action.to_string(),
        paths: paths.iter().map(|p| p.to_string()).collect(),
    }
}

fn file(action: &str, path: &str) -> TelemetryEvent {
    TelemetryEvent::File(FileEvent { action: action.to_string(), path: path.to_string() })
}

#[test]
fn modify_of_two_paths_gives_two_events() {
    let events = file_events(&notification("modify", &["/tmp/a", "/tmp/b"]));
    assert_eq!(events, vec![file("modify", "/tmp/a"), file("modify", "/tmp/b")]);
}

#[test]
fn overlapping_notifications_are_not_merged() {
    let first = notification("Create(File)", &["/tmp/a", "/tmp/b"]);
    let second = notification("Remove(Any)", &["/tmp/b", "/tmp/c", "/tmp/a"]);
    let mut events = delivered_events(&Some(first));
    events.extend(delivered_events(&Some(second)));
    assert_eq!(
        events,
        vec![
            file("Create(File)", "/tmp/a"),
            file("Create(File)", "/tmp/b"),
            file("Remove(Any)", "/tmp/b"),
            file("Remove(Any)", "/tmp/c"),
            file("Remove(Any)", "/tmp/a"),
        ]
    );
}

#[test]
fn same_notification_twice_is_reported_twice() {
    let n = notification("modify", &["/tmp/a"]);
    let mut events = file_events(&n);
    events.extend(file_events(&n));
    assert_eq!(events, vec![file("modify", "/tmp/a"), file("modify", "/tmp/a")]);
}

#[test]
fn notification_without_paths_gives_no_event() {
    assert!(file_events(&notification("Other", &[])).is_empty());
}

#[test]
fn error_delivery_is_dropped() {
    assert!(delivered_events(&None).is_empty());
}

#[test]
fn usb_notification_gives_one_event_with_its_fields() {
    let event = usb_event(&UsbNotification {
        action: Some("add".to_string()),
        vendor_id: Some("046d".to_string()),
        model_id: Some("c52b".to_string()),
        driver: Some("usbhid".to_string()),
    });
    assert_eq!(
        event,
        TelemetryEvent::Usb(UsbEvent {
            action: "add".to_string(),
            vendor_id: "046d".to_string(),
            model_id: "c52b".to_string(),
            driver: "usbhid".to_string(),
        })
    );
}

#[test]
fn absent_usb_values_become_empty_strings() {
    let event = usb_event(&UsbNotification {
        action: None,
        vendor_id: None,
        model_id: Some("0001".to_string()),
        driver: None,
    });
    assert_eq!(
        event,
        TelemetryEvent::Usb(UsbEvent {
            action: String::new(),
            vendor_id: String::new(),
            model_id: "0001".to_string(),
            driver: String::new(),
        })
    );
}

#[test]
fn equal_usb_notifications_are_each_reported() {
    let n = UsbNotification {
        action: Some("bind".to_string()),
        vendor_id: None,
        model_id: None,
        driver: Some("hub".to_string()),
    };
    assert_eq!(usb_event(&n), usb_event(&n));
}

#[test]
fn watch_targets_and_intervals_are_fixed() {
    assert_eq!(rust_collector::filesystem::WATCH_ROOT, "/tmp");
    assert_eq!(rust_collector::process::POLL_INTERVAL_SECS, 10);
    assert_eq!(rust_collector::network::POLL_INTERVAL_SECS, 20);
}
