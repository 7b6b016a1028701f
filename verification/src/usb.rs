//! The USB watcher: one event for each hotplug notification.

use crate::event::{TelemetryEvent, TelemetryEventView, UsbEvent, UsbEventView};
use vstd::prelude::*;

verus! {

/// What one hotplug notification tells: the action, the vendor and product
/// identifier attributes and the bound driver, each of which may be absent.
#[derive(Debug, Clone, PartialEq, Eq)]
pub struct UsbNotification {
    pub action: Option<String>,
    pub vendor_id: Option<String>,
    pub model_id: Option<String>,
    pub driver: Option<String>,
}

/// The text of a value that may be absent: empty where it is.
pub open spec fn text_or_empty(value: Option<String>) -> Seq<char> {
    match value {
        Some(text) => text@,
        None => Seq::empty(),
    }
}

/// The event that reports the notification `n`.
pub open spec fn usb_event_of(n: UsbNotification) -> TelemetryEventView {
    TelemetryEventView::Usb(
        UsbEventView {
            action: text_or_empty(n.action),
            vendor_id: text_or_empty(n.vendor_id),
            model_id: text_or_empty(n.model_id),
            driver: text_or_empty(n.driver),
        },
    )
}

fn owned_or_empty(value: &Option<String>) -> (text: String)
    ensures
        text@ == text_or_empty(*value),
{
    match value {
        Some(text) => text.clone(),
        None => String::new(),
    }
}

/// Builds the one event of a notification. Nothing is remembered between
/// notifications: equal notifications give equal events, every time.
pub fn usb_event(notification: &UsbNotification) -> (event: TelemetryEvent)
    ensures
        event@ == usb_event_of(*notification),
{
    TelemetryEvent::Usb(
        UsbEvent {
            action: owned_or_empty(&notification.action),
            vendor_id: owned_or_empty(&notification.vendor_id),
            model_id: owned_or_empty(&notification.model_id),
            driver: owned_or_empty(&notification.driver),
        },
    )
}

} // verus!
