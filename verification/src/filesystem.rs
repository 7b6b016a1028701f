//! The filesystem watcher: one event for each path of each notification.

use crate::event::{event_views, FileEvent, FileEventView, TelemetryEvent, TelemetryEventView};
use vstd::prelude::*;

verus! {

/// The directory whose subtree is watched.
pub const WATCH_ROOT: &'static str = "/tmp";

/// What one change notification tells: a description of the kind of change
/// and the paths that it concerns.
#[derive(Debug, Clone, PartialEq, Eq)]
pub struct FsNotification {
    pub action: String,
    pub paths: Vec<String>,
}

/// The events of the notification `n`: one for each of its paths, in order,
/// all with its action.
pub open spec fn file_events_of(n: FsNotification) -> Seq<TelemetryEventView> {
    Seq::new(
        n.paths@.len(),
        |i: int| TelemetryEventView::File(FileEventView { action: n.action@, path: n.paths@[i]@ }),
    )
}

/// The events of one delivery from the subscription: those of its
/// notification, or none where the delivery is an error.
pub open spec fn delivered_events_of(delivery: Option<FsNotification>) -> Seq<TelemetryEventView> {
    match delivery {
        Some(n) => file_events_of(n),
        None => Seq::empty(),
    }
}

/// Builds the events of one notification. Nothing is remembered between
/// notifications, so a path named twice is reported twice.
pub fn file_events(notification: &FsNotification) -> (events: Vec<TelemetryEvent>)
    ensures
        event_views(events@) == file_events_of(*notification),
{
    let mut events: Vec<TelemetryEvent> = Vec::new();
    let mut i: usize = 0;
    while i < notification.paths.len()
        invariant
            i <= notification.paths.len(),
            events@.len() == i,
            forall|j: int|
                0 <= j < i ==> (#[trigger] events@[j])@ == file_events_of(*notification)[j],
        decreases notification.paths.len() - i,
    {
        events.push(
            TelemetryEvent::File(
                FileEvent {
                    action: notification.action.clone(),
                    path: notification.paths[i].clone(),
                },
            ),
        );
        i = i + 1;
    }
    proof {
        assert(event_views(events@) =~= file_events_of(*notification));
    }
    events
}

/// Handles one delivery from the subscription: an error (`None`) is dropped
/// and gives no event.
pub fn delivered_events(delivery: &Option<FsNotification>) -> (events: Vec<TelemetryEvent>)
    ensures
        event_views(events@) == delivered_events_of(*delivery),
{
    match delivery {
        Some(notification) => file_events(notification),
        None => Vec::new(),
    }
}

/// Two notifications that name `a.paths.len()` and `b.paths.len()` paths give
/// that many events together, whether or not they name the same paths, and
/// each event carries the action of the notification it came from and one of
/// its paths.
pub proof fn law_one_event_per_notified_path(a: FsNotification, b: FsNotification)
    ensures
        (file_events_of(a) + file_events_of(b)).len() == a.paths@.len() + b.paths@.len(),
        forall|i: int|
            0 <= i < a.paths@.len() ==> #[trigger] (file_events_of(a) + file_events_of(b))[i]
                == TelemetryEventView::File(
                FileEventView { action: a.action@, path: a.paths@[i]@ },
            ),
        forall|i: int|
            0 <= i < b.paths@.len() ==> #[trigger] (file_events_of(a) + file_events_of(b))[a.paths@.len()
                + i] == TelemetryEventView::File(
                FileEventView { action: b.action@, path: b.paths@[i]@ },
            ),
{
}

} // verus!
