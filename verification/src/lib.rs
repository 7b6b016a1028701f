//! Core of a host telemetry collector.
//!
//! Four watchers (processes, USB hotplug, TCP connections, filesystem changes)
//! turn what they observe into [`event::TelemetryEvent`] values; the sink turns
//! each event into one line of JSON. The watchers here are pure: they take a
//! snapshot or a notification as plain values and return the events to emit.

pub mod dedup;
pub mod event;
pub mod filesystem;
pub mod network;
pub mod process;
pub mod sink;
pub mod usb;
