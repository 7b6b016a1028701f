//! The event model: one tagged union with four variants.

use vstd::prelude::*;

verus! {

/// A process identifier newly observed in the process table.
#[derive(Debug, Clone, PartialEq, Eq)]
pub struct ProcessEvent {
    pub pid: usize,
    pub name: String,
    pub exe: String,
    pub cmd: String,
}

/// One kernel hotplug notification for the `usb` subsystem.
#[derive(Debug, Clone, PartialEq, Eq)]
pub struct UsbEvent {
    pub action: String,
    pub vendor_id: String,
    pub model_id: String,
    pub driver: String,
}

/// A connection tuple newly observed in the TCP table. Its four fields are
/// also the fingerprint by which connections are told apart.
#[derive(Debug, Clone, PartialEq, Eq, Hash)]
pub struct NetworkEvent {
    pub local_address: String,
    pub remote_address: String,
    pub state: String,
    pub pid: i32,
}

/// One filesystem change notification for one affected path.
#[derive(Debug, Clone, PartialEq, Eq)]
pub struct FileEvent {
    pub action: String,
    pub path: String,
}

#[derive(Debug, Clone, PartialEq, Eq)]
pub enum TelemetryEvent {
    Process(ProcessEvent),
    Usb(UsbEvent),
    Network(NetworkEvent),
    File(FileEvent),
}

pub ghost struct ProcessEventView {
    pub pid: usize,
    pub name: Seq<char>,
    pub exe: Seq<char>,
    pub cmd: Seq<char>,
}

pub ghost struct UsbEventView {
    pub action: Seq<char>,
    pub vendor_id: Seq<char>,
    pub model_id: Seq<char>,
    pub driver: Seq<char>,
}

pub ghost struct NetworkEventView {
    pub local_address: Seq<char>,
    pub remote_address: Seq<char>,
    pub state: Seq<char>,
    pub pid: i32,
}

pub ghost struct FileEventView {
    pub action: Seq<char>,
    pub path: Seq<char>,
}

pub ghost enum TelemetryEventView {
    Process(ProcessEventView),
    Usb(UsbEventView),
    Network(NetworkEventView),
    File(FileEventView),
}

impl View for ProcessEvent {
    type V = ProcessEventView;

    open spec fn view(&self) -> ProcessEventView {
        ProcessEventView { pid: self.pid, name: self.name@, exe: self.exe@, cmd: self.cmd@ }
    }
}

impl View for UsbEvent {
    type V = UsbEventView;

    open spec fn view(&self) -> UsbEventView {
        UsbEventView {
            action: self.action@,
            vendor_id: self.vendor_id@,
            model_id: self.model_id@,
            driver: self.driver@,
        }
    }
}

impl View for NetworkEvent {
    type V = NetworkEventView;

    open spec fn view(&self) -> NetworkEventView {
        NetworkEventView {
            local_address: self.local_address@,
            remote_address: self.remote_address@,
            state: self.state@,
            pid: self.pid,
        }
    }
}

impl View for FileEvent {
    type V = FileEventView;

    open spec fn view(&self) -> FileEventView {
        FileEventView { action: self.action@, path: self.path@ }
    }
}

impl View for TelemetryEvent {
    type V = TelemetryEventView;

    open spec fn view(&self) -> TelemetryEventView {
        match self {
            TelemetryEvent::Process(e) => TelemetryEventView::Process(e@),
            TelemetryEvent::Usb(e) => TelemetryEventView::Usb(e@),
            TelemetryEvent::Network(e) => TelemetryEventView::Network(e@),
            TelemetryEvent::File(e) => TelemetryEventView::File(e@),
        }
    }
}

/// The views of a sequence of events, in the same order.
pub open spec fn event_views(events: Seq<TelemetryEvent>) -> Seq<TelemetryEventView> {
    events.map_values(|e: TelemetryEvent| e@)
}

/// The discriminator that each variant carries into its serialized form.
pub open spec fn event_type_of(e: TelemetryEventView) -> Seq<char> {
    match e {
        TelemetryEventView::Process(_) => "process_start"@,
        TelemetryEventView::Usb(_) => "usb_event"@,
        TelemetryEventView::Network(_) => "network_conn"@,
        TelemetryEventView::File(_) => "file_event"@,
    }
}

/// Whether `tag` is one of the four discriminators.
pub open spec fn is_event_type(tag: Seq<char>) -> bool {
    tag == "process_start"@ || tag == "usb_event"@ || tag == "network_conn"@ || tag
        == "file_event"@
}

impl NetworkEvent {
    /// Whether two events carry the same fingerprint.
    pub fn same_fingerprint(&self, other: &NetworkEvent) -> (same: bool)
        ensures
            same == (self@ == other@),
    {
        self.local_address == other.local_address && self.remote_address == other.remote_address
            && self.state == other.state && self.pid == other.pid
    }

    /// A copy with the same field values.
    pub fn duplicate(&self) -> (copy: NetworkEvent)
        ensures
            copy@ == self@,
    {
        NetworkEvent {
            local_address: self.local_address.clone(),
            remote_address: self.remote_address.clone(),
            state: self.state.clone(),
            pid: self.pid,
        }
    }
}

impl TelemetryEvent {
    /// The discriminator string of this event's variant.
    pub fn event_type(&self) -> (tag: &'static str)
        ensures
            tag@ == event_type_of(self@),
            is_event_type(tag@),
    {
        match self {
            TelemetryEvent::Process(_) => "process_start",
            TelemetryEvent::Usb(_) => "usb_event",
            TelemetryEvent::Network(_) => "network_conn",
            TelemetryEvent::File(_) => "file_event",
        }
    }
}

} // verus!
