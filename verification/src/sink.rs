//! The sink: each event becomes one line of JSON, in arrival order.
//!
//! A line is one JSON object. Its members are the event's discriminator,
//! under the name `event_type`, and the event's own fields beside it. The
//! JSON text of a string is `serde_json`'s; how an integer is written and how
//! the object is put together from those texts is stated and proved here.

use crate::event::{event_type_of, is_event_type, TelemetryEvent, TelemetryEventView};
use vstd::prelude::*;
use vstd::string::StringExecFns;

verus! {

/// The value of one member of an event's object.
#[derive(Debug, Clone, PartialEq, Eq)]
pub enum FieldValue {
    Text(String),
    Integer(i128),
}

/// One member of an event's object.
#[derive(Debug, Clone, PartialEq, Eq)]
pub struct Field {
    pub name: String,
    pub value: FieldValue,
}

pub ghost enum FieldValueView {
    Text(Seq<char>),
    Integer(i128),
}

pub ghost struct FieldView {
    pub name: Seq<char>,
    pub value: FieldValueView,
}

impl View for FieldValue {
    type V = FieldValueView;

    open spec fn view(&self) -> FieldValueView {
        match self {
            FieldValue::Text(t) => FieldValueView::Text(t@),
            FieldValue::Integer(n) => FieldValueView::Integer(*n),
        }
    }
}

impl View for Field {
    type V = FieldView;

    open spec fn view(&self) -> FieldView {
        FieldView { name: self.name@, value: self.value@ }
    }
}

/// The views of a sequence of fields, in the same order.
pub open spec fn field_views(fields: Seq<Field>) -> Seq<FieldView> {
    fields.map_values(|f: Field| f@)
}

/// A member whose value is text.
pub open spec fn text_member(name: Seq<char>, text: Seq<char>) -> FieldView {
    FieldView { name, value: FieldValueView::Text(text) }
}

/// A member whose value is an integer.
pub open spec fn integer_member(name: Seq<char>, value: i128) -> FieldView {
    FieldView { name, value: FieldValueView::Integer(value) }
}

/// The members of an event's object: the discriminator first, then the
/// fields of the event's variant.
pub open spec fn fields_of(e: TelemetryEventView) -> Seq<FieldView> {
    let tag = text_member("event_type"@, event_type_of(e));
    match e {
        TelemetryEventView::Process(p) => seq![
            tag,
            integer_member("pid"@, p.pid as i128),
            text_member("name"@, p.name),
            text_member("exe"@, p.exe),
            text_member("cmd"@, p.cmd),
        ],
        TelemetryEventView::Usb(u) => seq![
            tag,
            text_member("action"@, u.action),
            text_member("vendor_id"@, u.vendor_id),
            text_member("model_id"@, u.model_id),
            text_member("driver"@, u.driver),
        ],
        TelemetryEventView::Network(n) => seq![
            tag,
            text_member("local_address"@, n.local_address),
            text_member("remote_address"@, n.remote_address),
            text_member("state"@, n.state),
            integer_member("pid"@, n.pid as i128),
        ],
        TelemetryEventView::File(f) => seq![
            tag,
            text_member("action"@, f.action),
            text_member("path"@, f.path),
        ],
    }
}

/// The names of the members of an event's object, in order.
pub open spec fn member_names(e: TelemetryEventView) -> Seq<Seq<char>> {
    match e {
        TelemetryEventView::Process(_) => seq![
            "event_type"@,
            "pid"@,
            "name"@,
            "exe"@,
            "cmd"@,
        ],
        TelemetryEventView::Usb(_) => seq![
            "event_type"@,
            "action"@,
            "vendor_id"@,
            "model_id"@,
            "driver"@,
        ],
        TelemetryEventView::Network(_) => seq![
            "event_type"@,
            "local_address"@,
            "remote_address"@,
            "state"@,
            "pid"@,
        ],
        TelemetryEventView::File(_) => seq!["event_type"@, "action"@, "path"@],
    }
}

/// Every event's object names its variant first, under `event_type`, with
/// one of the four discriminators, and then holds the fields of that variant
/// and no others: four for a process, a USB device or a connection, two for
/// a file.
pub proof fn law_object_holds_type_and_fields(e: TelemetryEventView)
    ensures
        fields_of(e)[0] == text_member("event_type"@, event_type_of(e)),
        is_event_type(event_type_of(e)),
        fields_of(e).len() == match e {
            TelemetryEventView::File(_) => 3int,
            _ => 5int,
        },
        forall|i: int|
            0 <= i < fields_of(e).len() ==> (#[trigger] fields_of(e)[i]).name == member_names(
                e,
            )[i],
{
}

/// What `serde_json` gives for the string `text`: its JSON text, or nothing
/// where the encoder refuses the string.
pub uninterp spec fn json_string(text: Seq<char>) -> Option<Seq<char>>;

/// The text of one decimal digit.
pub open spec fn digit_text(d: nat) -> Seq<char> {
    if d == 0 {
        "0"@
    } else if d == 1 {
        "1"@
    } else if d == 2 {
        "2"@
    } else if d == 3 {
        "3"@
    } else if d == 4 {
        "4"@
    } else if d == 5 {
        "5"@
    } else if d == 6 {
        "6"@
    } else if d == 7 {
        "7"@
    } else if d == 8 {
        "8"@
    } else {
        "9"@
    }
}

/// The decimal digits of `n`, the most significant first, without leading
/// zeros.
pub open spec fn decimal_digits(n: nat) -> Seq<char>
    decreases n,
{
    if n < 10 {
        digit_text(n)
    } else {
        decimal_digits(n / 10) + digit_text(n % 10)
    }
}

/// The JSON text of the integer `value`: its decimal digits, after a minus
/// sign where it is negative.
pub open spec fn json_integer(value: int) -> Seq<char> {
    if value < 0 {
        "-"@ + decimal_digits((-value) as nat)
    } else {
        decimal_digits(value as nat)
    }
}

/// The JSON text of a member's value. That of an integer is always there;
/// that of a text is there where the encoder gives one.
pub open spec fn json_value(value: FieldValueView) -> Option<Seq<char>> {
    match value {
        FieldValueView::Text(t) => json_string(t),
        FieldValueView::Integer(n) => Some(json_integer(n as int)),
    }
}

/// The text of one member: the name as a JSON string, a colon, the value.
pub open spec fn member_text(name: Seq<char>, value: Seq<char>) -> Seq<char> {
    name + ":"@ + value
}

/// The text of the member `f` of an object. It is there where the texts of
/// both its name and its value are.
pub open spec fn json_member(f: FieldView) -> Option<Seq<char>> {
    match (json_string(f.name), json_value(f.value)) {
        (Some(name), Some(value)) => Some(member_text(name, value)),
        _ => None,
    }
}

/// The texts of `parts`, with one comma between neighbours.
pub open spec fn comma_joined(parts: Seq<Seq<char>>) -> Seq<char>
    decreases parts.len(),
{
    if parts.len() == 0 {
        Seq::empty()
    } else if parts.len() == 1 {
        parts[0]
    } else {
        comma_joined(parts.drop_last()) + ","@ + parts.last()
    }
}

/// The text of an object with the given member texts.
pub open spec fn object_text(members: Seq<Seq<char>>) -> Seq<char> {
    "{"@ + comma_joined(members) + "}"@
}

/// The texts of the members of the object of `e`, in order.
pub open spec fn members_of(e: TelemetryEventView) -> Seq<Option<Seq<char>>> {
    fields_of(e).map_values(|f: FieldView| json_member(f))
}

/// The line, without its newline, that stands for the event `e`: the object
/// of its members where the text of every member is there, and nothing where
/// the encoder refuses one of its strings.
pub open spec fn line_of(e: TelemetryEventView) -> Option<Seq<char>> {
    let members = members_of(e);
    if forall|i: int| 0 <= i < members.len() ==> (#[trigger] members[i]) is Some {
        Some(object_text(Seq::new(members.len(), |i: int| members[i].unwrap())))
    } else {
        None
    }
}

/// The text of a string that may be absent.
pub open spec fn text_of(part: Option<String>) -> Option<Seq<char>> {
    match part {
        Some(text) => Some(text@),
        None => None,
    }
}

/// Whether every text of `parts` is there.
pub open spec fn all_present(parts: Seq<Option<String>>) -> bool {
    forall|i: int| 0 <= i < parts.len() ==> (#[trigger] parts[i]) is Some
}

/// The texts of `parts`, each of which is there.
pub open spec fn present_texts(parts: Seq<Option<String>>) -> Seq<Seq<char>> {
    Seq::new(parts.len(), |i: int| parts[i].unwrap()@)
}

/// Calls `serde_json::to_string` on a string; `None` stands for its error.
/// The contract claims that what the call gives depends on the string alone:
/// the same string is always refused or always gets the same JSON text.
/// Nothing is claimed of which strings are refused or of what the text holds.
#[verifier::external_body]
fn encode_string(text: &str) -> (encoded: Option<String>)
    ensures
        text_of(encoded) == json_string(text@),
{
    serde_json::to_string(text).ok()
}

fn digit(d: u128) -> (text: &'static str)
    requires
        d < 10,
    ensures
        text@ == digit_text(d as nat),
{
    if d == 0 {
        "0"
    } else if d == 1 {
        "1"
    } else if d == 2 {
        "2"
    } else if d == 3 {
        "3"
    } else if d == 4 {
        "4"
    } else if d == 5 {
        "5"
    } else if d == 6 {
        "6"
    } else if d == 7 {
        "7"
    } else if d == 8 {
        "8"
    } else {
        "9"
    }
}

fn append_digits(text: &mut String, n: u128)
    ensures
        final(text)@ == old(text)@ + decimal_digits(n as nat),
    decreases n,
{
    if n >= 10 {
        append_digits(text, n / 10);
    }
    text.append(digit(n % 10));
}

/// Writes an integer as JSON text.
pub fn integer_text(value: i128) -> (text: String)
    ensures
        text@ == json_integer(value as int),
{
    let mut text = String::new();
    if value < 0 {
        let magnitude: u128 = (-(value + 1)) as u128 + 1;
        text.append("-");
        append_digits(&mut text, magnitude);
    } else {
        append_digits(&mut text, value as u128);
    }
    text
}

fn text_field(name: &str, text: &str) -> (field: Field)
    ensures
        field@ == text_member(name@, text@),
{
    Field { name: String::from_str(name), value: FieldValue::Text(String::from_str(text)) }
}

fn integer_field(name: &str, value: i128) -> (field: Field)
    ensures
        field@ == integer_member(name@, value),
{
    Field { name: String::from_str(name), value: FieldValue::Integer(value) }
}

/// Lists the members of an event's object: `event_type` with the variant's
/// discriminator, then every field of the variant, strings as text and
/// process identifiers as integers.
pub fn fields(event: &TelemetryEvent) -> (fields: Vec<Field>)
    ensures
        field_views(fields@) == fields_of(event@),
{
    let mut fields: Vec<Field> = Vec::new();
    fields.push(text_field("event_type", event.event_type()));
    match event {
        TelemetryEvent::Process(e) => {
            fields.push(integer_field("pid", e.pid as i128));
            fields.push(text_field("name", e.name.as_str()));
            fields.push(text_field("exe", e.exe.as_str()));
            fields.push(text_field("cmd", e.cmd.as_str()));
        },
        TelemetryEvent::Usb(e) => {
            fields.push(text_field("action", e.action.as_str()));
            fields.push(text_field("vendor_id", e.vendor_id.as_str()));
            fields.push(text_field("model_id", e.model_id.as_str()));
            fields.push(text_field("driver", e.driver.as_str()));
        },
        TelemetryEvent::Network(e) => {
            fields.push(text_field("local_address", e.local_address.as_str()));
            fields.push(text_field("remote_address", e.remote_address.as_str()));
            fields.push(text_field("state", e.state.as_str()));
            fields.push(integer_field("pid", e.pid as i128));
        },
        TelemetryEvent::File(e) => {
            fields.push(text_field("action", e.action.as_str()));
            fields.push(text_field("path", e.path.as_str()));
        },
    }
    proof {
        assert(field_views(fields@) =~= fields_of(event@));
    }
    fields
}

/// Puts one member together from the JSON texts of its name and its value.
/// The member is there exactly if both texts are.
pub fn assemble_member(name: &Option<String>, value: &Option<String>) -> (member: Option<String>)
    ensures
        member is Some <==> name is Some && value is Some,
        member matches Some(t) ==> t@ == member_text(name.unwrap()@, value.unwrap()@),
{
    match (name, value) {
        (Some(n), Some(v)) => {
            let mut text = n.clone();
            text.append(":");
            text.append(v.as_str());
            Some(text)
        },
        _ => None,
    }
}

/// Puts an object together from the texts of its members, in their order.
/// The object is there exactly if every member is.
pub fn assemble_object(members: &Vec<Option<String>>) -> (object: Option<String>)
    ensures
        object is Some <==> all_present(members@),
        object matches Some(t) ==> t@ == object_text(present_texts(members@)),
{
    let mut text = String::from_str("{");
    let mut i: usize = 0;
    while i < members.len()
        invariant
            i <= members.len(),
            all_present(members@.take(i as int)),
            text@ == "{"@ + comma_joined(present_texts(members@.take(i as int))),
        decreases members.len() - i,
    {
        let ghost before = members@.take(i as int);
        let ghost upto = members@.take(i + 1);
        match &members[i] {
            Some(member) => {
                if i > 0 {
                    text.append(",");
                }
                text.append(member.as_str());
                proof {
                    assert(present_texts(upto).drop_last() =~= present_texts(before));
                    assert(present_texts(upto).last() == member@);
                    assert(all_present(upto)) by {
                        assert forall|j: int| 0 <= j < upto.len() implies (
                        #[trigger] upto[j]) is Some by {
                            if j < i {
                                assert(before[j] is Some);
                            }
                        }
                    }
                    assert(text@ =~= "{"@ + comma_joined(present_texts(upto)));
                }
            },
            None => {
                return None;
            },
        }
        i = i + 1;
    }
    text.append("}");
    proof {
        assert(members@.take(members.len() as int) =~= members@);
    }
    Some(text)
}

fn encode_field(field: &Field) -> (member: Option<String>)
    ensures
        text_of(member) == json_member(field@),
{
    let name = encode_string(field.name.as_str());
    let value = match &field.value {
        FieldValue::Text(t) => encode_string(t.as_str()),
        FieldValue::Integer(n) => Some(integer_text(*n)),
    };
    assemble_member(&name, &value)
}

/// Serializes one event to its line, without the newline. The line is the
/// object of the event's members. It is returned exactly if the JSON encoder
/// gives a text for every string of the event; `None` stands for a refusal
/// of the encoder.
pub fn render_line(event: &TelemetryEvent) -> (line: Option<String>)
    ensures
        text_of(line) == line_of(event@),
{
    let fields = fields(event);
    let mut members: Vec<Option<String>> = Vec::new();
    let mut i: usize = 0;
    while i < fields.len()
        invariant
            i <= fields.len(),
            members@.len() == i,
            forall|j: int|
                0 <= j < i ==> text_of(#[trigger] members@[j]) == json_member(fields@[j]@),
        decreases fields.len() - i,
    {
        members.push(encode_field(&fields[i]));
        i = i + 1;
    }
    let line = assemble_object(&members);
    proof {
        let expected = members_of(event@);
        assert(expected.len() == members@.len());
        assert forall|j: int| 0 <= j < members@.len() implies text_of(#[trigger] members@[j])
            == expected[j] by {
            assert(field_views(fields@)[j] == fields@[j]@);
        }
        if all_present(members@) {
            assert forall|j: int| 0 <= j < expected.len() implies (#[trigger] expected[j])
                is Some by {
                assert(members@[j] is Some);
            }
            assert(present_texts(members@) =~= Seq::new(
                expected.len(),
                |j: int| expected[j].unwrap(),
            ));
        } else {
            let j = choose|j: int| 0 <= j < members@.len() && !((#[trigger] members@[j]) is Some);
            assert(expected[j] is None);
        }
    }
    line
}

/// The lines of `events`, in the same order.
pub open spec fn lines_of(events: Seq<TelemetryEvent>) -> Seq<Option<Seq<char>>> {
    events.map_values(|e: TelemetryEvent| line_of(e@))
}

/// Lines follow arrivals: what arrived in two batches, one after the other,
/// gives the lines of the first batch and then those of the second, so a
/// line never overtakes the line of an earlier arrival.
pub proof fn law_lines_keep_arrival_order(earlier: Seq<TelemetryEvent>, later: Seq<TelemetryEvent>)
    ensures
        lines_of(earlier + later) == lines_of(earlier) + lines_of(later),
        forall|i: int|
            0 <= i < earlier.len() ==> #[trigger] lines_of(earlier + later)[i] == line_of(
                earlier[i]@,
            ),
        forall|j: int|
            0 <= j < later.len() ==> #[trigger] lines_of(earlier + later)[earlier.len() + j]
                == line_of(later[j]@),
{
    assert(lines_of(earlier + later) =~= lines_of(earlier) + lines_of(later));
}

/// Serializes events in the order in which they arrived: the line at each
/// position is that of the event at the same position, so the line of an
/// event that arrived earlier stands before the line of one that arrived
/// later. Nothing is reordered, merged or left out.
pub fn render_lines(events: &Vec<TelemetryEvent>) -> (lines: Vec<Option<String>>)
    ensures
        lines@.len() == events@.len(),
        forall|i: int|
            0 <= i < events@.len() ==> text_of(#[trigger] lines@[i]) == lines_of(events@)[i],
{
    let mut lines: Vec<Option<String>> = Vec::new();
    let mut i: usize = 0;
    while i < events.len()
        invariant
            i <= events.len(),
            lines@.len() == i,
            forall|j: int| 0 <= j < i ==> text_of(#[trigger] lines@[j]) == lines_of(events@)[j],
        decreases events.len() - i,
    {
        lines.push(render_line(&events[i]));
        i = i + 1;
    }
    lines
}

} // verus!
