//! Events of the player, decoded from the JSON lines of the listener's
//! connection, and the subscription that makes the player send them.

use vstd::prelude::*;

use crate::command::{encode_command, frame, observe_json, MpvCommand};
use crate::player::opt_view;
use crate::session::{EventValue, PlayerEvent, IDLE_OBSERVER};

verus! {

/// The `event`, `id` and `data` members of the JSON object on `line`, if the
/// line is JSON.
pub uninterp spec fn event_fields_of(line: Seq<char>) -> Option<
    (Option<Seq<char>>, Option<u64>, EventValue),
>;

/// Relies on `serde_json::from_str`: parses `line` as a JSON value, whose
/// `event` string, `id` integer and `data` member are moved into plain values;
/// the result depends on the line alone.
#[verifier::external_body]
fn event_fields(line: &str) -> (r: Option<(Option<String>, Option<u64>, EventValue)>)
    ensures
        r is None ==> event_fields_of(line@) is None,
        r matches Some(f) ==> event_fields_of(line@) == Some((opt_view(f.0), f.1, f.2)),
{
    let v: serde_json::Value = serde_json::from_str(line).ok()?;
    let data = match v.get("data") {
        Some(serde_json::Value::Bool(b)) => EventValue::Bool(*b),
        Some(serde_json::Value::Number(n)) => n.as_i64().map_or(EventValue::Unknown, EventValue::Number),
        Some(serde_json::Value::String(s)) => EventValue::Str(s.clone()),
        _ => EventValue::Unknown,
    };
    let name = v.get("event").and_then(|e| e.as_str()).map(String::from);
    Some((name, v.get("id").and_then(|i| i.as_u64()), data))
}

/// The event with name `name`, subscription id `id` and payload `data`.
pub open spec fn event_of(name: Option<Seq<char>>, id: Option<u64>, data: EventValue) -> PlayerEvent {
    match name {
        Some(n) => if n == "start-file"@ {
            PlayerEvent::FileStarted
        } else if n == "property-change"@ && id is Some {
            PlayerEvent::PropertyChange { id: id.unwrap(), value: data }
        } else {
            PlayerEvent::Other
        },
        None => PlayerEvent::Other,
    }
}

fn str_eq(a: &str, b: &str) -> (r: bool)
    ensures
        r == (a@ == b@),
{
    let n = a.unicode_len();
    if n != b.unicode_len() {
        return false;
    }
    let mut i: usize = 0;
    while i < n
        invariant
            n == a@.len() == b@.len(),
            i <= n,
            forall|k: int| 0 <= k < i ==> a@[k] == b@[k],
        decreases n - i,
    {
        if a.get_char(i) != b.get_char(i) {
            return false;
        }
        i = i + 1;
    }
    assert(a@ =~= b@);
    true
}

/// Classifies an event given its fields; events and properties that the
/// coordinator does not follow become `Other` or a change it ignores.
pub fn classify_event(name: Option<&str>, id: Option<u64>, data: EventValue) -> (r: PlayerEvent)
    ensures
        r == event_of(
            match name {
                Some(n) => Some(n@),
                None => None,
            },
            id,
            data,
        ),
{
    match name {
        Some(n) => if str_eq(n, "start-file") {
            PlayerEvent::FileStarted
        } else if str_eq(n, "property-change") && id.is_some() {
            match id {
                Some(i) => PlayerEvent::PropertyChange { id: i, value: data },
                None => PlayerEvent::Other,
            }
        } else {
            PlayerEvent::Other
        },
        None => PlayerEvent::Other,
    }
}

/// Decodes one line that the player sent on the listener's connection. A line
/// that is not JSON, or not an event the coordinator follows, is `Other`.
pub fn decode_event(line: &str) -> (r: PlayerEvent)
    ensures
        r == match event_fields_of(line@) {
            None => PlayerEvent::Other,
            Some(f) => event_of(f.0, f.1, f.2),
        },
{
    match event_fields(line) {
        None => PlayerEvent::Other,
        Some((name, id, data)) => {
            let n = match &name {
                Some(s) => Some(s.as_str()),
                None => None,
            };
            classify_event(n, id, data)
        },
    }
}

/// The line that subscribes the listener's connection to the idle property.
pub fn subscription_frame() -> (r: String)
    ensures
        r@ == frame(observe_json(IDLE_OBSERVER, "idle-active"@)),
{
    encode_command(
        &MpvCommand::ObserveProperty { id: IDLE_OBSERVER, property: String::from_str("idle-active") },
    )
}

} // verus!
