//! `EVENT_JSON` log lines, as NEAR indexers read them: one JSON object with
//! the standard, its version, the event's name and a list of data values.

use vstd::prelude::*;
use vstd::string::*;

use crate::json::{decimal, decimal_string, json_string, json_string_text};

verus! {

/// The log line of the event `event` of `standard`, version 1.0.0, whose data
/// list holds the one JSON value `data`.
pub open spec fn event_text(standard: Seq<char>, event: Seq<char>, data: Seq<char>) -> Seq<char> {
    "EVENT_JSON:{\"standard\":"@ + json_string_text(standard) + ",\"version\":\"1.0.0\",\"event\":"@
        + json_string_text(event) + ",\"data\":["@ + data + "]}"@
}

/// Builds the log line of an event; `data` is JSON text and is embedded as it
/// stands.
pub fn event_log(standard: &str, event: &str, data: &str) -> (res: String)
    ensures
        res@ == event_text(standard@, event@, data@),
{
    let mut text = "EVENT_JSON:{\"standard\":".to_owned();
    push_json_string(&mut text, standard);
    text.append(",\"version\":\"1.0.0\",\"event\":");
    push_json_string(&mut text, event);
    text.append(",\"data\":[");
    text.append(data);
    text.append("]}");
    text
}

/// Appends the JSON string literal for `s`.
pub(crate) fn push_json_string(text: &mut String, s: &str)
    ensures
        final(text)@ == old(text)@ + json_string_text(s@),
{
    let quoted = json_string(s);
    text.append(quoted.as_str());
}

/// Appends `n` in decimal.
pub(crate) fn push_decimal(text: &mut String, n: u128)
    ensures
        final(text)@ == old(text)@ + decimal(n as nat),
{
    let digits = decimal_string(n);
    text.append(digits.as_str());
}

} // verus!
