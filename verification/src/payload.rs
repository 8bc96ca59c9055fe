//! Decoding command payloads from their JSON wire form into the plain
//! request values the handlers consume.
//!
//! The JSON reading is done by `serde_json` behind the trusted items
//! below. What the named member of a payload text holds is a pure
//! function of the text and the member name, so it is given a name
//! that the parsers' contracts are exact over; what the name is on a
//! given text only running the decoder can tell.

use vstd::prelude::*;
use crate::commands::{RenameRequest, StatusRequest};

verus! {

/// The string content of the named top-level member of a JSON object
/// document: `None` when the text is not valid JSON, not an object,
/// has no such member, or holds a non-string value there. A pure
/// function of the text and the key, written by `serde_json`.
pub uninterp spec fn json_string_member_of(s: Seq<char>, key: Seq<char>) -> Option<Seq<char>>;

/// Whether a JSON object document has the named top-level member at
/// all, of whatever kind. A pure function of the text and the key,
/// written by `serde_json`.
pub uninterp spec fn json_member_present(s: Seq<char>, key: Seq<char>) -> bool;

/// Relies on `serde_json::from_str`, `Value::get` and `Value::as_str`:
/// parses the payload and takes the string content of the named
/// member, `None` when any of the three steps refuses. The result
/// depends on the two arguments alone.
#[verifier::external_body]
fn json_string_member(payload: &str, key: &str) -> (r: Option<String>)
    ensures
        r is Some <==> json_string_member_of(payload@, key@) is Some,
        r matches Some(s) ==> json_string_member_of(payload@, key@) == Some(s@),
{
    let doc: serde_json::Value = match serde_json::from_str(payload) {
        Ok(v) => v,
        Err(_) => return None,
    };
    match doc.get(key) {
        Some(member) => match member.as_str() {
            Some(s) => Some(s.to_string()),
            None => None,
        },
        None => None,
    }
}

/// Relies on `serde_json::from_str` and `Value::get`: whether the
/// payload is a JSON object with the named member. The result depends
/// on the two arguments alone.
#[verifier::external_body]
fn json_has_member(payload: &str, key: &str) -> (r: bool)
    ensures
        r == json_member_present(payload@, key@),
{
    match serde_json::from_str::<serde_json::Value>(payload) {
        Ok(doc) => doc.get(key).is_some(),
        Err(_) => false,
    }
}

/// Decodes a rename payload: a JSON object with string members
/// `pane_id` and `name`, both required; `None` on any other document.
pub fn parse_rename_payload(payload: &str) -> (r: Option<RenameRequest>)
    ensures
        r is Some <==> (json_string_member_of(payload@, "pane_id"@) is Some
            && json_string_member_of(payload@, "name"@) is Some),
        r matches Some(q) ==> json_string_member_of(payload@, "pane_id"@) == Some(q.pane_id@)
            && json_string_member_of(payload@, "name"@) == Some(q.name@),
{
    let pane_id = match json_string_member(payload, "pane_id") {
        Some(s) => s,
        None => {
            return None;
        },
    };
    let name = match json_string_member(payload, "name") {
        Some(s) => s,
        None => {
            return None;
        },
    };
    Some(RenameRequest { pane_id, name })
}

/// Decodes a status payload: a JSON object with string members
/// `pane_id` and `action`, both required, and an optional string
/// member `emoji` that defaults to the empty string when absent —
/// but is refused, like the rest, when present and not a string;
/// `None` on any other document.
pub fn parse_status_payload(payload: &str) -> (r: Option<StatusRequest>)
    ensures
        r is Some <==> (json_string_member_of(payload@, "pane_id"@) is Some
            && json_string_member_of(payload@, "action"@) is Some && (json_member_present(
            payload@,
            "emoji"@,
        ) ==> json_string_member_of(payload@, "emoji"@) is Some)),
        r matches Some(q) ==> json_string_member_of(payload@, "pane_id"@) == Some(q.pane_id@)
            && json_string_member_of(payload@, "action"@) == Some(q.action@) && (
        if json_member_present(payload@, "emoji"@) {
            json_string_member_of(payload@, "emoji"@) == Some(q.emoji@)
        } else {
            q.emoji@ == Seq::<char>::empty()
        }),
{
    let pane_id = match json_string_member(payload, "pane_id") {
        Some(s) => s,
        None => {
            return None;
        },
    };
    let action = match json_string_member(payload, "action") {
        Some(s) => s,
        None => {
            return None;
        },
    };
    let emoji = if json_has_member(payload, "emoji") {
        match json_string_member(payload, "emoji") {
            Some(s) => s,
            None => {
                return None;
            },
        }
    } else {
        String::new()
    };
    Some(StatusRequest { pane_id, action, emoji })
}

} // verus!
