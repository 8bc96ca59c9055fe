//! The command handlers: given the current pane index and an already
//! parsed request, compute the effect the host should perform — a tab
//! rename, or a query result to emit — or the error that stops the
//! command.

use vstd::prelude::*;
use vstd::arithmetic::div_mod::lemma_add_mod_noop_right;
use crate::numeral::{is_u32_numeral, parse_u32, u32_numeral_value};
use crate::pane_index::PaneIndex;
use crate::status::{base_of, extract_base_name, extract_status, marker_of};

verus! {

/// The ways a command can fail; every failure is local to the one
/// command and leaves the index and the tabs untouched.
#[derive(Clone, Copy, Debug, PartialEq, Eq, Structural)]
pub enum CmdError {
    /// The command arrived with no payload at all.
    MissingPayload,
    /// A payload was present but does not parse per the schema.
    MalformedPayload,
    /// The `pane_id` field does not parse as a non-negative integer.
    InvalidPaneId,
    /// The pane id has no entry in the current index.
    UnknownPane,
    /// The `action` field names no known action.
    InvalidAction,
    /// `set_status` was requested with empty marker text.
    MissingEmoji,
}

/// What a successful command asks the host to do.
pub enum Effect {
    /// Rename the tab with the given 1-based target identifier.
    Rename { tab_id: u32, name: String },
    /// Emit a query result on the output channel, then release the
    /// pending request.
    Output { text: String },
}

/// A parsed rename command.
pub struct RenameRequest {
    pub pane_id: String,
    pub name: String,
}

/// A parsed status command. A missing marker field arrives as the
/// empty string.
pub struct StatusRequest {
    pub pane_id: String,
    pub action: String,
    pub emoji: String,
}

/// The 1-based target identifier for a 0-based display index, as the
/// host expects it: the successor, reduced to 32 bits.
pub open spec fn target_tab_id(d: int) -> u32 {
    (((d + 1) % 0x1_0000_0000) as u32)
}

/// Index translation: whenever the successor of the display index fits
/// the host's 32-bit identifiers — always, in practice — the target is
/// exactly `d + 1`.
pub proof fn lemma_target_translation(d: int)
    requires
        0 <= d,
        d + 1 <= u32::MAX,
    ensures
        target_tab_id(d) == d + 1,
{
}

/// The successor of a display index, reduced to 32 bits.
fn to_target_id(d: usize) -> (r: u32)
    ensures
        r == target_tab_id(d as int),
{
    let wide: u64 = d as u64;
    let low: u64 = wide % 0x1_0000_0000;
    let t: u64 = (low + 1) % 0x1_0000_0000;
    proof {
        lemma_add_mod_noop_right(1, d as int, 0x1_0000_0000);
    }
    t as u32
}

/// Exactly what handling a rename request returns, for every request
/// and every index.
pub open spec fn rename_request_post(
    pane_id: Seq<char>,
    new_name: Seq<char>,
    index: Map<u32, (int, Seq<char>)>,
    r: Result<Effect, CmdError>,
) -> bool {
    if !is_u32_numeral(pane_id) {
        r == Err::<Effect, CmdError>(CmdError::InvalidPaneId)
    } else if !index.contains_key(u32_numeral_value(pane_id) as u32) {
        r == Err::<Effect, CmdError>(CmdError::UnknownPane)
    } else {
        let entry = index[u32_numeral_value(pane_id) as u32];
        match r {
            Ok(Effect::Rename { tab_id, name }) => tab_id == target_tab_id(entry.0) && name@
                == new_name,
            _ => false,
        }
    }
}

/// Handles a parsed rename command: looks the pane up and asks for its
/// tab to be renamed to the literal replacement name — any status
/// marker the tab carried is replaced along with the rest of the name.
pub fn handle_rename_request(index: &PaneIndex, req: &RenameRequest) -> (r: Result<
    Effect,
    CmdError,
>)
    ensures
        rename_request_post(req.pane_id@, req.name@, index.as_map(), r),
{
    let pane_id = match parse_u32(req.pane_id.as_str()) {
        Some(v) => v,
        None => {
            return Err(CmdError::InvalidPaneId);
        },
    };
    let (display_index, _current_name) = match index.get(pane_id) {
        Some(p) => p,
        None => {
            return Err(CmdError::UnknownPane);
        },
    };
    let tab_id = to_target_id(display_index);
    Ok(Effect::Rename { tab_id, name: req.name.clone() })
}

/// Exactly what handling a status request returns, for every request
/// and every index.
pub open spec fn status_request_post(
    pane_id: Seq<char>,
    action: Seq<char>,
    emoji: Seq<char>,
    index: Map<u32, (int, Seq<char>)>,
    r: Result<Effect, CmdError>,
) -> bool {
    if !is_u32_numeral(pane_id) {
        r == Err::<Effect, CmdError>(CmdError::InvalidPaneId)
    } else if !index.contains_key(u32_numeral_value(pane_id) as u32) {
        r == Err::<Effect, CmdError>(CmdError::UnknownPane)
    } else {
        let entry = index[u32_numeral_value(pane_id) as u32];
        if action == "set_status"@ {
            if emoji.len() == 0 {
                r == Err::<Effect, CmdError>(CmdError::MissingEmoji)
            } else {
                match r {
                    Ok(Effect::Rename { tab_id, name }) => tab_id == target_tab_id(entry.0)
                        && name@ == emoji + seq![' '] + base_of(entry.1),
                    _ => false,
                }
            }
        } else if action == "clear_status"@ {
            match r {
                Ok(Effect::Rename { tab_id, name }) => tab_id == target_tab_id(entry.0) && name@
                    == base_of(entry.1),
                _ => false,
            }
        } else if action == "get_status"@ {
            match r {
                Ok(Effect::Output { text }) => text@ == marker_of(entry.1),
                _ => false,
            }
        } else if action == "get_name"@ {
            match r {
                Ok(Effect::Output { text }) => text@ == base_of(entry.1),
                _ => false,
            }
        } else {
            r == Err::<Effect, CmdError>(CmdError::InvalidAction)
        }
    }
}

/// Handles a parsed status command: `set_status` decorates the tab's
/// base name with the given marker, `clear_status` strips any marker,
/// `get_status` and `get_name` emit the marker or the base name as a
/// query result; the base name is always decoded from the current tab
/// name, never stored separately.
pub fn handle_status_request(index: &PaneIndex, req: &StatusRequest) -> (r: Result<
    Effect,
    CmdError,
>)
    ensures
        status_request_post(req.pane_id@, req.action@, req.emoji@, index.as_map(), r),
{
    let pane_id = match parse_u32(req.pane_id.as_str()) {
        Some(v) => v,
        None => {
            return Err(CmdError::InvalidPaneId);
        },
    };
    let (display_index, current_name) = match index.get(pane_id) {
        Some(p) => p,
        None => {
            return Err(CmdError::UnknownPane);
        },
    };
    let base_name = extract_base_name(current_name.as_str());
    let tab_id = to_target_id(display_index);
    if req.action == String::from_str("set_status") {
        if req.emoji.as_str().is_empty() {
            return Err(CmdError::MissingEmoji);
        }
        let mut new_name = req.emoji.clone();
        new_name.append(" ");
        new_name.append(base_name);
        proof {
            reveal_strlit(" ");
            assert(" "@ =~= seq![' ']);
            assert(new_name@ =~= req.emoji@ + seq![' '] + base_name@);
        }
        Ok(Effect::Rename { tab_id, name: new_name })
    } else if req.action == String::from_str("clear_status") {
        Ok(Effect::Rename { tab_id, name: String::from_str(base_name) })
    } else if req.action == String::from_str("get_status") {
        let marker = extract_status(current_name.as_str());
        Ok(Effect::Output { text: String::from_str(marker) })
    } else if req.action == String::from_str("get_name") {
        Ok(Effect::Output { text: String::from_str(base_name) })
    } else {
        Err(CmdError::InvalidAction)
    }
}

} // verus!
