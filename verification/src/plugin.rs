//! The plugin state and its event loop logic: snapshot events replace
//! the stored snapshots and rebuild the pane index in full; pipe
//! messages are dispatched by name to the command handlers and served
//! from whatever index is current at that moment.

use vstd::prelude::*;
use crate::commands::{
    CmdError, Effect, handle_rename_request, handle_status_request, rename_request_post,
    status_request_post,
};
use crate::pane_index::{PaneIndex, rebuild, rebuilt};
use crate::payload::{
    json_member_present, json_string_member_of, parse_rename_payload, parse_status_payload,
};
use crate::snapshot::{PaneEntry, PaneSnapshot, TabEntry};

verus! {

/// One inbound host event. Event kinds the plugin does not subscribe
/// to arrive as `Other` and are a no-op.
pub enum PluginEvent {
    TabUpdate(Vec<TabEntry>),
    PaneUpdate(PaneSnapshot),
    Other,
}

/// The outcome of one pipe message: handled by one of the two known
/// commands, or ignored because the name matches neither.
pub enum PipeOutcome {
    Handled(Result<Effect, CmdError>),
    Ignored,
}

/// Exactly what handling a rename payload returns: the missing-payload
/// error when there is no payload; the malformed-payload error when
/// the text lacks a string `pane_id` or `name` member; and otherwise
/// the exact request outcome for the two decoded members against the
/// given index.
pub open spec fn rename_handled(
    payload: Option<String>,
    index: Map<u32, (int, Seq<char>)>,
    r: Result<Effect, CmdError>,
) -> bool {
    match payload {
        Option::None => r == Err::<Effect, CmdError>(CmdError::MissingPayload),
        Option::Some(p) => match (
            json_string_member_of(p@, "pane_id"@),
            json_string_member_of(p@, "name"@),
        ) {
            (Option::Some(pid), Option::Some(nm)) => rename_request_post(pid, nm, index, r),
            _ => r == Err::<Effect, CmdError>(CmdError::MalformedPayload),
        },
    }
}

/// Exactly what handling a status payload returns, in the same shape:
/// the decoded `pane_id`, `action` and `emoji` members decide, with a
/// missing `emoji` member read as the empty marker text.
pub open spec fn status_handled(
    payload: Option<String>,
    index: Map<u32, (int, Seq<char>)>,
    r: Result<Effect, CmdError>,
) -> bool {
    match payload {
        Option::None => r == Err::<Effect, CmdError>(CmdError::MissingPayload),
        Option::Some(p) => match (
            json_string_member_of(p@, "pane_id"@),
            json_string_member_of(p@, "action"@),
        ) {
            (Option::Some(pid), Option::Some(act)) => if json_member_present(p@, "emoji"@) {
                match json_string_member_of(p@, "emoji"@) {
                    Option::Some(emo) => status_request_post(pid, act, emo, index, r),
                    Option::None => r == Err::<Effect, CmdError>(CmdError::MalformedPayload),
                }
            } else {
                status_request_post(pid, act, Seq::<char>::empty(), index, r)
            },
            _ => r == Err::<Effect, CmdError>(CmdError::MalformedPayload),
        },
    }
}

/// The plugin state: the two most recent snapshots and the pane index
/// derived from them.
pub struct State {
    pub tabs: Vec<TabEntry>,
    pub panes: PaneSnapshot,
    pub pane_to_tab: PaneIndex,
}

impl State {
    /// The index holds exactly what a full rebuild of the stored
    /// snapshots produces.
    pub open spec fn index_current(self) -> bool {
        self.pane_to_tab.as_map() == rebuilt(self.tabs@, self.panes.as_map())
    }

    /// A fresh state: no tabs, no panes, an empty index.
    pub fn new() -> (r: Self)
        ensures
            r.tabs@ == Seq::<TabEntry>::empty(),
            r.panes.as_map() == Map::<int, Seq<PaneEntry>>::empty(),
            r.pane_to_tab.as_map() == Map::<u32, (int, Seq<char>)>::empty(),
            r.index_current(),
    {
        let r = State {
            tabs: Vec::new(),
            panes: PaneSnapshot::empty(),
            pane_to_tab: PaneIndex::new(),
        };
        proof {
            assert(r.tabs@ =~= Seq::<TabEntry>::empty());
        }
        r
    }

    /// Recomputes the pane index from the stored snapshots, replacing
    /// any earlier content wholesale.
    pub fn rebuild_mapping(&mut self)
        ensures
            final(self).tabs@ == old(self).tabs@,
            final(self).panes == old(self).panes,
            final(self).index_current(),
    {
        self.pane_to_tab = rebuild(&self.tabs, &self.panes);
    }

    /// Applies one host event: a snapshot event replaces the matching
    /// stored snapshot — the other one is kept as last received — and
    /// rebuilds the index in full; any other event changes nothing.
    pub fn update(&mut self, event: PluginEvent)
        ensures
            (event matches PluginEvent::TabUpdate(tabs) ==> final(self).tabs@ == tabs@
                && final(self).panes == old(self).panes),
            (event matches PluginEvent::PaneUpdate(panes) ==> final(self).panes == panes
                && final(self).tabs@ == old(self).tabs@),
            !(event is Other) ==> final(self).index_current(),
            event is Other ==> *final(self) == *old(self),
    {
        match event {
            PluginEvent::TabUpdate(tabs) => {
                self.tabs = tabs;
                self.rebuild_mapping();
            },
            PluginEvent::PaneUpdate(panes) => {
                self.panes = panes;
                self.rebuild_mapping();
            },
            PluginEvent::Other => {},
        }
    }

    /// Handles a rename command payload: decodes it, resolves the pane
    /// and computes the rename effect, or reports why the command
    /// stops. The index is read, never changed.
    pub fn handle_rename(&self, payload: &Option<String>) -> (r: Result<Effect, CmdError>)
        ensures
            rename_handled(*payload, self.pane_to_tab.as_map(), r),
    {
        let p = match payload {
            Some(p) => p,
            None => {
                return Err(CmdError::MissingPayload);
            },
        };
        let req = match parse_rename_payload(p.as_str()) {
            Some(req) => req,
            None => {
                return Err(CmdError::MalformedPayload);
            },
        };
        handle_rename_request(&self.pane_to_tab, &req)
    }

    /// Handles a status command payload, in the same way.
    pub fn handle_status(&self, payload: &Option<String>) -> (r: Result<Effect, CmdError>)
        ensures
            status_handled(*payload, self.pane_to_tab.as_map(), r),
    {
        let p = match payload {
            Some(p) => p,
            None => {
                return Err(CmdError::MissingPayload);
            },
        };
        let req = match parse_status_payload(p.as_str()) {
            Some(req) => req,
            None => {
                return Err(CmdError::MalformedPayload);
            },
        };
        handle_status_request(&self.pane_to_tab, &req)
    }

    /// Dispatches one pipe message by name: `tab-rename` and
    /// `tab-status` go to their handlers, every other name is ignored
    /// without error.
    pub fn pipe(&self, name: &str, payload: &Option<String>) -> (r: PipeOutcome)
        ensures
            name@ == "tab-rename"@ ==> (r matches PipeOutcome::Handled(res) && rename_handled(
                *payload,
                self.pane_to_tab.as_map(),
                res,
            )),
            name@ == "tab-status"@ ==> (r matches PipeOutcome::Handled(res) && status_handled(
                *payload,
                self.pane_to_tab.as_map(),
                res,
            )),
            name@ != "tab-rename"@ && name@ != "tab-status"@ ==> r is Ignored,
    {
        proof {
            reveal_strlit("tab-rename");
            reveal_strlit("tab-status");
            assert("tab-rename"@[4] != "tab-status"@[4]);
        }
        let n = String::from_str(name);
        if n == String::from_str("tab-rename") {
            PipeOutcome::Handled(self.handle_rename(payload))
        } else if n == String::from_str("tab-status") {
            PipeOutcome::Handled(self.handle_status(payload))
        } else {
            PipeOutcome::Ignored
        }
    }
}

} // verus!
