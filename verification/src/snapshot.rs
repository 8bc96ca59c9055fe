//! Snapshot data as pushed by the host: the ordered tab list and the
//! pane manifest grouping panes under tab positions.

use vstd::prelude::*;

verus! {

/// One tab as reported by the host: the `position` key used to join it
/// against its pane group, and its current display name.
pub struct TabEntry {
    pub position: usize,
    pub name: String,
}

/// One pane inside a group: its numeric id, and whether it is a
/// control-surface (plugin) pane, which the index must never hold.
#[derive(Clone, Copy, PartialEq, Eq, Structural)]
pub struct PaneEntry {
    pub id: u32,
    pub is_plugin: bool,
}

/// The panes grouped under one tab position.
pub struct PaneGroup {
    pub position: usize,
    pub panes: Vec<PaneEntry>,
}

/// A full pane manifest: for each tab position, the panes it holds.
pub struct PaneSnapshot {
    pub groups: Vec<PaneGroup>,
}

/// The manifest as a mathematical map from tab position to pane
/// sequence. When a position repeats, the later group wins.
pub open spec fn groups_map(gs: Seq<PaneGroup>) -> Map<int, Seq<PaneEntry>>
    decreases gs.len(),
{
    if gs.len() == 0 {
        Map::<int, Seq<PaneEntry>>::empty()
    } else {
        groups_map(gs.drop_last()).insert(gs.last().position as int, gs.last().panes@)
    }
}

/// Groups past position `i` that never mention key `p` do not change
/// what the manifest map says at `p`.
proof fn lemma_groups_map_skip_tail(gs: Seq<PaneGroup>, p: int, i: int)
    requires
        0 <= i <= gs.len(),
        forall|k: int| i <= k < gs.len() ==> (#[trigger] gs[k].position) as int != p,
    ensures
        groups_map(gs).contains_key(p) == groups_map(gs.take(i)).contains_key(p),
        groups_map(gs).contains_key(p) ==> groups_map(gs)[p] == groups_map(gs.take(i))[p],
    decreases gs.len() - i,
{
    if i == gs.len() {
        assert(gs.take(i) =~= gs);
    } else {
        let t = gs.take(i + 1);
        assert(t.drop_last() =~= gs.take(i));
        assert(t.last() == gs[i]);
        lemma_groups_map_skip_tail(gs, p, i + 1);
        assert(gs.take(i + 1) == t);
    }
}

impl PaneSnapshot {
    /// The manifest as a map from position to pane sequence.
    pub open spec fn as_map(self) -> Map<int, Seq<PaneEntry>> {
        groups_map(self.groups@)
    }

    /// A manifest with no groups at all.
    pub fn empty() -> (r: Self)
        ensures
            r.as_map() == Map::<int, Seq<PaneEntry>>::empty(),
    {
        PaneSnapshot { groups: Vec::new() }
    }

    /// The panes grouped under `position`, or `None` when the manifest
    /// has no entry for that position.
    pub fn get(&self, position: usize) -> (r: Option<&Vec<PaneEntry>>)
        ensures
            match r {
                Some(v) => self.as_map().contains_key(position as int)
                    && v@ == self.as_map()[position as int],
                None => !self.as_map().contains_key(position as int),
            },
    {
        let gs = &self.groups;
        let n = gs.len();
        let mut i = n;
        while i > 0
            invariant
                i <= n,
                n == gs@.len(),
                gs@ == self.groups@,
                forall|k: int| i <= k < gs@.len()
                    ==> (#[trigger] gs@[k].position) != position,
            decreases i,
        {
            i = i - 1;
            if gs[i].position == position {
                proof {
                    lemma_groups_map_skip_tail(gs@, position as int, i + 1);
                    let t = gs@.take(i + 1);
                    assert(t.drop_last() =~= gs@.take(i as int));
                    assert(t.last() == gs@[i as int]);
                    assert(groups_map(t) == groups_map(t.drop_last()).insert(
                        gs@[i as int].position as int,
                        gs@[i as int].panes@,
                    ));
                    assert(groups_map(gs@).contains_key(position as int));
                    assert(groups_map(gs@)[position as int] == gs@[i as int].panes@);
                }
                return Some(&gs[i].panes);
            }
        }
        proof {
            lemma_groups_map_skip_tail(gs@, position as int, 0);
            assert(gs@.take(0) =~= Seq::<PaneGroup>::empty());
        }
        None
    }
}

} // verus!
