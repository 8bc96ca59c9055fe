//! The pane index: the derived mapping from pane id to the display
//! position and name of the tab holding that pane, rebuilt in full from
//! the latest tab list and pane manifest.

use vstd::prelude::*;
use crate::snapshot::{PaneEntry, PaneSnapshot, TabEntry};

verus! {

/// One index record: a pane id with the 0-based display index and the
/// name of its tab as of the last snapshot pair.
pub struct IndexEntry {
    pub pane_id: u32,
    pub display_index: usize,
    pub tab_name: String,
}

/// The pane index. Records are only appended; the map view below makes
/// the latest record for a pane id the one that counts, so an insert
/// for an id already present overwrites it.
pub struct PaneIndex {
    entries: Vec<IndexEntry>,
}

/// The index records as a mathematical map from pane id to
/// `(display index, tab name)`; the latest record for an id wins.
spec fn entries_map(es: Seq<IndexEntry>) -> Map<u32, (int, Seq<char>)>
    decreases es.len(),
{
    if es.len() == 0 {
        Map::<u32, (int, Seq<char>)>::empty()
    } else {
        entries_map(es.drop_last()).insert(
            es.last().pane_id,
            (es.last().display_index as int, es.last().tab_name@),
        )
    }
}

/// Records past position `i` that never carry pane id `id` do not
/// change what the index map says at `id`.
proof fn lemma_entries_map_skip_tail(es: Seq<IndexEntry>, id: u32, i: int)
    requires
        0 <= i <= es.len(),
        forall|k: int| i <= k < es.len() ==> (#[trigger] es[k].pane_id) != id,
    ensures
        entries_map(es).contains_key(id) == entries_map(es.take(i)).contains_key(id),
        entries_map(es).contains_key(id) ==> entries_map(es)[id] == entries_map(es.take(i))[id],
    decreases es.len() - i,
{
    if i == es.len() {
        assert(es.take(i) =~= es);
    } else {
        let t = es.take(i + 1);
        assert(t.drop_last() =~= es.take(i));
        assert(t.last() == es[i]);
        lemma_entries_map_skip_tail(es, id, i + 1);
    }
}

impl PaneIndex {
    /// The index as a map from pane id to display index and tab name.
    pub closed spec fn as_map(self) -> Map<u32, (int, Seq<char>)> {
        entries_map(self.entries@)
    }

    /// An index with no panes at all.
    pub fn new() -> (r: Self)
        ensures
            r.as_map() == Map::<u32, (int, Seq<char>)>::empty(),
    {
        PaneIndex { entries: Vec::new() }
    }

    /// Records `pane_id` as held by the tab at `display_index` named
    /// `tab_name`, overwriting any earlier record for the same pane.
    fn insert(&mut self, pane_id: u32, display_index: usize, tab_name: String)
        ensures
            final(self).as_map() == old(self).as_map().insert(
                pane_id,
                (display_index as int, tab_name@),
            ),
    {
        let ghost before = self.entries@;
        self.entries.push(IndexEntry { pane_id, display_index, tab_name });
        proof {
            assert(self.entries@.drop_last() =~= before);
        }
    }

    /// The display index and tab name recorded for `pane_id`, or `None`
    /// when the index knows no such pane.
    pub fn get(&self, pane_id: u32) -> (r: Option<(usize, &String)>)
        ensures
            match r {
                Some((d, name)) => self.as_map().contains_key(pane_id)
                    && self.as_map()[pane_id] == (d as int, name@),
                None => !self.as_map().contains_key(pane_id),
            },
    {
        let es = &self.entries;
        let n = es.len();
        let mut i = n;
        while i > 0
            invariant
                i <= n,
                n == es@.len(),
                es@ == self.entries@,
                forall|k: int| i <= k < es@.len()
                    ==> (#[trigger] es@[k].pane_id) != pane_id,
            decreases i,
        {
            i = i - 1;
            if es[i].pane_id == pane_id {
                proof {
                    lemma_entries_map_skip_tail(es@, pane_id, i + 1);
                    let t = es@.take(i + 1);
                    assert(t.drop_last() =~= es@.take(i as int));
                    assert(t.last() == es@[i as int]);
                }
                return Some((es[i].display_index, &es[i].tab_name));
            }
        }
        proof {
            lemma_entries_map_skip_tail(es@, pane_id, 0);
            assert(es@.take(0) =~= Seq::<IndexEntry>::empty());
        }
        None
    }
}

/// The map that one pane group contributes on top of `m`: every
/// non-plugin pane of `ps` inserted with display index `d` and tab name
/// `name`, in group order, so that a later record for a repeated pane
/// id wins.
pub open spec fn group_inserted(
    m: Map<u32, (int, Seq<char>)>,
    ps: Seq<PaneEntry>,
    d: int,
    name: Seq<char>,
) -> Map<u32, (int, Seq<char>)>
    decreases ps.len(),
{
    if ps.len() == 0 {
        m
    } else {
        let prev = group_inserted(m, ps.drop_last(), d, name);
        if ps.last().is_plugin {
            prev
        } else {
            prev.insert(ps.last().id, (d, name))
        }
    }
}

/// The fully rebuilt index for a tab list and a pane manifest: tabs are
/// taken in snapshot order, each contributing its pane group (if the
/// manifest has one for its position) at its 0-based display index;
/// plugin panes are skipped; a later record for a repeated pane id
/// wins.
pub open spec fn rebuilt(tabs: Seq<TabEntry>, panes: Map<int, Seq<PaneEntry>>) -> Map<
    u32,
    (int, Seq<char>),
>
    decreases tabs.len(),
{
    if tabs.len() == 0 {
        Map::<u32, (int, Seq<char>)>::empty()
    } else {
        let m = rebuilt(tabs.drop_last(), panes);
        let t = tabs.last();
        if panes.contains_key(t.position as int) {
            group_inserted(m, panes[t.position as int], tabs.len() - 1, t.name@)
        } else {
            m
        }
    }
}

/// Recomputes the whole pane index from the given snapshot pair. The
/// result depends on nothing but the two snapshots, so a rebuild fully
/// replaces any earlier content.
pub fn rebuild(tabs: &Vec<TabEntry>, panes: &PaneSnapshot) -> (r: PaneIndex)
    ensures
        r.as_map() == rebuilt(tabs@, panes.as_map()),
{
    let mut idx = PaneIndex::new();
    let mut i: usize = 0;
    while i < tabs.len()
        invariant
            i <= tabs@.len(),
            idx.as_map() == rebuilt(tabs@.take(i as int), panes.as_map()),
        decreases tabs@.len() - i,
    {
        let tab = &tabs[i];
        match panes.get(tab.position) {
            Some(group) => {
                let mut j: usize = 0;
                while j < group.len()
                    invariant
                        j <= group@.len(),
                        i < tabs@.len(),
                        tab == tabs@[i as int],
                        panes.as_map().contains_key(tabs@[i as int].position as int),
                        group@ == panes.as_map()[tabs@[i as int].position as int],
                        idx.as_map() == group_inserted(
                            rebuilt(tabs@.take(i as int), panes.as_map()),
                            group@.take(j as int),
                            i as int,
                            tabs@[i as int].name@,
                        ),
                    decreases group@.len() - j,
                {
                    let p = group[j];
                    if !p.is_plugin {
                        idx.insert(p.id, i, tab.name.clone());
                    }
                    proof {
                        let t = group@.take(j + 1);
                        assert(t.drop_last() =~= group@.take(j as int));
                        assert(t.last() == group@[j as int]);
                    }
                    j = j + 1;
                }
                proof {
                    assert(group@.take(group@.len() as int) =~= group@);
                }
            },
            None => {},
        }
        proof {
            let t = tabs@.take(i + 1);
            assert(t.drop_last() =~= tabs@.take(i as int));
            assert(t.last() == tabs@[i as int]);
        }
        i = i + 1;
    }
    proof {
        assert(tabs@.take(tabs@.len() as int) =~= tabs@);
    }
    idx
}

/// Whether `(d, j)` names a slot of the snapshot pair: pane `j` of the
/// group that the manifest holds for the tab at display index `d`.
pub open spec fn pane_slot(
    tabs: Seq<TabEntry>,
    panes: Map<int, Seq<PaneEntry>>,
    d: int,
    j: int,
) -> bool {
    &&& 0 <= d < tabs.len()
    &&& panes.contains_key(tabs[d].position as int)
    &&& 0 <= j < panes[tabs[d].position as int].len()
}

/// The pane in slot `(d, j)`.
pub open spec fn pane_at(
    tabs: Seq<TabEntry>,
    panes: Map<int, Seq<PaneEntry>>,
    d: int,
    j: int,
) -> PaneEntry {
    panes[tabs[d].position as int][j]
}

/// Whether pane id `id` is listed by the snapshot pair: some slot holds
/// a non-plugin pane with that id.
pub open spec fn listed(tabs: Seq<TabEntry>, panes: Map<int, Seq<PaneEntry>>, id: u32) -> bool {
    exists|d: int, j: int|
        #[trigger] pane_slot(tabs, panes, d, j) && !pane_at(tabs, panes, d, j).is_plugin
            && pane_at(tabs, panes, d, j).id == id
}

/// A key is in a group's contribution exactly when it was already in
/// the base map or some non-plugin pane of the group carries it.
proof fn lemma_group_inserted_key(
    m: Map<u32, (int, Seq<char>)>,
    ps: Seq<PaneEntry>,
    d: int,
    name: Seq<char>,
    id: u32,
)
    ensures
        group_inserted(m, ps, d, name).contains_key(id) <==> (m.contains_key(id) || exists|j: int|
            0 <= j < ps.len() && !(#[trigger] ps[j]).is_plugin && ps[j].id == id),
    decreases ps.len(),
{
    if ps.len() > 0 {
        let prev = ps.drop_last();
        lemma_group_inserted_key(m, prev, d, name, id);
        let last: int = ps.len() - 1;
        if exists|j: int| 0 <= j < prev.len() && !(#[trigger] prev[j]).is_plugin && prev[j].id
            == id {
            let j = choose|j: int|
                0 <= j < prev.len() && !(#[trigger] prev[j]).is_plugin && prev[j].id == id;
            assert(ps[j] == prev[j]);
        }
        if exists|j: int| 0 <= j < ps.len() && !(#[trigger] ps[j]).is_plugin && ps[j].id == id {
            let j = choose|j: int|
                0 <= j < ps.len() && !(#[trigger] ps[j]).is_plugin && ps[j].id == id;
            if j < last {
                assert(prev[j] == ps[j]);
            }
        }
    }
}

/// A group's contribution leaves untouched every pane id that none of
/// its non-plugin panes carries.
proof fn lemma_group_inserted_preserve(
    m: Map<u32, (int, Seq<char>)>,
    ps: Seq<PaneEntry>,
    d: int,
    name: Seq<char>,
    id: u32,
)
    requires
        forall|j: int| 0 <= j < ps.len() && !(#[trigger] ps[j]).is_plugin ==> ps[j].id != id,
    ensures
        group_inserted(m, ps, d, name).contains_key(id) == m.contains_key(id),
        m.contains_key(id) ==> group_inserted(m, ps, d, name)[id] == m[id],
    decreases ps.len(),
{
    if ps.len() > 0 {
        let prev = ps.drop_last();
        assert(forall|j: int|
            0 <= j < prev.len() && !(#[trigger] prev[j]).is_plugin ==> prev[j].id != id) by {
            assert(forall|j: int| 0 <= j < prev.len() ==> #[trigger] prev[j] == ps[j]);
        }
        lemma_group_inserted_preserve(m, prev, d, name, id);
        assert(ps[ps.len() - 1] == ps.last());
    }
}

/// When every later non-plugin pane of the group carries another id,
/// the group's contribution maps the pane in position `j` to exactly
/// this group's display index and name.
proof fn lemma_group_inserted_value(
    m: Map<u32, (int, Seq<char>)>,
    ps: Seq<PaneEntry>,
    d: int,
    name: Seq<char>,
    j: int,
)
    requires
        0 <= j < ps.len(),
        !ps[j].is_plugin,
        forall|k: int| j < k < ps.len() && !(#[trigger] ps[k]).is_plugin ==> ps[k].id != ps[j].id,
    ensures
        group_inserted(m, ps, d, name).contains_key(ps[j].id),
        group_inserted(m, ps, d, name)[ps[j].id] == (d, name),
    decreases ps.len(),
{
    let prev = ps.drop_last();
    let last: int = ps.len() - 1;
    assert(ps[last] == ps.last());
    if j == last {
    } else {
        assert(forall|k: int| 0 <= k < prev.len() ==> #[trigger] prev[k] == ps[k]);
        lemma_group_inserted_value(m, prev, d, name, j);
    }
}

/// The rebuilt index has a key exactly for the pane ids that the
/// snapshot pair lists through a non-plugin pane. This covers both
/// exclusivity (a plugin-only id is absent) and totality (an id the
/// new manifest no longer lists is absent, however the index looked
/// before).
pub proof fn lemma_index_domain(tabs: Seq<TabEntry>, panes: Map<int, Seq<PaneEntry>>, id: u32)
    ensures
        rebuilt(tabs, panes).contains_key(id) <==> listed(tabs, panes, id),
    decreases tabs.len(),
{
    if tabs.len() == 0 {
        if listed(tabs, panes, id) {
            let (d, j) = choose|d: int, j: int|
                #[trigger] pane_slot(tabs, panes, d, j) && !pane_at(tabs, panes, d, j).is_plugin
                    && pane_at(tabs, panes, d, j).id == id;
            assert(false);
        }
    } else {
        let prev = tabs.drop_last();
        let d0: int = tabs.len() - 1;
        lemma_index_domain(prev, panes, id);
        assert(tabs[d0] == tabs.last());
        assert(forall|d: int| 0 <= d < prev.len() ==> #[trigger] prev[d] == tabs[d]);
        if panes.contains_key(tabs.last().position as int) {
            let ps = panes[tabs.last().position as int];
            lemma_group_inserted_key(rebuilt(prev, panes), ps, d0, tabs.last().name@, id);
            if rebuilt(tabs, panes).contains_key(id) {
                if rebuilt(prev, panes).contains_key(id) {
                    let (d, j) = choose|d: int, j: int|
                        #[trigger] pane_slot(prev, panes, d, j) && !pane_at(
                            prev,
                            panes,
                            d,
                            j,
                        ).is_plugin && pane_at(prev, panes, d, j).id == id;
                    assert(pane_slot(tabs, panes, d, j));
                } else {
                    let j = choose|j: int|
                        0 <= j < ps.len() && !(#[trigger] ps[j]).is_plugin && ps[j].id == id;
                    assert(pane_slot(tabs, panes, d0, j));
                }
            }
            if listed(tabs, panes, id) {
                let (d, j) = choose|d: int, j: int|
                    #[trigger] pane_slot(tabs, panes, d, j) && !pane_at(
                        tabs,
                        panes,
                        d,
                        j,
                    ).is_plugin && pane_at(tabs, panes, d, j).id == id;
                if d < d0 {
                    assert(pane_slot(prev, panes, d, j));
                }
            }
        } else {
            if rebuilt(tabs, panes).contains_key(id) {
                let (d, j) = choose|d: int, j: int|
                    #[trigger] pane_slot(prev, panes, d, j) && !pane_at(
                        prev,
                        panes,
                        d,
                        j,
                    ).is_plugin && pane_at(prev, panes, d, j).id == id;
                assert(pane_slot(tabs, panes, d, j));
            }
            if listed(tabs, panes, id) {
                let (d, j) = choose|d: int, j: int|
                    #[trigger] pane_slot(tabs, panes, d, j) && !pane_at(
                        tabs,
                        panes,
                        d,
                        j,
                    ).is_plugin && pane_at(tabs, panes, d, j).id == id;
                assert(d != d0);
                assert(pane_slot(prev, panes, d, j));
            }
        }
    }
}

/// Index exclusivity: a pane id carried only by plugin panes never
/// appears in the rebuilt index.
pub proof fn lemma_index_excludes_plugins(
    tabs: Seq<TabEntry>,
    panes: Map<int, Seq<PaneEntry>>,
    id: u32,
)
    requires
        forall|d: int, j: int|
            #[trigger] pane_slot(tabs, panes, d, j) && pane_at(tabs, panes, d, j).id == id
                ==> pane_at(tabs, panes, d, j).is_plugin,
    ensures
        !rebuilt(tabs, panes).contains_key(id),
{
    lemma_index_domain(tabs, panes, id);
}

/// Rebuild is total: a pane id that the latest snapshot pair no longer
/// lists is absent from the rebuilt index, whatever any earlier index
/// held.
pub proof fn lemma_rebuild_drops_stale(
    tabs: Seq<TabEntry>,
    panes: Map<int, Seq<PaneEntry>>,
    id: u32,
)
    requires
        !listed(tabs, panes, id),
    ensures
        !rebuilt(tabs, panes).contains_key(id),
{
    lemma_index_domain(tabs, panes, id);
}

/// Whether each listed non-plugin pane id sits in exactly one slot of
/// the snapshot pair.
pub open spec fn unique_pane_ids(tabs: Seq<TabEntry>, panes: Map<int, Seq<PaneEntry>>) -> bool {
    forall|d1: int, j1: int, d2: int, j2: int|
        #[trigger] pane_slot(tabs, panes, d1, j1) && #[trigger] pane_slot(tabs, panes, d2, j2)
            && !pane_at(tabs, panes, d1, j1).is_plugin && !pane_at(tabs, panes, d2, j2).is_plugin
            && pane_at(tabs, panes, d1, j1).id == pane_at(tabs, panes, d2, j2).id ==> d1 == d2
            && j1 == j2
}

/// Index completeness: when no non-plugin pane id sits in two slots,
/// every non-plugin pane whose group position appears in the tab list
/// is in the rebuilt index, mapped to the 0-based display index and
/// name of its tab. (With a pane id repeated across slots only the
/// slot rebuilt last is kept, so the assumption is needed.)
pub proof fn lemma_index_complete(
    tabs: Seq<TabEntry>,
    panes: Map<int, Seq<PaneEntry>>,
    d: int,
    j: int,
)
    requires
        unique_pane_ids(tabs, panes),
        pane_slot(tabs, panes, d, j),
        !pane_at(tabs, panes, d, j).is_plugin,
    ensures
        rebuilt(tabs, panes).contains_key(pane_at(tabs, panes, d, j).id),
        rebuilt(tabs, panes)[pane_at(tabs, panes, d, j).id] == (d, tabs[d].name@),
    decreases tabs.len(),
{
    let id = pane_at(tabs, panes, d, j).id;
    let prev = tabs.drop_last();
    let d0: int = tabs.len() - 1;
    assert(tabs[d0] == tabs.last());
    assert(forall|k: int| 0 <= k < prev.len() ==> #[trigger] prev[k] == tabs[k]);
    if d == d0 {
        let ps = panes[tabs.last().position as int];
        assert(forall|k: int|
            j < k < ps.len() && !(#[trigger] ps[k]).is_plugin ==> ps[k].id != id) by {
            assert forall|k: int|
                j < k < ps.len() && !(#[trigger] ps[k]).is_plugin implies ps[k].id != id by {
                assert(pane_slot(tabs, panes, d0, k));
            }
        }
        lemma_group_inserted_value(rebuilt(prev, panes), ps, d0, tabs.last().name@, j);
    } else {
        assert(unique_pane_ids(prev, panes)) by {
            assert forall|d1: int, j1: int, d2: int, j2: int|
                #[trigger] pane_slot(prev, panes, d1, j1) && #[trigger] pane_slot(
                    prev,
                    panes,
                    d2,
                    j2,
                ) && !pane_at(prev, panes, d1, j1).is_plugin && !pane_at(
                    prev,
                    panes,
                    d2,
                    j2,
                ).is_plugin && pane_at(prev, panes, d1, j1).id == pane_at(
                    prev,
                    panes,
                    d2,
                    j2,
                ).id implies d1 == d2 && j1 == j2 by {
                assert(pane_slot(tabs, panes, d1, j1));
                assert(pane_slot(tabs, panes, d2, j2));
            }
        }
        assert(pane_slot(prev, panes, d, j));
        lemma_index_complete(prev, panes, d, j);
        if panes.contains_key(tabs.last().position as int) {
            let ps = panes[tabs.last().position as int];
            assert(forall|k: int|
                0 <= k < ps.len() && !(#[trigger] ps[k]).is_plugin ==> ps[k].id != id) by {
                assert forall|k: int|
                    0 <= k < ps.len() && !(#[trigger] ps[k]).is_plugin implies ps[k].id != id by {
                    assert(pane_slot(tabs, panes, d0, k));
                    assert(pane_slot(tabs, panes, d, j));
                }
            }
            lemma_group_inserted_preserve(
                rebuilt(prev, panes),
                ps,
                d0,
                tabs.last().name@,
                id,
            );
        }
    }
}

} // verus!
