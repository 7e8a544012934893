//! The reconciliation store: workspace number to tracked placement state,
//! held in a `DashMap`, and the reconciliation rule that updates it.
use vstd::prelude::*;
use dashmap::DashMap;
use crate::monitor::{MonitorData, connected_in, outputs_view, monitor_connected, str_eq};

verus! {

#[verifier::external_type_specification]
#[verifier::external_body]
#[verifier::reject_recursive_types(K)]
#[verifier::reject_recursive_types(V)]
#[verifier::reject_recursive_types(S)]
pub struct ExDashMap<K, V, S>(DashMap<K, V, S>);

/// What the store tracks for one workspace.
#[derive(Clone, Debug)]
pub struct TrackedWorkspace {
    /// Workspace number, the key of the entry.
    pub num: i32,
    /// Effective focus as last reported: focused or visible on its output.
    pub focused: bool,
    /// The output that hosted the workspace when last reported.
    pub current_output: String,
    /// The output to move the workspace back to once it reconnects.
    pub remembered_output: Option<String>,
    /// Whether the workspace was focused or visible when its output went away.
    pub was_focused: bool,
}

/// Abstract value of a [`TrackedWorkspace`].
pub ghost struct WorkspaceView {
    pub num: i32,
    pub focused: bool,
    pub current_output: Seq<char>,
    pub remembered_output: Option<Seq<char>>,
    pub was_focused: bool,
}

pub open spec fn opt_view(o: Option<String>) -> Option<Seq<char>> {
    match o {
        Some(s) => Some(s@),
        None => None,
    }
}

impl View for TrackedWorkspace {
    type V = WorkspaceView;

    open spec fn view(&self) -> WorkspaceView {
        WorkspaceView {
            num: self.num,
            focused: self.focused,
            current_output: self.current_output@,
            remembered_output: opt_view(self.remembered_output),
            was_focused: self.was_focused,
        }
    }
}

/// What the map holds, entry by entry.
pub uninterp spec fn map_contents(m: DashMap<i32, TrackedWorkspace>) -> Map<i32, WorkspaceView>;

/// Relies on `DashMap::new`: the new map is empty.
#[verifier::external_body]
fn map_new() -> (r: DashMap<i32, TrackedWorkspace>)
    ensures
        map_contents(r).is_empty(),
{
    DashMap::new()
}

/// Relies on `DashMap::get`: the entry under `k`, if any (cloned out of the guard).
#[verifier::external_body]
fn map_get(m: &DashMap<i32, TrackedWorkspace>, k: i32) -> (r: Option<TrackedWorkspace>)
    ensures
        r is Some <==> map_contents(*m).contains_key(k),
        r is Some ==> r->0@ == map_contents(*m)[k],
{
    m.get(&k).map(|e| e.value().clone())
}

/// Relies on `DashMap::insert`: the entry under `k` becomes `v`, the others stay.
#[verifier::external_body]
fn map_insert(m: &mut DashMap<i32, TrackedWorkspace>, k: i32, v: TrackedWorkspace)
    ensures
        map_contents(*final(m)) == map_contents(*old(m)).insert(k, v@),
{
    m.insert(k, v);
}

/// Relies on `DashMap::iter`: every entry once, keys paired with cloned values,
/// in an order that the map leaves open.
#[verifier::external_body]
fn map_entries(m: &DashMap<i32, TrackedWorkspace>) -> (r: Vec<(i32, TrackedWorkspace)>)
    ensures
        forall|i: int|
            0 <= i < r@.len() ==> map_contents(*m).contains_key(#[trigger] r@[i].0)
                && map_contents(*m)[r@[i].0] == r@[i].1@,
        forall|k: i32| #[trigger]
            map_contents(*m).contains_key(k) ==> exists|i: int| 0 <= i < r@.len() && r@[i].0 == k,
        forall|i: int, j: int| 0 <= i < j < r@.len() ==> r@[i].0 != r@[j].0,
{
    m.iter().map(|e| (*e.key(), e.value().clone())).collect()
}


/// One workspace as the window manager reports it.
#[derive(Clone, Debug)]
pub struct WorkspaceReport {
    pub num: i32,
    pub output: String,
    pub focused: bool,
    pub visible: bool,
}

/// Abstract value of a [`WorkspaceReport`].
pub ghost struct ReportView {
    pub num: i32,
    pub output: Seq<char>,
    pub focused: bool,
    pub visible: bool,
}

impl View for WorkspaceReport {
    type V = ReportView;

    open spec fn view(&self) -> ReportView {
        ReportView {
            num: self.num,
            output: self.output@,
            focused: self.focused,
            visible: self.visible,
        }
    }
}

pub open spec fn reports_view(s: Seq<WorkspaceReport>) -> Seq<ReportView> {
    s.map_values(|r: WorkspaceReport| r@)
}

/// A snapshot names each workspace at most once.
pub open spec fn distinct_nums(s: Seq<ReportView>) -> bool {
    forall|i: int, j: int| 0 <= i < s.len() && 0 <= j < s.len() && i != j ==> s[i].num != s[j].num
}

pub open spec fn lookup(m: Map<i32, WorkspaceView>, k: i32) -> Option<WorkspaceView> {
    if m.contains_key(k) {
        Some(m[k])
    } else {
        None
    }
}

/// The entry written for report `e` when the store held `prev` for its number:
/// unchanged output carries the remembered state forward; a move away from an
/// output that is now disconnected remembers that output and its focus; any
/// other move (or a first sighting) owes no restoration.
pub open spec fn next_entry(
    prev: Option<WorkspaceView>,
    e: ReportView,
    outs: Seq<(Seq<char>, bool)>,
) -> WorkspaceView {
    let kept: (Option<Seq<char>>, bool) = match prev {
        None => (None, false),
        Some(p) => if e.output == p.current_output {
            (p.remembered_output, p.was_focused)
        } else if !connected_in(outs, p.current_output) {
            (Some(p.current_output), p.focused)
        } else {
            (None, false)
        },
    };
    WorkspaceView {
        num: e.num,
        focused: e.focused || e.visible,
        current_output: e.output,
        remembered_output: kept.0,
        was_focused: kept.1,
    }
}

/// The store after applying the reports of `snap` one after the other.
pub open spec fn reconciled(
    m: Map<i32, WorkspaceView>,
    snap: Seq<ReportView>,
    outs: Seq<(Seq<char>, bool)>,
) -> Map<i32, WorkspaceView>
    decreases snap.len(),
{
    if snap.len() == 0 {
        m
    } else {
        let p = reconciled(m, snap.drop_last(), outs);
        let e = snap.last();
        p.insert(e.num, next_entry(lookup(p, e.num), e, outs))
    }
}

/// The store first populated from `snap`: each report taken as a first sighting.
pub open spec fn initial_store(snap: Seq<ReportView>) -> Map<i32, WorkspaceView>
    decreases snap.len(),
{
    if snap.len() == 0 {
        Map::empty()
    } else {
        let e = snap.last();
        initial_store(snap.drop_last()).insert(e.num, next_entry(None, e, Seq::empty()))
    }
}

/// Entries are keyed by their number, a remembered output differs from the
/// current one, and remembered focus goes with a remembered output.
pub open spec fn store_wf(m: Map<i32, WorkspaceView>) -> bool {
    forall|k: i32|
        #![trigger m[k]]
        m.contains_key(k) ==> {
            &&& m[k].num == k
            &&& (m[k].remembered_output matches Some(o) ==> o != m[k].current_output)
            &&& (m[k].was_focused ==> m[k].remembered_output is Some)
        }
}

/// The reconciliation store.
pub struct Store {
    map: DashMap<i32, TrackedWorkspace>,
}

impl View for Store {
    type V = Map<i32, WorkspaceView>;

    closed spec fn view(&self) -> Map<i32, WorkspaceView> {
        map_contents(self.map)
    }
}

impl Store {
    pub open spec fn wf(&self) -> bool {
        store_wf(self@)
    }

    /// An empty store.
    pub fn new() -> (r: Store)
        ensures
            r@ == Map::<i32, WorkspaceView>::empty(),
            r.wf(),
    {
        let r = Store { map: map_new() };
        assert(r@ =~= Map::<i32, WorkspaceView>::empty());
        r
    }

    /// A store populated from an initial snapshot: each reported workspace
    /// with its effective focus and output, nothing remembered yet.
    pub fn from_snapshot(snapshot: &Vec<WorkspaceReport>) -> (r: Store)
        ensures
            r@ == initial_store(reports_view(snapshot@)),
            r.wf(),
            forall|k: i32| #[trigger] r@.contains_key(k) ==> r@[k].remembered_output is None,
    {
        let ghost snap = reports_view(snapshot@);
        let mut r = Store::new();
        let mut i: usize = 0;
        while i < snapshot.len()
            invariant
                0 <= i <= snapshot@.len(),
                snap == reports_view(snapshot@),
                r.wf(),
                r@ == initial_store(snap.take(i as int)),
                forall|k: i32| #[trigger] r@.contains_key(k) ==> r@[k].remembered_output is None,
            decreases snapshot@.len() - i,
        {
            let e = &snapshot[i];
            let entry = TrackedWorkspace {
                num: e.num,
                focused: e.focused || e.visible,
                current_output: e.output.clone(),
                remembered_output: None,
                was_focused: false,
            };
            proof {
                assert(snap.take(i + 1).drop_last() =~= snap.take(i as int));
                assert(snap.take(i + 1).last() == e@);
            }
            map_insert(&mut r.map, e.num, entry);
            i = i + 1;
        }
        proof {
            assert(snap.take(snapshot@.len() as int) =~= snap);
        }
        r
    }

    /// The tracked entry of workspace `num`, if it has been seen.
    pub fn get(&self, num: i32) -> (r: Option<TrackedWorkspace>)
        ensures
            r is Some <==> self@.contains_key(num),
            r is Some ==> r->0@ == self@[num],
    {
        map_get(&self.map, num)
    }

    /// All tracked entries, each once with its number, in the map's own order.
    pub fn entries(&self) -> (r: Vec<(i32, TrackedWorkspace)>)
        ensures
            forall|i: int|
                0 <= i < r@.len() ==> self@.contains_key(#[trigger] r@[i].0)
                    && self@[r@[i].0] == r@[i].1@,
            forall|k: i32| #[trigger]
                self@.contains_key(k) ==> exists|i: int| 0 <= i < r@.len() && r@[i].0 == k,
            forall|i: int, j: int| 0 <= i < j < r@.len() ==> r@[i].0 != r@[j].0,
    {
        map_entries(&self.map)
    }

    /// Applies one snapshot of the window manager's workspaces, report by
    /// report, with `outputs` as the enumeration the probe answers from.
    /// Entries of numbers that the snapshot does not name are left alone.
    pub fn reconcile(&mut self, snapshot: &Vec<WorkspaceReport>, outputs: &Vec<MonitorData>)
        requires
            old(self).wf(),
        ensures
            final(self).wf(),
            final(self)@ == reconciled(old(self)@, reports_view(snapshot@), outputs_view(outputs@)),
    {
        let ghost start = self@;
        let ghost snap = reports_view(snapshot@);
        let ghost outs = outputs_view(outputs@);
        let mut i: usize = 0;
        while i < snapshot.len()
            invariant
                0 <= i <= snapshot@.len(),
                snap == reports_view(snapshot@),
                outs == outputs_view(outputs@),
                self.wf(),
                self@ == reconciled(start, snap.take(i as int), outs),
            decreases snapshot@.len() - i,
        {
            let e = &snapshot[i];
            let prev = map_get(&self.map, e.num);
            let (remembered, was_focused): (Option<String>, bool) = match prev {
                None => (None, false),
                Some(p) => {
                    if str_eq(e.output.as_str(), p.current_output.as_str()) {
                        (p.remembered_output, p.was_focused)
                    } else if !monitor_connected(p.current_output.as_str(), outputs) {
                        (Some(p.current_output), p.focused)
                    } else {
                        (None, false)
                    }
                },
            };
            let entry = TrackedWorkspace {
                num: e.num,
                focused: e.focused || e.visible,
                current_output: e.output.clone(),
                remembered_output: remembered,
                was_focused,
            };
            proof {
                let pre = snap.take(i as int);
                assert(snap.take(i + 1).drop_last() =~= pre);
                assert(snap.take(i + 1).last() == e@);
                assert(lookup(self@, e.num) == opt_map_view(prev));
            }
            map_insert(&mut self.map, e.num, entry);
            i = i + 1;
        }
        proof {
            assert(snap.take(snapshot@.len() as int) =~= snap);
        }
    }
}

pub open spec fn opt_map_view(o: Option<TrackedWorkspace>) -> Option<WorkspaceView> {
    match o {
        Some(w) => Some(w@),
        None => None,
    }
}

} // verus!
