use i3_aww::monitor::{monitor_connected, MonitorData};
use i3_aww::store::{Store, TrackedWorkspace, WorkspaceReport};

fn report(num: i32, output: &str, focused: bool, visible: bool) -> WorkspaceReport {
    WorkspaceReport { num, output: output.to_string(), focused, visible }
}

fn out(name: &str, connected: bool) -> MonitorData {
    MonitorData { name: name.to_string(), connected }
}

fn same(a: &TrackedWorkspace, b: &TrackedWorkspace) -> bool {
    a.num == b.num
        && a.focused == b.focused
        && a.current_output == b.current_output
        && a.remembered_output == b.remembered_output
        && a.was_focused == b.was_focused
}

#[test]
fn probe_needs_name_and_identification() {
    let outs = vec![out("HDMI-A-0", true), out("DVI-D-0", false)];
    assert!(monitor_connected("HDMI-A-0", &outs));
    assert!(!monitor_connected("DVI-D-0", &outs));
    assert!(!monitor_connected("DP-1", &outs));
    assert!(!monitor_connected("HDMI-A-0", &vec![]));
}

#[test]
fn probe_duplicate_names_any_connected() {
    let outs = vec![out("A", false), out("A", true)];
    assert!(monitor_connected("A", &outs));
}

#[test]
fn initial_snapshot_remembers_nothing() {
    let store = Store::from_snapshot(&vec![report(1, "A", false, true), report(2, "B", false, false)]);
    let w1 = store.get(1).unwrap();
    assert_eq!(w1.current_output, "A");
    assert!(w1.focused);
    assert_eq!(w1.remembered_output, None);
    assert!(!w1.was_focused);
    let w2 = store.get(2).unwrap();
    assert!(!w2.focused);
    assert!(store.get(3).is_none());
    assert_eq!(store.entries().len(), 2);
}

#[test]
fn reconcile_twice_is_idempotent() {
    let mut store = Store::from_snapshot(&vec![report(1, "A", true, true), report(2, "B", false, true)]);
    let outs = vec![out("A", false), out("B", true)];
    let snap = vec![report(1, "B", true, true), report(2, "B", false, false)];
    store.reconcile(&snap, &outs);
    let first: Vec<TrackedWorkspace> = vec![store.get(1).unwrap(), store.get(2).unwrap()];
    store.reconcile(&snap, &outs);
    assert!(same(&first[0], &store.get(1).unwrap()));
    assert!(same(&first[1], &store.get(2).unwrap()));
    assert_eq!(store.entries().len(), 2);
}

#[test]
fn focus_propagates_when_output_disconnects() {
    let mut store = Store::from_snapshot(&vec![report(3, "A", true, true)]);
    let outs = vec![out("A", false), out("B", true)];
    store.reconcile(&vec![report(3, "B", false, true)], &outs);
    let w = store.get(3).unwrap();
    assert_eq!(w.remembered_output, Some("A".to_string()));
    assert!(w.was_focused);
    assert_eq!(w.current_output, "B");
}

#[test]
fn manual_move_clears_remembered_output() {
    let mut store = Store::from_snapshot(&vec![report(3, "A", true, true)]);
    let outs = vec![out("A", true), out("B", true)];
    store.reconcile(&vec![report(3, "B", true, true)], &outs);
    let w = store.get(3).unwrap();
    assert_eq!(w.remembered_output, None);
    assert!(!w.was_focused);
}

#[test]
fn visible_counts_as_focused_for_remembrance() {
    let mut store = Store::from_snapshot(&vec![report(4, "A", false, true)]);
    store.reconcile(&vec![report(4, "B", false, false)], &vec![out("B", true)]);
    let w = store.get(4).unwrap();
    assert!(w.was_focused);
    assert_eq!(w.remembered_output, Some("A".to_string()));
}

#[test]
fn unchanged_output_carries_remembered_state() {
    let mut store = Store::from_snapshot(&vec![report(1, "A", true, true)]);
    store.reconcile(&vec![report(1, "B", true, true)], &vec![out("B", true)]);
    // A comes back, the workspace is still reported on B
    store.reconcile(&vec![report(1, "B", false, false)], &vec![out("A", true), out("B", true)]);
    let w = store.get(1).unwrap();
    assert_eq!(w.remembered_output, Some("A".to_string()));
    assert!(w.was_focused);
    assert!(!w.focused);
}

#[test]
fn absent_workspaces_are_kept() {
    let mut store = Store::from_snapshot(&vec![report(1, "A", true, true), report(2, "A", false, false)]);
    store.reconcile(&vec![report(1, "B", true, true)], &vec![out("B", true)]);
    let w2 = store.get(2).unwrap();
    assert_eq!(w2.current_output, "A");
    assert_eq!(w2.remembered_output, None);
}

#[test]
fn new_workspace_starts_clean() {
    let mut store = Store::new();
    store.reconcile(&vec![report(7, "A", true, false)], &vec![]);
    let w = store.get(7).unwrap();
    assert_eq!(w.num, 7);
    assert!(w.focused);
    assert_eq!(w.remembered_output, None);
}
