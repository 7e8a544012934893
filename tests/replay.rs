use i3_aww::layout::layout_args;
use i3_aww::monitor::MonitorData;
use i3_aww::replay::{replay_commands, ReplayCommand};
use i3_aww::store::{Store, TrackedWorkspace, WorkspaceReport};

fn report(num: i32, output: &str, focused: bool, visible: bool) -> WorkspaceReport {
    WorkspaceReport { num, output: output.to_string(), focused, visible }
}

fn out(name: &str, connected: bool) -> MonitorData {
    MonitorData { name: name.to_string(), connected }
}

fn entry(num: i32, remembered: Option<&str>, was_focused: bool) -> (i32, TrackedWorkspace) {
    (
        num,
        TrackedWorkspace {
            num,
            focused: false,
            current_output: "B".to_string(),
            remembered_output: remembered.map(|s| s.to_string()),
            was_focused,
        },
    )
}

fn texts(cmds: &Vec<ReplayCommand>) -> Vec<String> {
    cmds.iter().map(|c| c.text()).collect()
}

#[test]
fn command_texts() {
    assert_eq!(ReplayCommand::Focus { num: 3 }.text(), "workspace 3");
    assert_eq!(ReplayCommand::Focus { num: -12 }.text(), "workspace -12");
    assert_eq!(
        ReplayCommand::MoveToOutput { num: 10, output: "DVI-D-0".to_string() }.text(),
        "[workspace=\"10\"] move workspace to output DVI-D-0"
    );
}

#[test]
fn prechange_focus_is_issued_last() {
    let entries = vec![entry(2, Some("A"), true), entry(5, None, false)];
    let cmds = replay_commands(&entries, &vec![out("A", true)], &vec![2, 5], Some(5));
    assert_eq!(
        texts(&cmds),
        vec![
            "[workspace=\"2\"] move workspace to output A".to_string(),
            "workspace 2".to_string(),
            "workspace 5".to_string(),
        ]
    );
}

#[test]
fn no_move_to_disconnected_output() {
    let entries = vec![entry(1, Some("A"), true), entry(2, Some("C"), false)];
    let cmds = replay_commands(&entries, &vec![out("A", false), out("C", true)], &vec![1], None);
    assert_eq!(
        texts(&cmds),
        vec!["[workspace=\"2\"] move workspace to output C".to_string(), "workspace 1".to_string()]
    );
}

#[test]
fn vanished_workspaces_are_not_focused() {
    let entries = vec![entry(1, None, true)];
    let cmds = replay_commands(&entries, &vec![], &vec![2], Some(9));
    assert!(cmds.is_empty());
}

#[test]
fn layout_prefers_configured_primary() {
    let outs = vec![out("DVI-D-0", true), out("HDMI-A-0", true), out("VGA-0", false)];
    let pos = i3_aww::config::MonitorPos::parse("DVI-D-0:--right-of HDMI-A-0");
    let args = layout_args(&outs, "HDMI-A-0", &pos);
    assert_eq!(
        args,
        vec![
            "--output", "DVI-D-0", "--auto", "--right-of", "HDMI-A-0", "--output", "HDMI-A-0",
            "--auto", "--primary", "--output", "VGA-0", "--off",
        ]
    );
}

#[test]
fn layout_falls_back_to_first_connected() {
    let outs = vec![out("HDMI-A-0", false), out("DVI-D-0", true), out("DP-1", true)];
    let args = layout_args(&outs, "HDMI-A-0", &None);
    assert_eq!(
        args,
        vec![
            "--output", "HDMI-A-0", "--off", "--output", "DVI-D-0", "--auto", "--primary",
            "--output", "DP-1", "--auto",
        ]
    );
}

#[test]
fn layout_of_nothing_is_empty() {
    assert!(layout_args(&vec![], "A", &None).is_empty());
}

#[test]
fn unplug_and_replug_restores_layout() {
    let mut store = Store::from_snapshot(&vec![report(1, "A", true, true), report(2, "B", false, true)]);

    // A disconnects
    let outs = vec![out("A", false), out("B", true)];
    assert_eq!(
        layout_args(&outs, "A", &None),
        vec!["--output", "A", "--off", "--output", "B", "--auto", "--primary"]
    );
    let existing = vec![1, 2];
    store.reconcile(&vec![report(1, "B", true, true), report(2, "B", false, false)], &outs);
    let w1 = store.get(1).unwrap();
    assert_eq!(w1.remembered_output, Some("A".to_string()));
    assert!(w1.was_focused);
    let cmds = store.replay_plan(&outs, &existing, Some(1));
    assert!(cmds.iter().all(|c| matches!(c, ReplayCommand::Focus { num: 1 })));

    // A comes back
    let outs = vec![out("A", true), out("B", true)];
    assert_eq!(
        layout_args(&outs, "A", &None),
        vec!["--output", "A", "--auto", "--primary", "--output", "B", "--auto"]
    );
    store.reconcile(&vec![report(1, "B", true, true), report(2, "B", false, false)], &outs);
    let cmds = store.replay_plan(&outs, &existing, Some(1));
    assert_eq!(
        texts(&cmds),
        vec![
            "[workspace=\"1\"] move workspace to output A".to_string(),
            "workspace 1".to_string(),
            "workspace 1".to_string(),
        ]
    );
}
