use i3_aww::config::{split_words, MonitorPos};
use i3_aww::hotplug::{is_display_device, HotplugAction, HotplugEvent, Orchestrator, Phase};

#[test]
fn parse_directive() {
    let p = MonitorPos::parse("DVI-D-0:--right-of HDMI-A-0").unwrap();
    assert_eq!(p.name, "DVI-D-0");
    assert_eq!(p.args, vec!["--right-of", "HDMI-A-0"]);
}

#[test]
fn parse_without_colon_is_absent() {
    assert!(MonitorPos::parse("DVI-D-0 --right-of").is_none());
    assert!(MonitorPos::parse("").is_none());
}

#[test]
fn parse_splits_on_first_colon() {
    let p = MonitorPos::parse("A:--pos 0x0:x").unwrap();
    assert_eq!(p.name, "A");
    assert_eq!(p.args, vec!["--pos", "0x0:x"]);
    let q = MonitorPos::parse("B:").unwrap();
    assert_eq!(q.name, "B");
    assert!(q.args.is_empty());
}

#[test]
fn words_split_on_ascii_whitespace() {
    assert_eq!(split_words("  a\tbc \n d  "), vec!["a", "bc", "d"]);
    assert!(split_words("   ").is_empty());
}

#[test]
fn display_devices() {
    assert!(is_display_device(&Some("drm_minor".to_string())));
    assert!(!is_display_device(&Some("usb_device".to_string())));
    assert!(!is_display_device(&None));
}

#[test]
fn hotplug_pass_runs_through_phases() {
    let mut o = Orchestrator::new();
    assert_eq!(o.step(HotplugEvent::DeviceChanged { display: false }), HotplugAction::Nothing);
    assert_eq!(
        o.step(HotplugEvent::DeviceChanged { display: true }),
        HotplugAction::ArmDebounce { generation: 1 }
    );
    assert_eq!(
        o.step(HotplugEvent::DeviceChanged { display: true }),
        HotplugAction::ArmDebounce { generation: 2 }
    );
    // the first timer was superseded
    assert_eq!(o.step(HotplugEvent::DebounceElapsed { generation: 1 }), HotplugAction::Nothing);
    assert_eq!(o.step(HotplugEvent::DebounceElapsed { generation: 2 }), HotplugAction::ApplyLayout);
    assert_eq!(o.phase, Phase::LayoutApplied);
    // changes during a pass are ignored
    assert_eq!(o.step(HotplugEvent::DeviceChanged { display: true }), HotplugAction::Nothing);
    assert_eq!(o.step(HotplugEvent::SettleElapsed), HotplugAction::Reconcile);
    assert_eq!(o.step(HotplugEvent::Reconciled), HotplugAction::Replay);
    assert_eq!(o.step(HotplugEvent::Replayed), HotplugAction::Nothing);
    assert_eq!(o.phase, Phase::Idle);
}
