//! The hotplug orchestrator as a state machine: the caller performs each
//! action (arm a timer, apply the layout, reconcile, replay) and feeds back
//! the event that follows.
use vstd::prelude::*;
use crate::monitor::str_eq;

verus! {

/// Where a hotplug pass stands.
#[derive(Clone, Copy, Debug, PartialEq, Eq, Structural)]
pub enum Phase {
    Idle,
    /// A display device changed; the debounce timer is armed.
    LayoutPending,
    /// The layout was applied; the settle timer is armed.
    LayoutApplied,
    Reconciling,
    Replaying,
}

/// What happened, as reported by the caller.
#[derive(Clone, Copy, Debug, PartialEq, Eq, Structural)]
pub enum HotplugEvent {
    /// A device changed; `display` tells whether it is a display-controller minor device.
    DeviceChanged { display: bool },
    /// The debounce timer armed with `generation` fired.
    DebounceElapsed { generation: u64 },
    /// The settle timer after the layout fired.
    SettleElapsed,
    /// The store was reconciled with a fresh snapshot.
    Reconciled,
    /// The replay commands were sent.
    Replayed,
}

/// What the caller does next.
#[derive(Clone, Copy, Debug, PartialEq, Eq, Structural)]
pub enum HotplugAction {
    Nothing,
    /// Arm the debounce timer (500 ms), tagged with `generation`.
    ArmDebounce { generation: u64 },
    /// Capture the focused and existing workspaces, probe the outputs, apply
    /// the layout, then arm the settle timer (500 ms).
    ApplyLayout,
    /// Fetch a fresh snapshot and reconcile the store with it.
    Reconcile,
    /// Send the replay commands.
    Replay,
}

/// The orchestrator's state: the phase, and the tag of the latest debounce timer.
#[derive(Clone, Copy, Debug)]
pub struct Orchestrator {
    pub phase: Phase,
    pub generation: u64,
}

/// Delay of each of the two waits of a pass, in milliseconds.
pub const SETTLE_DELAY_MS: u64 = 500;

/// The transition from `(phase, generation)` on `ev`: the next phase, the next
/// generation and the action. A display change while idle or still debouncing
/// re-arms the debounce under a new generation, so that only the latest timer
/// starts the pass; once the layout is being applied, further changes are
/// ignored until the pass is back to idle.
pub open spec fn transition(phase: Phase, generation: u64, ev: HotplugEvent) -> (Phase, u64, HotplugAction) {
    let next: u64 = if generation == u64::MAX { 0 } else { (generation + 1) as u64 };
    match ev {
        HotplugEvent::DeviceChanged { display } => if display && (phase == Phase::Idle || phase
            == Phase::LayoutPending) {
            (Phase::LayoutPending, next, HotplugAction::ArmDebounce { generation: next })
        } else {
            (phase, generation, HotplugAction::Nothing)
        },
        HotplugEvent::DebounceElapsed { generation: g } => if phase == Phase::LayoutPending && g
            == generation {
            (Phase::LayoutApplied, generation, HotplugAction::ApplyLayout)
        } else {
            (phase, generation, HotplugAction::Nothing)
        },
        HotplugEvent::SettleElapsed => if phase == Phase::LayoutApplied {
            (Phase::Reconciling, generation, HotplugAction::Reconcile)
        } else {
            (phase, generation, HotplugAction::Nothing)
        },
        HotplugEvent::Reconciled => if phase == Phase::Reconciling {
            (Phase::Replaying, generation, HotplugAction::Replay)
        } else {
            (phase, generation, HotplugAction::Nothing)
        },
        HotplugEvent::Replayed => if phase == Phase::Replaying {
            (Phase::Idle, generation, HotplugAction::Nothing)
        } else {
            (phase, generation, HotplugAction::Nothing)
        },
    }
}

impl Orchestrator {
    /// Idle, with no timer armed.
    pub fn new() -> (r: Orchestrator)
        ensures
            r.phase == Phase::Idle,
            r.generation == 0,
    {
        Orchestrator { phase: Phase::Idle, generation: 0 }
    }

    /// Takes one event and says what to do next.
    pub fn step(&mut self, ev: HotplugEvent) -> (r: HotplugAction)
        ensures
            (final(self).phase, final(self).generation, r) == transition(
                old(self).phase,
                old(self).generation,
                ev,
            ),
    {
        let next: u64 = if self.generation == u64::MAX { 0 } else { self.generation + 1 };
        match ev {
            HotplugEvent::DeviceChanged { display } => {
                if display && (self.phase == Phase::Idle || self.phase == Phase::LayoutPending) {
                    self.phase = Phase::LayoutPending;
                    self.generation = next;
                    HotplugAction::ArmDebounce { generation: next }
                } else {
                    HotplugAction::Nothing
                }
            },
            HotplugEvent::DebounceElapsed { generation } => {
                if self.phase == Phase::LayoutPending && generation == self.generation {
                    self.phase = Phase::LayoutApplied;
                    HotplugAction::ApplyLayout
                } else {
                    HotplugAction::Nothing
                }
            },
            HotplugEvent::SettleElapsed => {
                if self.phase == Phase::LayoutApplied {
                    self.phase = Phase::Reconciling;
                    HotplugAction::Reconcile
                } else {
                    HotplugAction::Nothing
                }
            },
            HotplugEvent::Reconciled => {
                if self.phase == Phase::Reconciling {
                    self.phase = Phase::Replaying;
                    HotplugAction::Replay
                } else {
                    HotplugAction::Nothing
                }
            },
            HotplugEvent::Replayed => {
                if self.phase == Phase::Replaying {
                    self.phase = Phase::Idle;
                }
                HotplugAction::Nothing
            },
        }
    }
}

/// Whether a device of type `devtype` is a display-controller minor device,
/// the only kind whose changes start a pass.
pub fn is_display_device(devtype: &Option<String>) -> (r: bool)
    ensures
        r == (devtype matches Some(s) && s@ == "drm_minor"@),
{
    match devtype {
        Some(s) => str_eq(s.as_str(), "drm_minor"),
        None => false,
    }
}

} // verus!
