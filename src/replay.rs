//! The replay after a topology change: move workspaces back to their
//! remembered outputs, then restore focus.
use vstd::prelude::*;
use crate::monitor::{MonitorData, connected_in, outputs_view, monitor_connected};
use crate::store::{Store, TrackedWorkspace, WorkspaceView, store_wf};

verus! {

/// The decimal digits of `n`, most significant first.
pub open spec fn digits(n: nat) -> Seq<char>
    decreases n,
{
    let d = seq!['0', '1', '2', '3', '4', '5', '6', '7', '8', '9'][(n % 10) as int];
    if n < 10 {
        seq![d]
    } else {
        digits(n / 10).push(d)
    }
}

/// `n` written in decimal, with a leading `'-'` when negative.
pub open spec fn decimal_text(n: int) -> Seq<char> {
    if n < 0 {
        seq!['-'] + digits((-n) as nat)
    } else {
        digits(n as nat)
    }
}

/// Relies on `i32::to_string` (its `Display`): plain decimal, `'-'` before a
/// negative value.
#[verifier::external_body]
fn decimal(n: i32) -> (r: String)
    ensures
        r@ == decimal_text(n as int),
{
    n.to_string()
}

/// The text of a command as the window manager's run-command request takes it.
pub open spec fn command_text(c: CommandView) -> Seq<char> {
    match c {
        CommandView::MoveToOutput { num, output } => "[workspace=\""@ + decimal_text(num as int)
            + "\"] move workspace to output "@ + output,
        CommandView::Focus { num } => "workspace "@ + decimal_text(num as int),
    }
}

/// One command for the window manager.
#[derive(Clone, Debug)]
pub enum ReplayCommand {
    /// Move workspace `num` to output `output`.
    MoveToOutput { num: i32, output: String },
    /// Focus workspace `num`.
    Focus { num: i32 },
}

pub ghost enum CommandView {
    MoveToOutput { num: i32, output: Seq<char> },
    Focus { num: i32 },
}

impl View for ReplayCommand {
    type V = CommandView;

    open spec fn view(&self) -> CommandView {
        match self {
            ReplayCommand::MoveToOutput { num, output } => CommandView::MoveToOutput {
                num: *num,
                output: output@,
            },
            ReplayCommand::Focus { num } => CommandView::Focus { num: *num },
        }
    }
}

pub open spec fn commands_view(s: Seq<ReplayCommand>) -> Seq<CommandView> {
    s.map_values(|c: ReplayCommand| c@)
}

pub open spec fn entries_view(s: Seq<(i32, TrackedWorkspace)>) -> Seq<WorkspaceView> {
    s.map_values(|p: (i32, TrackedWorkspace)| p.1@)
}

/// The move owed for one entry: back to its remembered output, if that output
/// is connected now.
pub open spec fn move_of(e: WorkspaceView, outs: Seq<(Seq<char>, bool)>) -> Seq<CommandView> {
    match e.remembered_output {
        Some(o) => if connected_in(outs, o) {
            seq![CommandView::MoveToOutput { num: e.num, output: o }]
        } else {
            Seq::empty()
        },
        None => Seq::empty(),
    }
}

/// The focus owed for one entry: it was focused when its output went away and
/// it still exists.
pub open spec fn focus_of(e: WorkspaceView, existing: Seq<i32>) -> Seq<CommandView> {
    if e.was_focused && existing.contains(e.num) {
        seq![CommandView::Focus { num: e.num }]
    } else {
        Seq::empty()
    }
}

pub open spec fn moves(es: Seq<WorkspaceView>, outs: Seq<(Seq<char>, bool)>) -> Seq<CommandView>
    decreases es.len(),
{
    if es.len() == 0 {
        Seq::empty()
    } else {
        moves(es.drop_last(), outs) + move_of(es.last(), outs)
    }
}

pub open spec fn focuses(es: Seq<WorkspaceView>, existing: Seq<i32>) -> Seq<CommandView>
    decreases es.len(),
{
    if es.len() == 0 {
        Seq::empty()
    } else {
        focuses(es.drop_last(), existing) + focus_of(es.last(), existing)
    }
}

/// The focus of the workspace that was focused before the change, if it still exists.
pub open spec fn final_focus(focused: Option<i32>, existing: Seq<i32>) -> Seq<CommandView> {
    match focused {
        Some(f) => if existing.contains(f) {
            seq![CommandView::Focus { num: f }]
        } else {
            Seq::empty()
        },
        None => Seq::empty(),
    }
}

/// The full replay over entries taken in the order `es`: all moves, then the
/// per-workspace focuses, then the pre-change focus.
pub open spec fn replay_spec(
    es: Seq<WorkspaceView>,
    outs: Seq<(Seq<char>, bool)>,
    existing: Seq<i32>,
    focused: Option<i32>,
) -> Seq<CommandView> {
    moves(es, outs) + focuses(es, existing) + final_focus(focused, existing)
}

/// `es` lists the entries of `m`, each once.
pub open spec fn enumerates(m: Map<i32, WorkspaceView>, es: Seq<WorkspaceView>) -> bool {
    &&& forall|i: int| 0 <= i < es.len() ==> #[trigger] m.contains_key(es[i].num) && m[es[i].num] == es[i]
    &&& forall|k: i32| #[trigger] m.contains_key(k) ==> exists|i: int| 0 <= i < es.len() && es[i].num == k
    &&& forall|i: int, j: int| 0 <= i < j < es.len() ==> es[i].num != es[j].num
}

impl ReplayCommand {
    /// The command as text: `workspace <num>` or
    /// `[workspace="<num>"] move workspace to output <output>`.
    pub fn text(&self) -> (r: String)
        ensures
            r@ == command_text(self@),
    {
        match self {
            ReplayCommand::MoveToOutput { num, output } => {
                let mut s = String::from_str("[workspace=\"");
                s.append(decimal(*num).as_str());
                s.append("\"] move workspace to output ");
                s.append(output.as_str());
                s
            },
            ReplayCommand::Focus { num } => {
                let mut s = String::from_str("workspace ");
                s.append(decimal(*num).as_str());
                s
            },
        }
    }
}

/// Whether `n` is among `v`.
pub fn contains_num(v: &Vec<i32>, n: i32) -> (r: bool)
    ensures
        r == v@.contains(n),
{
    let mut i: usize = 0;
    while i < v.len()
        invariant
            0 <= i <= v@.len(),
            forall|j: int| 0 <= j < i ==> v@[j] != n,
        decreases v@.len() - i,
    {
        if v[i] == n {
            return true;
        }
        i = i + 1;
    }
    false
}

/// The replay commands over `entries` in the order given, with `outputs` the
/// enumeration at replay time, `existing` the workspaces that existed before
/// the change and `focused` the workspace focused before it.
pub fn replay_commands(
    entries: &Vec<(i32, TrackedWorkspace)>,
    outputs: &Vec<MonitorData>,
    existing: &Vec<i32>,
    focused: Option<i32>,
) -> (r: Vec<ReplayCommand>)
    ensures
        commands_view(r@) == replay_spec(
            entries_view(entries@),
            outputs_view(outputs@),
            existing@,
            focused,
        ),
{
    let ghost es = entries_view(entries@);
    let ghost outs = outputs_view(outputs@);
    let mut r: Vec<ReplayCommand> = Vec::new();
    let mut i: usize = 0;
    while i < entries.len()
        invariant
            0 <= i <= entries@.len(),
            es == entries_view(entries@),
            outs == outputs_view(outputs@),
            commands_view(r@) == moves(es.take(i as int), outs),
        decreases entries@.len() - i,
    {
        let w = &entries[i].1;
        proof {
            assert(es.take(i + 1).drop_last() =~= es.take(i as int));
            assert(es.take(i + 1).last() == w@);
        }
        match &w.remembered_output {
            Some(o) => {
                if monitor_connected(o.as_str(), outputs) {
                    r.push(ReplayCommand::MoveToOutput { num: w.num, output: o.clone() });
                }
            },
            None => {},
        }
        proof {
            assert(commands_view(r@) =~= moves(es.take(i + 1), outs));
        }
        i = i + 1;
    }
    proof {
        assert(es.take(entries@.len() as int) =~= es);
    }
    let ghost n_moves = r@.len();
    let mut i: usize = 0;
    while i < entries.len()
        invariant
            0 <= i <= entries@.len(),
            es == entries_view(entries@),
            commands_view(r@) == moves(es, outs) + focuses(es.take(i as int), existing@),
        decreases entries@.len() - i,
    {
        let w = &entries[i].1;
        proof {
            assert(es.take(i + 1).drop_last() =~= es.take(i as int));
            assert(es.take(i + 1).last() == w@);
        }
        let ghost before = r@;
        if w.was_focused && contains_num(existing, w.num) {
            r.push(ReplayCommand::Focus { num: w.num });
        }
        proof {
            let t = es.take(i + 1);
            assert(focuses(t, existing@) == focuses(es.take(i as int), existing@) + focus_of(
                w@,
                existing@,
            ));
            assert(commands_view(r@) =~= commands_view(before) + focus_of(w@, existing@));
            assert(commands_view(r@) =~= moves(es, outs) + focuses(es.take(i + 1), existing@));
        }
        i = i + 1;
    }
    proof {
        assert(es.take(entries@.len() as int) =~= es);
    }
    match focused {
        Some(f) => {
            if contains_num(existing, f) {
                r.push(ReplayCommand::Focus { num: f });
            }
        },
        None => {},
    }
    proof {
        assert(commands_view(r@) =~= replay_spec(es, outs, existing@, focused));
    }
    r
}

impl Store {
    /// The replay commands over this store, taken in the map's own order.
    pub fn replay_plan(
        &self,
        outputs: &Vec<MonitorData>,
        existing: &Vec<i32>,
        focused: Option<i32>,
    ) -> (r: Vec<ReplayCommand>)
        requires
            self.wf(),
        ensures
            exists|es: Seq<WorkspaceView>|
                enumerates(self@, es) && commands_view(r@) == replay_spec(
                    es,
                    outputs_view(outputs@),
                    existing@,
                    focused,
                ),
    {
        let entries = self.entries();
        let r = replay_commands(&entries, outputs, existing, focused);
        proof {
            let es = entries_view(entries@);
            assert forall|i: int| 0 <= i < es.len() implies #[trigger] self@.contains_key(es[i].num)
                && self@[es[i].num] == es[i] by {
                assert(self@.contains_key(entries@[i].0));
                assert(self@[entries@[i].0].num == entries@[i].0);
            }
            assert forall|k: i32| #[trigger] self@.contains_key(k) implies exists|i: int|
                0 <= i < es.len() && es[i].num == k by {
                let i = choose|i: int| 0 <= i < entries@.len() && entries@[i].0 == k;
                assert(self@[entries@[i].0] == es[i]);
            }
            assert forall|i: int, j: int| 0 <= i < j < es.len() implies es[i].num != es[j].num by {
                assert(self@[entries@[i].0] == es[i]);
                assert(self@[entries@[j].0] == es[j]);
                assert(entries@[i].0 != entries@[j].0);
            }
            assert(enumerates(self@, es));
        }
        r
    }
}

} // verus!
