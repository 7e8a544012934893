//! Facts about reconciliation, proved over the store's abstract model.
use vstd::prelude::*;
use crate::monitor::connected_in;
use crate::replay::{CommandView, focuses, moves, replay_spec};
use crate::store::{
    WorkspaceView, ReportView, distinct_nums, lookup, next_entry, reconciled, store_wf,
};

verus! {

/// With distinct numbers, each reported workspace gets the entry computed from
/// what the store held for it before the pass, and every other entry stays.
pub proof fn lemma_reconciled_pointwise(
    m: Map<i32, WorkspaceView>,
    snap: Seq<ReportView>,
    outs: Seq<(Seq<char>, bool)>,
)
    requires
        distinct_nums(snap),
    ensures
        forall|j: int|
            #![trigger snap[j]]
            0 <= j < snap.len() ==> reconciled(m, snap, outs).contains_key(snap[j].num)
                && reconciled(m, snap, outs)[snap[j].num] == next_entry(
                lookup(m, snap[j].num),
                snap[j],
                outs,
            ),
        forall|k: i32|
            (forall|j: int| 0 <= j < snap.len() ==> #[trigger] snap[j].num != k) ==> lookup(
                reconciled(m, snap, outs),
                k,
            ) == lookup(m, k),
    decreases snap.len(),
{
    if snap.len() > 0 {
        let pre = snap.drop_last();
        let e = snap.last();
        assert(distinct_nums(pre)) by {
            assert forall|i: int, j: int|
                0 <= i < pre.len() && 0 <= j < pre.len() && i != j implies pre[i].num
                != pre[j].num by {
                assert(pre[i] == snap[i] && pre[j] == snap[j]);
            }
        }
        lemma_reconciled_pointwise(m, pre, outs);
        let p = reconciled(m, pre, outs);
        assert forall|j: int| 0 <= j < pre.len() implies #[trigger] pre[j].num != e.num by {
            assert(pre[j] == snap[j]);
        }
        assert(lookup(p, e.num) == lookup(m, e.num));
        assert forall|j: int| 0 <= j < snap.len() implies reconciled(m, snap, outs).contains_key(
            #[trigger] snap[j].num,
        ) && reconciled(m, snap, outs)[snap[j].num] == next_entry(
            lookup(m, snap[j].num),
            snap[j],
            outs,
        ) by {
            if j < snap.len() - 1 {
                assert(pre[j] == snap[j]);
            }
        }
        assert forall|k: i32|
            (forall|j: int| 0 <= j < snap.len() ==> #[trigger] snap[j].num != k) implies lookup(
            reconciled(m, snap, outs),
            k,
        ) == lookup(m, k) by {
            assert(snap[snap.len() - 1].num != k);
            assert forall|j: int| 0 <= j < pre.len() implies #[trigger] pre[j].num != k by {
                assert(pre[j] == snap[j]);
            }
        }
    }
}

/// Reconciling twice with the same snapshot and the same output connectivity
/// leaves the store as the first pass left it.
pub proof fn lemma_reconcile_idempotent(
    m: Map<i32, WorkspaceView>,
    snap: Seq<ReportView>,
    outs: Seq<(Seq<char>, bool)>,
)
    requires
        distinct_nums(snap),
    ensures
        reconciled(reconciled(m, snap, outs), snap, outs) == reconciled(m, snap, outs),
{
    let m1 = reconciled(m, snap, outs);
    let m2 = reconciled(m1, snap, outs);
    lemma_reconciled_pointwise(m, snap, outs);
    lemma_reconciled_pointwise(m1, snap, outs);
    assert forall|k: i32| lookup(m2, k) == lookup(m1, k) by {
        if exists|j: int| 0 <= j < snap.len() && snap[j].num == k {
            let j = choose|j: int| 0 <= j < snap.len() && snap[j].num == k;
            assert(m2[snap[j].num] == next_entry(lookup(m1, snap[j].num), snap[j], outs));
        }
    }
    assert forall|k: i32| m2.contains_key(k) == m1.contains_key(k) by {
        assert(lookup(m2, k) == lookup(m1, k));
    }
    assert(m2 =~= m1) by {
        assert forall|k: i32| m2.contains_key(k) implies m2[k] == m1[k] by {
            assert(lookup(m2, k) == lookup(m1, k));
        }
    }
}

/// A remembered output is only ever set by a move away from an output that the
/// probe reports disconnected, and then it is that output; while a workspace
/// stays on its output, its remembered output and focus are carried unchanged.
/// The store's well-formedness (a remembered output differs from the current
/// one, remembered focus implies a remembered output) is kept by every pass.
pub proof fn lemma_remembered_only_after_disconnect(
    m: Map<i32, WorkspaceView>,
    snap: Seq<ReportView>,
    outs: Seq<(Seq<char>, bool)>,
)
    requires
        distinct_nums(snap),
    ensures
        forall|j: int|
            #![trigger snap[j]]
            0 <= j < snap.len() ==> {
                let prev = lookup(m, snap[j].num);
                let now = reconciled(m, snap, outs)[snap[j].num];
                let stayed = prev is Some && prev->0.current_output == snap[j].output;
                &&& stayed ==> (now.remembered_output == prev->0.remembered_output
                    && now.was_focused == prev->0.was_focused)
                &&& (now.remembered_output is Some && !stayed) ==> (prev is Some
                    && prev->0.current_output != snap[j].output
                    && !connected_in(outs, prev->0.current_output)
                    && now.remembered_output == Some(prev->0.current_output))
            },
        store_wf(m) ==> store_wf(reconciled(m, snap, outs)),
{
    lemma_reconciled_pointwise(m, snap, outs);
    if store_wf(m) {
        lemma_reconciled_wf(m, snap, outs);
    }
}

/// Every pass keeps the store well formed.
pub proof fn lemma_reconciled_wf(
    m: Map<i32, WorkspaceView>,
    snap: Seq<ReportView>,
    outs: Seq<(Seq<char>, bool)>,
)
    requires
        store_wf(m),
    ensures
        store_wf(reconciled(m, snap, outs)),
    decreases snap.len(),
{
    if snap.len() > 0 {
        lemma_reconciled_wf(m, snap.drop_last(), outs);
    }
}

/// A workspace that was focused or visible on output `a`, and is now reported
/// on another output while `a` is disconnected, remembers `a` and its focus.
pub proof fn lemma_focus_propagation(
    m: Map<i32, WorkspaceView>,
    snap: Seq<ReportView>,
    outs: Seq<(Seq<char>, bool)>,
    j: int,
    a: Seq<char>,
)
    requires
        distinct_nums(snap),
        0 <= j < snap.len(),
        m.contains_key(snap[j].num),
        m[snap[j].num].current_output == a,
        m[snap[j].num].focused,
        snap[j].output != a,
        !connected_in(outs, a),
    ensures
        reconciled(m, snap, outs)[snap[j].num].remembered_output == Some(a),
        reconciled(m, snap, outs)[snap[j].num].was_focused,
{
    lemma_reconciled_pointwise(m, snap, outs);
}

/// A workspace moved off output `a` while `a` is still connected (a move by
/// the user) owes no restoration: nothing is remembered for it.
pub proof fn lemma_manual_move_clears(
    m: Map<i32, WorkspaceView>,
    snap: Seq<ReportView>,
    outs: Seq<(Seq<char>, bool)>,
    j: int,
    a: Seq<char>,
)
    requires
        distinct_nums(snap),
        0 <= j < snap.len(),
        m.contains_key(snap[j].num),
        m[snap[j].num].current_output == a,
        snap[j].output != a,
        connected_in(outs, a),
    ensures
        reconciled(m, snap, outs)[snap[j].num].remembered_output is None,
        !reconciled(m, snap, outs)[snap[j].num].was_focused,
{
    lemma_reconciled_pointwise(m, snap, outs);
}

/// When the workspace focused before the change still exists, the last
/// command of the replay focuses it, whatever per-workspace focuses precede it.
pub proof fn lemma_prechange_focus_is_last(
    es: Seq<WorkspaceView>,
    outs: Seq<(Seq<char>, bool)>,
    existing: Seq<i32>,
    f: i32,
)
    requires
        existing.contains(f),
    ensures
        replay_spec(es, outs, existing, Some(f)).len() > 0,
        replay_spec(es, outs, existing, Some(f)).last() == (CommandView::Focus { num: f }),
{
}

/// Every move of the moves part targets a connected output that an entry remembers.
pub proof fn lemma_moves_connected(es: Seq<WorkspaceView>, outs: Seq<(Seq<char>, bool)>)
    ensures
        forall|i: int|
            #![trigger moves(es, outs)[i]]
            0 <= i < moves(es, outs).len() ==> moves(es, outs)[i] is MoveToOutput && connected_in(
                outs,
                moves(es, outs)[i]->MoveToOutput_output,
            ) && exists|j: int|
                0 <= j < es.len() && es[j].num == moves(es, outs)[i]->MoveToOutput_num
                    && es[j].remembered_output == Some(moves(es, outs)[i]->MoveToOutput_output),
    decreases es.len(),
{
    if es.len() > 0 {
        let pre = es.drop_last();
        lemma_moves_connected(pre, outs);
        assert forall|i: int| 0 <= i < moves(es, outs).len() implies #[trigger] moves(
            es,
            outs,
        )[i] is MoveToOutput && connected_in(outs, moves(es, outs)[i]->MoveToOutput_output)
            && exists|j: int|
            0 <= j < es.len() && es[j].num == moves(es, outs)[i]->MoveToOutput_num
                && es[j].remembered_output == Some(moves(es, outs)[i]->MoveToOutput_output) by {
            if i < moves(pre, outs).len() {
                assert(moves(es, outs)[i] == moves(pre, outs)[i]);
                let j = choose|j: int|
                    0 <= j < pre.len() && pre[j].num == moves(pre, outs)[i]->MoveToOutput_num
                        && pre[j].remembered_output == Some(
                        moves(pre, outs)[i]->MoveToOutput_output,
                    );
                assert(es[j] == pre[j]);
            } else {
                assert(es[es.len() - 1] == es.last());
            }
        }
    }
}

/// The per-workspace focus part holds focus commands only.
pub proof fn lemma_focuses_are_focus(es: Seq<WorkspaceView>, existing: Seq<i32>)
    ensures
        forall|i: int|
            0 <= i < focuses(es, existing).len() ==> #[trigger] focuses(es, existing)[i] is Focus,
    decreases es.len(),
{
    if es.len() > 0 {
        lemma_focuses_are_focus(es.drop_last(), existing);
        assert forall|i: int| 0 <= i < focuses(es, existing).len() implies #[trigger] focuses(
            es,
            existing,
        )[i] is Focus by {
            if i < focuses(es.drop_last(), existing).len() {
                assert(focuses(es, existing)[i] == focuses(es.drop_last(), existing)[i]);
            }
        }
    }
}

/// No replay moves a workspace to a disconnected output: every move command
/// targets an output that is connected at replay time and that the entry of
/// that workspace remembers.
pub proof fn lemma_replay_moves_only_to_connected(
    es: Seq<WorkspaceView>,
    outs: Seq<(Seq<char>, bool)>,
    existing: Seq<i32>,
    focused: Option<i32>,
)
    ensures
        forall|i: int|
            #![trigger replay_spec(es, outs, existing, focused)[i]]
            0 <= i < replay_spec(es, outs, existing, focused).len() && replay_spec(
                es,
                outs,
                existing,
                focused,
            )[i] is MoveToOutput ==> connected_in(
                outs,
                replay_spec(es, outs, existing, focused)[i]->MoveToOutput_output,
            ) && exists|j: int|
                0 <= j < es.len() && es[j].num == replay_spec(
                    es,
                    outs,
                    existing,
                    focused,
                )[i]->MoveToOutput_num && es[j].remembered_output == Some(
                    replay_spec(es, outs, existing, focused)[i]->MoveToOutput_output,
                ),
{
    lemma_moves_connected(es, outs);
    lemma_focuses_are_focus(es, existing);
    let r = replay_spec(es, outs, existing, focused);
    let mv = moves(es, outs);
    let fc = focuses(es, existing);
    assert forall|i: int| 0 <= i < r.len() && r[i] is MoveToOutput implies connected_in(
        outs,
        r[i]->MoveToOutput_output,
    ) && exists|j: int|
        0 <= j < es.len() && es[j].num == r[i]->MoveToOutput_num && es[j].remembered_output
            == Some(r[i]->MoveToOutput_output) by {
        if i < mv.len() {
            assert(r[i] == mv[i]);
        } else if i < mv.len() + fc.len() {
            assert(r[i] == fc[i - mv.len()]);
        }
    }
}

} // verus!
