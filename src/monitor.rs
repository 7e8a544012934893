//! Outputs as the display subsystem enumerates them, and the connectivity probe.
use vstd::prelude::*;

verus! {

/// One enumerated output: its name, and whether it reports a display
/// identification block (which is what makes it count as connected).
#[derive(Clone, Debug)]
pub struct MonitorData {
    pub name: String,
    pub connected: bool,
}

/// Whether `name` is a connected output of the enumeration `outs`
/// (given as pairs of a name and an identification-block flag).
pub open spec fn connected_in(outs: Seq<(Seq<char>, bool)>, name: Seq<char>) -> bool {
    exists|i: int| 0 <= i < outs.len() && outs[i].0 == name && outs[i].1
}

/// The abstract view of an enumeration.
pub open spec fn outputs_view(outs: Seq<MonitorData>) -> Seq<(Seq<char>, bool)> {
    outs.map_values(|m: MonitorData| (m.name@, m.connected))
}

/// Is the output `name` connected? An output that is not enumerated counts as
/// disconnected, so a failed enumeration (an empty list) answers `false`.
pub fn monitor_connected(name: &str, outputs: &Vec<MonitorData>) -> (r: bool)
    ensures
        r == connected_in(outputs_view(outputs@), name@),
{
    let mut i: usize = 0;
    while i < outputs.len()
        invariant
            0 <= i <= outputs.len(),
            forall|j: int|
                0 <= j < i ==> !(#[trigger] outputs@[j]).connected || outputs@[j].name@ != name@,
        decreases outputs.len() - i,
    {
        let out = &outputs[i];
        if out.connected && str_eq(out.name.as_str(), name) {
            proof {
                assert(outputs_view(outputs@)[i as int] == (out.name@, out.connected));
            }
            return true;
        }
        i = i + 1;
    }
    proof {
        assert forall|j: int| 0 <= j < outputs@.len() implies !(#[trigger] outputs_view(outputs@)[j]).1
            || outputs_view(outputs@)[j].0 != name@ by {
            assert(outputs_view(outputs@)[j] == (outputs@[j].name@, outputs@[j].connected));
        }
    }
    false
}

/// Character-wise equality of two strings.
pub fn str_eq(a: &str, b: &str) -> (r: bool)
    ensures
        r == (a@ == b@),
{
    let n = a.unicode_len();
    if n != b.unicode_len() {
        return false;
    }
    let mut i: usize = 0;
    while i < n
        invariant
            n == a@.len() == b@.len(),
            0 <= i <= n,
            forall|j: int| 0 <= j < i ==> a@[j] == b@[j],
        decreases n - i,
    {
        if a.get_char(i) != b.get_char(i) {
            return false;
        }
        i = i + 1;
    }
    assert(a@ =~= b@);
    true
}

} // verus!
