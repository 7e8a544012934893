//! The argument list for the display layout tool.
use vstd::prelude::*;
use crate::config::{MonitorPos, strings_view};
use crate::monitor::{MonitorData, connected_in, outputs_view, monitor_connected, str_eq};

verus! {

/// Output `i` of `outs` is the one marked primary: the configured primary
/// output when it is connected, otherwise the first connected output.
pub open spec fn is_primary_at(outs: Seq<(Seq<char>, bool)>, i: int, primary: Seq<char>) -> bool {
    outs[i].1 && (outs[i].0 == primary || (!connected_in(outs, primary) && forall|j: int|
        0 <= j < i ==> !(#[trigger] outs[j]).1))
}

pub open spec fn pos_args_for(pos: Option<(Seq<char>, Seq<Seq<char>>)>, name: Seq<char>) -> Seq<Seq<char>> {
    match pos {
        Some(p) => if p.0 == name {
            p.1
        } else {
            Seq::empty()
        },
        None => Seq::empty(),
    }
}

/// The argument group of output `i`: enabled with automatic mode, its
/// directive and possibly the primary mark when connected, switched off otherwise.
pub open spec fn output_group(
    outs: Seq<(Seq<char>, bool)>,
    i: int,
    primary: Seq<char>,
    pos: Option<(Seq<char>, Seq<Seq<char>>)>,
) -> Seq<Seq<char>> {
    seq!["--output"@, outs[i].0] + if outs[i].1 {
        seq!["--auto"@] + pos_args_for(pos, outs[i].0) + if is_primary_at(outs, i, primary) {
            seq!["--primary"@]
        } else {
            Seq::empty()
        }
    } else {
        seq!["--off"@]
    }
}

/// The groups of the first `n` outputs, in enumeration order.
pub open spec fn layout_upto(
    outs: Seq<(Seq<char>, bool)>,
    n: int,
    primary: Seq<char>,
    pos: Option<(Seq<char>, Seq<Seq<char>>)>,
) -> Seq<Seq<char>>
    decreases n,
{
    if n <= 0 {
        Seq::empty()
    } else {
        layout_upto(outs, n - 1, primary, pos) + output_group(outs, n - 1, primary, pos)
    }
}

pub open spec fn pos_view(pos: Option<MonitorPos>) -> Option<(Seq<char>, Seq<Seq<char>>)> {
    match pos {
        Some(p) => Some(p@),
        None => None,
    }
}

/// The layout tool's arguments for the enumeration `monitors`, one group per
/// output in the order given.
pub fn layout_args(monitors: &Vec<MonitorData>, primary: &str, pos: &Option<MonitorPos>) -> (r: Vec<String>)
    ensures
        strings_view(r@) == layout_upto(
            outputs_view(monitors@),
            monitors@.len() as int,
            primary@,
            pos_view(*pos),
        ),
{
    let ghost outs = outputs_view(monitors@);
    let ghost pv = pos_view(*pos);
    let primary_connected = monitor_connected(primary, monitors);
    let mut primary_set = primary_connected;
    let mut r: Vec<String> = Vec::new();
    let mut i: usize = 0;
    while i < monitors.len()
        invariant
            0 <= i <= monitors@.len(),
            outs == outputs_view(monitors@),
            pv == pos_view(*pos),
            primary_connected == connected_in(outs, primary@),
            primary_set == (primary_connected || exists|j: int| 0 <= j < i && (#[trigger] outs[j]).1),
            strings_view(r@) == layout_upto(outs, i as int, primary@, pv),
        decreases monitors@.len() - i,
    {
        let m = &monitors[i];
        let ghost before = r@;
        proof {
            assert(outs[i as int] == (m.name@, m.connected));
        }
        r.push(String::from_str("--output"));
        r.push(m.name.clone());
        proof {
            assert(strings_view(r@) =~= strings_view(before) + seq!["--output"@, m.name@]);
        }
        if m.connected {
            r.push(String::from_str("--auto"));
            let ghost head = r@;
            proof {
                assert(strings_view(r@) =~= strings_view(before) + seq!["--output"@, m.name@] + seq![
                    "--auto"@,
                ]);
            }
            match pos {
                Some(p) => {
                    if str_eq(p.name.as_str(), m.name.as_str()) {
                        let ghost mid = r@;
                        let mut k: usize = 0;
                        while k < p.args.len()
                            invariant
                                0 <= k <= p.args@.len(),
                                strings_view(r@) == strings_view(mid) + strings_view(p.args@).take(k as int),
                            decreases p.args@.len() - k,
                        {
                            let ghost pre = r@;
                            r.push(p.args[k].clone());
                            proof {
                                assert(r@ == pre.push(p.args@[k as int]));
                                assert(strings_view(r@) =~= strings_view(pre).push(p.args@[k as int]@));
                                assert(strings_view(p.args@).take(k + 1) =~= strings_view(p.args@).take(k as int).push(p.args@[k as int]@));
                                assert(strings_view(r@) =~= strings_view(mid) + strings_view(p.args@).take(k + 1));
                            }
                            k = k + 1;
                        }
                        proof {
                            assert(strings_view(p.args@).take(p.args@.len() as int) =~= strings_view(p.args@));
                        }
                    }
                },
                None => {},
            }
            proof {
                assert(strings_view(r@) =~= strings_view(head) + pos_args_for(pv, m.name@));
            }
            let mark = str_eq(m.name.as_str(), primary) || !primary_set;
            proof {
                if !primary_connected {
                    if forall|j: int| 0 <= j < i ==> !(#[trigger] outs[j]).1 {
                        assert(!primary_set);
                    }
                }
                assert(mark == is_primary_at(outs, i as int, primary@));
            }
            let ghost before_mark = r@;
            if mark {
                r.push(String::from_str("--primary"));
                primary_set = true;
            }
            proof {
                if mark {
                    assert(strings_view(r@) =~= strings_view(before_mark) + seq!["--primary"@]);
                } else {
                    assert(strings_view(r@) =~= strings_view(before_mark));
                }
            }
        } else {
            r.push(String::from_str("--off"));
        }
        proof {
            assert(layout_upto(outs, i + 1, primary@, pv) == layout_upto(outs, i as int, primary@, pv)
                + output_group(outs, i as int, primary@, pv));
            assert(strings_view(r@) =~= strings_view(before) + output_group(outs, i as int, primary@, pv));
            if m.connected {
                assert(outs[i as int].1);
            }
        }
        i = i + 1;
    }
    r
}

} // verus!
