//! The positional directive `"<output>:<layout-tool arguments>"`.
use vstd::prelude::*;

verus! {

/// A layout directive for one output: its name and the arguments handed to the
/// layout tool for it.
#[derive(Clone, Debug)]
pub struct MonitorPos {
    pub name: String,
    pub args: Vec<String>,
}

pub open spec fn strings_view(s: Seq<String>) -> Seq<Seq<char>> {
    s.map_values(|x: String| x@)
}

impl View for MonitorPos {
    type V = (Seq<char>, Seq<Seq<char>>);

    open spec fn view(&self) -> (Seq<char>, Seq<Seq<char>>) {
        (self.name@, strings_view(self.args@))
    }
}

/// ASCII whitespace as Rust counts it: space, tab, line feed, form feed, carriage return.
pub open spec fn is_ascii_ws(c: char) -> bool {
    c == ' ' || c == '\t' || c == '\n' || c == '\x0C' || c == '\r'
}

/// The maximal runs of non-whitespace characters of `s`, in order.
pub open spec fn words(s: Seq<char>) -> Seq<Seq<char>>
    decreases s.len(),
{
    if s.len() == 0 {
        Seq::empty()
    } else {
        let w = words(s.drop_last());
        let c = s.last();
        if is_ascii_ws(c) {
            w
        } else if s.len() > 1 && !is_ascii_ws(s[s.len() - 2]) {
            w.drop_last().push(w.last().push(c))
        } else {
            w.push(seq![c])
        }
    }
}

/// `c` is the position of the first `':'` of `s`.
pub open spec fn first_colon_at(s: Seq<char>, c: int) -> bool {
    0 <= c < s.len() && s[c] == ':' && forall|j: int| 0 <= j < c ==> s[j] != ':'
}

fn is_ws(c: char) -> (r: bool)
    ensures
        r == is_ascii_ws(c),
{
    c == ' ' || c == '\t' || c == '\n' || c == '\x0C' || c == '\r'
}

/// Splits `s` into its whitespace-separated words.
pub fn split_words(s: &str) -> (r: Vec<String>)
    ensures
        strings_view(r@) == words(s@),
{
    let n = s.unicode_len();
    let mut out: Vec<String> = Vec::new();
    let mut start: usize = 0;
    let mut in_word = false;
    let mut i: usize = 0;
    while i < n
        invariant
            n == s@.len(),
            0 <= i <= n,
            in_word ==> 0 <= start < i,
            in_word == (i > 0 && !is_ascii_ws(s@[i - 1])),
            in_word ==> words(s@.take(i as int)) == strings_view(out@).push(
                s@.subrange(start as int, i as int),
            ),
            !in_word ==> words(s@.take(i as int)) == strings_view(out@),
        decreases n - i,
    {
        let c = s.get_char(i);
        let ghost t = s@.take(i + 1);
        proof {
            assert(t.drop_last() =~= s@.take(i as int));
            assert(t.last() == c);
            if i > 0 {
                assert(t[t.len() - 2] == s@[i - 1]);
            }
        }
        if is_ws(c) {
            if in_word {
                let word = String::from_str(s.substring_char(start, i));
                out.push(word);
                proof {
                    assert(strings_view(out@) =~= words(s@.take(i as int)));
                }
                in_word = false;
            }
        } else if !in_word {
            start = i;
            in_word = true;
            proof {
                assert(s@.subrange(start as int, i + 1) =~= seq![c]);
            }
        } else {
            proof {
                let w = words(s@.take(i as int));
                assert(s@.subrange(start as int, i + 1) =~= s@.subrange(start as int, i as int).push(c));
                assert(w.drop_last() =~= strings_view(out@));
            }
        }
        i = i + 1;
    }
    proof {
        assert(s@.take(n as int) =~= s@);
    }
    if in_word {
        let word = String::from_str(s.substring_char(start, n));
        out.push(word);
        proof {
            assert(strings_view(out@) =~= words(s@));
        }
    }
    out
}

impl MonitorPos {
    /// Parses `"<output>:<arguments>"`: the name is what precedes the first
    /// `':'`, the arguments are the whitespace-separated words after it.
    /// Without a `':'` there is no directive.
    pub fn parse(data: &str) -> (r: Option<MonitorPos>)
        ensures
            r is None <==> !data@.contains(':'),
            r is Some ==> exists|c: int|
                first_colon_at(data@, c) && r->0@ == (data@.take(c), words(data@.skip(c + 1))),
    {
        let n = data.unicode_len();
        let mut i: usize = 0;
        while i < n
            invariant
                n == data@.len(),
                0 <= i <= n,
                forall|j: int| 0 <= j < i ==> data@[j] != ':',
            decreases n - i,
        {
            if data.get_char(i) == ':' {
                let name = String::from_str(data.substring_char(0, i));
                let rest = data.substring_char(i + 1, n);
                let args = split_words(rest);
                proof {
                    assert(data@.take(i as int) =~= data@.subrange(0, i as int));
                    assert(data@.skip(i + 1) =~= data@.subrange(i + 1, n as int));
                    assert(first_colon_at(data@, i as int));
                    assert(data@.contains(':'));
                }
                return Some(MonitorPos { name, args });
            }
            i = i + 1;
        }
        None
    }
}

} // verus!
