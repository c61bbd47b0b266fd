//! Splitting the wrapper's own command-line arguments from the arguments
//! passed on to the wrapped build tool.
//!
//! The first `--` separates the two: everything before it belongs to the
//! wrapper and everything after it to the tool.  Without a `--`, every
//! argument is the tool's.

use vstd::prelude::*;

verus! {

/// The two halves of an argument list.
pub struct Args {
    /// Arguments of the wrapper itself.
    pub args: Vec<String>,
    /// Arguments passed on to the wrapped tool.
    pub cargo_args: Vec<String>,
}

/// The separator between wrapper arguments and tool arguments.
pub open spec fn separator() -> Seq<char> {
    "--"@
}

/// Whether the list holds a separator.
pub open spec fn has_separator(s: Seq<Seq<char>>) -> bool {
    exists|k: int| 0 <= k < s.len() && s[k] == separator()
}

/// The index of the first separator in the list.
pub open spec fn first_separator(s: Seq<Seq<char>>) -> int
    decreases s.len(),
{
    if s.len() == 0 {
        0
    } else if s[0] == separator() {
        0
    } else {
        1 + first_separator(s.drop_first())
    }
}

/// A separator at position `i` with none before it is the first one.
proof fn lemma_first_separator_at(s: Seq<Seq<char>>, i: int)
    requires
        0 <= i < s.len(),
        s[i] == separator(),
        forall|k: int| 0 <= k < i ==> s[k] != separator(),
    ensures
        has_separator(s),
        first_separator(s) == i,
    decreases i,
{
    if i == 0 {
    } else {
        assert(s.drop_first()[i - 1] == separator());
        assert(forall|k: int| 0 <= k < i - 1 ==> s.drop_first()[k] != separator());
        lemma_first_separator_at(s.drop_first(), i - 1);
    }
}

/// Splits an argument list at the first `--`: what stands before it is the
/// wrapper's, what follows it is the tool's, and the separator itself is
/// dropped.  Without a separator the whole list is the tool's.
pub fn split_cargo_args(args: Vec<String>) -> (r: Args)
    ensures
        has_separator(args.deep_view()) ==> {
            let i = first_separator(args.deep_view());
            &&& r.args.deep_view() == args.deep_view().take(i)
            &&& r.cargo_args.deep_view() == args.deep_view().skip(i + 1)
        },
        !has_separator(args.deep_view()) ==> {
            &&& r.args.deep_view() == Seq::<Seq<char>>::empty()
            &&& r.cargo_args.deep_view() == args.deep_view()
        },
{
    let sep = String::from_str("--");
    let n = args.len();
    let mut i: usize = 0;
    while i < n
        invariant
            i <= n,
            n == args.len(),
            sep@ == separator(),
            forall|k: int| 0 <= k < i ==> args.deep_view()[k] != separator(),
        decreases n - i,
    {
        if args[i].eq(&sep) {
            proof {
                assert(args.deep_view()[i as int] == separator());
                lemma_first_separator_at(args.deep_view(), i as int);
            }
            let own = copy_range(&args, 0, i);
            let cargo = copy_range(&args, i + 1, n);
            proof {
                assert(own.deep_view() =~= args.deep_view().take(i as int));
                assert(cargo.deep_view() =~= args.deep_view().skip(i as int + 1));
            }
            return Args { args: own, cargo_args: cargo };
        }
        i = i + 1;
    }
    proof {
        assert(!has_separator(args.deep_view()));
    }
    let empty: Vec<String> = Vec::new();
    proof {
        assert(empty.deep_view() =~~= Seq::<Seq<char>>::empty());
    }
    Args { args: empty, cargo_args: args }
}

/// Copies the elements of `v` from `from` (inclusive) to `to` (exclusive).
fn copy_range(v: &Vec<String>, from: usize, to: usize) -> (r: Vec<String>)
    requires
        from <= to <= v.len(),
    ensures
        r.deep_view() == v.deep_view().subrange(from as int, to as int),
{
    let mut r: Vec<String> = Vec::new();
    let mut i: usize = from;
    proof {
        assert(r.deep_view() =~~= v.deep_view().subrange(from as int, from as int));
    }
    while i < to
        invariant
            from <= i <= to <= v.len(),
            r.deep_view() == v.deep_view().subrange(from as int, i as int),
        decreases to - i,
    {
        let ghost prev = r.deep_view();
        r.push(v[i].clone());
        proof {
            assert(r.deep_view() =~~= prev.push(v@[i as int]@));
            assert(prev.push(v@[i as int]@) =~= v.deep_view().subrange(from as int, i as int + 1));
        }
        i = i + 1;
    }
    r
}

} // verus!
