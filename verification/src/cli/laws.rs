//! Properties of command-line parsing.
use vstd::prelude::*;
use super::{s_scan, s_parse_args};

verus! {

/// One of the three flags.
pub open spec fn is_flag(a: Seq<char>) -> bool {
    a == "--repl"@ || a == "--debug"@ || a == "--print-ast"@
}

proof fn lemma_scan_same_suffix(
    a1: Seq<Seq<char>>,
    a2: Seq<Seq<char>>,
    i: nat,
    path: Option<Seq<char>>,
    r: bool,
    d: bool,
    p: bool,
)
    requires
        a1.len() == a2.len(),
        forall|j: int| i <= j < a1.len() ==> a1[j] == a2[j],
    ensures
        s_scan(a1, i, path, r, d, p) == s_scan(a2, i, path, r, d, p),
    decreases a1.len() - i,
{
    if i < a1.len() {
        let a = a1[i as int];
        if a == "--repl"@ {
            lemma_scan_same_suffix(a1, a2, i + 1, path, true, d, p);
        } else if a == "--debug"@ {
            lemma_scan_same_suffix(a1, a2, i + 1, path, r, true, p);
        } else if a == "--print-ast"@ {
            lemma_scan_same_suffix(a1, a2, i + 1, path, r, d, true);
        } else {
            lemma_scan_same_suffix(a1, a2, i + 1, Some(a), r, d, p);
        }
    }
}

proof fn lemma_scan_swap(
    a1: Seq<Seq<char>>,
    a2: Seq<Seq<char>>,
    j: nat,
    i: nat,
    path: Option<Seq<char>>,
    r: bool,
    d: bool,
    p: bool,
)
    requires
        j <= i,
        i + 1 < a1.len(),
        is_flag(a1[i as int]),
        is_flag(a1[(i + 1) as int]),
        a2 == a1.update(i as int, a1[(i + 1) as int]).update((i + 1) as int, a1[i as int]),
    ensures
        s_scan(a1, j, path, r, d, p) == s_scan(a2, j, path, r, d, p),
    decreases i - j,
{
    reveal_strlit("--repl");
    reveal_strlit("--debug");
    reveal_strlit("--print-ast");
    reveal_strlit("-");
    if j < i {
        assert(a2[j as int] == a1[j as int]);
        let a = a1[j as int];
        if a == "--repl"@ {
            lemma_scan_swap(a1, a2, j + 1, i, path, true, d, p);
        } else if a == "--debug"@ {
            lemma_scan_swap(a1, a2, j + 1, i, path, r, true, p);
        } else if a == "--print-ast"@ {
            lemma_scan_swap(a1, a2, j + 1, i, path, r, d, true);
        } else {
            lemma_scan_swap(a1, a2, j + 1, i, Some(a), r, d, p);
        }
    } else {
        let x = a1[i as int];
        let y = a1[(i + 1) as int];
        let r2 = r || x == "--repl"@ || y == "--repl"@;
        let d2 = d || x == "--debug"@ || y == "--debug"@;
        let p2 = p || x == "--print-ast"@ || y == "--print-ast"@;
        assert(a2[i as int] == y && a2[(i + 1) as int] == x);
        assert(s_scan(a1, i, path, r, d, p) == s_scan(
            a1,
            i + 1,
            path,
            r || x == "--repl"@,
            d || x == "--debug"@,
            p || x == "--print-ast"@,
        ));
        assert(s_scan(
            a1,
            i + 1,
            path,
            r || x == "--repl"@,
            d || x == "--debug"@,
            p || x == "--print-ast"@,
        ) == s_scan(a1, i + 2, path, r2, d2, p2));
        assert(s_scan(a2, i, path, r, d, p) == s_scan(
            a2,
            i + 1,
            path,
            r || y == "--repl"@,
            d || y == "--debug"@,
            p || y == "--print-ast"@,
        ));
        assert(s_scan(
            a2,
            i + 1,
            path,
            r || y == "--repl"@,
            d || y == "--debug"@,
            p || y == "--print-ast"@,
        ) == s_scan(a2, i + 2, path, r2, d2, p2));
        lemma_scan_same_suffix(a1, a2, i + 2, path, r2, d2, p2);
    }
}

/// The order of two adjacent flags does not matter.
pub proof fn law_flag_order(args: Seq<Seq<char>>, i: nat)
    requires
        2 <= i,
        i + 1 < args.len(),
        is_flag(args[i as int]),
        is_flag(args[(i + 1) as int]),
    ensures
        s_parse_args(args) == s_parse_args(args.update(i as int, args[(i + 1) as int]).update((i + 1) as int, args[i as int])),
{
    let a2 = args.update(i as int, args[(i + 1) as int]).update((i + 1) as int, args[i as int]);
    assert(a2[1] == args[1]);
    lemma_scan_swap(args, a2, 2, i, None, false, false, false);
}

} // verus!
