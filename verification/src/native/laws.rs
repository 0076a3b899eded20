//! Properties of the registry that hold of every registration.
use vstd::prelude::*;
use super::registry::{Entries, arity_of, names_distinct};
use super::function::MAX_NATIVE_ARITY;

verus! {

proof fn lemma_absent(e: Entries, name: Seq<char>)
    requires
        arity_of(e, name) is None,
    ensures
        forall|i: int| 0 <= i < e.len() ==> (#[trigger] e[i]).0 != name,
    decreases e.len(),
{
    if e.len() > 0 {
        lemma_absent(e.drop_last(), name);
        assert forall|i: int| 0 <= i < e.len() implies (#[trigger] e[i]).0 != name by {
            if i < e.len() - 1 {
                assert(e.drop_last()[i] == e[i]);
            }
        }
    }
}

/// After a name is registered with an arity, looking it up gives that arity,
/// and every other name looks up as before.
pub proof fn law_register_then_lookup(e: Entries, name: Seq<char>, arity: usize, other: Seq<char>)
    ensures
        arity_of(e.push((name, arity)), name) == Some(arity),
        other != name ==> arity_of(e.push((name, arity)), other) == arity_of(e, other),
{
    assert(e.push((name, arity)).drop_last() =~= e);
}

/// Registration refuses a name registered already, so the names of a
/// registry stay distinct.
pub proof fn law_names_stay_distinct(e: Entries, name: Seq<char>, arity: usize)
    requires
        names_distinct(e),
        arity_of(e, name) is None,
    ensures
        names_distinct(e.push((name, arity))),
{
    lemma_absent(e, name);
}

/// Whether a builder holding `e` accepts the registration `q`: a new name
/// with an arity within the limit.
pub open spec fn accepts(e: Entries, q: (Seq<char>, usize)) -> bool {
    arity_of(e, q.0) is None && q.1 <= MAX_NATIVE_ARITY
}

/// The entries of a builder after the registrations `reqs`, in order, from
/// an empty one: each accepted registration is added, each refused one
/// changes nothing.
pub open spec fn register_all(reqs: Seq<(Seq<char>, usize)>) -> Entries
    decreases reqs.len(),
{
    if reqs.len() == 0 {
        seq![]
    } else {
        let e = register_all(reqs.drop_last());
        if accepts(e, reqs.last()) {
            e.push(reqs.last())
        } else {
            e
        }
    }
}

proof fn lemma_present(e: Entries, i: int)
    requires
        names_distinct(e),
        0 <= i < e.len(),
    ensures
        arity_of(e, e[i].0) == Some(e[i].1),
    decreases e.len(),
{
    if i < e.len() - 1 {
        assert(e.drop_last()[i] == e[i]);
        assert(names_distinct(e.drop_last()));
        lemma_present(e.drop_last(), i);
    }
}

proof fn lemma_some_has(e: Entries, name: Seq<char>)
    requires
        arity_of(e, name) is Some,
    ensures
        exists|i: int| 0 <= i < e.len() && (#[trigger] e[i]).0 == name,
    decreases e.len(),
{
    if e.last().0 != name {
        lemma_some_has(e.drop_last(), name);
        let i = choose|i: int| 0 <= i < e.drop_last().len() && (#[trigger] e.drop_last()[i]).0 == name;
        assert(e[i] == e.drop_last()[i]);
    } else {
        assert(e[e.len() - 1].0 == name);
    }
}

/// A sequence of registrations from an empty builder leaves exactly the
/// accepted ones, in order and under distinct names: each of them looks up
/// with its own arity, every name looks up exactly when it was accepted,
/// and a registration accepted at its turn is found afterwards with the
/// arity it was given.
pub proof fn law_register_sequence(reqs: Seq<(Seq<char>, usize)>, name: Seq<char>)
    ensures
        names_distinct(register_all(reqs)),
        forall|i: int| 0 <= i < register_all(reqs).len() ==> arity_of(register_all(reqs), #[trigger] register_all(reqs)[i].0)
            == Some(register_all(reqs)[i].1),
        arity_of(register_all(reqs), name) is Some <==> exists|i: int|
            0 <= i < register_all(reqs).len() && (#[trigger] register_all(reqs)[i]).0 == name,
        forall|k: int| 0 <= k < reqs.len() && accepts(register_all(reqs.take(k)), #[trigger] reqs[k])
            ==> arity_of(register_all(reqs), reqs[k].0) == Some(reqs[k].1),
    decreases reqs.len(),
{
    let e = register_all(reqs);
    if reqs.len() > 0 {
        let pre = reqs.drop_last();
        law_register_sequence(pre, name);
        let e0 = register_all(pre);
        if accepts(e0, reqs.last()) {
            law_names_stay_distinct(e0, reqs.last().0, reqs.last().1);
        }
        assert forall|k: int| 0 <= k < reqs.len() && accepts(register_all(reqs.take(k)), #[trigger] reqs[k])
            implies arity_of(e, reqs[k].0) == Some(reqs[k].1) by {
            if k == reqs.len() - 1 {
                assert(reqs.take(k) =~= pre);
                law_register_then_lookup(e0, reqs[k].0, reqs[k].1, reqs[k].0);
            } else {
                assert(reqs.take(k) =~= pre.take(k));
                assert(pre[k] == reqs[k]);
                assert(arity_of(e0, reqs[k].0) == Some(reqs[k].1));
                if accepts(e0, reqs.last()) {
                    law_register_then_lookup(e0, reqs.last().0, reqs.last().1, reqs[k].0);
                }
            }
        }
    }
    assert forall|i: int| 0 <= i < e.len() implies arity_of(e, #[trigger] e[i].0) == Some(e[i].1) by {
        lemma_present(e, i);
    }
    if arity_of(e, name) is Some {
        lemma_some_has(e, name);
    }
    if exists|i: int| 0 <= i < e.len() && (#[trigger] e[i]).0 == name {
        let i = choose|i: int| 0 <= i < e.len() && (#[trigger] e[i]).0 == name;
        lemma_present(e, i);
    }
}

} // verus!
