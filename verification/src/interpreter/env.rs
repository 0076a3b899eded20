//! Scoped variable storage.
use vstd::prelude::*;
use vstd::string::StringExecFns;
use super::value::{Value, SValue};
use super::error::{RuntimeError, serr, msg_scope_exit, msg_undefined_assignment};

verus! {

broadcast use vstd::std_specs::vec::group_vec_axioms;

/// The mathematical model of the scopes: a stack of maps from names to
/// values, the global scope first.
pub type Scopes = Seq<Map<Seq<char>, SValue>>;

/// Looks a name up from the innermost scope outwards.
pub open spec fn env_lookup(sc: Scopes, name: Seq<char>) -> Option<SValue>
    decreases sc.len(),
{
    if sc.len() == 0 {
        None
    } else if sc.last().contains_key(name) {
        Some(sc.last()[name])
    } else {
        env_lookup(sc.drop_last(), name)
    }
}

/// Binds a name in the innermost scope.
pub open spec fn env_define(sc: Scopes, name: Seq<char>, v: SValue) -> Scopes {
    if sc.len() == 0 {
        sc
    } else {
        sc.update(sc.len() - 1, sc.last().insert(name, v))
    }
}

/// Rebinds a name in the innermost scope that holds it; `None` when no
/// scope holds it.
pub open spec fn env_assign(sc: Scopes, name: Seq<char>, v: SValue) -> Option<Scopes>
    decreases sc.len(),
{
    if sc.len() == 0 {
        None
    } else if sc.last().contains_key(name) {
        Some(sc.update(sc.len() - 1, sc.last().insert(name, v)))
    } else {
        match env_assign(sc.drop_last(), name, v) {
            Some(s) => Some(s.push(sc.last())),
            None => None,
        }
    }
}

/// The map that one scope's bindings denote.
pub open spec fn scope_map(s: Seq<(String, Value)>) -> Map<Seq<char>, SValue>
    decreases s.len(),
{
    if s.len() == 0 {
        Map::empty()
    } else {
        scope_map(s.drop_last()).insert(s.last().0@, s.last().1@)
    }
}

/// No name is bound twice in one scope.
pub open spec fn keys_unique(s: Seq<(String, Value)>) -> bool {
    forall|i: int, j: int| 0 <= i < j < s.len() ==> s[i].0@ != s[j].0@
}

/// Scoped variable storage: a stack of scopes, the global scope at the bottom.
#[derive(Debug, Clone)]
pub struct Environment {
    scopes: Vec<Vec<(String, Value)>>,
}

impl View for Environment {
    type V = Scopes;

    closed spec fn view(&self) -> Scopes {
        Seq::new(self.scopes@.len(), |i: int| scope_map(self.scopes@[i]@))
    }
}

proof fn lemma_scope_map_has(s: Seq<(String, Value)>, name: Seq<char>)
    ensures
        scope_map(s).contains_key(name) <==> exists|k: int| 0 <= k < s.len() && s[k].0@ == name,
    decreases s.len(),
{
    if s.len() > 0 {
        lemma_scope_map_has(s.drop_last(), name);
        if scope_map(s.drop_last()).contains_key(name) {
            let k = choose|k: int| 0 <= k < s.drop_last().len() && s.drop_last()[k].0@ == name;
            assert(s[k].0@ == name);
        }
        if exists|k: int| 0 <= k < s.len() && s[k].0@ == name {
            let k = choose|k: int| 0 <= k < s.len() && s[k].0@ == name;
            if k < s.len() - 1 {
                assert(s.drop_last()[k].0@ == name);
            }
        }
    }
}

proof fn lemma_scope_map_at(s: Seq<(String, Value)>, k: int)
    requires
        keys_unique(s),
        0 <= k < s.len(),
    ensures
        scope_map(s).contains_key(s[k].0@),
        scope_map(s)[s[k].0@] == s[k].1@,
    decreases s.len(),
{
    if k < s.len() - 1 {
        lemma_scope_map_at(s.drop_last(), k);
    }
}

proof fn lemma_scope_map_update(s: Seq<(String, Value)>, k: int, p: (String, Value))
    requires
        keys_unique(s),
        0 <= k < s.len(),
        p.0@ == s[k].0@,
    ensures
        keys_unique(s.update(k, p)),
        scope_map(s.update(k, p)) == scope_map(s).insert(p.0@, p.1@),
    decreases s.len(),
{
    let t = s.update(k, p);
    if k == s.len() - 1 {
        assert(t.drop_last() =~= s.drop_last());
        lemma_scope_map_has(s.drop_last(), p.0@);
        assert(!scope_map(s.drop_last()).contains_key(p.0@)) by {
            if scope_map(s.drop_last()).contains_key(p.0@) {
                let j = choose|j: int| 0 <= j < s.drop_last().len() && s.drop_last()[j].0@ == p.0@;
                assert(s[j].0@ == s[k].0@);
            }
        }
        assert(scope_map(t) =~= scope_map(s).insert(p.0@, p.1@));
    } else {
        lemma_scope_map_update(s.drop_last(), k, p);
        assert(t.drop_last() =~= s.drop_last().update(k, p));
        assert(s.last().0@ != p.0@);
        assert(scope_map(t) =~= scope_map(s).insert(p.0@, p.1@));
    }
}

proof fn lemma_lookup_skip(sc: Scopes, i: int, name: Seq<char>)
    requires
        0 <= i <= sc.len(),
        forall|j: int| i <= j < sc.len() ==> !(#[trigger] sc[j]).contains_key(name),
    ensures
        env_lookup(sc, name) == env_lookup(sc.subrange(0, i), name),
    decreases sc.len(),
{
    if i < sc.len() {
        assert(sc.drop_last().subrange(0, i) =~= sc.subrange(0, i));
        lemma_lookup_skip(sc.drop_last(), i, name);
    } else {
        assert(sc.subrange(0, i) =~= sc);
    }
}

proof fn lemma_assign_skip(sc: Scopes, i: int, name: Seq<char>, v: SValue)
    requires
        0 <= i < sc.len(),
        sc[i].contains_key(name),
        forall|j: int| i < j < sc.len() ==> !(#[trigger] sc[j]).contains_key(name),
    ensures
        env_assign(sc, name, v) == Some(sc.update(i, sc[i].insert(name, v))),
    decreases sc.len(),
{
    if i < sc.len() - 1 {
        lemma_assign_skip(sc.drop_last(), i, name, v);
        assert(sc.drop_last().update(i, sc[i].insert(name, v)).push(sc.last()) =~= sc.update(
            i,
            sc[i].insert(name, v),
        ));
    }
}

proof fn lemma_assign_none(sc: Scopes, name: Seq<char>, v: SValue)
    requires
        forall|j: int| 0 <= j < sc.len() ==> !(#[trigger] sc[j]).contains_key(name),
    ensures
        env_assign(sc, name, v) is None,
        env_lookup(sc, name) is None,
    decreases sc.len(),
{
    if sc.len() > 0 {
        lemma_assign_none(sc.drop_last(), name, v);
    }
}

/// The position of `name` in one scope, if it is bound there.
fn find_in(scope: &Vec<(String, Value)>, name: &str) -> (r: Option<usize>)
    ensures
        match r {
            Some(k) => k < scope@.len() && scope@[k as int].0@ == name@,
            None => forall|k: int| 0 <= k < scope@.len() ==> scope@[k].0@ != name@,
        },
{
    let key = String::from_str(name);
    let mut k: usize = 0;
    while k < scope.len()
        invariant
            k <= scope@.len(),
            key@ == name@,
            forall|j: int| 0 <= j < k ==> scope@[j].0@ != name@,
        decreases scope@.len() - k,
    {
        if scope[k].0.eq(&key) {
            return Some(k);
        }
        k = k + 1;
    }
    None
}

impl Environment {
    /// Well-formedness: at least the global scope, and no name bound twice
    /// within one scope.
    pub closed spec fn wf(&self) -> bool {
        &&& self.scopes@.len() >= 1
        &&& forall|i: int| 0 <= i < self.scopes@.len() ==> keys_unique(#[trigger] self.scopes@[i]@)
    }

    /// A well-formed environment has at least the global scope.
    pub proof fn lemma_wf_has_scope(&self)
        requires
            self.wf(),
        ensures
            self@.len() >= 1,
    {
    }

    /// A new environment holding one empty global scope.
    pub fn new() -> (r: Self)
        ensures
            r.wf(),
            r@ == seq![Map::<Seq<char>, SValue>::empty()],
    {
        let mut scopes: Vec<Vec<(String, Value)>> = Vec::new();
        scopes.push(Vec::new());
        let r = Self { scopes };
        assert(r@ =~= seq![Map::<Seq<char>, SValue>::empty()]);
        r
    }

    /// Enters a new, empty scope.
    pub fn enter_scope(&mut self)
        requires
            old(self).wf(),
        ensures
            final(self).wf(),
            final(self)@ == old(self)@.push(Map::empty()),
    {
        self.scopes.push(Vec::new());
        assert(self@ =~= old(self)@.push(Map::empty()));
    }

    /// Leaves the innermost scope; the global scope cannot be left.
    pub fn exit_scope(&mut self) -> (r: Result<(), RuntimeError>)
        requires
            old(self).wf(),
        ensures
            final(self).wf(),
            old(self)@.len() <= 1 ==> r is Err && r->Err_0@ == serr(msg_scope_exit(), None)
                && final(self)@ == old(self)@,
            old(self)@.len() > 1 ==> r is Ok && final(self)@ == old(self)@.drop_last(),
    {
        if self.scopes.len() <= 1 {
            return Err(RuntimeError::scope_exit_error(None));
        }
        self.scopes.pop();
        assert(self@ =~= old(self)@.drop_last());
        Ok(())
    }

    /// Binds `name` to `value` in the innermost scope.
    pub fn define(&mut self, name: String, value: Value)
        requires
            old(self).wf(),
        ensures
            final(self).wf(),
            final(self)@ == env_define(old(self)@, name@, value@),
    {
        let last = self.scopes.len() - 1;
        let found = find_in(&self.scopes[last], name.as_str());
        let ghost s = self.scopes@[last as int]@;
        let ghost name_v = name@;
        let ghost value_v = value@;
        match found {
            Some(k) => {
                proof {
                    lemma_scope_map_update(s, k as int, (name, value));
                }
                self.scopes[last][k] = (name, value);
            },
            None => {
                proof {
                    lemma_scope_map_has(s, name_v);
                }
                self.scopes[last].push((name, value));
                assert(self.scopes@[last as int]@.drop_last() =~= s);
            },
        }
        assert(self@ =~= env_define(old(self)@, name_v, value_v));
    }

    /// Looks `name` up from the innermost scope outwards.
    pub fn lookup(&self, name: &str) -> (r: Option<&Value>)
        requires
            self.wf(),
        ensures
            match r {
                Some(v) => env_lookup(self@, name@) == Some(v@),
                None => env_lookup(self@, name@) is None,
            },
    {
        let mut i: usize = self.scopes.len();
        while i > 0
            invariant
                i <= self.scopes@.len(),
                self.wf(),
                forall|j: int| i <= j < self@.len() ==> !(#[trigger] self@[j]).contains_key(name@),
            decreases i,
        {
            i = i - 1;
            let found = find_in(&self.scopes[i], name);
            proof {
                lemma_scope_map_has(self.scopes@[i as int]@, name@);
            }
            match found {
                Some(k) => {
                    proof {
                        lemma_scope_map_at(self.scopes@[i as int]@, k as int);
                        lemma_lookup_skip(self@, i + 1, name@);
                        assert(self@.subrange(0, i + 1).drop_last() =~= self@.subrange(0, i as int));
                    }
                    return Some(&self.scopes[i][k].1);
                },
                None => {},
            }
        }
        proof {
            lemma_assign_none(self@, name@, SValue::Nil);
        }
        None
    }

    /// Rebinds `name` in the innermost scope that holds it.
    pub fn assign(&mut self, name: &str, value: Value) -> (r: Result<(), RuntimeError>)
        requires
            old(self).wf(),
        ensures
            final(self).wf(),
            match env_assign(old(self)@, name@, value@) {
                Some(s) => r is Ok && final(self)@ == s,
                None => r is Err && r->Err_0@ == serr(msg_undefined_assignment(name@), None)
                    && final(self)@ == old(self)@,
            },
    {
        let mut i: usize = self.scopes.len();
        while i > 0
            invariant
                i <= self.scopes@.len(),
                self.wf(),
                *self == *old(self),
                forall|j: int| i <= j < self@.len() ==> !(#[trigger] self@[j]).contains_key(name@),
            decreases i,
        {
            i = i - 1;
            let found = find_in(&self.scopes[i], name);
            proof {
                lemma_scope_map_has(self.scopes@[i as int]@, name@);
            }
            match found {
                Some(k) => {
                    let ghost s = self.scopes@[i as int]@;
                    let ghost value_v = value@;
                    let key = String::from_str(name);
                    proof {
                        lemma_scope_map_update(s, k as int, (key, value));
                        lemma_assign_skip(old(self)@, i as int, name@, value_v);
                    }
                    self.scopes[i][k] = (key, value);
                    assert(self@ =~= old(self)@.update(i as int, old(self)@[i as int].insert(name@, value_v)));
                    return Ok(());
                },
                None => {},
            }
        }
        proof {
            lemma_assign_none(self@, name@, value@);
        }
        Err(RuntimeError::undefined_variable_assignment(name, None))
    }

    /// The number of scopes (1 = global only).
    pub fn scope_depth(&self) -> (r: usize)
        ensures
            r == self@.len(),
    {
        self.scopes.len()
    }
}

impl Default for Environment {
    fn default() -> (r: Self)
        ensures
            r.wf(),
            r@ == seq![Map::<Seq<char>, SValue>::empty()],
    {
        Self::new()
    }
}

} // verus!
