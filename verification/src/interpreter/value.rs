//! Run-time values and their mathematical view.
use vstd::prelude::*;
use vstd::string::{StringExecFns, StrSliceExecFns};
use crate::parser::ast::{
    Statement, SStmt, stmts_v, names_v, copy_names, copy_stmts, stmts_same, names_same,
};
use crate::text::{i64_to_string, int_dec};

verus! {

broadcast use vstd::std_specs::vec::group_vec_axioms;

/// A function value: its parameter names and its body.
#[derive(Debug, PartialEq)]
pub struct FunctionValue {
    pub parameters: Vec<String>,
    pub body: Vec<Statement>,
}

impl FunctionValue {
    /// Creates a function value from its parameters and body.
    pub fn new(parameters: Vec<String>, body: Vec<Statement>) -> (r: Self)
        ensures
            r.parameters@ == parameters@,
            r.body@ == body@,
    {
        Self { parameters, body }
    }
}

/// A run-time value.
#[derive(Debug, PartialEq)]
pub enum Value {
    Integer(i64),
    String(String),
    Boolean(bool),
    Array(Vec<Value>),
    Function(FunctionValue),
    Nil,
}

/// Mathematical value.
pub enum SValue {
    Integer(i64),
    Str(Seq<char>),
    Boolean(bool),
    Array(Seq<SValue>),
    Function(Seq<Seq<char>>, Seq<SStmt>),
    Nil,
}

pub open spec fn value_v(v: Value) -> SValue
    decreases v,
{
    match v {
        Value::Integer(n) => SValue::Integer(n),
        Value::String(s) => SValue::Str(s@),
        Value::Boolean(b) => SValue::Boolean(b),
        Value::Array(a) => SValue::Array(values_v(a@)),
        Value::Function(f) => SValue::Function(names_v(f.parameters@), stmts_v(f.body@)),
        Value::Nil => SValue::Nil,
    }
}

pub open spec fn values_v(s: Seq<Value>) -> Seq<SValue>
    decreases s,
{
    if s.len() == 0 {
        seq![]
    } else {
        values_v(s.subrange(0, s.len() - 1)).push(value_v(s[s.len() - 1]))
    }
}

impl View for Value {
    type V = SValue;

    open spec fn view(&self) -> SValue {
        value_v(*self)
    }
}

pub proof fn lemma_values_v_len(s: Seq<Value>)
    ensures
        values_v(s).len() == s.len(),
    decreases s.len(),
{
    if s.len() > 0 {
        lemma_values_v_len(s.subrange(0, s.len() - 1));
    }
}

pub proof fn lemma_values_v_index(s: Seq<Value>, i: int)
    requires
        0 <= i < s.len(),
    ensures
        values_v(s).len() == s.len(),
        values_v(s)[i] == value_v(s[i]),
    decreases s.len(),
{
    lemma_values_v_len(s);
    if i < s.len() - 1 {
        lemma_values_v_index(s.subrange(0, s.len() - 1), i);
    }
}

pub proof fn lemma_values_v_push(s: Seq<Value>, v: Value)
    ensures
        values_v(s.push(v)) == values_v(s).push(value_v(v)),
{
    assert(s.push(v).subrange(0, s.len() as int) =~= s);
}

/// Truthiness: `false`, `nil`, `0`, the empty string and the empty array are
/// falsy; every other value is truthy.
pub open spec fn truthy(v: SValue) -> bool {
    match v {
        SValue::Boolean(b) => b,
        SValue::Nil => false,
        SValue::Integer(n) => n != 0,
        SValue::Str(s) => s.len() > 0,
        SValue::Array(a) => a.len() > 0,
        SValue::Function(_, _) => true,
    }
}

/// Equality of values: structural, except that two functions are never equal
/// at the top level.
pub open spec fn equal_values(l: SValue, r: SValue) -> bool {
    match (l, r) {
        (SValue::Integer(a), SValue::Integer(b)) => a == b,
        (SValue::Str(a), SValue::Str(b)) => a == b,
        (SValue::Boolean(a), SValue::Boolean(b)) => a == b,
        (SValue::Nil, SValue::Nil) => true,
        (SValue::Array(a), SValue::Array(b)) => a == b,
        _ => false,
    }
}

/// The name of a value's type, as used in messages.
pub open spec fn kind_name(v: SValue) -> Seq<char> {
    match v {
        SValue::Integer(_) => "integer"@,
        SValue::Str(_) => "string"@,
        SValue::Boolean(_) => "boolean"@,
        SValue::Array(_) => "array"@,
        SValue::Function(_, _) => "function"@,
        SValue::Nil => "nil"@,
    }
}

/// `items` joined with `sep` between consecutive items.
pub open spec fn join(items: Seq<Seq<char>>, sep: Seq<char>) -> Seq<char>
    decreases items.len(),
{
    if items.len() == 0 {
        seq![]
    } else if items.len() == 1 {
        items[0]
    } else {
        join(items.drop_last(), sep) + sep + items.last()
    }
}

/// The text that `write` prints for a value.
pub open spec fn display(v: SValue) -> Seq<char>
    decreases v,
{
    match v {
        SValue::Integer(n) => int_dec(n as int),
        SValue::Str(s) => s,
        SValue::Boolean(b) => if b { "true"@ } else { "false"@ },
        SValue::Array(a) => "["@ + join(display_all(a), ", "@) + "]"@,
        SValue::Function(params, _) => "<function("@ + join(params, ", "@) + ")>"@,
        SValue::Nil => "nil"@,
    }
}

pub open spec fn display_all(a: Seq<SValue>) -> Seq<Seq<char>>
    decreases a,
{
    if a.len() == 0 {
        seq![]
    } else {
        display_all(a.drop_last()).push(display(a.last()))
    }
}

proof fn lemma_join_push(items: Seq<Seq<char>>, sep: Seq<char>, x: Seq<char>)
    ensures
        join(items.push(x), sep) == if items.len() == 0 { x } else { join(items, sep) + sep + x },
{
    assert(items.push(x).drop_last() =~= items);
}

/// Joins strings with a separator.
fn join_strings(items: &Vec<String>, sep: &str) -> (r: String)
    ensures
        r@ == join(items@.map_values(|s: String| s@), sep@),
{
    let ghost views = items@.map_values(|s: String| s@);
    let mut out = String::new();
    let mut i: usize = 0;
    while i < items.len()
        invariant
            i <= items@.len(),
            views == items@.map_values(|s: String| s@),
            out@ == join(views.subrange(0, i as int), sep@),
        decreases items@.len() - i,
    {
        proof {
            lemma_join_push(views.subrange(0, i as int), sep@, views[i as int]);
            assert(views.subrange(0, i as int).push(views[i as int]) =~= views.subrange(0, i + 1));
        }
        if i > 0 {
            out.append(sep);
        }
        out.append(items[i].as_str());
        i = i + 1;
    }
    assert(views.subrange(0, items@.len() as int) =~= views);
    out
}

impl Value {
    /// A deep copy with the same view.
    pub fn deep_copy(&self) -> (r: Value)
        ensures
            r@ == self@,
        decreases *self,
    {
        match self {
            Value::Integer(n) => Value::Integer(*n),
            Value::String(s) => Value::String(s.clone()),
            Value::Boolean(b) => Value::Boolean(*b),
            Value::Array(a) => {
                assert(decreases_to!(*self => (*self)->Array_0));
                Value::Array(copy_values(a))
            },
            Value::Function(f) => Value::Function(
                FunctionValue { parameters: copy_names(&f.parameters), body: copy_stmts(&f.body) },
            ),
            Value::Nil => Value::Nil,
        }
    }

    /// Structural equality of the views.
    pub fn same(&self, other: &Value) -> (r: bool)
        ensures
            r == (self@ == other@),
        decreases *self,
    {
        match (self, other) {
            (Value::Integer(a), Value::Integer(b)) => *a == *b,
            (Value::String(a), Value::String(b)) => a.eq(b),
            (Value::Boolean(a), Value::Boolean(b)) => *a == *b,
            (Value::Nil, Value::Nil) => true,
            (Value::Array(a), Value::Array(b)) => {
                assert(decreases_to!(*self => (*self)->Array_0));
                values_same(a, b)
            },
            (Value::Function(f), Value::Function(g)) => {
                let p = names_same(&f.parameters, &g.parameters);
                let q = stmts_same(&f.body, &g.body);
                p && q
            },
            _ => false,
        }
    }

    /// The text that `write` prints for this value.
    pub fn to_display_string(&self) -> (r: String)
        ensures
            r@ == display(self@),
        decreases *self,
    {
        match self {
            Value::Integer(n) => i64_to_string(*n),
            Value::String(s) => s.clone(),
            Value::Boolean(b) => if *b {
                String::from_str("true")
            } else {
                String::from_str("false")
            },
            Value::Array(a) => {
                assert(decreases_to!(*self => (*self)->Array_0));
                let parts = display_each(a);
                proof {
                    lemma_values_v_len(a@);
                    assert forall|j: int| 0 <= j < a@.len() implies values_v(a@)[j] == value_v(a@[j]) by {
                        lemma_values_v_index(a@, j);
                    }
                    lemma_display_all(values_v(a@));
                    assert(parts@.map_values(|s: String| s@) =~= display_all(values_v(a@)));
                }
                let inner = join_strings(&parts, ", ");
                let mut out = String::from_str("[");
                out.append(inner.as_str());
                out.append("]");
                out
            },
            Value::Function(f) => {
                let inner = join_strings(&f.parameters, ", ");
                proof {
                    assert(f.parameters@.map_values(|s: String| s@) =~= names_v(f.parameters@));
                }
                let mut out = String::from_str("<function(");
                out.append(inner.as_str());
                out.append(")>");
                out
            },
            Value::Nil => String::from_str("nil"),
        }
    }
}

/// The display text of each value of a list.
fn display_each(a: &Vec<Value>) -> (parts: Vec<String>)
    ensures
        parts@.len() == a@.len(),
        forall|j: int| 0 <= j < a@.len() ==> #[trigger] parts@[j]@ == display(value_v(a@[j])),
    decreases *a,
{
    let mut parts: Vec<String> = Vec::new();
    let mut i: usize = 0;
    while i < a.len()
        invariant
            i <= a@.len(),
            parts@.len() == i,
            forall|j: int| 0 <= j < i ==> #[trigger] parts@[j]@ == display(value_v(a@[j])),
        decreases a@.len() - i,
    {
        assert(decreases_to!(*a => a@));
        let s = a[i].to_display_string();
        parts.push(s);
        i = i + 1;
    }
    parts
}

proof fn lemma_display_all(a: Seq<SValue>)
    ensures
        display_all(a).len() == a.len(),
        forall|j: int| 0 <= j < a.len() ==> #[trigger] display_all(a)[j] == display(a[j]),
    decreases a.len(),
{
    if a.len() > 0 {
        lemma_display_all(a.drop_last());
    }
}

/// Structural equality of two lists of values.
pub fn values_same(a: &Vec<Value>, b: &Vec<Value>) -> (r: bool)
    ensures
        r == (values_v(a@) == values_v(b@)),
    decreases *a,
{
    proof {
        lemma_values_v_len(a@);
        lemma_values_v_len(b@);
    }
    if a.len() != b.len() {
        return false;
    }
    let mut i: usize = 0;
    while i < a.len()
        invariant
            i <= a@.len(),
            a@.len() == b@.len(),
            values_v(a@).len() == a@.len(),
            values_v(b@).len() == b@.len(),
            forall|j: int| 0 <= j < i ==> values_v(a@)[j] == values_v(b@)[j],
        decreases a@.len() - i,
    {
        assert(decreases_to!(*a => a@));
        let same = a[i].same(&b[i]);
        proof {
            lemma_values_v_index(a@, i as int);
            lemma_values_v_index(b@, i as int);
        }
        if !same {
            return false;
        }
        i = i + 1;
    }
    assert(values_v(a@) =~= values_v(b@));
    true
}

/// Deep copy of a list of values.
pub fn copy_values(v: &Vec<Value>) -> (r: Vec<Value>)
    ensures
        values_v(r@) == values_v(v@),
    decreases *v,
{
    let mut out: Vec<Value> = Vec::new();
    let mut i: usize = 0;
    while i < v.len()
        invariant
            0 <= i <= v@.len(),
            out@.len() == i,
            values_v(out@) == values_v(v@.subrange(0, i as int)),
        decreases v@.len() - i,
    {
        assert(decreases_to!(*v => v@));
        let c = v[i].deep_copy();
        proof {
            lemma_values_v_push(out@, c);
            assert(v@.subrange(0, i + 1).subrange(0, i as int) =~= v@.subrange(0, i as int));
        }
        out.push(c);
        i = i + 1;
    }
    assert(v@.subrange(0, v@.len() as int) =~= v@);
    out
}

impl Clone for Value {
    fn clone(&self) -> Self {
        self.deep_copy()
    }
}

impl Clone for FunctionValue {
    fn clone(&self) -> Self {
        FunctionValue { parameters: copy_names(&self.parameters), body: copy_stmts(&self.body) }
    }
}

/// Checks if a value is truthy.
pub fn is_truthy(value: &Value) -> (r: bool)
    ensures
        r == truthy(value@),
{
    match value {
        Value::Boolean(b) => *b,
        Value::Nil => false,
        Value::Integer(n) => *n != 0,
        Value::String(s) => s.as_str().unicode_len() != 0,
        Value::Array(arr) => {
            proof {
                lemma_values_v_len(arr@);
            }
            arr.len() != 0
        },
        Value::Function(_) => true,
    }
}

/// Checks if two values are equal.
pub fn values_equal(left: &Value, right: &Value) -> (r: bool)
    ensures
        r == equal_values(left@, right@),
{
    match (left, right) {
        (Value::Integer(l), Value::Integer(r)) => *l == *r,
        (Value::String(l), Value::String(r)) => l.eq(r),
        (Value::Boolean(l), Value::Boolean(r)) => *l == *r,
        (Value::Nil, Value::Nil) => true,
        (Value::Array(l), Value::Array(r)) => values_same(l, r),
        _ => false,
    }
}

/// Returns the type name of a value.
pub fn value_type_name(value: &Value) -> (r: &'static str)
    ensures
        r@ == kind_name(value@),
{
    match value {
        Value::Integer(_) => "integer",
        Value::String(_) => "string",
        Value::Boolean(_) => "boolean",
        Value::Array(_) => "array",
        Value::Function(_) => "function",
        Value::Nil => "nil",
    }
}

} // verus!
