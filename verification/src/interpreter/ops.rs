//! The operators on values.
use vstd::prelude::*;
use vstd::string::StringExecFns;
use crate::text::{chars_of, concat2, concat3};
use super::value::{Value, values_equal};
use super::error::{RuntimeError, RuntimeContext};
use super::spec::{s_unary, s_binop, s_compare, str_lt, checked_ipow, checked_power, ipow};
use super::res_val;

verus! {

/// Whether an operator is the given one.
pub fn is_op(op: &String, lit: &str) -> (r: bool)
    ensures
        r == (op@ == lit@),
{
    op.eq(&String::from_str(lit))
}

/// `i64::checked_pow`: the power when it fits in an `i64`, `None` when the
/// computation overflows.
#[verifier::external_body]
fn checked_pow(b: i64, e: u32) -> (r: Option<i64>)
    ensures
        r == checked_ipow(b, e),
{
    b.checked_pow(e)
}

proof fn lemma_pow_zero(e: nat)
    requires
        e >= 1,
    ensures
        ipow(0, e) == 0,
{
    assert(ipow(0, e) == 0 * ipow(0, (e - 1) as nat));
}

proof fn lemma_pow_one(e: nat)
    ensures
        ipow(1, e) == 1,
    decreases e,
{
    if e > 0 {
        lemma_pow_one((e - 1) as nat);
    }
}

proof fn lemma_pow_minus_one(e: nat)
    ensures
        ipow(-1, e) == if e % 2 == 0 { 1int } else { -1int },
    decreases e,
{
    if e > 0 {
        lemma_pow_minus_one((e - 1) as nat);
    }
}

/// Powers of a base of magnitude at least 2 grow at least as powers of 2.
proof fn lemma_pow_grows(a: int, e: nat)
    requires
        a >= 2 || a <= -2,
    ensures
        ipow(a, e) >= ipow(2, e) || ipow(a, e) <= -ipow(2, e),
        ipow(2, e) >= 1,
    decreases e,
{
    if e > 0 {
        let p = ipow(a, (e - 1) as nat);
        let q = ipow(2, (e - 1) as nat);
        lemma_pow_grows(a, (e - 1) as nat);
        assert(ipow(a, e) == a * p);
        assert(ipow(2, e) == 2 * q);
        assert(a * p >= 2 * q || a * p <= -(2 * q)) by (nonlinear_arith)
            requires
                a >= 2 || a <= -2,
                p >= q || p <= -q,
                q >= 1,
        ;
    }
}

proof fn lemma_pow2_mono(e: nat)
    requires
        e >= 64,
    ensures
        ipow(2, e) >= ipow(2, 64),
    decreases e,
{
    if e > 64 {
        lemma_pow2_mono((e - 1) as nat);
        lemma_pow_grows(2, (e - 1) as nat);
    }
}

proof fn lemma_pow2_64()
    ensures
        ipow(2, 64) == 0x1_0000_0000_0000_0000int,
{
    reveal_with_fuel(ipow, 65);
}

/// `a ** b`, exactly, when it fits in 64 bits; for exponents beyond `u32`
/// only the bases 0, 1 and -1 have powers that fit.
fn power(a: i64, b: i64) -> (r: Option<i64>)
    requires
        b >= 0,
    ensures
        r == checked_power(a, b),
{
    if b <= 4294967295i64 {
        checked_pow(a, b as u32)
    } else if a == 0 {
        proof {
            lemma_pow_zero(b as nat);
        }
        Some(0)
    } else if a == 1 {
        proof {
            lemma_pow_one(b as nat);
        }
        Some(1)
    } else if a == -1 {
        proof {
            lemma_pow_minus_one(b as nat);
        }
        if b % 2 == 0 {
            Some(1)
        } else {
            Some(-1)
        }
    } else {
        proof {
            lemma_pow_grows(a as int, b as nat);
            lemma_pow2_mono(b as nat);
            lemma_pow2_64();
        }
        None
    }
}

/// Code-point lexicographic order of two strings.
pub fn str_less(a: &String, b: &String) -> (r: bool)
    ensures
        r == str_lt(a@, b@),
{
    let x = chars_of(a.as_str());
    let y = chars_of(b.as_str());
    let mut i: usize = 0;
    assert(a@.subrange(0, a@.len() as int) =~= a@);
    assert(b@.subrange(0, b@.len() as int) =~= b@);
    while i < x.len() && i < y.len() && x[i] == y[i]
        invariant
            x@ == a@,
            y@ == b@,
            i <= x@.len(),
            i <= y@.len(),
            str_lt(a@, b@) == str_lt(a@.subrange(i as int, a@.len() as int), b@.subrange(i as int, b@.len() as int)),
        decreases x@.len() - i,
    {
        proof {
            let sa = a@.subrange(i as int, a@.len() as int);
            let sb = b@.subrange(i as int, b@.len() as int);
            assert(sa.drop_first() =~= a@.subrange(i + 1, a@.len() as int));
            assert(sb.drop_first() =~= b@.subrange(i + 1, b@.len() as int));
        }
        i = i + 1;
    }
    if i >= y.len() {
        false
    } else if i >= x.len() {
        true
    } else {
        (x[i] as u32) < (y[i] as u32)
    }
}

fn ctx(what: &str) -> (r: Option<RuntimeContext>)
    ensures
        r matches Some(c) && c@ == super::error::sctx(what@),
{
    Some(RuntimeContext::new(what))
}

fn int_result(r: Option<i64>, what: &str) -> (res: Result<Value, RuntimeError>)
    ensures
        res_val(res) == super::spec::int_result(r, what@),
{
    match r {
        Some(n) => Ok(Value::Integer(n)),
        None => Err(RuntimeError::integer_overflow(ctx(what))),
    }
}

/// A unary operator applied to a value.
pub fn unary(op: &String, v: Value) -> (r: Result<Value, RuntimeError>)
    ensures
        res_val(r) == s_unary(op@, v@),
{
    if is_op(op, "-") {
        match v {
            Value::Integer(n) => int_result(0i64.checked_sub(n), "negating value"),
            _ => {
                let what = concat3("applying unary '", op.as_str(), "'");
                Err(RuntimeError::invalid_unary(&v, "-", ctx(what.as_str())))
            },
        }
    } else if is_op(op, "not") {
        Ok(Value::Boolean(!super::value::is_truthy(&v)))
    } else {
        let what = concat3("evaluating unary expression with '", op.as_str(), "'");
        Err(RuntimeError::unknown_operator(op.as_str(), true, ctx(what.as_str())))
    }
}

fn compare(op: &String, l: &Value, r: &Value) -> (res: Result<Value, RuntimeError>)
    ensures
        res_val(res) == s_compare(op@, l@, r@),
{
    match (l, r) {
        (Value::Integer(a), Value::Integer(b)) => Ok(
            Value::Boolean(
                if is_op(op, "<") {
                    *a < *b
                } else if is_op(op, ">") {
                    *a > *b
                } else if is_op(op, "<=") {
                    *a <= *b
                } else {
                    *a >= *b
                },
            ),
        ),
        (Value::String(a), Value::String(b)) => Ok(
            Value::Boolean(
                if is_op(op, "<") {
                    str_less(a, b)
                } else if is_op(op, ">") {
                    str_less(b, a)
                } else if is_op(op, "<=") {
                    !str_less(b, a)
                } else {
                    !str_less(a, b)
                },
            ),
        ),
        _ => Err(RuntimeError::invalid_comparison(l, r, op.as_str(), ctx("comparing values"))),
    }
}

/// A binary operator other than `and` and `or` applied to two values.
pub fn binop(op: &String, l: &Value, r: &Value) -> (res: Result<Value, RuntimeError>)
    ensures
        res_val(res) == s_binop(op@, l@, r@),
{
    if is_op(op, "+") {
        match (l, r) {
            (Value::Integer(a), Value::Integer(b)) => int_result(a.checked_add(*b), "adding values"),
            (Value::String(a), Value::String(b)) => Ok(Value::String(concat2(a.as_str(), b.as_str()))),
            _ => Err(RuntimeError::type_mismatch_operation(l, r, op.as_str(), ctx("adding values"))),
        }
    } else if is_op(op, "-") {
        match (l, r) {
            (Value::Integer(a), Value::Integer(b)) => int_result(a.checked_sub(*b), "subtracting values"),
            _ => Err(RuntimeError::type_mismatch_operation(l, r, op.as_str(), ctx("subtracting values"))),
        }
    } else if is_op(op, "*") {
        match (l, r) {
            (Value::Integer(a), Value::Integer(b)) => int_result(a.checked_mul(*b), "multiplying values"),
            _ => Err(RuntimeError::type_mismatch_operation(l, r, op.as_str(), ctx("multiplying values"))),
        }
    } else if is_op(op, "/") {
        match (l, r) {
            (Value::Integer(a), Value::Integer(b)) => if *b == 0 {
                Err(RuntimeError::division_by_zero(ctx("dividing values")))
            } else {
                int_result(a.checked_div(*b), "dividing values")
            },
            _ => Err(RuntimeError::type_mismatch_operation(l, r, op.as_str(), ctx("dividing values"))),
        }
    } else if is_op(op, "%") {
        match (l, r) {
            (Value::Integer(a), Value::Integer(b)) => if *b == 0 {
                Err(RuntimeError::modulo_by_zero(ctx("calculating modulo")))
            } else {
                int_result(a.checked_rem(*b), "calculating modulo")
            },
            _ => Err(RuntimeError::type_mismatch_operation(l, r, op.as_str(), ctx("calculating modulo"))),
        }
    } else if is_op(op, "**") {
        match (l, r) {
            (Value::Integer(a), Value::Integer(b)) => if *b < 0 {
                Ok(Value::Integer(0))
            } else {
                int_result(power(*a, *b), "calculating power")
            },
            _ => Err(RuntimeError::type_mismatch_operation(l, r, op.as_str(), ctx("calculating power"))),
        }
    } else if is_op(op, "==") {
        Ok(Value::Boolean(values_equal(l, r)))
    } else if is_op(op, "!=") {
        Ok(Value::Boolean(!values_equal(l, r)))
    } else if is_op(op, "<") || is_op(op, ">") || is_op(op, "<=") || is_op(op, ">=") {
        compare(op, l, r)
    } else {
        let what = concat3("evaluating binary expression with '", op.as_str(), "'");
        Err(RuntimeError::unknown_operator(op.as_str(), false, ctx(what.as_str())))
    }
}

} // verus!
