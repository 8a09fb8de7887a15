//! A calculus of booleans and natural numbers.

use crate::text::{decimal, write_decimal};
use vstd::prelude::*;
use vstd::string::StringExecFns;

verus! {

/// A term of the calculus.
#[derive(Debug)]
pub enum Term {
    True,
    False,
    IfThenElse(Box<Term>, Box<Term>, Box<Term>),
    Zero,
    Succ(Box<Term>),
    Pred(Box<Term>),
    IsZero(Box<Term>),
}

impl Term {
    /// A copy of the term.
    pub fn duplicate(&self) -> (r: Term)
        ensures
            r == *self,
        decreases self,
    {
        match self {
            Term::True => Term::True,
            Term::False => Term::False,
            Term::Zero => Term::Zero,
            Term::IfThenElse(t1, t2, t3) => Term::IfThenElse(
                Box::new(t1.duplicate()),
                Box::new(t2.duplicate()),
                Box::new(t3.duplicate()),
            ),
            Term::Succ(t1) => Term::Succ(Box::new(t1.duplicate())),
            Term::Pred(t1) => Term::Pred(Box::new(t1.duplicate())),
            Term::IsZero(t1) => Term::IsZero(Box::new(t1.duplicate())),
        }
    }
}

impl Clone for Term {
    fn clone(&self) -> (r: Term)
        ensures
            r == *self,
    {
        self.duplicate()
    }
}

/// What a term evaluates to.
#[derive(Debug, Clone, Copy, PartialEq, Eq)]
pub enum Value {
    Bool(bool),
    Nature(usize),
}

/// The value of `t`, or the message of the first failure met, going left to
/// right and inside out. The predecessor of zero is zero; only the number
/// zero is zero; a successor past the largest machine word fails.
pub open spec fn eval_spec(t: Term) -> Result<Value, Seq<char>>
    decreases t,
{
    match t {
        Term::True => Ok(Value::Bool(true)),
        Term::False => Ok(Value::Bool(false)),
        Term::Zero => Ok(Value::Nature(0)),
        Term::IfThenElse(t1, t2, t3) => match eval_spec(*t1) {
            Err(e) => Err(e),
            Ok(Value::Bool(true)) => eval_spec(*t2),
            Ok(Value::Bool(false)) => eval_spec(*t3),
            Ok(Value::Nature(_)) => Err("non-bool value at if condition"@),
        },
        Term::Succ(t1) => match eval_spec(*t1) {
            Err(e) => Err(e),
            Ok(Value::Nature(n)) => if n < usize::MAX {
                Ok(Value::Nature((n + 1) as usize))
            } else {
                Err("number out of range after succ"@)
            },
            Ok(Value::Bool(_)) => Err("non-number value after succ"@),
        },
        Term::Pred(t1) => match eval_spec(*t1) {
            Err(e) => Err(e),
            Ok(Value::Nature(n)) => if n == 0 {
                Ok(Value::Nature(0))
            } else {
                Ok(Value::Nature((n - 1) as usize))
            },
            Ok(Value::Bool(_)) => Err("non-number value after pred"@),
        },
        Term::IsZero(t1) => match eval_spec(*t1) {
            Err(e) => Err(e),
            Ok(Value::Nature(n)) => Ok(Value::Bool(n == 0)),
            Ok(Value::Bool(_)) => Ok(Value::Bool(false)),
        },
    }
}

/// The mathematical form of what `eval` returns.
pub open spec fn evaluated(r: Result<Value, &'static str>) -> Result<Value, Seq<char>> {
    match r {
        Ok(v) => Ok(v),
        Err(e) => Err(e@),
    }
}

/// Evaluates `t`.
pub fn eval(t: &Term) -> (r: Result<Value, &'static str>)
    ensures
        evaluated(r) == eval_spec(*t),
    decreases t,
{
    match t {
        Term::True => Ok(Value::Bool(true)),
        Term::False => Ok(Value::Bool(false)),
        Term::Zero => Ok(Value::Nature(0)),
        Term::IfThenElse(t1, t2, t3) => match eval(t1) {
            Err(e) => Err(e),
            Ok(Value::Bool(true)) => eval(t2),
            Ok(Value::Bool(false)) => eval(t3),
            Ok(Value::Nature(_)) => Err("non-bool value at if condition"),
        },
        Term::Succ(t1) => match eval(t1) {
            Err(e) => Err(e),
            Ok(Value::Nature(n)) => if n < usize::MAX {
                Ok(Value::Nature(n + 1))
            } else {
                Err("number out of range after succ")
            },
            Ok(Value::Bool(_)) => Err("non-number value after succ"),
        },
        Term::Pred(t1) => match eval(t1) {
            Err(e) => Err(e),
            Ok(Value::Nature(n)) => if n == 0 {
                Ok(Value::Nature(0))
            } else {
                Ok(Value::Nature(n - 1))
            },
            Ok(Value::Bool(_)) => Err("non-number value after pred"),
        },
        Term::IsZero(t1) => match eval(t1) {
            Err(e) => Err(e),
            Ok(Value::Nature(n)) => Ok(Value::Bool(n == 0)),
            Ok(Value::Bool(_)) => Ok(Value::Bool(false)),
        },
    }
}

impl Value {
    /// The text of the value: `true`, `false`, or a decimal numeral.
    pub open spec fn text(self) -> Seq<char> {
        match self {
            Value::Bool(true) => "true"@,
            Value::Bool(false) => "false"@,
            Value::Nature(n) => decimal(n as nat),
        }
    }

    /// The value as it is displayed.
    pub fn to_string(&self) -> (r: String)
        ensures
            r@ == self.text(),
    {
        let mut out = String::new();
        match self {
            Value::Bool(true) => out.append("true"),
            Value::Bool(false) => out.append("false"),
            Value::Nature(n) => write_decimal(&mut out, *n),
        }
        assert(out@ =~= self.text());
        out
    }
}

} // verus!
