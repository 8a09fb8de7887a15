//! Call-by-value evaluation to weak head normal form.

use crate::untyped::context::{index2bind, Binder, Context, Frame};
use crate::untyped::term::{share, Lam, Term};
use std::rc::Rc;
use vstd::prelude::*;

verus! {

/// Why an evaluation gave no term.
#[derive(Debug, Clone, Copy, PartialEq, Eq)]
pub enum EvalError {
    /// The term holds an index that the context has no frame for.
    BadIndex(usize),
    /// An index grew past the largest machine word.
    IndexOverflow,
    /// More nested reductions were needed than the caller allowed.
    StepLimit,
}

/// The term that `t` reduces to in `ctx`, where each reduction of a redex
/// may be followed by at most `fuel` further ones nested in its result.
pub open spec fn eval_spec(t: Lam, ctx: Seq<Frame>, fuel: nat) -> Result<Lam, EvalError>
    decreases fuel, t,
{
    match t {
        Lam::Var(k) => if k < ctx.len() {
            match ctx[k as int].value {
                None => Ok(t),
                Some(v) => if k < usize::MAX && v.shift_fits(0, k + 1) {
                    Ok(v.shift(k as int + 1))
                } else {
                    Err(EvalError::IndexOverflow)
                },
            }
        } else {
            Err(EvalError::BadIndex(k as usize))
        },
        Lam::Abs(_, _) => Ok(t),
        Lam::App(f, a) => match eval_spec(*f, ctx, fuel) {
            Err(e) => Err(e),
            Ok(Lam::Abs(_, body)) => match eval_spec(*a, ctx, fuel) {
                Err(e) => Err(e),
                Ok(v) => if !body.subst_fits(0, 0, v) {
                    Err(EvalError::IndexOverflow)
                } else if fuel == 0 {
                    Err(EvalError::StepLimit)
                } else {
                    eval_spec(body.subst_top(v), ctx, (fuel - 1) as nat)
                },
            },
            Ok(g) => Ok(Lam::App(Box::new(g), a)),
        },
    }
}

/// The mathematical form of what `eval` returns.
pub open spec fn evaluated(r: Result<Term, EvalError>) -> Result<Lam, EvalError> {
    match r {
        Ok(t) => Ok(t@),
        Err(e) => Err(e),
    }
}

/// Reduces `t` in `ctx` by value: a variable bound to a value becomes that
/// value, shifted past the frames added since; an application whose
/// function reduces to an abstraction is reduced in full; nothing is
/// reduced under a binder, nor in the argument of a stuck application.
/// `fuel` bounds how many reductions may follow one another, each in the
/// result of the one before; a term that needs more gives `StepLimit`.
pub fn eval(t: &Term, ctx: &Context, fuel: usize) -> (r: Result<Term, EvalError>)
    ensures
        evaluated(r) == eval_spec(t@, ctx@, fuel as nat),
    decreases fuel, t,
{
    match t {
        Term::Var(idx) => match index2bind(ctx, *idx) {
            Some((_, Binder::NameBind)) => Ok(Term::Var(*idx)),
            Some((_, Binder::TermBind(bound))) => {
                if *idx == usize::MAX {
                    Err(EvalError::IndexOverflow)
                } else {
                    match bound.shift_above(0, *idx + 1) {
                        Some(v) => Ok(v),
                        None => Err(EvalError::IndexOverflow),
                    }
                }
            },
            None => Err(EvalError::BadIndex(*idx)),
        },
        Term::Abs { .. } => Ok(t.duplicate()),
        Term::App(t1, t2) => match eval(t1, ctx, fuel) {
            Err(e) => Err(e),
            Ok(f) => {
                if let Term::Abs { var: _, expr } = &f {
                    match eval(t2, ctx, fuel) {
                        Err(e) => Err(e),
                        Ok(v) => match expr.subst_top_above(0, &v) {
                            None => Err(EvalError::IndexOverflow),
                            Some(next) => if fuel == 0 {
                                Err(EvalError::StepLimit)
                            } else {
                                eval(&next, ctx, fuel - 1)
                            },
                        },
                    }
                } else {
                    Ok(Term::App(Rc::new(f), share(t2)))
                }
            },
        },
    }
}

} // verus!
