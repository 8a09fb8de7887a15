//! Laws that relate shifting, substitution, resolution and evaluation.

use crate::untyped::context::{extend, name_to_index, Frame};
use crate::untyped::eval::{eval_spec, EvalError};
use crate::untyped::print::{fresh_name, lemma_fresh_undeclared, named};
use crate::untyped::resolve::{resolve, Named};
use crate::untyped::term::{
    lemma_shift_retract, lemma_shift_shift, lemma_shift_zero, lemma_subst_shifted, Lam,
};
use vstd::prelude::*;

verus! {

/// A term that evaluation leaves as it is: an abstraction, or a variable
/// whose frame binds no value.
pub open spec fn is_value(t: Lam, ctx: Seq<Frame>) -> bool {
    match t {
        Lam::Var(k) => k < ctx.len() && ctx[k as int].value is None,
        Lam::Abs(_, _) => true,
        Lam::App(_, _) => false,
    }
}

/// The term `\x. \y. x`.
pub open spec fn konst(x: Seq<char>, y: Seq<char>) -> Lam {
    Lam::Abs(x, Box::new(Lam::Abs(y, Box::new(Lam::Var(1)))))
}

/// The application of `f` to `a`.
pub open spec fn apply(f: Lam, a: Lam) -> Lam {
    Lam::App(Box::new(f), Box::new(a))
}

/// Shifting by zero changes nothing.
pub proof fn law_shift_zero(t: Lam)
    ensures
        t.shift(0) == t,
{
    lemma_shift_zero(t, 0);
}

/// Shifting by `a` and then by `b` is shifting by `a + b`, where the first
/// shift lowers no free index below zero.
pub proof fn law_shift_compose(t: Lam, a: int, b: int)
    requires
        t.stays_free(0, a),
    ensures
        t.shift(a).shift(b) == t.shift(a + b),
{
    lemma_shift_shift(t, 0, a, b);
}

/// A value evaluates to itself, whatever the fuel.
pub proof fn law_value_is_normal(v: Lam, ctx: Seq<Frame>, fuel: nat)
    requires
        is_value(v, ctx),
    ensures
        eval_spec(v, ctx, fuel) == Ok::<Lam, EvalError>(v),
{
}

/// Binding a value `v` whose indices leave room for one shift to the
/// parameter of `\y. x` under `\x` gives `\y. v'`, with `v'` the value
/// shifted past `y`.
pub proof fn law_konst_first(x: Seq<char>, y: Seq<char>, v: Lam, ctx: Seq<Frame>, fuel: nat)
    requires
        is_value(v, ctx),
        v.shift_fits(0, 1),
        fuel >= 1,
    ensures
        eval_spec(apply(konst(x, y), v), ctx, fuel) == Ok::<Lam, EvalError>(
            Lam::Abs(y, Box::new(v.shift(1))),
        ),
{
    let inner = Lam::Abs(y, Box::new(Lam::Var(1)));
    lemma_shift_shift(v, 0, 1, 1);
    lemma_shift_retract(v, 0, 1);
    assert(Lam::Var(1).subst_at(1, 0, v.shift(1)) == v.shift(1).shift(1));
    assert(inner.subst_top(v) == Lam::Abs(y, Box::new(v.shift(1))));
    assert(Lam::Var(1).subst_fits(1, 0, v));
    assert(inner.subst_fits(0, 0, v));
    assert(eval_spec(konst(x, y), ctx, fuel) == Ok::<Lam, EvalError>(konst(x, y)));
    assert(eval_spec(v, ctx, fuel) == Ok::<Lam, EvalError>(v));
    assert(eval_spec(inner.subst_top(v), ctx, (fuel - 1) as nat) == Ok::<Lam, EvalError>(
        inner.subst_top(v),
    ));
}

/// `(\x. \y. x) v w` evaluates to `v`, for all values `v` and `w`.
pub proof fn law_konst(
    x: Seq<char>,
    y: Seq<char>,
    v: Lam,
    w: Lam,
    ctx: Seq<Frame>,
    fuel: nat,
)
    requires
        is_value(v, ctx),
        is_value(w, ctx),
        v.shift_fits(0, 1),
        fuel >= 1,
    ensures
        eval_spec(apply(apply(konst(x, y), v), w), ctx, fuel) == Ok::<Lam, EvalError>(v),
{
    law_konst_first(x, y, v, ctx, fuel);
    lemma_subst_shifted(v, 0, w.shift(1));
    lemma_subst_shifted(v, 0, w);
    lemma_shift_shift(v, 0, 1, -1);
    lemma_shift_zero(v, 0);
    assert(v.shift(1).subst_top(w) == v);
    assert(eval_spec(w, ctx, fuel) == Ok::<Lam, EvalError>(w));
    assert(eval_spec(v, ctx, (fuel - 1) as nat) == Ok::<Lam, EvalError>(v));
}

/// The nearest frame named `name` lies just behind `more`, where no frame
/// of `more` carries that name.
pub proof fn lemma_lookup_behind(
    more: Seq<Frame>,
    ctx: Seq<Frame>,
    name: Seq<char>,
    value: Option<Lam>,
)
    requires
        forall|i: int| 0 <= i < more.len() ==> (#[trigger] more[i]).name != name,
    ensures
        name_to_index(more + extend(ctx, name, value), name) == Some(more.len()),
    decreases more.len(),
{
    let full = more + extend(ctx, name, value);
    if more.len() == 0 {
        assert(full[0].name == name);
    } else {
        assert(full[0] == more[0]);
        assert(full.drop_first() =~= more.drop_first() + extend(ctx, name, value));
        assert forall|i: int| 0 <= i < more.drop_first().len() implies (
        #[trigger] more.drop_first()[i]).name != name by {
            assert(more.drop_first()[i] == more[i + 1]);
        }
        lemma_lookup_behind(more.drop_first(), ctx, name, value);
    }
}

/// A name bound to `v`, referred to after the frames `more` were added,
/// resolves to the index `more.len()` and evaluates to `v` shifted past
/// those frames and its own.
pub proof fn law_bound_name(
    name: Seq<char>,
    v: Lam,
    ctx: Seq<Frame>,
    more: Seq<Frame>,
    fuel: nat,
)
    requires
        forall|i: int| 0 <= i < more.len() ==> (#[trigger] more[i]).name != name,
        more.len() < usize::MAX,
        v.shift_fits(0, more.len() + 1),
    ensures
        resolve(Named::Id(name), more + extend(ctx, name, Some(v))) == Ok::<Lam, Seq<char>>(
            Lam::Var(more.len()),
        ),
        eval_spec(Lam::Var(more.len()), more + extend(ctx, name, Some(v)), fuel) == Ok::<
            Lam,
            EvalError,
        >(v.shift(more.len() as int + 1)),
{
    lemma_lookup_behind(more, ctx, name, Some(v));
    let full = more + extend(ctx, name, Some(v));
    assert(full[more.len() as int] == Frame { name, value: Some(v) });
}

/// No two frames carry the same name.
pub open spec fn distinct(ctx: Seq<Frame>) -> bool {
    forall|i: int, j: int| 0 <= i < j < ctx.len() ==> (#[trigger] ctx[i]).name != (#[trigger] ctx[j]).name
}

/// A name that is found is found at a frame that carries it.
pub proof fn lemma_found_in_range(ctx: Seq<Frame>, name: Seq<char>)
    ensures
        match name_to_index(ctx, name) {
            Some(i) => i < ctx.len() && ctx[i as int].name == name,
            None => forall|i: int| 0 <= i < ctx.len() ==> (#[trigger] ctx[i]).name != name,
        },
    decreases ctx.len(),
{
    if ctx.len() > 0 && ctx[0].name != name {
        lemma_found_in_range(ctx.drop_first(), name);
        let rest = ctx.drop_first();
        if name_to_index(rest, name) is None {
            assert forall|i: int| 0 <= i < ctx.len() implies (#[trigger] ctx[i]).name != name by {
                if i > 0 {
                    assert(rest[i - 1] == ctx[i]);
                }
            }
        }
    }
}

/// Among distinct names, the name of frame `k` is found at `k`.
pub proof fn lemma_distinct_lookup(ctx: Seq<Frame>, k: nat)
    requires
        distinct(ctx),
        k < ctx.len(),
    ensures
        name_to_index(ctx, ctx[k as int].name) == Some(k),
    decreases ctx.len(),
{
    if k > 0 {
        let rest = ctx.drop_first();
        assert(ctx[0].name != ctx[k as int].name);
        assert forall|i: int, j: int| 0 <= i < j < rest.len() implies (#[trigger] rest[i]).name != (
        #[trigger] rest[j]).name by {
            assert(rest[i] == ctx[i + 1]);
            assert(rest[j] == ctx[j + 1]);
        }
        assert(rest[k - 1] == ctx[k as int]);
        lemma_distinct_lookup(rest, (k - 1) as nat);
    }
}

/// A term printed with names and resolved again is the term it was, up to
/// the display names of its binders. This holds in a context of distinct
/// names that has a frame for every free index, where context and binders
/// together stay within machine range.
pub proof fn law_named_resolves_back(t: Lam, ctx: Seq<Frame>)
    requires
        distinct(ctx),
        t.closed_below(ctx.len()),
        ctx.len() + t.depth() <= usize::MAX + 1,
    ensures
        match resolve(named(t, ctx), ctx) {
            Ok(u) => u.erase() == t.erase(),
            Err(_) => false,
        },
    decreases t,
{
    match t {
        Lam::Var(k) => {
            lemma_distinct_lookup(ctx, k);
        },
        Lam::Abs(x, b) => {
            let fresh = fresh_name(ctx, x);
            let inner = extend(ctx, fresh, None);
            lemma_fresh_undeclared(ctx, x);
            lemma_found_in_range(ctx, fresh);
            assert forall|i: int, j: int| 0 <= i < j < inner.len() implies (#[trigger] inner[i]).name
                != (#[trigger] inner[j]).name by {
                assert(inner[j] == ctx[j - 1]);
                if i > 0 {
                    assert(inner[i] == ctx[i - 1]);
                }
            }
            law_named_resolves_back(*b, inner);
        },
        Lam::App(f, a) => {
            law_named_resolves_back(*f, ctx);
            law_named_resolves_back(*a, ctx);
        },
    }
}

/// A resolved term holds no index past the last frame of the context it
/// was resolved in.
pub proof fn law_resolved_is_closed(ast: Named, ctx: Seq<Frame>)
    ensures
        match resolve(ast, ctx) {
            Ok(t) => t.closed_below(ctx.len()),
            Err(_) => true,
        },
    decreases ast,
{
    match ast {
        Named::Id(name) => lemma_found_in_range(ctx, name),
        Named::Abs(var, body) => law_resolved_is_closed(*body, extend(ctx, var, None)),
        Named::App(f, a) => {
            law_resolved_is_closed(*f, ctx);
            law_resolved_is_closed(*a, ctx);
        },
    }
}

/// Each bound value refers only to the frames behind its own.
pub open spec fn values_closed(ctx: Seq<Frame>) -> bool {
    forall|i: int|
        0 <= i < ctx.len() ==> match (#[trigger] ctx[i]).value {
            Some(v) => v.closed_below((ctx.len() - i - 1) as nat),
            None => true,
        }
}

/// Shifting up by `d` raises the bound on the free indices by `d`.
pub proof fn lemma_shift_closed(t: Lam, c: nat, d: nat, n: nat)
    requires
        t.closed_below(n),
    ensures
        t.shift_above(c, d as int).closed_below(n + d),
    decreases t,
{
    match t {
        Lam::Var(_) => {},
        Lam::Abs(_, b) => lemma_shift_closed(*b, c + 1, d, n + 1),
        Lam::App(f, a) => {
            lemma_shift_closed(*f, c, d, n);
            lemma_shift_closed(*a, c, d, n);
        },
    }
}

/// Binding the parameter consumes one binder: a body with free indices
/// below `n + 1`, given an argument with free indices below `n`, becomes a
/// term with free indices below `n`. Stated below `c` binders.
pub proof fn lemma_beta_closed(body: Lam, c: nat, v: Lam, n: nat)
    requires
        body.closed_below(n + 1 + c),
        v.closed_below(n),
    ensures
        body.beta_at(c, v).closed_below(n + c),
    decreases body,
{
    match body {
        Lam::Var(k) => {
            if k == c {
                lemma_shift_shift(v, 0, 1, c as int);
                lemma_shift_retract(v, 0, c);
                lemma_shift_closed(v, 0, c, n);
            }
        },
        Lam::Abs(_, b) => lemma_beta_closed(*b, c + 1, v, n),
        Lam::App(f, a) => {
            lemma_beta_closed(*f, c, v, n);
            lemma_beta_closed(*a, c, v, n);
        },
    }
}

/// Evaluation never leaves the context: where every index of the term and
/// of the bound values has a frame, no index is ever found bad, and the
/// result again has a frame for every index.
pub proof fn law_closed_stays_closed(t: Lam, ctx: Seq<Frame>, fuel: nat)
    requires
        values_closed(ctx),
        t.closed_below(ctx.len()),
    ensures
        match eval_spec(t, ctx, fuel) {
            Ok(u) => u.closed_below(ctx.len()),
            Err(e) => !(e is BadIndex),
        },
    decreases fuel, t,
{
    match t {
        Lam::Var(k) => {
            match ctx[k as int].value {
                Some(v) => lemma_shift_closed(v, 0, k + 1, (ctx.len() - k - 1) as nat),
                None => {},
            }
        },
        Lam::Abs(_, _) => {},
        Lam::App(f, a) => {
            law_closed_stays_closed(*f, ctx, fuel);
            match eval_spec(*f, ctx, fuel) {
                Ok(Lam::Abs(_, body)) => {
                    law_closed_stays_closed(*a, ctx, fuel);
                    match eval_spec(*a, ctx, fuel) {
                        Ok(v) => {
                            if body.subst_fits(0, 0, v) && fuel > 0 {
                                lemma_beta_closed(*body, 0, v, ctx.len());
                                law_closed_stays_closed(
                                    body.subst_top(v),
                                    ctx,
                                    (fuel - 1) as nat,
                                );
                            }
                        },
                        Err(_) => {},
                    }
                },
                _ => {},
            }
        },
    }
}

/// A name that no frame carries does not resolve, and the failure names
/// it.
pub proof fn law_unbound_identifier(name: Seq<char>, ctx: Seq<Frame>)
    requires
        name_to_index(ctx, name) is None,
    ensures
        resolve(Named::Id(name), ctx) == Err::<Lam, Seq<char>>(name),
{
}

/// An index with no frame in the context does not evaluate, and the
/// failure names it.
pub proof fn law_bad_index(k: usize, ctx: Seq<Frame>, fuel: nat)
    requires
        k >= ctx.len(),
    ensures
        eval_spec(Lam::Var(k as nat), ctx, fuel) == Err::<Lam, EvalError>(EvalError::BadIndex(k)),
{
}

} // verus!
