//! Rendering of internal terms in named notation.

use crate::text::{decimal, write_decimal};
use crate::untyped::context::{
    extend, index2bind, machine_index, name2index, name_to_index, Binder, Context, Frame,
};
use crate::untyped::resolve::Named;
use crate::untyped::term::{Lam, Term};
use vstd::prelude::*;
use vstd::string::StringExecFns;

verus! {

/// How many frames carry a name of at least `n` characters.
pub open spec fn count_long(ctx: Seq<Frame>, n: nat) -> nat
    decreases ctx.len(),
{
    if ctx.len() == 0 {
        0
    } else {
        count_long(ctx.drop_first(), n) + if ctx[0].name.len() >= n {
            1nat
        } else {
            0nat
        }
    }
}

/// Whether a frame of `ctx` within machine range carries `name`.
pub open spec fn declared(ctx: Seq<Frame>, name: Seq<char>) -> bool {
    machine_index(name_to_index(ctx, name)) is Some
}

/// `var` followed by as many primes as it takes to be declared nowhere in
/// `ctx`, and no more.
pub open spec fn fresh_name(ctx: Seq<Frame>, var: Seq<char>) -> Seq<char>
    decreases count_long(ctx, var.len()),
    via fresh_name_decreases
{
    if declared(ctx, var) {
        fresh_name(ctx, var.push('\''))
    } else {
        var
    }
}

#[via_fn]
proof fn fresh_name_decreases(ctx: Seq<Frame>, var: Seq<char>) {
    if declared(ctx, var) {
        lemma_found_is_counted(ctx, var);
    }
}

/// Fewer names have at least `n + 1` characters than have at least `n`.
proof fn lemma_count_long_falls(ctx: Seq<Frame>, n: nat)
    ensures
        count_long(ctx, n + 1) <= count_long(ctx, n),
    decreases ctx.len(),
{
    if ctx.len() > 0 {
        lemma_count_long_falls(ctx.drop_first(), n);
    }
}

/// A name that some frame carries is counted among the names of its
/// length, and not among the longer ones.
proof fn lemma_found_is_counted(ctx: Seq<Frame>, name: Seq<char>)
    requires
        name_to_index(ctx, name) is Some,
    ensures
        count_long(ctx, name.len() + 1) < count_long(ctx, name.len()),
    decreases ctx.len(),
{
    if ctx[0].name == name {
        lemma_count_long_falls(ctx.drop_first(), name.len());
    } else {
        lemma_found_is_counted(ctx.drop_first(), name);
    }
}

/// The fresh name is declared nowhere in `ctx`.
pub proof fn lemma_fresh_undeclared(ctx: Seq<Frame>, var: Seq<char>)
    ensures
        !declared(ctx, fresh_name(ctx, var)),
    decreases count_long(ctx, var.len()),
{
    if declared(ctx, var) {
        lemma_found_is_counted(ctx, var);
        lemma_fresh_undeclared(ctx, var.push('\''));
    }
}

/// What is printed for index `k`: the name of its frame, or a marker where
/// `ctx` has no such frame.
pub open spec fn var_text(ctx: Seq<Frame>, k: nat) -> Seq<char> {
    if k < ctx.len() {
        ctx[k as int].name
    } else {
        "[bad index "@ + decimal(k) + "]"@
    }
}

/// The term with its indices replaced by names: each binder gets a name
/// that no frame around it carries.
pub open spec fn named(t: Lam, ctx: Seq<Frame>) -> Named
    decreases t,
{
    match t {
        Lam::Var(k) => Named::Id(var_text(ctx, k)),
        Lam::Abs(x, b) => {
            let fresh = fresh_name(ctx, x);
            Named::Abs(fresh, Box::new(named(*b, extend(ctx, fresh, None))))
        },
        Lam::App(f, a) => Named::App(Box::new(named(*f, ctx)), Box::new(named(*a, ctx))),
    }
}

/// `s` between round brackets.
pub open spec fn bracketed(s: Seq<char>) -> Seq<char> {
    "("@ + s + ")"@
}

/// The text of a surface term. Application associates to the left and the
/// body of an abstraction reaches as far right as it can, so a function is
/// bracketed where it is an abstraction, and an argument where it is
/// anything but a name.
pub open spec fn show(n: Named) -> Seq<char>
    decreases n,
{
    match n {
        Named::Id(x) => x,
        Named::Abs(x, b) => "\u{3bb}"@ + x + ". "@ + show(*b),
        Named::App(f, a) => {
            let left = if *f is Abs {
                bracketed(show(*f))
            } else {
                show(*f)
            };
            let right = if *a is Id {
                show(*a)
            } else {
                bracketed(show(*a))
            };
            left + " "@ + right
        },
    }
}

/// The text of `t` in `ctx`.
pub open spec fn render(t: Lam, ctx: Seq<Frame>) -> Seq<char> {
    show(named(t, ctx))
}

/// Appends what is printed for index `idx`.
fn write_var(out: &mut String, idx: usize, ctx: &Context)
    ensures
        final(out)@ == old(out)@ + var_text(ctx@, idx as nat),
{
    match index2bind(ctx, idx) {
        Some((name, _)) => out.append(name.as_str()),
        None => {
            out.append("[bad index ");
            write_decimal(out, idx);
            out.append("]");
            assert(final(out)@ =~= old(out)@ + var_text(ctx@, idx as nat));
        },
    }
}

/// The name that an abstraction with display name `var` is printed with in
/// `ctx`: `var` with primes added until no frame carries it.
pub fn get_freshname(var: &String, ctx: &Context) -> (r: String)
    ensures
        r@ == fresh_name(ctx@, var@),
        !declared(ctx@, r@),
{
    let mut candidate = var.clone();
    loop
        invariant
            fresh_name(ctx@, candidate@) == fresh_name(ctx@, var@),
        decreases count_long(ctx@, candidate@.len()),
    {
        match name2index(&candidate, ctx) {
            None => {
                return candidate;
            },
            Some(_) => {
                proof {
                    reveal_strlit("'");
                    lemma_found_is_counted(ctx@, candidate@);
                    assert(candidate@ + "'"@ =~= candidate@.push('\''));
                }
                candidate.append("'");
            },
        }
    }
}

/// Appends the text of `t` in `ctx`.
fn write_term(out: &mut String, t: &Term, ctx: &Context)
    ensures
        final(out)@ == old(out)@ + render(t@, ctx@),
    decreases t,
{
    match t {
        Term::Var(idx) => write_var(out, *idx, ctx),
        Term::Abs { var, expr } => {
            let fresh = get_freshname(var, ctx);
            out.append("\u{3bb}");
            out.append(fresh.as_str());
            out.append(". ");
            let inner = Context::cons(&fresh, &Binder::NameBind, ctx);
            write_term(out, expr, &inner);
            assert(final(out)@ =~= old(out)@ + render(t@, ctx@));
        },
        Term::App(t1, t2) => {
            if t1.is_abs() {
                out.append("(");
                write_term(out, t1, ctx);
                out.append(")");
            } else {
                write_term(out, t1, ctx);
            }
            out.append(" ");
            if t2.is_var() {
                write_term(out, t2, ctx);
            } else {
                out.append("(");
                write_term(out, t2, ctx);
                out.append(")");
            }
            assert(final(out)@ =~= old(out)@ + render(t@, ctx@));
        },
    }
}

/// A term together with the context to print it in.
#[allow(non_camel_case_types)]
#[derive(Clone, Copy)]
pub struct pw<'a, 'b>(pub &'a Term, pub &'b Context);

impl<'a, 'b> pw<'a, 'b> {
    /// The term in named notation: each variable by the name of its frame,
    /// each binder by a name that shadows nothing, brackets only where the
    /// grammar needs them.
    pub fn to_string(&self) -> (r: String)
        ensures
            r@ == render(self.0@, self.1@),
    {
        let mut out = String::new();
        write_term(&mut out, self.0, self.1);
        assert(out@ =~= render(self.0@, self.1@));
        out
    }
}

} // verus!
