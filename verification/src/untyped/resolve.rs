//! Surface terms and their resolution into de Bruijn form.

use crate::untyped::context::{
    extend, machine_index, name2index, name_to_index, Binder, Context, Frame,
};
use crate::untyped::term::{Lam, Term};
use std::rc::Rc;
use vstd::prelude::*;

verus! {

/// A term as written, with named variables.
#[derive(Debug, Clone, PartialEq, Eq)]
pub enum Ast {
    ID(String),
    Abs { var: String, expr: Rc<Ast> },
    App(Rc<Ast>, Rc<Ast>),
}

/// What a line of input asks for.
#[derive(Debug)]
pub enum Command {
    Eval(Ast),
    SymbolBind(String),
    Bind(String, Ast),
}

/// The mathematical form of a surface term.
pub ghost enum Named {
    Id(Seq<char>),
    Abs(Seq<char>, Box<Named>),
    App(Box<Named>, Box<Named>),
}

/// Why a surface term has no internal form.
#[derive(Debug, Clone, PartialEq, Eq)]
pub enum ResolveError {
    /// No frame of the context carries this name.
    UnboundIdentifier(String),
}

impl View for Ast {
    type V = Named;

    open spec fn view(&self) -> Named
        decreases self,
    {
        match self {
            Ast::ID(name) => Named::Id(name@),
            Ast::Abs { var, expr } => Named::Abs(var@, Box::new((**expr).view())),
            Ast::App(a1, a2) => Named::App(Box::new((**a1).view()), Box::new((**a2).view())),
        }
    }
}

/// The internal form of `ast` in `ctx`, or the first name, left to right,
/// that `ctx` and the binders around it do not declare.
pub open spec fn resolve(ast: Named, ctx: Seq<Frame>) -> Result<Lam, Seq<char>>
    decreases ast,
{
    match ast {
        Named::Id(name) => match machine_index(name_to_index(ctx, name)) {
            Some(i) => Ok(Lam::Var(i as nat)),
            None => Err(name),
        },
        Named::Abs(var, body) => match resolve(*body, extend(ctx, var, None)) {
            Ok(t) => Ok(Lam::Abs(var, Box::new(t))),
            Err(name) => Err(name),
        },
        Named::App(f, a) => match resolve(*f, ctx) {
            Ok(tf) => match resolve(*a, ctx) {
                Ok(ta) => Ok(Lam::App(Box::new(tf), Box::new(ta))),
                Err(name) => Err(name),
            },
            Err(name) => Err(name),
        },
    }
}

/// The mathematical form of what `make_dbi` returns.
pub open spec fn resolved(r: Result<Term, ResolveError>) -> Result<Lam, Seq<char>> {
    match r {
        Ok(t) => Ok(t@),
        Err(ResolveError::UnboundIdentifier(name)) => Err(name@),
    }
}

/// Replaces each name in `ast` by the distance to its binder, looking first
/// at the abstractions around the occurrence and then at `ctx`. Fails with
/// the first name that is declared nowhere.
pub fn make_dbi(ast: &Ast, ctx: &Context) -> (r: Result<Term, ResolveError>)
    ensures
        resolved(r) == resolve(ast@, ctx@),
    decreases ast,
{
    match ast {
        Ast::ID(name) => match name2index(name, ctx) {
            Some(idx) => Ok(Term::Var(idx)),
            None => Err(ResolveError::UnboundIdentifier(name.clone())),
        },
        Ast::Abs { var, expr } => {
            let inner = Context::cons(var, &Binder::NameBind, ctx);
            match make_dbi(expr, &inner) {
                Ok(body) => Ok(Term::abs(var, body)),
                Err(e) => Err(e),
            }
        },
        Ast::App(a1, a2) => match make_dbi(a1, ctx) {
            Ok(t1) => match make_dbi(a2, ctx) {
                Ok(t2) => Ok(Term::app(t1, t2)),
                Err(e) => Err(e),
            },
            Err(e) => Err(e),
        },
    }
}

} // verus!
