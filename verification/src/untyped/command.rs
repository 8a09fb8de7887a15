//! What a command does to the session: the line it reports and the context
//! it leaves.

use crate::untyped::context::{extend, Binder, Context, Frame};
use crate::untyped::eval::{eval, eval_spec, EvalError};
use crate::untyped::print::{pw, render};
use crate::untyped::resolve::{make_dbi, resolve, Ast, Command, Named, ResolveError};
use crate::untyped::term::Lam;
use std::rc::Rc;
use vstd::prelude::*;
use vstd::string::StringExecFns;

verus! {

/// Why a command was dropped.
#[derive(Debug, Clone, PartialEq, Eq)]
pub enum CommandError {
    Resolve(ResolveError),
    Eval(EvalError),
}

/// The mathematical form of a command.
pub ghost enum Request {
    Eval(Named),
    SymbolBind(Seq<char>),
    Bind(Seq<char>, Named),
}

/// The mathematical form of a dropped command.
pub ghost enum Failure {
    Unbound(Seq<char>),
    Eval(EvalError),
}

impl View for Command {
    type V = Request;

    open spec fn view(&self) -> Request {
        match self {
            Command::Eval(ast) => Request::Eval(ast@),
            Command::SymbolBind(name) => Request::SymbolBind(name@),
            Command::Bind(name, ast) => Request::Bind(name@, ast@),
        }
    }
}

impl View for CommandError {
    type V = Failure;

    open spec fn view(&self) -> Failure {
        match self {
            CommandError::Resolve(ResolveError::UnboundIdentifier(name)) => Failure::Unbound(name@),
            CommandError::Eval(e) => Failure::Eval(*e),
        }
    }
}

/// The normal form of `ast` in `ctx`.
pub open spec fn normal_form(ast: Named, ctx: Seq<Frame>, fuel: nat) -> Result<Lam, Failure> {
    match resolve(ast, ctx) {
        Err(name) => Err(Failure::Unbound(name)),
        Ok(t) => match eval_spec(t, ctx, fuel) {
            Err(e) => Err(Failure::Eval(e)),
            Ok(v) => Ok(v),
        },
    }
}

/// The line that a command reports and the context it leaves. A
/// declaration adds a frame without a value; a binding adds a frame with
/// the normal form of its term; an evaluation adds none. A command that
/// fails reports nothing and adds nothing.
pub open spec fn command_spec(cmd: Request, ctx: Seq<Frame>, fuel: nat) -> Result<
    (Seq<char>, Seq<Frame>),
    Failure,
> {
    match cmd {
        Request::SymbolBind(name) => Ok((name + " is bounded"@, extend(ctx, name, None))),
        Request::Bind(name, ast) => match normal_form(ast, ctx, fuel) {
            Err(e) => Err(e),
            Ok(v) => Ok((name + " <- "@ + render(v, ctx), extend(ctx, name, Some(v)))),
        },
        Request::Eval(ast) => match normal_form(ast, ctx, fuel) {
            Err(e) => Err(e),
            Ok(v) => Ok((render(v, ctx), ctx)),
        },
    }
}

/// Carries out `cmd` in `ctx`: returns the line to report and leaves in
/// `ctx` the context for the next command, which is the old one where the
/// command fails.
pub fn do_command(cmd: &Command, ctx: &mut Context, fuel: usize) -> (r: Result<
    String,
    CommandError,
>)
    ensures
        match r {
            Ok(line) => command_spec(cmd@, old(ctx)@, fuel as nat) == Ok::<
                (Seq<char>, Seq<Frame>),
                Failure,
            >((line@, final(ctx)@)),
            Err(e) => command_spec(cmd@, old(ctx)@, fuel as nat) == Err::<
                (Seq<char>, Seq<Frame>),
                Failure,
            >(e@) && final(ctx)@ == old(ctx)@,
        },
{
    match cmd {
        Command::SymbolBind(name) => {
            let next = Context::cons(name, &Binder::NameBind, ctx);
            *ctx = next;
            Ok(name.clone().concat(" is bounded"))
        },
        Command::Bind(name, ast) => match make_dbi(ast, ctx) {
            Err(e) => Err(CommandError::Resolve(e)),
            Ok(t) => match eval(&t, ctx, fuel) {
                Err(e) => Err(CommandError::Eval(e)),
                Ok(v) => {
                    let shown = pw(&v, ctx).to_string();
                    let line = name.clone().concat(" <- ").concat(shown.as_str());
                    let next = Context::cons(name, &Binder::TermBind(Rc::new(v)), ctx);
                    *ctx = next;
                    Ok(line)
                },
            },
        },
        Command::Eval(ast) => match make_dbi(ast, ctx) {
            Err(e) => Err(CommandError::Resolve(e)),
            Ok(t) => match eval(&t, ctx, fuel) {
                Err(e) => Err(CommandError::Eval(e)),
                Ok(v) => Ok(pw(&v, ctx).to_string()),
            },
        },
    }
}

} // verus!
