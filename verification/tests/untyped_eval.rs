use lambdacalc::untyped::{
    do_command, eval, make_dbi, pw, Ast, Binder, Command, CommandError, Context, EvalError,
    ResolveError, Term,
};
use std::rc::Rc;

fn s(x: &str) -> String {
    x.to_string()
}

fn lam(x: &str, body: Term) -> Term {
    Term::abs(&s(x), body)
}

fn id(x: &str) -> Ast {
    Ast::ID(s(x))
}

fn fun(x: &str, body: Ast) -> Ast {
    Ast::Abs { var: s(x), expr: Rc::new(body) }
}

fn call(f: Ast, a: Ast) -> Ast {
    Ast::App(Rc::new(f), Rc::new(a))
}

#[test]
fn resolve_counts_binders() {
    let ast = fun("x", fun("y", call(id("x"), call(id("y"), id("x")))));
    let want = lam("x", lam("y", Term::app(Term::Var(1), Term::app(Term::Var(0), Term::Var(1)))));
    assert_eq!(make_dbi(&ast, &Context::new()), Ok(want));
}

#[test]
fn resolve_sees_the_context_behind_binders() {
    let ctx = Context::cons(&s("a"), &Binder::NameBind, &Context::new());
    let ctx = Context::cons(&s("b"), &Binder::NameBind, &ctx);
    let ast = call(fun("x", call(id("a"), id("x"))), id("b"));
    let want = Term::app(lam("x", Term::app(Term::Var(2), Term::Var(0))), Term::Var(0));
    assert_eq!(make_dbi(&ast, &ctx), Ok(want));
}

#[test]
fn resolve_shadowing_takes_the_inner_binder() {
    let ast = fun("x", fun("x", id("x")));
    assert_eq!(make_dbi(&ast, &Context::new()), Ok(lam("x", lam("x", Term::Var(0)))));
}

#[test]
fn undeclared_identifier_is_reported() {
    let ast = fun("x", call(id("x"), call(id("p"), id("q"))));
    assert_eq!(
        make_dbi(&ast, &Context::new()),
        Err(ResolveError::UnboundIdentifier(s("p")))
    );
    assert_eq!(
        make_dbi(&call(id("q"), fun("q", id("q"))), &Context::new()),
        Err(ResolveError::UnboundIdentifier(s("q")))
    );
}

#[test]
fn index_without_frame_is_reported() {
    assert_eq!(eval(&Term::Var(0), &Context::new(), 10), Err(EvalError::BadIndex(0)));
    let ctx = Context::cons(&s("a"), &Binder::NameBind, &Context::new());
    assert_eq!(eval(&Term::Var(3), &ctx, 10), Err(EvalError::BadIndex(3)));
    let t = Term::app(lam("x", Term::Var(0)), Term::Var(5));
    assert_eq!(eval(&t, &ctx, 10), Err(EvalError::BadIndex(5)));
}

#[test]
fn identity_applied_to_identity() {
    let t = Term::app(lam("x", Term::Var(0)), lam("y", Term::Var(0)));
    assert_eq!(eval(&t, &Context::new(), 1), Ok(lam("y", Term::Var(0))));
}

#[test]
fn konst_keeps_its_first_argument() {
    let ctx = Context::cons(&s("a"), &Binder::NameBind, &Context::new());
    let ctx = Context::cons(&s("b"), &Binder::NameBind, &ctx);
    let k = lam("x", lam("y", Term::Var(1)));
    let v = lam("z", Term::app(Term::Var(0), Term::Var(2)));
    let w = lam("u", Term::Var(0));
    let first = eval(&Term::app(k.clone(), v.clone()), &ctx, 5).unwrap();
    assert_eq!(first, lam("y", lam("z", Term::app(Term::Var(0), Term::Var(3)))));
    assert_eq!(eval(&Term::app(first, w.clone()), &ctx, 5), Ok(v.clone()));
    assert_eq!(eval(&Term::app(Term::app(k.clone(), v.clone()), w), &ctx, 5), Ok(v));
    let free = Term::Var(1);
    assert_eq!(
        eval(&Term::app(Term::app(k, free.clone()), Term::Var(0)), &ctx, 5),
        Ok(free)
    );
}

#[test]
fn abstraction_is_not_reduced_inside() {
    let t = lam("x", Term::app(lam("y", Term::Var(0)), Term::Var(0)));
    assert_eq!(eval(&t, &Context::new(), 5), Ok(t.clone()));
    assert_eq!(eval(&t, &Context::new(), 0), Ok(t));
}

#[test]
fn stuck_application_keeps_its_argument() {
    let ctx = Context::cons(&s("f"), &Binder::NameBind, &Context::new());
    let redex = Term::app(lam("x", Term::Var(0)), lam("y", Term::Var(0)));
    let t = Term::app(Term::Var(0), redex.clone());
    assert_eq!(eval(&t, &ctx, 5), Ok(Term::app(Term::Var(0), redex)));
    let bad = Term::app(Term::Var(0), Term::Var(9));
    assert_eq!(eval(&bad, &ctx, 5), Ok(bad.clone()));
}

#[test]
fn bound_variable_is_shifted_past_later_frames() {
    let ctx = Context::cons(&s("a"), &Binder::NameBind, &Context::new());
    let value = lam("x", Term::app(Term::Var(0), Term::Var(1)));
    let ctx = Context::cons(&s("v"), &Binder::TermBind(Rc::new(value)), &ctx);
    assert_eq!(
        eval(&Term::Var(0), &ctx, 5),
        Ok(lam("x", Term::app(Term::Var(0), Term::Var(2))))
    );
    let ctx = Context::cons(&s("b"), &Binder::NameBind, &ctx);
    let ctx = Context::cons(&s("c"), &Binder::NameBind, &ctx);
    assert_eq!(
        eval(&Term::Var(2), &ctx, 5),
        Ok(lam("x", Term::app(Term::Var(0), Term::Var(4))))
    );
    assert_eq!(eval(&Term::Var(1), &ctx, 5), Ok(Term::Var(1)));
}

#[test]
fn diverging_term_runs_out_of_steps() {
    let half = lam("x", Term::app(Term::Var(0), Term::Var(0)));
    let omega = Term::app(half.clone(), half);
    assert_eq!(eval(&omega, &Context::new(), 0), Err(EvalError::StepLimit));
    assert_eq!(eval(&omega, &Context::new(), 50), Err(EvalError::StepLimit));
}

#[test]
fn index_growth_past_machine_word_is_reported() {
    let ctx = Context::cons(
        &s("v"),
        &Binder::TermBind(Rc::new(Term::Var(usize::MAX))),
        &Context::new(),
    );
    assert_eq!(eval(&Term::Var(0), &ctx, 5), Err(EvalError::IndexOverflow));
    let t = Term::app(lam("x", lam("y", Term::Var(1))), lam("z", Term::Var(usize::MAX)));
    assert_eq!(eval(&t, &Context::new(), 5), Err(EvalError::IndexOverflow));
}

#[test]
fn nested_redexes_reduce_in_full() {
    let ast = call(
        call(fun("f", fun("a", call(id("f"), id("a")))), fun("x", id("x"))),
        fun("k", id("k")),
    );
    let t = make_dbi(&ast, &Context::new()).unwrap();
    assert_eq!(eval(&t, &Context::new(), 3), Ok(lam("k", Term::Var(0))));
    assert_eq!(eval(&t, &Context::new(), 1), Err(EvalError::StepLimit));
}

#[test]
fn binding_then_reference_gives_the_stored_value() {
    let mut ctx = Context::new();
    let line = do_command(&Command::SymbolBind(s("a")), &mut ctx, 10).unwrap();
    assert_eq!(line, "a is bounded");
    let bind = Command::Bind(s("v"), fun("x", call(id("x"), id("a"))));
    let line = do_command(&bind, &mut ctx, 10).unwrap();
    assert_eq!(line, "v <- \u{3bb}x. x a");
    do_command(&Command::SymbolBind(s("b")), &mut ctx, 10).unwrap();
    let t = make_dbi(&id("v"), &ctx).unwrap();
    assert_eq!(t, Term::Var(1));
    assert_eq!(
        eval(&t, &ctx, 10),
        Ok(lam("x", Term::app(Term::Var(0), Term::Var(3))))
    );
    let line = do_command(&Command::Eval(id("v")), &mut ctx, 10).unwrap();
    assert_eq!(line, "\u{3bb}x. x a");
    let line = do_command(&Command::Eval(call(id("v"), id("b"))), &mut ctx, 10).unwrap();
    assert_eq!(line, "b a");
}

#[test]
fn failed_command_leaves_the_context() {
    let mut ctx = Context::new();
    do_command(&Command::SymbolBind(s("a")), &mut ctx, 10).unwrap();
    let r = do_command(&Command::Bind(s("v"), id("nope")), &mut ctx, 10);
    assert_eq!(r, Err(CommandError::Resolve(ResolveError::UnboundIdentifier(s("nope")))));
    assert!(make_dbi(&id("v"), &ctx).is_err());
    let half = fun("x", call(id("x"), id("x")));
    let r = do_command(&Command::Bind(s("w"), call(half.clone(), half)), &mut ctx, 4);
    assert_eq!(r, Err(CommandError::Eval(EvalError::StepLimit)));
    assert!(make_dbi(&id("w"), &ctx).is_err());
    assert_eq!(make_dbi(&id("a"), &ctx), Ok(Term::Var(0)));
}

#[test]
fn printed_term_resolves_to_itself() {
    let t = lam(
        "x",
        Term::app(lam("x", Term::app(Term::Var(0), Term::Var(1))), lam("y", Term::Var(1))),
    );
    assert_eq!(pw(&t, &Context::new()).to_string(), "\u{3bb}x. (\u{3bb}x'. x' x) (\u{3bb}y. x)");
    let read_back = fun(
        "x",
        call(fun("x'", call(id("x'"), id("x"))), fun("y", id("x"))),
    );
    let again = make_dbi(&read_back, &Context::new()).unwrap();
    let want = lam(
        "x",
        Term::app(lam("x'", Term::app(Term::Var(0), Term::Var(1))), lam("y", Term::Var(1))),
    );
    assert_eq!(again, want);
}
