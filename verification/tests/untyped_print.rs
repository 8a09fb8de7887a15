use lambdacalc::untyped::{get_freshname, pw, Binder, Context, Term};

fn s(x: &str) -> String {
    x.to_string()
}

fn lam(x: &str, body: Term) -> Term {
    Term::abs(&s(x), body)
}

fn names(list: &[&str]) -> Context {
    let mut ctx = Context::new();
    for n in list {
        ctx = Context::cons(&s(n), &Binder::NameBind, &ctx);
    }
    ctx
}

#[test]
fn prints_identity() {
    assert_eq!(pw(&lam("x", Term::Var(0)), &Context::new()).to_string(), "\u{3bb}x. x");
}

#[test]
fn prints_variables_by_frame_name() {
    let ctx = names(&["a", "b", "c"]);
    assert_eq!(pw(&Term::Var(0), &ctx).to_string(), "c");
    assert_eq!(pw(&Term::Var(2), &ctx).to_string(), "a");
}

#[test]
fn prints_bad_index_marker() {
    let ctx = names(&["a"]);
    assert_eq!(pw(&Term::Var(1), &ctx).to_string(), "[bad index 1]");
    assert_eq!(pw(&Term::Var(3072), &ctx).to_string(), "[bad index 3072]");
    assert_eq!(pw(&Term::Var(0), &Context::new()).to_string(), "[bad index 0]");
    assert_eq!(
        pw(&Term::app(Term::Var(0), Term::Var(10)), &ctx).to_string(),
        "a [bad index 10]"
    );
}

#[test]
fn application_associates_to_the_left() {
    let ctx = names(&["z", "y", "x"]);
    let left = Term::app(Term::app(Term::Var(0), Term::Var(1)), Term::Var(2));
    assert_eq!(pw(&left, &ctx).to_string(), "x y z");
    let right = Term::app(Term::Var(0), Term::app(Term::Var(1), Term::Var(2)));
    assert_eq!(pw(&right, &ctx).to_string(), "x (y z)");
}

#[test]
fn abstractions_are_bracketed_inside_applications() {
    let t = Term::app(lam("x", Term::Var(0)), lam("y", Term::Var(0)));
    assert_eq!(pw(&t, &Context::new()).to_string(), "(\u{3bb}x. x) (\u{3bb}y. y)");
    let ctx = names(&["f"]);
    let u = Term::app(Term::app(Term::Var(0), lam("x", Term::Var(0))), Term::Var(0));
    assert_eq!(pw(&u, &ctx).to_string(), "f (\u{3bb}x. x) f");
}

#[test]
fn abstraction_body_reaches_right() {
    let t = lam("x", lam("y", Term::app(Term::Var(1), Term::Var(0))));
    assert_eq!(pw(&t, &Context::new()).to_string(), "\u{3bb}x. \u{3bb}y. x y");
}

#[test]
fn fresh_name_avoids_the_context() {
    let ctx = names(&["x", "y", "x'"]);
    assert_eq!(get_freshname(&s("x"), &ctx), "x''");
    assert_eq!(get_freshname(&s("y"), &ctx), "y'");
    assert_eq!(get_freshname(&s("z"), &ctx), "z");
    assert_eq!(get_freshname(&s("x"), &Context::new()), "x");
}

#[test]
fn binder_that_would_shadow_is_renamed() {
    let ctx = names(&["x"]);
    let t = lam("x", Term::app(Term::Var(0), Term::Var(1)));
    assert_eq!(pw(&t, &ctx).to_string(), "\u{3bb}x'. x' x");
    let nested = lam("x", lam("x", Term::app(Term::Var(0), Term::Var(1))));
    assert_eq!(pw(&nested, &Context::new()).to_string(), "\u{3bb}x. \u{3bb}x'. x' x");
}
