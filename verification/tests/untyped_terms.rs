use lambdacalc::untyped::{index2bind, name2index, Binder, Context, Term};

fn s(x: &str) -> String {
    x.to_string()
}

fn lam(x: &str, body: Term) -> Term {
    Term::abs(&s(x), body)
}

#[test]
fn shift_by_zero_is_identity() {
    let t = Term::app(lam("x", Term::app(Term::Var(0), Term::Var(3))), Term::Var(7));
    assert_eq!(t.shift(0), t);
    assert_eq!(t.shift_above(0, 0), Some(t.clone()));
}

#[test]
fn shift_raises_free_indices_only() {
    let t = lam("x", Term::app(Term::Var(0), Term::app(Term::Var(1), Term::Var(2))));
    let want = lam("x", Term::app(Term::Var(0), Term::app(Term::Var(3), Term::Var(4))));
    assert_eq!(t.shift(2), want);
}

#[test]
fn shift_twice_adds_up() {
    let t = Term::app(lam("x", lam("y", Term::Var(2))), Term::Var(0));
    assert_eq!(t.shift(2).shift(3), t.shift(5));
    assert_eq!(t.shift(5), Term::app(lam("x", lam("y", Term::Var(7))), Term::Var(5)));
}

#[test]
fn shift_above_respects_cutoff() {
    let t = Term::app(Term::Var(1), Term::Var(2));
    assert_eq!(t.shift_above(2, 10), Some(Term::app(Term::Var(1), Term::Var(12))));
}

#[test]
fn shift_past_machine_word_is_none() {
    let t = lam("x", Term::app(Term::Var(0), Term::Var(usize::MAX)));
    assert_eq!(t.shift_above(0, 1), None);
    assert_eq!(lam("x", Term::Var(0)).shift_above(0, usize::MAX), Some(lam("x", Term::Var(0))));
    assert_eq!(Term::Var(usize::MAX - 1).shift_above(0, 1), Some(Term::Var(usize::MAX)));
}

#[test]
fn subst_replaces_only_the_target() {
    let t = Term::app(Term::Var(0), Term::app(Term::Var(1), Term::Var(2)));
    let got = t.subst(1, &Term::Var(9));
    assert_eq!(got, Term::app(Term::Var(0), Term::app(Term::Var(9), Term::Var(2))));
}

#[test]
fn subst_shifts_the_replacement_under_binders() {
    let t = lam("x", lam("y", Term::app(Term::Var(2), Term::Var(0))));
    let arg = Term::app(Term::Var(0), lam("z", Term::Var(1)));
    let want = lam(
        "x",
        lam("y", Term::app(Term::app(Term::Var(2), lam("z", Term::Var(3))), Term::Var(0))),
    );
    assert_eq!(t.subst(0, &arg), want);
}

#[test]
fn subst_with_large_target_does_not_wrap() {
    let t = lam("x", Term::Var(0));
    assert_eq!(t.subst(usize::MAX, &Term::Var(5)), t);
}

#[test]
fn subst_top_binds_and_lowers() {
    let body = Term::app(Term::Var(0), Term::app(Term::Var(1), lam("y", Term::Var(1))));
    let v = Term::Var(4);
    let want = Term::app(Term::Var(4), Term::app(Term::Var(0), lam("y", Term::Var(5))));
    assert_eq!(body.subst_top(&v), want);
}

#[test]
fn subst_top_is_shift_subst_shift() {
    let body = lam("y", Term::app(Term::Var(1), Term::app(Term::Var(0), Term::Var(3))));
    let v = Term::app(Term::Var(0), lam("z", Term::app(Term::Var(0), Term::Var(2))));
    let by_steps = body.subst(0, &v.shift(1));
    let want = lam(
        "y",
        Term::app(
            Term::app(Term::Var(1), lam("z", Term::app(Term::Var(0), Term::Var(3)))),
            Term::app(Term::Var(0), Term::Var(2)),
        ),
    );
    assert_eq!(body.subst_top(&v), want);
    assert_eq!(
        by_steps,
        lam(
            "y",
            Term::app(
                Term::app(Term::Var(2), lam("z", Term::app(Term::Var(0), Term::Var(4)))),
                Term::app(Term::Var(0), Term::Var(3)),
            ),
        )
    );
}

#[test]
fn subst_top_overflow_is_none() {
    let body = lam("y", Term::Var(1));
    assert_eq!(body.subst_top_above(0, &Term::Var(usize::MAX)), None);
    assert_eq!(Term::Var(0).subst_top_above(0, &Term::Var(usize::MAX)), Some(Term::Var(usize::MAX)));
}

#[test]
fn duplicate_is_equal() {
    let t = Term::app(lam("x", Term::Var(0)), Term::Var(3));
    assert_eq!(t.duplicate(), t);
    assert!(lam("x", Term::Var(0)).is_abs());
    assert!(!Term::Var(0).is_abs());
    assert!(Term::Var(0).is_var());
}

#[test]
fn empty_context_has_no_frames() {
    let ctx = Context::new();
    assert_eq!(name2index(&s("x"), &ctx), None);
    assert!(index2bind(&ctx, 0).is_none());
}

#[test]
fn nearest_frame_wins() {
    let ctx = Context::new();
    let ctx = Context::cons(&s("x"), &Binder::NameBind, &ctx);
    let ctx = Context::cons(&s("y"), &Binder::NameBind, &ctx);
    let ctx = Context::cons(&s("x"), &Binder::TermBind(std::rc::Rc::new(Term::Var(0))), &ctx);
    assert_eq!(name2index(&s("x"), &ctx), Some(0));
    assert_eq!(name2index(&s("y"), &ctx), Some(1));
    assert_eq!(name2index(&s("z"), &ctx), None);
    let (n0, b0) = index2bind(&ctx, 0).unwrap();
    assert_eq!(n0, "x");
    assert!(matches!(b0, Binder::TermBind(_)));
    let (n2, b2) = index2bind(&ctx, 2).unwrap();
    assert_eq!(n2, "x");
    assert!(matches!(b2, Binder::NameBind));
    assert!(index2bind(&ctx, 3).is_none());
}

#[test]
fn extending_leaves_the_old_context() {
    let base = Context::cons(&s("a"), &Binder::NameBind, &Context::new());
    let left = Context::cons(&s("b"), &Binder::NameBind, &base);
    let right = Context::cons(&s("c"), &Binder::NameBind, &base);
    assert_eq!(name2index(&s("a"), &base), Some(0));
    assert_eq!(name2index(&s("b"), &base), None);
    assert_eq!(name2index(&s("a"), &left), Some(1));
    assert_eq!(name2index(&s("c"), &left), None);
    assert_eq!(name2index(&s("c"), &right), Some(0));
}
