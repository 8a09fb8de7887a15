//! Internal terms and the index arithmetic on them.

use std::rc::Rc;
use vstd::prelude::*;

verus! {

/// Calls `Rc::clone`, which hands back a second pointer to the same
/// allocation: the result denotes the same value as the argument.
#[verifier::external_body]
pub(crate) fn share<T>(rc: &Rc<T>) -> (res: Rc<T>)
    ensures
        res == *rc,
{
    Rc::clone(rc)
}

/// The mathematical form of a term: indices are natural numbers and display
/// names are character sequences.
pub ghost enum Lam {
    Var(nat),
    Abs(Seq<char>, Box<Lam>),
    App(Box<Lam>, Box<Lam>),
}

/// A term in de Bruijn form. An index counts the binders between an
/// occurrence and its own binder, innermost first.
#[derive(Debug, Clone, PartialEq, Eq)]
pub enum Term {
    Var(usize),
    Abs { var: String, expr: Rc<Term> },
    App(Rc<Term>, Rc<Term>),
}

impl Lam {
    /// The index `k` moved by `d`; a move below zero stops at zero.
    pub open spec fn move_index(k: nat, d: int) -> nat {
        if k + d >= 0 {
            (k + d) as nat
        } else {
            0
        }
    }

    /// Every index that points at or past the cutoff `c` moved by `d`;
    /// the cutoff grows by one under each binder.
    pub open spec fn shift_above(self, c: nat, d: int) -> Lam
        decreases self,
    {
        match self {
            Lam::Var(k) => if k >= c {
                Lam::Var(Lam::move_index(k, d))
            } else {
                Lam::Var(k)
            },
            Lam::Abs(x, b) => Lam::Abs(x, Box::new(b.shift_above(c + 1, d))),
            Lam::App(f, a) => Lam::App(Box::new(f.shift_above(c, d)), Box::new(a.shift_above(c, d))),
        }
    }

    /// Every free index moved by `d`.
    pub open spec fn shift(self, d: int) -> Lam {
        self.shift_above(0, d)
    }

    /// Below `c` binders: each occurrence of index `j + c` replaced by `s`
    /// shifted by `c`; every other index is kept.
    pub open spec fn subst_at(self, c: nat, j: nat, s: Lam) -> Lam
        decreases self,
    {
        match self {
            Lam::Var(k) => if k == j + c {
                s.shift(c as int)
            } else {
                Lam::Var(k)
            },
            Lam::Abs(x, b) => Lam::Abs(x, Box::new(b.subst_at(c + 1, j, s))),
            Lam::App(f, a) => Lam::App(Box::new(f.subst_at(c, j, s)), Box::new(a.subst_at(c, j, s))),
        }
    }

    /// Each free occurrence of index `j` replaced by `s`.
    pub open spec fn subst(self, j: nat, s: Lam) -> Lam {
        self.subst_at(0, j, s)
    }

    /// Below `c` binders: the argument `v` put in place of the index that
    /// stands for the consumed binder, and the indices past it moved down.
    pub open spec fn beta_at(self, c: nat, v: Lam) -> Lam {
        self.subst_at(c, 0, v.shift(1)).shift_above(c, -1)
    }

    /// The body of an abstraction with `v` bound to its parameter.
    pub open spec fn subst_top(self, v: Lam) -> Lam {
        self.subst(0, v.shift(1)).shift(-1)
    }

    /// A shift by `d` moves no index that lies at or past the cutoff `c`
    /// below it.
    pub open spec fn stays_free(self, c: nat, d: int) -> bool
        decreases self,
    {
        match self {
            Lam::Var(k) => k < c || k + d >= c,
            Lam::Abs(_, b) => b.stays_free(c + 1, d),
            Lam::App(f, a) => f.stays_free(c, d) && a.stays_free(c, d),
        }
    }

    /// Every free index is below `n`.
    pub open spec fn closed_below(self, n: nat) -> bool
        decreases self,
    {
        match self {
            Lam::Var(k) => k < n,
            Lam::Abs(_, b) => b.closed_below(n + 1),
            Lam::App(f, a) => f.closed_below(n) && a.closed_below(n),
        }
    }

    /// The largest number of binders around any part of the term.
    pub open spec fn depth(self) -> nat
        decreases self,
    {
        match self {
            Lam::Var(_) => 0,
            Lam::Abs(_, b) => b.depth() + 1,
            Lam::App(f, a) => if f.depth() >= a.depth() {
                f.depth()
            } else {
                a.depth()
            },
        }
    }

    /// The term without its display names.
    pub open spec fn erase(self) -> Lam
        decreases self,
    {
        match self {
            Lam::Var(k) => Lam::Var(k),
            Lam::Abs(_, b) => Lam::Abs(Seq::empty(), Box::new(b.erase())),
            Lam::App(f, a) => Lam::App(Box::new(f.erase()), Box::new(a.erase())),
        }
    }

    /// No index is larger than a machine word holds.
    pub open spec fn bounded(self) -> bool
        decreases self,
    {
        match self {
            Lam::Var(k) => k <= usize::MAX,
            Lam::Abs(_, b) => b.bounded(),
            Lam::App(f, a) => f.bounded() && a.bounded(),
        }
    }

    /// Moving the indices at or past `c` up by `d` keeps each of them in a
    /// machine word.
    pub open spec fn shift_fits(self, c: nat, d: nat) -> bool
        decreases self,
    {
        match self {
            Lam::Var(k) => k < c || k + d <= usize::MAX,
            Lam::Abs(_, b) => b.shift_fits(c + 1, d),
            Lam::App(f, a) => f.shift_fits(c, d) && a.shift_fits(c, d),
        }
    }

    /// At each occurrence of index `j + c` below `c` binders, `s` can be
    /// shifted by `c`.
    pub open spec fn subst_fits(self, c: nat, j: nat, s: Lam) -> bool
        decreases self,
    {
        match self {
            Lam::Var(k) => k != j + c || s.shift_fits(0, c),
            Lam::Abs(_, b) => b.subst_fits(c + 1, j, s),
            Lam::App(f, a) => f.subst_fits(c, j, s) && a.subst_fits(c, j, s),
        }
    }

}

/// The view of a term holds machine indices only.
pub proof fn lemma_view_bounded(t: &Term)
    ensures
        t@.bounded(),
    decreases t,
{
    match t {
        Term::Var(_) => {},
        Term::Abs { var, expr } => lemma_view_bounded(&**expr),
        Term::App(t1, t2) => {
            lemma_view_bounded(&**t1);
            lemma_view_bounded(&**t2);
        },
    }
}

/// Past the largest machine index every index of a bounded term is bound:
/// a shift there changes nothing and always fits.
pub proof fn lemma_shift_past_all(t: Lam, c: nat, d: int)
    requires
        t.bounded(),
        c > usize::MAX,
    ensures
        t.shift_above(c, d) == t,
        d >= 0 ==> t.shift_fits(c, d as nat),
    decreases t,
{
    match t {
        Lam::Var(_) => {},
        Lam::Abs(_, b) => lemma_shift_past_all(*b, c + 1, d),
        Lam::App(f, a) => {
            lemma_shift_past_all(*f, c, d);
            lemma_shift_past_all(*a, c, d);
        },
    }
}

/// Past the largest machine index a bounded term holds no occurrence to
/// replace.
pub proof fn lemma_subst_past_all(t: Lam, c: nat, j: nat, s: Lam)
    requires
        t.bounded(),
        c > usize::MAX,
    ensures
        t.subst_at(c, j, s) == t,
        t.subst_fits(c, j, s),
    decreases t,
{
    match t {
        Lam::Var(_) => {},
        Lam::Abs(_, b) => lemma_subst_past_all(*b, c + 1, j, s),
        Lam::App(f, a) => {
            lemma_subst_past_all(*f, c, j, s);
            lemma_subst_past_all(*a, c, j, s);
        },
    }
}

/// A shift by zero is the identity at every cutoff, and fits.
pub proof fn lemma_shift_zero(t: Lam, c: nat)
    ensures
        t.shift_above(c, 0) == t,
        t.bounded() ==> t.shift_fits(c, 0),
    decreases t,
{
    match t {
        Lam::Var(_) => {},
        Lam::Abs(_, b) => lemma_shift_zero(*b, c + 1),
        Lam::App(f, a) => {
            lemma_shift_zero(*f, c);
            lemma_shift_zero(*a, c);
        },
    }
}

/// Two shifts at one cutoff add up, where the first moves no index below
/// the cutoff.
pub proof fn lemma_shift_shift(t: Lam, c: nat, a: int, b: int)
    requires
        a >= 0 || t.stays_free(c, a),
    ensures
        t.shift_above(c, a).shift_above(c, b) == t.shift_above(c, a + b),
    decreases t,
{
    match t {
        Lam::Var(_) => {},
        Lam::Abs(_, body) => lemma_shift_shift(*body, c + 1, a, b),
        Lam::App(f, x) => {
            lemma_shift_shift(*f, c, a, b);
            lemma_shift_shift(*x, c, a, b);
        },
    }
}

/// A term shifted up by `n + 1` at cutoff `b` holds no index equal to
/// `b + n`: lowering what lies at or past `b + n` by one gives the shift
/// by `n`.
pub proof fn lemma_shift_retract(t: Lam, b: nat, n: nat)
    ensures
        t.shift_above(b, n as int + 1).shift_above(b + n, -1) == t.shift_above(b, n as int),
    decreases t,
{
    match t {
        Lam::Var(_) => {},
        Lam::Abs(_, body) => lemma_shift_retract(*body, b + 1, n),
        Lam::App(f, x) => {
            lemma_shift_retract(*f, b, n);
            lemma_shift_retract(*x, b, n);
        },
    }
}

/// A term shifted up by one at cutoff `c` holds no index equal to `c`, so
/// a substitution for that index leaves it as it is.
pub proof fn lemma_subst_shifted(t: Lam, c: nat, s: Lam)
    ensures
        t.shift_above(c, 1).subst_at(c, 0, s) == t.shift_above(c, 1),
        t.shift_above(c, 1).subst_fits(c, 0, s),
    decreases t,
{
    match t {
        Lam::Var(_) => {},
        Lam::Abs(_, body) => lemma_subst_shifted(*body, c + 1, s),
        Lam::App(f, x) => {
            lemma_subst_shifted(*f, c, s);
            lemma_subst_shifted(*x, c, s);
        },
    }
}

impl View for Term {
    type V = Lam;

    open spec fn view(&self) -> Lam
        decreases self,
    {
        match self {
            Term::Var(idx) => Lam::Var(*idx as nat),
            Term::Abs { var, expr } => Lam::Abs(var@, Box::new((**expr).view())),
            Term::App(t1, t2) => Lam::App(Box::new((**t1).view()), Box::new((**t2).view())),
        }
    }
}

impl Term {
    /// A copy of the term that shares its subterms.
    pub fn duplicate(&self) -> (r: Term)
        ensures
            r@ == self@,
    {
        match self {
            Term::Var(idx) => Term::Var(*idx),
            Term::Abs { var, expr } => Term::Abs { var: var.clone(), expr: share(expr) },
            Term::App(t1, t2) => Term::App(share(t1), share(t2)),
        }
    }

    /// Whether the term is an abstraction.
    pub fn is_abs(&self) -> (r: bool)
        ensures
            r == (self@ is Abs),
    {
        match self {
            Term::Abs { .. } => true,
            _ => false,
        }
    }

    /// Whether the term is a variable.
    pub fn is_var(&self) -> (r: bool)
        ensures
            r == (self@ is Var),
    {
        match self {
            Term::Var(_) => true,
            _ => false,
        }
    }

    /// The abstraction of `expr` with display name `var`.
    pub fn abs(var: &String, expr: Term) -> (r: Term)
        ensures
            r@ == Lam::Abs(var@, Box::new(expr@)),
    {
        Term::Abs { var: var.clone(), expr: Rc::new(expr) }
    }

    /// The application of `t1` to `t2`.
    pub fn app(t1: Term, t2: Term) -> (r: Term)
        ensures
            r@ == Lam::App(Box::new(t1@), Box::new(t2@)),
    {
        Term::App(Rc::new(t1), Rc::new(t2))
    }

    /// The term with each index at or past the cutoff `c` raised by `d`, or
    /// `None` where a raised index would leave the machine word.
    pub fn shift_above(&self, c: usize, d: usize) -> (r: Option<Term>)
        ensures
            r.is_some() == self@.shift_fits(c as nat, d as nat),
            r.is_some() ==> r.unwrap()@ == self@.shift_above(c as nat, d as int),
        decreases self,
    {
        proof {
            lemma_view_bounded(self);
        }
        match self {
            Term::Var(idx) => {
                if *idx < c {
                    Some(Term::Var(*idx))
                } else if *idx <= usize::MAX - d {
                    Some(Term::Var(*idx + d))
                } else {
                    None
                }
            },
            Term::Abs { var, expr } => {
                if c == usize::MAX {
                    proof {
                        lemma_shift_past_all(expr@, c as nat + 1, d as int);
                    }
                    Some(self.duplicate())
                } else {
                    match expr.shift_above(c + 1, d) {
                        Some(body) => Some(Term::abs(var, body)),
                        None => None,
                    }
                }
            },
            Term::App(t1, t2) => {
                match t1.shift_above(c, d) {
                    Some(f) => match t2.shift_above(c, d) {
                        Some(a) => Some(Term::app(f, a)),
                        None => None,
                    },
                    None => None,
                }
            },
        }
    }

    /// The term with every free index raised by `d`.
    pub fn shift(&self, d: usize) -> (r: Term)
        requires
            self@.shift_fits(0, d as nat),
        ensures
            r@ == self@.shift(d as int),
    {
        if d == 0 {
            proof {
                lemma_shift_zero(self@, 0);
            }
            return self.duplicate();
        }
        self.shift_above(0, d).unwrap()
    }

    /// Below `c` binders: the term with `s`, shifted by `c`, in place of
    /// each occurrence of index `j + c`, or `None` where that shift of `s`
    /// would leave the machine word.
    pub fn subst_above(&self, c: usize, j: usize, s: &Term) -> (r: Option<Term>)
        ensures
            r.is_some() == self@.subst_fits(c as nat, j as nat, s@),
            r.is_some() ==> r.unwrap()@ == self@.subst_at(c as nat, j as nat, s@),
        decreases self,
    {
        proof {
            lemma_view_bounded(self);
        }
        match self {
            Term::Var(idx) => {
                if *idx >= c && *idx - c == j {
                    s.shift_above(0, c)
                } else {
                    Some(Term::Var(*idx))
                }
            },
            Term::Abs { var, expr } => {
                if c == usize::MAX {
                    proof {
                        lemma_subst_past_all(expr@, c as nat + 1, j as nat, s@);
                    }
                    Some(self.duplicate())
                } else {
                    match expr.subst_above(c + 1, j, s) {
                        Some(body) => Some(Term::abs(var, body)),
                        None => None,
                    }
                }
            },
            Term::App(t1, t2) => {
                match t1.subst_above(c, j, s) {
                    Some(f) => match t2.subst_above(c, j, s) {
                        Some(a) => Some(Term::app(f, a)),
                        None => None,
                    },
                    None => None,
                }
            },
        }
    }

    /// The term with `s` in place of each free occurrence of index `j`.
    pub fn subst(&self, j: usize, s: &Term) -> (r: Term)
        requires
            self@.subst_fits(0, j as nat, s@),
        ensures
            r@ == self@.subst(j as nat, s@),
    {
        self.subst_above(0, j, s).unwrap()
    }

    /// Below `c` binders: the term with `v`, shifted by `c`, in place of
    /// index `c` and every larger index lowered by one, or `None` where
    /// that shift of `v` would leave the machine word.
    pub fn subst_top_above(&self, c: usize, v: &Term) -> (r: Option<Term>)
        ensures
            r.is_some() == self@.subst_fits(c as nat, 0, v@),
            r.is_some() ==> r.unwrap()@ == self@.beta_at(c as nat, v@),
        decreases self,
    {
        proof {
            lemma_view_bounded(self);
        }
        match self {
            Term::Var(idx) => {
                if *idx == c {
                    proof {
                        lemma_shift_shift(v@, 0, 1, c as int);
                        lemma_shift_retract(v@, 0, c as nat);
                    }
                    v.shift_above(0, c)
                } else if *idx > c {
                    Some(Term::Var(*idx - 1))
                } else {
                    Some(Term::Var(*idx))
                }
            },
            Term::Abs { var, expr } => {
                if c == usize::MAX {
                    proof {
                        lemma_subst_past_all(expr@, c as nat + 1, 0, v@);
                        lemma_subst_past_all(expr@, c as nat + 1, 0, v@.shift(1));
                        lemma_shift_past_all(expr@, c as nat + 1, -1);
                    }
                    Some(self.duplicate())
                } else {
                    match expr.subst_top_above(c + 1, v) {
                        Some(body) => Some(Term::abs(var, body)),
                        None => None,
                    }
                }
            },
            Term::App(t1, t2) => {
                match t1.subst_top_above(c, v) {
                    Some(f) => match t2.subst_top_above(c, v) {
                        Some(a) => Some(Term::app(f, a)),
                        None => None,
                    },
                    None => None,
                }
            },
        }
    }

    /// The body of an abstraction with the argument `v` bound to its
    /// parameter: `v` is shifted up by one, put in place of index 0, and
    /// the result is shifted down by one.
    pub fn subst_top(&self, v: &Term) -> (r: Term)
        requires
            self@.subst_fits(0, 0, v@),
        ensures
            r@ == self@.subst_top(v@),
    {
        self.subst_top_above(0, v).unwrap()
    }
}

} // verus!
