//! Naming contexts: persistent chains of frames, innermost first.

use crate::untyped::term::{share, Lam, Term};
use std::rc::Rc;
use vstd::prelude::*;

verus! {

/// What a context records for a name: that it is in scope, or the value it
/// was bound to.
#[derive(Debug, Clone)]
pub enum Binder {
    NameBind,
    TermBind(Rc<Term>),
}

/// One frame of a context and the link to the frames around it.
#[derive(Debug, Clone)]
pub struct CtxNode {
    pub var: String,
    pub bind: Binder,
    pub next: Option<Rc<CtxNode>>,
}

/// A naming context. Extending one leaves the old context as it was.
#[derive(Debug, Clone)]
pub struct Context(Option<Rc<CtxNode>>);

/// The mathematical form of a frame: a name, and the bound value where
/// there is one.
pub ghost struct Frame {
    pub name: Seq<char>,
    pub value: Option<Lam>,
}

impl View for Binder {
    type V = Option<Lam>;

    open spec fn view(&self) -> Option<Lam> {
        match self {
            Binder::NameBind => None,
            Binder::TermBind(t) => Some((**t).view()),
        }
    }
}

/// The frames of a chain of nodes, innermost first.
pub open spec fn frames(link: Option<Rc<CtxNode>>) -> Seq<Frame>
    decreases link,
{
    match link {
        None => Seq::empty(),
        Some(node) => seq![Frame { name: node.var@, value: node.bind@ }] + frames(node.next),
    }
}

/// The distance to the nearest frame that carries `name`.
pub open spec fn name_to_index(ctx: Seq<Frame>, name: Seq<char>) -> Option<nat>
    decreases ctx.len(),
{
    if ctx.len() == 0 {
        None
    } else if ctx[0].name == name {
        Some(0nat)
    } else {
        match name_to_index(ctx.drop_first(), name) {
            Some(i) => Some(i + 1),
            None => None,
        }
    }
}

/// A distance as a machine index; one that no machine word holds counts as
/// absent.
pub open spec fn machine_index(found: Option<nat>) -> Option<usize> {
    match found {
        Some(i) => if i <= usize::MAX {
            Some(i as usize)
        } else {
            None
        },
        None => None,
    }
}

/// The frames of a context with one more frame in front.
pub open spec fn extend(ctx: Seq<Frame>, name: Seq<char>, value: Option<Lam>) -> Seq<Frame> {
    seq![Frame { name, value }] + ctx
}

impl View for Context {
    type V = Seq<Frame>;

    closed spec fn view(&self) -> Seq<Frame> {
        frames(self.0)
    }
}

impl Binder {
    /// A copy of the binder that shares the bound value.
    pub fn duplicate(&self) -> (r: Binder)
        ensures
            r@ == self@,
    {
        match self {
            Binder::NameBind => Binder::NameBind,
            Binder::TermBind(t) => Binder::TermBind(share(t)),
        }
    }
}

/// A second handle on a chain of frames.
fn share_link(link: &Option<Rc<CtxNode>>) -> (r: Option<Rc<CtxNode>>)
    ensures
        r == *link,
{
    match link {
        None => None,
        Some(node) => Some(share(node)),
    }
}

/// Walks the chain outwards and counts the frames passed before the first
/// one named `name`.
fn find_name(name: &String, link: &Option<Rc<CtxNode>>) -> (r: Option<usize>)
    ensures
        r == machine_index(name_to_index(frames(*link), name@)),
    decreases *link,
{
    match link {
        None => None,
        Some(node) => {
            proof {
                assert(frames(*link).drop_first() =~= frames(node.next));
            }
            if node.var == *name {
                Some(0)
            } else {
                match find_name(name, &node.next) {
                    Some(i) => if i < usize::MAX {
                        Some(i + 1)
                    } else {
                        None
                    },
                    None => None,
                }
            }
        },
    }
}

/// Walks `n` frames outwards and copies what stands there.
fn find_frame(link: &Option<Rc<CtxNode>>, n: usize) -> (r: Option<(String, Binder)>)
    ensures
        r.is_some() == (n < frames(*link).len()),
        r.is_some() ==> r.unwrap().0@ == frames(*link)[n as int].name && r.unwrap().1@
            == frames(*link)[n as int].value,
    decreases *link,
{
    match link {
        None => None,
        Some(node) => {
            if n == 0 {
                Some((node.var.clone(), node.bind.duplicate()))
            } else {
                find_frame(&node.next, n - 1)
            }
        },
    }
}

impl Context {
    /// The context `ctx` with a frame for `var` in front. `ctx` is not
    /// changed and stays valid.
    pub fn cons(var: &String, bind: &Binder, ctx: &Context) -> (r: Context)
        ensures
            r@ == extend(ctx@, var@, bind@),
    {
        Context(
            Some(
                Rc::new(
                    CtxNode { var: var.clone(), bind: bind.duplicate(), next: share_link(&ctx.0) },
                ),
            ),
        )
    }

    /// The context without frames.
    pub fn new() -> (r: Context)
        ensures
            r@ == Seq::<Frame>::empty(),
    {
        Context(None)
    }
}

/// The distance from the innermost frame to the nearest frame named `name`,
/// or `None` where no frame within machine range carries it.
pub fn name2index(name: &String, ctx: &Context) -> (r: Option<usize>)
    ensures
        r == machine_index(name_to_index(ctx@, name@)),
{
    find_name(name, &ctx.0)
}

/// The name and binder of the frame `n` steps out, or `None` where the
/// context has no such frame.
pub fn index2bind(ctx: &Context, n: usize) -> (r: Option<(String, Binder)>)
    ensures
        r.is_some() == (n < ctx@.len()),
        r.is_some() ==> r.unwrap().0@ == ctx@[n as int].name && r.unwrap().1@
            == ctx@[n as int].value,
{
    find_frame(&ctx.0, n)
}

} // verus!
