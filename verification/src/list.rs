//! A persistent singly linked list whose nodes are computed when first reached.

use crate::thunk::{callable_at, faithful_clone, share, Held, PoisonedThunk, Seen, Status};
use std::rc::Rc;
use vstd::cell::invcell::InvCell;
use vstd::predicate::Predicate;
use vstd::prelude::*;

verus! {

/// A sequence that hands out its elements one at a time, on request.
///
/// `elems` is the sequence of the elements' views, and `may_give(i, v)` says that
/// `v` is a value that can come at `i`. `get(i)` gives the element at `i`, or
/// `None` past the end. `certain` says that reading cannot fail.
pub trait Source<T: View> {
    spec fn ready(&self) -> bool;

    spec fn certain(&self) -> bool;

    spec fn elems(&self) -> Seq<T::V>;

    spec fn may_give(&self, i: int, v: T) -> bool;

    fn get(&self, i: usize) -> (r: Result<Option<T>, PoisonedThunk>)
        requires
            self.ready(),
        ensures
            r matches Ok(found) ==> match found {
                Some(x) => i < self.elems().len() && x@ == self.elems()[i as int]
                    && self.may_give(i as int, x),
                None => i >= self.elems().len(),
            },
            self.certain() ==> r is Ok,
    ;
}

/// One node of a list: the end, or an element and the rest.
#[verifier::reject_recursive_types(T)]
pub enum ListInner<T: View> {
    Nil,
    Cons(T, List<T>),
}

/// The state of a node's cell: the node, the source and position it will be read
/// from, or the mark left while it is being read.
#[verifier::reject_recursive_types(T)]
pub enum ListState<T: View> {
    Value(ListInner<T>),
    Func(Rc<Held<Box<dyn Source<T>>>>, usize),
    Lock,
}

/// What the cell of a list with the elements `elems` may hold, where `allowed`
/// says which values can come at which place.
#[verifier::reject_recursive_types(T)]
pub struct ListPred<T: View> {
    pub elems: Seq<T::V>,
    pub allowed: spec_fn(int, T) -> bool,
}

/// Whether the element of `node` and those of the list after it are among the
/// values `allowed` at their places.
pub open spec fn node_within<T: View>(node: ListInner<T>, allowed: spec_fn(int, T) -> bool) -> bool {
    node matches ListInner::Cons(x, xs) ==> allowed(0, x) && forall|j: int, v: T| #[trigger]
        xs.may_have(j, v) ==> allowed(j + 1, v)
}

/// Whether what `src` can give from position `i` on is among the values
/// `allowed`, counted from there.
pub open spec fn gives_within<T: View>(
    src: Held<Box<dyn Source<T>>>,
    i: usize,
    allowed: spec_fn(int, T) -> bool,
) -> bool {
    forall|p: int, v: T| p >= i && #[trigger] src.0.may_give(p, v) ==> allowed(p - i, v)
}

/// Whether `node` is the first node of a list with the elements `s`.
pub open spec fn node_is<T: View>(node: ListInner<T>, s: Seq<T::V>) -> bool {
    match node {
        ListInner::Nil => s.len() == 0,
        ListInner::Cons(x, xs) => s.len() > 0 && x@ == s[0] && xs@ == s.drop_first(),
    }
}

/// Whether reading `src` from position `i` on gives the elements `s`.
pub open spec fn reads_as<T: View>(src: Held<Box<dyn Source<T>>>, i: usize, s: Seq<T::V>) -> bool {
    &&& src.0.ready()
    &&& i <= src.0.elems().len() <= usize::MAX
    &&& src.0.elems().skip(i as int) == s
}

impl<T: View> Predicate<ListState<T>> for ListPred<T> {
    open spec fn predicate(&self, st: ListState<T>) -> bool {
        match st {
            ListState::Value(node) => node_is(node, self.elems) && node_within(node, self.allowed),
            ListState::Func(src, i) => reads_as(*src, i, self.elems) && gives_within(
                *src,
                i,
                self.allowed,
            ),
            ListState::Lock => true,
        }
    }
}

/// What a handle points to: a node that was there from the start and never
/// changes, or a cell that fetches its node when it is first read.
#[verifier::reject_recursive_types(T)]
pub enum ListCell<T: View> {
    Known(ListInner<T>),
    Lazy(InvCell<ListState<T>, ListPred<T>>),
}

/// A shared handle to the first node of a list.
#[verifier::reject_recursive_types(T)]
pub struct List<T: View> {
    cell: Rc<ListCell<T>>,
}

impl<T: View> View for List<T> {
    type V = Seq<T::V>;

    /// The views of the list's elements, in order.
    closed spec fn view(&self) -> Seq<T::V>
        decreases self,
    {
        match *self.cell {
            ListCell::Known(ListInner::Nil) => Seq::empty(),
            ListCell::Known(ListInner::Cons(x, xs)) => seq![x@] + xs@,
            ListCell::Lazy(c) => c.predicate().elems,
        }
    }
}

impl<T: View> List<T> {
    /// Whether the first node was given when the list was made: it is there from
    /// the start, and nothing about it ever changes.
    pub closed spec fn known(&self) -> bool {
        *self.cell is Known
    }

    /// The first node of a list whose first node is known.
    pub closed spec fn node(&self) -> ListInner<T>
        recommends
            self.known(),
    {
        self.cell->Known_0
    }

    /// Whether every node of the list is known: the list was put together from
    /// the empty list by putting elements in front.
    pub closed spec fn built(&self) -> bool
        decreases self,
    {
        match *self.cell {
            ListCell::Known(ListInner::Nil) => true,
            ListCell::Known(ListInner::Cons(_, xs)) => xs.built(),
            ListCell::Lazy(_) => false,
        }
    }

    /// Whether `v` is a value that can come at place `j` of the list: the element
    /// given there when the list was made, or one that its source can give there.
    pub closed spec fn may_have(&self, j: int, v: T) -> bool
        decreases self,
    {
        match *self.cell {
            ListCell::Known(ListInner::Nil) => false,
            ListCell::Known(ListInner::Cons(x, xs)) => if j == 0 {
                v == x
            } else {
                xs.may_have(j - 1, v)
            },
            ListCell::Lazy(c) => j >= 0 && (c.predicate().allowed)(j, v),
        }
    }

    /// Nothing comes before the first place.
    pub proof fn lemma_have_from_zero(&self, j: int, v: T)
        requires
            self.may_have(j, v),
        ensures
            j >= 0,
        decreases self,
    {
        match *self.cell {
            ListCell::Known(ListInner::Cons(x, xs)) => {
                if j != 0 {
                    xs.lemma_have_from_zero(j - 1, v);
                }
            },
            _ => {},
        }
    }

    /// A known first node is the first node of the list's elements, and what can
    /// come in the list is its element and then what can come in the rest.
    pub proof fn lemma_known_node(&self)
        requires
            self.known(),
        ensures
            node_is(self.node(), self@),
            forall|j: int, v: T| #[trigger]
                self.may_have(j, v) <==> (self.node() matches ListInner::Cons(x, xs) && if j == 0 {
                    v == x
                } else {
                    xs.may_have(j - 1, v)
                }),
    {
        match *self.cell {
            ListCell::Known(ListInner::Cons(x, xs)) => {
                assert((seq![x@] + xs@).drop_first() =~= xs@);
            },
            _ => {},
        }
    }

    /// A list is built if its first node is known and is the end or goes on with
    /// a built list.
    pub proof fn lemma_built(&self)
        ensures
            self.built() <==> self.known() && (self.node() matches ListInner::Cons(_, xs)
                ==> xs.built()),
    {
    }
}

impl<T: View> List<T> {
    /// Whether the list is built and every element given when it was made is `ok`.
    pub closed spec fn all_known(&self, ok: spec_fn(T) -> bool) -> bool
        decreases self,
    {
        match *self.cell {
            ListCell::Known(ListInner::Nil) => true,
            ListCell::Known(ListInner::Cons(x, xs)) => ok(x) && xs.all_known(ok),
            ListCell::Lazy(_) => false,
        }
    }

    /// A list is built of elements that are `ok` if its first node is known and is
    /// the end, or holds such an element and goes on with such a list. Such a list is
    /// built.
    pub proof fn lemma_all_known(&self, ok: spec_fn(T) -> bool)
        ensures
            self.all_known(ok) <==> self.known() && (self.node() matches ListInner::Cons(x, xs)
                ==> ok(x) && xs.all_known(ok)),
            self.all_known(ok) ==> self.built(),
        decreases self,
    {
        match *self.cell {
            ListCell::Known(ListInner::Cons(x, xs)) => {
                xs.lemma_all_known(ok);
            },
            _ => {},
        }
    }
}

impl<T: View> List<List<T>> {
    /// Whether the list and every list in it are built.
    pub closed spec fn built_deep(&self) -> bool
        decreases self,
    {
        match *self.cell {
            ListCell::Known(ListInner::Nil) => true,
            ListCell::Known(ListInner::Cons(x, xs)) => x.built() && xs.built_deep(),
            ListCell::Lazy(_) => false,
        }
    }

    /// A list of lists is built throughout if its first node is known and is the
    /// end, or holds a built list and goes on with lists built throughout.
    pub proof fn lemma_built_deep(&self)
        ensures
            self.built_deep() <==> self.known() && (self.node() matches ListInner::Cons(x, xs)
                ==> x.built() && xs.built_deep()),
            self.built_deep() ==> self.built(),
        decreases self,
    {
        match *self.cell {
            ListCell::Known(ListInner::Cons(x, xs)) => {
                xs.lemma_built_deep();
            },
            _ => {},
        }
    }
}

impl<T: View> Clone for List<T> {
    /// A second handle to the same first node.
    fn clone(&self) -> (r: List<T>)
        ensures
            r == *self,
    {
        List { cell: share(&self.cell) }
    }
}

impl<T: View> List<T> {
    /// The list of what `src` holds from position `i` on. Nothing is read yet.
    pub(crate) fn suspended(src: Rc<Held<Box<dyn Source<T>>>>, i: usize) -> (r: List<T>)
        requires
            src.0.ready(),
            i <= src.0.elems().len() <= usize::MAX,
        ensures
            r@ == src.0.elems().skip(i as int),
            !r.known(),
            forall|j: int, v: T| #[trigger] r.may_have(j, v) <==> j >= 0 && src.0.may_give(i + j, v),
    {
        let ghost pred = ListPred::<T> {
            elems: src.0.elems().skip(i as int),
            allowed: |j: int, v: T| src.0.may_give(i + j, v),
        };
        List { cell: Rc::new(ListCell::Lazy(InvCell::new(ListState::Func(src, i), Ghost(pred)))) }
    }

    /// The empty list.
    pub fn nil() -> (r: List<T>)
        ensures
            r@ == Seq::<T::V>::empty(),
            r.known(),
            r.node() == ListInner::<T>::Nil,
            r.built(),
            forall|j: int, v: T| !#[trigger] r.may_have(j, v),
    {
        List { cell: Rc::new(ListCell::Known(ListInner::Nil)) }
    }

    /// The list with `value` in front of `this`, which is shared and not copied.
    pub fn cons(value: T, this: &List<T>) -> (r: List<T>)
        ensures
            r@ == seq![value@] + this@,
            r.known(),
            r.node() == ListInner::Cons(value, *this),
            r.built() == this.built(),
            forall|j: int, v: T| #[trigger]
                r.may_have(j, v) <==> if j == 0 {
                    v == value
                } else {
                    this.may_have(j - 1, v)
                },
    {
        List { cell: Rc::new(ListCell::Known(ListInner::Cons(value, this.clone()))) }
    }

    /// The list of the one element `value`.
    pub fn pure(value: T) -> (r: List<T>)
        ensures
            r@ == seq![value@],
            r.built(),
            forall|j: int, v: T| #[trigger] r.may_have(j, v) <==> j == 0 && v == value,
    {
        let r = List::cons(value, &List::nil());
        assert(r@ =~= seq![value@]);
        r
    }
}

/// Where a walk of a given number of steps along a list ended: at an element, or
/// past the end with so many steps left over.
pub enum Found<T> {
    Here(T),
    Past(usize),
}

/// Whether `found` is what a walk of `i` steps along the elements `s` ends in: the
/// element at `i`, or the number of steps left over at the end.
pub open spec fn found_at<T: View>(found: Found<T>, s: Seq<T::V>, i: usize) -> bool {
    match found {
        Found::Here(x) => i < s.len() && x@ == s[i as int],
        Found::Past(k) => i >= s.len() && k == i - s.len(),
    }
}

/// Whether what was `found` at place `i`, if an element, is one that `l` hands out
/// there.
pub open spec fn found_from<T: Clone + View>(found: Found<T>, l: List<T>, i: usize) -> bool {
    found matches Found::Here(x) ==> l.hands(i as int, x)
}

/// A place in a list: the list, a number of steps, and the list from there on. A
/// walk that goes on from the place it reached last need not start over.
#[verifier::reject_recursive_types(T)]
pub struct Walk<T: View> {
    start: List<T>,
    steps: usize,
    here: List<T>,
}

impl<T: View> Walk<T> {
    /// The place is in the list, and `here` is the list from there on, built if
    /// the list is.
    pub closed spec fn wf(&self) -> bool {
        &&& self.steps <= self.start@.len()
        &&& self.here@ == self.start@.skip(self.steps as int)
        &&& self.start.built() ==> self.here.built()
        &&& forall|j: int, v: T| #[trigger]
            self.here.may_have(j, v) ==> self.start.may_have(self.steps + j, v)
    }

    /// The list that is walked.
    pub closed spec fn from(&self) -> List<T> {
        self.start
    }

    /// Whether the list that is walked is built, so that walking it cannot fail.
    pub closed spec fn sure(&self) -> bool {
        self.start.built()
    }

    /// The elements of the list that is walked.
    pub closed spec fn list(&self) -> Seq<T::V> {
        self.start@
    }

    /// The number of steps taken from the start.
    pub closed spec fn place(&self) -> nat {
        self.steps as nat
    }

    /// The start of `list`.
    pub fn new(list: &List<T>) -> (w: Walk<T>)
        ensures
            w.wf(),
            w.list() == list@,
            w.from() == *list,
            w.place() == 0,
            w.sure() == list.built(),
    {
        assert(list@.skip(0) =~= list@);
        Walk { start: list.clone(), steps: 0, here: list.clone() }
    }
}

impl<T: Clone + View> Walk<T> {
    /// Moves to the place `i` steps from the start, forward from where the walk is
    /// or, if that is behind it, from the start, and reports what is there. At the
    /// end of the list the walk stops. On a built list this cannot fail.
    pub fn seek(&mut self, i: usize) -> (r: Result<Found<T>, PoisonedThunk>)
        requires
            old(self).wf(),
            faithful_clone::<T>(),
        ensures
            final(self).wf(),
            final(self).list() == old(self).list(),
            final(self).sure() == old(self).sure(),
            final(self).from() == old(self).from(),
            r matches Ok(found) ==> found_at(found, old(self).list(), i) && found_from(
                found,
                old(self).from(),
                i,
            ),
            r matches Ok(Found::Here(_)) ==> final(self).place() == i,
            old(self).sure() ==> r is Ok,
    {
        if self.steps > i {
            assert(self.start@.skip(0) =~= self.start@);
            self.steps = 0;
            self.here = self.start.clone();
        }
        loop
            invariant
                faithful_clone::<T>(),
                self.wf(),
                self.list() == old(self).list(),
                self.sure() == old(self).sure(),
                self.from() == old(self).from(),
                self.steps <= i,
            decreases i - self.steps,
        {
            let ghost all = self.start@;
            proof {
                self.here.lemma_built();
            }
            match self.here.eval() {
                Err(e) => {
                    return Err(e);
                },
                Ok(ListInner::Nil) => {
                    assert(all.skip(self.steps as int).len() == all.len() - self.steps);
                    return Ok(Found::Past(i - self.steps));
                },
                Ok(ListInner::Cons(x, xs)) => {
                    assert(all.skip(self.steps as int).len() == all.len() - self.steps);
                    assert(all.skip(self.steps as int)[0] == all[self.steps as int]);
                    proof {
                        let k = choose|k: T| self.here.may_have(0, k) && cloned(k, x);
                        assert(self.start.may_have(self.steps + 0, k));
                    }
                    if self.steps == i {
                        return Ok(Found::Here(x));
                    }
                    proof {
                        let here = self.here;
                        let start = self.start;
                        let steps = self.steps;
                        assert forall|j: int, v: T| #[trigger] xs.may_have(j, v) implies start.may_have(
                            steps + 1 + j,
                            v,
                        ) by {
                            assert(here.may_have(j + 1, v));
                            assert(start.may_have(steps + (j + 1), v));
                        }
                    }
                    assert(all.skip(self.steps as int).drop_first() =~= all.skip(self.steps + 1));
                    self.steps = self.steps + 1;
                    self.here = xs;
                },
            }
        }
    }
}

/// Whether `out` is a copy of `node`: the same end, or a clone of the element with
/// the very same rest, which is shared and not copied.
pub open spec fn copy_of<T: Clone + View>(node: ListInner<T>, out: ListInner<T>) -> bool {
    match node {
        ListInner::Nil => out is Nil,
        ListInner::Cons(x, xs) => out matches ListInner::Cons(y, ys) && cloned(x, y) && ys == xs,
    }
}

/// Whether the element of `out` is a clone of a value `allowed` first, and what
/// can come in the list after it is `allowed` at the places after.
pub open spec fn node_handed<T: Clone + View>(
    out: ListInner<T>,
    allowed: spec_fn(int, T) -> bool,
) -> bool {
    out matches ListInner::Cons(y, ys) ==> (exists|k: T| #[trigger] allowed(0, k) && cloned(k, y))
        && forall|j: int, v: T| #[trigger] ys.may_have(j, v) ==> allowed(j + 1, v)
}

/// Whether the element of `out` is one that `l` hands out first, and what can come
/// in the list after it can come in `l` one place on.
pub open spec fn node_from<T: Clone + View>(out: ListInner<T>, l: List<T>) -> bool {
    out matches ListInner::Cons(y, ys) ==> l.hands(0, y) && forall|j: int, v: T| #[trigger]
        ys.may_have(j, v) ==> l.may_have(j + 1, v)
}

impl<T: Clone + View> List<T> {
    /// Whether `v` is a value that reading place `j` of the list can hand out: a
    /// clone of one that can come there.
    pub open spec fn hands(&self, j: int, v: T) -> bool {
        exists|k: T| self.may_have(j, k) && cloned(k, v)
    }
}

impl<T: Clone + View> ListState<T> {
    /// Whether this is a state that the cell of a list with the elements `s` may
    /// hold.
    pub open spec fn stands_for(&self, s: Seq<T::V>) -> bool {
        match *self {
            ListState::Value(node) => node_is(node, s),
            ListState::Func(src, i) => reads_as(*src, i, s),
            ListState::Lock => true,
        }
    }

    /// Whether what this state holds, or can come to hold, is among the values
    /// `allowed` at their places.
    pub open spec fn holds_within(&self, allowed: spec_fn(int, T) -> bool) -> bool {
        match *self {
            ListState::Value(node) => node_within(node, allowed),
            ListState::Func(src, i) => gives_within(*src, i, allowed),
            ListState::Lock => true,
        }
    }

    /// Whether reading the node is in order: the cell is not marked, and a pending
    /// source is ready and the position within it. A marked cell is never read:
    /// whoever holds the cell finds the mark with `check` first.
    pub open spec fn readable(&self) -> bool {
        match *self {
            ListState::Value(_) => true,
            ListState::Func(src, i) => src.0.ready() && i <= src.0.elems().len() <= usize::MAX,
            ListState::Lock => false,
        }
    }

    /// Fails on a marked cell, and on no other: the cell was reached while its node
    /// was being fetched, or after fetching it had failed.
    pub fn check(&self) -> (r: Result<(), PoisonedThunk>)
        ensures
            r is Err <==> *self is Lock,
    {
        match self {
            ListState::Lock => Err(PoisonedThunk),
            _ => Ok(()),
        }
    }

    /// What the state is after the node was read with the outcome `r`.
    ///
    /// A known node stays as it is and a copy of it is handed out. A pending one is
    /// fetched from its source once and kept, or, where the source failed, the mark
    /// stays; a source that cannot fail gives a node. A marked cell cannot be
    /// read.
    pub open spec fn read_as(before: Self, r: Result<ListInner<T>, PoisonedThunk>, after: Self) -> bool {
        match before {
            ListState::Value(node) => {
                &&& after == before
                &&& r matches Ok(out) && copy_of(node, out)
            },
            ListState::Func(src, _) => {
                &&& src.0.certain() ==> r is Ok
                &&& match r {
                    Ok(out) => after matches ListState::Value(node) && copy_of(node, out),
                    Err(_) => after is Lock,
                }
            },
            ListState::Lock => false,
        }
    }

    /// Reads the node, fetching it from the source if it is pending, and hands back
    /// a copy of it: the element is cloned, the rest is shared.
    pub fn read(&mut self) -> (r: Result<ListInner<T>, PoisonedThunk>)
        requires
            faithful_clone::<T>(),
            old(self).readable(),
        ensures
            Self::read_as(*old(self), r, *final(self)),
            forall|s: Seq<T::V>| #[trigger]
                old(self).stands_for(s) ==> final(self).stands_for(s) && (r matches Ok(node)
                    ==> node_is(node, s)),
            forall|allowed: spec_fn(int, T) -> bool| #[trigger]
                old(self).holds_within(allowed) ==> final(self).holds_within(allowed) && (
                r matches Ok(node) ==> node_handed(node, allowed)),
    {
        let mut taken = ListState::Lock;
        std::mem::swap(self, &mut taken);
        match taken {
            ListState::Value(node) => {
                let out = match &node {
                    ListInner::Nil => ListInner::Nil,
                    ListInner::Cons(x, xs) => {
                        let head = x.clone();
                        assert(cloned(*x, head));
                        ListInner::Cons(head, xs.clone())
                    },
                };
                assert forall|allowed: spec_fn(int, T) -> bool| #[trigger]
                    node_within(node, allowed) implies node_handed(out, allowed) by {
                    if let ListInner::Cons(x, xs) = node {
                        assert(allowed(0, x) && cloned(x, out->Cons_0));
                    }
                }
                *self = ListState::Value(node);
                Ok(out)
            },
            ListState::Func(src, i) => {
                let ghost source = src;
                match src.0.get(i) {
                    Err(e) => Err(e),
                    Ok(None) => {
                        *self = ListState::Value(ListInner::Nil);
                        Ok(ListInner::Nil)
                    },
                    Ok(Some(x)) => {
                        let ghost all = src.0.elems();
                        let tail = List::suspended(src, i + 1);
                        assert(all.skip(i as int).drop_first() =~= all.skip(i + 1));
                        let head = x.clone();
                        assert(cloned(x, head));
                        let kept = ListInner::Cons(x, tail.clone());
                        let out = ListInner::Cons(head, tail);
                        assert forall|allowed: spec_fn(int, T) -> bool| #[trigger]
                            gives_within(*source, i, allowed) implies node_within(kept, allowed)
                            && node_handed(out, allowed) by {
                            assert(source.0.may_give(i as int, x));
                            assert(allowed(0, x) && cloned(x, head));
                            assert forall|j: int, v: T| #[trigger]
                                tail.may_have(j, v) implies allowed(j + 1, v) by {
                                let p = i + 1 + j;
                                assert(source.0.may_give(p, v));
                                assert(allowed(p - i, v));
                            }
                        }
                        *self = ListState::Value(kept);
                        Ok(out)
                    },
                }
            },
            ListState::Lock => Err(PoisonedThunk),
        }
    }
}

impl<T: Clone + View> List<T> {
    /// Reads the first node, computing it if it is not known yet, and hands back a
    /// copy of it: the element is cloned, the rest is shared. Where the first node
    /// was given when the list was made, this cannot fail.
    pub fn eval(&self) -> (r: Result<ListInner<T>, PoisonedThunk>)
        requires
            faithful_clone::<T>(),
        ensures
            r matches Ok(node) ==> node_is(node, self@) && node_from(node, *self),
            self.known() ==> (r matches Ok(out) && copy_of(self.node(), out)),
    {
        match &*self.cell {
            ListCell::Known(node) => {
                proof {
                    self.lemma_known_node();
                }
                match node {
                    ListInner::Nil => Ok(ListInner::Nil),
                    ListInner::Cons(x, xs) => {
                        let head = x.clone();
                        assert(cloned(*x, head));
                        assert(self.may_have(0, *x));
                        let out = ListInner::Cons(head, xs.clone());
                        proof {
                            assert forall|j: int, v: T| #[trigger]
                                xs.may_have(j, v) implies self.may_have(j + 1, v) by {
                                xs.lemma_have_from_zero(j, v);
                            }
                        }
                        Ok(out)
                    },
                }
            },
            ListCell::Lazy(cell) => {
                let ghost allowed = cell.predicate().allowed;
                let mut state = cell.replace(ListState::Lock);
                assert(state.stands_for(self@));
                assert(state.holds_within(allowed));
                let r = match state.check() {
                    Ok(_) => state.read(),
                    Err(e) => Err(e),
                };
                proof {
                    if r is Ok && r->Ok_0 is Cons {
                        let y = r->Ok_0->Cons_0;
                        let k = choose|k: T| #[trigger] allowed(0, k) && cloned(k, y);
                        assert(self.may_have(0, k));
                        let ys = r->Ok_0->Cons_1;
                        assert forall|j: int, v: T| #[trigger]
                            ys.may_have(j, v) implies self.may_have(j + 1, v) by {
                            ys.lemma_have_from_zero(j, v);
                        }
                    }
                }
                let _ = cell.replace(state);
                r
            },
        }
    }

    /// Walks `i` steps from the first node and reports where that ended. On a built
    /// list this cannot fail.
    pub fn at(&self, i: usize) -> (r: Result<Found<T>, PoisonedThunk>)
        requires
            faithful_clone::<T>(),
        ensures
            r matches Ok(found) ==> found_at(found, self@, i) && found_from(found, *self, i),
            self.built() ==> r is Ok,
    {
        let mut walk = Walk::new(self);
        walk.seek(i)
    }

    /// All the elements, in order. Every node is read, so every pending part of the
    /// list is computed. On a built list this cannot fail.
    pub fn to_vec(&self) -> (r: Result<Vec<T>, PoisonedThunk>)
        requires
            faithful_clone::<T>(),
        ensures
            r matches Ok(v) ==> v@.len() == self@.len() && forall|j: int|
                0 <= j < v@.len() ==> (#[trigger] v@[j])@ == self@[j] && self.hands(j, v@[j]),
            self.built() ==> r is Ok,
    {
        let mut out: Vec<T> = Vec::new();
        let mut cur = self.clone();
        loop
            invariant
                faithful_clone::<T>(),
                out@.len() <= self@.len(),
                cur@ == self@.skip(out@.len() as int),
                forall|j: int|
                    0 <= j < out@.len() ==> (#[trigger] out@[j])@ == self@[j] && self.hands(
                        j,
                        out@[j],
                    ),
                forall|j: int, v: T| #[trigger]
                    cur.may_have(j, v) ==> self.may_have(out@.len() + j, v),
                self.built() ==> cur.built(),
            decreases self@.len() - out@.len(),
        {
            proof {
                cur.lemma_built();
            }
            let ghost before = cur;
            let ghost n = out@.len() as int;
            match cur.eval() {
                Err(e) => {
                    return Err(e);
                },
                Ok(ListInner::Nil) => {
                    return Ok(out);
                },
                Ok(ListInner::Cons(x, xs)) => {
                    assert(self@.skip(out@.len() as int).drop_first() =~= self@.skip(
                        out@.len() as int + 1,
                    ));
                    proof {
                        let k = choose|k: T| before.may_have(0, k) && cloned(k, x);
                        assert(self.may_have(n + 0, k));
                        assert forall|j: int, v: T| #[trigger] xs.may_have(j, v) implies self.may_have(
                            n + 1 + j,
                            v,
                        ) by {
                            assert(before.may_have(j + 1, v));
                            assert(self.may_have(n + (j + 1), v));
                        }
                    }
                    out.push(x);
                    cur = xs;
                },
            }
        }
    }
}

/// What the memory of a reader of a list with the elements `elems` may hold: a
/// place in that list.
#[verifier::reject_recursive_types(T)]
pub struct WalkPred<T: View> {
    pub from: List<T>,
}

impl<T: View> Predicate<Walk<T>> for WalkPred<T> {
    open spec fn predicate(&self, w: Walk<T>) -> bool {
        w.wf() && w.from() == self.from
    }
}

/// A list that is read by position and remembers the place it was read at last,
/// so that reading the positions in order walks the list once.
#[verifier::reject_recursive_types(T)]
pub struct Reader<T: View> {
    from: List<T>,
    last: InvCell<Walk<T>, WalkPred<T>>,
}

impl<T: View> Reader<T> {
    /// The memory is of a place in this reader's list.
    pub closed spec fn wf(&self) -> bool {
        self.last.predicate().from == self.from
    }

    /// The list that is read.
    pub closed spec fn from(&self) -> List<T> {
        self.from
    }

    /// Whether the list that is read is built, so that reading it cannot fail.
    pub closed spec fn sure(&self) -> bool {
        self.from.built()
    }

    /// The elements of the list that is read.
    pub closed spec fn list(&self) -> Seq<T::V> {
        self.from@
    }

    /// A reader of `list`, at its start.
    pub fn new(list: &List<T>) -> (r: Reader<T>)
        ensures
            r.wf(),
            r.list() == list@,
            r.from() == *list,
            r.sure() == list.built(),
    {
        let ghost pred = WalkPred::<T> { from: *list };
        Reader { from: list.clone(), last: InvCell::new(Walk::new(list), Ghost(pred)) }
    }
}

impl<T: Clone + View> Reader<T> {
    /// What is `i` steps from the start of the list. On a built list this cannot
    /// fail.
    pub fn at(&self, i: usize) -> (r: Result<Found<T>, PoisonedThunk>)
        requires
            self.wf(),
            faithful_clone::<T>(),
        ensures
            r matches Ok(found) ==> found_at(found, self.list(), i) && found_from(
                found,
                self.from(),
                i,
            ),
            self.sure() ==> r is Ok,
    {
        let mut walk = self.last.replace(Walk::new(&self.from));
        let r = walk.seek(i);
        let _ = self.last.replace(walk);
        r
    }
}

/// Whether `f` can give a value with the view `w` for a value with the view `a`.
pub open spec fn gives<T: View, U: View, F: Fn(T) -> U>(f: F, a: T::V, w: U::V) -> bool {
    exists|x: T, u: U| x@ == a && f.ensures((x,), u) && u@ == w
}

/// Whether each of `out` is what `f` can give for a value with the view at the
/// same place in `s`.
pub open spec fn mapped_from<T: View, U: View, F: Fn(T) -> U>(
    f: F,
    s: Seq<T::V>,
    out: Seq<U::V>,
) -> bool {
    &&& out.len() == s.len()
    &&& forall|j: int| 0 <= j < out.len() ==> gives::<T, U, F>(f, s[j], #[trigger] out[j])
}

/// Whether `u` is a value that `f` can give for a value that `l` hands out at
/// place `j`.
pub open spec fn made_from<T: Clone + View, U, F: Fn(T) -> U>(f: F, l: List<T>, j: int, u: U) -> bool {
    exists|x: T| l.hands(j, x) && f.ensures((x,), u)
}

impl<T: View> List<T> {
    /// The built list of `items`, in their order.
    fn collected(items: Vec<T>) -> (r: List<T>)
        ensures
            r.built(),
            r@.len() == items@.len(),
            forall|j: int| 0 <= j < items@.len() ==> #[trigger] r@[j] == items@[j]@,
            forall|j: int, v: T| #[trigger]
                r.may_have(j, v) ==> 0 <= j < items@.len() && v == items@[j],
    {
        let ghost all = items@;
        let mut items = items;
        let mut out: List<T> = List::nil();
        while items.len() > 0
            invariant
                items@.len() <= all.len(),
                forall|j: int| 0 <= j < items@.len() ==> #[trigger] items@[j] == all[j],
                out.built(),
                out@.len() == all.len() - items@.len(),
                forall|m: int| 0 <= m < out@.len() ==> #[trigger] out@[m] == all[items@.len() + m]@,
                forall|m: int, v: T| #[trigger]
                    out.may_have(m, v) ==> 0 <= m < out@.len() && v == all[items@.len() + m],
            decreases items@.len(),
        {
            let ghost before = out@;
            let ghost shorter = out;
            let x = items.pop().unwrap();
            out = List::cons(x, &out);
            assert forall|m: int, v: T| #[trigger] out.may_have(m, v) implies 0 <= m < out@.len()
                && v == all[items@.len() + m] by {
                if m != 0 {
                    assert(shorter.may_have(m - 1, v));
                }
            }
            assert forall|m: int| 0 <= m < out@.len() implies #[trigger] out@[m] == all[items@.len()
                + m]@ by {
                if m > 0 {
                    assert(out@[m] == before[m - 1]);
                }
            }
        }
        out
    }
}

impl<T: Clone + View> List<T> {
    /// The list of `map_func` applied to each element, computed now: the whole list
    /// is read and `map_func` is called on every element, from the first to the
    /// last, before this returns. The result is a built list, and on a built list
    /// this cannot fail.
    pub fn map_strict<U: View, F: Fn(T) -> U>(&self, map_func: F) -> (r: Result<
        List<U>,
        PoisonedThunk,
    >)
        requires
            faithful_clone::<T>(),
            forall|j: int|
                0 <= j < self@.len() ==> callable_at::<T, U, F>(map_func, #[trigger] self@[j]),
        ensures
            r matches Ok(l) ==> mapped_from::<T, U, F>(map_func, self@, l@) && l.built(),
            r matches Ok(l) ==> forall|j: int, u: U| #[trigger]
                l.may_have(j, u) ==> made_from::<T, U, F>(map_func, *self, j, u),
            self.built() ==> r is Ok,
    {
        let mut results: Vec<U> = Vec::new();
        let mut cur = self.clone();
        loop
            invariant
                faithful_clone::<T>(),
                results@.len() <= self@.len(),
                cur@ == self@.skip(results@.len() as int),
                forall|j: int|
                    0 <= j < self@.len() ==> callable_at::<T, U, F>(map_func, #[trigger] self@[j]),
                forall|m: int|
                    0 <= m < results@.len() ==> gives::<T, U, F>(
                        map_func,
                        self@[m],
                        (#[trigger] results@[m])@,
                    ),
                forall|m: int|
                    0 <= m < results@.len() ==> made_from::<T, U, F>(
                        map_func,
                        *self,
                        m,
                        #[trigger] results@[m],
                    ),
                forall|j: int, v: T| #[trigger]
                    cur.may_have(j, v) ==> self.may_have(results@.len() + j, v),
                self.built() ==> cur.built(),
            decreases self@.len() - results@.len(),
        {
            let ghost k = results@.len() as int;
            let ghost before = cur;
            let ghost done = results@;
            proof {
                cur.lemma_built();
                assert(self@.skip(k).len() == self@.len() - k);
            }
            match cur.eval() {
                Err(e) => {
                    return Err(e);
                },
                Ok(ListInner::Nil) => {
                    let ghost given = results@;
                    let out = List::collected(results);
                    assert forall|j: int| 0 <= j < out@.len() implies gives::<T, U, F>(
                        map_func,
                        self@[j],
                        #[trigger] out@[j],
                    ) by {
                        assert(out@[j] == given[j]@);
                    }
                    assert forall|j: int, u: U| #[trigger] out.may_have(j, u) implies made_from::<
                        T,
                        U,
                        F,
                    >(map_func, *self, j, u) by {
                        assert(u == given[j]);
                    }
                    return Ok(out);
                },
                Ok(ListInner::Cons(x, xs)) => {
                    let ghost a = x@;
                    assert(self@.skip(k)[0] == self@[k]);
                    assert(self@.skip(k).drop_first() =~= self@.skip(k + 1));
                    proof {
                        let held = choose|held: T| before.may_have(0, held) && cloned(held, x);
                        assert(self.may_have(k + 0, held));
                        assert(self.hands(k, x));
                        assert forall|j: int, v: T| #[trigger] xs.may_have(j, v) implies self.may_have(
                            k + 1 + j,
                            v,
                        ) by {
                            assert(before.may_have(j + 1, v));
                            assert(self.may_have(k + (j + 1), v));
                        }
                    }
                    let u = map_func(x);
                    assert(gives::<T, U, F>(map_func, a, u@));
                    results.push(u);
                    assert forall|m: int| 0 <= m < results@.len() implies made_from::<T, U, F>(
                        map_func,
                        *self,
                        m,
                        #[trigger] results@[m],
                    ) by {
                        if m < k {
                            assert(results@[m] == done[m]);
                        } else {
                            assert(self.hands(m, x) && map_func.ensures((x,), results@[m]));
                        }
                    }
                    cur = xs;
                },
            }
        }
    }
}

impl<T: View> List<T> {
    /// How far the first node has been computed. Nothing is computed by asking. A
    /// first node that was given when the list was made is evaluated.
    pub fn status(&self) -> (r: Status)
        ensures
            self.known() ==> r == Status::Evaluated,
    {
        match &*self.cell {
            ListCell::Known(_) => Status::Evaluated,
            ListCell::Lazy(cell) => {
                let state = cell.replace(ListState::Lock);
                let status = state.status();
                let _ = cell.replace(state);
                status
            },
        }
    }
}

impl<T: View> ListState<T> {
    /// The status that goes with each state: a node that is there is evaluated, one
    /// still to be fetched from its source is unevaluated, a marked cell is poisoned.
    pub open spec fn status_of(&self) -> Status {
        match self {
            ListState::Value(_) => Status::Evaluated,
            ListState::Func(_, _) => Status::Unevaluated,
            ListState::Lock => Status::Poisoned,
        }
    }

    /// How far the node has been computed.
    pub fn status(&self) -> (r: Status)
        ensures
            r == self.status_of(),
    {
        match self {
            ListState::Value(_) => Status::Evaluated,
            ListState::Func(_, _) => Status::Unevaluated,
            ListState::Lock => Status::Poisoned,
        }
    }
}

impl<T: Clone + View> ListState<T> {
    /// What the state shows as it is: a copy of the node, if it is known.
    pub fn look(&self) -> (r: Seen<ListInner<T>>)
        requires
            faithful_clone::<T>(),
        ensures
            match *self {
                ListState::Value(node) => r matches Seen::Value(out) && copy_of(node, out),
                ListState::Func(_, _) => r is Unevaluated,
                ListState::Lock => r is Poisoned,
            },
            forall|s: Seq<T::V>| #[trigger]
                self.stands_for(s) ==> (r matches Seen::Value(node) ==> node_is(node, s)),
            forall|allowed: spec_fn(int, T) -> bool| #[trigger]
                self.holds_within(allowed) ==> (r matches Seen::Value(node) ==> node_handed(
                    node,
                    allowed,
                )),
    {
        match self {
            ListState::Value(node) => {
                let out = match node {
                    ListInner::Nil => ListInner::Nil,
                    ListInner::Cons(x, xs) => {
                        let head = x.clone();
                        assert(cloned(*x, head));
                        ListInner::Cons(head, xs.clone())
                    },
                };
                Seen::Value(out)
            },
            ListState::Func(_, _) => Seen::Unevaluated,
            ListState::Lock => Seen::Poisoned,
        }
    }
}

impl<T: Clone + View> List<T> {
    /// What the first node shows as it is: a copy of it, if it was computed.
    /// Nothing is computed by looking. A first node that was given when the list
    /// was made is shown.
    pub fn look(&self) -> (r: Seen<ListInner<T>>)
        requires
            faithful_clone::<T>(),
        ensures
            r matches Seen::Value(node) ==> node_is(node, self@) && node_from(node, *self),
            self.known() ==> (r matches Seen::Value(out) && copy_of(self.node(), out)),
    {
        match &*self.cell {
            ListCell::Known(node) => {
                proof {
                    self.lemma_known_node();
                }
                match node {
                    ListInner::Nil => Seen::Value(ListInner::Nil),
                    ListInner::Cons(x, xs) => {
                        let head = x.clone();
                        assert(cloned(*x, head));
                        assert(self.may_have(0, *x));
                        let out = ListInner::Cons(head, xs.clone());
                        proof {
                            assert forall|j: int, v: T| #[trigger]
                                xs.may_have(j, v) implies self.may_have(j + 1, v) by {
                                xs.lemma_have_from_zero(j, v);
                            }
                        }
                        Seen::Value(out)
                    },
                }
            },
            ListCell::Lazy(cell) => {
                let ghost allowed = cell.predicate().allowed;
                let state = cell.replace(ListState::Lock);
                assert(state.stands_for(self@));
                assert(state.holds_within(allowed));
                let seen = state.look();
                proof {
                    if seen is Value && seen->Value_0 is Cons {
                        let y = seen->Value_0->Cons_0;
                        let k = choose|k: T| #[trigger] allowed(0, k) && cloned(k, y);
                        assert(self.may_have(0, k));
                        let ys = seen->Value_0->Cons_1;
                        assert forall|j: int, v: T| #[trigger]
                            ys.may_have(j, v) implies self.may_have(j + 1, v) by {
                            ys.lemma_have_from_zero(j, v);
                        }
                    }
                }
                let _ = cell.replace(state);
                seen
            },
        }
    }
}

} // verus!
