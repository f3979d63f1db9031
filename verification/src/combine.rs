//! Lists made from lists without reading them: appending, mapping, joining,
//! binding and the product. Each result is read from its operands node by node,
//! when it is read itself.

use crate::list::{made_from, Found, List, ListInner, Reader, Source, Walk};
use crate::thunk::{callable_at, carries, faithful_clone, lemma_settled_carries, settled_at, Held, PoisonedThunk};
use std::rc::Rc;
use vstd::cell::invcell::InvCell;
use vstd::predicate::Predicate;
use vstd::prelude::*;

verus! {

/// The elements of `front` followed by those of `back`. Reading cannot fail where
/// both are built lists.
#[verifier::reject_recursive_types(T)]
pub struct AppendSource<T: View> {
    pub front: Reader<T>,
    pub back: Reader<T>,
}

impl<T: Clone + View> Source<T> for AppendSource<T> {
    open spec fn ready(&self) -> bool {
        faithful_clone::<T>() && self.front.wf() && self.back.wf()
    }

    open spec fn certain(&self) -> bool {
        self.front.sure() && self.back.sure()
    }

    open spec fn elems(&self) -> Seq<T::V> {
        self.front.list() + self.back.list()
    }

    open spec fn may_give(&self, i: int, v: T) -> bool {
        if i < self.front.list().len() {
            self.front.from().hands(i, v)
        } else {
            self.back.from().hands(i - self.front.list().len(), v)
        }
    }

    fn get(&self, i: usize) -> (r: Result<Option<T>, PoisonedThunk>) {
        match self.front.at(i) {
            Err(e) => Err(e),
            Ok(Found::Here(x)) => Ok(Some(x)),
            Ok(Found::Past(k)) => match self.back.at(k) {
                Err(e) => Err(e),
                Ok(Found::Here(y)) => Ok(Some(y)),
                Ok(Found::Past(_)) => Ok(None),
            },
        }
    }
}

impl<T: 'static + Clone + View> List<T> {
    /// The elements of this list followed by those of `tail`. Neither list is read
    /// before the result is. What can come at a place of the result is what this
    /// list hands out there or, past its end, what `tail` hands out.
    pub fn append(&self, tail: &List<T>) -> (r: List<T>)
        requires
            faithful_clone::<T>(),
            self@.len() + tail@.len() <= usize::MAX,
        ensures
            !r.known(),
            r@ == self@ + tail@,
            forall|j: int, v: T| #[trigger]
                r.may_have(j, v) <==> j >= 0 && if j < self@.len() {
                    self.hands(j, v)
                } else {
                    tail.hands(j - self@.len(), v)
                },
    {
        let pending = AppendSource { front: Reader::new(self), back: Reader::new(tail) };
        let boxed: Box<dyn Source<T>> = Box::new(pending);
        let held = Held(boxed);
        assert(held.0.ready());
        assert(held.0.elems() == self@ + tail@);
        assert(forall|j: int, v: T| #[trigger] held.0.may_give(j, v) == pending.may_give(j, v));
        let r = List::suspended(Rc::new(held), 0);
        assert(r@ =~= self@ + tail@);
        r
    }
}

/// A function from `T` to `U` that is settled up to the views: `image` gives the
/// view of the result from the view of the argument, and `maps` relates an
/// argument to every result that can come of it.
pub trait Mapper<T: View, U: View> {
    spec fn ready(&self, a: T::V) -> bool;

    spec fn image(&self, a: T::V) -> U::V;

    spec fn maps(&self, x: T, u: U) -> bool;

    fn apply(&self, x: T) -> (u: U)
        requires
            self.ready(x@),
        ensures
            u@ == self.image(x@),
            self.maps(x, u),
    ;
}

/// Whether `u` is a value that `m` can give for a value that `l` hands out at
/// place `j`.
pub open spec fn mapped_at<T: Clone + View, U: View, M: Mapper<T, U>>(
    m: M,
    l: List<T>,
    j: int,
    u: U,
) -> bool {
    exists|x: T| l.hands(j, x) && m.maps(x, u)
}

/// The view that `f` carries every value with the view `a` to, where there is one.
pub open spec fn image_of<T: View, U: View, F: Fn(T) -> U>(f: F, a: T::V) -> U::V {
    choose|w: U::V| carries::<T, U, F>(f, a, w)
}

/// A closure seen as a mapper, together with the function on views that it
/// follows.
#[verifier::reject_recursive_types(A)]
pub struct FnMapper<F, A, B> {
    pub f: F,
    pub image: Ghost<spec_fn(A) -> B>,
}

impl<T: View, U: View, F: Fn(T) -> U> Mapper<T, U> for FnMapper<F, T::V, U::V> {
    open spec fn ready(&self, a: T::V) -> bool {
        callable_at::<T, U, F>(self.f, a) && carries::<T, U, F>(self.f, a, (self.image@)(a))
    }

    open spec fn image(&self, a: T::V) -> U::V {
        (self.image@)(a)
    }

    open spec fn maps(&self, x: T, u: U) -> bool {
        self.f.ensures((x,), u)
    }

    fn apply(&self, x: T) -> (u: U) {
        (self.f)(x)
    }
}

/// The images under `with` of the elements of `src`. Reading cannot fail where
/// `src` is a built list.
#[verifier::reject_recursive_types(T)]
pub struct MapSource<T: View, M> {
    pub src: Reader<T>,
    pub with: M,
}

/// The images under `m` of the views in `s`.
pub open spec fn images<T: View, U: View, M: Mapper<T, U>>(m: M, s: Seq<T::V>) -> Seq<U::V> {
    Seq::new(s.len(), |j: int| m.image(s[j]))
}

/// Whether `m` may be applied to every value whose view is in `s`.
pub open spec fn ready_on<T: View, U: View, M: Mapper<T, U>>(m: M, s: Seq<T::V>) -> bool {
    forall|j: int| 0 <= j < s.len() ==> m.ready(#[trigger] s[j])
}

impl<T: Clone + View, U: View, M: Mapper<T, U>> Source<U> for MapSource<T, M> {
    open spec fn ready(&self) -> bool {
        &&& faithful_clone::<T>()
        &&& self.src.wf()
        &&& ready_on::<T, U, M>(self.with, self.src.list())
    }

    open spec fn certain(&self) -> bool {
        self.src.sure()
    }

    open spec fn elems(&self) -> Seq<U::V> {
        images::<T, U, M>(self.with, self.src.list())
    }

    open spec fn may_give(&self, i: int, v: U) -> bool {
        mapped_at::<T, U, M>(self.with, self.src.from(), i, v)
    }

    fn get(&self, i: usize) -> (r: Result<Option<U>, PoisonedThunk>) {
        match self.src.at(i) {
            Err(e) => Err(e),
            Ok(Found::Here(x)) => Ok(Some(self.with.apply(x))),
            Ok(Found::Past(_)) => Ok(None),
        }
    }
}

impl<T: 'static + Clone + View> List<T> {
    /// The list of the images under `m` of this list's elements. `m` is applied to
    /// an element only when the node that holds its image is read.
    pub fn map_with<U: 'static + View, M: 'static + Mapper<T, U>>(&self, m: M) -> (r: List<U>)
        requires
            faithful_clone::<T>(),
            self@.len() <= usize::MAX,
            ready_on::<T, U, M>(m, self@),
        ensures
            !r.known(),
            r@ == images::<T, U, M>(m, self@),
            forall|j: int, u: U| #[trigger]
                r.may_have(j, u) <==> j >= 0 && mapped_at::<T, U, M>(m, *self, j, u),
    {
        let pending = MapSource { src: Reader::new(self), with: m };
        let boxed: Box<dyn Source<U>> = Box::new(pending);
        let held = Held(boxed);
        assert(held.0.ready());
        assert(held.0.elems() == images::<T, U, M>(m, self@));
        assert(forall|j: int, u: U| #[trigger] held.0.may_give(j, u) == pending.may_give(j, u));
        let r = List::suspended(Rc::new(held), 0);
        assert(r@ =~= images::<T, U, M>(m, self@));
        r
    }

    /// The list of `map_func` applied to each element, for a caller who knows the
    /// function `g` on views that `map_func` follows. `map_func` is called on an
    /// element only when the node that holds the result is read, and once for it.
    pub fn map_as<U: 'static + View, F: 'static + Fn(T) -> U>(
        &self,
        map_func: F,
        Ghost(g): Ghost<spec_fn(T::V) -> U::V>,
    ) -> (r: List<U>)
        requires
            faithful_clone::<T>(),
            self@.len() <= usize::MAX,
            forall|j: int|
                0 <= j < self@.len() ==> callable_at::<T, U, F>(map_func, #[trigger] self@[j]),
            forall|j: int|
                0 <= j < self@.len() ==> carries::<T, U, F>(
                    map_func,
                    #[trigger] self@[j],
                    g(self@[j]),
                ),
        ensures
            !r.known(),
            r@ == self@.map_values(g),
            forall|j: int, u: U| #[trigger]
                r.may_have(j, u) <==> j >= 0 && made_from::<T, U, F>(map_func, *self, j, u),
    {
        let m = FnMapper { f: map_func, image: Ghost(g) };
        let r = self.map_with(m);
        assert(r@ =~= self@.map_values(g));
        assert forall|j: int, u: U| #[trigger] r.may_have(j, u) <==> j >= 0 && made_from::<T, U, F>(
            map_func,
            *self,
            j,
            u,
        ) by {
            assert(mapped_at::<T, U, FnMapper<F, T::V, U::V>>(m, *self, j, u) <==> made_from::<
                T,
                U,
                F,
            >(map_func, *self, j, u));
        }
        r
    }

    /// The list of `map_func` applied to each element. `map_func` is called on an
    /// element only when the node that holds the result is read, and once for it.
    /// What can come at a place of the result is what `map_func` can give for what
    /// this list hands out there.
    pub fn map<U: 'static + View, F: 'static + Fn(T) -> U>(&self, map_func: F) -> (r: List<U>)
        requires
            faithful_clone::<T>(),
            self@.len() <= usize::MAX,
            forall|j: int|
                0 <= j < self@.len() ==> callable_at::<T, U, F>(map_func, #[trigger] self@[j]),
            forall|j: int|
                0 <= j < self@.len() ==> settled_at::<T, U, F>(map_func, #[trigger] self@[j]),
        ensures
            !r.known(),
            r@ == self@.map_values(|a: T::V| image_of::<T, U, F>(map_func, a)),
            forall|j: int|
                0 <= j < self@.len() ==> carries::<T, U, F>(map_func, self@[j], #[trigger] r@[j]),
            forall|j: int, u: U| #[trigger]
                r.may_have(j, u) <==> j >= 0 && made_from::<T, U, F>(map_func, *self, j, u),
    {
        let ghost g = |a: T::V| image_of::<T, U, F>(map_func, a);
        proof {
            assert forall|j: int| 0 <= j < self@.len() implies carries::<T, U, F>(
                map_func,
                #[trigger] self@[j],
                g(self@[j]),
            ) by {
                let w = lemma_settled_carries::<T, U, F>(map_func, self@[j]);
            }
        }
        self.map_as(map_func, Ghost(g))
    }
}

/// Flattening a sequence that starts with `first` and goes on as `rest`.
pub proof fn lemma_flatten_step<A>(s: Seq<Seq<A>>)
    requires
        s.len() > 0,
    ensures
        s.flatten() == s[0] + s.drop_first().flatten(),
{
}

/// Whether `h` can come at some place of `l`.
pub open spec fn held_in<T: View>(l: List<List<T>>, h: List<T>) -> bool {
    exists|q: int| l.may_have(q, h)
}

/// Whether `l` hands out `h` at some place.
pub open spec fn handed_in<T: View>(l: List<List<T>>, h: List<T>) -> bool {
    exists|q: int| l.hands(q, h)
}

/// Whether `v` is handed out, at some place, by a list that `l` hands out at some
/// place.
pub open spec fn joined_in<T: Clone + View>(l: List<List<T>>, v: T) -> bool {
    exists|h: List<T>, p: int| handed_in(l, h) && h.hands(p, v)
}

/// A place in the elements of a list of lists taken one list after the other: the
/// number of elements in the lists left behind, a place in the list that was
/// entered last, and the lists that were not entered yet.
#[verifier::reject_recursive_types(T)]
pub struct JoinWalk<T: View> {
    start: List<List<T>>,
    before: usize,
    inner: Walk<T>,
    rest: List<List<T>>,
}

impl<T: View> JoinWalk<T> {
    /// What lies from `before` on is the list entered last and then the lists not
    /// entered yet.
    pub closed spec fn wf(&self) -> bool {
        &&& self.inner.wf()
        &&& self.before <= self.start@.flatten().len()
        &&& self.start@.flatten().skip(self.before as int) == self.inner.list()
            + self.rest@.flatten()
        &&& self.start.built_deep() ==> self.inner.sure() && self.rest.built_deep()
        &&& self.inner.list().len() > 0 ==> handed_in(self.start, self.inner.from())
        &&& forall|j: int, h: List<T>| #[trigger]
            self.rest.may_have(j, h) ==> held_in(self.start, h)
    }

    /// The list of lists that is walked.
    pub closed spec fn from(&self) -> List<List<T>> {
        self.start
    }

    /// Whether the list and every list in it are built, so that walking them
    /// cannot fail.
    pub closed spec fn sure(&self) -> bool {
        self.start.built_deep()
    }

    /// All the elements, one inner list after the other.
    pub closed spec fn list(&self) -> Seq<T::V> {
        self.start@.flatten()
    }

    /// The start of the elements of `lists`.
    pub fn new(lists: &List<List<T>>) -> (w: JoinWalk<T>)
        ensures
            w.wf(),
            w.list() == lists@.flatten(),
            w.from() == *lists,
            w.sure() == lists.built_deep(),
    {
        let inner = Walk::new(&List::nil());
        assert(lists@.flatten().skip(0) =~= inner.list() + lists@.flatten());
        JoinWalk { start: lists.clone(), before: 0, inner, rest: lists.clone() }
    }
}

impl<T: Clone + View> JoinWalk<T> {
    /// Moves to the element at `i`, forward from where the walk is or, if that is
    /// behind it, from the start, and hands it back, or `None` past the end. Where the
    /// list and the lists in it are built, this cannot fail.
    pub fn seek(&mut self, i: usize) -> (r: Result<Option<T>, PoisonedThunk>)
        requires
            old(self).wf(),
            faithful_clone::<T>(),
        ensures
            final(self).wf(),
            final(self).list() == old(self).list(),
            final(self).sure() == old(self).sure(),
            final(self).from() == old(self).from(),
            r matches Ok(got) ==> match got {
                Some(x) => i < old(self).list().len() && x@ == old(self).list()[i as int]
                    && joined_in(old(self).from(), x),
                None => i >= old(self).list().len(),
            },
            old(self).sure() ==> r is Ok,
    {
        let ghost all = self.start@.flatten();
        if i < self.before {
            self.inner = Walk::new(&List::nil());
            self.rest = self.start.clone();
            self.before = 0;
            assert(all.skip(0) =~= self.inner.list() + self.rest@.flatten());
        }
        loop
            invariant
                faithful_clone::<T>(),
                self.wf(),
                all == self.start@.flatten(),
                self.list() == old(self).list(),
                self.sure() == old(self).sure(),
                self.from() == old(self).from(),
                self.before <= i,
            decreases self.rest@.len(),
        {
            proof {
                self.rest.lemma_built_deep();
            }
            let ghost cur = self.inner.list();
            let ghost later = self.rest@.flatten();
            assert(all.skip(self.before as int).len() == all.len() - self.before);
            assert((cur + later).len() == cur.len() + later.len());
            match self.inner.seek(i - self.before) {
                Err(e) => {
                    return Err(e);
                },
                Ok(Found::Here(x)) => {
                    assert((cur + later)[i - self.before] == cur[i - self.before]);
                    assert(all.skip(self.before as int)[i - self.before] == all[i as int]);
                    return Ok(Some(x));
                },
                Ok(Found::Past(k)) => {
                    match self.rest.eval() {
                        Err(e) => {
                            return Err(e);
                        },
                        Ok(ListInner::Nil) => {
                            assert(later.len() == 0);
                            return Ok(None);
                        },
                        Ok(ListInner::Cons(xs, more)) => {
                            proof {
                                let start = self.start;
                                let rest = self.rest;
                                let kept = choose|h: List<T>| rest.may_have(0, h) && cloned(h, xs);
                                assert(held_in(start, kept));
                                let q = choose|q: int| start.may_have(q, kept);
                                assert(start.hands(q, xs));
                                assert(handed_in(start, xs));
                                assert forall|j: int, h: List<T>| #[trigger]
                                    more.may_have(j, h) implies held_in(start, h) by {
                                    assert(rest.may_have(j + 1, h));
                                }
                                lemma_flatten_step(self.rest@);
                                assert(all.skip(self.before as int).skip(cur.len() as int)
                                    =~= all.skip(i - k));
                                assert((cur + later).skip(cur.len() as int) =~= later);
                            }
                            self.before = i - k;
                            self.inner = Walk::new(&xs);
                            self.rest = more;
                        },
                    }
                },
            }
        }
    }
}

/// What the memory of a source of joined lists may hold: a place in the elements
/// `elems`.
#[verifier::reject_recursive_types(T)]
pub struct JoinWalkPred<T: View> {
    pub from: List<List<T>>,
}

impl<T: View> Predicate<JoinWalk<T>> for JoinWalkPred<T> {
    open spec fn predicate(&self, w: JoinWalk<T>) -> bool {
        w.wf() && w.from() == self.from
    }
}

/// The elements of the lists in `src`, one list after the other, with the place
/// that was read last. Reading cannot fail where `src` and the lists in it are
/// built.
#[verifier::reject_recursive_types(T)]
pub struct JoinSource<T: View> {
    pub src: List<List<T>>,
    pub last: InvCell<JoinWalk<T>, JoinWalkPred<T>>,
}

impl<T: Clone + View> Source<T> for JoinSource<T> {
    open spec fn ready(&self) -> bool {
        faithful_clone::<T>() && self.last.predicate().from == self.src
    }

    open spec fn certain(&self) -> bool {
        self.src.built_deep()
    }

    open spec fn elems(&self) -> Seq<T::V> {
        self.src@.flatten()
    }

    open spec fn may_give(&self, i: int, v: T) -> bool {
        joined_in(self.src, v)
    }

    fn get(&self, i: usize) -> (r: Result<Option<T>, PoisonedThunk>) {
        let mut walk = self.last.replace(JoinWalk::new(&self.src));
        let r = walk.seek(i);
        let _ = self.last.replace(walk);
        r
    }
}

impl<T: 'static + Clone + View> List<List<T>> {
    /// The elements of the inner lists, one list after the other. Nothing is read
    /// before the result is. What can come in the result is what a list that this
    /// list hands out hands out.
    pub fn join(&self) -> (r: List<T>)
        requires
            faithful_clone::<T>(),
            self@.flatten().len() <= usize::MAX,
        ensures
            !r.known(),
            r@ == self@.flatten(),
            forall|k: int, v: T| #[trigger] r.may_have(k, v) <==> k >= 0 && joined_in(*self, v),
    {
        let ghost pred = JoinWalkPred::<T> { from: *self };
        let pending = JoinSource {
            src: self.clone(),
            last: InvCell::new(JoinWalk::new(self), Ghost(pred)),
        };
        let boxed: Box<dyn Source<T>> = Box::new(pending);
        let held = Held(boxed);
        assert(held.0.ready());
        assert(held.0.elems() == self@.flatten());
        let r = List::suspended(Rc::new(held), 0);
        assert(r@ =~= self@.flatten());
        r
    }
}

/// The elements of a list that `f` can give for a value with the view `a`, and
/// none where `f` can give nothing for such a value.
pub open spec fn lists_of<T: View, U: View, F: Fn(T) -> List<U>>(f: F, a: T::V) -> Seq<U::V> {
    if exists|x: T, h: List<U>| x@ == a && f.ensures((x,), h) {
        (choose|p: (T, List<U>)| p.0@ == a && f.ensures((p.0,), p.1)).1@
    } else {
        Seq::empty()
    }
}

/// `lists_of` as a function of the view.
pub open spec fn lists_by<T: View, U: View, F: Fn(T) -> List<U>>(f: F) -> spec_fn(T::V) -> Seq<
    U::V,
> {
    |a: T::V| lists_of::<T, U, F>(f, a)
}

/// The views of what binding `f` over a list with the views `s` gives: the lists
/// that `f` gives for the elements, one after the other.
pub open spec fn bound<T: View, U: View, F: Fn(T) -> List<U>>(f: F, s: Seq<T::V>) -> Seq<U::V> {
    s.map_values(lists_by::<T, U, F>(f)).flatten()
}

/// Where `f` is settled at `a`, it carries `a` to `lists_of(f, a)`.
pub proof fn lemma_lists_of<T: View, U: View, F: Fn(T) -> List<U>>(f: F, a: T::V)
    requires
        settled_at::<T, List<U>, F>(f, a),
    ensures
        carries::<T, List<U>, F>(f, a, lists_of::<T, U, F>(f, a)),
{
    if exists|x: T, h: List<U>| x@ == a && f.ensures((x,), h) {
        let (x0, h0) = choose|x: T, h: List<U>| x@ == a && f.ensures((x,), h);
        assert((x0, h0).0@ == a && f.ensures(((x0, h0).0,), (x0, h0).1));
        let p = choose|p: (T, List<U>)| p.0@ == a && f.ensures((p.0,), p.1);
        assert forall|x: T, h: List<U>| x@ == a && f.ensures((x,), h) implies h@ == p.1@ by {
            assert(p.0@ == a && f.ensures((p.0,), p.1));
        }
    }
}

/// What binding gives is no longer than the lists that `g` foretells, where `f`
/// carries every view in `s` to what `g` gives for it. So a bound on the lengths
/// that `g` gives is a bound for `bound`.
pub proof fn lemma_bound_fits<T: View, U: View, F: Fn(T) -> List<U>>(
    f: F,
    s: Seq<T::V>,
    g: spec_fn(T::V) -> Seq<U::V>,
)
    requires
        forall|j: int| 0 <= j < s.len() ==> carries::<T, List<U>, F>(f, #[trigger] s[j], g(s[j])),
    ensures
        bound::<T, U, F>(f, s).len() <= s.map_values(g).flatten().len(),
    decreases s.len(),
{
    let each = lists_by::<T, U, F>(f);
    if s.len() > 0 {
        let rest = s.drop_first();
        assert forall|j: int| 0 <= j < rest.len() implies carries::<T, List<U>, F>(
            f,
            #[trigger] rest[j],
            g(rest[j]),
        ) by {
            assert(rest[j] == s[j + 1]);
        }
        lemma_bound_fits::<T, U, F>(f, rest, g);
        assert(s.map_values(each).drop_first() =~= rest.map_values(each));
        assert(s.map_values(g).drop_first() =~= rest.map_values(g));
        lemma_flatten_step(s.map_values(each));
        lemma_flatten_step(s.map_values(g));
        let a = s[0];
        assert(carries::<T, List<U>, F>(f, a, g(a)));
        if exists|x: T, h: List<U>| x@ == a && f.ensures((x,), h) {
            let p = choose|p: (T, List<U>)| p.0@ == a && f.ensures((p.0,), p.1);
            let (x0, h0) = choose|x: T, h: List<U>| x@ == a && f.ensures((x,), h);
            assert((x0, h0).0@ == a && f.ensures(((x0, h0).0,), (x0, h0).1));
            assert(p.1@ == g(a));
        }
        assert(each(a).len() <= g(a).len());
    } else {
        assert(s.map_values(each) =~= Seq::<Seq<U::V>>::empty());
        assert(s.map_values(g) =~= Seq::<Seq<U::V>>::empty());
    }
}

/// Whether `v` is handed out, at some place, by a list that `f` can give for a
/// value that `l` hands out at some place.
pub open spec fn bound_in<T: Clone + View, U: Clone + View, F: Fn(T) -> List<U>>(
    f: F,
    l: List<T>,
    v: U,
) -> bool {
    exists|j: int, x: T, h: List<U>, p: int| l.hands(j, x) && f.ensures((x,), h) && h.hands(p, v)
}

/// What is joined from the lists mapped by `f` is bound by `f`.
pub proof fn lemma_bound_in<T: Clone + View, U: Clone + View, F: Fn(T) -> List<U>>(
    f: F,
    l: List<T>,
    mapped: List<List<U>>,
    v: U,
)
    requires
        forall|j: int, h: List<U>| #[trigger]
            mapped.may_have(j, h) <==> j >= 0 && made_from::<T, List<U>, F>(f, l, j, h),
        joined_in(mapped, v),
    ensures
        bound_in::<T, U, F>(f, l, v),
{
    let (h, p) = choose|h: List<U>, p: int| handed_in(mapped, h) && h.hands(p, v);
    let q = choose|q: int| mapped.hands(q, h);
    let kept = choose|kept: List<U>| mapped.may_have(q, kept) && cloned(kept, h);
    assert(h == kept);
    assert(made_from::<T, List<U>, F>(f, l, q, kept));
    let x = choose|x: T| l.hands(q, x) && f.ensures((x,), kept);
    assert(l.hands(q, x) && f.ensures((x,), h) && h.hands(p, v));
}

impl<T: 'static + Clone + View> List<T> {
    /// The lists that `f` gives for the elements, one after the other, for a caller
    /// who knows the function `g` on views that `f` follows. `f` is called only when
    /// the result is read.
    pub fn bind_as<U: 'static + Clone + View, F: 'static + Fn(T) -> List<U>>(
        &self,
        f: F,
        Ghost(g): Ghost<spec_fn(T::V) -> Seq<U::V>>,
    ) -> (r: List<U>)
        requires
            faithful_clone::<T>(),
            faithful_clone::<U>(),
            self@.len() <= usize::MAX,
            forall|j: int|
                0 <= j < self@.len() ==> callable_at::<T, List<U>, F>(f, #[trigger] self@[j]),
            forall|j: int|
                0 <= j < self@.len() ==> carries::<T, List<U>, F>(
                    f,
                    #[trigger] self@[j],
                    g(self@[j]),
                ),
            self@.map_values(g).flatten().len() <= usize::MAX,
        ensures
            !r.known(),
            r@ == self@.map_values(g).flatten(),
            forall|k: int, v: U| #[trigger] r.may_have(k, v) ==> bound_in::<T, U, F>(f, *self, v),
    {
        let mapped = self.map_as(f, Ghost(g));
        let r = mapped.join();
        assert forall|k: int, v: U| #[trigger] r.may_have(k, v) implies bound_in::<T, U, F>(
            f,
            *self,
            v,
        ) by {
            lemma_bound_in::<T, U, F>(f, *self, mapped, v);
        }
        r
    }

    /// The lists that `f` gives for the elements, one after the other: mapping `f`
    /// and then joining. `f` is called only when the result is read. What can come in
    /// the result is what a list that `f` can give hands out. The bound asked on the
    /// length follows from a bound on what `f` is known to give, by
    /// `lemma_bound_fits`.
    pub fn bind<U: 'static + Clone + View, F: 'static + Fn(T) -> List<U>>(&self, f: F) -> (r: List<U>)
        requires
            faithful_clone::<T>(),
            faithful_clone::<U>(),
            self@.len() <= usize::MAX,
            forall|j: int|
                0 <= j < self@.len() ==> callable_at::<T, List<U>, F>(f, #[trigger] self@[j]),
            forall|j: int|
                0 <= j < self@.len() ==> settled_at::<T, List<U>, F>(f, #[trigger] self@[j]),
            bound::<T, U, F>(f, self@).len() <= usize::MAX,
        ensures
            !r.known(),
            r@ == bound::<T, U, F>(f, self@),
            forall|k: int, v: U| #[trigger] r.may_have(k, v) ==> bound_in::<T, U, F>(f, *self, v),
    {
        proof {
            assert forall|j: int| 0 <= j < self@.len() implies carries::<T, List<U>, F>(
                f,
                #[trigger] self@[j],
                lists_by::<T, U, F>(f)(self@[j]),
            ) by {
                lemma_lists_of::<T, U, F>(f, self@[j]);
            }
        }
        self.bind_as(f, Ghost(lists_by::<T, U, F>(f)))
    }
}

/// Every way of choosing one element from each sequence of `s`, as the sequence of
/// the elements chosen. The choice from the first sequence changes slowest. There
/// is one way to choose from no sequences, and none if a sequence is empty.
pub open spec fn choices<A>(s: Seq<Seq<A>>) -> Seq<Seq<A>>
    decreases s.len(),
{
    if s.len() == 0 {
        seq![Seq::<A>::empty()]
    } else {
        let rest = choices(s.drop_first());
        Seq::new(s[0].len(), |j: int| Seq::new(rest.len(), |c: int| seq![s[0][j]] + rest[c])).flatten()
    }
}

/// Whether the choices from `s`, and from each of its tails, can be counted in a
/// `usize`, as can the sequences chosen from.
pub open spec fn choices_fit<A>(s: Seq<Seq<A>>) -> bool
    decreases s.len(),
{
    s.len() > 0 ==> {
        &&& s[0].len() <= usize::MAX
        &&& choices(s).len() <= usize::MAX
        &&& choices(s.drop_first()).len() <= usize::MAX
        &&& choices_fit(s.drop_first())
    }
}

/// Puts `head` in front of a list.
pub struct Prepend<T> {
    pub head: T,
}

impl<T: Clone + View> Mapper<List<T>, List<T>> for Prepend<T> {
    open spec fn ready(&self, a: Seq<T::V>) -> bool {
        faithful_clone::<T>()
    }

    open spec fn image(&self, a: Seq<T::V>) -> Seq<T::V> {
        seq![self.head@] + a
    }

    open spec fn maps(&self, x: List<T>, u: List<T>) -> bool {
        &&& u.known()
        &&& u.node() matches ListInner::Cons(h, t) && cloned(self.head, h) && t == x
    }

    fn apply(&self, x: List<T>) -> (u: List<T>) {
        let head = self.head.clone();
        assert(cloned(self.head, head));
        List::cons(head, &x)
    }
}

/// Puts an element in front of each list of `rest`.
#[verifier::reject_recursive_types(T)]
pub struct PrependEach<T: View> {
    pub rest: List<List<T>>,
}

impl<T: 'static + Clone + View> Mapper<T, List<List<T>>> for PrependEach<T> {
    open spec fn ready(&self, a: T::V) -> bool {
        faithful_clone::<T>() && self.rest@.len() <= usize::MAX
    }

    open spec fn image(&self, a: T::V) -> Seq<Seq<T::V>> {
        Seq::new(self.rest@.len(), |c: int| seq![a] + self.rest@[c])
    }

    open spec fn maps(&self, x: T, u: List<List<T>>) -> bool {
        forall|j: int, l: List<T>| #[trigger] u.may_have(j, l) ==> l.known()
    }

    fn apply(&self, x: T) -> (u: List<List<T>>) {
        let ghost a = x@;
        let u = self.rest.map_with(Prepend { head: x });
        assert(u@ =~= Seq::new(self.rest@.len(), |c: int| seq![a] + self.rest@[c]));
        u
    }
}

/// What the memory of a source of choices may hold: nothing yet, or a place in the
/// list of the choices `elems`.
pub struct BuiltPred<T: View> {
    pub elems: Seq<Seq<T::V>>,
    pub sure: bool,
}

/// Whether every list that can come in `l` has a first node that is known.
pub open spec fn holds_known<T: View>(l: List<List<T>>) -> bool {
    forall|j: int, h: List<T>| #[trigger] l.may_have(j, h) ==> h.known()
}

impl<T: View> Predicate<Option<Walk<List<T>>>> for BuiltPred<T> {
    open spec fn predicate(&self, built: Option<Walk<List<T>>>) -> bool {
        built matches Some(w) ==> w.wf() && w.list() == self.elems && (self.sure ==> w.sure())
            && holds_known(w.from())
    }
}

/// Whether `src` is known to be empty from the start: then the one choice from it,
/// the empty one, is there without anything being read.
pub open spec fn known_empty<T: View>(src: List<List<T>>) -> bool {
    src.known() && src.node() is Nil
}

/// The choices of one element from each list of `src`, each as a list. The list
/// of the choices is put together when the first of them is asked for, and kept.
/// Each choice is a list with a known first node. Reading cannot fail where `src`
/// is known to be empty.
#[verifier::reject_recursive_types(T)]
pub struct ProdSource<T: View> {
    pub src: List<List<T>>,
    pub built: InvCell<Option<Walk<List<T>>>, BuiltPred<T>>,
}

impl<T: 'static + Clone + View> ProdSource<T> {
    /// The list of the choices from `src`, put together from its first list and
    /// the choices from the others. Only the first node of `src` is read, so this
    /// cannot fail where that node was given when `src` was made.
    fn build(&self) -> (r: Result<List<List<T>>, PoisonedThunk>)
        requires
            faithful_clone::<T>(),
            choices_fit(self.src@),
        ensures
            r matches Ok(all) ==> all@ == choices(self.src@) && holds_known(all),
            self.src.known() ==> r is Ok,
            known_empty(self.src) ==> (r matches Ok(all) && all.built()),
    {
        match self.src.eval() {
            Err(e) => Err(e),
            Ok(ListInner::Nil) => {
                let only = List::pure(List::nil());
                assert(only@ =~= choices(self.src@));
                Ok(only)
            },
            Ok(ListInner::Cons(xs, xss)) => {
                let rest = xss.prod();
                let each = PrependEach { rest };
                let mapped = xs.map_with(each);
                assert(mapped@ =~= Seq::new(
                    xs@.len(),
                    |j: int| Seq::new(rest@.len(), |c: int| seq![xs@[j]] + rest@[c]),
                ));
                let all = mapped.join();
                assert forall|j: int, l: List<T>| #[trigger] all.may_have(j, l) implies l.known() by {
                    let (h, p) = choose|h: List<List<T>>, p: int|
                        handed_in(mapped, h) && h.hands(p, l);
                    let q = choose|q: int| mapped.hands(q, h);
                    let kept = choose|kept: List<List<T>>|
                        mapped.may_have(q, kept) && cloned(kept, h);
                    assert(h == kept);
                    assert(mapped_at::<T, List<List<T>>, PrependEach<T>>(each, xs, q, kept));
                    let first = choose|first: List<T>| h.may_have(p, first) && cloned(first, l);
                    assert(l == first);
                }
                Ok(all)
            },
        }
    }
}

impl<T: 'static + Clone + View> Source<List<T>> for ProdSource<T> {
    open spec fn ready(&self) -> bool {
        &&& faithful_clone::<T>()
        &&& choices_fit(self.src@)
        &&& self.built.predicate().elems == choices(self.src@)
        &&& self.built.predicate().sure == known_empty(self.src)
    }

    open spec fn certain(&self) -> bool {
        known_empty(self.src)
    }

    open spec fn elems(&self) -> Seq<Seq<T::V>> {
        choices(self.src@)
    }

    open spec fn may_give(&self, i: int, v: List<T>) -> bool {
        v.known()
    }

    fn get(&self, i: usize) -> (r: Result<Option<List<T>>, PoisonedThunk>) {
        let mut walk = match self.built.replace(None) {
            Some(walk) => walk,
            None => match self.build() {
                Ok(all) => Walk::new(&all),
                Err(e) => {
                    return Err(e);
                },
            },
        };
        let ghost all = walk.from();
        let r = walk.seek(i);
        proof {
            if r is Ok && r->Ok_0 is Here {
                let l = r->Ok_0->Here_0;
                let kept = choose|kept: List<T>| all.may_have(i as int, kept) && cloned(kept, l);
                assert(l == kept);
            }
        }
        let _ = self.built.replace(Some(walk));
        match r {
            Err(e) => Err(e),
            Ok(Found::Here(l)) => Ok(Some(l)),
            Ok(Found::Past(_)) => Ok(None),
        }
    }
}

impl<T: 'static + Clone + View> List<List<T>> {
    /// Every way of choosing one element from each inner list, each as a list, the
    /// choice from the first inner list changing slowest. Nothing is read before the
    /// result is.
    pub fn prod(&self) -> (r: List<List<T>>)
        requires
            faithful_clone::<T>(),
            choices_fit(self@),
        ensures
            !r.known(),
            r@ == choices(self@),
            holds_known(r),
    {
        let ghost pred = BuiltPred::<T> { elems: choices(self@), sure: known_empty(*self) };
        let pending = ProdSource { src: self.clone(), built: InvCell::new(None, Ghost(pred)) };
        let boxed: Box<dyn Source<List<T>>> = Box::new(pending);
        let held = Held(boxed);
        assert(held.0.ready());
        assert(held.0.elems() == choices(self@));
        assert(forall|j: int, l: List<T>| #[trigger] held.0.may_give(j, l) == pending.may_give(j, l));
        proof {
            if self@.len() == 0 {
                assert(choices(self@).len() == 1);
            }
        }
        let r = List::suspended(Rc::new(held), 0);
        assert(r@ =~= choices(self@));
        r
    }
}

/// Appending the empty list, on either side, changes nothing: with `empty` an
/// empty list, `right` what appending it to `list` gives and `left` what appending
/// `list` to it gives, both have the elements of `list`.
pub proof fn lemma_append_nil<T: View>(list: List<T>, empty: List<T>, right: List<T>, left: List<T>)
    requires
        empty@ == Seq::<T::V>::empty(),
        right@ == list@ + empty@,
        left@ == empty@ + list@,
    ensures
        right@ == list@,
        left@ == list@,
{
    assert(list@ + Seq::<T::V>::empty() =~= list@);
    assert(Seq::<T::V>::empty() + list@ =~= list@);
}

/// Walking a list with the empty list appended, on either side, meets the
/// elements met walking the list itself, place by place and up to the view: with
/// `seen`, `right_seen` and `left_seen` what `to_vec` hands out for `list`,
/// `right` and `left`.
pub proof fn lemma_append_nil_walk<T: View>(
    list: List<T>,
    empty: List<T>,
    right: List<T>,
    left: List<T>,
    seen: Seq<T>,
    right_seen: Seq<T>,
    left_seen: Seq<T>,
)
    requires
        empty@ == Seq::<T::V>::empty(),
        right@ == list@ + empty@,
        left@ == empty@ + list@,
        seen.len() == list@.len(),
        forall|j: int| 0 <= j < seen.len() ==> (#[trigger] seen[j])@ == list@[j],
        right_seen.len() == right@.len(),
        forall|j: int| 0 <= j < right_seen.len() ==> (#[trigger] right_seen[j])@ == right@[j],
        left_seen.len() == left@.len(),
        forall|j: int| 0 <= j < left_seen.len() ==> (#[trigger] left_seen[j])@ == left@[j],
    ensures
        right_seen.len() == seen.len(),
        left_seen.len() == seen.len(),
        forall|j: int| 0 <= j < seen.len() ==> (#[trigger] right_seen[j])@ == seen[j]@,
        forall|j: int| 0 <= j < seen.len() ==> (#[trigger] left_seen[j])@ == seen[j]@,
{
    lemma_append_nil(list, empty, right, left);
}

/// Appending the empty list, on either side, brings in no value that the list
/// does not hand out at the same place: with `empty` an empty list, `right` what
/// appending it to `list` gives and `left` what appending `list` to it gives.
pub proof fn lemma_append_nil_values<T: Clone + View>(
    list: List<T>,
    empty: List<T>,
    right: List<T>,
    left: List<T>,
)
    requires
        empty@ == Seq::<T::V>::empty(),
        forall|j: int, v: T| !#[trigger] empty.may_have(j, v),
        forall|j: int, v: T| #[trigger]
            right.may_have(j, v) <==> j >= 0 && if j < list@.len() {
                list.hands(j, v)
            } else {
                empty.hands(j - list@.len(), v)
            },
        forall|j: int, v: T| #[trigger]
            left.may_have(j, v) <==> j >= 0 && if j < empty@.len() {
                empty.hands(j, v)
            } else {
                list.hands(j - empty@.len(), v)
            },
    ensures
        forall|j: int, v: T| #[trigger] right.may_have(j, v) ==> list.hands(j, v),
        forall|j: int, v: T| #[trigger] left.may_have(j, v) ==> list.hands(j, v),
{
}

/// The place of the entry at `c` in the row at `i`, where rows of `n` entries
/// follow one another.
pub open spec fn place_of(i: int, n: int, c: int) -> int {
    i * n + c
}

/// Flattening sequences that all have the length `m`: the element at `c` of the
/// sequence at `j` comes at `j * m + c`.
pub proof fn lemma_flatten_uniform<A>(ss: Seq<Seq<A>>, m: nat)
    requires
        forall|j: int| 0 <= j < ss.len() ==> (#[trigger] ss[j]).len() == m,
    ensures
        ss.flatten().len() == ss.len() * m,
        forall|j: int, c: int|
            0 <= j < ss.len() && 0 <= c < m ==> 0 <= #[trigger] place_of(j, m as int, c)
                < ss.flatten().len() && ss.flatten()[place_of(j, m as int, c)] == ss[j][c],
    decreases ss.len(),
{
    if ss.len() == 0 {
        assert(ss.len() * m == 0) by (nonlinear_arith)
            requires
                ss.len() == 0,
        ;
    } else {
        let rest = ss.drop_first();
        lemma_flatten_uniform(rest, m);
        assert(ss.flatten() == ss[0] + rest.flatten());
        assert(ss.len() * m == m + rest.len() * m) by (nonlinear_arith)
            requires
                rest.len() == ss.len() - 1,
        ;
        assert forall|j: int, c: int| 0 <= j < ss.len() && 0 <= c < m implies 0
            <= #[trigger] place_of(j, m as int, c) < ss.flatten().len() && ss.flatten()[place_of(
            j,
            m as int,
            c,
        )] == ss[j][c] by {
            assert(0 <= j * m + c < ss.len() * m) by (nonlinear_arith)
                requires
                    0 <= j < ss.len(),
                    0 <= c < m,
            ;
            if j == 0 {
                assert(j * m + c == c) by (nonlinear_arith)
                    requires
                        j == 0,
                ;
            } else {
                assert(j * m + c == m + ((j - 1) * m + c) && 0 <= (j - 1) * m + c) by (nonlinear_arith)
                    requires
                        j >= 1,
                        0 <= c,
                        0 <= m,
                ;
                assert(rest[j - 1] == ss[j]);
                assert(rest.flatten()[place_of(j - 1, m as int, c)] == rest[j - 1][c]);
            }
        }
    }
}

/// How the choices are laid out: with `n` choices from the sequences after the
/// first, the choice that takes the element at `i` of the first sequence and goes
/// on as the choice at `c` from the others comes at `i * n + c`. So the choice
/// from the first sequence changes slowest, every combination of places comes up
/// exactly once, and there are as many choices as the lengths multiply to.
pub proof fn lemma_choices_layout<A>(s: Seq<Seq<A>>)
    requires
        s.len() > 0,
    ensures
        choices(s).len() == s[0].len() * choices(s.drop_first()).len(),
        forall|i: int, c: int|
            0 <= i < s[0].len() && 0 <= c < choices(s.drop_first()).len() ==> 0
                <= #[trigger] place_of(i, choices(s.drop_first()).len() as int, c) < choices(
                s,
            ).len() && choices(s)[place_of(i, choices(s.drop_first()).len() as int, c)]
                == seq![s[0][i]] + choices(s.drop_first())[c],
{
    let rest = choices(s.drop_first());
    let n = rest.len();
    let rows = Seq::new(s[0].len(), |j: int| Seq::new(n, |c: int| seq![s[0][j]] + rest[c]));
    assert(choices(s) == rows.flatten());
    lemma_flatten_uniform(rows, n);
    assert forall|i: int, c: int| 0 <= i < s[0].len() && 0 <= c < n implies 0
        <= #[trigger] place_of(i, n as int, c) < choices(s).len() && choices(s)[place_of(
        i,
        n as int,
        c,
    )] == seq![s[0][i]] + rest[c] by {
        assert(rows[i][c] == seq![s[0][i]] + rest[c]);
    }
}

/// There is one way to choose from no sequences: to choose nothing.
pub proof fn lemma_choices_of_none<A>()
    ensures
        choices(Seq::<Seq<A>>::empty()) == seq![Seq::<A>::empty()],
{
}

/// Every choice takes one element from each sequence, in order.
pub proof fn lemma_choice_picks<A>(s: Seq<Seq<A>>, k: int)
    requires
        0 <= k < choices(s).len(),
    ensures
        choices(s)[k].len() == s.len(),
        forall|j: int| 0 <= j < s.len() ==> s[j].contains(#[trigger] choices(s)[k][j]),
    decreases s.len(),
{
    if s.len() == 0 {
    } else {
        let rest = choices(s.drop_first());
        let n = rest.len() as int;
        lemma_choices_layout(s);
        assert(n > 0) by (nonlinear_arith)
            requires
                0 <= k < s[0].len() * n,
                n >= 0,
        ;
        let i = k / n;
        let c = k % n;
        assert(k == i * n + c && 0 <= c < n && 0 <= i < s[0].len()) by (nonlinear_arith)
            requires
                0 <= k < s[0].len() * n,
                n > 0,
                i == k / n,
                c == k % n,
        ;
        assert(choices(s)[place_of(i, n, c)] == seq![s[0][i]] + rest[c]);
        lemma_choice_picks(s.drop_first(), c);
        assert forall|j: int| 0 <= j < s.len() implies s[j].contains(
            #[trigger] choices(s)[k][j],
        ) by {
            if j == 0 {
                assert(choices(s)[k][0] == s[0][i]);
            } else {
                assert(choices(s)[k][j] == rest[c][j - 1]);
                assert(s.drop_first()[j - 1] == s[j]);
            }
        }
    }
}

} // verus!
