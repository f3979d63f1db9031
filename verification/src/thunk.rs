//! A deferred value that is computed at most once and then kept.

use std::rc::Rc;
use vstd::cell::invcell::InvCell;
use vstd::predicate::Predicate;
use vstd::prelude::*;

verus! {

/// The failure of forcing a cell whose producer has not returned yet: the cell was
/// reached again while it was being computed, or an earlier attempt never finished.
#[derive(Debug, Clone, Copy, PartialEq, Eq, Structural)]
pub struct PoisonedThunk;

/// A suspended computation of one value of type `V`.
///
/// `ready` is what must hold for the computation to be run, `yields` relates it to
/// every value it can hand back, and `certain` says that it cannot fail.
pub trait Producer<V> {
    spec fn ready(&self) -> bool;

    spec fn certain(&self) -> bool;

    spec fn yields(&self, v: V) -> bool;

    fn produce(&self) -> (r: Result<V, PoisonedThunk>)
        requires
            self.ready(),
        ensures
            r matches Ok(v) ==> self.yields(v),
            self.certain() ==> r is Ok,
    ;
}

/// A closure without arguments, seen as a producer: it is ready where the closure
/// may be called, yields what the closure's postcondition admits, and cannot fail.
pub struct FromFn<F>(pub F);

impl<V, F: Fn() -> V> Producer<V> for FromFn<F> {
    open spec fn ready(&self) -> bool {
        self.0.requires(())
    }

    open spec fn certain(&self) -> bool {
        true
    }

    open spec fn yields(&self, v: V) -> bool {
        self.0.ensures((), v)
    }

    fn produce(&self) -> (r: Result<V, PoisonedThunk>) {
        Ok((self.0)())
    }
}

/// A value kept for later use. A boxed producer or source travels in one, so that
/// what is known of it when it is boxed is still known where it is run.
pub struct Held<P>(pub P);

/// The state of one cell: a value, the computation that will give it, or the mark
/// left while that computation runs.
#[verifier::reject_recursive_types(T)]
pub enum PrimitiveThunk<T> {
    Value(T),
    Func(Held<Box<dyn Producer<T>>>),
    Lock,
}

impl<T> PrimitiveThunk<T> {
    /// A cell that already holds `value`.
    pub fn pure(value: T) -> (r: PrimitiveThunk<T>)
        ensures
            r == PrimitiveThunk::Value(value),
    {
        PrimitiveThunk::Value(value)
    }

    /// A cell that will run `producer` when it is first forced.
    pub fn from_producer(producer: Held<Box<dyn Producer<T>>>) -> (r: PrimitiveThunk<T>)
        ensures
            r == PrimitiveThunk::Func(producer),
    {
        PrimitiveThunk::Func(producer)
    }

    /// Whether the cell is pending on a producer that stands for the closure
    /// `func`: ready where `func` may be called, yielding what `func` may return, and
    /// unable to fail.
    pub open spec fn pending_on<F: Fn() -> T>(&self, func: F) -> bool {
        &&& self matches PrimitiveThunk::Func(p)
        &&& p.0.ready() == func.requires(())
        &&& p.0.certain()
        &&& forall|v: T| #[trigger] p.0.yields(v) == func.ensures((), v)
    }

    /// A cell that will call `func` when it is first forced, and not before.
    pub fn from_func<F: 'static + Fn() -> T>(func: F) -> (r: PrimitiveThunk<T>)
        ensures
            r.pending_on(func),
    {
        let boxed: Box<dyn Producer<T>> = Box::new(FromFn(func));
        let held = Held(boxed);
        assert(held.0.ready() == func.requires(()));
        assert(held.0.certain());
        assert(forall|v: T| #[trigger] held.0.yields(v) == func.ensures((), v));
        PrimitiveThunk::Func(held)
    }

    /// Whether forcing the cell is in order: the cell is not marked, and a pending
    /// producer is ready. A marked cell is never forced: whoever holds the cell
    /// finds the mark with `check` first.
    pub open spec fn runnable(&self) -> bool {
        match self {
            PrimitiveThunk::Value(_) => true,
            PrimitiveThunk::Func(p) => p.0.ready(),
            PrimitiveThunk::Lock => false,
        }
    }

    /// Fails on a marked cell, and on no other: the cell was reached while its
    /// producer was running, or after its producer had failed.
    pub fn check(&self) -> (r: Result<(), PoisonedThunk>)
        ensures
            r is Err <==> *self is Lock,
    {
        match self {
            PrimitiveThunk::Lock => Err(PoisonedThunk),
            _ => Ok(()),
        }
    }

    /// What the cell is after being forced with outcome `r`.
    ///
    /// A value stays as it is. A pending producer is run once: its value is kept, or,
    /// where it failed, the mark stays; one that cannot fail gives a value. A marked
    /// cell cannot be forced.
    pub open spec fn forced(before: Self, r: Result<(), PoisonedThunk>, after: Self) -> bool {
        match before {
            PrimitiveThunk::Value(_) => r is Ok && after == before,
            PrimitiveThunk::Func(p) => {
                &&& p.0.certain() ==> r is Ok
                &&& match r {
                    Ok(_) => after matches PrimitiveThunk::Value(v) && p.0.yields(v),
                    Err(_) => after is Lock,
                }
            },
            PrimitiveThunk::Lock => false,
        }
    }

    /// Runs the pending producer, if there is one, and keeps what it gave. While the
    /// producer runs the cell is marked, and it stays marked if the producer fails.
    pub fn force(&mut self) -> (r: Result<(), PoisonedThunk>)
        requires
            old(self).runnable(),
        ensures
            Self::forced(*old(self), r, *final(self)),
    {
        let mut taken = PrimitiveThunk::Lock;
        std::mem::swap(self, &mut taken);
        match taken {
            PrimitiveThunk::Value(v) => {
                *self = PrimitiveThunk::Value(v);
                Ok(())
            },
            PrimitiveThunk::Func(p) => {
                match p.0.produce() {
                    Ok(v) => {
                        *self = PrimitiveThunk::Value(v);
                        Ok(())
                    },
                    Err(e) => Err(e),
                }
            },
            PrimitiveThunk::Lock => Err(PoisonedThunk),
        }
    }
}

impl<T: Clone> PrimitiveThunk<T> {
    /// Forces the cell and hands back a clone of the value it then holds.
    pub fn eval(&mut self) -> (r: Result<T, PoisonedThunk>)
        requires
            old(self).runnable(),
        ensures
            Self::forced(*old(self), Self::outcome(r), *final(self)),
            r matches Ok(v) ==> *final(self) matches PrimitiveThunk::Value(kept) && cloned(kept, v),
    {
        match self.force() {
            Ok(_) => {},
            Err(e) => {
                return Err(e);
            },
        }
        match self {
            PrimitiveThunk::Value(value) => Ok(value.clone()),
            _ => Err(PoisonedThunk),
        }
    }

    /// The outcome of an evaluation with its value left out.
    pub open spec fn outcome(r: Result<T, PoisonedThunk>) -> Result<(), PoisonedThunk> {
        match r {
            Ok(_) => Ok(()),
            Err(e) => Err(e),
        }
    }
}

/// Whether cloning a `T` keeps its view.
pub open spec fn faithful_clone<T: Clone + View>() -> bool {
    forall|a: T, b: T| cloned(a, b) ==> a@ == b@
}

/// What the shared cell of a thunk may hold: a value of those `allowed`, a ready
/// producer that can only yield such values, or the mark. `value` is the view
/// that the thunk has where no value is allowed at all.
#[verifier::reject_recursive_types(T)]
pub struct ThunkPred<T: View> {
    pub allowed: spec_fn(T) -> bool,
    pub value: T::V,
}

impl<T: View> Predicate<PrimitiveThunk<T>> for ThunkPred<T> {
    open spec fn predicate(&self, st: PrimitiveThunk<T>) -> bool {
        match st {
            PrimitiveThunk::Value(v) => (self.allowed)(v),
            PrimitiveThunk::Func(p) => p.0.ready() && forall|v: T| #[trigger]
                p.0.yields(v) ==> (self.allowed)(v),
            PrimitiveThunk::Lock => true,
        }
    }
}

/// What a handle points to: a value that was there from the start and never
/// changes, or a cell that computes its value when first forced.
#[verifier::reject_recursive_types(T)]
pub enum ThunkCell<T: View> {
    Known(T),
    Lazy(InvCell<PrimitiveThunk<T>, ThunkPred<T>>),
}

/// A shared handle to a memoizing cell. Every clone of the handle reaches the same
/// cell, so the value is computed at most once for all of them.
#[verifier::reject_recursive_types(T)]
pub struct Thunk<T: View> {
    cell: Rc<ThunkCell<T>>,
}

/// The view that goes with the values `allowed`: the view of one of them, or
/// `fallback` where there is none.
pub open spec fn fixed_view<T: View>(allowed: spec_fn(T) -> bool, fallback: T::V) -> T::V {
    if exists|v: T| #[trigger] allowed(v) {
        (choose|v: T| #[trigger] allowed(v))@
    } else {
        fallback
    }
}

impl<T: View> View for Thunk<T> {
    type V = T::V;

    /// The view of a value that the thunk may hold. Where the thunk is
    /// `determined`, it is the view of every such value.
    closed spec fn view(&self) -> T::V {
        match *self.cell {
            ThunkCell::Known(v) => v@,
            ThunkCell::Lazy(c) => fixed_view(c.predicate().allowed, c.predicate().value),
        }
    }
}

impl<T: View> Thunk<T> {
    /// Whether the thunk was made of a value: it is evaluated from the start, and
    /// nothing about it ever changes.
    pub closed spec fn known(&self) -> bool {
        *self.cell is Known
    }

    /// The value that a thunk made of a value holds.
    pub closed spec fn kept(&self) -> T
        recommends
            self.known(),
    {
        self.cell->Known_0
    }

    /// Whether `v` is a value that the thunk's cell may come to hold: the value it
    /// was made of, or one that its producer can give.
    pub closed spec fn may_hold(&self, v: T) -> bool {
        match *self.cell {
            ThunkCell::Known(k) => v == k,
            ThunkCell::Lazy(c) => (c.predicate().allowed)(v),
        }
    }

    /// Whether all the values that the thunk may hold have one view.
    pub open spec fn determined(&self) -> bool {
        forall|a: T, b: T| self.may_hold(a) && self.may_hold(b) ==> a@ == b@
    }

    /// A thunk made of a value may hold that value and no other, and has its view.
    pub proof fn lemma_known_view(&self)
        requires
            self.known(),
        ensures
            self.kept()@ == self@,
            self.determined(),
            forall|v: T| #[trigger] self.may_hold(v) <==> v == self.kept(),
    {
    }

    /// The view of a determined thunk is the view of every value it may hold.
    pub proof fn lemma_view(&self, v: T)
        requires
            self.determined(),
            self.may_hold(v),
        ensures
            v@ == self@,
    {
        match *self.cell {
            ThunkCell::Known(_) => {},
            ThunkCell::Lazy(c) => {
                let allowed = c.predicate().allowed;
                assert(allowed(v));
                let chosen = choose|x: T| #[trigger] allowed(x);
                assert(self.may_hold(chosen));
            },
        }
    }
}

impl<T: Clone + View> Thunk<T> {
    /// Whether `v` is a value that evaluating the thunk can hand out: a clone of
    /// one that it may hold.
    pub open spec fn hands_out(&self, v: T) -> bool {
        exists|k: T| self.may_hold(k) && cloned(k, v)
    }

    /// What a determined thunk hands out has the thunk's view, if cloning keeps
    /// views.
    pub proof fn lemma_handed_view(&self, v: T)
        requires
            faithful_clone::<T>(),
            self.determined(),
            self.hands_out(v),
        ensures
            v@ == self@,
    {
        let k = choose|k: T| self.may_hold(k) && cloned(k, v);
        self.lemma_view(k);
    }
}

/// Whether `f` determines its result up to the view.
pub open spec fn single_valued<T: View, F: Fn() -> T>(f: F) -> bool {
    forall|a: T, b: T| f.ensures((), a) && f.ensures((), b) ==> a@ == b@
}

/// Whether every value that `f` can return has the view `w`.
pub open spec fn returns_only<T: View, F: Fn() -> T>(f: F, w: T::V) -> bool {
    forall|v: T| f.ensures((), v) ==> v@ == w
}

/// A closure without arguments that may fail, seen as a producer: it is ready
/// where the closure may be called and yields what the closure can return in `Ok`.
pub struct FromTry<F>(pub F);

impl<V, F: Fn() -> Result<V, PoisonedThunk>> Producer<V> for FromTry<F> {
    open spec fn ready(&self) -> bool {
        self.0.requires(())
    }

    open spec fn certain(&self) -> bool {
        forall|r: Result<V, PoisonedThunk>| self.0.ensures((), r) ==> r is Ok
    }

    open spec fn yields(&self, v: V) -> bool {
        self.0.ensures((), Ok(v))
    }

    fn produce(&self) -> (r: Result<V, PoisonedThunk>) {
        (self.0)()
    }
}

impl<T: View> Thunk<T> {
    /// A thunk that is already evaluated to `value`.
    pub fn pure(value: T) -> (r: Thunk<T>)
        ensures
            r@ == value@,
            r.known(),
            r.kept() == value,
            r.determined(),
            forall|v: T| #[trigger] r.may_hold(v) <==> v == value,
    {
        Thunk { cell: Rc::new(ThunkCell::Known(value)) }
    }

    /// A thunk on the cell `state`, which can only come to hold values of those
    /// `allowed`.
    fn lazy(
        state: PrimitiveThunk<T>,
        Ghost(allowed): Ghost<spec_fn(T) -> bool>,
        Ghost(value): Ghost<T::V>,
    ) -> (r: Thunk<T>)
        requires
            (ThunkPred::<T> { allowed, value }).predicate(state),
        ensures
            !r.known(),
            forall|v: T| #[trigger] r.may_hold(v) <==> allowed(v),
            r@ == fixed_view(allowed, value),
    {
        let ghost pred = ThunkPred::<T> { allowed, value };
        Thunk { cell: Rc::new(ThunkCell::Lazy(InvCell::new(state, Ghost(pred)))) }
    }

    /// A thunk that calls `func` when it is first forced, and not before, for a
    /// caller who knows the view `value` of what `func` gives.
    pub fn from_func_as<F: 'static + Fn() -> T>(func: F, Ghost(value): Ghost<T::V>) -> (r: Thunk<T>)
        requires
            func.requires(()),
            returns_only(func, value),
        ensures
            !r.known(),
            r@ == value,
            r.determined(),
            forall|v: T| #[trigger] r.may_hold(v) <==> func.ensures((), v),
    {
        let ghost allowed = |v: T| func.ensures((), v);
        let state = PrimitiveThunk::from_func(func);
        assert forall|v: T| #[trigger] state->Func_0.0.yields(v) implies allowed(v) by {
            assert(func.ensures((), v));
        }
        Self::lazy(state, Ghost(allowed), Ghost(value))
    }

    /// A thunk that calls `func` when it is first forced, and not before. It may
    /// come to hold whatever `func` can return, and keeps what `func` returned the
    /// one time it ran.
    pub fn from_func<F: 'static + Fn() -> T>(func: F) -> (r: Thunk<T>)
        requires
            func.requires(()),
        ensures
            !r.known(),
            forall|v: T| #[trigger] r.may_hold(v) <==> func.ensures((), v),
            single_valued(func) ==> returns_only(func, r@) && r.determined(),
    {
        let ghost allowed = |v: T| func.ensures((), v);
        let state = PrimitiveThunk::from_func(func);
        assert forall|v: T| #[trigger] state->Func_0.0.yields(v) implies allowed(v) by {
            assert(func.ensures((), v));
        }
        let r = Self::lazy(state, Ghost(allowed), Ghost(arbitrary()));
        proof {
            if single_valued(func) {
                assert forall|a: T, b: T| r.may_hold(a) && r.may_hold(b) implies a@ == b@ by {
                    assert(func.ensures((), a) && func.ensures((), b));
                }
                if exists|v: T| #[trigger] allowed(v) {
                    let chosen = choose|v: T| #[trigger] allowed(v);
                    assert(func.ensures((), chosen));
                    assert(r@ == chosen@);
                    assert(returns_only(func, r@));
                } else {
                    assert forall|v: T| func.ensures((), v) implies v@ == r@ by {
                        assert(allowed(v));
                    }
                }
            }
        }
        r
    }

    /// A thunk that calls `func`, which may fail, when it is first forced, and not
    /// before. Where `func` fails, forcing fails and the cell stays marked.
    pub fn from_fallible<F: 'static + Fn() -> Result<T, PoisonedThunk>>(func: F) -> (r: Thunk<T>)
        requires
            func.requires(()),
        ensures
            !r.known(),
            forall|v: T| #[trigger] r.may_hold(v) <==> func.ensures((), Ok(v)),
    {
        let ghost allowed = |v: T| func.ensures((), Ok::<T, PoisonedThunk>(v));
        let boxed: Box<dyn Producer<T>> = Box::new(FromTry(func));
        let held = Held(boxed);
        assert(held.0.ready());
        assert forall|v: T| #[trigger] held.0.yields(v) implies allowed(v) by {
            assert(func.ensures((), Ok::<T, PoisonedThunk>(v)));
        }
        let state = PrimitiveThunk::from_producer(held);
        Self::lazy(state, Ghost(allowed), Ghost(arbitrary()))
    }
}

/// Another handle to the cell that `cell` points to. `Rc::clone` copies the
/// pointer and never the cell, so the two handles are equal.
#[verifier::external_body]
pub(crate) fn share<C>(cell: &Rc<C>) -> (r: Rc<C>)
    ensures
        r == *cell,
{
    Rc::clone(cell)
}

impl<T: View> Clone for Thunk<T> {
    /// A second handle to the same cell.
    fn clone(&self) -> (r: Thunk<T>)
        ensures
            r == *self,
    {
        Thunk { cell: share(&self.cell) }
    }
}

impl<T: Clone + View> Thunk<T> {
    /// Computes the value unless the cell holds it already. Fails where the cell is
    /// found marked as being computed. A thunk made of a value has nothing to
    /// compute and cannot fail. After a success the cell held, or the producer
    /// gave, a value that the thunk may hold.
    pub fn force(&self) -> (r: Result<(), PoisonedThunk>)
        ensures
            self.known() ==> r is Ok,
            r is Ok ==> exists|v: T| self.may_hold(v),
    {
        match &*self.cell {
            ThunkCell::Known(value) => {
                assert(self.may_hold(*value));
                Ok(())
            },
            ThunkCell::Lazy(cell) => {
                let mut state = cell.replace(PrimitiveThunk::Lock);
                let r = match state.check() {
                    Ok(_) => state.force(),
                    Err(e) => Err(e),
                };
                proof {
                    if r is Ok {
                        assert(self.may_hold(state->Value_0));
                    }
                }
                let _ = cell.replace(state);
                r
            },
        }
    }

    /// Forces the thunk and hands back a clone of the value that the cell then
    /// holds: one that the thunk may hold. A thunk made of a value hands back a
    /// clone of that value and cannot fail.
    pub fn eval(&self) -> (r: Result<T, PoisonedThunk>)
        requires
            faithful_clone::<T>(),
        ensures
            r matches Ok(v) ==> self.hands_out(v),
            r matches Ok(v) ==> (self.determined() ==> v@ == self@),
            self.known() ==> (r matches Ok(v) && cloned(self.kept(), v)),
    {
        let r = match &*self.cell {
            ThunkCell::Known(value) => {
                let v = value.clone();
                assert(cloned(*value, v));
                assert(self.may_hold(*value));
                Ok(v)
            },
            ThunkCell::Lazy(cell) => {
                let mut state = cell.replace(PrimitiveThunk::Lock);
                let r = match state.check() {
                    Ok(_) => state.eval(),
                    Err(e) => Err(e),
                };
                proof {
                    if r is Ok {
                        assert(self.may_hold(state->Value_0));
                    }
                }
                let _ = cell.replace(state);
                r
            },
        };
        proof {
            if r is Ok && self.determined() {
                self.lemma_handed_view(r->Ok_0);
            }
        }
        r
    }
}

/// Whether `f` may be called on every value whose view is `a`.
pub open spec fn callable_at<T: View, U, F: Fn(T) -> U>(f: F, a: T::V) -> bool {
    forall|x: T| x@ == a ==> f.requires((x,))
}

/// Whether `f` takes every value whose view is `a` to a value whose view is `w`.
pub open spec fn carries<T: View, U: View, F: Fn(T) -> U>(f: F, a: T::V, w: U::V) -> bool {
    forall|x: T, u: U| x@ == a && f.ensures((x,), u) ==> u@ == w
}

/// Whether `f` determines, up to the view, its result on the values whose view
/// is `a`.
pub open spec fn settled_at<T: View, U: View, F: Fn(T) -> U>(f: F, a: T::V) -> bool {
    forall|x: T, y: T, u: U, w: U|
        x@ == a && y@ == a && f.ensures((x,), u) && f.ensures((y,), w) ==> u@ == w@
}

/// From `settled_at` to a view that `f` carries `a` to.
pub proof fn lemma_settled_carries<T: View, U: View, F: Fn(T) -> U>(f: F, a: T::V) -> (w: U::V)
    requires
        settled_at::<T, U, F>(f, a),
    ensures
        carries::<T, U, F>(f, a, w),
{
    if exists|x: T, u: U| x@ == a && f.ensures((x,), u) {
        let (x0, u0) = choose|x: T, u: U| x@ == a && f.ensures((x,), u);
        assert(carries::<T, U, F>(f, a, u0@));
        u0@
    } else {
        let w = arbitrary::<U::V>();
        assert(carries::<T, U, F>(f, a, w));
        w
    }
}

/// Whether `f` may be called on every value that `t` hands out.
pub open spec fn callable_on<T: Clone + View, U, F: Fn(T) -> U>(f: F, t: Thunk<T>) -> bool {
    forall|x: T| t.hands_out(x) ==> f.requires((x,))
}

/// Whether `u` is a value that `f` can give for a value that `t` hands out.
pub open spec fn mapped_by<T: Clone + View, U, F: Fn(T) -> U>(f: F, t: Thunk<T>, u: U) -> bool {
    exists|x: T| t.hands_out(x) && f.ensures((x,), u)
}

/// Whether `u` is a value handed out by a thunk that `f` can give for a value
/// that `t` hands out.
pub open spec fn bound_by<T: Clone + View, U: Clone + View, F: Fn(T) -> Thunk<U>>(
    f: F,
    t: Thunk<T>,
    u: U,
) -> bool {
    exists|x: T, s: Thunk<U>| t.hands_out(x) && f.ensures((x,), s) && s.hands_out(u)
}

/// Whether every thunk that `f` can give for a value that `t` hands out is
/// determined.
pub open spec fn gives_determined<T: Clone + View, U: View, F: Fn(T) -> Thunk<U>>(
    f: F,
    t: Thunk<T>,
) -> bool {
    forall|x: T, s: Thunk<U>| t.hands_out(x) && f.ensures((x,), s) ==> s.determined()
}

/// Whether `v` is a value handed out by a thunk that `outer` hands out.
pub open spec fn joined_from<T: Clone + View>(outer: Thunk<Thunk<T>>, v: T) -> bool {
    exists|inner: Thunk<T>| outer.hands_out(inner) && inner.hands_out(v)
}

/// Whether every thunk that `outer` may hold is determined.
pub open spec fn holds_determined<T: View>(outer: Thunk<Thunk<T>>) -> bool {
    forall|inner: Thunk<T>| outer.may_hold(inner) ==> inner.determined()
}

/// The pending application of `f` to the value of `src`. It cannot fail where
/// `src` was made of a value.
#[verifier::reject_recursive_types(T)]
pub struct MapThunk<T: View, F> {
    pub src: Thunk<T>,
    pub f: F,
}

impl<T: Clone + View, U, F: Fn(T) -> U> Producer<U> for MapThunk<T, F> {
    open spec fn ready(&self) -> bool {
        faithful_clone::<T>() && callable_on::<T, U, F>(self.f, self.src)
    }

    open spec fn certain(&self) -> bool {
        self.src.known()
    }

    open spec fn yields(&self, u: U) -> bool {
        mapped_by::<T, U, F>(self.f, self.src, u)
    }

    fn produce(&self) -> (r: Result<U, PoisonedThunk>) {
        match self.src.eval() {
            Ok(x) => Ok((self.f)(x)),
            Err(e) => Err(e),
        }
    }
}

impl<T: 'static + Clone + View> Thunk<T> {
    /// The thunk for `f` applied to this thunk's value, with the view `w` where no
    /// value can come of it.
    fn mapped<U: 'static + View, F: 'static + Fn(T) -> U>(&self, f: F, Ghost(w): Ghost<U::V>) -> (r:
        Thunk<U>)
        requires
            faithful_clone::<T>(),
            callable_on::<T, U, F>(f, *self),
        ensures
            !r.known(),
            forall|u: U| #[trigger] r.may_hold(u) <==> mapped_by::<T, U, F>(f, *self, u),
            r@ == fixed_view(|u: U| mapped_by::<T, U, F>(f, *self, u), w),
    {
        let ghost allowed = |u: U| mapped_by::<T, U, F>(f, *self, u);
        let pending = MapThunk { src: self.clone(), f };
        let boxed: Box<dyn Producer<U>> = Box::new(pending);
        let held = Held(boxed);
        assert(held.0.ready());
        assert forall|u: U| #[trigger] held.0.yields(u) implies allowed(u) by {
            assert(pending.yields(u));
        }
        let state = PrimitiveThunk::from_producer(held);
        Thunk::lazy(state, Ghost(allowed), Ghost(w))
    }

    /// What `mapped` gives has the view `w` and is determined, where this thunk is
    /// determined and `f` carries its view to `w`.
    proof fn lemma_mapped<U: View, F: Fn(T) -> U>(self, f: F, w: U::V, r: Thunk<U>)
        requires
            faithful_clone::<T>(),
            self.determined(),
            carries::<T, U, F>(f, self@, w),
            forall|u: U| #[trigger] r.may_hold(u) <==> mapped_by::<T, U, F>(f, self, u),
            r@ == fixed_view(|u: U| mapped_by::<T, U, F>(f, self, u), w),
        ensures
            r@ == w,
            r.determined(),
    {
        assert forall|u: U| r.may_hold(u) implies u@ == w by {
            let x = choose|x: T| self.hands_out(x) && f.ensures((x,), u);
            self.lemma_handed_view(x);
        }
        let allowed = |u: U| mapped_by::<T, U, F>(f, self, u);
        if exists|u: U| #[trigger] allowed(u) {
            let chosen = choose|u: U| #[trigger] allowed(u);
            assert(r.may_hold(chosen));
        }
    }

    /// A thunk for `f` applied to this thunk's value, for a caller who knows the
    /// view `w` of the result. Nothing is forced and `f` is not called until the new
    /// thunk is forced.
    pub fn map_as<U: 'static + View, F: 'static + Fn(T) -> U>(&self, f: F, Ghost(w): Ghost<U::V>) -> (r:
        Thunk<U>)
        requires
            faithful_clone::<T>(),
            callable_on::<T, U, F>(f, *self),
            self.determined(),
            carries::<T, U, F>(f, self@, w),
        ensures
            !r.known(),
            r@ == w,
            r.determined(),
            forall|u: U| #[trigger] r.may_hold(u) <==> mapped_by::<T, U, F>(f, *self, u),
    {
        let r = self.mapped(f, Ghost(w));
        proof {
            self.lemma_mapped(f, w, r);
        }
        r
    }

    /// A thunk for `f` applied to this thunk's value. Nothing is forced and `f` is
    /// not called until the new thunk is forced. It may come to hold whatever `f`
    /// can give for a value that this thunk hands out.
    pub fn map<U: 'static + View, F: 'static + Fn(T) -> U>(&self, f: F) -> (r: Thunk<U>)
        requires
            faithful_clone::<T>(),
            callable_on::<T, U, F>(f, *self),
        ensures
            !r.known(),
            forall|u: U| #[trigger] r.may_hold(u) <==> mapped_by::<T, U, F>(f, *self, u),
            self.determined() && settled_at::<T, U, F>(f, self@) ==> carries::<T, U, F>(f, self@, r@)
                && r.determined(),
    {
        let ghost w = if settled_at::<T, U, F>(f, self@) {
            lemma_settled_carries::<T, U, F>(f, self@)
        } else {
            arbitrary()
        };
        let r = self.mapped(f, Ghost(w));
        proof {
            if self.determined() && settled_at::<T, U, F>(f, self@) {
                self.lemma_mapped(f, w, r);
            }
        }
        r
    }
}

/// The pending application of `f`, which itself gives a thunk, to the value of
/// `src`, followed by forcing what `f` gave. It cannot fail where `src` was made
/// of a value and `f` only gives thunks made of a value.
#[verifier::reject_recursive_types(T)]
pub struct BindThunk<T: View, F> {
    pub src: Thunk<T>,
    pub f: F,
}

impl<T: Clone + View, U: Clone + View, F: Fn(T) -> Thunk<U>> Producer<U> for BindThunk<T, F> {
    open spec fn ready(&self) -> bool {
        &&& faithful_clone::<T>()
        &&& faithful_clone::<U>()
        &&& callable_on::<T, Thunk<U>, F>(self.f, self.src)
    }

    open spec fn certain(&self) -> bool {
        &&& self.src.known()
        &&& forall|x: T, t: Thunk<U>| self.src.hands_out(x) && self.f.ensures((x,), t) ==> t.known()
    }

    open spec fn yields(&self, u: U) -> bool {
        bound_by::<T, U, F>(self.f, self.src, u)
    }

    fn produce(&self) -> (r: Result<U, PoisonedThunk>) {
        match self.src.eval() {
            Ok(x) => (self.f)(x).eval(),
            Err(e) => Err(e),
        }
    }
}

/// The pending evaluation of the thunk that `src` evaluates to. It cannot fail
/// where both were made of a value.
#[verifier::reject_recursive_types(T)]
pub struct JoinThunk<T: View> {
    pub src: Thunk<Thunk<T>>,
}

impl<T: Clone + View> Producer<T> for JoinThunk<T> {
    open spec fn ready(&self) -> bool {
        faithful_clone::<T>()
    }

    open spec fn certain(&self) -> bool {
        self.src.known() && self.src.kept().known()
    }

    open spec fn yields(&self, v: T) -> bool {
        joined_from::<T>(self.src, v)
    }

    fn produce(&self) -> (r: Result<T, PoisonedThunk>) {
        match self.src.eval() {
            Ok(inner) => inner.eval(),
            Err(e) => Err(e),
        }
    }
}

impl<T: 'static + Clone + View> Thunk<T> {
    /// The thunk that applies `f` to this thunk's value and forces what `f` gave,
    /// with the view `w` where no value can come of it.
    fn bound<U: 'static + Clone + View, F: 'static + Fn(T) -> Thunk<U>>(
        &self,
        f: F,
        Ghost(w): Ghost<U::V>,
    ) -> (r: Thunk<U>)
        requires
            faithful_clone::<T>(),
            faithful_clone::<U>(),
            callable_on::<T, Thunk<U>, F>(f, *self),
        ensures
            !r.known(),
            forall|u: U| #[trigger] r.may_hold(u) <==> bound_by::<T, U, F>(f, *self, u),
            r@ == fixed_view(|u: U| bound_by::<T, U, F>(f, *self, u), w),
    {
        let ghost allowed = |u: U| bound_by::<T, U, F>(f, *self, u);
        let pending = BindThunk { src: self.clone(), f };
        let boxed: Box<dyn Producer<U>> = Box::new(pending);
        let held = Held(boxed);
        assert(held.0.ready());
        assert forall|u: U| #[trigger] held.0.yields(u) implies allowed(u) by {
            assert(pending.yields(u));
        }
        let state = PrimitiveThunk::from_producer(held);
        Thunk::lazy(state, Ghost(allowed), Ghost(w))
    }

    /// What `bound` gives has the view `w` and is determined, where this thunk is
    /// determined, `f` carries its view to `w` and gives determined thunks only.
    proof fn lemma_bound<U: Clone + View, F: Fn(T) -> Thunk<U>>(self, f: F, w: U::V, r: Thunk<U>)
        requires
            faithful_clone::<T>(),
            faithful_clone::<U>(),
            self.determined(),
            gives_determined::<T, U, F>(f, self),
            carries::<T, Thunk<U>, F>(f, self@, w),
            forall|u: U| #[trigger] r.may_hold(u) <==> bound_by::<T, U, F>(f, self, u),
            r@ == fixed_view(|u: U| bound_by::<T, U, F>(f, self, u), w),
        ensures
            r@ == w,
            r.determined(),
    {
        assert forall|u: U| r.may_hold(u) implies u@ == w by {
            let (x, s) = choose|x: T, s: Thunk<U>|
                self.hands_out(x) && f.ensures((x,), s) && s.hands_out(u);
            self.lemma_handed_view(x);
            s.lemma_handed_view(u);
        }
        let allowed = |u: U| bound_by::<T, U, F>(f, self, u);
        if exists|u: U| #[trigger] allowed(u) {
            let chosen = choose|u: U| #[trigger] allowed(u);
            assert(r.may_hold(chosen));
        }
    }

    /// A thunk that, when forced, applies `f` to this thunk's value and forces the
    /// thunk that `f` gave, for a caller who knows the view `w` of the result.
    /// Nothing happens before the new thunk is forced.
    pub fn bind_as<U: 'static + Clone + View, F: 'static + Fn(T) -> Thunk<U>>(
        &self,
        f: F,
        Ghost(w): Ghost<U::V>,
    ) -> (r: Thunk<U>)
        requires
            faithful_clone::<T>(),
            faithful_clone::<U>(),
            callable_on::<T, Thunk<U>, F>(f, *self),
            self.determined(),
            gives_determined::<T, U, F>(f, *self),
            carries::<T, Thunk<U>, F>(f, self@, w),
        ensures
            !r.known(),
            r@ == w,
            r.determined(),
            forall|u: U| #[trigger] r.may_hold(u) <==> bound_by::<T, U, F>(f, *self, u),
    {
        let r = self.bound(f, Ghost(w));
        proof {
            self.lemma_bound(f, w, r);
        }
        r
    }

    /// A thunk that, when forced, applies `f` to this thunk's value and forces the
    /// thunk that `f` gave. Nothing happens before that. It may come to hold
    /// whatever such a thunk hands out.
    pub fn bind<U: 'static + Clone + View, F: 'static + Fn(T) -> Thunk<U>>(&self, f: F) -> (r:
        Thunk<U>)
        requires
            faithful_clone::<T>(),
            faithful_clone::<U>(),
            callable_on::<T, Thunk<U>, F>(f, *self),
        ensures
            !r.known(),
            forall|u: U| #[trigger] r.may_hold(u) <==> bound_by::<T, U, F>(f, *self, u),
            self.determined() && gives_determined::<T, U, F>(f, *self) && settled_at::<
                T,
                Thunk<U>,
                F,
            >(f, self@) ==> carries::<T, Thunk<U>, F>(f, self@, r@) && r.determined(),
    {
        let ghost w = if settled_at::<T, Thunk<U>, F>(f, self@) {
            lemma_settled_carries::<T, Thunk<U>, F>(f, self@)
        } else {
            arbitrary()
        };
        let r = self.bound(f, Ghost(w));
        proof {
            if self.determined() && gives_determined::<T, U, F>(f, *self) && settled_at::<
                T,
                Thunk<U>,
                F,
            >(f, self@) {
                self.lemma_bound(f, w, r);
            }
        }
        r
    }
}

impl<T: 'static + Clone + View> Thunk<Thunk<T>> {
    /// The thunk inside this thunk, as one thunk. Neither is forced before the new
    /// thunk is. It may come to hold whatever a thunk that this one hands out hands
    /// out.
    pub fn join(&self) -> (r: Thunk<T>)
        requires
            faithful_clone::<T>(),
        ensures
            !r.known(),
            forall|v: T| #[trigger] r.may_hold(v) <==> joined_from::<T>(*self, v),
            self.determined() && holds_determined::<T>(*self) ==> r@ == self@ && r.determined(),
    {
        let ghost allowed = |v: T| joined_from::<T>(*self, v);
        let pending = JoinThunk { src: self.clone() };
        let boxed: Box<dyn Producer<T>> = Box::new(pending);
        let held = Held(boxed);
        assert(held.0.ready());
        assert forall|v: T| #[trigger] held.0.yields(v) implies allowed(v) by {
            assert(pending.yields(v));
        }
        let state = PrimitiveThunk::from_producer(held);
        let r = Thunk::lazy(state, Ghost(allowed), Ghost(self@));
        proof {
            if self.determined() && holds_determined::<T>(*self) {
                assert forall|v: T| r.may_hold(v) implies v@ == self@ by {
                    let inner = choose|inner: Thunk<T>| self.hands_out(inner) && inner.hands_out(v);
                    let k = choose|k: Thunk<T>| self.may_hold(k) && cloned(k, inner);
                    assert(inner == k);
                    self.lemma_view(inner);
                    inner.lemma_handed_view(v);
                }
                if exists|v: T| #[trigger] allowed(v) {
                    let chosen = choose|v: T| #[trigger] allowed(v);
                    assert(r.may_hold(chosen));
                }
            }
        }
        r
    }
}

impl<T: Clone + View> Thunk<T> {
    /// Forces this thunk now and hands its value to `f`, which gives the result. On a
    /// thunk made of a value this cannot fail.
    pub fn bind_strict<U: View, F: Fn(T) -> Thunk<U>>(&self, f: F) -> (r: Result<
        Thunk<U>,
        PoisonedThunk,
    >)
        requires
            faithful_clone::<T>(),
            callable_on::<T, Thunk<U>, F>(f, *self),
        ensures
            r matches Ok(t) ==> mapped_by::<T, Thunk<U>, F>(f, *self, t),
            self.known() ==> r is Ok,
    {
        match self.eval() {
            Ok(x) => Ok(f(x)),
            Err(e) => Err(e),
        }
    }

    /// Forces this thunk now and wraps `f` of its value in a thunk made of that
    /// value. On a thunk made of a value this cannot fail.
    pub fn map_strict<U: View, F: Fn(T) -> U>(&self, f: F) -> (r: Result<Thunk<U>, PoisonedThunk>)
        requires
            faithful_clone::<T>(),
            callable_on::<T, U, F>(f, *self),
        ensures
            r matches Ok(t) ==> t.known() && t.kept()@ == t@ && mapped_by::<T, U, F>(
                f,
                *self,
                t.kept(),
            ),
            self.known() ==> r is Ok,
    {
        match self.eval() {
            Ok(x) => Ok(Thunk::pure(f(x))),
            Err(e) => Err(e),
        }
    }

    /// Forces both levels of `input` now and wraps the value in a thunk made of it.
    /// Where both levels are thunks made of a value, this cannot fail.
    pub fn join_strict(input: &Thunk<Thunk<T>>) -> (r: Result<Thunk<T>, PoisonedThunk>)
        requires
            faithful_clone::<T>(),
        ensures
            r matches Ok(t) ==> t.known() && t.kept()@ == t@ && joined_from::<T>(*input, t.kept()),
            r matches Ok(t) ==> (input.determined() && holds_determined::<T>(*input) ==> t@
                == input@),
            input.known() && input.kept().known() ==> r is Ok,
    {
        match input.eval() {
            Ok(inner) => match inner.eval() {
                Ok(v) => {
                    proof {
                        if input.determined() && holds_determined::<T>(*input) {
                            let k = choose|k: Thunk<T>| input.may_hold(k) && cloned(k, inner);
                            assert(inner == k);
                            input.lemma_view(inner);
                            inner.lemma_handed_view(v);
                        }
                    }
                    Ok(Thunk::pure(v))
                },
                Err(e) => Err(e),
            },
            Err(e) => Err(e),
        }
    }
}

/// Once a cell has been forced with success it holds a value, and forcing it again
/// succeeds without changing it: no producer runs a second time.
pub proof fn lemma_forced_once<T>(
    s0: PrimitiveThunk<T>,
    r1: Result<(), PoisonedThunk>,
    s1: PrimitiveThunk<T>,
    r2: Result<(), PoisonedThunk>,
    s2: PrimitiveThunk<T>,
)
    requires
        PrimitiveThunk::forced(s0, r1, s1),
        PrimitiveThunk::forced(s1, r2, s2),
        r1 is Ok,
    ensures
        s1 is Value,
        r2 is Ok,
        s2 == s1,
{
}

/// A forcing that fails leaves the cell marked: it cannot be forced again, and
/// every check of it fails.
pub proof fn lemma_poison_stays<T>(
    s0: PrimitiveThunk<T>,
    r1: Result<(), PoisonedThunk>,
    s1: PrimitiveThunk<T>,
)
    requires
        PrimitiveThunk::forced(s0, r1, s1),
        r1 is Err,
    ensures
        s1 is Lock,
        !s1.runnable(),
        s1.status_of() == Status::Poisoned,
{
}

/// Two evaluations of one determined thunk give values with the same view, the
/// view of the thunk, however many handles they went through: with `first` and
/// `second` what two calls of `eval` handed out.
pub proof fn lemma_eval_repeats<T: Clone + View>(t: Thunk<T>, first: T, second: T)
    requires
        faithful_clone::<T>(),
        t.determined(),
        t.hands_out(first),
        t.hands_out(second),
    ensures
        first@ == second@,
        first@ == t@,
{
    t.lemma_handed_view(first);
    t.lemma_handed_view(second);
}

/// Evaluating a thunk made of a value succeeds and gives that value back, up to
/// the view: with `t` what `pure` gives for `value` and `got` what `eval` gives
/// for `t`.
pub proof fn lemma_pure_eval<T: Clone + View>(value: T, t: Thunk<T>, got: Result<T, PoisonedThunk>)
    requires
        faithful_clone::<T>(),
        t.known(),
        t.kept() == value,
        t.known() ==> (got matches Ok(v) && cloned(t.kept(), v)),
    ensures
        got matches Ok(v) && v@ == value@,
{
}

/// Mapping a function that hands its argument back gives a thunk that may hold
/// only what the thunk mapped hands out: with `r` what `map` gives for `t` and
/// `f`.
pub proof fn lemma_map_identity_values<T: Clone + View, F: Fn(T) -> T>(t: Thunk<T>, f: F, r: Thunk<T>)
    requires
        forall|u: T| #[trigger] r.may_hold(u) <==> mapped_by::<T, T, F>(f, t, u),
        forall|x: T, u: T| f.ensures((x,), u) ==> u == x,
    ensures
        forall|u: T| #[trigger] r.may_hold(u) ==> t.hands_out(u),
{
    assert forall|u: T| #[trigger] r.may_hold(u) implies t.hands_out(u) by {
        let x = choose|x: T| t.hands_out(x) && f.ensures((x,), u);
        assert(u == x);
    }
}

/// Binding a function that wraps what `f` gives in a thunk made of it evaluates
/// to what mapping `f` evaluates to: with `bound` what `bind` gives for `t` and
/// `g`, and `mapped` what `map` gives for `t` and `f`.
pub proof fn lemma_bind_pure_is_map_values<
    T: Clone + View,
    U: Clone + View,
    F: Fn(T) -> U,
    G: Fn(T) -> Thunk<U>,
>(t: Thunk<T>, f: F, g: G, mapped: Thunk<U>, bound: Thunk<U>)
    requires
        forall|u: U| #[trigger] mapped.may_hold(u) <==> mapped_by::<T, U, F>(f, t, u),
        forall|u: U| #[trigger] bound.may_hold(u) <==> bound_by::<T, U, G>(g, t, u),
        forall|x: T, s: Thunk<U>|
            g.ensures((x,), s) ==> exists|u: U|
                f.ensures((x,), u) && forall|v: U| #[trigger] s.may_hold(v) <==> v == u,
    ensures
        forall|v: U| #[trigger] bound.may_hold(v) ==> mapped.hands_out(v),
{
    assert forall|v: U| #[trigger] bound.may_hold(v) implies mapped.hands_out(v) by {
        let (x, s) = choose|x: T, s: Thunk<U>|
            t.hands_out(x) && g.ensures((x,), s) && s.hands_out(v);
        let u = choose|u: U|
            f.ensures((x,), u) && forall|w: U| #[trigger] s.may_hold(w) <==> w == u;
        let k = choose|k: U| s.may_hold(k) && cloned(k, v);
        assert(k == u);
        assert(mapped_by::<T, U, F>(f, t, u));
        assert(mapped.may_hold(u));
    }
}

/// Mapping a function that keeps the view of its argument over a determined
/// thunk evaluates to what the thunk evaluates to, up to the view: with `mapped`
/// what `map` gives for `t` and `f`, `a` what evaluating `mapped` hands out and
/// `b` what evaluating `t` hands out.
pub proof fn lemma_map_identity_eval<T: Clone + View, F: Fn(T) -> T>(
    t: Thunk<T>,
    f: F,
    mapped: Thunk<T>,
    a: T,
    b: T,
)
    requires
        faithful_clone::<T>(),
        t.determined(),
        forall|u: T| #[trigger] mapped.may_hold(u) <==> mapped_by::<T, T, F>(f, t, u),
        forall|x: T, u: T| f.ensures((x,), u) ==> u@ == x@,
        mapped.hands_out(a),
        t.hands_out(b),
    ensures
        a@ == b@,
        a@ == t@,
{
    let k = choose|k: T| mapped.may_hold(k) && cloned(k, a);
    let x = choose|x: T| t.hands_out(x) && f.ensures((x,), k);
    t.lemma_handed_view(x);
    t.lemma_handed_view(b);
}

/// Binding a function that wraps what `f` gives in a thunk made of it, and
/// mapping `f`, evaluate to one view over a determined thunk, where `f` is settled
/// there: with `bound` what `bind` gives for `t` and `g`, `mapped` what `map` gives
/// for `t` and `f`, and `a` and `b` what evaluating them hands out.
pub proof fn lemma_bind_pure_is_map_eval<
    T: Clone + View,
    U: Clone + View,
    F: Fn(T) -> U,
    G: Fn(T) -> Thunk<U>,
>(t: Thunk<T>, f: F, g: G, mapped: Thunk<U>, bound: Thunk<U>, a: U, b: U)
    requires
        faithful_clone::<T>(),
        faithful_clone::<U>(),
        t.determined(),
        settled_at::<T, U, F>(f, t@),
        forall|u: U| #[trigger] mapped.may_hold(u) <==> mapped_by::<T, U, F>(f, t, u),
        forall|u: U| #[trigger] bound.may_hold(u) <==> bound_by::<T, U, G>(g, t, u),
        forall|x: T, s: Thunk<U>|
            g.ensures((x,), s) ==> exists|u: U|
                f.ensures((x,), u) && forall|v: U| #[trigger] s.may_hold(v) <==> v == u,
        bound.hands_out(a),
        mapped.hands_out(b),
    ensures
        a@ == b@,
{
    lemma_bind_pure_is_map_values::<T, U, F, G>(t, f, g, mapped, bound);
    let ka = choose|k: U| bound.may_hold(k) && cloned(k, a);
    assert(mapped.hands_out(ka));
    let ma = choose|k: U| mapped.may_hold(k) && cloned(k, ka);
    let mb = choose|k: U| mapped.may_hold(k) && cloned(k, b);
    let xa = choose|x: T| t.hands_out(x) && f.ensures((x,), ma);
    let xb = choose|x: T| t.hands_out(x) && f.ensures((x,), mb);
    t.lemma_handed_view(xa);
    t.lemma_handed_view(xb);
}

/// Mapping a function that keeps the view of its argument gives a thunk with the
/// view of the one mapped, if the function can return on such an argument.
pub proof fn lemma_map_identity<T: View<V = W>, U: View<V = W>, W, F: Fn(T) -> U>(
    f: F,
    a: W,
    w: W,
)
    requires
        carries::<T, U, F>(f, a, w),
        forall|x: T, u: U| f.ensures((x,), u) ==> u@ == x@,
        exists|x: T, u: U| x@ == a && f.ensures((x,), u),
    ensures
        w == a,
{
    let (x, u) = choose|x: T, u: U| x@ == a && f.ensures((x,), u);
    assert(u@ == w);
}

/// Binding a function that wraps what `f` gives in a thunk is mapping `f`, if the
/// function can return where it is applied.
pub proof fn lemma_bind_pure_is_map<T: View, U: View, F: Fn(T) -> U, G: Fn(T) -> Thunk<U>>(
    f: F,
    g: G,
    a: T::V,
    mapped: U::V,
    bound: U::V,
)
    requires
        carries::<T, U, F>(f, a, mapped),
        carries::<T, Thunk<U>, G>(g, a, bound),
        forall|x: T, t: Thunk<U>|
            g.ensures((x,), t) ==> exists|u: U| f.ensures((x,), u) && t@ == u@,
        exists|x: T, t: Thunk<U>| x@ == a && g.ensures((x,), t),
    ensures
        bound == mapped,
{
    let (x, t) = choose|x: T, t: Thunk<U>| x@ == a && g.ensures((x,), t);
    assert(t@ == bound);
    let u = choose|u: U| f.ensures((x,), u) && t@ == u@;
    assert(u@ == mapped);
}

/// How far the first node of a list, or the value of a thunk, has been computed.
#[derive(Debug, Clone, Copy, PartialEq, Eq, Structural)]
pub enum Status {
    /// The value is there.
    Evaluated,
    /// The producer has not run yet.
    Unevaluated,
    /// The producer was entered and has not given a value.
    Poisoned,
}

impl<T: View> Thunk<T> {
    /// How far the value has been computed. Nothing is computed by asking. A thunk
    /// made of a value is evaluated.
    pub fn status(&self) -> (r: Status)
        ensures
            self.known() ==> r == Status::Evaluated,
    {
        match &*self.cell {
            ThunkCell::Known(_) => Status::Evaluated,
            ThunkCell::Lazy(cell) => {
                let state = cell.replace(PrimitiveThunk::Lock);
                let status = state.status();
                let _ = cell.replace(state);
                status
            },
        }
    }
}

impl<T> PrimitiveThunk<T> {
    /// How far the value has been computed.
    pub fn status(&self) -> (r: Status)
        ensures
            r == self.status_of(),
    {
        match self {
            PrimitiveThunk::Value(_) => Status::Evaluated,
            PrimitiveThunk::Func(_) => Status::Unevaluated,
            PrimitiveThunk::Lock => Status::Poisoned,
        }
    }

    /// The status that goes with each state.
    pub open spec fn status_of(&self) -> Status {
        match self {
            PrimitiveThunk::Value(_) => Status::Evaluated,
            PrimitiveThunk::Func(_) => Status::Unevaluated,
            PrimitiveThunk::Lock => Status::Poisoned,
        }
    }
}

/// What a look at a cell shows, without computing anything: the value, or that
/// there is none yet, or that the cell is marked.
pub enum Seen<T> {
    Value(T),
    Unevaluated,
    Poisoned,
}

impl<T: Clone> PrimitiveThunk<T> {
    /// What the cell shows as it is: a clone of its value, if it has one.
    pub fn look(&self) -> (r: Seen<T>)
        ensures
            match *self {
                PrimitiveThunk::Value(kept) => r matches Seen::Value(v) && cloned(kept, v),
                PrimitiveThunk::Func(_) => r is Unevaluated,
                PrimitiveThunk::Lock => r is Poisoned,
            },
    {
        match self {
            PrimitiveThunk::Value(kept) => Seen::Value(kept.clone()),
            PrimitiveThunk::Func(_) => Seen::Unevaluated,
            PrimitiveThunk::Lock => Seen::Poisoned,
        }
    }
}

impl<T: Clone + View> Thunk<T> {
    /// What the thunk shows as it is: a clone of its value, if that was computed.
    /// Nothing is computed by looking. A thunk made of a value shows that value.
    pub fn look(&self) -> (r: Seen<T>)
        requires
            faithful_clone::<T>(),
        ensures
            r matches Seen::Value(v) ==> self.hands_out(v),
            r matches Seen::Value(v) ==> (self.determined() ==> v@ == self@),
            self.known() ==> (r matches Seen::Value(v) && cloned(self.kept(), v)),
    {
        let seen = match &*self.cell {
            ThunkCell::Known(value) => {
                let v = value.clone();
                assert(cloned(*value, v));
                assert(self.may_hold(*value));
                Seen::Value(v)
            },
            ThunkCell::Lazy(cell) => {
                let state = cell.replace(PrimitiveThunk::Lock);
                let seen = state.look();
                proof {
                    if seen is Value {
                        assert(self.may_hold(state->Value_0));
                    }
                }
                let _ = cell.replace(state);
                seen
            },
        };
        proof {
            if seen is Value && self.determined() {
                self.lemma_handed_view(seen->Value_0);
            }
        }
        seen
    }
}

} // verus!
