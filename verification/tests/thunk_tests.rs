use lazylist::thunk::{PoisonedThunk, PrimitiveThunk, Status, Thunk};
use std::cell::{Cell, RefCell};
use std::rc::Rc;

fn counter() -> (Rc<Cell<u32>>, impl Fn() -> u32) {
    let count = Rc::new(Cell::new(0u32));
    let seen = count.clone();
    (count, move || {
        seen.set(seen.get() + 1);
        seen.get()
    })
}

#[test]
fn pure_round_trip() {
    let t = Thunk::pure(41u64);
    assert_eq!(t.status(), Status::Evaluated);
    assert_eq!(t.eval(), Ok(41));
    assert_eq!(t.eval(), Ok(41));
    let s = Thunk::pure(String::from("kept"));
    assert_eq!(s.eval(), Ok(String::from("kept")));
}

#[test]
fn producer_runs_once() {
    let (count, produce) = counter();
    let t = Thunk::from_func(produce);
    assert_eq!(count.get(), 0);
    assert_eq!(t.status(), Status::Unevaluated);
    assert_eq!(t.eval(), Ok(1));
    assert_eq!(t.eval(), Ok(1));
    let other = t.clone();
    assert_eq!(other.eval(), Ok(1));
    assert_eq!(other.force(), Ok(()));
    assert_eq!(count.get(), 1);
    assert_eq!(t.status(), Status::Evaluated);
}

#[test]
fn force_computes_without_handing_out() {
    let (count, produce) = counter();
    let t = Thunk::from_func(produce);
    assert_eq!(t.force(), Ok(()));
    assert_eq!(count.get(), 1);
    assert_eq!(t.force(), Ok(()));
    assert_eq!(count.get(), 1);
    assert_eq!(t.eval(), Ok(1));
}

#[test]
fn self_reference_is_poisoned() {
    let slot: Rc<RefCell<Option<Thunk<u32>>>> = Rc::new(RefCell::new(None));
    let inner = slot.clone();
    let seen: Rc<Cell<Option<Status>>> = Rc::new(Cell::new(None));
    let note = seen.clone();
    let t = Thunk::from_func(move || {
        let me = inner.borrow().as_ref().unwrap().clone();
        note.set(Some(me.status()));
        match me.eval() {
            Ok(v) => v,
            Err(PoisonedThunk) => 99,
        }
    });
    *slot.borrow_mut() = Some(t.clone());
    assert_eq!(t.eval(), Ok(99));
    assert_eq!(seen.get(), Some(Status::Poisoned));
}

#[test]
fn primitive_cell_goes_from_pending_to_value() {
    let (count, produce) = counter();
    let mut cell = PrimitiveThunk::from_func(produce);
    assert_eq!(cell.status(), Status::Unevaluated);
    assert_eq!(count.get(), 0);
    assert_eq!(cell.force(), Ok(()));
    assert_eq!(cell.status(), Status::Evaluated);
    assert_eq!(cell.force(), Ok(()));
    assert_eq!(cell.eval(), Ok(1));
    assert_eq!(cell.eval(), Ok(1));
    assert_eq!(count.get(), 1);
}

#[test]
fn primitive_cell_with_a_value() {
    let mut cell = PrimitiveThunk::pure(5i64);
    assert_eq!(cell.status(), Status::Evaluated);
    assert_eq!(cell.force(), Ok(()));
    assert_eq!(cell.eval(), Ok(5));
}

#[test]
fn primitive_cell_marked_fails() {
    let cell: PrimitiveThunk<u8> = PrimitiveThunk::Lock;
    assert_eq!(cell.status(), Status::Poisoned);
    assert_eq!(cell.check(), Err(PoisonedThunk));
    assert_eq!(cell.status(), Status::Poisoned);
    assert_eq!(PrimitiveThunk::pure(1u8).check(), Ok(()));
    assert_eq!(PrimitiveThunk::from_func(|| 1u8).check(), Ok(()));
}

#[test]
fn map_waits_for_the_first_access() {
    let (count, produce) = counter();
    let calls = Rc::new(Cell::new(0u32));
    let seen = calls.clone();
    let t = Thunk::from_func(produce);
    let m = t.map(move |x| {
        seen.set(seen.get() + 1);
        x + 10
    });
    assert_eq!(count.get(), 0);
    assert_eq!(calls.get(), 0);
    assert_eq!(t.status(), Status::Unevaluated);
    assert_eq!(m.eval(), Ok(11));
    assert_eq!(m.eval(), Ok(11));
    assert_eq!(count.get(), 1);
    assert_eq!(calls.get(), 1);
    assert_eq!(t.status(), Status::Evaluated);
}

#[test]
fn map_identity_and_bind_pure() {
    let t = Thunk::pure(6i32);
    assert_eq!(t.map(|x| x).eval(), t.eval());
    let mapped = t.map(|x| x * 7);
    let bound = t.bind(|x| Thunk::pure(x * 7));
    assert_eq!(bound.status(), Status::Unevaluated);
    assert_eq!(bound.eval(), mapped.eval());
    assert_eq!(bound.eval(), Ok(42));
}

#[test]
fn join_flattens_one_level() {
    let (count, produce) = counter();
    let inner = Thunk::from_func(produce);
    let outer = Thunk::pure(inner);
    let joined = outer.join();
    assert_eq!(count.get(), 0);
    assert_eq!(joined.status(), Status::Unevaluated);
    assert_eq!(joined.eval(), Ok(1));
    assert_eq!(joined.eval(), Ok(1));
    assert_eq!(count.get(), 1);
}

#[test]
fn strict_forms_compute_at_once() {
    let (count, produce) = counter();
    let t = Thunk::from_func(produce);
    let m = t.map_strict(|x| x + 1).unwrap();
    assert_eq!(count.get(), 1);
    assert_eq!(m.status(), Status::Evaluated);
    assert_eq!(m.eval(), Ok(2));
    let b = t.bind_strict(|x| Thunk::pure(x * 3)).unwrap();
    assert_eq!(b.eval(), Ok(3));
    let nested = Thunk::pure(Thunk::pure(9u8));
    let j = Thunk::join_strict(&nested).unwrap();
    assert_eq!(j.status(), Status::Evaluated);
    assert_eq!(j.eval(), Ok(9));
}

#[test]
fn poison_passes_through_map() {
    let slot: Rc<RefCell<Option<Thunk<u32>>>> = Rc::new(RefCell::new(None));
    let inner = slot.clone();
    let seen: Rc<Cell<bool>> = Rc::new(Cell::new(false));
    let note = seen.clone();
    let t = Thunk::from_func(move || {
        let me = inner.borrow().as_ref().unwrap().clone();
        let through = me.map(|x| x + 1);
        note.set(through.eval() == Err(PoisonedThunk));
        3
    });
    *slot.borrow_mut() = Some(t.clone());
    assert_eq!(t.eval(), Ok(3));
    assert!(seen.get());
}

#[test]
fn render_says_how_far_the_thunk_is() {
    let t = Thunk::from_func(|| 12u8);
    assert_eq!(t.render(), "Unevaluated");
    assert_eq!(t.eval(), Ok(12));
    assert_eq!(t.render(), "12");
    assert_eq!(Thunk::pure(-3i32).render(), "-3");

    let slot: Rc<RefCell<Option<Thunk<u32>>>> = Rc::new(RefCell::new(None));
    let inner = slot.clone();
    let text: Rc<RefCell<String>> = Rc::new(RefCell::new(String::new()));
    let note = text.clone();
    let p = Thunk::from_func(move || {
        let me = inner.borrow().as_ref().unwrap().clone();
        *note.borrow_mut() = me.render();
        1
    });
    *slot.borrow_mut() = Some(p.clone());
    assert_eq!(p.eval(), Ok(1));
    assert_eq!(*text.borrow(), "Poisoned");
}

#[test]
fn look_hands_out_the_value_if_there() {
    let t = Thunk::from_func(|| 4u16);
    assert!(matches!(t.look(), lazylist::thunk::Seen::Unevaluated));
    assert_eq!(t.force(), Ok(()));
    assert!(matches!(t.look(), lazylist::thunk::Seen::Value(4)));
    let cell = PrimitiveThunk::pure(8u8);
    assert!(matches!(cell.look(), lazylist::thunk::Seen::Value(8)));
    let marked: PrimitiveThunk<u8> = PrimitiveThunk::Lock;
    assert!(matches!(marked.look(), lazylist::thunk::Seen::Poisoned));
}

#[test]
fn fallible_producer_passes_its_failure_on() {
    let calls = Rc::new(Cell::new(0u32));
    let seen = calls.clone();
    let bad: Thunk<u32> = Thunk::from_fallible(move || {
        seen.set(seen.get() + 1);
        Err(PoisonedThunk)
    });
    assert_eq!(bad.status(), Status::Unevaluated);
    assert_eq!(bad.eval(), Err(PoisonedThunk));
    assert_eq!(bad.status(), Status::Poisoned);
    assert_eq!(bad.eval(), Err(PoisonedThunk));
    assert_eq!(calls.get(), 1);

    let good = Thunk::from_fallible(|| Ok(21u32));
    assert_eq!(good.eval(), Ok(21));
    assert_eq!(good.status(), Status::Evaluated);
}

#[test]
fn fallible_producer_can_hand_a_poison_on() {
    let slot: Rc<RefCell<Option<Thunk<u32>>>> = Rc::new(RefCell::new(None));
    let inner = slot.clone();
    let t = Thunk::from_fallible(move || {
        let me = inner.borrow().as_ref().unwrap().clone();
        me.eval()
    });
    *slot.borrow_mut() = Some(t.clone());
    assert_eq!(t.eval(), Err(PoisonedThunk));
}
