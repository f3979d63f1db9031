use lazylist::list::{Found, List, ListInner, ListState};
use lazylist::render::bracket;
use lazylist::thunk::{PoisonedThunk, Status};
use std::cell::Cell;
use std::rc::Rc;

fn from_slice(items: &[i32]) -> List<i32> {
    let mut l = List::nil();
    for x in items.iter().rev() {
        l = List::cons(*x, &l);
    }
    l
}

fn nested(l: &List<List<i32>>) -> Vec<Vec<i32>> {
    l.to_vec().unwrap().iter().map(|inner| inner.to_vec().unwrap()).collect()
}

#[test]
fn nil_cons_pure() {
    let empty: List<i32> = List::nil();
    assert_eq!(empty.to_vec(), Ok(vec![]));
    assert_eq!(List::pure(7).to_vec(), Ok(vec![7]));
    let l = List::cons(1, &List::cons(2, &List::pure(3)));
    assert_eq!(l.to_vec(), Ok(vec![1, 2, 3]));
    assert_eq!(l.status(), Status::Evaluated);
}

#[test]
fn eval_gives_the_first_node() {
    let l = from_slice(&[4, 5]);
    match l.eval() {
        Ok(ListInner::Cons(x, rest)) => {
            assert_eq!(x, 4);
            assert_eq!(rest.to_vec(), Ok(vec![5]));
        }
        _ => panic!("a node with an element was expected"),
    }
    let empty: List<i32> = List::nil();
    assert!(matches!(empty.eval(), Ok(ListInner::Nil)));
}

#[test]
fn at_walks_or_runs_past_the_end() {
    let l = from_slice(&[10, 20, 30]);
    assert!(matches!(l.at(0), Ok(Found::Here(10))));
    assert!(matches!(l.at(2), Ok(Found::Here(30))));
    assert!(matches!(l.at(3), Ok(Found::Past(0))));
    assert!(matches!(l.at(7), Ok(Found::Past(4))));
}

#[test]
fn append_identity() {
    let l = from_slice(&[1, 2, 3]);
    assert_eq!(l.append(&List::nil()).to_vec(), l.to_vec());
    assert_eq!(List::nil().append(&l).to_vec(), l.to_vec());
    assert_eq!(l.append(&from_slice(&[4, 5])).to_vec(), Ok(vec![1, 2, 3, 4, 5]));
}

#[test]
fn append_is_lazy_and_shares() {
    let a = from_slice(&[1, 2]);
    let b = from_slice(&[3]);
    let c = a.append(&b);
    assert_eq!(c.status(), Status::Unevaluated);
    assert_eq!(c.to_vec(), Ok(vec![1, 2, 3]));
    assert_eq!(c.status(), Status::Evaluated);
    assert_eq!(a.to_vec(), Ok(vec![1, 2]));
    assert_eq!(b.to_vec(), Ok(vec![3]));
}

#[test]
fn map_is_lazy_and_calls_once_per_element() {
    let calls = Rc::new(Cell::new(0u32));
    let seen = calls.clone();
    let l = from_slice(&[1, 2, 3]);
    let m = l.map(move |x| {
        seen.set(seen.get() + 1);
        x * 10
    });
    assert_eq!(calls.get(), 0);
    assert_eq!(m.status(), Status::Unevaluated);
    assert!(matches!(m.at(0), Ok(Found::Here(10))));
    assert_eq!(calls.get(), 1);
    assert_eq!(m.to_vec(), Ok(vec![10, 20, 30]));
    assert_eq!(calls.get(), 3);
    assert_eq!(m.to_vec(), Ok(vec![10, 20, 30]));
    assert_eq!(calls.get(), 3);
}

#[test]
fn map_strict_calls_at_once() {
    let calls = Rc::new(Cell::new(0u32));
    let seen = calls.clone();
    let l = from_slice(&[1, 2, 3]);
    let m = l
        .map_strict(move |x| {
            seen.set(seen.get() + 1);
            x + 1
        })
        .unwrap();
    assert_eq!(calls.get(), 3);
    assert_eq!(m.status(), Status::Evaluated);
    assert_eq!(m.to_vec(), Ok(vec![2, 3, 4]));
}

#[test]
fn join_flattens_in_order() {
    let outer = List::cons(
        from_slice(&[1, 2]),
        &List::cons(List::nil(), &List::pure(from_slice(&[3]))),
    );
    let j = outer.join();
    assert_eq!(j.status(), Status::Unevaluated);
    assert_eq!(j.to_vec(), Ok(vec![1, 2, 3]));
    let none: List<List<i32>> = List::nil();
    assert_eq!(none.join().to_vec(), Ok(vec![]));
}

#[test]
fn bind_is_map_then_join() {
    let calls = Rc::new(Cell::new(0u32));
    let seen = calls.clone();
    let l = from_slice(&[1, 2, 3]);
    let b = l.bind(move |x| {
        seen.set(seen.get() + 1);
        List::cons(x, &List::pure(x * 100))
    });
    assert_eq!(calls.get(), 0);
    assert_eq!(b.to_vec(), Ok(vec![1, 100, 2, 200, 3, 300]));
    assert_eq!(calls.get(), 3);
}

#[test]
fn prod_of_two_pairs() {
    let outer = List::cons(from_slice(&[1, 2]), &List::pure(from_slice(&[3, 4])));
    let p = outer.prod();
    let mut got = nested(&p);
    assert_eq!(got, vec![vec![1, 3], vec![1, 4], vec![2, 3], vec![2, 4]]);
    got.sort();
    got.dedup();
    assert_eq!(got.len(), 4);
}

#[test]
fn prod_edge_cases() {
    let none: List<List<i32>> = List::nil();
    assert_eq!(nested(&none.prod()), vec![Vec::<i32>::new()]);
    let with_empty = List::cons(from_slice(&[1, 2]), &List::pure(List::nil()));
    assert_eq!(nested(&with_empty.prod()), Vec::<Vec<i32>>::new());
    let single = List::pure(from_slice(&[7, 8, 9]));
    assert_eq!(nested(&single.prod()), vec![vec![7], vec![8], vec![9]]);
}

#[test]
fn prod_end_to_end() {
    let list1 = from_slice(&[1, 2, 3]);
    assert_eq!(list1.render().unwrap(), "[1, 2, 3]");
    let list2 = from_slice(&[4, 5]);
    assert_eq!(list2.render().unwrap(), "[4, 5]");
    let outer = List::cons(list1, &List::pure(list2));
    assert_eq!(outer.render_nested().unwrap(), "[[1, 2, 3], [4, 5]]");

    let combos = outer.prod();
    assert_eq!(combos.status(), Status::Unevaluated);
    assert_eq!(combos.describe_nested(), "Unevaluated");
    assert_eq!(combos.describe_nested(), "Unevaluated");
    assert_eq!(combos.status(), Status::Unevaluated);
    assert_eq!(
        combos.render_nested().unwrap(),
        "[[1, 4], [1, 5], [2, 4], [2, 5], [3, 4], [3, 5]]"
    );
    assert_eq!(combos.status(), Status::Evaluated);
    let told = combos.describe_nested();
    assert!(!told.contains("Unevaluated") && !told.contains("Poisoned"));
    assert!(told.starts_with("Cons(Cons(1, Cons(4, Nil)), Cons(Cons(1, Cons(5, Nil)), "));
    assert_eq!(
        nested(&combos),
        vec![vec![1, 4], vec![1, 5], vec![2, 4], vec![2, 5], vec![3, 4], vec![3, 5]]
    );
}

#[test]
fn render_texts() {
    let empty: List<i32> = List::nil();
    assert_eq!(empty.render().unwrap(), "[]");
    assert_eq!(List::pure(5).render().unwrap(), "[5]");
    assert_eq!(from_slice(&[1, 2]).render().unwrap(), "[1, 2]");
    assert_eq!(bracket(&vec![]), "[]");
    assert_eq!(bracket(&vec!["a".to_string(), "b".to_string(), "c".to_string()]), "[a, b, c]");
}

#[test]
fn clone_is_the_same_list() {
    let l = from_slice(&[1, 2]).map(|x| x + 1);
    let other = l.clone();
    assert_eq!(other.status(), Status::Unevaluated);
    assert_eq!(l.to_vec(), Ok(vec![2, 3]));
    assert_eq!(other.status(), Status::Evaluated);
}

#[test]
fn poison_reaches_the_reader() {
    let slot: Rc<std::cell::RefCell<Option<List<i32>>>> = Rc::new(std::cell::RefCell::new(None));
    let inner = slot.clone();
    let l = from_slice(&[1]).map(move |x| {
        let me = inner.borrow().as_ref().unwrap().clone();
        match me.eval() {
            Err(PoisonedThunk) => x + 1000,
            Ok(_) => x,
        }
    });
    *slot.borrow_mut() = Some(l.clone());
    assert_eq!(l.to_vec(), Ok(vec![1001]));
}

#[test]
fn describe_follows_the_reading() {
    let l = from_slice(&[1, 2, 3]).map(|x| x * 2);
    assert_eq!(l.describe(), "Unevaluated");
    assert_eq!(l.describe(), "Unevaluated");
    assert!(matches!(l.at(0), Ok(Found::Here(2))));
    assert_eq!(l.describe(), "Cons(2, Unevaluated)");
    assert_eq!(l.to_vec(), Ok(vec![2, 4, 6]));
    assert_eq!(l.describe(), "Cons(2, Cons(4, Cons(6, Nil)))");
    assert_eq!(from_slice(&[]).describe(), "Nil");
}

#[test]
fn look_does_not_compute() {
    let calls = Rc::new(Cell::new(0u32));
    let seen = calls.clone();
    let l = from_slice(&[5]).map(move |x| {
        seen.set(seen.get() + 1);
        x
    });
    assert!(matches!(l.look(), lazylist::thunk::Seen::Unevaluated));
    assert_eq!(calls.get(), 0);
    assert!(matches!(l.eval(), Ok(ListInner::Cons(5, _))));
    assert!(matches!(l.look(), lazylist::thunk::Seen::Value(ListInner::Cons(5, _))));
    assert_eq!(calls.get(), 1);
}

#[test]
fn reading_in_order_asks_each_element_once() {
    let calls = Rc::new(Cell::new(0u32));
    let seen = calls.clone();
    let l = from_slice(&[1, 2, 3, 4]).map(move |x| {
        seen.set(seen.get() + 1);
        x + 1
    });
    let both = l.append(&l);
    assert_eq!(both.to_vec(), Ok(vec![2, 3, 4, 5, 2, 3, 4, 5]));
    assert_eq!(calls.get(), 4);
    assert!(matches!(both.at(6), Ok(Found::Here(4))));
    assert!(matches!(both.at(1), Ok(Found::Here(3))));
    assert_eq!(calls.get(), 4);
}

#[test]
fn prod_of_three_lists_in_order() {
    let outer = List::cons(
        from_slice(&[1, 2]),
        &List::cons(from_slice(&[3]), &List::pure(from_slice(&[4, 5]))),
    );
    let p = outer.prod();
    assert!(matches!(p.at(2), Ok(Found::Here(_))));
    assert_eq!(
        nested(&p),
        vec![vec![1, 3, 4], vec![1, 3, 5], vec![2, 3, 4], vec![2, 3, 5]]
    );
    assert!(matches!(p.at(4), Ok(Found::Past(0))));
}

#[test]
fn join_reads_backwards_and_forwards() {
    let outer = List::cons(
        from_slice(&[1, 2]),
        &List::cons(from_slice(&[3, 4, 5]), &List::pure(from_slice(&[6]))),
    );
    let j = outer.join();
    assert!(matches!(j.at(4), Ok(Found::Here(5))));
    assert!(matches!(j.at(0), Ok(Found::Here(1))));
    assert!(matches!(j.at(5), Ok(Found::Here(6))));
    assert!(matches!(j.at(6), Ok(Found::Past(0))));
    assert_eq!(j.to_vec(), Ok(vec![1, 2, 3, 4, 5, 6]));
}

#[test]
fn cons_shares_the_rest() {
    let lazy = from_slice(&[2, 3]).map(|x| x);
    let longer = List::cons(1, &lazy);
    assert_eq!(lazy.status(), Status::Unevaluated);
    assert_eq!(longer.to_vec(), Ok(vec![1, 2, 3]));
    assert_eq!(lazy.status(), Status::Evaluated);
    match longer.eval() {
        Ok(ListInner::Cons(1, rest)) => assert_eq!(rest.status(), Status::Evaluated),
        _ => panic!("a node with the element 1 was expected"),
    }
}

#[test]
fn map_strict_calls_in_list_order() {
    let order: Rc<std::cell::RefCell<Vec<i32>>> = Rc::new(std::cell::RefCell::new(Vec::new()));
    let seen = order.clone();
    let l = from_slice(&[1, 2, 3]);
    let m = l
        .map_strict(move |x| {
            seen.borrow_mut().push(x);
            x * 2
        })
        .unwrap();
    assert_eq!(*order.borrow(), vec![1, 2, 3]);
    assert_eq!(m.to_vec(), Ok(vec![2, 4, 6]));
}

#[test]
fn lists_render_at_any_depth() {
    let inner = from_slice(&[1, 2]);
    let middle = List::cons(inner.clone(), &List::pure(from_slice(&[3])));
    let outer = List::cons(middle.clone(), &List::pure(List::nil()));
    assert_eq!(outer.render().unwrap(), "[[[1, 2], [3]], []]");
    assert_eq!(
        outer.describe(),
        "Cons(Cons(Cons(1, Cons(2, Nil)), Cons(Cons(3, Nil), Nil)), Cons(Nil, Nil))"
    );
    let words = List::cons(String::from("a"), &List::pure(String::from("b")));
    assert_eq!(words.render().unwrap(), "[a, b]");
}

#[test]
fn cons_in_front_of_a_lazy_list_forces_nothing() {
    let calls = Rc::new(Cell::new(0u32));
    let seen = calls.clone();
    let t = from_slice(&[2, 3]).map(move |x| {
        seen.set(seen.get() + 1);
        x
    });
    let r = List::cons(1, &t);
    assert_eq!(calls.get(), 0);
    assert_eq!(r.status(), Status::Evaluated);
    assert_eq!(r.describe(), "Cons(1, Unevaluated)");
    assert_eq!(calls.get(), 0);
    assert_eq!(r.render().unwrap(), "[1, 2, 3]");
    assert_eq!(t.to_vec(), Ok(vec![2, 3]));
    assert_eq!(calls.get(), 2);
    assert_eq!(r.describe(), "Cons(1, Cons(2, Cons(3, Nil)))");
}

#[test]
fn a_marked_list_cell_is_found_by_check() {
    let marked: ListState<i32> = ListState::Lock;
    assert_eq!(marked.check(), Err(PoisonedThunk));
    assert_eq!(marked.status(), Status::Poisoned);
    let there: ListState<i32> = ListState::Value(ListInner::Nil);
    assert_eq!(there.check(), Ok(()));
    assert_eq!(there.status(), Status::Evaluated);
}

#[test]
fn lazy_results_start_out_pending() {
    let l = from_slice(&[1, 2]);
    let outer = List::cons(l.clone(), &List::pure(l.clone()));
    assert_eq!(l.append(&l).status(), Status::Unevaluated);
    assert_eq!(l.map(|x| x).status(), Status::Unevaluated);
    assert_eq!(l.bind(|x| List::pure(x)).status(), Status::Unevaluated);
    assert_eq!(outer.join().status(), Status::Unevaluated);
    assert_eq!(outer.prod().status(), Status::Unevaluated);
}
