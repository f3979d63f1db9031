//! Lists as text.

use crate::list::{List, ListInner};
use crate::thunk::{faithful_clone, PoisonedThunk, Seen, Thunk};
use vstd::prelude::*;
use vstd::string::{to_string_from_display_ensures, StringExecFns};

verus! {

/// The texts of `parts` with a comma and a space between each two.
pub open spec fn joined(parts: Seq<Seq<char>>) -> Seq<char>
    decreases parts.len(),
{
    if parts.len() == 0 {
        Seq::empty()
    } else if parts.len() == 1 {
        parts[0]
    } else {
        joined(parts.drop_last()) + seq![',', ' '] + parts.last()
    }
}

/// The texts of `parts`, separated by a comma and a space, in square brackets.
pub open spec fn bracketed(parts: Seq<Seq<char>>) -> Seq<char> {
    seq!['['] + joined(parts) + seq![']']
}

/// The views of the strings in `parts`.
pub open spec fn texts(parts: Seq<String>) -> Seq<Seq<char>> {
    Seq::new(parts.len(), |j: int| parts[j]@)
}

/// The strings of `parts`, separated by a comma and a space, in square brackets.
pub fn bracket(parts: &Vec<String>) -> (r: String)
    ensures
        r@ == bracketed(texts(parts@)),
{
    let mut out = String::from_str("[");
    let ghost all = texts(parts@);
    proof {
        reveal_strlit("[");
        reveal_strlit(", ");
        reveal_strlit("]");
        assert(all.take(0) =~= Seq::<Seq<char>>::empty());
    }
    let mut k: usize = 0;
    while k < parts.len()
        invariant
            k <= parts.len(),
            all == texts(parts@),
            out@ == seq!['['] + joined(all.take(k as int)),
            ", "@ == seq![',', ' '],
        decreases parts.len() - k,
    {
        if k > 0 {
            out.append(", ");
        }
        out.append(parts[k].as_str());
        proof {
            assert(all.take(k + 1).drop_last() =~= all.take(k as int));
            assert(all.take(k + 1).last() == parts@[k as int]@);
            assert(out@ =~= seq!['['] + joined(all.take(k + 1)));
        }
        k = k + 1;
    }
    out.append("]");
    proof {
        assert(all.take(k as int) =~= all);
    }
    out
}

/// The word that stands for what was seen where no value was seen: `Unevaluated`
/// for a value not computed yet, `Poisoned` for a marked cell.
pub open spec fn marker_of<T>(seen: Seen<T>) -> Option<Seq<char>> {
    match seen {
        Seen::Value(_) => None,
        Seen::Unevaluated => Some("Unevaluated"@),
        Seen::Poisoned => Some("Poisoned"@),
    }
}

/// The word that stands for what was seen, where no value was seen.
pub fn marker<T>(seen: &Seen<T>) -> (r: Option<String>)
    ensures
        match marker_of(*seen) {
            Some(word) => r matches Some(text) && text@ == word,
            None => r is None,
        },
{
    match seen {
        Seen::Value(_) => None,
        Seen::Unevaluated => Some(String::from_str("Unevaluated")),
        Seen::Poisoned => Some(String::from_str("Poisoned")),
    }
}

/// What was seen, as text: a value as it is displayed, and otherwise the word that
/// stands for what was seen.
pub fn shown<T: std::fmt::Display>(seen: Seen<T>) -> (r: String)
    ensures
        match seen {
            Seen::Value(v) => to_string_from_display_ensures::<T>(&v, r),
            _ => marker_of(seen) == Some(r@),
        },
{
    match marker(&seen) {
        Some(word) => word,
        None => match seen {
            Seen::Value(v) => v.to_string(),
            _ => String::from_str(""),
        },
    }
}

/// Whether `text` is how a value that `t` hands out is displayed.
pub open spec fn displays_value<T: Clone + View + std::fmt::Display>(
    t: Thunk<T>,
    text: Seq<char>,
) -> bool {
    exists|v: T, shown: String|
        t.hands_out(v) && to_string_from_display_ensures::<T>(&v, shown) && shown@ == text
}

/// Whether `text` says how far the thunk `t` has come: how a value that it hands
/// out is displayed, or the word for a value not computed yet or for a marked
/// cell.
pub open spec fn describes<T: Clone + View + std::fmt::Display>(t: Thunk<T>, text: Seq<char>) -> bool {
    ||| displays_value::<T>(t, text)
    ||| text == "Unevaluated"@
    ||| text == "Poisoned"@
}

impl<T: Clone + View + std::fmt::Display> Thunk<T> {
    /// The thunk as text, as it is: its value as it is displayed, `Unevaluated`
    /// where the value was not computed yet, `Poisoned` where the cell is marked.
    /// Nothing is computed on the way. A thunk made of a value shows that value.
    pub fn render(&self) -> (r: String)
        requires
            faithful_clone::<T>(),
        ensures
            describes::<T>(*self, r@),
            self.known() ==> displays_value::<T>(*self, r@),
    {
        shown(self.look())
    }
}

/// A value that can be written out as text.
///
/// `shows` says which texts display the value, `tells` which texts say how far it
/// has come without computing anything, and `tells_all` which of those leave
/// nothing out. `fit` is what must hold of the type for either to be asked, and
/// `sure` says that the value is all there, so that displaying it cannot fail.
pub trait Show: Sized {
    spec fn fit() -> bool;

    spec fn shows(&self, text: Seq<char>) -> bool;

    spec fn tells(&self, text: Seq<char>) -> bool;

    spec fn tells_all(&self, text: Seq<char>) -> bool;

    spec fn sure(&self) -> bool;

    fn show(&self) -> (r: Result<String, PoisonedThunk>)
        requires
            Self::fit(),
        ensures
            r matches Ok(text) ==> self.shows(text@),
            self.sure() ==> r is Ok,
    ;

    fn tell(&self) -> (r: String)
        requires
            Self::fit(),
        ensures
            self.tells(r@),
            self.sure() ==> self.tells_all(r@),
    ;
}

/// A value that is displayed by itself: its text is what `to_string` gives, at any
/// time and without fail.
impl<T: std::fmt::Display> Show for T {
    open spec fn fit() -> bool {
        true
    }

    open spec fn shows(&self, text: Seq<char>) -> bool {
        exists|shown: String| to_string_from_display_ensures::<T>(self, shown) && shown@ == text
    }

    open spec fn tells(&self, text: Seq<char>) -> bool {
        self.shows(text)
    }

    open spec fn tells_all(&self, text: Seq<char>) -> bool {
        self.shows(text)
    }

    open spec fn sure(&self) -> bool {
        true
    }

    fn show(&self) -> (r: Result<String, PoisonedThunk>) {
        Ok(self.to_string())
    }

    fn tell(&self) -> (r: String) {
        self.to_string()
    }
}

/// Whether a clone of a value that is sure to be displayed is sure to be
/// displayed too.
pub open spec fn keeps_sure<T: Clone + Show>() -> bool {
    forall|a: T, b: T| #[trigger] cloned(a, b) && a.sure() ==> b.sure()
}

/// What must hold of the elements' type for a list of them to be written out.
pub open spec fn fit_list<T: Clone + View + Show>() -> bool {
    faithful_clone::<T>() && T::fit() && keeps_sure::<T>()
}

/// Whether `part` displays a value that `l` hands out at place `j`.
pub open spec fn shown_at<T: Clone + View + Show>(l: List<T>, j: int, part: Seq<char>) -> bool {
    exists|x: T| x@ == l@[j] && l.hands(j, x) && x.shows(part)
}

/// Whether `parts` display what `l` hands out, place by place.
pub open spec fn shown_each<T: Clone + View + Show>(l: List<T>, parts: Seq<Seq<char>>) -> bool {
    &&& parts.len() == l@.len()
    &&& forall|j: int| 0 <= j < parts.len() ==> shown_at(l, j, #[trigger] parts[j])
}

/// Whether `text` displays the list `l`: the texts of its elements, separated by a
/// comma and a space, in square brackets.
pub open spec fn shows_list<T: Clone + View + Show>(l: List<T>, text: Seq<char>) -> bool {
    exists|parts: Seq<Seq<char>>| shown_each(l, parts) && text == bracketed(parts)
}

/// Whether `text` says how far the list `l` has come: `Unevaluated` for a node
/// not computed yet, `Poisoned` for a marked one, `Nil` for the end, and for a node
/// with an element `Cons(`, what its element has come to, a comma and a space, what
/// the rest has come to, and `)`.
pub open spec fn tells_list<T: Clone + View + Show>(l: List<T>, text: Seq<char>) -> bool
    decreases l@.len(),
{
    ||| text == "Unevaluated"@
    ||| text == "Poisoned"@
    ||| (l@.len() == 0 && text == "Nil"@)
    ||| (l@.len() > 0 && exists|x: T, xs: List<T>, part: Seq<char>, rest: Seq<char>| #[trigger]
        tells_node(l, x, xs, part, rest, text) && tells_list(xs, rest))
}

/// Whether `text` tells of a list `l` whose first node is known: `Nil` for the
/// end and, for a node with an element, `Cons(`, what a clone of that element has
/// come to, a comma and a space, what the very rest of the node has come to, and
/// `)`.
pub open spec fn tells_first<T: Clone + View + Show>(l: List<T>, text: Seq<char>) -> bool
    recommends
        l.known(),
{
    match l.node() {
        ListInner::Nil => text == "Nil"@,
        ListInner::Cons(first, xs) => exists|x: T, part: Seq<char>, rest: Seq<char>| #[trigger]
            tells_node(l, x, xs, part, rest, text) && cloned(first, x) && tells_list(xs, rest),
    }
}

/// Whether `text` tells of the whole list `l`, with nothing left out: `Nil` for the
/// end and, for a node with an element, `Cons(`, the whole of its element, a comma
/// and a space, the whole of the rest, and `)`.
pub open spec fn tells_whole<T: Clone + View + Show>(l: List<T>, text: Seq<char>) -> bool
    decreases l@.len(),
{
    ||| (l@.len() == 0 && text == "Nil"@)
    ||| (l@.len() > 0 && exists|x: T, xs: List<T>, part: Seq<char>, rest: Seq<char>| #[trigger]
        tells_node(l, x, xs, part, rest, text) && x.tells_all(part) && tells_whole(xs, rest))
}

/// Whether `text` is made of `part`, which tells of `x`, and of `rest`, for a list
/// `l` that hands out `x` first and goes on as `xs`.
pub open spec fn tells_node<T: Clone + View + Show>(
    l: List<T>,
    x: T,
    xs: List<T>,
    part: Seq<char>,
    rest: Seq<char>,
    text: Seq<char>,
) -> bool {
    &&& l@.len() > 0
    &&& xs@ == l@.drop_first()
    &&& l.hands(0, x)
    &&& x.tells(part)
    &&& text == "Cons("@ + part + ", "@ + rest + ")"@
}

/// The values that are sure to be displayed.
pub open spec fn sure_ones<T: Show>() -> spec_fn(T) -> bool {
    |x: T| x.sure()
}

impl<T: Clone + View + Show> List<T> {
    /// Whether the list is built of elements that are sure to be displayed, so that
    /// displaying it cannot fail.
    pub open spec fn sure_to_show(&self) -> bool {
        self.all_known(sure_ones::<T>())
    }

    /// The list as text: its elements as they are displayed, separated by a comma
    /// and a space, in square brackets. Every node is read on the way, in order. On
    /// a list built of elements that are sure to be displayed this cannot fail.
    pub fn render(&self) -> (r: Result<String, PoisonedThunk>)
        requires
            fit_list::<T>(),
        ensures
            r matches Ok(text) ==> shows_list(*self, text@),
            self.sure_to_show() ==> r is Ok,
    {
        let mut shown: Vec<String> = Vec::new();
        let mut cur = self.clone();
        loop
            invariant
                fit_list::<T>(),
                shown@.len() <= self@.len(),
                cur@ == self@.skip(shown@.len() as int),
                forall|j: int|
                    0 <= j < shown@.len() ==> shown_at(*self, j, #[trigger] texts(shown@)[j]),
                forall|j: int, v: T| #[trigger]
                    cur.may_have(j, v) ==> self.may_have(shown@.len() + j, v),
                self.sure_to_show() ==> cur.sure_to_show(),
            decreases self@.len() - shown@.len(),
        {
            let ghost before = shown@;
            let ghost place = cur;
            let ghost n = shown@.len() as int;
            proof {
                cur.lemma_all_known(sure_ones::<T>());
                assert(self@.skip(n).len() == self@.len() - n);
            }
            match cur.eval() {
                Err(e) => {
                    return Err(e);
                },
                Ok(ListInner::Nil) => {
                    let out = bracket(&shown);
                    proof {
                        assert(shown_each(*self, texts(shown@)));
                    }
                    return Ok(out);
                },
                Ok(ListInner::Cons(x, xs)) => {
                    proof {
                        assert(self@.skip(n)[0] == self@[n]);
                        assert(self@.skip(n).drop_first() =~= self@.skip(n + 1));
                        let held = choose|held: T| place.may_have(0, held) && cloned(held, x);
                        assert(self.may_have(n + 0, held));
                        assert(self.hands(n, x));
                        assert forall|j: int, v: T| #[trigger] xs.may_have(j, v) implies self.may_have(
                            n + 1 + j,
                            v,
                        ) by {
                            assert(place.may_have(j + 1, v));
                            assert(self.may_have(n + (j + 1), v));
                        }
                        if self.sure_to_show() {
                            let first = place.node()->Cons_0;
                            assert(sure_ones::<T>()(first));
                            assert(first.sure());
                            assert(cloned(first, x));
                            assert(x.sure());
                        }
                    }
                    let text = match x.show() {
                        Ok(text) => text,
                        Err(e) => {
                            return Err(e);
                        },
                    };
                    shown.push(text);
                    proof {
                        assert forall|j: int| 0 <= j < shown@.len() implies shown_at(
                            *self,
                            j,
                            #[trigger] texts(shown@)[j],
                        ) by {
                            if j < n {
                                assert(texts(shown@)[j] == texts(before)[j]);
                            } else {
                                assert(texts(shown@)[j] == text@);
                            }
                        }
                    }
                    cur = xs;
                },
            }
        }
    }

    /// The list as text, as it is: `Nil` for the end, `Cons(` element `, ` rest `)`
    /// for a node computed so far, and `Unevaluated` or `Poisoned` where the list goes
    /// on with a node not computed yet or a marked one. Nothing is computed on the
    /// way. A first node that was given when the list was made is told as `Nil` or
    /// as a `Cons` text.
    pub fn describe(&self) -> (r: String)
        requires
            fit_list::<T>(),
        ensures
            tells_list(*self, r@),
            self.known() ==> tells_first(*self, r@),
            self.sure_to_show() ==> tells_whole(*self, r@),
        decreases self@.len(),
    {
        proof {
            self.lemma_all_known(sure_ones::<T>());
        }
        match self.look() {
            Seen::Value(ListInner::Nil) => {
                let out = String::from_str("Nil");
                assert(self@.len() == 0 && out@ == "Nil"@);
                out
            },
            Seen::Value(ListInner::Cons(x, xs)) => {
                let part = x.tell();
                let rest = xs.describe();
                let mut out = String::from_str("Cons(");
                out.append(part.as_str());
                out.append(", ");
                out.append(rest.as_str());
                out.append(")");
                proof {
                    assert(out@ =~= "Cons("@ + part@ + ", "@ + rest@ + ")"@);
                    assert(self@.len() > 0);
                    assert(xs@ == self@.drop_first());
                    assert(self.hands(0, x));
                    assert(x.tells(part@));
                    assert(tells_list(xs, rest@));
                    let text = "Cons("@ + part@ + ", "@ + rest@ + ")"@;
                    assert(out@ == text);
                    assert(tells_node(*self, x, xs, part@, rest@, text));
                    assert(tells_list(*self, text));
                    if self.sure_to_show() {
                        let first = self.node()->Cons_0;
                        assert(sure_ones::<T>()(first));
                        assert(cloned(first, x));
                        assert(x.sure());
                        assert(xs.sure_to_show());
                        assert(tells_whole(*self, text));
                    }
                }
                out
            },
            other => match marker(&other) {
                Some(word) => {
                    assert(word@ == "Unevaluated"@ || word@ == "Poisoned"@);
                    word
                },
                None => String::from_str(""),
            },
        }
    }
}

/// A list is displayed as its elements are, in square brackets, and tells how far
/// it has come node by node.
impl<T: Clone + View + Show> Show for List<T> {
    open spec fn fit() -> bool {
        fit_list::<T>()
    }

    open spec fn shows(&self, text: Seq<char>) -> bool {
        shows_list(*self, text)
    }

    open spec fn tells(&self, text: Seq<char>) -> bool {
        tells_list(*self, text)
    }

    open spec fn tells_all(&self, text: Seq<char>) -> bool {
        tells_whole(*self, text)
    }

    open spec fn sure(&self) -> bool {
        self.sure_to_show()
    }

    fn show(&self) -> (r: Result<String, PoisonedThunk>) {
        self.render()
    }

    fn tell(&self) -> (r: String) {
        self.describe()
    }
}

impl<T: Clone + View + Show> List<List<T>> {
    /// A list of lists as text: the text of each inner list, separated by a comma
    /// and a space, in square brackets.
    pub fn render_nested(&self) -> (r: Result<String, PoisonedThunk>)
        requires
            fit_list::<List<T>>(),
        ensures
            r matches Ok(text) ==> shows_list(*self, text@),
            self.sure_to_show() ==> r is Ok,
    {
        self.render()
    }

    /// A list of lists as text, as it is, with each inner list as far as it has
    /// come. Nothing is computed on the way.
    pub fn describe_nested(&self) -> (r: String)
        requires
            fit_list::<List<T>>(),
        ensures
            tells_list(*self, r@),
            self.known() ==> tells_first(*self, r@),
            self.sure_to_show() ==> tells_whole(*self, r@),
    {
        self.describe()
    }
}

} // verus!
