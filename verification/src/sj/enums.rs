//! A list of integers built from nested pairs.
use vstd::prelude::*;
use vstd::string::*;
use crate::text::{decimal_text, i128_text};

verus! {

/// A list: an element followed by a list, or the end.
pub enum List {
    Cons(i32, Box<List>),
    Nil,
}

impl List {
    /// The elements, first to last.
    pub open spec fn items(self) -> Seq<i32>
        decreases self,
    {
        match self {
            List::Cons(h, t) => seq![h] + t.items(),
            List::Nil => seq![],
        }
    }

    /// The text of a list: each element and `, `, then `Nil`.
    pub open spec fn text(self) -> Seq<char>
        decreases self,
    {
        match self {
            List::Cons(h, t) => decimal_text(h as int) + ", "@ + t.text(),
            List::Nil => "Nil"@,
        }
    }

    /// The empty list.
    pub fn new() -> (r: List)
        ensures
            r.items() == Seq::<i32>::empty(),
    {
        Self::Nil
    }

    /// The list with `elem` in front.
    pub fn prepend(self, elem: i32) -> (r: Self)
        ensures
            r.items() == seq![elem] + self.items(),
    {
        Self::Cons(elem, Box::new(self))
    }

    /// The number of elements.
    pub fn len(&self) -> (r: i32)
        requires
            self.items().len() <= i32::MAX,
        ensures
            r == self.items().len(),
        decreases *self,
    {
        match self {
            Self::Cons(_, tail) => 1 + tail.len(),
            Self::Nil => 0,
        }
    }

    /// The text of the list, e.g. `3, 2, 1, Nil`.
    pub fn stringify(&self) -> (r: String)
        ensures
            r@ == self.text(),
        decreases *self,
    {
        match self {
            Self::Nil => String::from_str("Nil"),
            Self::Cons(head, tail) => {
                let mut r = i128_text(*head as i128);
                r.append(", ");
                let t = tail.stringify();
                r.append(t.as_str());
                r
            },
        }
    }
}

} // verus!
