//! A singly linked list and an iterator over its elements.
use vstd::prelude::*;

verus! {

/// The rest of a list: nothing, or the node that comes next.
pub type Link<T> = Option<Box<Node<T>>>;

/// A node: an element and the rest of the list.
pub struct Node<T> {
    pub elem: T,
    pub next: Link<T>,
}

/// A singly linked list.
pub struct LinkedList<T> {
    pub head: Link<T>,
}

/// An iterator over the elements of a list, first to last.
pub struct IterMut<'a, T>(Option<&'a mut Node<T>>);

/// The elements of a link, first to last.
pub open spec fn link_items<T>(l: Link<T>) -> Seq<T>
    decreases l,
{
    match l {
        None => Seq::empty(),
        Some(b) => seq![b.elem] + link_items(b.next),
    }
}

impl<T> View for LinkedList<T> {
    type V = Seq<T>;

    open spec fn view(&self) -> Seq<T> {
        link_items(self.head)
    }
}

impl<'a, T> View for IterMut<'a, T> {
    type V = Seq<T>;

    /// The elements the iterator has yet to yield.
    closed spec fn view(&self) -> Seq<T> {
        match self.0 {
            None => Seq::empty(),
            Some(n) => seq![(*n).elem] + link_items((*n).next),
        }
    }
}

impl<T> LinkedList<T> {
    /// An iterator over the elements of the list.
    pub fn iter_mut(&mut self) -> (r: IterMut<'_, T>)
        ensures
            r@ == old(self)@,
    {
        match &mut self.head {
            Some(node) => IterMut(Some(&mut **node)),
            None => IterMut(None),
        }
    }
}

impl<'a, T> IterMut<'a, T> {
    /// Yields the next element; `None` once all are yielded.
    pub fn next(&mut self) -> (r: Option<&'a T>)
        ensures
            old(self)@.len() == 0 ==> r is None && final(self)@ == old(self)@,
            old(self)@.len() > 0 ==> (r matches Some(e) && *e == old(self)@[0] && final(self)@ == old(self)@.drop_first()),
    {
        match self.0.take() {
            Some(node) => {
                let ghost items = seq![(*node).elem] + link_items((*node).next);
                let Node { elem, next } = node;
                let ghost rest = *next;
                self.0 = match next {
                    Some(n) => Some(&mut **n),
                    None => None,
                };
                proof {
                    assert(items.drop_first() =~= link_items(rest));
                }
                Some(&*elem)
            },
            None => None,
        }
    }
}

} // verus!
