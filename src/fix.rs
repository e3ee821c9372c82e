//! Normalization of a list to its fixed point: no element of the result is a list.
//!
//! ```text
//! [A, B, [C], [[D]]]  becomes  [A, B, C, D]
//! ```
use vstd::prelude::*;
use crate::cons::{
    canonical, cons, elem_leaves, leaves, lemma_canonical_is_list_of_leaves, lemma_list_of,
    lemma_list_of_concat, list_of, spec_append, Append, Cons, Elem, List, Nil, Node,
};

verus! {

/// Normalization of a list: `Nil` stays `Nil`; `h :: t` becomes the normalized head
/// followed by the normalized tail.
pub open spec fn spec_fix<T>(l: List<T>) -> List<T>
    decreases l,
{
    match l {
        List::Nil(_) => List::Nil(Nil),
        List::Cons(c) => spec_append(spec_fix_head(c.head), spec_fix(c.tail)),
    }
}

/// Normalization of one element: a leaf becomes the one-element list of it; a nested
/// list becomes its own normalization.
pub open spec fn spec_fix_head<T>(e: Elem<T>) -> List<T>
    decreases e,
{
    match e {
        Elem::Leaf(v) => cons(Elem::Leaf(v), List::Nil(Nil)),
        Elem::List(l) => spec_fix(l),
    }
}

/// Normalization of a list (the recursion over its tail).
pub trait Fix<T>: Node<T> {
    /// The canonical list of the leaves of `self`, in order.
    fn fix(self) -> (r: List<T>)
        ensures
            r == spec_fix(self.as_list()),
            r == list_of(leaves(self.as_list())),
            canonical(r),
            leaves(r) == leaves(self.as_list()),
    ;
}

/// A value that can stand as the head of a list.
pub trait FixHead<T>: Sized {
    /// The element this value is when it stands as a head.
    spec fn as_elem(&self) -> Elem<T>;

    /// Normalization of one head (the recursion into nested lists).
    fn fix_head(self) -> (r: List<T>)
        ensures
            r == spec_fix_head(self.as_elem()),
            r == list_of(elem_leaves(self.as_elem())),
            canonical(r),
            leaves(r) == elem_leaves(self.as_elem()),
    ;
}

impl<T> Fix<T> for Nil {
    fn fix(self) -> (r: List<T>) {
        proof {
            lemma_fix_is_list_of_leaves::<T>(List::Nil(Nil));
            lemma_list_of(Seq::<T>::empty());
        }
        List::Nil(self)
    }
}

impl<T> Fix<T> for Cons<T> {
    fn fix(self) -> (r: List<T>)
        decreases self,
    {
        proof {
            lemma_fix_is_list_of_leaves(self.as_list());
            lemma_list_of(leaves(self.as_list()));
        }
        let Cons { head, tail } = self;
        head.fix_head().append(tail.fix())
    }
}

impl<T> Fix<T> for List<T> {
    fn fix(self) -> (r: List<T>)
        decreases self,
    {
        match self {
            List::Nil(n) => n.fix(),
            List::Cons(c) => (*c).fix(),
        }
    }
}

impl<T> FixHead<T> for Elem<T> {
    open spec fn as_elem(&self) -> Elem<T> {
        *self
    }

    fn fix_head(self) -> (r: List<T>)
        decreases self,
    {
        proof {
            lemma_fix_head_is_list_of_leaves(self);
            lemma_list_of(elem_leaves(self));
        }
        match self {
            Elem::Leaf(v) => List::Cons(Box::new(Cons { head: Elem::Leaf(v), tail: List::Nil(Nil) })),
            Elem::List(l) => l.fix(),
        }
    }
}

impl<T> FixHead<T> for Cons<T> {
    open spec fn as_elem(&self) -> Elem<T> {
        Elem::List(List::Cons(Box::new(*self)))
    }

    fn fix_head(self) -> (r: List<T>) {
        self.fix()
    }
}

/// Normalizing a list gives the canonical list of its leaves.
pub proof fn lemma_fix_is_list_of_leaves<T>(l: List<T>)
    ensures
        spec_fix(l) == list_of(leaves(l)),
    decreases l,
{
    if let List::Cons(c) = l {
        lemma_fix_head_is_list_of_leaves(c.head);
        lemma_fix_is_list_of_leaves(c.tail);
        lemma_list_of_concat(elem_leaves(c.head), leaves(c.tail));
    }
}

/// Normalizing an element gives the canonical list of its leaves.
pub proof fn lemma_fix_head_is_list_of_leaves<T>(e: Elem<T>)
    ensures
        spec_fix_head(e) == list_of(elem_leaves(e)),
    decreases e,
{
    match e {
        Elem::Leaf(v) => {
            assert(elem_leaves(e) == seq![v]);
            assert(seq![v].drop_first() =~= Seq::<T>::empty());
            assert(list_of(seq![v].drop_first()) == List::<T>::Nil(Nil));
        },
        Elem::List(l) => {
            lemma_fix_is_list_of_leaves(l);
        },
    }
}

/// Normalizing an already canonical list gives back the very same list.
pub proof fn lemma_fix_canonical<T>(l: List<T>)
    requires
        canonical(l),
    ensures
        spec_fix(l) == l,
{
    lemma_fix_is_list_of_leaves(l);
    lemma_canonical_is_list_of_leaves(l);
}

/// Normalization keeps every leaf, in its left-to-right order, and its result is canonical.
pub proof fn lemma_fix_keeps_order<T>(l: List<T>)
    ensures
        canonical(spec_fix(l)),
        leaves(spec_fix(l)) == leaves(l),
{
    lemma_fix_is_list_of_leaves(l);
    lemma_list_of(leaves(l));
}

/// Normalizing twice is normalizing once.
pub proof fn lemma_fix_idempotent<T>(l: List<T>)
    ensures
        spec_fix(spec_fix(l)) == spec_fix(l),
{
    lemma_fix_keeps_order(l);
    lemma_fix_canonical(spec_fix(l));
}

} // verus!
