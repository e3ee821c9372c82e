//! Heterogeneous-style singly linked lists: the canonical intermediate form.
use vstd::prelude::*;

verus! {

/// The empty list.
#[derive(Debug, Clone, Copy, PartialEq, Eq)]
pub struct Nil;

/// A list node: one element followed by the rest of the list.
#[derive(Debug, PartialEq, Eq)]
pub struct Cons<T> {
    pub head: Elem<T>,
    pub tail: List<T>,
}

/// A list: either `Nil` or a `Cons` node.
#[derive(Debug, PartialEq, Eq)]
pub enum List<T> {
    Nil(Nil),
    Cons(Box<Cons<T>>),
}

/// An element of a list: a leaf value, or a list nested in place.
#[derive(Debug, PartialEq, Eq)]
pub enum Elem<T> {
    Leaf(T),
    List(List<T>),
}

/// The list with element `head` in front of `tail`.
pub open spec fn cons<T>(head: Elem<T>, tail: List<T>) -> List<T> {
    List::Cons(Box::new(Cons { head, tail }))
}

/// Number of elements (nested lists count as one element).
pub open spec fn len<T>(l: List<T>) -> nat
    decreases l,
{
    match l {
        List::Nil(_) => 0,
        List::Cons(c) => 1 + len(c.tail),
    }
}

/// A list is canonical when none of its elements is itself a list.
pub open spec fn canonical<T>(l: List<T>) -> bool
    decreases l,
{
    match l {
        List::Nil(_) => true,
        List::Cons(c) => c.head is Leaf && canonical(c.tail),
    }
}

/// The leaves of a list, left to right, at any depth of nesting.
pub open spec fn leaves<T>(l: List<T>) -> Seq<T>
    decreases l,
{
    match l {
        List::Nil(_) => Seq::empty(),
        List::Cons(c) => elem_leaves(c.head) + leaves(c.tail),
    }
}

/// The leaves of one element, left to right.
pub open spec fn elem_leaves<T>(e: Elem<T>) -> Seq<T>
    decreases e,
{
    match e {
        Elem::Leaf(v) => seq![v],
        Elem::List(l) => leaves(l),
    }
}

/// The canonical list whose elements are the leaves `s`, in order.
pub open spec fn list_of<T>(s: Seq<T>) -> List<T>
    decreases s.len(),
{
    if s.len() == 0 {
        List::Nil(Nil)
    } else {
        cons(Elem::Leaf(s[0]), list_of(s.drop_first()))
    }
}

/// Concatenation: `append(Nil, x) == x`, `append(h :: t, x) == h :: append(t, x)`.
pub open spec fn spec_append<T>(a: List<T>, b: List<T>) -> List<T>
    decreases a,
{
    match a {
        List::Nil(_) => b,
        List::Cons(c) => cons(c.head, spec_append(c.tail, b)),
    }
}

/// `Nil` or `Cons`: a value that stands for a list.
pub trait Node<T>: Sized {
    /// The list this node stands for.
    spec fn as_list(&self) -> List<T>;
}

impl<T> Node<T> for Nil {
    open spec fn as_list(&self) -> List<T> {
        List::Nil(Nil)
    }
}

impl<T> Node<T> for Cons<T> {
    open spec fn as_list(&self) -> List<T> {
        List::Cons(Box::new(*self))
    }
}

impl<T> Node<T> for List<T> {
    open spec fn as_list(&self) -> List<T> {
        *self
    }
}

/// Concatenation of a list with a canonical list.
pub trait Append<T>: Node<T> {
    /// The elements of `self` followed by those of `tail`. The result is canonical
    /// exactly when `self` is.
    fn append(self, tail: List<T>) -> (r: List<T>)
        requires
            canonical(tail),
        ensures
            r == spec_append(self.as_list(), tail),
            canonical(r) == canonical(self.as_list()),
            leaves(r) == leaves(self.as_list()) + leaves(tail),
            len(r) == len(self.as_list()) + len(tail),
    ;
}

impl<T> Append<T> for Nil {
    fn append(self, tail: List<T>) -> (r: List<T>) {
        proof {
            lemma_append_facts(List::Nil(Nil), tail);
        }
        tail
    }
}

impl<T> Append<T> for Cons<T> {
    fn append(self, tail: List<T>) -> (r: List<T>)
        decreases self,
    {
        proof {
            lemma_append_facts(List::Cons(Box::new(self)), tail);
        }
        let Cons { head, tail: rest } = self;
        let joined = rest.append(tail);
        List::Cons(Box::new(Cons { head, tail: joined }))
    }
}

impl<T> Append<T> for List<T> {
    fn append(self, tail: List<T>) -> (r: List<T>)
        decreases self,
    {
        match self {
            List::Nil(n) => n.append(tail),
            List::Cons(c) => (*c).append(tail),
        }
    }
}

/// What concatenation does to canonicity, leaves and length.
pub proof fn lemma_append_facts<T>(a: List<T>, b: List<T>)
    requires
        canonical(b),
    ensures
        canonical(spec_append(a, b)) == canonical(a),
        leaves(spec_append(a, b)) == leaves(a) + leaves(b),
        len(spec_append(a, b)) == len(a) + len(b),
    decreases a,
{
    match a {
        List::Nil(_) => {
            assert(leaves(a) + leaves(b) =~= leaves(b));
        },
        List::Cons(c) => {
            lemma_append_facts(c.tail, b);
            assert(elem_leaves(c.head) + (leaves(c.tail) + leaves(b)) =~= (elem_leaves(c.head)
                + leaves(c.tail)) + leaves(b));
        },
    }
}

/// Concatenation is associative.
pub proof fn lemma_append_assoc<T>(a: List<T>, b: List<T>, c: List<T>)
    requires
        canonical(a),
        canonical(b),
        canonical(c),
    ensures
        spec_append(spec_append(a, b), c) == spec_append(a, spec_append(b, c)),
    decreases a,
{
    match a {
        List::Nil(_) => {},
        List::Cons(n) => {
            lemma_append_assoc(n.tail, b, c);
        },
    }
}

/// The empty list is a left identity of concatenation.
pub proof fn lemma_append_nil_left<T>(x: List<T>)
    ensures
        spec_append(List::Nil(Nil), x) == x,
{
}

/// `list_of` builds a canonical list that holds exactly the given leaves.
pub proof fn lemma_list_of<T>(s: Seq<T>)
    ensures
        canonical(list_of(s)),
        leaves(list_of(s)) == s,
        len(list_of(s)) == s.len(),
    decreases s.len(),
{
    if s.len() > 0 {
        lemma_list_of(s.drop_first());
        assert(elem_leaves(Elem::Leaf(s[0])) == seq![s[0]]);
        assert(seq![s[0]] + s.drop_first() =~= s);
    }
}

/// A canonical list is determined by its leaves.
pub proof fn lemma_canonical_is_list_of_leaves<T>(l: List<T>)
    requires
        canonical(l),
    ensures
        list_of(leaves(l)) == l,
    decreases l,
{
    if let List::Cons(c) = l {
        lemma_canonical_is_list_of_leaves(c.tail);
        if let Elem::Leaf(v) = c.head {
            let s = leaves(l);
            assert(elem_leaves(c.head) == seq![v]);
            assert(s =~= seq![v] + leaves(c.tail));
            assert(s.drop_first() =~= leaves(c.tail));
            assert(s[0] == v);
        }
    }
}

/// Building from the concatenation of two leaf sequences is concatenating the built lists.
pub proof fn lemma_list_of_concat<T>(a: Seq<T>, b: Seq<T>)
    ensures
        list_of(a + b) == spec_append(list_of(a), list_of(b)),
    decreases a.len(),
{
    if a.len() == 0 {
        assert(a + b =~= b);
    } else {
        lemma_list_of_concat(a.drop_first(), b);
        assert((a + b).drop_first() =~= a.drop_first() + b);
    }
}

} // verus!
