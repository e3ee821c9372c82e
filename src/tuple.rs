//! Projection of canonical lists back into flat tuples, and the flattening facade.
use vstd::prelude::*;
use either::Either;
use std::convert::Infallible;
use crate::cons::{canonical, elem_leaves, leaves, len, Cons, Elem, List, Node};
use crate::into_cons::{
    has_wide_tuple, items_have_wide_tuple, items_leaves, value_leaves, FlattenError, IntoCons,
    Value, MAX_ARITY,
};

verus! {

/// Each leaf of `s` as a value, in order.
pub open spec fn leaf_values<T>(s: Seq<T>) -> Seq<Value<T>> {
    s.map_values(|x: T| Value::Leaf(x))
}

/// Whether `r` is the flat tuple of the leaves `s`: `()` for none, the bare leaf for one,
/// the tuple of the leaves in order for more.
pub open spec fn is_flat_tuple_of<T>(r: Value<T>, s: Seq<T>) -> bool {
    if s.len() == 1 {
        r == Value::Leaf(s[0])
    } else {
        r matches Value::Tuple(items) && items@ == leaf_values(s)
    }
}

/// A tuple of leaves holds exactly those leaves, and no tuple in it is too wide beyond
/// its own arity.
pub proof fn lemma_leaf_values<T>(s: Seq<T>)
    ensures
        items_leaves(leaf_values(s)) == s,
        !items_have_wide_tuple(leaf_values(s)),
    decreases s.len(),
{
    if s.len() > 0 {
        let vs = leaf_values(s);
        assert(vs.subrange(1, vs.len() as int) =~= leaf_values(s.drop_first()));
        lemma_leaf_values(s.drop_first());
        assert(value_leaves(Value::<T>::Leaf(s[0])) == seq![s[0]]);
        assert(!has_wide_tuple(Value::<T>::Leaf(s[0])));
        assert(s =~= seq![s[0]] + s.drop_first());
    }
}

/// A flat tuple of at most `MAX_ARITY` leaves, other than a one-element tuple, is the
/// flat tuple of its own leaves: flattening gives back a tuple with the same items.
pub proof fn lemma_flat_tuple_is_fixed_point<T>(items: Vec<Value<T>>, s: Seq<T>)
    requires
        items@ == leaf_values(s),
        s.len() <= MAX_ARITY,
        s.len() != 1,
    ensures
        !has_wide_tuple(Value::Tuple(items)),
        value_leaves(Value::Tuple(items)) == s,
        is_flat_tuple_of(Value::Tuple(items), value_leaves(Value::Tuple(items))),
{
    lemma_leaf_values(s);
}

/// Projection of a canonical list into a flat tuple.
pub trait IntoTuple<T>: Node<T> {
    /// The flat tuple of the leaves of `self`; an error exactly when there are more than
    /// `MAX_ARITY` of them.
    fn into_tuple(self) -> (r: Result<Value<T>, FlattenError>)
        requires
            canonical(self.as_list()),
        ensures
            leaves(self.as_list()).len() > MAX_ARITY ==> r == Err::<Value<T>, FlattenError>(
                FlattenError::TooManyLeaves,
            ),
            leaves(self.as_list()).len() <= MAX_ARITY ==> r is Ok && is_flat_tuple_of(
                r->Ok_0,
                leaves(self.as_list()),
            ),
    ;
}

impl<T> IntoTuple<T> for List<T> {
    fn into_tuple(self) -> (r: Result<Value<T>, FlattenError>) {
        let ghost all = leaves(self);
        let mut items: Vec<Value<T>> = Vec::new();
        let mut rest = self;
        loop
            invariant
                canonical(rest),
                items@.len() <= MAX_ARITY,
                all == leaves(self),
                items@ + leaf_values(leaves(rest)) == leaf_values(all),
            ensures
                items@ == leaf_values(all),
            decreases len(rest),
        {
            match rest {
                List::Nil(_) => {
                    assert(leaf_values(leaves(rest)) =~= Seq::<Value<T>>::empty());
                    assert(items@ =~= leaf_values(all));
                    break ;
                },
                List::Cons(c) => {
                    let Cons { head, tail } = *c;
                    proof {
                        assert(leaves(rest) == elem_leaves(head) + leaves(tail));
                        assert(leaf_values(leaves(rest)).len() == leaves(rest).len());
                        assert(leaf_values(all).len() == all.len());
                    }
                    if items.len() == MAX_ARITY {
                        assert(all.len() > MAX_ARITY);
                        return Err(FlattenError::TooManyLeaves);
                    }
                    if let Elem::Leaf(x) = head {
                        proof {
                            assert(elem_leaves(Elem::Leaf(x)) == seq![x]);
                            assert(leaf_values(leaves(rest)) =~= seq![Value::Leaf(x)] + leaf_values(
                                leaves(tail),
                            ));
                        }
                        items.push(Value::Leaf(x));
                        assert(items@ + leaf_values(leaves(tail)) =~= leaf_values(all));
                    }
                    rest = tail;
                },
            }
        }
        assert(all.len() == items@.len());
        if items.len() == 1 {
            Ok(items.remove(0))
        } else {
            Ok(Value::Tuple(items))
        }
    }
}

/// Flattening: conversion into a canonical list, then projection into a flat tuple.
pub trait Flatten<T>: IntoCons<T> {
    /// The flat tuple of the leaves of `self`, left to right. An error when a tuple in
    /// `self` is too wide, else when the leaves are more than `MAX_ARITY`.
    fn flatten(self) -> (r: Result<Value<T>, FlattenError>)
        ensures
            has_wide_tuple(self.as_value()) ==> r == Err::<Value<T>, FlattenError>(
                FlattenError::TupleTooWide,
            ),
            !has_wide_tuple(self.as_value()) && value_leaves(self.as_value()).len() > MAX_ARITY
                ==> r == Err::<Value<T>, FlattenError>(FlattenError::TooManyLeaves),
            !has_wide_tuple(self.as_value()) && value_leaves(self.as_value()).len() <= MAX_ARITY
                ==> r is Ok && is_flat_tuple_of(r->Ok_0, value_leaves(self.as_value())),
    ;
}

impl<T> Flatten<T> for Value<T> {
    fn flatten(self) -> (r: Result<Value<T>, FlattenError>) {
        match self.into_cons() {
            Ok(l) => l.into_tuple(),
            Err(e) => Err(e),
        }
    }
}

impl<T> Flatten<T> for Either<Infallible, Value<T>> {
    fn flatten(self) -> (r: Result<Value<T>, FlattenError>) {
        match self.into_cons() {
            Ok(l) => l.into_tuple(),
            Err(e) => Err(e),
        }
    }
}

} // verus!
