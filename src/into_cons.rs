//! Conversion of nested tuple-like values into canonical lists.
use vstd::prelude::*;
use either::Either;
use std::convert::Infallible;
use crate::cons::{
    canonical, elem_leaves, leaves, lemma_list_of, lemma_list_of_concat, list_of, Append, Cons,
    Elem, List, Nil, Node,
};
use crate::fix::FixHead;

verus! {

/// The largest arity of a tuple that is taken apart, and of a flat tuple that is built.
pub const MAX_ARITY: usize = 12;

/// Declares `either::Either`, with its two variants `Left` and `Right`, to the verifier.
#[verifier::external_type_specification]
#[verifier::reject_recursive_types(L)]
#[verifier::reject_recursive_types(R)]
pub struct ExEither<L, R>(Either<L, R>);

/// A nested tuple-like value, shaped explicitly.
#[derive(Debug, PartialEq, Eq)]
pub enum Value<T> {
    /// A tuple: `()` when empty, `(a,)` with one item, which is unwrapped. Only tuples
    /// of at most `MAX_ARITY` items are taken apart.
    Tuple(Vec<Value<T>>),
    /// The populated branch of a sum type whose other branch has no values.
    Passthrough(Box<Value<T>>),
    /// An atomic value, never taken apart: wrapping a value here declares it a leaf,
    /// whatever shape its own type has (a struct with a tuple field stays whole).
    Leaf(T),
    /// A list standing as a value; it is normalized in place.
    List(List<T>),
}

/// Why a value cannot be flattened.
#[derive(Debug, Clone, Copy, PartialEq, Eq)]
pub enum FlattenError {
    /// Some tuple in the value has more than `MAX_ARITY` items.
    TupleTooWide,
    /// The flat result would have more than `MAX_ARITY` leaves.
    TooManyLeaves,
}

/// The leaves of a value, left to right, at any depth.
pub open spec fn value_leaves<T>(v: Value<T>) -> Seq<T>
    decreases v,
{
    match v {
        Value::Tuple(items) => items_leaves(items@),
        Value::Passthrough(b) => value_leaves(*b),
        Value::Leaf(x) => seq![x],
        Value::List(l) => leaves(l),
    }
}

/// The leaves of a sequence of values, left to right.
pub open spec fn items_leaves<T>(s: Seq<Value<T>>) -> Seq<T>
    decreases s,
{
    if s.len() == 0 {
        Seq::empty()
    } else {
        value_leaves(s[0]) + items_leaves(s.subrange(1, s.len() as int))
    }
}

/// Whether some tuple in the value has more than `MAX_ARITY` items.
pub open spec fn has_wide_tuple<T>(v: Value<T>) -> bool
    decreases v,
{
    match v {
        Value::Tuple(items) => items@.len() > MAX_ARITY || items_have_wide_tuple(items@),
        Value::Passthrough(b) => has_wide_tuple(*b),
        Value::Leaf(_) => false,
        Value::List(_) => false,
    }
}

/// Whether some value of the sequence holds a tuple with more than `MAX_ARITY` items.
pub open spec fn items_have_wide_tuple<T>(s: Seq<Value<T>>) -> bool
    decreases s,
{
    if s.len() == 0 {
        false
    } else {
        has_wide_tuple(s[0]) || items_have_wide_tuple(s.subrange(1, s.len() as int))
    }
}

/// What a value converts to: the canonical list of its leaves, unless a tuple in it is too wide.
pub open spec fn spec_into_cons<T>(v: Value<T>) -> Result<List<T>, FlattenError> {
    if has_wide_tuple(v) {
        Err(FlattenError::TupleTooWide)
    } else {
        Ok(list_of(value_leaves(v)))
    }
}

/// Conversion of a value into a canonical list.
pub trait IntoCons<T>: Sized {
    /// The value this one stands for.
    spec fn as_value(&self) -> Value<T>;

    /// The canonical list of the leaves of `self`, left to right; an error exactly when
    /// a tuple in `self` has more than `MAX_ARITY` items.
    fn into_cons(self) -> (r: Result<List<T>, FlattenError>)
        ensures
            r == spec_into_cons(self.as_value()),
            r is Ok ==> canonical(r->Ok_0) && leaves(r->Ok_0) == value_leaves(self.as_value()),
    ;
}

impl<T> IntoCons<T> for Value<T> {
    open spec fn as_value(&self) -> Value<T> {
        *self
    }

    fn into_cons(self) -> (r: Result<List<T>, FlattenError>)
        decreases self,
    {
        proof {
            lemma_list_of(value_leaves(self));
        }
        match self {
            Value::Tuple(items) => tuple_into_cons(items),
            Value::Passthrough(b) => (*b).into_cons(),
            Value::Leaf(x) => {
                let one = Cons { head: Elem::Leaf(x), tail: List::Nil(Nil) };
                proof {
                    assert(elem_leaves(Elem::<T>::Leaf(x)) == seq![x]);
                    assert(leaves(List::<T>::Nil(Nil)) == Seq::<T>::empty());
                    assert(leaves(one.as_list()) == seq![x] + Seq::<T>::empty());
                    assert(leaves(one.as_list()) =~= seq![x]);
                    assert(value_leaves(self) == seq![x]);
                }
                Ok(one.fix_head())
            },
            Value::List(l) => {
                let one = Cons { head: Elem::List(l), tail: List::Nil(Nil) };
                proof {
                    assert(elem_leaves(Elem::List(l)) == leaves(l));
                    assert(leaves(List::<T>::Nil(Nil)) == Seq::<T>::empty());
                    assert(leaves(one.as_list()) == leaves(l) + Seq::<T>::empty());
                    assert(leaves(one.as_list()) =~= leaves(l));
                }
                Ok(one.fix_head())
            },
        }
    }
}

/// The value in the right branch of a sum.
pub open spec fn right_of<L, R>(e: Either<L, R>) -> R {
    match e {
        Either::Right(v) => v,
        Either::Left(_) => arbitrary(),
    }
}

/// Relies on `either::Either::unwrap_right`: a `Right` gives its value. A `Left` would
/// panic, but no `Left` can hold an `Infallible`, so every call returns.
#[verifier::external_body]
fn unwrap_populated<V>(e: Either<Infallible, V>) -> (r: V)
    ensures
        r == right_of(e),
{
    e.unwrap_right()
}

/// A sum type whose left branch cannot be populated converts as its right branch.
impl<T> IntoCons<T> for Either<Infallible, Value<T>> {
    open spec fn as_value(&self) -> Value<T> {
        Value::Passthrough(Box::new(right_of(*self)))
    }

    fn into_cons(self) -> (r: Result<List<T>, FlattenError>) {
        Value::Passthrough(Box::new(unwrap_populated(self))).into_cons()
    }
}

/// A tuple taken apart as its first item followed by the tuple of the others.
fn tuple_into_cons<T>(tuple: Vec<Value<T>>) -> (r: Result<List<T>, FlattenError>)
    ensures
        r == spec_into_cons(Value::Tuple(tuple)),
    decreases tuple@,
{
    let ghost s = tuple@;
    proof {
        lemma_list_of(items_leaves(s));
        assert(value_leaves(Value::Tuple(tuple)) == items_leaves(s));
        assert(has_wide_tuple(Value::Tuple(tuple)) == (s.len() > MAX_ARITY || items_have_wide_tuple(s)));
    }
    let mut items = tuple;
    let n = items.len();
    if n > MAX_ARITY {
        Err(FlattenError::TupleTooWide)
    } else if n == 0 {
        Ok(List::Nil(Nil))
    } else {
        let first = items.remove(0);
        proof {
            assert(items@ == s.subrange(1, s.len() as int));
            assert(decreases_to!(s => first));
            assert(items_have_wide_tuple(s) == (has_wide_tuple(first) || items_have_wide_tuple(
                items@,
            )));
            assert(items_leaves(s) == value_leaves(first) + items_leaves(items@));
            assert(has_wide_tuple(Value::Tuple(items)) == items_have_wide_tuple(items@));
            assert(value_leaves(Value::Tuple(items)) == items_leaves(items@));
        }
        if n == 1 {
            assert(s.subrange(1, 1) =~= Seq::<Value<T>>::empty());
            assert(items_leaves(s) =~= value_leaves(first) + Seq::<T>::empty());
            assert(items_leaves(s) =~= value_leaves(first));
            assert(items_have_wide_tuple(s) == has_wide_tuple(first));
            first.into_cons()
        } else {
            match first.into_cons() {
                Err(e) => Err(e),
                Ok(head) => match tuple_into_cons(items) {
                    Err(e) => Err(e),
                    Ok(tail) => {
                        proof {
                            lemma_list_of(items_leaves(items@));
                            lemma_list_of_concat(value_leaves(s[0]), items_leaves(items@));
                        }
                        Ok(head.append(tail))
                    },
                },
            }
        }
    }
}

} // verus!
