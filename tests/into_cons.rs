use either::Either;
use either::Either::{Left, Right};
use flatten::cons::{Cons, Elem, List, Nil};
use flatten::into_cons::{IntoCons, Value};
use std::convert::Infallible;

fn leaf<T>(x: T) -> Value<T> {
    Value::Leaf(x)
}

fn tuple<T>(items: Vec<Value<T>>) -> Value<T> {
    Value::Tuple(items)
}

fn flat(xs: &[u8]) -> List<u8> {
    let mut l = List::Nil(Nil);
    for x in xs.iter().rev() {
        l = List::Cons(Box::new(Cons {
            head: Elem::Leaf(*x),
            tail: l,
        }));
    }
    l
}

fn one<T>(x: T) -> List<T> {
    List::Cons(Box::new(Cons {
        head: Elem::Leaf(x),
        tail: List::Nil(Nil),
    }))
}

#[test]
fn simple_value() {
    assert_eq!(
        Ok(List::Cons(Box::new(Cons {
            head: Elem::Leaf(1usize),
            tail: List::Nil(Nil),
        }))),
        leaf(1usize).into_cons()
    );
}

#[test]
fn simple_tuple() {
    assert_eq!(
        tuple(vec![leaf(1usize)]).into_cons(),
        Ok(List::Cons(Box::new(Cons {
            head: Elem::Leaf(1usize),
            tail: List::Nil(Nil),
        })))
    );
}

#[test]
fn nested_tuple() {
    assert_eq!(
        tuple(vec![leaf(1), leaf(2)]).into_cons(),
        tuple(vec![tuple(vec![tuple(vec![leaf(1)])]), leaf(2)]).into_cons()
    );

    assert_eq!(
        tuple(vec![
            leaf(1),
            leaf(2),
            tuple(vec![leaf(3), leaf(4)]),
            tuple(vec![leaf(5), leaf(6), tuple(vec![leaf(7), leaf(8)])]),
        ])
        .into_cons(),
        tuple((1..=8).map(leaf).collect()).into_cons()
    );
}

#[test]
fn either_never() {
    let t: Either<Infallible, Value<usize>> = Right(leaf(13));

    assert_eq!(
        t.into_cons(),
        Ok(List::Cons(Box::new(Cons {
            head: Elem::Leaf(13usize),
            tail: List::Nil(Nil),
        })))
    );
}

#[test]
fn either_normal() {
    let left: Either<usize, usize> = Left(1);
    let right: Either<usize, usize> = Right(2);

    assert_eq!(
        leaf(left).into_cons(),
        Ok(List::Cons(Box::new(Cons {
            head: Elem::Leaf(Left(1)),
            tail: List::Nil(Nil),
        })))
    );
    assert_eq!(
        leaf(right).into_cons(),
        Ok(List::Cons(Box::new(Cons {
            head: Elem::Leaf(Right(2)),
            tail: List::Nil(Nil),
        })))
    );
}

#[test]
fn unit_converts_to_nil() {
    assert_eq!(tuple::<u8>(vec![]).into_cons(), Ok(List::Nil(Nil)));
}

#[test]
fn passthrough_inside_tuple() {
    let inner: Either<Infallible, Value<u8>> = Right(tuple(vec![leaf(2), leaf(3)]));
    assert_eq!(inner.into_cons(), Ok(flat(&[2, 3])));
    let v = tuple(vec![
        leaf(1u8),
        Value::Passthrough(Box::new(tuple(vec![leaf(2), leaf(3)]))),
    ]);
    assert_eq!(v.into_cons(), Ok(flat(&[1, 2, 3])));
}

#[test]
fn list_value_is_normalized() {
    // [1, [2, []], [[3]]] as a value becomes [1, 2, 3]
    let nested_two = List::Cons(Box::new(Cons {
        head: Elem::Leaf(2u8),
        tail: List::Cons(Box::new(Cons {
            head: Elem::List(List::Nil(Nil)),
            tail: List::Nil(Nil),
        })),
    }));
    let nested_three = List::Cons(Box::new(Cons {
        head: Elem::List(one(3u8)),
        tail: List::Nil(Nil),
    }));
    let l = List::Cons(Box::new(Cons {
        head: Elem::Leaf(1u8),
        tail: List::Cons(Box::new(Cons {
            head: Elem::List(nested_two),
            tail: List::Cons(Box::new(Cons {
                head: Elem::List(nested_three),
                tail: List::Nil(Nil),
            })),
        })),
    }));
    assert_eq!(Value::List(l).into_cons(), Ok(flat(&[1, 2, 3])));
}

#[test]
fn wide_tuple_is_rejected() {
    let v = tuple((0..13u8).map(leaf).collect());
    assert_eq!(v.into_cons(), Err(flatten::into_cons::FlattenError::TupleTooWide));
    let nested = tuple(vec![leaf(0u8), tuple((0..13u8).map(leaf).collect())]);
    assert_eq!(
        nested.into_cons(),
        Err(flatten::into_cons::FlattenError::TupleTooWide)
    );
}

#[test]
fn twelve_wide_tuple_converts() {
    let v = tuple((0..12u8).map(leaf).collect());
    let want: Vec<u8> = (0..12).collect();
    assert_eq!(v.into_cons(), Ok(flat(&want)));
}
