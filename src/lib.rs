//! Flattening of arbitrarily nested tuple-like values into one flat tuple.
//!
//! A nested [`Value`] is converted into a canonical [`cons::List`] (a list none of whose
//! elements is itself a list) by [`IntoCons`], and that list is projected back into a flat
//! tuple of at most [`into_cons::MAX_ARITY`] leaves by [`tuple::IntoTuple`]. [`Flatten`]
//! does both. Lists that hold nested lists are brought to their fixed point by
//! [`fix::Fix`].
pub mod cons;
pub mod fix;
pub mod into_cons;
pub mod tuple;

pub use into_cons::{FlattenError, IntoCons, Value};
pub use tuple::Flatten;
