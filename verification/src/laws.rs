//! What holds between the conversions of this crate.

use vstd::prelude::*;
use crate::error::Error;
use crate::pushable::Pushable;
use crate::stack::SpecCall;
use crate::value::SpecValue;

verus! {

/// An absent value can always be pushed, and is pushed as the unit value is: by the same call,
/// which leaves nil.
pub proof fn lemma_none_pushes_as_unit<T: Pushable>()
    ensures
        None::<T>.pushable(),
        None::<T>.values() == ().values(),
        None::<T>.calls() == ().calls(),
        None::<T>.values() == seq![SpecValue::Nil],
{
}

/// A value that is present is pushed as it would be alone: where that can be pushed, by the
/// same calls, which leave the same values.
pub proof fn lemma_some_pushes_as_inner<T: Pushable>(value: T)
    ensures
        Some(value).pushable() == value.pushable(),
        Some(value).values() == value.values(),
        Some(value).calls() == value.calls(),
{
}

/// The value of a success is pushed as it would be alone: where that can be pushed, by the
/// same calls, which leave the same values.
pub proof fn lemma_ok_pushes_as_inner<T: Pushable>(value: T)
    ensures
        Ok::<T, Error>(value).pushable() == value.pushable(),
        Ok::<T, Error>(value).values() == value.values(),
        Ok::<T, Error>(value).calls() == value.calls(),
{
}

/// A failure can always be pushed, whatever a success would have held, and is pushed by one
/// call, which leaves one error value: the one that stands for the failure.
pub proof fn lemma_err_pushes_one_error<T: Pushable>(err: Error)
    ensures
        Err::<T, Error>(err).pushable(),
        Err::<T, Error>(err).values() == seq![SpecValue::Error(err@)],
        Err::<T, Error>(err).calls() == seq![SpecCall::PushError(err@)],
{
}

} // verus!
