//! The error type of driver operations.

use vstd::prelude::*;

verus! {

/// Why an operation did not complete: the bus reported an error, or an
/// argument was out of the range the device accepts.
#[derive(Debug)]
pub enum IcmError<E> {
    BusError(E),
    InvalidInput,
}

impl<E> From<E> for IcmError<E> {
    fn from(error: E) -> (converted: Self) {
        IcmError::BusError(error)
    }
}

impl<E> vstd::std_specs::convert::FromSpecImpl<E> for IcmError<E> {
    open spec fn obeys_from_spec() -> bool {
        true
    }

    open spec fn from_spec(v: E) -> Self {
        IcmError::BusError(v)
    }
}

} // verus!
