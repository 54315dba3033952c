use vstd::prelude::*;
use embedded_io::ReadExactError;
use crate::frame::LdError;

verus! {

/// The error of `read_exact` on a byte source of `embedded_io` (and of
/// `embedded_io_async`, which re-exports it): the source ended early, or
/// failed with its own error. Both variants are public, so Verus reads them.
#[verifier::external_type_specification]
#[verifier::reject_recursive_types(E)]
pub struct ExReadExactError<E>(ReadExactError<E>);

/// The reading error that a failed `read_exact` stands for.
pub open spec fn read_error<E>(e: ReadExactError<E>) -> LdError<E> {
    match e {
        ReadExactError::UnexpectedEof => LdError::Eof,
        ReadExactError::Other(x) => LdError::Read(x),
    }
}

impl<E> From<ReadExactError<E>> for LdError<E> {
    fn from(value: ReadExactError<E>) -> (r: Self)
        ensures
            r == read_error(value),
    {
        match value {
            ReadExactError::UnexpectedEof => LdError::Eof,
            ReadExactError::Other(e) => LdError::Read(e),
        }
    }
}

impl<E> vstd::std_specs::convert::FromSpecImpl<ReadExactError<E>> for LdError<E> {
    open spec fn obeys_from_spec() -> bool {
        true
    }

    open spec fn from_spec(v: ReadExactError<E>) -> Self {
        read_error(v)
    }
}

} // verus!
