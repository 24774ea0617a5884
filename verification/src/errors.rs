use vstd::prelude::*;
use vstd::string::StringExecFns;
use crate::parsing::utils::box_type::BoxType;
use crate::parsing::utils::text::{decimal_chars, decimal_digits, decimal_u8, string_from_chars};

verus! {

/// The error type of the library.
#[derive(Debug)]
pub enum Error {
    /// Malformed or truncated input.
    IOError(String),
    /// A value that the library does not support, or an inconsistent state.
    InternalError(String),
}

impl Error {
    /// True when the error is an `IOError`.
    pub open spec fn is_io(self) -> bool {
        self is IOError
    }

    /// True when the error is an `InternalError`.
    pub open spec fn is_internal(self) -> bool {
        self is InternalError
    }

    /// The message carried by the error.
    pub open spec fn message(self) -> Seq<char> {
        match self {
            Error::IOError(m) => m@,
            Error::InternalError(m) => m@,
        }
    }
}

/// An `IOError` carrying the given text.
pub fn io_error(msg: &str) -> (e: Error)
    ensures
        e.is_io(),
        e.message() == msg@,
{
    Error::IOError(String::from_str(msg))
}

/// An `InternalError` carrying the given text.
pub fn internal_error(msg: &str) -> (e: Error)
    ensures
        e.is_internal(),
        e.message() == msg@,
{
    Error::InternalError(String::from_str(msg))
}

/// An `IOError` whose text is `prefix` followed by the four characters of a box type.
pub fn io_error_with_type(prefix: &str, typ: BoxType) -> (e: Error)
    ensures
        e.is_io(),
        e.message() == prefix@ + typ.spec_chars(),
{
    let chars = typ.chars();
    let name = string_from_chars(&chars);
    Error::IOError(String::from_str(prefix).concat(name.as_str()))
}

/// An `IOError` whose text is `prefix` followed by a number in decimal.
pub fn io_error_with_number(prefix: &str, n: u8) -> (e: Error)
    ensures
        e.is_io(),
        e.message() == prefix@ + decimal_chars(n as nat),
{
    let digits = decimal_u8(n);
    Error::IOError(String::from_str(prefix).concat(digits.as_str()))
}

/// An `InternalError` whose text is a number in decimal.
pub fn internal_error_number(n: usize) -> (e: Error)
    ensures
        e.is_internal(),
        e.message() == decimal_chars(n as nat),
{
    let digits = decimal_digits(n);
    Error::InternalError(string_from_chars(digits.as_slice()))
}

} // verus!
