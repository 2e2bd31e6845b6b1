//! The ways in which a boundary call fails.

use vstd::prelude::*;

verus! {

/// A value was not a boxed object of the native type that was asked for: it
/// was an immediate, or a reference to a heap slot of another kind.
#[derive(Clone, Copy, Debug, PartialEq, Eq, Structural)]
pub struct TypeMismatch;

/// An extension could not be set up.
#[derive(Clone, Copy, Debug, PartialEq, Eq, Structural)]
pub enum ArtichokeError {
    /// The interpreter is out with a guard and cannot be reached.
    Uninitialized,
    /// A constant of a class could not be defined, for want of a heap slot
    /// for its value.
    NotDefined,
}

/// The class of exception that the virtual machine is asked to raise.
#[derive(Clone, Copy, Debug, PartialEq, Eq, Structural)]
pub enum ExceptionClass {
    /// The caller made a mistake.
    ArgumentError,
    /// A resource was exhausted.
    NoMemoryError,
}

/// An exception raised into the virtual machine by an entry point that has an
/// exception channel.
#[derive(Clone, Copy, Debug, PartialEq, Eq, Structural)]
pub enum Exception {
    /// A string was needed and strict checking was asked for.
    NotAString,
    /// The text is no number and strict checking was asked for.
    InvalidNumber,
    /// The radix lies outside `2..=36`. Raised whatever the checking mode.
    IllegalRadix,
    /// Growing a buffer, or allocating a heap slot, failed.
    OutOfMemory,
}

impl Exception {
    /// The class under which the virtual machine raises this exception.
    pub open spec fn class_spec(self) -> ExceptionClass {
        match self {
            Exception::NotAString => ExceptionClass::ArgumentError,
            Exception::InvalidNumber => ExceptionClass::ArgumentError,
            Exception::IllegalRadix => ExceptionClass::ArgumentError,
            Exception::OutOfMemory => ExceptionClass::NoMemoryError,
        }
    }

    /// The class under which the virtual machine raises this exception.
    pub fn class(&self) -> (class: ExceptionClass)
        ensures
            class == self.class_spec(),
    {
        match self {
            Exception::NotAString => ExceptionClass::ArgumentError,
            Exception::InvalidNumber => ExceptionClass::ArgumentError,
            Exception::IllegalRadix => ExceptionClass::ArgumentError,
            Exception::OutOfMemory => ExceptionClass::NoMemoryError,
        }
    }

    /// The message that the exception carries.
    pub fn message(&self) -> (message: &'static str)
        ensures
            *self == Exception::NotAString ==> message@ == "not a string"@,
            *self == Exception::InvalidNumber ==> message@ == "invalid number"@,
            *self == Exception::IllegalRadix ==> message@ == "illegal radix"@,
            *self == Exception::OutOfMemory ==> message@ == "out of memory"@,
    {
        match self {
            Exception::NotAString => "not a string",
            Exception::InvalidNumber => "invalid number",
            Exception::IllegalRadix => "illegal radix",
            Exception::OutOfMemory => "out of memory",
        }
    }
}

} // verus!
