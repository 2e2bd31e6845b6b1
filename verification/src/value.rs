//! Handles to the values that the virtual machine sees.

use vstd::prelude::*;

verus! {

/// The identity of a class in the virtual machine.
#[derive(Clone, Copy, Debug, PartialEq, Eq, Structural)]
pub struct ClassId(pub u32);

/// The number of the class that a freshly boxed string gets.
pub const STRING_CLASS: u32 = 1;

/// The number of the class that a freshly boxed array gets.
pub const ARRAY_CLASS: u32 = 2;

/// The number of the class that freshly boxed match data get.
pub const MATCH_DATA_CLASS: u32 = 3;

/// The number of the class that a freshly boxed random number generator
/// gets.
pub const RANDOM_CLASS: u32 = 4;

impl ClassId {
    /// The class that a freshly boxed array gets.
    pub open spec fn array_spec() -> ClassId {
        ClassId(ARRAY_CLASS)
    }

    /// The class that a freshly boxed array gets.
    #[verifier::when_used_as_spec(array_spec)]
    pub fn array() -> (class: ClassId)
        ensures
            class == ClassId::array_spec(),
    {
        ClassId(ARRAY_CLASS)
    }

    /// The class that freshly boxed match data get.
    pub open spec fn match_data_spec() -> ClassId {
        ClassId(MATCH_DATA_CLASS)
    }

    /// The class that freshly boxed match data get.
    #[verifier::when_used_as_spec(match_data_spec)]
    pub fn match_data() -> (class: ClassId)
        ensures
            class == ClassId::match_data_spec(),
    {
        ClassId(MATCH_DATA_CLASS)
    }

    /// The class that a freshly boxed random number generator gets.
    pub open spec fn random_spec() -> ClassId {
        ClassId(RANDOM_CLASS)
    }

    /// The class that a freshly boxed random number generator gets.
    #[verifier::when_used_as_spec(random_spec)]
    pub fn random() -> (class: ClassId)
        ensures
            class == ClassId::random_spec(),
    {
        ClassId(RANDOM_CLASS)
    }

    /// The class that a freshly boxed string gets.
    pub open spec fn string_spec() -> ClassId {
        ClassId(STRING_CLASS)
    }

    /// The class that a freshly boxed string gets.
    #[verifier::when_used_as_spec(string_spec)]
    pub fn string() -> (class: ClassId)
        ensures
            class == ClassId::string_spec(),
    {
        ClassId(STRING_CLASS)
    }
}

/// A handle to a value: an immediate, or a reference to a heap slot. A handle
/// owns no memory. The class and the kind of a heap object are read through
/// the reference, from the slot.
#[derive(Clone, Copy, Debug, PartialEq, Eq, Structural)]
pub enum Value {
    Nil,
    False,
    True,
    /// The marker for an argument that was not given.
    Undef,
    Integer(i64),
    Symbol(u32),
    /// A reference to the heap slot with this address.
    HeapRef(usize),
}

impl Value {
    /// The nil value.
    pub fn nil() -> (value: Value)
        ensures
            value == Value::Nil,
    {
        Value::Nil
    }

    /// Tells whether this is nil.
    pub fn is_nil(&self) -> (nil: bool)
        ensures
            nil == (*self == Value::Nil),
    {
        match self {
            Value::Nil => true,
            _ => false,
        }
    }

    /// Tells whether this is the marker for an argument that was not given.
    pub fn is_unreachable(&self) -> (unreachable: bool)
        ensures
            unreachable == (*self == Value::Undef),
    {
        match self {
            Value::Undef => true,
            _ => false,
        }
    }

    /// Tells whether this is an immediate value, which lives in no heap slot.
    pub fn is_immediate(&self) -> (immediate: bool)
        ensures
            immediate == !(*self is HeapRef),
    {
        match self {
            Value::HeapRef(_) => false,
            _ => true,
        }
    }
}

impl Default for Value {
    fn default() -> (value: Value)
        ensures
            value == Value::Nil,
    {
        Value::Nil
    }
}

} // verus!
