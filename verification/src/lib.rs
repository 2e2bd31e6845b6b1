//! A model of the layer that lets natively implemented core types live inside
//! a virtual machine's garbage-collected heap, together with the byte-string
//! engine that is boxed into that heap.

pub mod class;
pub mod compare;
pub mod convert;
pub mod encoding;
pub mod error;
pub mod ffi;
pub mod interp;
pub mod matchdata;
pub mod offset;
pub mod radix;
pub mod random;
pub mod search;
pub mod set;
pub mod string;
pub mod value;
