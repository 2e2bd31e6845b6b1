//! Encoding tags of byte strings and the UTF-8 facts the string engine needs.

use vstd::prelude::*;
use vstd::utf8::{
    is_leading_byte_width_1, partial_valid_partial_invalid_utf8, partial_valid_utf8,
    partial_valid_utf8_extend_ascii_block, valid_utf8, valid_utf8_concat,
};

verus! {

/// The encoding tag that a string carries beside its bytes.
#[derive(Clone, Copy, Debug, PartialEq, Eq, Structural)]
pub enum Encoding {
    /// The bytes are UTF-8 text. Validation and every change in place of a
    /// string give this tag to valid UTF-8 only; a string made under a tag
    /// that was asked for carries it unexamined.
    Utf8,
    /// The bytes are bytes.
    Binary,
}

impl Encoding {
    /// The tag that `bytes` carry after they were validated under the tag
    /// `self`: a `Utf8` tag is kept over bytes that are valid UTF-8, and
    /// becomes `Binary` otherwise.
    pub open spec fn normalized(self, bytes: Seq<u8>) -> Encoding {
        if self == Encoding::Utf8 && !valid_utf8(bytes) {
            Encoding::Binary
        } else {
            self
        }
    }

    /// True when the tag does not promise more than `bytes` hold.
    pub open spec fn admits(self, bytes: Seq<u8>) -> bool {
        self == Encoding::Utf8 ==> valid_utf8(bytes)
    }
}

/// Validates `bytes` with `core::str::from_utf8`, which succeeds exactly on
/// well-formed UTF-8. Trusted: the result is taken to agree with
/// `vstd::utf8::valid_utf8`.
#[verifier::external_body]
pub(crate) fn is_utf8(bytes: &[u8]) -> (ok: bool)
    ensures
        ok == valid_utf8(bytes@),
{
    core::str::from_utf8(bytes).is_ok()
}

/// Validates `bytes` under the tag `wanted`.
pub fn normalize(wanted: Encoding, bytes: &[u8]) -> (tag: Encoding)
    ensures
        tag == wanted.normalized(bytes@),
{
    match wanted {
        Encoding::Utf8 => if is_utf8(bytes) {
            Encoding::Utf8
        } else {
            Encoding::Binary
        },
        Encoding::Binary => Encoding::Binary,
    }
}

/// A sequence of bytes below `0x80` is valid UTF-8.
pub proof fn lemma_ascii_is_utf8(bytes: Seq<u8>)
    requires
        forall|i: int| 0 <= i < bytes.len() ==> bytes[i] < 0x80,
    ensures
        valid_utf8(bytes),
{
    assert(bytes.subrange(0, 0) =~= Seq::<u8>::empty());
    assert(partial_valid_utf8(bytes, 0));
    assert forall|i: int| 0 <= 0 <= i < bytes.len() <= bytes.len() implies #[trigger]
        is_leading_byte_width_1(bytes[i]) by {}
    partial_valid_utf8_extend_ascii_block(bytes, 0, bytes.len() as int);
    assert(bytes.subrange(0, bytes.len() as int) =~= bytes);
}

/// After valid UTF-8, the whole is valid exactly when what follows is.
pub proof fn lemma_utf8_append(head: Seq<u8>, tail: Seq<u8>)
    requires
        valid_utf8(head),
    ensures
        valid_utf8(head + tail) <==> valid_utf8(tail),
{
    let whole = head + tail;
    assert(whole.subrange(0, head.len() as int) =~= head);
    assert(whole.subrange(head.len() as int, whole.len() as int) =~= tail);
    if valid_utf8(tail) {
        valid_utf8_concat(head, tail);
    } else {
        partial_valid_partial_invalid_utf8(whole, head.len() as int);
    }
}

} // verus!
