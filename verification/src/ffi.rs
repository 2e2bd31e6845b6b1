//! The entry points of the string type, as the virtual machine calls them.
//!
//! Each entry point takes the interpreter under a guard, does its work
//! through the boxing contract and the string engine, and hands the guard
//! back on every path. Entry points that can raise return a `Result`; those
//! that cannot return a sentinel where they fail.

use crate::compare::lex_compare;
use crate::convert::lemma_detach_attach;
use crate::encoding::{is_utf8, Encoding};
use crate::error::Exception;
use crate::interp::{Artichoke, Guard, InterpModel};
use crate::radix::{check_radix, is_legal_radix, render, render_digits};
use crate::search::index_of;
use crate::string::{NativeString, StringModel};
use crate::value::{ClassId, Value};
use core::hash::Hasher;
use std::collections::hash_map::DefaultHasher;
use vstd::prelude::*;
use vstd::slice::slice_to_vec;
use vstd::std_specs::hash::DefaultHasherAdditionalSpecFns;
use vstd::utf8::valid_utf8;

verus! {

/// True when `value` and `after` are what boxing `string` under `class`
/// gives from the interpreter `before`, for an entry point that raises where
/// the heap is full.
pub open spec fn boxes_or_raises(
    before: InterpModel,
    class: ClassId,
    string: StringModel,
    after: Option<InterpModel>,
    value: Result<Value, Exception>,
) -> bool {
    if before.has_room() {
        value == Ok::<Value, Exception>(before.next_value()) && after == Some(
            before.allocated(class, string),
        )
    } else {
        value == Err::<Value, Exception>(Exception::OutOfMemory) && after == Some(before)
    }
}

/// True when `value` and `after` are what boxing `string` under `class`
/// gives from the interpreter `before`, for an entry point that answers nil
/// where the heap is full.
pub open spec fn boxes_or_nil(
    before: InterpModel,
    class: ClassId,
    string: StringModel,
    after: Option<InterpModel>,
    value: Value,
) -> bool {
    if before.has_room() {
        value == before.next_value() && after == Some(before.allocated(class, string))
    } else {
        value == Value::Nil && after == Some(before)
    }
}

/// The bytes of a C string: those before the first NUL.
pub open spec fn until_nul(bytes: Seq<u8>) -> Seq<u8>
    decreases bytes.len(),
{
    if bytes.len() == 0 || bytes[0] == 0 {
        Seq::empty()
    } else {
        seq![bytes[0]] + until_nul(bytes.drop_first())
    }
}

/// The number that an index search answers with: the position, or `-1` for
/// nothing, and for a position that the number cannot hold.
pub open spec fn index_sentinel(found: Option<int>) -> int {
    match found {
        Some(at) => if at <= i64::MAX {
            at
        } else {
            -1
        },
        None => -1,
    }
}

/// The low 32 bits of a hash.
pub open spec fn low_half(hash: u64) -> u32 {
    (hash & 0xffff_ffff) as u32
}

/// The hash of `bytes` under `key`: that of the standard hasher after the
/// key and then the bytes were written to it.
pub open spec fn keyed_hash(key: Seq<u8>, bytes: Seq<u8>) -> u64 {
    DefaultHasher::spec_finish(seq![key, bytes])
}

/// The text of a pointer: `0x` and the address in lower-case hexadecimal
/// digits.
pub open spec fn pointer_text(address: int) -> Seq<u8> {
    seq![0x30u8, 0x78u8] + render(address, 16)
}

/// Boxes `string` and hands the guard back.
fn finish_boxed(mrb: &mut Artichoke, guard: Guard, string: NativeString) -> (value: Result<
    Value,
    Exception,
>)
    requires
        string.wf(),
        guard@.wf(),
    ensures
        final(mrb).wf(),
        boxes_or_raises(guard@, ClassId::string(), string@, final(mrb)@, value),
{
    let mut guard = guard;
    let value = NativeString::alloc_value(string, &mut guard);
    guard.release(mrb);
    value
}

/// Boxes `string`, answers nil where that fails, and hands the guard back.
fn finish_boxed_or_nil(mrb: &mut Artichoke, guard: Guard, string: NativeString) -> (value:
    Value)
    requires
        string.wf(),
        guard@.wf(),
    ensures
        final(mrb).wf(),
        boxes_or_nil(guard@, ClassId::string(), string@, final(mrb)@, value),
{
    match finish_boxed(mrb, guard, string) {
        Ok(value) => value,
        Err(_) => Value::Nil,
    }
}

/// A new empty string with room for `capa` bytes.
pub fn mrb_str_new_capa(mrb: &mut Artichoke, capa: usize) -> (value: Result<Value, Exception>)
    requires
        old(mrb).wf(),
        capa <= isize::MAX,
    ensures
        final(mrb).wf(),
        match old(mrb)@ {
            None => value == Ok::<Value, Exception>(Value::Nil) && final(mrb)@ is None,
            Some(interp) => boxes_or_raises(
                interp,
                ClassId::string(),
                StringModel::empty(capa as nat, Encoding::Utf8),
                final(mrb)@,
                value,
            ),
        },
{
    let guard = match Guard::acquire(mrb) {
        Some(guard) => guard,
        None => {
            return Ok(Value::Nil);
        },
    };
    finish_boxed(mrb, guard, NativeString::with_capacity(capa))
}

/// A new string over the `len` bytes at `p`, or over `len` zero bytes where
/// `p` is null.
pub fn mrb_str_new(mrb: &mut Artichoke, p: Option<&[u8]>, len: usize) -> (value: Result<
    Value,
    Exception,
>)
    requires
        old(mrb).wf(),
        p matches Some(bytes) ==> bytes@.len() == len,
    ensures
        final(mrb).wf(),
        match old(mrb)@ {
            None => value == Ok::<Value, Exception>(Value::Nil) && final(mrb)@ is None,
            Some(interp) => boxes_or_raises(
                interp,
                ClassId::string(),
                StringModel::utf8(
                    match p {
                        Some(bytes) => bytes@,
                        None => Seq::new(len as nat, |i: int| 0u8),
                    },
                ),
                final(mrb)@,
                value,
            ),
        },
{
    let guard = match Guard::acquire(mrb) {
        Some(guard) => guard,
        None => {
            return Ok(Value::Nil);
        },
    };
    let bytes = match p {
        Some(bytes) => slice_to_vec(bytes),
        None => {
            let zeros: Vec<u8> = vec![0u8; len];
            assert(zeros@ =~= Seq::new(len as nat, |i: int| 0u8));
            zeros
        },
    };
    finish_boxed(mrb, guard, NativeString::utf8(bytes))
}

/// A new string over the bytes of the C string at `p`: those before its
/// first NUL.
pub fn mrb_str_new_cstr(mrb: &mut Artichoke, p: &[u8]) -> (value: Result<Value, Exception>)
    requires
        old(mrb).wf(),
    ensures
        final(mrb).wf(),
        match old(mrb)@ {
            None => value == Ok::<Value, Exception>(Value::Nil) && final(mrb)@ is None,
            Some(interp) => boxes_or_raises(
                interp,
                ClassId::string(),
                StringModel::utf8(until_nul(p@)),
                final(mrb)@,
                value,
            ),
        },
{
    let guard = match Guard::acquire(mrb) {
        Some(guard) => guard,
        None => {
            return Ok(Value::Nil);
        },
    };
    let mut bytes: Vec<u8> = Vec::new();
    let mut at: usize = 0;
    proof {
        assert(p@.skip(0) =~= p@);
    }
    while at < p.len() && p[at] != 0
        invariant
            at <= p.len(),
            until_nul(p@) == bytes@ + until_nul(p@.skip(at as int)),
        decreases p.len() - at,
    {
        proof {
            assert(p@.skip(at as int).drop_first() =~= p@.skip(at + 1));
            assert(bytes@.push(p@[at as int]) + until_nul(p@.skip(at + 1)) =~= bytes@ + (
            seq![p@[at as int]] + until_nul(p@.skip(at + 1))));
        }
        bytes.push(p[at]);
        at += 1;
    }
    proof {
        assert(until_nul(p@.skip(at as int)) =~= Seq::<u8>::empty());
        assert(bytes@ + Seq::<u8>::empty() =~= bytes@);
    }
    finish_boxed(mrb, guard, NativeString::utf8(bytes))
}

/// A new string over bytes that will not change. There is no shortcut for
/// them: the bytes are copied as `mrb_str_new` copies them.
pub fn mrb_str_new_static(mrb: &mut Artichoke, p: Option<&[u8]>, len: usize) -> (value:
    Result<Value, Exception>)
    requires
        old(mrb).wf(),
        p matches Some(bytes) ==> bytes@.len() == len,
    ensures
        final(mrb).wf(),
        match old(mrb)@ {
            None => value == Ok::<Value, Exception>(Value::Nil) && final(mrb)@ is None,
            Some(interp) => boxes_or_raises(
                interp,
                ClassId::string(),
                StringModel::utf8(
                    match p {
                        Some(bytes) => bytes@,
                        None => Seq::new(len as nat, |i: int| 0u8),
                    },
                ),
                final(mrb)@,
                value,
            ),
        },
{
    mrb_str_new(mrb, p, len)
}

/// What `mrb_str_index` answers.
pub open spec fn str_index(
    interp: Option<InterpModel>,
    s: Value,
    needle: Seq<u8>,
    offset: int,
) -> int {
    match interp {
        None => -1,
        Some(interp) => match interp.string_at(s) {
            None => -1,
            Some(string) => index_sentinel(index_of(string.bytes, needle, offset)),
        },
    }
}

/// Index search in the string `s` for `needle`, from the signed byte offset
/// `offset` on. Answers the byte position of the first occurrence, and `-1`
/// where there is none, where the offset falls outside the string, or where
/// `s` is no string.
pub fn mrb_str_index(mrb: &mut Artichoke, s: Value, needle: &[u8], offset: i64) -> (at: i64)
    requires
        old(mrb).wf(),
    ensures
        final(mrb)@ == old(mrb)@,
        at == str_index(old(mrb)@, s, needle@, offset as int),
{
    let guard = match Guard::acquire(mrb) {
        Some(guard) => guard,
        None => {
            return -1;
        },
    };
    let at = match NativeString::unbox_from_value(&s, &guard) {
        Ok(string) => match string.index(needle, offset) {
            Some(at) => if at as u64 <= i64::MAX as u64 {
                at as i64
            } else {
                -1
            },
            None => -1,
        },
        Err(_) => -1,
    };
    guard.release(mrb);
    at
}

/// The string that an indexed access reads out of `string`: with a length,
/// the substring; without one, the one byte at the index.
pub open spec fn aref(string: StringModel, indx: Value, alen: Value) -> Option<StringModel> {
    match (indx, alen) {
        (Value::Integer(at), Value::Integer(len)) => string.substr(at as int, len as int),
        (Value::Integer(at), Value::Undef) => match string.substr(at as int, 1) {
            Some(sub) => if sub.bytes.len() == 1 {
                Some(sub)
            } else {
                None
            },
            None => None,
        },
        _ => None,
    }
}

/// Indexed access to the string `s`: the substring at the integer index
/// `indx` of the integer length `alen`, or the one byte at `indx` where no
/// length is given. Answers nil for anything else, and wherever the access
/// fails.
pub fn mrb_str_aref(mrb: &mut Artichoke, s: Value, indx: Value, alen: Value) -> (value: Value)
    requires
        old(mrb).wf(),
    ensures
        final(mrb).wf(),
        match old(mrb)@ {
            None => value == Value::Nil && final(mrb)@ is None,
            Some(interp) => match interp.string_at(s) {
                None => value == Value::Nil && final(mrb)@ == old(mrb)@,
                Some(string) => match aref(string, indx, alen) {
                    None => value == Value::Nil && final(mrb)@ == old(mrb)@,
                    Some(sub) => boxes_or_nil(interp, ClassId::string(), sub, final(mrb)@, value),
                },
            },
        },
{
    let guard = match Guard::acquire(mrb) {
        Some(guard) => guard,
        None => {
            return Value::Nil;
        },
    };
    let found = match NativeString::unbox_from_value(&s, &guard) {
        Ok(string) => match (indx, alen) {
            (Value::Integer(at), Value::Integer(len)) => string.substr(at, len),
            (Value::Integer(at), Value::Undef) => match string.substr(at, 1) {
                Some(sub) => if sub.len() == 1 {
                    Some(sub)
                } else {
                    None
                },
                None => None,
            },
            _ => None,
        },
        Err(_) => None,
    };
    match found {
        Some(sub) => finish_boxed_or_nil(mrb, guard, sub),
        None => {
            guard.release(mrb);
            Value::Nil
        },
    }
}

/// True when `after` and `value` are an outcome of resizing the string `s`
/// to `len` bytes in the interpreter `before`. A length of no more than the
/// present one truncates. A longer one makes the string that long in its
/// slot: within the room that is there this succeeds, beyond `isize::MAX`
/// bytes it fails, and otherwise the allocator says. Where it fails the
/// string is as it was. Anything that is no string, and a negative length,
/// are answered with `s` as it came.
pub open spec fn is_resized(
    before: Option<InterpModel>,
    s: Value,
    len: int,
    after: Option<InterpModel>,
    value: Result<Value, Exception>,
) -> bool {
    match before {
        None => after is None && value == Ok::<Value, Exception>(s),
        Some(interp) => match interp.string_at(s) {
            None => after == before && value == Ok::<Value, Exception>(s),
            Some(string) => if len < 0 {
                after == before && value == Ok::<Value, Exception>(s)
            } else if len <= string.bytes.len() {
                value == Ok::<Value, Exception>(s) && after == Some(
                    interp.attached(s->HeapRef_0 as int, string.truncated(len as nat)),
                )
            } else if len > isize::MAX {
                value == Err::<Value, Exception>(Exception::OutOfMemory) && after == before
            } else {
                ||| is_grown_in_slot(interp, s, string, len, after) && value == Ok::<
                    Value,
                    Exception,
                >(s)
                ||| len > string.capacity && after == before && value == Err::<Value, Exception>(
                    Exception::OutOfMemory,
                )
            },
        },
    }
}

/// True when `after` is the interpreter `interp` with the string `string` of
/// the slot of `s` grown to `len` bytes, and nothing else changed.
pub open spec fn is_grown_in_slot(
    interp: InterpModel,
    s: Value,
    string: StringModel,
    len: int,
    after: Option<InterpModel>,
) -> bool {
    &&& after is Some
    &&& after.unwrap().string_at(s) is Some
    &&& string.is_grown(len as nat, after.unwrap().string_at(s).unwrap())
    &&& after.unwrap() == interp.attached(
        s->HeapRef_0 as int,
        after.unwrap().string_at(s).unwrap(),
    )
}

/// Resizes the string `s` to `len` bytes in its slot. A shorter length
/// truncates and keeps the capacity; a longer one reserves what is missing,
/// makes the string that long, and raises where the room cannot be had.
/// Anything that is no string, and a negative length, are answered with `s`
/// as it came.
pub fn mrb_str_resize(mrb: &mut Artichoke, s: Value, len: i128) -> (value: Result<
    Value,
    Exception,
>)
    requires
        old(mrb).wf(),
    ensures
        final(mrb).wf(),
        is_resized(old(mrb)@, s, len as int, final(mrb)@, value),
{
    let mut guard = match Guard::acquire(mrb) {
        Some(guard) => guard,
        None => {
            return Ok(s);
        },
    };
    if len < 0 {
        guard.release(mrb);
        return Ok(s);
    }
    let ghost interp = guard@;
    let mut string = match NativeString::take_from_value(&s, &mut guard) {
        Ok(string) => string,
        Err(_) => {
            guard.release(mrb);
            return Ok(s);
        },
    };
    let result = if len <= string.len() as i128 {
        string.resize(len as usize)
    } else if len > isize::MAX as i128 {
        Err(Exception::OutOfMemory)
    } else {
        string.resize(len as usize)
    };
    let ghost address = s->HeapRef_0 as int;
    proof {
        lemma_detach_attach(interp, address);
        assert(interp.detached(address).attached(address, string@).heap =~= interp.attached(
            address,
            string@,
        ).heap);
    }
    let value = NativeString::box_into_value(string, s, &mut guard);
    guard.release(mrb);
    match result {
        Ok(_) => Ok(value),
        Err(error) => Err(error),
    }
}

/// The concatenation of the strings `a` and `b` as a new string, under the
/// encoding of `a`. Answers nil where either is no string, and where the
/// heap is full.
pub fn mrb_str_plus(mrb: &mut Artichoke, a: Value, b: Value) -> (value: Value)
    requires
        old(mrb).wf(),
        old(mrb)@ matches Some(interp) ==> (interp.string_at(a) matches Some(left) ==> (
        interp.string_at(b) matches Some(right) ==> left.bytes.len() + right.bytes.len()
            <= isize::MAX)),
    ensures
        final(mrb).wf(),
        match old(mrb)@ {
            None => value == Value::Nil && final(mrb)@ is None,
            Some(interp) => match (interp.string_at(a), interp.string_at(b)) {
                (Some(left), Some(right)) => boxes_or_nil(
                    interp,
                    ClassId::string(),
                    left.concat(right),
                    final(mrb)@,
                    value,
                ),
                _ => value == Value::Nil && final(mrb)@ == old(mrb)@,
            },
        },
{
    let guard = match Guard::acquire(mrb) {
        Some(guard) => guard,
        None => {
            return Value::Nil;
        },
    };
    let sum = match NativeString::unbox_from_value(&a, &guard) {
        Ok(left) => match NativeString::unbox_from_value(&b, &guard) {
            Ok(right) => Some(left.concat(right)),
            Err(_) => None,
        },
        Err(_) => None,
    };
    match sum {
        Some(sum) => finish_boxed_or_nil(mrb, guard, sum),
        None => {
            guard.release(mrb);
            Value::Nil
        },
    }
}

/// What `mrb_str_cmp` answers.
pub open spec fn str_order(interp: Option<InterpModel>, str1: Value, str2: Value) -> int {
    match interp {
        None => -1,
        Some(interp) => match (interp.string_at(str1), interp.string_at(str2)) {
            (Some(left), Some(right)) => lex_compare(left.bytes, right.bytes),
            _ => -1,
        },
    }
}

/// Orders two strings by their bytes: `-1`, `0` or `1`. Answers `-1` where
/// either is no string.
pub fn mrb_str_cmp(mrb: &mut Artichoke, str1: Value, str2: Value) -> (order: i32)
    requires
        old(mrb).wf(),
    ensures
        final(mrb)@ == old(mrb)@,
        order == str_order(old(mrb)@, str1, str2),
{
    let guard = match Guard::acquire(mrb) {
        Some(guard) => guard,
        None => {
            return -1;
        },
    };
    let order = match NativeString::unbox_from_value(&str1, &guard) {
        Ok(left) => match NativeString::unbox_from_value(&str2, &guard) {
            Ok(right) => left.compare(right),
            Err(_) => -1,
        },
        Err(_) => -1,
    };
    guard.release(mrb);
    order
}

/// What `mrb_str_equal` answers.
pub open spec fn str_equal(interp: Option<InterpModel>, str1: Value, str2: Value) -> bool {
    match interp {
        None => false,
        Some(interp) => match (interp.string_at(str1), interp.string_at(str2)) {
            (Some(left), Some(right)) => left.bytes == right.bytes,
            _ => false,
        },
    }
}

/// Tells whether two strings hold the same bytes. Answers false where either
/// is no string.
pub fn mrb_str_equal(mrb: &mut Artichoke, str1: Value, str2: Value) -> (same: bool)
    requires
        old(mrb).wf(),
    ensures
        final(mrb)@ == old(mrb)@,
        same == str_equal(old(mrb)@, str1, str2),
{
    let guard = match Guard::acquire(mrb) {
        Some(guard) => guard,
        None => {
            return false;
        },
    };
    let same = match NativeString::unbox_from_value(&str1, &guard) {
        Ok(left) => match NativeString::unbox_from_value(&str2, &guard) {
            Ok(right) => left.equals(right),
            Err(_) => false,
        },
        Err(_) => false,
    };
    guard.release(mrb);
    same
}

/// A copy of the string `s` in a new slot, under the class that `s` has,
/// which may be a subclass of the class of strings. Answers nil where `s` is
/// no string, and where the heap is full.
pub fn mrb_str_dup(mrb: &mut Artichoke, s: Value) -> (value: Value)
    requires
        old(mrb).wf(),
    ensures
        final(mrb).wf(),
        match old(mrb)@ {
            None => value == Value::Nil && final(mrb)@ is None,
            Some(interp) => match interp.string_at(s) {
                None => value == Value::Nil && final(mrb)@ == old(mrb)@,
                Some(string) => boxes_or_nil(
                    interp,
                    interp.class_at(s).unwrap(),
                    StringModel::of_bytes(string.bytes, string.encoding),
                    final(mrb)@,
                    value,
                ),
            },
        },
{
    let mut guard = match Guard::acquire(mrb) {
        Some(guard) => guard,
        None => {
            return Value::Nil;
        },
    };
    let class = guard.class_of(&s);
    let copy = match NativeString::unbox_from_value(&s, &guard) {
        Ok(string) => Some(string.dup()),
        Err(_) => None,
    };
    let value = match (copy, class) {
        (Some(copy), Some(class)) => {
            let ghost interp = guard@;
            let ghost model = copy@;
            match NativeString::alloc_value(copy, &mut guard) {
                Ok(value) => {
                    let _ = guard.set_class(&value, class);
                    assert(guard@.heap =~= interp.allocated(class, model).heap);
                    value
                },
                Err(_) => Value::Nil,
            }
        },
        _ => Value::Nil,
    };
    guard.release(mrb);
    value
}

/// A duplicate is an object of the class of its source, holds the bytes of
/// its source under its encoding, and leaves the source as it was.
pub proof fn lemma_dup_keeps_class(
    interp: InterpModel,
    s: Value,
    after: Option<InterpModel>,
    value: Value,
)
    requires
        interp.wf(),
        interp.string_at(s) is Some,
        boxes_or_nil(
            interp,
            interp.class_at(s).unwrap(),
            StringModel::of_bytes(interp.string_at(s).unwrap().bytes, interp.string_at(s).unwrap().encoding),
            after,
            value,
        ),
        value != Value::Nil,
    ensures
        after is Some,
        after.unwrap().class_at(value) == interp.class_at(s),
        after.unwrap().string_at(value) is Some,
        after.unwrap().string_at(value).unwrap().bytes == interp.string_at(s).unwrap().bytes,
        after.unwrap().string_at(value).unwrap().encoding == interp.string_at(
            s,
        ).unwrap().encoding,
        after.unwrap().string_at(s) == interp.string_at(s),
        after.unwrap().class_at(s) == interp.class_at(s),
{
}

/// The substring of the string `s` of at most `len` bytes from the signed
/// byte offset `beg`, as a new string. Answers nil for a negative length,
/// for an offset outside the string, where `s` is no string, and where the
/// heap is full.
pub fn mrb_str_substr(mrb: &mut Artichoke, s: Value, beg: i64, len: i64) -> (value: Value)
    requires
        old(mrb).wf(),
    ensures
        final(mrb).wf(),
        len < 0 ==> value == Value::Nil && final(mrb)@ == old(mrb)@,
        len >= 0 ==> match old(mrb)@ {
            None => value == Value::Nil && final(mrb)@ is None,
            Some(interp) => match interp.string_at(s) {
                None => value == Value::Nil && final(mrb)@ == old(mrb)@,
                Some(string) => match string.substr(beg as int, len as int) {
                    None => value == Value::Nil && final(mrb)@ == old(mrb)@,
                    Some(sub) => boxes_or_nil(interp, ClassId::string(), sub, final(mrb)@, value),
                },
            },
        },
{
    if len < 0 {
        return Value::Nil;
    }
    let guard = match Guard::acquire(mrb) {
        Some(guard) => guard,
        None => {
            return Value::Nil;
        },
    };
    let found = match NativeString::unbox_from_value(&s, &guard) {
        Ok(string) => string.substr(beg, len),
        Err(_) => None,
    };
    match found {
        Some(sub) => finish_boxed_or_nil(mrb, guard, sub),
        None => {
            guard.release(mrb);
            Value::Nil
        },
    }
}

/// The text of the address `p` as a new string. Answers nil where the heap
/// is full.
pub fn mrb_ptr_to_str(mrb: &mut Artichoke, p: usize) -> (value: Value)
    requires
        old(mrb).wf(),
    ensures
        final(mrb).wf(),
        match old(mrb)@ {
            None => value == Value::Nil && final(mrb)@ is None,
            Some(interp) => boxes_or_nil(
                interp,
                ClassId::string(),
                StringModel::empty(18, Encoding::Utf8).extended(pointer_text(p as int)),
                final(mrb)@,
                value,
            ),
        },
{
    let guard = match Guard::acquire(mrb) {
        Some(guard) => guard,
        None => {
            return Value::Nil;
        },
    };
    let mut text = NativeString::with_capacity(16 + 2);
    let digits = render_digits(p as u64, 16);
    let mut bytes: Vec<u8> = Vec::new();
    bytes.push(0x30);
    bytes.push(0x78);
    let mut at: usize = 0;
    while at < digits.len()
        invariant
            at <= digits.len(),
            bytes@ == seq![0x30u8, 0x78u8] + digits@.take(at as int),
        decreases digits.len() - at,
    {
        bytes.push(digits[at]);
        proof {
            assert(digits@.take(at + 1) =~= digits@.take(at as int).push(digits@[at as int]));
            assert(bytes@ =~= seq![0x30u8, 0x78u8] + digits@.take(at + 1));
        }
        at += 1;
    }
    proof {
        assert(digits@.take(digits.len() as int) =~= digits@);
    }
    text.extend_from_slice(bytes.as_slice());
    finish_boxed_or_nil(mrb, guard, text)
}

/// True when `after` and `pointer` are what asking for the C string of `s`
/// gives from the interpreter `before`: the string ends with a NUL, of which
/// exactly one was appended where there was none, and the pointer leads to
/// its buffer. The pointer is null where `s` is no string.
pub open spec fn is_c_string(
    before: Option<InterpModel>,
    s: Value,
    after: Option<InterpModel>,
    pointer: Option<usize>,
) -> bool {
    match before {
        None => after is None && pointer is None,
        Some(interp) => match interp.string_at(s) {
            None => after == before && pointer is None,
            Some(string) => {
                &&& pointer == Some(s->HeapRef_0)
                &&& after == Some(interp.attached(s->HeapRef_0 as int, string.nul_terminated()))
            },
        },
    }
}

/// The C string of the string that `ptr` leads to. See `mrb_string_cstr`.
pub fn mrb_string_value_cstr(mrb: &mut Artichoke, ptr: &Value) -> (pointer: Option<usize>)
    requires
        old(mrb).wf(),
    ensures
        final(mrb).wf(),
        is_c_string(old(mrb)@, *ptr, final(mrb)@, pointer),
{
    mrb_string_cstr(mrb, *ptr)
}

/// The C string of the string `s`: a pointer to its buffer, which ends with
/// a NUL. A buffer that ends with one already is left alone; to another,
/// exactly one NUL is appended, in the slot that `s` refers to. Answers the
/// null pointer where `s` is no string.
pub fn mrb_string_cstr(mrb: &mut Artichoke, s: Value) -> (pointer: Option<usize>)
    requires
        old(mrb).wf(),
    ensures
        final(mrb).wf(),
        is_c_string(old(mrb)@, s, final(mrb)@, pointer),
{
    let mut guard = match Guard::acquire(mrb) {
        Some(guard) => guard,
        None => {
            return None;
        },
    };
    let ghost interp = guard@;
    let ghost address = s->HeapRef_0 as int;
    let terminated = match NativeString::unbox_from_value(&s, &guard) {
        Ok(string) => match string.last() {
            Some(0) => true,
            _ => false,
        },
        Err(_) => {
            guard.release(mrb);
            return None;
        },
    };
    let pointer = match s {
        Value::HeapRef(address) => Some(address),
        _ => None,
    };
    if terminated {
        proof {
            lemma_detach_attach(interp, address);
            assert(interp.attached(address, interp.string_at(s).unwrap()).heap =~= interp.heap);
        }
        guard.release(mrb);
        return pointer;
    }
    let mut string = match NativeString::take_from_value(&s, &mut guard) {
        Ok(string) => string,
        Err(_) => {
            guard.release(mrb);
            return None;
        },
    };
    string.push_byte(0);
    proof {
        assert(interp.detached(address).attached(address, string@).heap =~= interp.attached(
            address,
            string@,
        ).heap);
    }
    let _ = NativeString::box_into_value(string, s, &mut guard);
    guard.release(mrb);
    pointer
}

/// What `mrb_str_to_integer` answers.
pub open spec fn str_to_integer(
    interp: Option<InterpModel>,
    s: Value,
    base: int,
    badcheck: bool,
) -> Result<Value, Exception> {
    match interp {
        None => Ok(Value::Nil),
        Some(interp) => if !is_legal_radix(base) {
            Err(Exception::IllegalRadix)
        } else {
            match interp.string_at(s) {
                None => if badcheck {
                    Err(Exception::NotAString)
                } else {
                    Ok(Value::Integer(0))
                },
                Some(string) => match string.to_integer(base, badcheck) {
                    Ok(number) => Ok(Value::Integer(number)),
                    Err(error) => Err(error),
                },
            }
        },
    }
}

/// Reads the string `s` as an integer written in the radix `base`. A radix
/// outside `2..=36` raises whatever `badcheck` says. With `badcheck`, a
/// value that is no string and text that is no number raise; without it they
/// are read as zero.
pub fn mrb_str_to_integer(mrb: &mut Artichoke, s: Value, base: i64, badcheck: bool) -> (value:
    Result<Value, Exception>)
    requires
        old(mrb).wf(),
    ensures
        final(mrb)@ == old(mrb)@,
        value == str_to_integer(old(mrb)@, s, base as int, badcheck),
{
    let guard = match Guard::acquire(mrb) {
        Some(guard) => guard,
        None => {
            return Ok(Value::Nil);
        },
    };
    let value = match check_radix(base) {
        Err(error) => Err(error),
        Ok(_) => match NativeString::unbox_from_value(&s, &guard) {
            Ok(string) => match string.to_integer(base, badcheck) {
                Ok(number) => Ok(Value::Integer(number)),
                Err(error) => Err(error),
            },
            Err(_) => if badcheck {
                Err(Exception::NotAString)
            } else {
                Ok(Value::Integer(0))
            },
        },
    };
    guard.release(mrb);
    value
}

/// Where the text of a number comes from, for a reader of floating-point
/// literals.
pub enum NumberText {
    /// There is no text to read: the number is zero.
    Zero,
    /// The number is what this UTF-8 text writes.
    Text(Vec<u8>),
}

/// What `mrb_str_to_dbl_text` answers.
pub open spec fn str_to_dbl_text(interp: Option<InterpModel>, s: Value, badcheck: bool) -> Result<
    Option<Seq<u8>>,
    Exception,
> {
    match interp {
        None => Ok(None),
        Some(interp) => match interp.string_at(s) {
            None => if badcheck {
                Err(Exception::NotAString)
            } else {
                Ok(None)
            },
            Some(string) => if valid_utf8(string.bytes) {
                Ok(Some(string.bytes))
            } else if badcheck {
                Err(Exception::InvalidNumber)
            } else {
                Ok(None)
            },
        },
    }
}

/// The text that the string `s` offers to a reader of floating-point
/// literals: its bytes where they are UTF-8. With `badcheck`, a value that
/// is no string and bytes that are no text raise; without it they stand for
/// zero.
pub fn mrb_str_to_dbl_text(mrb: &mut Artichoke, s: Value, badcheck: bool) -> (text: Result<
    NumberText,
    Exception,
>)
    requires
        old(mrb).wf(),
    ensures
        final(mrb)@ == old(mrb)@,
        match text {
            Ok(NumberText::Zero) => str_to_dbl_text(old(mrb)@, s, badcheck) == Ok::<
                Option<Seq<u8>>,
                Exception,
            >(None),
            Ok(NumberText::Text(bytes)) => str_to_dbl_text(old(mrb)@, s, badcheck) == Ok::<
                Option<Seq<u8>>,
                Exception,
            >(Some(bytes@)),
            Err(error) => str_to_dbl_text(old(mrb)@, s, badcheck) == Err::<
                Option<Seq<u8>>,
                Exception,
            >(error),
        },
{
    let guard = match Guard::acquire(mrb) {
        Some(guard) => guard,
        None => {
            return Ok(NumberText::Zero);
        },
    };
    let text = match NativeString::unbox_from_value(&s, &guard) {
        Ok(string) => if is_utf8(string.as_slice()) {
            Ok(NumberText::Text(slice_to_vec(string.as_slice())))
        } else {
            unreadable_number(badcheck)
        },
        Err(_) => if badcheck {
            Err(Exception::NotAString)
        } else {
            Ok(NumberText::Zero)
        },
    };
    guard.release(mrb);
    text
}

/// What becomes of text that is no number: an exception with `badcheck`,
/// zero without it.
pub fn unreadable_number(badcheck: bool) -> (text: Result<NumberText, Exception>)
    ensures
        badcheck ==> text == Err::<NumberText, Exception>(Exception::InvalidNumber),
        !badcheck ==> text == Ok::<NumberText, Exception>(NumberText::Zero),
{
    if badcheck {
        Err(Exception::InvalidNumber)
    } else {
        Ok(NumberText::Zero)
    }
}

/// Appends `bytes` to the string `s` in its slot and answers `s`. A value
/// that is no string is answered as it came.
pub fn mrb_str_cat(mrb: &mut Artichoke, s: Value, bytes: &[u8]) -> (value: Value)
    requires
        old(mrb).wf(),
    ensures
        final(mrb).wf(),
        value == s,
        match old(mrb)@ {
            None => final(mrb)@ is None,
            Some(interp) => match interp.string_at(s) {
                None => final(mrb)@ == old(mrb)@,
                Some(string) => final(mrb)@ == Some(
                    interp.attached(s->HeapRef_0 as int, string.extended(bytes@)),
                ),
            },
        },
{
    let mut guard = match Guard::acquire(mrb) {
        Some(guard) => guard,
        None => {
            return s;
        },
    };
    let ghost interp = guard@;
    let ghost address = s->HeapRef_0 as int;
    match NativeString::take_from_value(&s, &mut guard) {
        Ok(string) => {
            let mut string = string;
            string.extend_from_slice(bytes);
            proof {
                assert(interp.detached(address).attached(address, string@).heap
                    =~= interp.attached(address, string@).heap);
            }
            let value = NativeString::box_into_value(string, s, &mut guard);
            guard.release(mrb);
            value
        },
        Err(_) => {
            guard.release(mrb);
            s
        },
    }
}

/// What `mrb_str_hash` answers.
pub open spec fn str_hash(interp: Option<InterpModel>, s: Value) -> u32 {
    match interp {
        None => 0,
        Some(interp) => match interp.string_at(s) {
            None => 0,
            Some(string) => low_half(keyed_hash(interp.hash_key, string.bytes)),
        },
    }
}

/// The 32-bit hash of the bytes of the string `s` under the key of this
/// interpreter. Answers zero where `s` is no string.
pub fn mrb_str_hash(mrb: &mut Artichoke, s: Value) -> (hash: u32)
    requires
        old(mrb).wf(),
    ensures
        final(mrb)@ == old(mrb)@,
        hash == str_hash(old(mrb)@, s),
{
    let guard = match Guard::acquire(mrb) {
        Some(guard) => guard,
        None => {
            return 0;
        },
    };
    let mut hasher = DefaultHasher::new();
    hasher.write(guard.hash_key());
    let hash = match NativeString::unbox_from_value(&s, &guard) {
        Ok(string) => {
            hasher.write(string.as_slice());
            assert(hasher@ =~= seq![guard@.hash_key, string@.bytes]);
            let wide = hasher.finish();
            assert(wide & 0xffff_ffff <= 0xffff_ffff) by (bit_vector);
            (wide & 0xffff_ffff) as u32
        },
        Err(_) => 0,
    };
    guard.release(mrb);
    hash
}

/// The finalizer of strings, which the collector calls for a slot that
/// nothing refers to any more: the buffer is given up and freed, and the
/// slot is reclaimed. It allocates nothing. A slot that holds no string is
/// left alone.
pub fn mrb_gc_free_str(mrb: &mut Artichoke, string: usize) -> (parts_dropped: bool)
    requires
        old(mrb).wf(),
    ensures
        final(mrb).wf(),
        match old(mrb)@ {
            None => !parts_dropped && final(mrb)@ is None,
            Some(interp) => match interp.string_at(Value::HeapRef(string)) {
                None => !parts_dropped && final(mrb)@ == old(mrb)@,
                Some(_) => parts_dropped && final(mrb)@ == Some(interp.freed(string as int)),
            },
        },
{
    let mut guard = match Guard::acquire(mrb) {
        Some(guard) => guard,
        None => {
            return false;
        },
    };
    let value = Value::HeapRef(string);
    let ghost interp = guard@;
    let dropped = match NativeString::take_from_value(&value, &mut guard) {
        Ok(native) => {
            let _raw_parts = native.into_raw_parts();
            guard.reclaim(string);
            assert(guard@.heap =~= interp.freed(string as int).heap);
            true
        },
        Err(_) => false,
    };
    guard.release(mrb);
    dropped
}

} // verus!
