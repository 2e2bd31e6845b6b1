//! The boxing contract: how a native string moves into a heap slot of the
//! virtual machine, is looked at there, and is taken out and put back for a
//! change.
//!
//! A change goes in three steps, all under one guard: take the string out of
//! its slot, change it, put it back. While the string is out the heap is not
//! at rest, and nothing that allocates can be called: `alloc_value` asks for
//! a heap at rest.

use crate::error::{Exception, TypeMismatch};
use crate::interp::{Guard, InterpModel, Payload, Slot};
use crate::string::{NativeString, StringModel};
use crate::value::{ClassId, Value};
use vstd::prelude::*;

verus! {

impl NativeString {
    /// Boxes `native` into a new heap slot under the class of strings. Fails
    /// only where the host allocator grants no further slot; the heap is then
    /// as it was.
    pub fn alloc_value(native: NativeString, guard: &mut Guard) -> (value: Result<
        Value,
        Exception,
    >)
        requires
            native.wf(),
            old(guard)@.wf(),
        ensures
            final(guard)@.wf(),
            old(guard)@.has_room() ==> value == Ok::<Value, Exception>(old(guard)@.next_value())
                && final(guard)@ == old(guard)@.allocated(ClassId::string(), native@),
            !old(guard)@.has_room() ==> value == Err::<Value, Exception>(Exception::OutOfMemory)
                && final(guard)@ == old(guard)@,
    {
        let address = guard.heap_len();
        if address >= guard.limit() {
            return Err(Exception::OutOfMemory);
        }
        guard.push_slot(Slot { class: ClassId::string(), payload: Payload::Str(native) });
        Ok(Value::HeapRef(address))
    }

    /// Looks at the string that `value` is a box of. The string stays where
    /// it is, owned by its slot.
    pub fn unbox_from_value<'a>(value: &Value, guard: &'a Guard) -> (native: Result<
        &'a NativeString,
        TypeMismatch,
    >)
        ensures
            match native {
                Ok(string) => guard@.string_at(*value) == Some(string@),
                Err(_) => guard@.string_at(*value) is None,
            },
            guard@.slots_ok() && native is Ok ==> native->Ok_0.wf(),
    {
        match value {
            Value::HeapRef(address) => {
                if *address < guard.heap_len() {
                    match &guard.slot(*address).payload {
                        Payload::Str(string) => Ok(string),
                        _ => Err(TypeMismatch),
                    }
                } else {
                    Err(TypeMismatch)
                }
            },
            _ => Err(TypeMismatch),
        }
    }

    /// Takes the string that `value` is a box of out of its slot, for a
    /// change. The slot keeps its address and its class, and waits for
    /// `box_into_value`.
    pub fn take_from_value(value: &Value, guard: &mut Guard) -> (native: Result<
        NativeString,
        TypeMismatch,
    >)
        requires
            old(guard)@.wf(),
        ensures
            match native {
                Ok(string) => {
                    &&& old(guard)@.string_at(*value) == Some(string@)
                    &&& string.wf()
                    &&& final(guard)@ == old(guard)@.detached(value->HeapRef_0 as int)
                    &&& final(guard)@.wf_except(value->HeapRef_0 as int)
                },
                Err(_) => old(guard)@.string_at(*value) is None && final(guard)@ == old(guard)@,
            },
    {
        let address = match value {
            Value::HeapRef(address) => *address,
            _ => {
                return Err(TypeMismatch);
            },
        };
        if address >= guard.heap_len() {
            return Err(TypeMismatch);
        }
        let class = match &guard.slot(address).payload {
            Payload::Str(_) => guard.slot(address).class,
            _ => {
                return Err(TypeMismatch);
            },
        };
        let previous = guard.swap_slot(address, Slot { class, payload: Payload::Detached });
        match previous.payload {
            Payload::Str(string) => Ok(string),
            _ => Err(TypeMismatch),
        }
    }

    /// Puts `native` back into the slot that `value` refers to, whose buffer
    /// is out. The slot keeps its address and its class, and `value` refers
    /// to the same object as before.
    pub fn box_into_value(native: NativeString, value: Value, guard: &mut Guard) -> (boxed:
        Value)
        requires
            native.wf(),
            value is HeapRef,
            old(guard)@.wf_except(value->HeapRef_0 as int),
        ensures
            boxed == value,
            final(guard)@ == old(guard)@.attached(value->HeapRef_0 as int, native@),
            final(guard)@.wf(),
    {
        let address = match value {
            Value::HeapRef(address) => address,
            _ => 0,
        };
        let class = guard.slot(address).class;
        let _ = guard.swap_slot(address, Slot { class, payload: Payload::Str(native) });
        value
    }
}

/// A string that was boxed is found again under the handle that boxing
/// returned, with its bytes, its capacity and its encoding.
pub proof fn lemma_alloc_unbox_round_trip(interp: InterpModel, class: ClassId, string: StringModel)
    requires
        interp.has_room(),
        interp.limit <= usize::MAX,
    ensures
        interp.allocated(class, string).string_at(interp.next_value()) == Some(string),
        interp.allocated(class, string).class_at(interp.next_value()) == Some(class),
{
}

/// While a buffer is out, the heap is not at rest: what asks for a heap at
/// rest, as every allocation does, cannot be called before the buffer is
/// back.
pub proof fn lemma_detached_is_not_at_rest(interp: InterpModel, address: int)
    requires
        interp.wf_except(address),
    ensures
        !interp.wf(),
{
    assert(interp.heap[address] is Detached);
}

/// Taking a string out of its slot and putting it back unchanged leaves the
/// heap as it was.
pub proof fn lemma_detach_attach(interp: InterpModel, address: int)
    requires
        0 <= address < interp.heap.len(),
        address <= usize::MAX,
        interp.heap[address] is Str,
    ensures
        interp.detached(address).attached(address, interp.heap[address]->Str_string) == interp,
{
    let back = interp.detached(address).attached(address, interp.heap[address]->Str_string);
    assert(back.heap =~= interp.heap);
}

/// Putting a string back into its slot changes neither the address nor the
/// class of the object, and no other slot.
pub proof fn lemma_attach_keeps_identity(interp: InterpModel, address: int, string: StringModel)
    requires
        interp.wf_except(address),
        address <= usize::MAX,
    ensures
        interp.attached(address, string).heap.len() == interp.heap.len(),
        interp.attached(address, string).class_at(Value::HeapRef(address as usize))
            == interp.class_at(Value::HeapRef(address as usize)),
        interp.attached(address, string).string_at(Value::HeapRef(address as usize)) == Some(
            string,
        ),
        forall|other: int|
            0 <= other < interp.heap.len() && other != address ==> interp.attached(
                address,
                string,
            ).heap[other] == interp.heap[other],
{
}

} // verus!
