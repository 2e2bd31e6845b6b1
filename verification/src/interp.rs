//! The interpreter: the heap of the virtual machine and what the native
//! layer keeps beside it, reachable only through a guard.

use crate::class::{ClassModel, ClassSpec, NativeClass, NativeType, SourceFile, SourceModel};
use crate::matchdata::{capture_models, CaptureModel, CaptureName};
use crate::string::{NativeString, StringModel};
use crate::value::{ClassId, Value};
use vstd::prelude::*;

verus! {

/// What a heap slot is, to a contract.
pub enum SlotModel {
    /// Reclaimed by the collector.
    Free,
    /// A string slot whose buffer is out with a caller and has to come back
    /// before the heap is touched again.
    Detached { class: ClassId },
    /// A boxed string.
    Str { class: ClassId, string: StringModel },
    /// A boxed array of values.
    Array { class: ClassId, items: Seq<Value> },
    /// Boxed match data: the named capture groups of the pattern that
    /// matched.
    MatchData { class: ClassId, captures: Seq<CaptureModel> },
    /// An object of another kind.
    Object { class: ClassId, kind: u32 },
}

/// What the interpreter is, to a contract.
pub struct InterpModel {
    /// The slots, each at the address that is its index.
    pub heap: Seq<SlotModel>,
    /// The number of slots that the host allocator grants.
    pub limit: nat,
    /// The key of the string hash, fixed when the interpreter is made.
    pub hash_key: Seq<u8>,
    /// The classes of native types, in the order of their definition.
    pub classes: Seq<ClassModel>,
    /// The source files held for loading, in the order of their definition.
    pub sources: Seq<SourceModel>,
}

impl InterpModel {
    /// The slot that `value` refers to, if it refers to one.
    pub open spec fn slot_of(self, value: Value) -> Option<SlotModel> {
        match value {
            Value::HeapRef(address) => if address < self.heap.len() {
                Some(self.heap[address as int])
            } else {
                None
            },
            _ => None,
        }
    }

    /// The string that `value` is a box of; nothing where `value` is an
    /// immediate or refers to anything else than a string.
    pub open spec fn string_at(self, value: Value) -> Option<StringModel> {
        match self.slot_of(value) {
            Some(SlotModel::Str { string, .. }) => Some(string),
            _ => None,
        }
    }

    /// The capture groups of the match data that `value` is a box of.
    pub open spec fn captures_at(self, value: Value) -> Option<Seq<CaptureModel>> {
        match self.slot_of(value) {
            Some(SlotModel::MatchData { captures, .. }) => Some(captures),
            _ => None,
        }
    }

    /// The items of the array that `value` is a box of.
    pub open spec fn items_at(self, value: Value) -> Option<Seq<Value>> {
        match self.slot_of(value) {
            Some(SlotModel::Array { items, .. }) => Some(items),
            _ => None,
        }
    }

    /// The interpreter after `slot` was put into a new slot.
    pub open spec fn boxed(self, slot: SlotModel) -> InterpModel {
        InterpModel { heap: self.heap.push(slot), ..self }
    }

    /// The class of the object that `value` refers to.
    pub open spec fn class_at(self, value: Value) -> Option<ClassId> {
        match self.slot_of(value) {
            Some(SlotModel::Str { class, .. }) => Some(class),
            Some(SlotModel::Detached { class }) => Some(class),
            Some(SlotModel::Array { class, .. }) => Some(class),
            Some(SlotModel::MatchData { class, .. }) => Some(class),
            Some(SlotModel::Object { class, .. }) => Some(class),
            _ => None,
        }
    }

    /// An interpreter with an empty heap and no definitions.
    pub open spec fn fresh(limit: nat, hash_key: Seq<u8>) -> InterpModel {
        InterpModel {
            heap: Seq::empty(),
            limit,
            hash_key,
            classes: Seq::empty(),
            sources: Seq::empty(),
        }
    }

    /// True when a class is defined for `native`.
    pub open spec fn is_class_defined(self, native: NativeType) -> bool {
        exists|i: int| 0 <= i < self.classes.len() && (#[trigger] self.classes[i]).native == native
    }

    /// True when a source file of the given name is held.
    pub open spec fn has_source(self, name: Seq<char>) -> bool {
        exists|i: int| 0 <= i < self.sources.len() && (#[trigger] self.sources[i]).name == name
    }

    /// The interpreter after `class` was defined.
    pub open spec fn with_class(self, class: ClassModel) -> InterpModel {
        InterpModel { classes: self.classes.push(class), ..self }
    }

    /// The interpreter after the constant `name` was defined in the class at
    /// `position`.
    pub open spec fn with_constant(self, position: int, name: Seq<char>, value: Value) -> InterpModel {
        InterpModel {
            classes: self.classes.update(
                position,
                self.classes[position].with_constant(name, value),
            ),
            ..self
        }
    }

    /// The interpreter after a source file was defined.
    pub open spec fn with_source(self, name: Seq<char>, contents: Seq<u8>) -> InterpModel {
        InterpModel { sources: self.sources.push(SourceModel { name, contents }), ..self }
    }

    /// True while the host allocator grants one more slot.
    pub open spec fn has_room(self) -> bool {
        self.heap.len() < self.limit
    }

    /// The handle that the next boxed object gets.
    pub open spec fn next_value(self) -> Value {
        Value::HeapRef(self.heap.len() as usize)
    }

    /// The heap holds no more slots than the allocator grants, and every
    /// boxed string keeps its invariant.
    pub open spec fn slots_ok(self) -> bool {
        &&& self.heap.len() <= self.limit <= usize::MAX
        &&& forall|i: int|
            0 <= i < self.heap.len() ==> (#[trigger] self.heap[i] matches SlotModel::Str {
                string,
                ..
            } ==> string.wf())
    }

    /// The state between boundary calls: no buffer is out.
    pub open spec fn wf(self) -> bool {
        &&& self.slots_ok()
        &&& forall|i: int| 0 <= i < self.heap.len() ==> !(#[trigger] self.heap[i] is Detached)
    }

    /// The state while the buffer of the slot at `address`, and no other, is
    /// out with a caller.
    pub open spec fn wf_except(self, address: int) -> bool {
        &&& self.slots_ok()
        &&& 0 <= address < self.heap.len()
        &&& self.heap[address] is Detached
        &&& forall|i: int|
            0 <= i < self.heap.len() && i != address ==> !(#[trigger] self.heap[i] is Detached)
    }

    /// The interpreter after a string was boxed into a new slot under
    /// `class`.
    pub open spec fn allocated(self, class: ClassId, string: StringModel) -> InterpModel {
        InterpModel { heap: self.heap.push(SlotModel::Str { class, string }), ..self }
    }

    /// The interpreter after the buffer of the slot at `address` was taken
    /// out.
    pub open spec fn detached(self, address: int) -> InterpModel {
        InterpModel {
            heap: self.heap.update(
                address,
                SlotModel::Detached { class: self.heap[address]->Str_class },
            ),
            ..self
        }
    }

    /// The interpreter after `string` was installed in the slot at
    /// `address`, under the class that the slot had.
    pub open spec fn attached(self, address: int, string: StringModel) -> InterpModel {
        InterpModel {
            heap: self.heap.update(
                address,
                SlotModel::Str { class: self.class_at(Value::HeapRef(address as usize)).unwrap(), string },
            ),
            ..self
        }
    }

    /// The interpreter after the object at `address` was given `class`.
    pub open spec fn reclassed(self, address: int, class: ClassId) -> InterpModel {
        InterpModel {
            heap: self.heap.update(
                address,
                match self.heap[address] {
                    SlotModel::Str { string, .. } => SlotModel::Str { class, string },
                    SlotModel::Detached { .. } => SlotModel::Detached { class },
                    SlotModel::Array { items, .. } => SlotModel::Array { class, items },
                    SlotModel::MatchData { captures, .. } => SlotModel::MatchData {
                        class,
                        captures,
                    },
                    SlotModel::Object { kind, .. } => SlotModel::Object { class, kind },
                    SlotModel::Free => SlotModel::Free,
                },
            ),
            ..self
        }
    }

    /// The interpreter after the collector reclaimed the slot at `address`.
    pub open spec fn freed(self, address: int) -> InterpModel {
        InterpModel { heap: self.heap.update(address, SlotModel::Free), ..self }
    }
}

/// What a heap slot holds.
pub enum Payload {
    Free,
    Detached,
    Str(NativeString),
    Array(Vec<Value>),
    MatchData(Vec<CaptureName>),
    Object(u32),
}

/// A heap slot: the class of the object and its payload.
pub struct Slot {
    pub class: ClassId,
    pub payload: Payload,
}

impl View for Slot {
    type V = SlotModel;

    open spec fn view(&self) -> SlotModel {
        match self.payload {
            Payload::Free => SlotModel::Free,
            Payload::Detached => SlotModel::Detached { class: self.class },
            Payload::Str(string) => SlotModel::Str { class: self.class, string: string@ },
            Payload::Array(items) => SlotModel::Array { class: self.class, items: items@ },
            Payload::MatchData(captures) => SlotModel::MatchData {
                class: self.class,
                captures: capture_models(captures@),
            },
            Payload::Object(kind) => SlotModel::Object { class: self.class, kind },
        }
    }
}

/// The state of the interpreter.
pub struct Interp {
    slots: Vec<Slot>,
    limit: usize,
    hash_key: Vec<u8>,
    classes: Vec<ClassSpec>,
    sources: Vec<SourceFile>,
}

impl View for Interp {
    type V = InterpModel;

    closed spec fn view(&self) -> InterpModel {
        InterpModel {
            heap: Seq::new(self.slots@.len(), |i: int| self.slots@[i]@),
            limit: self.limit as nat,
            hash_key: self.hash_key@,
            classes: Seq::new(self.classes@.len(), |i: int| self.classes@[i]@),
            sources: Seq::new(self.sources@.len(), |i: int| self.sources@[i]@),
        }
    }
}

/// The virtual machine as an embedder holds it. The interpreter is inside
/// while no boundary call runs, and out with a guard while one does.
pub struct Artichoke {
    interp: Option<Interp>,
}

impl View for Artichoke {
    type V = Option<InterpModel>;

    closed spec fn view(&self) -> Option<InterpModel> {
        match self.interp {
            Some(interp) => Some(interp@),
            None => None,
        }
    }
}

impl Artichoke {
    /// The interpreter is at rest, or out with a guard.
    pub open spec fn wf(&self) -> bool {
        self@ matches Some(interp) ==> interp.wf()
    }

    /// A virtual machine with an empty heap of at most `limit` slots, whose
    /// string hash is keyed by `hash_key`.
    pub fn new(limit: usize, hash_key: Vec<u8>) -> (mrb: Artichoke)
        ensures
            mrb.wf(),
            mrb@ == Some(InterpModel::fresh(limit as nat, hash_key@)),
    {
        let interp = Interp {
            slots: Vec::new(),
            limit,
            hash_key,
            classes: Vec::new(),
            sources: Vec::new(),
        };
        assert(interp@.heap =~= Seq::empty());
        assert(interp@.classes =~= Seq::empty());
        assert(interp@.sources =~= Seq::empty());
        Artichoke { interp: Some(interp) }
    }

    /// Tells whether a guard holds the interpreter.
    pub fn is_guarded(&self) -> (guarded: bool)
        ensures
            guarded == (self@ is None),
    {
        self.interp.is_none()
    }
}

/// The exclusive hold on the interpreter for the time of one boundary call.
/// The heap can be reached through a guard only, and there is never more than
/// one: while it is out, the virtual machine has no interpreter to give.
pub struct Guard {
    interp: Interp,
}

impl View for Guard {
    type V = InterpModel;

    closed spec fn view(&self) -> InterpModel {
        self.interp@
    }
}

impl Guard {
    /// Takes the interpreter out of the virtual machine; nothing where a
    /// guard holds it already.
    pub fn acquire(mrb: &mut Artichoke) -> (guard: Option<Guard>)
        ensures
            final(mrb)@ is None,
            match guard {
                Some(guard) => old(mrb)@ == Some(guard@),
                None => old(mrb)@ is None,
            },
    {
        match mrb.interp.take() {
            Some(interp) => Some(Guard { interp }),
            None => None,
        }
    }

    /// Hands the interpreter back to the virtual machine.
    pub fn release(self, mrb: &mut Artichoke)
        ensures
            final(mrb)@ == Some(self@),
    {
        mrb.interp = Some(self.interp);
    }

    /// The number of slots in the heap.
    pub fn heap_len(&self) -> (len: usize)
        ensures
            len == self@.heap.len(),
    {
        self.interp.slots.len()
    }

    /// The key of the string hash.
    pub fn hash_key(&self) -> (key: &[u8])
        ensures
            key@ == self@.hash_key,
    {
        self.interp.hash_key.as_slice()
    }

    /// The class of the object that `value` refers to.
    pub fn class_of(&self, value: &Value) -> (class: Option<ClassId>)
        ensures
            class == self@.class_at(*value),
    {
        match value {
            Value::HeapRef(address) => {
                if *address < self.interp.slots.len() {
                    let slot = &self.interp.slots[*address];
                    match slot.payload {
                        Payload::Free => None,
                        _ => Some(slot.class),
                    }
                } else {
                    None
                }
            },
            _ => None,
        }
    }

    /// Gives the object that `value` refers to the class `class`. Immediates
    /// and reclaimed slots have no class to set.
    pub fn set_class(&mut self, value: &Value, class: ClassId) -> (done: bool)
        ensures
            done == old(self)@.class_at(*value) is Some,
            done ==> final(self)@ == old(self)@.reclassed(value->HeapRef_0 as int, class),
            !done ==> final(self)@ == old(self)@,
    {
        match self.class_of(value) {
            None => false,
            Some(_) => {
                let address = match value {
                    Value::HeapRef(address) => *address,
                    _ => 0,
                };
                let mut slot = self.interp.slots.remove(address);
                slot.class = class;
                self.interp.slots.insert(address, slot);
                assert(self@.heap =~= old(self)@.reclassed(address as int, class).heap);
                assert(self@.classes =~= old(self)@.classes);
                assert(self@.sources =~= old(self)@.sources);
                true
            },
        }
    }

    /// Boxes match data over the named capture groups `captures`.
    pub fn alloc_match_data(&mut self, captures: Vec<CaptureName>) -> (value: Option<Value>)
        requires
            old(self)@.wf(),
        ensures
            final(self)@.wf(),
            old(self)@.has_room() ==> value == Some(old(self)@.next_value()) && final(self)@
                == old(self)@.boxed(
                SlotModel::MatchData {
                    class: ClassId::match_data(),
                    captures: capture_models(captures@),
                },
            ),
            !old(self)@.has_room() ==> value is None && final(self)@ == old(self)@,
    {
        let address = self.interp.slots.len();
        if address >= self.interp.limit {
            return None;
        }
        self.push_slot(Slot { class: ClassId::match_data(), payload: Payload::MatchData(captures) });
        Some(Value::HeapRef(address))
    }

    /// Boxes an array of `items`.
    pub fn alloc_array(&mut self, items: Vec<Value>) -> (value: Option<Value>)
        requires
            old(self)@.wf(),
        ensures
            final(self)@.wf(),
            old(self)@.has_room() ==> value == Some(old(self)@.next_value()) && final(self)@
                == old(self)@.boxed(SlotModel::Array { class: ClassId::array(), items: items@ }),
            !old(self)@.has_room() ==> value is None && final(self)@ == old(self)@,
    {
        let address = self.interp.slots.len();
        if address >= self.interp.limit {
            return None;
        }
        self.push_slot(Slot { class: ClassId::array(), payload: Payload::Array(items) });
        Some(Value::HeapRef(address))
    }

    /// Looks at the capture groups of the match data that `value` is a box
    /// of.
    pub fn unbox_match_data(&self, value: &Value) -> (captures: Option<&Vec<CaptureName>>)
        ensures
            match captures {
                Some(groups) => self@.captures_at(*value) == Some(capture_models(groups@)),
                None => self@.captures_at(*value) is None,
            },
    {
        match value {
            Value::HeapRef(address) => {
                if *address < self.interp.slots.len() {
                    match &self.slot(*address).payload {
                        Payload::MatchData(captures) => Some(captures),
                        _ => None,
                    }
                } else {
                    None
                }
            },
            _ => None,
        }
    }

    /// Looks at the items of the array that `value` is a box of.
    pub fn unbox_array(&self, value: &Value) -> (items: Option<&Vec<Value>>)
        ensures
            match items {
                Some(values) => self@.items_at(*value) == Some(values@),
                None => self@.items_at(*value) is None,
            },
    {
        match value {
            Value::HeapRef(address) => {
                if *address < self.interp.slots.len() {
                    match &self.slot(*address).payload {
                        Payload::Array(items) => Some(items),
                        _ => None,
                    }
                } else {
                    None
                }
            },
            _ => None,
        }
    }

    /// Boxes an object that is no string, for callers that need one.
    pub fn alloc_object(&mut self, class: ClassId, kind: u32) -> (value: Option<Value>)
        requires
            old(self)@.wf(),
        ensures
            final(self)@.wf(),
            old(self)@.heap.len() < old(self)@.limit ==> value == Some(
                Value::HeapRef(old(self)@.heap.len() as usize),
            ) && final(self)@ == (InterpModel {
                heap: old(self)@.heap.push(SlotModel::Object { class, kind }),
                ..old(self)@
            }),
            old(self)@.heap.len() >= old(self)@.limit ==> value is None && final(self)@ == old(
                self,
            )@,
    {
        let address = self.interp.slots.len();
        if address >= self.interp.limit {
            return None;
        }
        self.interp.slots.push(Slot { class, payload: Payload::Object(kind) });
        assert(self@.heap =~= old(self)@.heap.push(SlotModel::Object { class, kind }));
        assert(self@.classes =~= old(self)@.classes);
        assert(self@.sources =~= old(self)@.sources);
        Some(Value::HeapRef(address))
    }

    /// Puts `slot` at the end of the heap.
    pub(crate) fn push_slot(&mut self, slot: Slot)
        ensures
            final(self)@ == (InterpModel { heap: old(self)@.heap.push(slot@), ..old(self)@ }),
    {
        self.interp.slots.push(slot);
        assert(self@.heap =~= old(self)@.heap.push(slot@));
        assert(self@.classes =~= old(self)@.classes);
        assert(self@.sources =~= old(self)@.sources);
    }

    /// The slot at `address`.
    pub(crate) fn slot(&self, address: usize) -> (slot: &Slot)
        requires
            address < self@.heap.len(),
        ensures
            slot@ == self@.heap[address as int],
    {
        &self.interp.slots[address]
    }

    /// Puts `slot` in the place of the slot at `address` and hands out what
    /// was there.
    pub(crate) fn swap_slot(&mut self, address: usize, slot: Slot) -> (previous: Slot)
        requires
            address < old(self)@.heap.len(),
        ensures
            previous@ == old(self)@.heap[address as int],
            final(self)@ == (InterpModel {
                heap: old(self)@.heap.update(address as int, slot@),
                ..old(self)@
            }),
    {
        let previous = self.interp.slots.remove(address);
        self.interp.slots.insert(address, slot);
        assert(self@.heap =~= old(self)@.heap.update(address as int, slot@));
        assert(self@.classes =~= old(self)@.classes);
        assert(self@.sources =~= old(self)@.sources);
        previous
    }

    /// Marks the slot at `address`, whose buffer is out and was given up, as
    /// reclaimed.
    pub(crate) fn reclaim(&mut self, address: usize)
        requires
            old(self)@.wf_except(address as int),
        ensures
            final(self)@.wf(),
            final(self)@ == old(self)@.freed(address as int),
    {
        let class = self.slot(address).class;
        let _ = self.swap_slot(address, Slot { class, payload: Payload::Free });
    }

    /// Tells whether a class is defined for the native type `T`.
    pub fn is_class_defined<T: NativeClass>(&self) -> (defined: bool)
        ensures
            defined == self@.is_class_defined(T::native_type_spec()),
    {
        self.class_spec::<T>().is_some()
    }

    /// The class defined for the native type `T`: the first one, where
    /// there are several.
    pub fn class_spec<T: NativeClass>(&self) -> (class: Option<&ClassSpec>)
        ensures
            class is Some == self@.is_class_defined(T::native_type_spec()),
            class matches Some(spec) ==> spec@.native == T::native_type_spec() && exists|i: int|
                0 <= i < self@.classes.len() && #[trigger] self@.classes[i] == spec@ && forall|
                j: int,
            |
                0 <= j < i ==> (#[trigger] self@.classes[j]).native != spec@.native,
    {
        let native = T::native_type();
        let mut at: usize = 0;
        while at < self.interp.classes.len()
            invariant
                at <= self.interp.classes.len(),
                native == T::native_type_spec(),
                forall|j: int| 0 <= j < at ==> (#[trigger] self@.classes[j]).native != native,
            decreases self.interp.classes.len() - at,
        {
            if self.interp.classes[at].native() == native {
                assert(self@.classes[at as int] == self.interp.classes[at as int]@);
                return Some(&self.interp.classes[at]);
            }
            at += 1;
        }
        None
    }

    /// Defines a class for the native type `T`.
    pub fn def_class<T: NativeClass>(&mut self, spec: ClassSpec)
        requires
            spec@.native == T::native_type_spec(),
        ensures
            final(self)@ == old(self)@.with_class(spec@),
    {
        self.interp.classes.push(spec);
        assert(self@.classes =~= old(self)@.classes.push(spec@));
        assert(self@.sources =~= old(self)@.sources);
        assert(self@.heap =~= old(self)@.heap);
    }

    /// Defines the constant `name` in the first class defined for the native
    /// type `T`. Nothing happens where there is no such class.
    pub fn define_class_constant<T: NativeClass>(&mut self, name: &str, value: Value) -> (done:
        bool)
        ensures
            done == old(self)@.is_class_defined(T::native_type_spec()),
            !done ==> final(self)@ == old(self)@,
            done ==> exists|position: int|
                {
                    &&& 0 <= position < old(self)@.classes.len()
                    &&& (#[trigger] old(self)@.classes[position]).native == T::native_type_spec()
                    &&& forall|j: int|
                        0 <= j < position ==> (#[trigger] old(self)@.classes[j]).native
                            != T::native_type_spec()
                    &&& final(self)@ == old(self)@.with_constant(position, name@, value)
                },
    {
        let native = T::native_type();
        let mut at: usize = 0;
        while at < self.interp.classes.len()
            invariant
                at <= self.interp.classes.len(),
                native == T::native_type_spec(),
                *self == *old(self),
                forall|j: int| 0 <= j < at ==> (#[trigger] self@.classes[j]).native != native,
            decreases self.interp.classes.len() - at,
        {
            if self.interp.classes[at].native() == native {
                assert(self@.classes[at as int] == self.interp.classes[at as int]@);
                let spec = self.interp.classes.remove(at);
                let ghost model = spec@;
                let spec = spec.add_constant(name, value);
                self.interp.classes.insert(at, spec);
                assert(self@.classes =~= old(self)@.classes.update(
                    at as int,
                    model.with_constant(name@, value),
                ));
                assert(self@.sources =~= old(self)@.sources);
                assert(self@.heap =~= old(self)@.heap);
                return true;
            }
            at += 1;
        }
        false
    }

    /// Holds a source file of the scripting language for the virtual machine
    /// to load.
    pub fn def_rb_source_file(&mut self, name: &str, contents: &[u8])
        ensures
            final(self)@ == old(self)@.with_source(name@, contents@),
    {
        let file = SourceFile { name: name.to_owned(), contents: vstd::slice::slice_to_vec(contents) };
        self.interp.sources.push(file);
        assert(self@.sources =~= old(self)@.sources.push(
            SourceModel { name: name@, contents: contents@ },
        ));
        assert(self@.classes =~= old(self)@.classes);
        assert(self@.heap =~= old(self)@.heap);
    }

    /// The number of source files held.
    pub fn source_count(&self) -> (count: usize)
        ensures
            count == self@.sources.len(),
    {
        self.interp.sources.len()
    }

    /// The source file at `at`, in the order of definition.
    pub fn source(&self, at: usize) -> (file: &SourceFile)
        requires
            at < self@.sources.len(),
        ensures
            file@ == self@.sources[at as int],
    {
        &self.interp.sources[at]
    }

    /// The number of slots that the host allocator grants.
    pub fn limit(&self) -> (limit: usize)
        ensures
            limit == self@.limit,
    {
        self.interp.limit
    }
}

} // verus!
