//! Class definitions of native types, as the interpreter records them.

use crate::value::Value;
use vstd::prelude::*;

verus! {

/// The native types that have a class in the virtual machine.
#[derive(Clone, Copy, Debug, PartialEq, Eq, Structural)]
pub enum NativeType {
    String,
    Random,
    MatchData,
    RubySet,
    SortedSet,
}

/// A native type that has a class in the virtual machine.
pub trait NativeClass {
    /// The native type that the implementor stands for.
    spec fn native_type_spec() -> NativeType;

    /// The native type that the implementor stands for.
    fn native_type() -> (native: NativeType)
        ensures
            native == Self::native_type_spec(),
    ;
}

/// The arguments that a method takes.
#[derive(Clone, Copy, Debug, PartialEq, Eq, Structural)]
pub struct ArgSpec {
    pub required: u32,
    pub optional: u32,
}

impl ArgSpec {
    /// A method without arguments.
    pub fn none() -> (args: ArgSpec)
        ensures
            args == (ArgSpec { required: 0, optional: 0 }),
    {
        ArgSpec { required: 0, optional: 0 }
    }

    /// A method with `count` required arguments.
    pub fn req(count: u32) -> (args: ArgSpec)
        ensures
            args == (ArgSpec { required: count, optional: 0 }),
    {
        ArgSpec { required: count, optional: 0 }
    }

    /// A method with `count` optional arguments.
    pub fn opt(count: u32) -> (args: ArgSpec)
        ensures
            args == (ArgSpec { required: 0, optional: count }),
    {
        ArgSpec { required: 0, optional: count }
    }

    /// Tells whether a call with `given` arguments is well-formed.
    pub fn accepts(&self, given: usize) -> (ok: bool)
        ensures
            ok == (self.required <= given <= self.required + self.optional),
    {
        let given_wide: u64 = given as u64;
        self.required as u64 <= given_wide && given_wide <= self.required as u64
            + self.optional as u64
    }
}

/// Whether a method is called on the class or on its instances.
#[derive(Clone, Copy, Debug, PartialEq, Eq, Structural)]
pub enum Receiver {
    Class,
    Instance,
}

/// What a method definition is, to a contract.
pub struct MethodModel {
    pub name: Seq<char>,
    pub receiver: Receiver,
    pub args: ArgSpec,
}

/// A method definition.
pub struct MethodSpec {
    pub name: String,
    pub receiver: Receiver,
    pub args: ArgSpec,
}

impl View for MethodSpec {
    type V = MethodModel;

    open spec fn view(&self) -> MethodModel {
        MethodModel { name: self.name@, receiver: self.receiver, args: self.args }
    }
}

/// What a class definition is, to a contract.
pub struct ClassModel {
    pub native: NativeType,
    pub name: Seq<char>,
    /// True when instances of the class are boxes of a native object.
    pub rust_object: bool,
    pub methods: Seq<MethodModel>,
    pub constants: Seq<(Seq<char>, Value)>,
}

impl ClassModel {
    /// A class without methods and constants.
    pub open spec fn bare(native: NativeType, name: Seq<char>) -> ClassModel {
        ClassModel {
            native,
            name,
            rust_object: false,
            methods: Seq::empty(),
            constants: Seq::empty(),
        }
    }

    /// This class with one more method.
    pub open spec fn with_method(self, name: Seq<char>, receiver: Receiver, args: ArgSpec) -> ClassModel {
        ClassModel { methods: self.methods.push(MethodModel { name, receiver, args }), ..self }
    }

    /// This class with one more constant.
    pub open spec fn with_constant(self, name: Seq<char>, value: Value) -> ClassModel {
        ClassModel { constants: self.constants.push((name, value)), ..self }
    }
}

/// A class definition, and the builder of one.
pub struct ClassSpec {
    native: NativeType,
    name: String,
    rust_object: bool,
    methods: Vec<MethodSpec>,
    constants: Vec<(String, Value)>,
}

impl View for ClassSpec {
    type V = ClassModel;

    closed spec fn view(&self) -> ClassModel {
        ClassModel {
            native: self.native,
            name: self.name@,
            rust_object: self.rust_object,
            methods: Seq::new(self.methods@.len(), |i: int| self.methods@[i]@),
            constants: Seq::new(
                self.constants@.len(),
                |i: int| (self.constants@[i].0@, self.constants@[i].1),
            ),
        }
    }
}

impl ClassSpec {
    /// A class of the given name, without methods and constants.
    pub fn new(native: NativeType, name: &str) -> (spec: ClassSpec)
        ensures
            spec@ == ClassModel::bare(native, name@),
    {
        let spec = ClassSpec {
            native,
            name: name.to_owned(),
            rust_object: false,
            methods: Vec::new(),
            constants: Vec::new(),
        };
        assert(spec@.methods =~= Seq::empty());
        assert(spec@.constants =~= Seq::empty());
        spec
    }

    /// Marks the instances of the class as boxes of a native object.
    pub fn value_is_rust_object(self) -> (spec: ClassSpec)
        ensures
            spec@ == (ClassModel { rust_object: true, ..self@ }),
    {
        let mut spec = self;
        spec.rust_object = true;
        spec
    }

    /// Adds a method that is called on the class.
    pub fn add_self_method(self, name: &str, args: ArgSpec) -> (spec: ClassSpec)
        ensures
            spec@ == self@.with_method(name@, Receiver::Class, args),
    {
        self.add(name, Receiver::Class, args)
    }

    /// Adds a method that is called on instances.
    pub fn add_method(self, name: &str, args: ArgSpec) -> (spec: ClassSpec)
        ensures
            spec@ == self@.with_method(name@, Receiver::Instance, args),
    {
        self.add(name, Receiver::Instance, args)
    }

    fn add(self, name: &str, receiver: Receiver, args: ArgSpec) -> (spec: ClassSpec)
        ensures
            spec@ == self@.with_method(name@, receiver, args),
    {
        let mut spec = self;
        spec.methods.push(MethodSpec { name: name.to_owned(), receiver, args });
        assert(spec@.methods =~= self@.methods.push(
            MethodModel { name: name@, receiver, args },
        ));
        assert(spec@.constants =~= self@.constants);
        spec
    }

    /// Adds a constant.
    pub fn add_constant(self, name: &str, value: Value) -> (spec: ClassSpec)
        ensures
            spec@ == self@.with_constant(name@, value),
    {
        let mut spec = self;
        spec.constants.push((name.to_owned(), value));
        assert(spec@.constants =~= self@.constants.push((name@, value)));
        assert(spec@.methods =~= self@.methods);
        spec
    }

    /// The native type of the class.
    pub fn native(&self) -> (native: NativeType)
        ensures
            native == self@.native,
    {
        self.native
    }

    /// The name of the class.
    pub fn name(&self) -> (name: &str)
        ensures
            name@ == self@.name,
    {
        self.name.as_str()
    }

    /// The number of methods.
    pub fn method_count(&self) -> (count: usize)
        ensures
            count == self@.methods.len(),
    {
        self.methods.len()
    }

    /// The method at `at`, in the order of definition.
    pub fn method(&self, at: usize) -> (method: &MethodSpec)
        requires
            at < self@.methods.len(),
        ensures
            method@ == self@.methods[at as int],
    {
        &self.methods[at]
    }

    /// The number of constants.
    pub fn constant_count(&self) -> (count: usize)
        ensures
            count == self@.constants.len(),
    {
        self.constants.len()
    }

    /// The value of the constant at `at`, in the order of definition.
    pub fn constant(&self, at: usize) -> (value: Value)
        requires
            at < self@.constants.len(),
        ensures
            value == self@.constants[at as int].1,
    {
        self.constants[at].1
    }
}

/// What a source file is, to a contract.
pub struct SourceModel {
    pub name: Seq<char>,
    pub contents: Seq<u8>,
}

/// A source file of the scripting language, held for the virtual machine to
/// load.
pub struct SourceFile {
    pub name: String,
    pub contents: Vec<u8>,
}

impl View for SourceFile {
    type V = SourceModel;

    open spec fn view(&self) -> SourceModel {
        SourceModel { name: self.name@, contents: self.contents@ }
    }
}

} // verus!
