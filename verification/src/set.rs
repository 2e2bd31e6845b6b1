//! The set and sorted-set classes of the standard library. Both are empty
//! native classes; what they do is written in the scripting language, in a
//! source file that is held for the virtual machine to load.

use crate::class::{ClassModel, ClassSpec, NativeClass, NativeType};
use crate::error::ArtichokeError;
use crate::interp::{Artichoke, Guard, InterpModel};
use vstd::prelude::*;

verus! {

/// The native type behind the set class.
pub struct RubySet;

/// The native type behind the sorted-set class.
pub struct SortedSet;

impl NativeClass for RubySet {
    open spec fn native_type_spec() -> NativeType {
        NativeType::RubySet
    }

    fn native_type() -> (native: NativeType) {
        NativeType::RubySet
    }
}

impl NativeClass for SortedSet {
    open spec fn native_type_spec() -> NativeType {
        NativeType::SortedSet
    }

    fn native_type() -> (native: NativeType) {
        NativeType::SortedSet
    }
}

/// The interpreter after the set extension was set up with the given source
/// text.
pub open spec fn initialized(before: InterpModel, source: Seq<u8>) -> InterpModel {
    before.with_class(ClassModel::bare(NativeType::RubySet, "Set"@)).with_class(
        ClassModel::bare(NativeType::SortedSet, "SortedSet"@),
    ).with_source("set.rb"@, source)
}

/// Sets up the set extension: defines the two classes and holds `source`,
/// the text of the extension in the scripting language, under the name
/// `set.rb`. Fails where the interpreter is out with a guard.
pub fn init(interp: &mut Artichoke, source: &[u8]) -> (done: Result<(), ArtichokeError>)
    requires
        old(interp).wf(),
    ensures
        final(interp).wf(),
        match old(interp)@ {
            None => final(interp)@ is None && done == Err::<(), ArtichokeError>(
                ArtichokeError::Uninitialized,
            ),
            Some(before) => done == Ok::<(), ArtichokeError>(()) && final(interp)@ == Some(
                initialized(before, source@),
            ),
        },
{
    let mut guard = match Guard::acquire(interp) {
        Some(guard) => guard,
        None => {
            return Err(ArtichokeError::Uninitialized);
        },
    };
    guard.def_class::<RubySet>(ClassSpec::new(NativeType::RubySet, "Set"));
    guard.def_class::<SortedSet>(ClassSpec::new(NativeType::SortedSet, "SortedSet"));
    guard.def_rb_source_file("set.rb", source);
    guard.release(interp);
    Ok(())
}

/// After the set extension was set up, both classes are defined and the
/// source file is held.
pub proof fn lemma_initialized(before: InterpModel, source: Seq<u8>)
    ensures
        initialized(before, source).is_class_defined(NativeType::RubySet),
        initialized(before, source).is_class_defined(NativeType::SortedSet),
        initialized(before, source).has_source("set.rb"@),
        initialized(before, source).heap == before.heap,
{
    let after = initialized(before, source);
    let count = before.classes.len() as int;
    assert(after.classes[count].native == NativeType::RubySet);
    assert(after.classes[count + 1].native == NativeType::SortedSet);
    assert(after.sources[before.sources.len() as int].name == "set.rb"@);
}

} // verus!
