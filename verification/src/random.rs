//! The class of the pseudo-random number generator. The generator itself
//! lives outside this library; here its class is set up.

use crate::class::{ArgSpec, ClassModel, ClassSpec, NativeClass, NativeType, Receiver};
use crate::error::ArtichokeError;
use crate::interp::{Artichoke, Guard, InterpModel, SlotModel};
use crate::value::ClassId;
use vstd::prelude::*;

verus! {

/// The native type behind the class of random number generators.
pub struct Random;

impl NativeClass for Random {
    open spec fn native_type_spec() -> NativeType {
        NativeType::Random
    }

    fn native_type() -> (native: NativeType) {
        NativeType::Random
    }
}

/// The kind under which a random number generator is boxed.
pub const RANDOM_KIND: u32 = 1;

/// The class of random number generators with its methods, before its
/// constants are defined.
pub open spec fn random_class() -> ClassModel {
    (ClassModel { rust_object: true, ..ClassModel::bare(NativeType::Random, "Random"@) }).with_method(
        "new_seed"@,
        Receiver::Class,
        ArgSpec { required: 1, optional: 0 },
    ).with_method("srand"@, Receiver::Class, ArgSpec { required: 0, optional: 1 }).with_method(
        "urandom"@,
        Receiver::Class,
        ArgSpec { required: 1, optional: 0 },
    ).with_method(
        "initialize"@,
        Receiver::Instance,
        ArgSpec { required: 0, optional: 1 },
    ).with_method("=="@, Receiver::Instance, ArgSpec { required: 0, optional: 1 }).with_method(
        "bytes"@,
        Receiver::Instance,
        ArgSpec { required: 1, optional: 0 },
    ).with_method("rand"@, Receiver::Instance, ArgSpec { required: 0, optional: 1 }).with_method(
        "seed"@,
        Receiver::Instance,
        ArgSpec { required: 0, optional: 0 },
    )
}

/// True when `after` and `done` are what setting up the random extension
/// with the given source text gives from the interpreter `before`. Where the
/// class is defined already nothing happens. Where the heap has no room for
/// the default generator the class stays defined without its constant, and
/// the set-up fails.
pub open spec fn is_initialized(
    before: Option<InterpModel>,
    source: Seq<u8>,
    after: Option<InterpModel>,
    done: Result<(), ArtichokeError>,
) -> bool {
    match before {
        None => after is None && done == Err::<(), ArtichokeError>(ArtichokeError::Uninitialized),
        Some(interp) => if interp.is_class_defined(NativeType::Random) {
            after == before && done == Ok::<(), ArtichokeError>(())
        } else if !interp.has_room() {
            after == Some(interp.with_class(random_class())) && done == Err::<
                (),
                ArtichokeError,
            >(ArtichokeError::NotDefined)
        } else {
            &&& done == Ok::<(), ArtichokeError>(())
            &&& after == Some(
                interp.with_class(random_class().with_constant("DEFAULT"@, interp.next_value())).boxed(
                    SlotModel::Object { class: ClassId::random(), kind: RANDOM_KIND },
                ).with_source("random.rb"@, source),
            )
        },
    }
}

/// Sets up the random extension: defines the class with its methods, boxes
/// the default generator and names it by the constant `DEFAULT`, and holds
/// `source`, the text of the extension in the scripting language, under the
/// name `random.rb`.
pub fn init(interp: &mut Artichoke, source: &[u8]) -> (done: Result<(), ArtichokeError>)
    requires
        old(interp).wf(),
    ensures
        final(interp).wf(),
        is_initialized(old(interp)@, source@, final(interp)@, done),
{
    let mut guard = match Guard::acquire(interp) {
        Some(guard) => guard,
        None => {
            return Err(ArtichokeError::Uninitialized);
        },
    };
    if guard.is_class_defined::<Random>() {
        guard.release(interp);
        return Ok(());
    }
    let ghost before = guard@;
    let spec = ClassSpec::new(NativeType::Random, "Random").value_is_rust_object().add_self_method(
        "new_seed",
        ArgSpec::req(1),
    ).add_self_method("srand", ArgSpec::opt(1)).add_self_method(
        "urandom",
        ArgSpec::req(1),
    ).add_method("initialize", ArgSpec::opt(1)).add_method("==", ArgSpec::opt(1)).add_method(
        "bytes",
        ArgSpec::req(1),
    ).add_method("rand", ArgSpec::opt(1)).add_method("seed", ArgSpec::none());
    guard.def_class::<Random>(spec);
    let default = match guard.alloc_object(ClassId::random(), RANDOM_KIND) {
        Some(default) => default,
        None => {
            guard.release(interp);
            return Err(ArtichokeError::NotDefined);
        },
    };
    let ghost defined = guard@;
    let _ = guard.define_class_constant::<Random>("DEFAULT", default);
    proof {
        let position = before.classes.len() as int;
        assert(defined.classes[position].native == NativeType::Random);
        assert forall|j: int| 0 <= j < position implies (#[trigger] defined.classes[j]).native
            != NativeType::Random by {
            assert(defined.classes[j] == before.classes[j]);
        }
        assert(guard@.classes =~= before.classes.push(
            random_class().with_constant("DEFAULT"@, default),
        ));
    }
    guard.def_rb_source_file("random.rb", source);
    guard.release(interp);
    Ok(())
}

} // verus!
