//! The contract an object must meet to be plugged into the scripting
//! runtime.
//!
//! A pluggable type describes its shape through three traits — its fields,
//! its methods, and the combined [`Pluggable`] view that assembles the
//! [`Class`] descriptor — and provides one native entry point,
//! [`Pluggable::call_entry`], through which every dispatch reaches it.  The
//! entry point is handed the object arena and an entry code taken from the
//! descriptor, so the bridge never holds a function pointer: the descriptor's
//! per-language marshall entry codes are the "native function references"
//! that the handle table wraps.

use vstd::prelude::*;
use vstd::string::StringExecFns;

use crate::descriptor::{Class, ClassSig, Field, FieldSig, Method, MethodSig};
use crate::handle::{HandleError, HandleTable};
use crate::marshall::MarshallError;
use crate::value::{Value, ValueSig};

verus! {

/// The name of this crate's own scripting language, as it appears among a
/// method's per-language marshall entries.
pub open spec fn spec_script_lang() -> Seq<char> {
    "script"@
}

/// Exec counterpart of [`spec_script_lang`].
pub fn script_lang() -> (r: &'static str)
    ensures
        r@ == spec_script_lang(),
{
    "script"
}

/// Why a dispatch aborted.
#[derive(Clone, Copy, Debug, PartialEq, Eq, Structural)]
pub enum DispatchError {
    /// The leading argument was not an integer function handle, or the
    /// handle did not resolve.
    BadFunctionHandle,
    /// The argument count does not match the registered method.
    WrongArity,
    /// An instance entry was invoked without a bound instance.
    NoReceiver,
    /// A static entry was invoked through the instance protocol, or the
    /// other way round.
    WrongProtocol,
    /// An object handle failed to resolve.
    Object(HandleError),
    /// A value could not be converted to the native parameter or return
    /// type.
    Conversion(MarshallError),
    /// The native side does not recognise the entry code.
    UnknownEntry,
}

/// The fields half of the pluggable description.
pub trait PluggableFields {
    /// The spec-level field list.
    spec fn spec_fields() -> Seq<FieldSig>;

    /// The field descriptors, as the descriptor producer built them.
    fn pluggable_fields(&self) -> (r: Vec<Field>)
        ensures
            r@.map_values(|f: Field| f@) == Self::spec_fields(),
    ;
}

/// The methods half of the pluggable description.
pub trait PluggableMethods {
    /// The spec-level method list.
    spec fn spec_methods() -> Seq<MethodSig>;

    /// The method descriptors, as the descriptor producer built them.
    fn pluggable_methods(&self) -> (r: Vec<Method>)
        ensures
            r@.map_values(|m: Method| m@) == Self::spec_methods(),
    ;
}

/// A dispatch outcome with its value taken to the spec level, so that a
/// native entry point's contract can pin the result without naming
/// allocations.
pub open spec fn dispatch_result_view(r: Result<Option<Value>, DispatchError>) -> Result<
    Option<ValueSig>,
    DispatchError,
> {
    match r {
        Ok(Some(v)) => Ok(Some(v@)),
        Ok(None) => Ok(None),
        Err(e) => Err(e),
    }
}

/// The class descriptor a pluggable type presents, as a spec value.
pub open spec fn spec_class_of<P: Pluggable>() -> ClassSig {
    ClassSig {
        name: P::spec_name(),
        fields: P::spec_fields(),
        methods: P::spec_methods(),
    }
}

/// An object that can be plugged into the scripting runtime.
pub trait Pluggable: PluggableFields + PluggableMethods + Sized {
    /// The spec-level class name.
    spec fn spec_name() -> Seq<char>;

    /// The class name; becomes the scripting-runtime class name.
    fn name(&self) -> (r: &'static str)
        ensures
            r@ == Self::spec_name(),
    ;

    /// The field descriptors.
    fn fields(&self) -> (r: Vec<Field>)
        ensures
            r@.map_values(|f: Field| f@) == Self::spec_fields(),
    {
        self.pluggable_fields()
    }

    /// The method descriptors.
    fn methods(&self) -> (r: Vec<Method>)
        ensures
            r@.map_values(|m: Method| m@) == Self::spec_methods(),
    {
        self.pluggable_methods()
    }

    /// The assembled class descriptor.
    fn class(&self) -> (r: Class)
        ensures
            r@ == (ClassSig {
                name: Self::spec_name(),
                fields: Self::spec_fields(),
                methods: Self::spec_methods(),
            }),
    {
        Class { name: String::from_str(self.name()), fields: self.fields(), methods: self.methods() }
    }

    /// What one native dispatch does, as a function of the arena before the
    /// call, the receiver, the entry code and the argument values: the
    /// outcome (with its value at the spec level) and the arena after the
    /// call.  Each implementation defines it; [`Pluggable::call_entry`] is
    /// held to it exactly, so a dispatch result is never underdetermined.
    spec fn spec_call_entry(
        pre: Seq<Option<Self>>,
        receiver: Option<u64>,
        entry: u64,
        args: Seq<Value>,
    ) -> (Result<Option<ValueSig>, DispatchError>, Seq<Option<Self>>);

    /// The native entry point every dispatch reaches.
    ///
    /// `entry` is the per-language marshall entry code the descriptor
    /// declared for the target method; `receiver` is the object handle of the
    /// bound instance, or `None` for a static dispatch; `args` are the
    /// caller's values, still in the scripting representation — conversion
    /// happens inside, per the method's declared parameter types, and an
    /// object-typed argument is resolved through the arena handed in.
    ///
    /// The implementation must behave exactly as its
    /// [`spec_call_entry`](Pluggable::spec_call_entry) says, return a value
    /// exactly when the matching method declares a return type, and must
    /// not grow or shrink the arena.
    fn call_entry(
        objects: &mut HandleTable<Self>,
        receiver: Option<u64>,
        entry: u64,
        args: &Vec<Value>,
    ) -> (r: Result<Option<Value>, DispatchError>)
        ensures
            dispatch_result_view(r) == Self::spec_call_entry(
                old(objects)@,
                receiver,
                entry,
                args@,
            ).0,
            final(objects)@ == Self::spec_call_entry(old(objects)@, receiver, entry, args@).1,
            final(objects)@.len() == old(objects)@.len(),
            forall|i: int|
                0 <= i < Self::spec_methods().len() && (#[trigger] Self::spec_methods()[i]).marshall_for(
                    spec_script_lang(),
                ) == Some(entry) ==> (r matches Ok(o) ==> (o is Some <==> Self::spec_methods()[i].ret
                is Some)),
    ;
}

} // verus!
