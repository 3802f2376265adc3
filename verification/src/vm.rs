//! The scripting runtime and its registration and dispatch protocol.
//!
//! A [`Vm`] hosts instances of one pluggable type.  Plugging an object
//! mirrors its class descriptor as a scripting class: every method gains a
//! script-callable entry named `<method>_internal`, and a class constant
//! named after the upper-cased method name smuggles the method's function
//! handle through the runtime's own value system.  The instance itself is
//! bound to a global constant holding its object handle.
//!
//! At call time the dispatch shims recover the function handle from the
//! leading argument, resolve it to the registered method, recover the
//! receiver's object handle where the method has one, and invoke the
//! pluggable type's native entry point.  A method without a native return
//! type yields the runtime's default return value, nil.

use vstd::prelude::*;
use vstd::string::StringExecFns;

use crate::descriptor::MethodSig;
use crate::handle::{HandleError, HandleTable};
use crate::marshall::{Marshall, ScriptMarshall};
use crate::pluggable::{spec_script_lang, DispatchError, Pluggable};
use crate::text;
use crate::value::Value;

verus! {

/// The name of the common base class every mirrored class extends.
pub open spec fn spec_base_class_name() -> Seq<char> {
    "PluggerObject"@
}

/// Exec counterpart of [`spec_base_class_name`].
pub fn base_class_name() -> (r: &'static str)
    ensures
        r@ == spec_base_class_name(),
{
    "PluggerObject"
}

/// Spec mirror of [`EntryDef`].
#[verifier::ext_equal]
pub struct EntrySig {
    pub name: Seq<char>,
    pub is_static: bool,
    pub arity: nat,
}

/// One script-callable entry of a mirrored class.
pub struct EntryDef {
    /// The scripting-visible entry name: the method's name with an
    /// `_internal` suffix.
    pub name: String,
    /// Whether the entry dispatches without a receiver.
    pub is_static: bool,
    /// How many declared parameters the target method has; the function
    /// handle travels in front of them.
    pub arity: usize,
}

impl View for EntryDef {
    type V = EntrySig;

    open spec fn view(&self) -> EntrySig {
        EntrySig { name: self.name@, is_static: self.is_static, arity: self.arity as nat }
    }
}

/// Spec mirror of [`RegisteredClass`].
#[verifier::ext_equal]
pub struct RegisteredClassSig {
    pub name: Seq<char>,
    pub superclass: Seq<char>,
    pub entries: Seq<EntrySig>,
    pub constants: Seq<(Seq<char>, Value)>,
}

/// One live scripting-runtime class: the mirrored entries and the class
/// constants that bind each entry to its function handle.  Created by one
/// `plug` call and destroyed only with the whole runtime.
pub struct RegisteredClass {
    pub name: String,
    pub superclass: String,
    pub entries: Vec<EntryDef>,
    pub constants: Vec<(String, Value)>,
}

impl View for RegisteredClass {
    type V = RegisteredClassSig;

    open spec fn view(&self) -> RegisteredClassSig {
        RegisteredClassSig {
            name: self.name@,
            superclass: self.superclass@,
            entries: self.entries@.map_values(|e: EntryDef| e@),
            constants: self.constants@.map_values(|c: (String, Value)| (c.0@, c.1)),
        }
    }
}

/// What a function handle resolves to: one native callable, already
/// specialized for a `(method, language)` pair of the plugged type.
#[derive(Clone, Copy, Debug, PartialEq, Eq, Structural)]
pub struct FunctionRef {
    /// The method's position in the class descriptor.
    pub method_index: usize,
    /// The per-language marshall entry code the descriptor declared.
    pub entry: u64,
    /// Whether the method dispatches without a receiver.
    pub is_static: bool,
    /// The declared parameter count.
    pub arity: usize,
    /// Whether the method declares a native return type.
    pub has_ret: bool,
}

/// Whether a function reference is consistent with the plugged type's
/// descriptor.
pub open spec fn valid_function_ref<P: Pluggable>(f: FunctionRef) -> bool {
    let ms = P::spec_methods();
    &&& f.method_index < ms.len()
    &&& ms[f.method_index as int].marshall_for(spec_script_lang()) == Some(f.entry)
    &&& f.is_static == ms[f.method_index as int].is_static
    &&& f.arity == ms[f.method_index as int].parameters.len()
    &&& f.has_ret == (ms[f.method_index as int].ret is Some)
}

/// Whether a registered class is the common base class the bootstrap
/// installs: no entries, no constants.
pub open spec fn is_base_class(rc: RegisteredClassSig) -> bool {
    &&& rc.name == spec_base_class_name()
    &&& rc.entries.len() == 0
    &&& rc.constants.len() == 0
}

/// Whether a registered class mirrors the plugged type's descriptor: one
/// entry and one constant per method, the entry named `<method>_internal`,
/// the constant named after the upper-cased method name and holding an
/// integer function handle that resolves to that method.
pub open spec fn mirrors<P: Pluggable>(
    rc: RegisteredClassSig,
    functions: Seq<Option<FunctionRef>>,
) -> bool {
    let ms = P::spec_methods();
    &&& rc.name == P::spec_name()
    &&& rc.superclass == spec_base_class_name()
    &&& rc.entries.len() == ms.len()
    &&& rc.constants.len() == ms.len()
    &&& forall|i: int|
        0 <= i < ms.len() ==> {
            let e = #[trigger] rc.entries[i];
            &&& e.name == ms[i].name + "_internal"@
            &&& e.is_static == ms[i].is_static
            &&& e.arity == ms[i].parameters.len()
        }
    &&& forall|i: int|
        0 <= i < ms.len() ==> {
            let c = #[trigger] rc.constants[i];
            &&& c.0 == text::spec_upper(ms[i].name)
            &&& c.1 matches Value::Int(n) && 0 <= n < functions.len() && (functions[n as int]
                matches Some(f) && f.method_index == i)
        }
}

/// The object handle a scripting instance carries, if the value is one.
pub open spec fn spec_receiver_handle(v: Value) -> Option<u64> {
    match v {
        Value::Object { class_name: _, handle } => Some(handle),
        _ => None,
    }
}

/// What a shim owes once a dispatch actually reaches the native entry
/// point: the arena becomes exactly what the entry point's spec says, a
/// returned value comes back unchanged, a value-less success comes back as
/// the runtime's default return value, and a native failure comes back as
/// the same failure.
pub open spec fn shim_dispatch_post<P: Pluggable>(
    pre_objects: Seq<Option<P>>,
    post_objects: Seq<Option<P>>,
    receiver: Option<u64>,
    entry: u64,
    tail: Seq<Value>,
    r: Result<Value, DispatchError>,
) -> bool {
    let outcome = P::spec_call_entry(pre_objects, receiver, entry, tail);
    &&& post_objects == outcome.1
    &&& match outcome.0 {
        Ok(Some(w)) => r matches Ok(v) && v@ == w,
        Ok(None) => r == Ok::<Value, DispatchError>(Value::Nil),
        Err(e) => r == Err::<Value, DispatchError>(e),
    }
}

/// The function handle a smuggled constant value resolves to, if any.
pub open spec fn spec_fn_handle(v: Value, functions: Seq<Option<FunctionRef>>) -> Option<
    FunctionRef,
> {
    match v {
        Value::Int(n) => if 0 <= n < functions.len() {
            functions[n as int]
        } else {
            None
        },
        _ => None,
    }
}

/// The scripting runtime: one instance services calls synchronously, owns
/// the plugged objects, and is passed explicitly to every operation.
pub struct Vm<P: Pluggable> {
    classes: Vec<RegisteredClass>,
    globals: Vec<(String, Value)>,
    objects: HandleTable<P>,
    functions: HandleTable<FunctionRef>,
}

impl<P: Pluggable> Vm<P> {
    /// The registered classes, as spec values.
    pub closed spec fn classes_view(self) -> Seq<RegisteredClassSig> {
        self.classes@.map_values(|c: RegisteredClass| c@)
    }

    /// The global constants, as (name, value) pairs.
    pub closed spec fn globals_view(self) -> Seq<(Seq<char>, Value)> {
        self.globals@.map_values(|g: (String, Value)| (g.0@, g.1))
    }

    /// The object arena's slots.
    pub closed spec fn objects_view(self) -> Seq<Option<P>> {
        self.objects@
    }

    /// The function table's slots.
    pub closed spec fn functions_view(self) -> Seq<Option<FunctionRef>> {
        self.functions@
    }

    /// The runtime's structural invariant: the bootstrap base class sits
    /// first; at most one mirrored class exists, it mirrors the plugged
    /// type's descriptor, and that descriptor is well-formed; and every
    /// issued function handle resolves to a reference consistent with the
    /// descriptor.
    pub open spec fn wf(self) -> bool {
        &&& 1 <= self.classes_view().len() <= 2
        &&& is_base_class(self.classes_view()[0])
        &&& self.classes_view().len() == 2 ==> {
            &&& mirrors::<P>(self.classes_view()[1], self.functions_view())
            &&& crate::pluggable::spec_class_of::<P>().wf()
        }
        &&& forall|n: int|
            0 <= n < self.functions_view().len() && (#[trigger] self.functions_view()[n]) is Some
                ==> valid_function_ref::<P>(self.functions_view()[n]->0)
    }

    /// Creates a runtime and runs the bootstrap: the common base class all
    /// mirrored classes extend is installed, and nothing else exists yet.
    pub fn new() -> (r: Vm<P>)
        ensures
            r.wf(),
            r.classes_view().len() == 1,
            is_base_class(r.classes_view()[0]),
            r.globals_view().len() == 0,
            r.objects_view().len() == 0,
            r.functions_view().len() == 0,
    {
        let base = RegisteredClass {
            name: String::from_str(base_class_name()),
            superclass: String::new(),
            entries: Vec::new(),
            constants: Vec::new(),
        };
        let mut classes: Vec<RegisteredClass> = Vec::new();
        classes.push(base);
        let vm = Vm {
            classes,
            globals: Vec::new(),
            objects: HandleTable::new(),
            functions: HandleTable::new(),
        };
        proof {
            assert(vm.classes_view() =~= seq![vm.classes@[0]@]);
        }
        vm
    }

    /// Resolves an object handle to the plugged object, for callers that
    /// keep handles across the boundary.
    pub fn object(&self, h: u64) -> (r: Result<&P, HandleError>)
        ensures
            match r {
                Ok(o) => h < self.objects_view().len() && self.objects_view()[h as int] == Some(*o),
                Err(HandleError::Unknown) => h >= self.objects_view().len(),
                Err(HandleError::Dangling) => h < self.objects_view().len()
                    && self.objects_view()[h as int] is None,
            },
    {
        self.objects.resolve(h)
    }

    /// Explicit teardown: empties the object's slot and returns the object.
    /// The handle goes stale, and later dispatches through it report a
    /// dangling handle.  Never called automatically.
    pub fn unregister_object(&mut self, h: u64) -> (r: Result<P, HandleError>)
        requires
            old(self).wf(),
        ensures
            final(self).wf(),
            final(self).classes_view() == old(self).classes_view(),
            final(self).globals_view() == old(self).globals_view(),
            final(self).functions_view() == old(self).functions_view(),
            match r {
                Ok(o) => {
                    &&& h < old(self).objects_view().len()
                    &&& old(self).objects_view()[h as int] == Some(o)
                    &&& final(self).objects_view() == old(self).objects_view().update(h as int, None)
                },
                Err(HandleError::Unknown) => h >= old(self).objects_view().len()
                    && final(self).objects_view() == old(self).objects_view(),
                Err(HandleError::Dangling) => h < old(self).objects_view().len() && old(
                    self,
                ).objects_view()[h as int] is None && final(self).objects_view() == old(
                    self,
                ).objects_view(),
            },
    {
        self.objects.unregister(h)
    }

    /// The tail of a shim's argument vector: everything after the leading
    /// function handle.
    fn tail_arguments(argv: &Vec<Value>) -> (r: Vec<Value>)
        requires
            argv@.len() >= 1,
        ensures
            r@ == argv@.skip(1),
    {
        let mut r: Vec<Value> = Vec::new();
        let n = argv.len();
        let mut i: usize = 1;
        while i < n
            invariant
                1 <= i <= n,
                n == argv@.len(),
                r@ == argv@.subrange(1, i as int),
            decreases n - i,
        {
            r.push(argv[i].duplicate());
            proof {
                assert(argv@.subrange(1, i as int + 1) =~= argv@.subrange(1, i as int).push(
                    argv@[i as int],
                ));
            }
            i += 1;
        }
        proof {
            assert(argv@.subrange(1, n as int) =~= argv@.skip(1));
        }
        r
    }

    /// Reads the function handle from a shim's leading argument and
    /// resolves it.
    fn resolve_shim_function(&self, argv: &Vec<Value>) -> (r: Option<FunctionRef>)
        ensures
            r == if argv@.len() >= 1 {
                spec_fn_handle(argv@[0], self.functions_view())
            } else {
                None::<FunctionRef>
            },
    {
        if argv.len() == 0 {
            return None;
        }
        let issued = self.functions.issued();
        match &argv[0] {
            Value::Int(n) => {
                if *n < 0 || *n >= issued as i128 {
                    None
                } else {
                    match self.functions.resolve(*n as u64) {
                        Ok(f) => Some(*f),
                        Err(_) => None,
                    }
                }
            },
            _ => None,
        }
    }

    /// The shim behind every instance entry.  The leading argument is the
    /// function handle the class constant smuggled in; the receiver is the
    /// scripting instance, whose `object_pointer` is its object handle.
    ///
    /// A method without a native return type always yields the runtime's
    /// default return value, never an absent result.
    pub fn method_shim(&mut self, receiver: &Value, argv: &Vec<Value>) -> (r: Result<
        Value,
        DispatchError,
    >)
        requires
            old(self).wf(),
        ensures
            final(self).wf(),
            final(self).classes_view() == old(self).classes_view(),
            final(self).globals_view() == old(self).globals_view(),
            final(self).functions_view() == old(self).functions_view(),
            final(self).objects_view().len() == old(self).objects_view().len(),
            spec_fn_handle_of(argv@, old(self).functions_view()) is None ==> r == Err::<
                Value,
                DispatchError,
            >(DispatchError::BadFunctionHandle),
            spec_fn_handle_of(argv@, old(self).functions_view()) matches Some(f) ==> {
                &&& f.is_static ==> r == Err::<Value, DispatchError>(DispatchError::WrongProtocol)
                &&& !f.is_static && argv@.len() - 1 != f.arity ==> r == Err::<
                    Value,
                    DispatchError,
                >(DispatchError::WrongArity)
                &&& !f.is_static && argv@.len() - 1 == f.arity && !(receiver matches Value::Object {
                    ..
                }) ==> r == Err::<Value, DispatchError>(DispatchError::NoReceiver)
                &&& r matches Ok(v) ==> {
                    &&& !f.is_static
                    &&& argv@.len() - 1 == f.arity
                    &&& receiver matches Value::Object { .. }
                    &&& !f.has_ret ==> v == Value::Nil
                }
                &&& {
                    let rh = spec_receiver_handle(*receiver);
                    (!f.is_static && argv@.len() - 1 == f.arity && rh is Some)
                        ==> shim_dispatch_post::<P>(
                        old(self).objects_view(),
                        final(self).objects_view(),
                        rh,
                        f.entry,
                        argv@.skip(1),
                        r,
                    )
                }
            },
    {
        let f = match self.resolve_shim_function(argv) {
            Some(f) => f,
            None => {
                return Err(DispatchError::BadFunctionHandle);
            },
        };
        if f.is_static {
            return Err(DispatchError::WrongProtocol);
        }
        if argv.len() - 1 != f.arity {
            return Err(DispatchError::WrongArity);
        }
        let handle: u64 = match receiver {
            Value::Object { class_name: _, handle } => *handle,
            _ => {
                return Err(DispatchError::NoReceiver);
            },
        };
        let args = Self::tail_arguments(argv);
        let outcome = P::call_entry(&mut self.objects, Some(handle), f.entry, &args);
        match outcome {
            Ok(Some(v)) => Ok(v),
            Ok(None) => {
                match ScriptMarshall::default_return_value() {
                    Some(d) => Ok(d),
                    None => Ok(Value::Nil),
                }
            },
            Err(e) => Err(e),
        }
    }

    /// The shim behind every singleton (static) entry: exactly the instance
    /// shim without a receiver, so a static method needs no instance at
    /// all.
    pub fn function_shim(&mut self, argv: &Vec<Value>) -> (r: Result<Value, DispatchError>)
        requires
            old(self).wf(),
        ensures
            final(self).wf(),
            final(self).classes_view() == old(self).classes_view(),
            final(self).globals_view() == old(self).globals_view(),
            final(self).functions_view() == old(self).functions_view(),
            final(self).objects_view().len() == old(self).objects_view().len(),
            spec_fn_handle_of(argv@, old(self).functions_view()) is None ==> r == Err::<
                Value,
                DispatchError,
            >(DispatchError::BadFunctionHandle),
            spec_fn_handle_of(argv@, old(self).functions_view()) matches Some(f) ==> {
                &&& !f.is_static ==> r == Err::<Value, DispatchError>(DispatchError::WrongProtocol)
                &&& f.is_static && argv@.len() - 1 != f.arity ==> r == Err::<
                    Value,
                    DispatchError,
                >(DispatchError::WrongArity)
                &&& r matches Ok(v) ==> {
                    &&& f.is_static
                    &&& argv@.len() - 1 == f.arity
                    &&& !f.has_ret ==> v == Value::Nil
                }
                &&& f.is_static && argv@.len() - 1 == f.arity ==> shim_dispatch_post::<P>(
                    old(self).objects_view(),
                    final(self).objects_view(),
                    None,
                    f.entry,
                    argv@.skip(1),
                    r,
                )
            },
    {
        let f = match self.resolve_shim_function(argv) {
            Some(f) => f,
            None => {
                return Err(DispatchError::BadFunctionHandle);
            },
        };
        if !f.is_static {
            return Err(DispatchError::WrongProtocol);
        }
        if argv.len() - 1 != f.arity {
            return Err(DispatchError::WrongArity);
        }
        let args = Self::tail_arguments(argv);
        let outcome = P::call_entry(&mut self.objects, None, f.entry, &args);
        match outcome {
            Ok(Some(v)) => Ok(v),
            Ok(None) => {
                match ScriptMarshall::default_return_value() {
                    Some(d) => Ok(d),
                    None => Ok(Value::Nil),
                }
            },
            Err(e) => Err(e),
        }
    }
}

/// Whether some global constant already bears a name.
pub open spec fn spec_global_taken(globals: Seq<(Seq<char>, Value)>, name: Seq<char>) -> bool {
    exists|i: int| 0 <= i < globals.len() && (#[trigger] globals[i]).0 == name
}

impl<P: Pluggable> Vm<P> {
    /// How many global constants are bound.
    pub(crate) fn global_count(&self) -> (r: usize)
        ensures
            r == self.globals_view().len(),
    {
        self.globals.len()
    }

    /// One global constant's name.
    pub(crate) fn global_name(&self, i: usize) -> (r: &String)
        requires
            i < self.globals_view().len(),
        ensures
            r@ == self.globals_view()[i as int].0,
    {
        &self.globals[i].0
    }

    /// One global constant's value.
    pub(crate) fn global_value(&self, i: usize) -> (r: &Value)
        requires
            i < self.globals_view().len(),
        ensures
            *r == self.globals_view()[i as int].1,
    {
        &self.globals[i].1
    }

    /// How many classes are registered.
    pub(crate) fn class_count(&self) -> (r: usize)
        ensures
            r == self.classes_view().len(),
    {
        self.classes.len()
    }

    /// One registered class.
    pub(crate) fn class_at(&self, k: usize) -> (r: &RegisteredClass)
        requires
            k < self.classes_view().len(),
        ensures
            r@ == self.classes_view()[k as int],
    {
        &self.classes[k]
    }

    /// The first global constant with a name, if any.
    pub(crate) fn find_global_index(&self, name: &String) -> (r: Option<usize>)
        ensures
            match r {
                Some(i) => {
                    &&& i < self.globals_view().len()
                    &&& self.globals_view()[i as int].0 == name@
                    &&& forall|j: int|
                        0 <= j < i ==> (#[trigger] self.globals_view()[j]).0 != name@
                },
                None => forall|j: int|
                    0 <= j < self.globals_view().len() ==> (#[trigger] self.globals_view()[j]).0
                        != name@,
            },
            r is Some <==> spec_global_taken(self.globals_view(), name@),
    {
        let n = self.globals.len();
        let mut i: usize = 0;
        while i < n
            invariant
                0 <= i <= n,
                n == self.globals_view().len(),
                forall|j: int| 0 <= j < i ==> (#[trigger] self.globals_view()[j]).0 != name@,
            decreases n - i,
        {
            let matched = self.globals[i].0.eq(name);
            proof {
                assert(self.globals_view()[i as int] == (self.globals@[i as int].0@,
                self.globals@[i as int].1));
            }
            if matched {
                return Some(i);
            }
            i += 1;
        }
        None
    }
}

/// Why a `plug` call was refused.  Registration is atomic: a refused plug
/// leaves the runtime exactly as it was.
#[derive(Clone, Copy, Debug, PartialEq, Eq, Structural)]
pub enum PlugError {
    /// The descriptor is not fit for mirroring: a name is not a simple
    /// identifier, two method names collide once upper-cased, or the class
    /// name is the base class's.
    InvalidDescriptor,
    /// The scripting-visible name is already bound as a global constant.
    DuplicateName,
    /// A method descriptor lacks a marshall entry for this runtime's
    /// language.
    MissingMarshall,
}

impl<P: Pluggable> Vm<P> {
    /// Plugs one native object into the runtime under a scripting-visible
    /// name.
    ///
    /// On the first plug of the type, the class descriptor is mirrored: one
    /// `<method>_internal` entry and one upper-cased class constant per
    /// method, the constant holding the method's freshly registered function
    /// handle.  The object is registered in the handle table, and the new
    /// scripting instance — carrying that object handle — is bound to the
    /// global constant named by the upper-cased `name`.  After `plug`
    /// returns, scripting code can call every described method on that
    /// constant.
    pub fn plug(&mut self, name: &str, object: P) -> (r: Result<u64, PlugError>)
        requires
            old(self).wf(),
        ensures
            final(self).wf(),
            match r {
                Ok(h) => {
                    &&& crate::pluggable::spec_class_of::<P>().wf()
                    &&& P::spec_name() != spec_base_class_name()
                    &&& !spec_global_taken(
                        old(self).globals_view(),
                        text::spec_upper(name@),
                    )
                    &&& forall|i: int|
                        0 <= i < P::spec_methods().len() ==> (#[trigger] P::spec_methods()[i]).marshall_for(
                            spec_script_lang(),
                        ) is Some
                    &&& h == old(self).objects_view().len()
                    &&& final(self).objects_view() == old(self).objects_view().push(Some(object))
                    &&& final(self).globals_view().len() == old(self).globals_view().len() + 1
                    &&& final(self).globals_view().drop_last() == old(self).globals_view()
                    &&& final(self).globals_view().last().0 == text::spec_upper(name@)
                    &&& final(self).globals_view().last().1 matches Value::Object {
                        class_name,
                        handle,
                    } && class_name@ == P::spec_name() && handle == h
                    &&& final(self).classes_view().len() == 2
                    &&& final(self).classes_view()[0] == old(self).classes_view()[0]
                    &&& old(self).functions_view().len() <= final(self).functions_view().len()
                    &&& forall|n: int|
                        0 <= n < old(self).functions_view().len()
                            ==> #[trigger] final(self).functions_view()[n] == old(
                            self,
                        ).functions_view()[n]
                    &&& old(self).classes_view().len() == 2 ==> final(self).classes_view() == old(
                        self,
                    ).classes_view() && final(self).functions_view() == old(self).functions_view()
                },
                Err(PlugError::InvalidDescriptor) => {
                    &&& !crate::pluggable::spec_class_of::<P>().wf() || P::spec_name()
                        == spec_base_class_name()
                    &&& *final(self) == *old(self)
                },
                Err(PlugError::DuplicateName) => {
                    &&& crate::pluggable::spec_class_of::<P>().wf()
                    &&& P::spec_name() != spec_base_class_name()
                    &&& spec_global_taken(old(self).globals_view(), text::spec_upper(name@))
                    &&& *final(self) == *old(self)
                },
                Err(PlugError::MissingMarshall) => {
                    &&& crate::pluggable::spec_class_of::<P>().wf()
                    &&& P::spec_name() != spec_base_class_name()
                    &&& !spec_global_taken(
                        old(self).globals_view(),
                        text::spec_upper(name@),
                    )
                    &&& exists|i: int|
                        0 <= i < P::spec_methods().len() && (#[trigger] P::spec_methods()[i]).marshall_for(
                            spec_script_lang(),
                        ) is None
                    &&& *final(self) == *old(self)
                },
            },
    {
        let class = object.class();
        if !class.check_wf() {
            return Err(PlugError::InvalidDescriptor);
        }
        if class.name.eq(&String::from_str(base_class_name())) {
            return Err(PlugError::InvalidDescriptor);
        }
        let constant_name = text::to_upper(name);
        if self.find_global_index(&constant_name).is_some() {
            return Err(PlugError::DuplicateName);
        }
        let lang = crate::pluggable::script_lang();
        let method_count = class.methods.len();
        let mut codes: Vec<u64> = Vec::new();
        let mut i: usize = 0;
        while i < method_count
            invariant
                *self == *old(self),
                old(self).wf(),
                crate::pluggable::spec_class_of::<P>().wf(),
                P::spec_name() != spec_base_class_name(),
                !spec_global_taken(old(self).globals_view(), text::spec_upper(name@)),
                constant_name@ == text::spec_upper(name@),
                0 <= i <= method_count,
                method_count == class.methods@.len(),
                class@ == crate::pluggable::spec_class_of::<P>(),
                lang@ == spec_script_lang(),
                codes@.len() == i,
                forall|j: int|
                    0 <= j < i ==> (#[trigger] P::spec_methods()[j]).marshall_for(
                        spec_script_lang(),
                    ) == Some(codes@[j]),
            decreases method_count - i,
        {
            proof {
                assert(class.methods@[i as int]@ == P::spec_methods()[i as int]);
            }
            match class.methods[i].marshall(lang) {
                Some(code) => {
                    codes.push(code);
                },
                None => {
                    return Err(PlugError::MissingMarshall);
                },
            }
            i += 1;
        }
        if self.classes.len() == 1 {
            self.mirror_class(&class, &codes);
        }
        let h = self.objects.register(object);
        let instance = Value::Object { class_name: class.name, handle: h };
        self.globals.push((constant_name, instance));
        proof {
            assert(self.globals_view() =~= old(self).globals_view().push(
                (text::spec_upper(name@), (Value::Object { class_name: class.name, handle: h })),
            ));
            assert(self.globals_view().drop_last() =~= old(self).globals_view());
        }
        Ok(h)
    }

    /// Mirrors the class descriptor into the runtime: registers one function
    /// handle per method and installs the scripting class with its entries
    /// and constants.
    fn mirror_class(&mut self, class: &crate::descriptor::Class, codes: &Vec<u64>)
        requires
            old(self).wf(),
            old(self).classes_view().len() == 1,
            class@ == crate::pluggable::spec_class_of::<P>(),
            class@.wf(),
            codes@.len() == P::spec_methods().len(),
            forall|j: int|
                0 <= j < P::spec_methods().len() ==> (#[trigger] P::spec_methods()[j]).marshall_for(
                    spec_script_lang(),
                ) == Some(codes@[j]),
        ensures
            final(self).wf(),
            final(self).classes_view().len() == 2,
            final(self).classes_view()[0] == old(self).classes_view()[0],
            final(self).globals_view() == old(self).globals_view(),
            final(self).objects_view() == old(self).objects_view(),
            old(self).functions_view().len() <= final(self).functions_view().len(),
            forall|n: int|
                0 <= n < old(self).functions_view().len()
                    ==> #[trigger] final(self).functions_view()[n] == old(
                    self,
                ).functions_view()[n],
    {
        let method_count = class.methods.len();
        let mut entries: Vec<EntryDef> = Vec::new();
        let mut constants: Vec<(String, Value)> = Vec::new();
        let mut i: usize = 0;
        while i < method_count
            invariant
                0 <= i <= method_count,
                method_count == class.methods@.len(),
                class@ == crate::pluggable::spec_class_of::<P>(),
                codes@.len() == P::spec_methods().len(),
                forall|j: int|
                    0 <= j < P::spec_methods().len() ==> (#[trigger] P::spec_methods()[j]).marshall_for(
                        spec_script_lang(),
                    ) == Some(codes@[j]),
                self.classes_view() == old(self).classes_view(),
                self.globals_view() == old(self).globals_view(),
                self.objects_view() == old(self).objects_view(),
                old(self).functions_view().len() <= self.functions_view().len(),
                forall|k: int|
                    0 <= k < old(self).functions_view().len() ==> #[trigger] self.functions_view()[k]
                        == old(self).functions_view()[k],
                forall|k: int|
                    0 <= k < self.functions_view().len() ==> ((#[trigger] self.functions_view()[k])
                        is Some ==> valid_function_ref::<P>(self.functions_view()[k]->0)),
                entries@.len() == i,
                constants@.len() == i,
                forall|j: int|
                    0 <= j < i ==> {
                        let e = (#[trigger] entries@[j])@;
                        &&& e.name == P::spec_methods()[j].name + "_internal"@
                        &&& e.is_static == P::spec_methods()[j].is_static
                        &&& e.arity == P::spec_methods()[j].parameters.len()
                    },
                forall|j: int|
                    0 <= j < i ==> {
                        let c = #[trigger] constants@[j];
                        &&& c.0@ == text::spec_upper(P::spec_methods()[j].name)
                        &&& c.1 matches Value::Int(n) && 0 <= n < self.functions_view().len() && (
                        self.functions_view()[n as int] matches Some(f) && f.method_index == j)
                    },
            decreases method_count - i,
        {
            let m = &class.methods[i];
            proof {
                assert(class.methods@[i as int]@ == P::spec_methods()[i as int]);
            }
            let entry_code = codes[i];
            let fref = FunctionRef {
                method_index: i,
                entry: entry_code,
                is_static: m.is_static,
                arity: m.parameters.len(),
                has_ret: m.ret.is_some(),
            };
            let fh = self.functions.register(fref);
            entries.push(
                EntryDef {
                    name: m.name.clone().concat("_internal"),
                    is_static: m.is_static,
                    arity: m.parameters.len(),
                },
            );
            constants.push((text::to_upper(m.name.as_str()), Value::Int(fh as i128)));
            i += 1;
        }
        let rc = RegisteredClass {
            name: class.name.clone(),
            superclass: String::from_str(base_class_name()),
            entries,
            constants,
        };
        self.classes.push(rc);
        proof {
            assert(self.classes_view() =~= old(self).classes_view().push(rc@));
            assert(mirrors::<P>(self.classes_view()[1], self.functions_view()));
        }
    }
}

/// Cross-object argument passing rests on handle identity: a plug binds
/// the fresh handle to exactly the plugged object and leaves every earlier
/// slot untouched, so an argument naming another plugged instance resolves,
/// inside native code, to the very same object state.  The hypotheses are
/// what [`Vm::plug`] ensures of the object arena on success.
pub proof fn lemma_plugged_object_identity<P: Pluggable>(
    pre: Vm<P>,
    post: Vm<P>,
    object: P,
    h: u64,
)
    requires
        post.objects_view() == pre.objects_view().push(Some(object)),
        h == pre.objects_view().len(),
    ensures
        post.objects_view()[h as int] == Some(object),
        forall|g: int|
            0 <= g < pre.objects_view().len() ==> post.objects_view()[g] == pre.objects_view()[g],
{
}

/// The function reference a shim's argument vector designates: `None` when
/// the vector is empty or its leading value is not a resolvable integer
/// function handle.
pub open spec fn spec_fn_handle_of(
    argv: Seq<Value>,
    functions: Seq<Option<FunctionRef>>,
) -> Option<FunctionRef> {
    if argv.len() >= 1 {
        spec_fn_handle(argv[0], functions)
    } else {
        None
    }
}

} // verus!
