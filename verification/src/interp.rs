//! The evaluation surface: one expression in, the result's human-readable
//! rendering out.
//!
//! `eval` parses the expression, resolves the receiver among the global
//! constants and the registered classes, finds the `<method>_internal` entry
//! and the upper-cased class constant the registration engine installed,
//! and hands the smuggled function handle together with the argument values
//! to the matching dispatch shim.  Every resolution failure is a typed
//! [`ErrorKind`]; only a parse failure is a syntax error.

use vstd::prelude::*;

use crate::parse::{parse, spec_parse, Ast, AstSig};
use crate::pluggable::{DispatchError, Pluggable};
use crate::text;
use crate::value::Value;
use crate::vm::{
    shim_dispatch_post, spec_receiver_handle, EntrySig, RegisteredClass, RegisteredClassSig, Vm,
};

verus! {

/// Why an evaluation failed.
#[derive(Clone, Copy, Debug, PartialEq, Eq, Structural)]
pub enum ErrorKind {
    /// The expression is outside the evaluator's grammar.
    Syntax,
    /// A name resolves to neither a global constant nor a class.
    UnknownName,
    /// The receiver has no entry under the method's name.
    NoMethod,
    /// The argument count does not match the entry.
    Arity,
    /// The dispatch itself aborted.
    Dispatch(DispatchError),
}

/// The first value bound under a name in an association list.
pub open spec fn spec_assoc(entries: Seq<(Seq<char>, Value)>, key: Seq<char>) -> Option<Value>
    decreases entries.len(),
{
    if entries.len() == 0 {
        None
    } else if entries[0].0 == key {
        Some(entries[0].1)
    } else {
        spec_assoc(entries.drop_first(), key)
    }
}

/// What [`spec_assoc`] returns: the first pair bearing the key, if any.
pub proof fn lemma_assoc_props(entries: Seq<(Seq<char>, Value)>, key: Seq<char>)
    ensures
        match spec_assoc(entries, key) {
            Some(v) => exists|i: int|
                {
                    &&& 0 <= i < entries.len()
                    &&& (#[trigger] entries[i]).0 == key
                    &&& entries[i].1 == v
                    &&& forall|j: int| 0 <= j < i ==> (#[trigger] entries[j]).0 != key
                },
            None => forall|j: int|
                0 <= j < entries.len() ==> (#[trigger] entries[j]).0 != key,
        },
    decreases entries.len(),
{
    if entries.len() > 0 && entries[0].0 != key {
        lemma_assoc_props(entries.drop_first(), key);
        match spec_assoc(entries, key) {
            Some(v) => {
                let i = choose|i: int|
                    {
                        &&& 0 <= i < entries.drop_first().len()
                        &&& (#[trigger] entries.drop_first()[i]).0 == key
                        &&& entries.drop_first()[i].1 == v
                        &&& forall|j: int|
                            0 <= j < i ==> (#[trigger] entries.drop_first()[j]).0 != key
                    };
                assert(entries[i + 1] == entries.drop_first()[i]);
                assert forall|j: int| 0 <= j < i + 1 implies (#[trigger] entries[j]).0 != key by {
                    if j > 0 {
                        assert(entries.drop_first()[j - 1] == entries[j]);
                    }
                }
            },
            None => {
                assert forall|j: int| 0 <= j < entries.len() implies (#[trigger] entries[j]).0
                    != key by {
                    if j > 0 {
                        assert(entries.drop_first()[j - 1] == entries[j]);
                    }
                }
            },
        }
    }
}

/// A ground first-match pins [`spec_assoc`] down.
pub proof fn lemma_assoc_at(entries: Seq<(Seq<char>, Value)>, key: Seq<char>, i: int)
    requires
        0 <= i <= entries.len(),
        forall|j: int| 0 <= j < i ==> (#[trigger] entries[j]).0 != key,
        i < entries.len() ==> entries[i].0 == key,
    ensures
        spec_assoc(entries, key) == if i < entries.len() {
            Some(entries[i].1)
        } else {
            None::<Value>
        },
    decreases i,
{
    if i == 0 {
        if entries.len() > 0 && entries[0].0 != key {
            lemma_assoc_at(entries.drop_first(), key, 0);
        }
    } else {
        assert forall|j: int| 0 <= j < i - 1 implies (#[trigger] entries.drop_first()[j]).0
            != key by {
            assert(entries.drop_first()[j] == entries[j + 1]);
        }
        if i < entries.len() {
            assert(entries.drop_first()[i - 1] == entries[i]);
        }
        lemma_assoc_at(entries.drop_first(), key, i - 1);
    }
}

/// The position of the first class bearing a name, if any.
pub open spec fn spec_class_index(classes: Seq<RegisteredClassSig>, name: Seq<char>) -> Option<
    int,
>
    decreases classes.len(),
{
    if classes.len() == 0 {
        None
    } else if classes[0].name == name {
        Some(0)
    } else {
        match spec_class_index(classes.drop_first(), name) {
            Some(i) => Some(i + 1),
            None => None,
        }
    }
}

/// A ground first-match pins [`spec_class_index`] down.
pub proof fn lemma_class_index_at(classes: Seq<RegisteredClassSig>, name: Seq<char>, i: int)
    requires
        0 <= i <= classes.len(),
        forall|j: int| 0 <= j < i ==> (#[trigger] classes[j]).name != name,
        i < classes.len() ==> classes[i].name == name,
    ensures
        spec_class_index(classes, name) == if i < classes.len() {
            Some(i)
        } else {
            None::<int>
        },
    decreases i,
{
    if i == 0 {
        if classes.len() > 0 && classes[0].name != name {
            lemma_class_index_at(classes.drop_first(), name, 0);
        }
    } else {
        assert forall|j: int| 0 <= j < i - 1 implies (#[trigger] classes.drop_first()[j]).name
            != name by {
            assert(classes.drop_first()[j] == classes[j + 1]);
        }
        if i < classes.len() {
            assert(classes.drop_first()[i - 1] == classes[i]);
        }
        lemma_class_index_at(classes.drop_first(), name, i - 1);
    }
}

/// The position of the first entry bearing a name and dispatch kind, if
/// any.
pub open spec fn spec_entry_index(entries: Seq<EntrySig>, name: Seq<char>, is_static: bool) -> Option<
    int,
>
    decreases entries.len(),
{
    if entries.len() == 0 {
        None
    } else if entries[0].name == name && entries[0].is_static == is_static {
        Some(0)
    } else {
        match spec_entry_index(entries.drop_first(), name, is_static) {
            Some(i) => Some(i + 1),
            None => None,
        }
    }
}

/// What [`spec_entry_index`] returns.
pub proof fn lemma_entry_index_props(entries: Seq<EntrySig>, name: Seq<char>, is_static: bool)
    ensures
        match spec_entry_index(entries, name, is_static) {
            Some(i) => {
                &&& 0 <= i < entries.len()
                &&& entries[i].name == name
                &&& entries[i].is_static == is_static
                &&& forall|j: int|
                    0 <= j < i ==> !((#[trigger] entries[j]).name == name && entries[j].is_static
                        == is_static)
            },
            None => forall|j: int|
                0 <= j < entries.len() ==> !((#[trigger] entries[j]).name == name
                    && entries[j].is_static == is_static),
        },
    decreases entries.len(),
{
    if entries.len() > 0 && !(entries[0].name == name && entries[0].is_static == is_static) {
        lemma_entry_index_props(entries.drop_first(), name, is_static);
        match spec_entry_index(entries.drop_first(), name, is_static) {
            Some(i) => {
                assert(entries[i + 1] == entries.drop_first()[i]);
                assert forall|j: int| 0 <= j < i + 1 implies !((#[trigger] entries[j]).name == name
                    && entries[j].is_static == is_static) by {
                    if j > 0 {
                        assert(entries.drop_first()[j - 1] == entries[j]);
                    }
                }
            },
            None => {
                assert forall|j: int| 0 <= j < entries.len() implies !((#[trigger] entries[j]).name
                    == name && entries[j].is_static == is_static) by {
                    if j > 0 {
                        assert(entries.drop_first()[j - 1] == entries[j]);
                    }
                }
            },
        }
    }
}

/// A ground first-match pins [`spec_entry_index`] down.
pub proof fn lemma_entry_index_at(entries: Seq<EntrySig>, name: Seq<char>, is_static: bool, i: int)
    requires
        0 <= i <= entries.len(),
        forall|j: int|
            0 <= j < i ==> !((#[trigger] entries[j]).name == name && entries[j].is_static
                == is_static),
        i < entries.len() ==> entries[i].name == name && entries[i].is_static == is_static,
    ensures
        spec_entry_index(entries, name, is_static) == if i < entries.len() {
            Some(i)
        } else {
            None::<int>
        },
    decreases i,
{
    if i == 0 {
        if entries.len() > 0 && !(entries[0].name == name && entries[0].is_static == is_static) {
            lemma_entry_index_at(entries.drop_first(), name, is_static, 0);
        }
    } else {
        assert forall|j: int| 0 <= j < i - 1 implies !((#[trigger] entries.drop_first()[j]).name
            == name && entries.drop_first()[j].is_static == is_static) by {
            assert(entries.drop_first()[j] == entries[j + 1]);
        }
        if i < entries.len() {
            assert(entries.drop_first()[i - 1] == entries[i]);
        }
        lemma_entry_index_at(entries.drop_first(), name, is_static, i - 1);
    }
}

/// Static and instance dispatch never share a name: on a mirrored class, a
/// method name resolves as a class-level (singleton) entry or as an
/// instance entry, but not both.  A method declared without a receiver is
/// therefore reached only through the receiver-less dispatch path, and a
/// method with a receiver only through a bound instance.
pub proof fn lemma_static_instance_disjoint<P: Pluggable>(vm: Vm<P>, k: int, method: Seq<char>)
    requires
        vm.wf(),
        1 <= k < vm.classes_view().len(),
    ensures
        !(spec_entry_index(vm.classes_view()[k].entries, method + "_internal"@, true) is Some
            && spec_entry_index(vm.classes_view()[k].entries, method + "_internal"@, false)
            is Some),
{
    let rc = vm.classes_view()[k];
    let ms = P::spec_methods();
    let entry_name = method + "_internal"@;
    lemma_entry_index_props(rc.entries, entry_name, true);
    lemma_entry_index_props(rc.entries, entry_name, false);
    if spec_entry_index(rc.entries, entry_name, true) is Some && spec_entry_index(
        rc.entries,
        entry_name,
        false,
    ) is Some {
        let i = spec_entry_index(rc.entries, entry_name, true)->0;
        let j = spec_entry_index(rc.entries, entry_name, false)->0;
        assert(crate::vm::mirrors::<P>(rc, vm.functions_view()));
        assert(rc.entries[i].name == ms[i].name + "_internal"@);
        assert(rc.entries[j].name == ms[j].name + "_internal"@);
        lemma_append_cancel(ms[i].name, ms[j].name, "_internal"@);
        assert(crate::pluggable::spec_class_of::<P>().wf());
        if i != j {
            assert(text::spec_upper(ms[i].name) == text::spec_upper(ms[j].name));
            assert(false);
        }
        assert(rc.entries[i].is_static != rc.entries[j].is_static);
        assert(false);
    }
}

/// A method declared with a receiver is never reachable as a class-level
/// entry: on a mirrored class, its name does not resolve among the
/// singleton entries, so invoking it on the class itself ends in the
/// evaluator's no-method error rather than in a dispatch.  (Conversely, a
/// method declared without a receiver resolves among the singleton entries
/// and dispatches with no instance bound at all.)
pub proof fn lemma_instance_needs_receiver<P: Pluggable>(vm: Vm<P>, k: int, i: int)
    requires
        vm.wf(),
        1 <= k < vm.classes_view().len(),
        0 <= i < P::spec_methods().len(),
        !P::spec_methods()[i].is_static,
    ensures
        spec_entry_index(
            vm.classes_view()[k].entries,
            P::spec_methods()[i].name + "_internal"@,
            true,
        ) is None,
{
    let rc = vm.classes_view()[k];
    let ms = P::spec_methods();
    let entry_name = ms[i].name + "_internal"@;
    lemma_entry_index_props(rc.entries, entry_name, true);
    assert(crate::vm::mirrors::<P>(rc, vm.functions_view()));
    if spec_entry_index(rc.entries, entry_name, true) is Some {
        let j = spec_entry_index(rc.entries, entry_name, true)->0;
        assert(rc.entries[j].name == ms[j].name + "_internal"@);
        lemma_append_cancel(ms[j].name, ms[i].name, "_internal"@);
        assert(crate::pluggable::spec_class_of::<P>().wf());
        if i != j {
            assert(text::spec_upper(ms[i].name) == text::spec_upper(ms[j].name));
            assert(false);
        }
        assert(rc.entries[i].is_static == ms[i].is_static);
        assert(false);
    }
}

/// Appending the same suffix to different sequences keeps them different.
pub proof fn lemma_append_cancel(s1: Seq<char>, s2: Seq<char>, t: Seq<char>)
    requires
        s1 + t == s2 + t,
    ensures
        s1 == s2,
{
    assert((s1 + t).len() == s1.len() + t.len());
    assert((s2 + t).len() == s2.len() + t.len());
    assert(s1 =~= (s1 + t).subrange(0, s1.len() as int));
    assert(s2 =~= (s2 + t).subrange(0, s2.len() as int));
}

/// What the dispatch promises once the shim has run, stated over the
/// descriptor: a method without a native return type yields nil, and any
/// failure is a dispatch failure.
pub open spec fn dispatch_outcome_post<P: Pluggable>(
    k: int,
    e: int,
    r: Result<Value, ErrorKind>,
) -> bool {
    &&& (r matches Ok(v) ==> ((1 <= k && 0 <= e < P::spec_methods().len()
        && P::spec_methods()[e].ret is None) ==> v == Value::Nil))
    &&& (r matches Err(err) ==> err matches ErrorKind::Dispatch(_))
}

/// The values an argument list of constant names resolves to.
pub open spec fn resolved_args(globals: Seq<(Seq<char>, Value)>, args: Seq<Seq<char>>) -> Seq<
    Value,
> {
    args.map_values(|a: Seq<char>| spec_assoc(globals, a)->0)
}

/// What a fully resolved evaluation dispatch yields: the native entry
/// point's spec fixes the arena and the outcome; a returned value comes
/// back unchanged, a value-less success comes back as nil, and a native
/// failure comes back wrapped as a dispatch error.
pub open spec fn eval_dispatch_post<P: Pluggable>(
    pre: Vm<P>,
    recv: Option<u64>,
    entry: u64,
    vals: Seq<Value>,
    r: Result<Value, ErrorKind>,
    post_objects: Seq<Option<P>>,
) -> bool {
    let outcome = P::spec_call_entry(pre.objects_view(), recv, entry, vals);
    &&& post_objects == outcome.1
    &&& match outcome.0 {
        Ok(Some(w)) => r matches Ok(v) && v@ == w,
        Ok(None) => r == Ok::<Value, ErrorKind>(Value::Nil),
        Err(e) => r == Err::<Value, ErrorKind>(ErrorKind::Dispatch(e)),
    }
}

/// How a method call on the class at position `k` resolves and what its
/// result and arena effect are.
pub open spec fn entry_call_post<P: Pluggable>(
    pre: Vm<P>,
    k: int,
    is_static: bool,
    recv: Option<u64>,
    method: Seq<char>,
    args: Seq<Seq<char>>,
    r: Result<Value, ErrorKind>,
    post_objects: Seq<Option<P>>,
) -> bool {
    let rc = pre.classes_view()[k];
    match spec_entry_index(rc.entries, method + "_internal"@, is_static) {
        None => r == Err::<Value, ErrorKind>(ErrorKind::NoMethod) && post_objects
            == pre.objects_view(),
        Some(e) => {
            if rc.entries[e].arity != args.len() {
                r == Err::<Value, ErrorKind>(ErrorKind::Arity) && post_objects
                    == pre.objects_view()
            } else if exists|j: int|
                0 <= j < args.len() && spec_assoc(pre.globals_view(), #[trigger] args[j]) is None {
                r == Err::<Value, ErrorKind>(ErrorKind::UnknownName) && post_objects
                    == pre.objects_view()
            } else {
                match spec_assoc(rc.constants, text::spec_upper(method)) {
                    None => r == Err::<Value, ErrorKind>(ErrorKind::NoMethod) && post_objects
                        == pre.objects_view(),
                    Some(cv) => {
                        &&& dispatch_outcome_post::<P>(k, e, r)
                        &&& match crate::vm::spec_fn_handle(cv, pre.functions_view()) {
                            Some(f) => eval_dispatch_post::<P>(
                                pre,
                                recv,
                                f.entry,
                                resolved_args(pre.globals_view(), args),
                                r,
                                post_objects,
                            ),
                            None => post_objects.len() == pre.objects_view().len(),
                        }
                    },
                }
            }
        },
    }
}

/// How one expression resolves against a runtime state, and what its
/// result and arena effect are.  Resolution failures are pinned exactly;
/// a resolved dispatch is pinned to the native entry point's spec.
pub open spec fn run_post<P: Pluggable>(
    pre: Vm<P>,
    ast: AstSig,
    r: Result<Value, ErrorKind>,
    post_objects: Seq<Option<P>>,
) -> bool {
    match ast {
        AstSig::Name(n) => post_objects == pre.objects_view() && (match spec_assoc(
            pre.globals_view(),
            n,
        ) {
            Some(v) => r == Ok::<Value, ErrorKind>(v),
            None => match spec_class_index(pre.classes_view(), n) {
                Some(k) => r matches Ok(v) && (v matches Value::Class(cn) && cn@
                    == pre.classes_view()[k].name),
                None => r == Err::<Value, ErrorKind>(ErrorKind::UnknownName),
            },
        }),
        AstSig::Call { receiver, method, args } => match spec_assoc(pre.globals_view(), receiver) {
            Some(v) => match v {
                Value::Object { class_name, handle } => {
                    if method == "object_pointer"@ {
                        post_objects == pre.objects_view() && (if args.len() == 0 {
                            r == Ok::<Value, ErrorKind>(Value::Int(handle as i128))
                        } else {
                            r == Err::<Value, ErrorKind>(ErrorKind::Arity)
                        })
                    } else {
                        match spec_class_index(pre.classes_view(), class_name@) {
                            None => r == Err::<Value, ErrorKind>(ErrorKind::NoMethod)
                                && post_objects == pre.objects_view(),
                            Some(k) => entry_call_post::<P>(
                                pre,
                                k,
                                false,
                                Some(handle),
                                method,
                                args,
                                r,
                                post_objects,
                            ),
                        }
                    }
                },
                _ => r == Err::<Value, ErrorKind>(ErrorKind::NoMethod) && post_objects
                    == pre.objects_view(),
            },
            None => match spec_class_index(pre.classes_view(), receiver) {
                Some(k) => entry_call_post::<P>(
                    pre,
                    k,
                    true,
                    None,
                    method,
                    args,
                    r,
                    post_objects,
                ),
                None => r == Err::<Value, ErrorKind>(ErrorKind::UnknownName) && post_objects
                    == pre.objects_view(),
            },
        },
    }
}

/// The object handle an optional receiver value carries.
pub open spec fn spec_recv_opt_handle(recv: Option<Value>) -> Option<u64> {
    match recv {
        Some(v) => spec_receiver_handle(v),
        None => None,
    }
}

/// The first entry with a name and dispatch kind in a registered class.
fn find_entry(rc: &RegisteredClass, name: &String, is_static: bool) -> (r: Option<usize>)
    ensures
        spec_entry_index(rc@.entries, name@, is_static) == (match r {
            Some(i) => Some(i as int),
            None => None::<int>,
        }),
        r matches Some(i) ==> i < rc@.entries.len(),
{
    let n = rc.entries.len();
    let mut i: usize = 0;
    while i < n
        invariant
            0 <= i <= n,
            n == rc@.entries.len(),
            forall|j: int|
                0 <= j < i ==> !((#[trigger] rc@.entries[j]).name == name@
                    && rc@.entries[j].is_static == is_static),
        decreases n - i,
    {
        let e = &rc.entries[i];
        let matched = e.name.eq(name) && e.is_static == is_static;
        proof {
            assert(rc@.entries[i as int] == rc.entries@[i as int]@);
        }
        if matched {
            proof {
                lemma_entry_index_at(rc@.entries, name@, is_static, i as int);
            }
            return Some(i);
        }
        i += 1;
    }
    proof {
        lemma_entry_index_at(rc@.entries, name@, is_static, n as int);
    }
    None
}

/// The first class constant bearing a name, if any.
fn find_constant(rc: &RegisteredClass, name: &String) -> (r: Option<usize>)
    ensures
        match r {
            Some(i) => i < rc@.constants.len() && spec_assoc(rc@.constants, name@) == Some(
                rc@.constants[i as int].1,
            ),
            None => spec_assoc(rc@.constants, name@) is None,
        },
{
    let n = rc.constants.len();
    let mut i: usize = 0;
    while i < n
        invariant
            0 <= i <= n,
            n == rc@.constants.len(),
            forall|j: int| 0 <= j < i ==> (#[trigger] rc@.constants[j]).0 != name@,
        decreases n - i,
    {
        let matched = rc.constants[i].0.eq(name);
        proof {
            assert(rc@.constants[i as int] == (rc.constants@[i as int].0@,
            rc.constants@[i as int].1));
        }
        if matched {
            proof {
                lemma_assoc_at(rc@.constants, name@, i as int);
            }
            return Some(i);
        }
        i += 1;
    }
    proof {
        lemma_assoc_at(rc@.constants, name@, n as int);
    }
    None
}

impl<P: Pluggable> Vm<P> {
    /// The first global constant's value under a name, copied out.
    fn lookup_global(&self, name: &String) -> (r: Option<Value>)
        ensures
            r == spec_assoc(self.globals_view(), name@),
    {
        match self.find_global_index(name) {
            Some(i) => {
                proof {
                    lemma_assoc_at(self.globals_view(), name@, i as int);
                }
                Some(self.global_value(i).duplicate())
            },
            None => {
                proof {
                    lemma_assoc_at(self.globals_view(), name@, self.globals_view().len() as int);
                }
                None
            },
        }
    }

    /// The position of the first class bearing a name, if any.
    fn find_class(&self, name: &String) -> (r: Option<usize>)
        ensures
            spec_class_index(self.classes_view(), name@) == (match r {
                Some(i) => Some(i as int),
                None => None::<int>,
            }),
            r matches Some(i) ==> i < self.classes_view().len(),
    {
        let n = self.class_count();
        let mut i: usize = 0;
        while i < n
            invariant
                0 <= i <= n,
                n == self.classes_view().len(),
                forall|j: int| 0 <= j < i ==> (#[trigger] self.classes_view()[j]).name != name@,
            decreases n - i,
        {
            let rc = self.class_at(i);
            let matched = rc.name.eq(name);
            if matched {
                proof {
                    lemma_class_index_at(self.classes_view(), name@, i as int);
                }
                return Some(i);
            }
            i += 1;
        }
        proof {
            lemma_class_index_at(self.classes_view(), name@, n as int);
        }
        None
    }

    /// Resolves the entry, the arity, the arguments and the smuggled
    /// function handle for one method call, then dispatches through the
    /// matching shim.
    fn run_call(
        &mut self,
        k: usize,
        is_static: bool,
        method: &String,
        args: &Vec<String>,
        recv: Option<Value>,
    ) -> (r: Result<Value, ErrorKind>)
        requires
            old(self).wf(),
            k < old(self).classes_view().len(),
            !is_static ==> (recv matches Some(v) && v matches Value::Object { .. }),
            is_static ==> recv is None,
        ensures
            final(self).wf(),
            final(self).classes_view() == old(self).classes_view(),
            final(self).globals_view() == old(self).globals_view(),
            final(self).functions_view() == old(self).functions_view(),
            final(self).objects_view().len() == old(self).objects_view().len(),
            entry_call_post::<P>(
                *old(self),
                k as int,
                is_static,
                spec_recv_opt_handle(recv),
                method@,
                args@.map_values(|a: String| a@),
                r,
                final(self).objects_view(),
            ),
    {
        let ghost pre = *old(self);
        let ghost args_sig = args@.map_values(|a: String| a@);
        let entry_name = method.clone().concat("_internal");
        let rc = self.class_at(k);
        let e = match find_entry(rc, &entry_name, is_static) {
            Some(e) => e,
            None => {
                return Err(ErrorKind::NoMethod);
            },
        };
        let arity = rc.entries[e].arity;
        proof {
            assert(rc@.entries[e as int] == rc.entries@[e as int]@);
        }
        if arity != args.len() {
            return Err(ErrorKind::Arity);
        }
        let mut arg_vals: Vec<Value> = Vec::new();
        let argc = args.len();
        let mut i: usize = 0;
        while i < argc
            invariant
                *self == *old(self),
                pre == *old(self),
                old(self).wf(),
                k < pre.classes_view().len(),
                spec_entry_index(
                    pre.classes_view()[k as int].entries,
                    method@ + "_internal"@,
                    is_static,
                ) == Some(e as int),
                pre.classes_view()[k as int].entries[e as int].arity == args@.len(),
                0 <= i <= argc,
                argc == args@.len(),
                args_sig == args@.map_values(|a: String| a@),
                arg_vals@.len() == i,
                forall|j: int|
                    0 <= j < i ==> spec_assoc(old(self).globals_view(), #[trigger] args_sig[j])
                        == Some(arg_vals@[j]),
            decreases argc - i,
        {
            proof {
                assert(args_sig[i as int] == args@[i as int]@);
            }
            match self.lookup_global(&args[i]) {
                Some(v) => {
                    arg_vals.push(v);
                },
                None => {
                    proof {
                        assert(spec_assoc(pre.globals_view(), args_sig[i as int]) is None);
                    }
                    return Err(ErrorKind::UnknownName);
                },
            }
            i += 1;
        }
        let rc2 = self.class_at(k);
        let upper = text::to_upper(method.as_str());
        let c = match find_constant(rc2, &upper) {
            Some(c) => c,
            None => {
                proof {
                    assert(forall|j: int|
                        0 <= j < args_sig.len() ==> spec_assoc(
                            pre.globals_view(),
                            #[trigger] args_sig[j],
                        ) is Some);
                }
                return Err(ErrorKind::NoMethod);
            },
        };
        let cval = rc2.constants[c].1.duplicate();
        proof {
            assert(rc2@.constants[c as int] == (rc2.constants@[c as int].0@,
            rc2.constants@[c as int].1));
        }
        let mut argv: Vec<Value> = Vec::new();
        argv.push(cval);
        let mut t: usize = 0;
        while t < argc
            invariant
                *self == *old(self),
                pre == *old(self),
                old(self).wf(),
                k < pre.classes_view().len(),
                spec_entry_index(
                    pre.classes_view()[k as int].entries,
                    method@ + "_internal"@,
                    is_static,
                ) == Some(e as int),
                pre.classes_view()[k as int].entries[e as int].arity == args@.len(),
                args_sig == args@.map_values(|a: String| a@),
                argc == args@.len(),
                arg_vals@.len() == argc,
                forall|j: int|
                    0 <= j < argc ==> spec_assoc(pre.globals_view(), #[trigger] args_sig[j])
                        == Some(arg_vals@[j]),
                c < pre.classes_view()[k as int].constants.len(),
                spec_assoc(
                    pre.classes_view()[k as int].constants,
                    text::spec_upper(method@),
                ) == Some(pre.classes_view()[k as int].constants[c as int].1),
                0 <= t <= argc,
                argv@.len() == t + 1,
                argv@[0] == pre.classes_view()[k as int].constants[c as int].1,
                forall|j: int| 0 <= j < t ==> argv@[j + 1] == arg_vals@[j],
            decreases argc - t,
        {
            argv.push(arg_vals[t].duplicate());
            t += 1;
        }
        let ghost recv_spec = spec_recv_opt_handle(recv);
        let outcome = match recv {
            Some(rv) => self.method_shim(&rv, &argv),
            None => self.function_shim(&argv),
        };
        proof {
            assert forall|j: int|
                0 <= j < argc implies argv@.skip(1)[j] == resolved_args(
                pre.globals_view(),
                args_sig,
            )[j] by {
                assert(argv@[j + 1] == arg_vals@[j]);
            }
            assert(argv@.skip(1) =~= resolved_args(pre.globals_view(), args_sig));
            lemma_dispatch_post::<P>(
                pre,
                k as int,
                is_static,
                recv_spec,
                method@,
                args_sig,
                e as int,
                c as int,
                argv@,
                outcome,
                self.objects_view(),
            );
        }
        match outcome {
            Ok(v) => Ok(v),
            Err(d) => Err(ErrorKind::Dispatch(d)),
        }
    }

    /// Evaluates one parsed expression.
    pub fn run(&mut self, ast: &Ast) -> (r: Result<Value, ErrorKind>)
        requires
            old(self).wf(),
        ensures
            final(self).wf(),
            final(self).classes_view() == old(self).classes_view(),
            final(self).globals_view() == old(self).globals_view(),
            final(self).functions_view() == old(self).functions_view(),
            final(self).objects_view().len() == old(self).objects_view().len(),
            run_post::<P>(*old(self), ast@, r, final(self).objects_view()),
            r != Err::<Value, ErrorKind>(ErrorKind::Syntax),
    {
        match ast {
            Ast::Name(n) => {
                match self.lookup_global(n) {
                    Some(v) => Ok(v),
                    None => {
                        match self.find_class(n) {
                            Some(k) => {
                                let rc = self.class_at(k);
                                Ok(Value::Class(rc.name.clone()))
                            },
                            None => Err(ErrorKind::UnknownName),
                        }
                    },
                }
            },
            Ast::Call { receiver, method, args } => {
                match self.lookup_global(receiver) {
                    Some(v) => {
                        match v {
                            Value::Object { class_name, handle } => {
                                if method.eq(&String::from_str("object_pointer")) {
                                    if args.len() == 0 {
                                        Ok(Value::Int(handle as i128))
                                    } else {
                                        Err(ErrorKind::Arity)
                                    }
                                } else {
                                    match self.find_class(&class_name) {
                                        Some(k) => {
                                            let recv = Value::Object { class_name, handle };
                                            self.run_call(k, false, method, args, Some(recv))
                                        },
                                        None => Err(ErrorKind::NoMethod),
                                    }
                                }
                            },
                            _ => Err(ErrorKind::NoMethod),
                        }
                    },
                    None => {
                        match self.find_class(receiver) {
                            Some(k) => self.run_call(k, true, method, args, None),
                            None => Err(ErrorKind::UnknownName),
                        }
                    },
                }
            },
        }
    }

    /// Evaluates one expression and yields the result's human-readable
    /// rendering.
    pub fn eval(&mut self, code: &str) -> (r: Result<String, ErrorKind>)
        requires
            old(self).wf(),
        ensures
            final(self).wf(),
            final(self).classes_view() == old(self).classes_view(),
            final(self).globals_view() == old(self).globals_view(),
            final(self).functions_view() == old(self).functions_view(),
            final(self).objects_view().len() == old(self).objects_view().len(),
            (spec_parse(code@) is None) <==> (r == Err::<String, ErrorKind>(ErrorKind::Syntax)),
            spec_parse(code@) matches Some(ast) ==> (match r {
                Ok(s) => exists|v: Value|
                    #[trigger] run_post::<P>(
                        *old(self),
                        ast,
                        Ok(v),
                        final(self).objects_view(),
                    ) && s@ == v.spec_inspect(),
                Err(e) => run_post::<P>(*old(self), ast, Err(e), final(self).objects_view()),
            }),
    {
        match parse(code) {
            None => Err(ErrorKind::Syntax),
            Some(ast) => {
                match self.run(&ast) {
                    Ok(v) => {
                        let s = v.inspect();
                        proof {
                            assert(run_post::<P>(*old(self), ast@, Ok(v), self.objects_view()));
                        }
                        Ok(s)
                    },
                    Err(e) => Err(e),
                }
            },
        }
    }
}

/// Everything the shims' contracts and the runtime invariant give about a
/// fully resolved dispatch: once the entry, the arity, the arguments and
/// the class constant have all resolved, the shim's outcome satisfies the
/// dispatch part of [`entry_call_post`].
proof fn lemma_dispatch_post<P: Pluggable>(
    pre: Vm<P>,
    k: int,
    is_static: bool,
    recv: Option<u64>,
    method: Seq<char>,
    args: Seq<Seq<char>>,
    e: int,
    c: int,
    argv: Seq<Value>,
    outcome: Result<Value, DispatchError>,
    post_objects: Seq<Option<P>>,
)
    requires
        pre.wf(),
        0 <= k < pre.classes_view().len(),
        spec_entry_index(pre.classes_view()[k].entries, method + "_internal"@, is_static) == Some(
            e,
        ),
        pre.classes_view()[k].entries[e].arity == args.len(),
        forall|j: int|
            0 <= j < args.len() ==> spec_assoc(pre.globals_view(), #[trigger] args[j]) is Some,
        0 <= c < pre.classes_view()[k].constants.len(),
        spec_assoc(pre.classes_view()[k].constants, text::spec_upper(method)) == Some(
            pre.classes_view()[k].constants[c].1,
        ),
        argv.len() == args.len() + 1,
        argv[0] == pre.classes_view()[k].constants[c].1,
        argv.skip(1) == resolved_args(pre.globals_view(), args),
        crate::vm::spec_fn_handle_of(argv, pre.functions_view()) matches Some(f) ==> {
            &&& (f.is_static != is_static ==> outcome == Err::<Value, DispatchError>(
                DispatchError::WrongProtocol,
            ))
            &&& (f.is_static == is_static && argv.len() - 1 != f.arity ==> outcome == Err::<
                Value,
                DispatchError,
            >(DispatchError::WrongArity))
            &&& (outcome matches Ok(v) ==> (!f.has_ret ==> v == Value::Nil))
            &&& (f.is_static == is_static && argv.len() - 1 == f.arity ==> shim_dispatch_post::<
                P,
            >(pre.objects_view(), post_objects, recv, f.entry, argv.skip(1), outcome))
        },
    ensures
        entry_call_post::<P>(
            pre,
            k,
            is_static,
            recv,
            method,
            args,
            (match outcome {
                Ok(v) => Ok::<Value, ErrorKind>(v),
                Err(d) => Err::<Value, ErrorKind>(ErrorKind::Dispatch(d)),
            }),
            post_objects,
        ),
{
    let rc = pre.classes_view()[k];
    let ms = P::spec_methods();
    lemma_entry_index_props(rc.entries, method + "_internal"@, is_static);
    if k >= 1 {
        assert(crate::vm::mirrors::<P>(rc, pre.functions_view()));
        assert(rc.entries.len() == ms.len());
        assert(rc.entries[e].name == ms[e].name + "_internal"@);
        lemma_append_cancel(ms[e].name, method, "_internal"@);
        assert(ms[e].name == method);
        lemma_assoc_props(rc.constants, text::spec_upper(method));
        let c2 = choose|i: int|
            {
                &&& 0 <= i < rc.constants.len()
                &&& (#[trigger] rc.constants[i]).0 == text::spec_upper(method)
                &&& rc.constants[i].1 == pre.classes_view()[k].constants[c].1
                &&& forall|j: int|
                    0 <= j < i ==> (#[trigger] rc.constants[j]).0 != text::spec_upper(method)
            };
        assert(rc.constants[c2].0 == text::spec_upper(ms[c2].name));
        assert(text::spec_upper(ms[c2].name) == text::spec_upper(ms[e].name));
        assert(crate::pluggable::spec_class_of::<P>().wf());
        if c2 != e {
            assert(false);
        }
        assert(rc.constants[e].1 == pre.classes_view()[k].constants[c].1);
        assert(rc.constants[e].1 matches Value::Int(n) && 0 <= n < pre.functions_view().len() && (
        pre.functions_view()[n as int] matches Some(f) && f.method_index == e));
        let n = rc.constants[e].1->Int_0;
        let f = pre.functions_view()[n as int]->0;
        assert(crate::vm::spec_fn_handle_of(argv, pre.functions_view()) == Some(f));
        assert(crate::vm::valid_function_ref::<P>(f));
        assert(f.is_static == ms[e].is_static);
        assert(rc.entries[e].is_static == ms[e].is_static);
        assert(f.is_static == is_static);
        assert(f.arity == ms[e].parameters.len());
        assert(rc.entries[e].arity == ms[e].parameters.len());
        assert(argv.len() - 1 == f.arity);
        assert(f.has_ret == (ms[e].ret is Some));
        assert(shim_dispatch_post::<P>(
            pre.objects_view(),
            post_objects,
            recv,
            f.entry,
            argv.skip(1),
            outcome,
        ));
        assert(eval_dispatch_post::<P>(
            pre,
            recv,
            f.entry,
            resolved_args(pre.globals_view(), args),
            (match outcome {
                Ok(v) => Ok::<Value, ErrorKind>(v),
                Err(d) => Err::<Value, ErrorKind>(ErrorKind::Dispatch(d)),
            }),
            post_objects,
        ));
        match outcome {
            Ok(v) => {
                assert(dispatch_outcome_post::<P>(
                    k,
                    e,
                    Ok::<Value, ErrorKind>(v),
                ));
            },
            Err(d) => {},
        }
    }
}

} // verus!
