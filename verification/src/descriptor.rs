//! The descriptor model: a language-neutral reflection description of a
//! native class.
//!
//! Descriptors are immutable value types built by the descriptor producer
//! (for this crate, the hand-written [`Pluggable`](crate::pluggable::Pluggable)
//! implementations) before any registration.  The registration engine only
//! consumes them: it never validates how they were constructed, but it does
//! check the well-formedness the dispatch protocol depends on.
//!
//! Each exec type has a spec-level mirror (`…Sig`) reached through its view,
//! so contracts can speak of descriptors as plain mathematical values.

use vstd::prelude::*;
use vstd::string::StringExecFns;

use crate::text;

verus! {

/// The type of one marshalled value: the fixed primitive set, plus plugged
/// object instances, which cross the boundary as object handles.
#[derive(Clone, Copy, Debug, PartialEq, Eq, Structural)]
pub enum TypeTag {
    Bool,
    U8,
    U16,
    U32,
    U64,
    I8,
    I16,
    I32,
    I64,
    Str,
    /// An instance of a plugged class; resolved through the handle table
    /// inside the native entry.
    Object,
}

/// Spec mirror of [`Parameter`].
#[verifier::ext_equal]
pub struct ParameterSig {
    pub name: Seq<char>,
    pub ty: TypeTag,
}

/// One declared method argument.  The receiver of an instance method is
/// never listed.
pub struct Parameter {
    /// The argument's name; a simple identifier.
    pub name: String,
    /// The argument's native type.
    pub ty: TypeTag,
}

impl View for Parameter {
    type V = ParameterSig;

    open spec fn view(&self) -> ParameterSig {
        ParameterSig { name: self.name@, ty: self.ty }
    }
}

/// Spec mirror of [`Field`].
#[verifier::ext_equal]
pub struct FieldSig {
    pub name: Seq<char>,
    pub ty: TypeTag,
    pub offset: nat,
}

/// One field of the native structure.  Present for future direct field
/// access; dispatch does not read it.
pub struct Field {
    /// The number of bytes from the start of the structure.
    pub field_offset: usize,
    /// The field's native type.
    pub ty: TypeTag,
    /// The field's name.
    pub name: String,
}

impl View for Field {
    type V = FieldSig;

    open spec fn view(&self) -> FieldSig {
        FieldSig { name: self.name@, ty: self.ty, offset: self.field_offset as nat }
    }
}

/// Spec mirror of [`Method`].
#[verifier::ext_equal]
pub struct MethodSig {
    pub name: Seq<char>,
    pub parameters: Seq<ParameterSig>,
    pub ret: Option<TypeTag>,
    pub is_static: bool,
    pub lang_marshalls: Seq<(Seq<char>, u64)>,
}

impl MethodSig {
    /// The marshall entry registered for a language, if any: the first pair
    /// whose key is the language's name.
    pub open spec fn marshall_for(self, lang: Seq<char>) -> Option<u64> {
        lookup_entry(self.lang_marshalls, lang)
    }
}

/// One native method, as the descriptor producer describes it.
///
/// If `is_static` is false, the method's first runtime argument is the
/// receiver, and the receiver is never listed in `parameters`.
pub struct Method {
    /// The name of the method.
    pub name: String,
    /// The parameter list.
    pub parameters: Vec<Parameter>,
    /// The return type, if the method has one.
    pub ret: Option<TypeTag>,
    /// Whether the method has no receiver.
    pub is_static: bool,
    /// The marshall entry for every supported language: the code the native
    /// side uses to pick the method's marshalling wrapper, keyed by language
    /// name.  At most one entry per language.
    pub lang_marshalls: Vec<(String, u64)>,
}

impl View for Method {
    type V = MethodSig;

    open spec fn view(&self) -> MethodSig {
        MethodSig {
            name: self.name@,
            parameters: self.parameters@.map_values(|p: Parameter| p@),
            ret: self.ret,
            is_static: self.is_static,
            lang_marshalls: self.lang_marshalls@.map_values(|e: (String, u64)| (e.0@, e.1)),
        }
    }
}

/// The first entry for `lang` in an association list, if any.
pub open spec fn lookup_entry(entries: Seq<(Seq<char>, u64)>, lang: Seq<char>) -> Option<u64>
    decreases entries.len(),
{
    if entries.len() == 0 {
        None
    } else if entries[0].0 == lang {
        Some(entries[0].1)
    } else {
        lookup_entry(entries.drop_first(), lang)
    }
}

/// Skipping a prefix without a match leaves the lookup unchanged.
proof fn lemma_lookup_entry_skip(entries: Seq<(Seq<char>, u64)>, lang: Seq<char>, i: int)
    requires
        0 <= i <= entries.len(),
        forall|j: int| 0 <= j < i ==> #[trigger] entries[j].0 != lang,
    ensures
        lookup_entry(entries, lang) == lookup_entry(entries.skip(i), lang),
    decreases i,
{
    if i > 0 {
        assert(entries.skip(i - 1).drop_first() =~= entries.skip(i));
        lemma_lookup_entry_skip(entries, lang, i - 1);
    } else {
        assert(entries.skip(0) =~= entries);
    }
}

impl Method {
    /// Gets the marshall entry for a language; `None` when the descriptor
    /// does not support the language.
    pub fn marshall(&self, lang_name: &str) -> (r: Option<u64>)
        ensures
            r == self@.marshall_for(lang_name@),
    {
        let lang_owned = String::from_str(lang_name);
        let n = self.lang_marshalls.len();
        let mut i: usize = 0;
        while i < n
            invariant
                0 <= i <= n,
                n == self.lang_marshalls.len(),
                lang_owned@ == lang_name@,
                forall|j: int| 0 <= j < i ==> (#[trigger] self@.lang_marshalls[j]).0 != lang_name@,
            decreases n - i,
        {
            let entry = &self.lang_marshalls[i];
            let matched = entry.0.eq(&lang_owned);
            proof {
                assert(self@.lang_marshalls[i as int] == (entry.0@, entry.1));
            }
            if matched {
                proof {
                    lemma_lookup_entry_skip(self@.lang_marshalls, lang_name@, i as int);
                    let tail = self@.lang_marshalls.skip(i as int);
                    assert(tail[0] == self@.lang_marshalls[i as int]);
                    assert(lookup_entry(tail, lang_name@) == Some(tail[0].1));
                }
                return Some(entry.1);
            }
            i += 1;
        }
        proof {
            lemma_lookup_entry_skip(self@.lang_marshalls, lang_name@, n as int);
            assert(self@.lang_marshalls.skip(n as int) =~= Seq::<(Seq<char>, u64)>::empty());
        }
        None
    }
}

/// Spec mirror of [`Class`].
#[verifier::ext_equal]
pub struct ClassSig {
    pub name: Seq<char>,
    pub fields: Seq<FieldSig>,
    pub methods: Seq<MethodSig>,
}

impl ClassSig {
    /// The well-formedness the registration engine demands of a descriptor:
    /// the class name and every method name is a simple identifier, and no
    /// two method names collide once upper-cased (each method's entry name
    /// and class constant must stay unambiguous).
    pub open spec fn wf(self) -> bool {
        &&& text::is_identifier(self.name)
        &&& forall|i: int|
            0 <= i < self.methods.len() ==> text::is_identifier(#[trigger] self.methods[i].name)
        &&& forall|i: int, j: int|
            #![trigger self.methods[i], self.methods[j]]
            0 <= i < j < self.methods.len() ==> text::spec_upper(self.methods[i].name)
                != text::spec_upper(self.methods[j].name)
    }
}

/// The reflection description of one native type: built once, immutable
/// thereafter.  The class name must be unique within a running process; it
/// becomes the scripting-runtime class name.
pub struct Class {
    pub name: String,
    pub fields: Vec<Field>,
    pub methods: Vec<Method>,
}

impl View for Class {
    type V = ClassSig;

    open spec fn view(&self) -> ClassSig {
        ClassSig {
            name: self.name@,
            fields: self.fields@.map_values(|f: Field| f@),
            methods: self.methods@.map_values(|m: Method| m@),
        }
    }
}

impl Class {
    /// Checks the well-formedness the registration engine demands.
    pub fn check_wf(&self) -> (r: bool)
        ensures
            r == self@.wf(),
    {
        if !text::check_identifier(self.name.as_str()) {
            return false;
        }
        let n = self.methods.len();
        let mut uppers: Vec<String> = Vec::new();
        let mut i: usize = 0;
        while i < n
            invariant
                0 <= i <= n,
                n == self.methods.len(),
                uppers@.len() == i,
                forall|j: int|
                    0 <= j < i ==> text::is_identifier(#[trigger] self@.methods[j].name),
                forall|j: int|
                    0 <= j < i ==> #[trigger] uppers@[j]@ == text::spec_upper(
                        self@.methods[j].name,
                    ),
                forall|j: int, k: int|
                    #![trigger self@.methods[j], self@.methods[k]]
                    0 <= j < k < i ==> text::spec_upper(self@.methods[j].name) != text::spec_upper(
                        self@.methods[k].name,
                    ),
            decreases n - i,
        {
            let name = &self.methods[i].name;
            if !text::check_identifier(name.as_str()) {
                proof {
                    assert(self@.methods[i as int].name == name@);
                    assert(!self@.wf());
                }
                return false;
            }
            let upper = text::to_upper(name.as_str());
            let mut j: usize = 0;
            while j < i
                invariant
                    0 <= j <= i < n,
                    n == self.methods.len(),
                    uppers@.len() == i,
                    upper@ == text::spec_upper(self@.methods[i as int].name),
                    forall|k: int|
                        0 <= k < i ==> #[trigger] uppers@[k]@ == text::spec_upper(
                            self@.methods[k].name,
                        ),
                    forall|k: int|
                        0 <= k < j ==> text::spec_upper(#[trigger] self@.methods[k].name)
                            != text::spec_upper(self@.methods[i as int].name),
                decreases i - j,
            {
                if uppers[j].eq(&upper) {
                    proof {
                        assert(uppers@[j as int]@ == text::spec_upper(self@.methods[j as int].name));
                        assert(text::spec_upper(self@.methods[j as int].name) == text::spec_upper(
                            self@.methods[i as int].name,
                        ));
                        assert(!self@.wf());
                    }
                    return false;
                }
                j += 1;
            }
            uppers.push(upper);
            i += 1;
        }
        true
    }
}

} // verus!
