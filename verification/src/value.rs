//! The scripting runtime's value representation.
//!
//! Every datum that crosses the dispatch boundary is a [`Value`]: the
//! runtime's nil, booleans, integers, strings, and plugged object instances.
//! Integers are modelled wider than any native primitive the bridge converts,
//! so converting a native value into the runtime never loses range; the
//! narrowing direction is range-checked by the marshall contract.

use vstd::prelude::*;
use vstd::string::StringExecFns;

use crate::text;

verus! {

/// Spec mirror of [`Value`]: the same shapes over mathematical values, so
/// contracts can pin a scripting value without naming an allocation.
pub enum ValueSig {
    Nil,
    Bool(bool),
    Int(int),
    Str(Seq<char>),
    Object { class_name: Seq<char>, handle: u64 },
    Class(Seq<char>),
}

/// One scripting-runtime value.
#[derive(Debug, PartialEq, Eq)]
pub enum Value {
    /// The runtime's "no value".
    Nil,
    /// A boolean.
    Bool(bool),
    /// An integer; wide enough to hold every native integer the bridge
    /// marshalls, in either signedness.
    Int(i128),
    /// A text string.
    Str(String),
    /// A plugged object instance: the mirrored class it belongs to and the
    /// object handle stored at construction, recoverable through the
    /// `object_pointer` accessor.
    Object { class_name: String, handle: u64 },
    /// A reference to a class, as reading a class constant yields it.
    Class(String),
}

impl View for Value {
    type V = ValueSig;

    open spec fn view(&self) -> ValueSig {
        match self {
            Value::Nil => ValueSig::Nil,
            Value::Bool(b) => ValueSig::Bool(*b),
            Value::Int(i) => ValueSig::Int(*i as int),
            Value::Str(s) => ValueSig::Str(s@),
            Value::Object { class_name, handle } => ValueSig::Object {
                class_name: class_name@,
                handle: *handle,
            },
            Value::Class(name) => ValueSig::Class(name@),
        }
    }
}

impl Value {
    /// The runtime's nil value.
    pub fn nil() -> (r: Value)
        ensures
            r == Value::Nil,
    {
        Value::Nil
    }

    /// A boolean value.
    pub fn boolean(b: bool) -> (r: Value)
        ensures
            r == Value::Bool(b),
    {
        Value::Bool(b)
    }

    /// An integer value.
    pub fn integer(i: i128) -> (r: Value)
        ensures
            r == Value::Int(i),
    {
        Value::Int(i)
    }

    /// A string value.
    pub fn string(s: String) -> (r: Value)
        ensures
            r == Value::Str(s),
    {
        Value::Str(s)
    }

    /// Whether the value is the boolean true, and nothing else: the strict
    /// reading the boolean marshall applies.
    pub open spec fn spec_is_true(self) -> bool {
        self == Value::Bool(true)
    }

    /// Exec counterpart of [`Value::spec_is_true`].
    pub fn is_true(&self) -> (r: bool)
        ensures
            r == self.spec_is_true(),
    {
        match self {
            Value::Bool(b) => *b,
            _ => false,
        }
    }

    /// The human-readable rendering of a value: integers in decimal, strings
    /// quoted, instances as `#<ClassName>`.
    pub open spec fn spec_inspect(self) -> Seq<char> {
        match self {
            Value::Nil => "nil"@,
            Value::Bool(b) => if b {
                "true"@
            } else {
                "false"@
            },
            Value::Int(i) => text::spec_decimal(i as int),
            Value::Str(s) => seq!['"'] + s@ + seq!['"'],
            Value::Object { class_name, handle } => seq!['#', '<'] + class_name@ + seq!['>'],
            Value::Class(name) => name@,
        }
    }

    /// Renders the value as the evaluator reports it.
    pub fn inspect(&self) -> (r: String)
        ensures
            r@ == self.spec_inspect(),
    {
        match self {
            Value::Nil => {
                let r = String::from_str("nil");
                r
            },
            Value::Bool(b) => {
                if *b {
                    String::from_str("true")
                } else {
                    String::from_str("false")
                }
            },
            Value::Int(i) => text::decimal(*i),
            Value::Str(s) => {
                let mut r = String::new();
                text::push_char(&mut r, '"');
                r.append(s.as_str());
                text::push_char(&mut r, '"');
                proof {
                    assert(r@ =~= seq!['"'] + s@ + seq!['"']);
                }
                r
            },
            Value::Object { class_name, handle } => {
                let mut r = String::new();
                text::push_char(&mut r, '#');
                text::push_char(&mut r, '<');
                r.append(class_name.as_str());
                text::push_char(&mut r, '>');
                proof {
                    assert(r@ =~= seq!['#', '<'] + class_name@ + seq!['>']);
                }
                r
            },
            Value::Class(name) => name.clone(),
        }
    }

    /// A copy of the value, equal to the original.
    pub fn duplicate(&self) -> (r: Value)
        ensures
            r == *self,
    {
        match self {
            Value::Nil => Value::Nil,
            Value::Bool(b) => Value::Bool(*b),
            Value::Int(i) => Value::Int(*i),
            Value::Str(s) => Value::Str(s.clone()),
            Value::Object { class_name, handle } => Value::Object {
                class_name: class_name.clone(),
                handle: *handle,
            },
            Value::Class(name) => Value::Class(name.clone()),
        }
    }
}

} // verus!
