//! A second example pluggable type, with class-level methods.
//!
//! `Animal` exercises the static half of the dispatch protocol: a method
//! declared without a receiver is registered as a singleton entry and is
//! callable on the class itself, with no instance bound at all.

use vstd::prelude::*;
use vstd::string::StringExecFns;

use crate::descriptor::{Field, FieldSig, Method, MethodSig, TypeTag};
use crate::handle::{spec_resolve, HandleTable};
use crate::marshall::{Marshall, MarshallError, ScriptMarshall};
use crate::pluggable::{DispatchError, Pluggable, PluggableFields, PluggableMethods};
use crate::value::{Value, ValueSig};

verus! {

/// A farm animal with one number to its name.
pub struct Animal {
    pub a: u32,
}

impl Animal {
    /// Barks; a class-level method with nothing to return.
    pub fn woof() {
    }

    /// Mews; a class-level method returning a string.
    pub fn meow() -> (r: String)
        ensures
            r@ == "meooooooow"@,
    {
        String::from_str("meooooooow")
    }

    /// Lows the animal's number.
    pub fn moo(&self) -> (r: u32)
        ensures
            r == self.a,
    {
        self.a
    }

    /// The wrapper the descriptor's `woof` entry reaches: no native return
    /// type, so it yields nothing.
    pub fn woof_marshall<M: Marshall>() {
        Animal::woof();
    }

    /// The wrapper the descriptor's `meow` entry reaches.
    pub fn meow_marshall<M: Marshall>() -> (r: M::Value)
        ensures
            M::spec_to_string(&r) == Ok::<Seq<char>, MarshallError>("meooooooow"@),
    {
        let s = Animal::meow();
        proof {
            M::round_trip_string(s);
        }
        M::from_string(s)
    }

    /// The wrapper the descriptor's `moo` entry reaches.
    pub fn moo_marshall<M: Marshall>(&self) -> (r: M::Value)
        ensures
            M::spec_to_u32(&r) == Ok::<u32, MarshallError>(self.a),
    {
        proof {
            M::round_trip_u32(self.a);
        }
        M::from_u32(self.moo())
    }
}

impl PluggableFields for Animal {
    open spec fn spec_fields() -> Seq<FieldSig> {
        Seq::empty()
    }

    fn pluggable_fields(&self) -> (r: Vec<Field>) {
        let r: Vec<Field> = Vec::new();
        proof {
            assert(r@.map_values(|f: Field| f@) =~= Seq::<FieldSig>::empty());
        }
        r
    }
}

impl PluggableMethods for Animal {
    open spec fn spec_methods() -> Seq<MethodSig> {
        seq![
            MethodSig {
                name: "woof"@,
                parameters: Seq::empty(),
                ret: None,
                is_static: true,
                lang_marshalls: seq![("script"@, 0u64)],
            },
            MethodSig {
                name: "meow"@,
                parameters: Seq::empty(),
                ret: Some(TypeTag::Str),
                is_static: true,
                lang_marshalls: seq![("script"@, 1u64)],
            },
            MethodSig {
                name: "moo"@,
                parameters: Seq::empty(),
                ret: Some(TypeTag::U32),
                is_static: false,
                lang_marshalls: seq![("script"@, 2u64)],
            },
        ]
    }

    fn pluggable_methods(&self) -> (r: Vec<Method>) {
        let mut r: Vec<Method> = Vec::new();
        r.push(
            Method {
                name: String::from_str("woof"),
                parameters: Vec::new(),
                ret: None,
                is_static: true,
                lang_marshalls: crate::player::one_marshall(0),
            },
        );
        r.push(
            Method {
                name: String::from_str("meow"),
                parameters: Vec::new(),
                ret: Some(TypeTag::Str),
                is_static: true,
                lang_marshalls: crate::player::one_marshall(1),
            },
        );
        r.push(
            Method {
                name: String::from_str("moo"),
                parameters: Vec::new(),
                ret: Some(TypeTag::U32),
                is_static: false,
                lang_marshalls: crate::player::one_marshall(2),
            },
        );
        proof {
            let m = r@.map_values(|m: Method| m@);
            assert forall|i: int| 0 <= i < 3 implies m[i] == Self::spec_methods()[i] by {
                assert(r@[i]@.parameters =~= Self::spec_methods()[i].parameters);
                assert(r@[i]@.lang_marshalls =~= Self::spec_methods()[i].lang_marshalls);
                assert(m[i] =~= Self::spec_methods()[i]);
            }
            assert(m =~= Self::spec_methods());
        }
        r
    }
}

impl Pluggable for Animal {
    open spec fn spec_name() -> Seq<char> {
        "Animal"@
    }

    fn name(&self) -> (r: &'static str) {
        "Animal"
    }

    open spec fn spec_call_entry(
        pre: Seq<Option<Animal>>,
        receiver: Option<u64>,
        entry: u64,
        args: Seq<Value>,
    ) -> (Result<Option<ValueSig>, DispatchError>, Seq<Option<Animal>>) {
        if entry == 0 {
            (Ok(None), pre)
        } else if entry == 1 {
            (Ok(Some(ValueSig::Str("meooooooow"@))), pre)
        } else if entry == 2 {
            match receiver {
                None => (Err(DispatchError::NoReceiver), pre),
                Some(h) => match spec_resolve(pre, h) {
                    Ok(a) => (Ok(Some(ValueSig::Int(a.a as int))), pre),
                    Err(e) => (Err(DispatchError::Object(e)), pre),
                },
            }
        } else {
            (Err(DispatchError::UnknownEntry), pre)
        }
    }

    fn call_entry(
        objects: &mut HandleTable<Animal>,
        receiver: Option<u64>,
        entry: u64,
        args: &Vec<Value>,
    ) -> (r: Result<Option<Value>, DispatchError>) {
        match entry {
            0 => {
                Animal::woof_marshall::<ScriptMarshall>();
                Ok(None)
            },
            1 => {
                let v = Animal::meow_marshall::<ScriptMarshall>();
                proof {
                    assert(v@ == ValueSig::Str("meooooooow"@));
                }
                Ok(Some(v))
            },
            2 => {
                let h: u64 = match receiver {
                    Some(h) => h,
                    None => {
                        return Err(DispatchError::NoReceiver);
                    },
                };
                let me = match objects.resolve(h) {
                    Ok(o) => o,
                    Err(e) => {
                        return Err(DispatchError::Object(e));
                    },
                };
                let v = me.moo_marshall::<ScriptMarshall>();
                proof {
                    assert(v@ == ValueSig::Int(me.a as int));
                }
                Ok(Some(v))
            },
            _ => Err(DispatchError::UnknownEntry),
        }
    }
}

} // verus!
