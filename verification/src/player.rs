//! An example pluggable type: a game player with a name and a position.
//!
//! `Player` shows the whole contract a native type meets to be plugged: the
//! native methods themselves, the descriptor the runtime mirrors, one
//! marshalling wrapper per method in the style the descriptor producer would
//! generate — each parameterized by any [`Marshall`]-conformant language —
//! and the native entry point the dispatch shims reach.

use vstd::prelude::*;
use vstd::string::StrSliceExecFns;
use vstd::string::StringExecFns;

use crate::descriptor::{Field, FieldSig, Method, MethodSig, Parameter, ParameterSig, TypeTag};
use crate::handle::{spec_resolve, HandleTable};
use crate::marshall::{Marshall, MarshallError, ScriptMarshall};
use crate::pluggable::{DispatchError, Pluggable, PluggableFields, PluggableMethods};
use crate::value::{Value, ValueSig};

verus! {

/// A named object at a position, callable from the scripting runtime.
#[derive(Debug, PartialEq, Eq)]
pub struct Player {
    pub name: String,
    pub x: i32,
    pub y: i32,
    pub z: i32,
}

impl Player {
    /// The player's name.
    pub fn name(&self) -> (r: String)
        ensures
            r == self.name,
    {
        self.name.clone()
    }

    /// The player's position on the first axis.
    pub fn x(&self) -> (r: i32)
        ensures
            r == self.x,
    {
        self.x
    }

    /// The player's position on the second axis.
    pub fn y(&self) -> (r: i32)
        ensures
            r == self.y,
    {
        self.y
    }

    /// The player's position on the third axis.
    pub fn z(&self) -> (r: i32)
        ensures
            r == self.z,
    {
        self.z
    }

    /// The longer of the two players' names; this player's wins a tie.
    pub fn longest_name(&self, other: &Player) -> (r: String)
        ensures
            r@ == if self.name@.len() >= other.name@.len() {
                self.name@
            } else {
                other.name@
            },
    {
        if self.name.as_str().unicode_len() >= other.name.as_str().unicode_len() {
            self.name.clone()
        } else {
            other.name.clone()
        }
    }

    /// Moves the player one step along the first axis.
    pub fn move_left(&mut self)
        requires
            old(self).x < i32::MAX,
        ensures
            final(self).x == old(self).x + 1,
            final(self).name == old(self).name,
            final(self).y == old(self).y,
            final(self).z == old(self).z,
    {
        self.x = self.x + 1;
    }

    /// The wrapper the descriptor's `name` entry reaches: converts the
    /// result for any marshall-conformant language.
    pub fn name_marshall<M: Marshall>(&self) -> (r: M::Value)
        ensures
            M::spec_to_string(&r) == Ok::<Seq<char>, MarshallError>(self.name@),
    {
        let s = self.name();
        proof {
            M::round_trip_string(s);
        }
        M::from_string(s)
    }

    /// The wrapper the descriptor's `x` entry reaches.
    pub fn x_marshall<M: Marshall>(&self) -> (r: M::Value)
        ensures
            M::spec_to_i32(&r) == Ok::<i32, MarshallError>(self.x),
    {
        proof {
            M::round_trip_i32(self.x);
        }
        M::from_i32(self.x())
    }

    /// The wrapper the descriptor's `y` entry reaches.
    pub fn y_marshall<M: Marshall>(&self) -> (r: M::Value)
        ensures
            M::spec_to_i32(&r) == Ok::<i32, MarshallError>(self.y),
    {
        proof {
            M::round_trip_i32(self.y);
        }
        M::from_i32(self.y())
    }

    /// The wrapper the descriptor's `z` entry reaches.
    pub fn z_marshall<M: Marshall>(&self) -> (r: M::Value)
        ensures
            M::spec_to_i32(&r) == Ok::<i32, MarshallError>(self.z),
    {
        proof {
            M::round_trip_i32(self.z);
        }
        M::from_i32(self.z())
    }

    /// The wrapper the descriptor's `longest_name` entry reaches; the
    /// object-typed argument has already been resolved through the handle
    /// table.
    pub fn longest_name_marshall<M: Marshall>(&self, other: &Player) -> (r: M::Value)
        ensures
            M::spec_to_string(&r) == Ok::<Seq<char>, MarshallError>(
                if self.name@.len() >= other.name@.len() {
                    self.name@
                } else {
                    other.name@
                },
            ),
    {
        let s = self.longest_name(other);
        proof {
            M::round_trip_string(s);
        }
        M::from_string(s)
    }

    /// The wrapper the descriptor's `move_left` entry reaches: the method
    /// has no native return type, so the wrapper yields nothing and the
    /// shim layer applies the default-return-value policy.  A step past the
    /// numeric edge of the world is an out-of-range condition.
    pub fn move_left_marshall<M: Marshall>(&mut self) -> (r: Result<(), MarshallError>)
        ensures
            match r {
                Ok(_) => {
                    &&& old(self).x < i32::MAX
                    &&& final(self).x == old(self).x + 1
                    &&& final(self).name == old(self).name
                    &&& final(self).y == old(self).y
                    &&& final(self).z == old(self).z
                },
                Err(e) => {
                    &&& e == MarshallError::OutOfRange
                    &&& old(self).x == i32::MAX
                    &&& *final(self) == *old(self)
                },
            },
    {
        if self.x == i32::MAX {
            Err(MarshallError::OutOfRange)
        } else {
            self.move_left();
            Ok(())
        }
    }
}

impl Default for Player {
    /// Bob, at his usual place.
    fn default() -> (r: Player)
        ensures
            r.name@ == "Bob"@,
            r.x == 453,
            r.y == -244,
            r.z == 0xbeef,
    {
        Player { name: String::from_str("Bob"), x: 453, y: -244, z: 0xbeef }
    }
}

impl PluggableFields for Player {
    open spec fn spec_fields() -> Seq<FieldSig> {
        Seq::empty()
    }

    fn pluggable_fields(&self) -> (r: Vec<Field>) {
        let r: Vec<Field> = Vec::new();
        proof {
            assert(r@.map_values(|f: Field| f@) =~= Seq::<FieldSig>::empty());
        }
        r
    }
}

impl PluggableMethods for Player {
    open spec fn spec_methods() -> Seq<MethodSig> {
        seq![
            MethodSig {
                name: "name"@,
                parameters: Seq::empty(),
                ret: Some(TypeTag::Str),
                is_static: false,
                lang_marshalls: seq![("script"@, 0u64)],
            },
            MethodSig {
                name: "x"@,
                parameters: Seq::empty(),
                ret: Some(TypeTag::I32),
                is_static: false,
                lang_marshalls: seq![("script"@, 1u64)],
            },
            MethodSig {
                name: "y"@,
                parameters: Seq::empty(),
                ret: Some(TypeTag::I32),
                is_static: false,
                lang_marshalls: seq![("script"@, 2u64)],
            },
            MethodSig {
                name: "z"@,
                parameters: Seq::empty(),
                ret: Some(TypeTag::I32),
                is_static: false,
                lang_marshalls: seq![("script"@, 3u64)],
            },
            MethodSig {
                name: "longest_name"@,
                parameters: seq![ParameterSig { name: "other"@, ty: TypeTag::Object }],
                ret: Some(TypeTag::Str),
                is_static: false,
                lang_marshalls: seq![("script"@, 4u64)],
            },
            MethodSig {
                name: "move_left"@,
                parameters: Seq::empty(),
                ret: None,
                is_static: false,
                lang_marshalls: seq![("script"@, 5u64)],
            },
        ]
    }

    fn pluggable_methods(&self) -> (r: Vec<Method>) {
        let mut r: Vec<Method> = Vec::new();
        r.push(
            Method {
                name: String::from_str("name"),
                parameters: Vec::new(),
                ret: Some(TypeTag::Str),
                is_static: false,
                lang_marshalls: one_marshall(0),
            },
        );
        r.push(
            Method {
                name: String::from_str("x"),
                parameters: Vec::new(),
                ret: Some(TypeTag::I32),
                is_static: false,
                lang_marshalls: one_marshall(1),
            },
        );
        r.push(
            Method {
                name: String::from_str("y"),
                parameters: Vec::new(),
                ret: Some(TypeTag::I32),
                is_static: false,
                lang_marshalls: one_marshall(2),
            },
        );
        r.push(
            Method {
                name: String::from_str("z"),
                parameters: Vec::new(),
                ret: Some(TypeTag::I32),
                is_static: false,
                lang_marshalls: one_marshall(3),
            },
        );
        let mut ln_params: Vec<Parameter> = Vec::new();
        ln_params.push(Parameter { name: String::from_str("other"), ty: TypeTag::Object });
        r.push(
            Method {
                name: String::from_str("longest_name"),
                parameters: ln_params,
                ret: Some(TypeTag::Str),
                is_static: false,
                lang_marshalls: one_marshall(4),
            },
        );
        r.push(
            Method {
                name: String::from_str("move_left"),
                parameters: Vec::new(),
                ret: None,
                is_static: false,
                lang_marshalls: one_marshall(5),
            },
        );
        proof {
            let m = r@.map_values(|m: Method| m@);
            assert forall|i: int| 0 <= i < 6 implies m[i] == Self::spec_methods()[i] by {
                assert(r@[i]@.parameters =~= Self::spec_methods()[i].parameters);
                assert(r@[i]@.lang_marshalls =~= Self::spec_methods()[i].lang_marshalls);
                assert(m[i] =~= Self::spec_methods()[i]);
            }
            assert(m =~= Self::spec_methods());
        }
        r
    }
}

/// A single-language marshall table for this runtime, carrying one entry
/// code.
pub(crate) fn one_marshall(code: u64) -> (r: Vec<(String, u64)>)
    ensures
        r@.map_values(|e: (String, u64)| (e.0@, e.1)) =~= seq![
            (crate::pluggable::spec_script_lang(), code),
        ],
{
    let mut r: Vec<(String, u64)> = Vec::new();
    r.push((String::from_str(crate::pluggable::script_lang()), code));
    r
}

impl Pluggable for Player {
    open spec fn spec_name() -> Seq<char> {
        "Player"@
    }

    fn name(&self) -> (r: &'static str) {
        "Player"
    }

    open spec fn spec_call_entry(
        pre: Seq<Option<Player>>,
        receiver: Option<u64>,
        entry: u64,
        args: Seq<Value>,
    ) -> (Result<Option<ValueSig>, DispatchError>, Seq<Option<Player>>) {
        match receiver {
            None => (Err(DispatchError::NoReceiver), pre),
            Some(h) => {
                if entry == 0 {
                    match spec_resolve(pre, h) {
                        Ok(p) => (Ok(Some(ValueSig::Str(p.name@))), pre),
                        Err(e) => (Err(DispatchError::Object(e)), pre),
                    }
                } else if entry == 1 {
                    match spec_resolve(pre, h) {
                        Ok(p) => (Ok(Some(ValueSig::Int(p.x as int))), pre),
                        Err(e) => (Err(DispatchError::Object(e)), pre),
                    }
                } else if entry == 2 {
                    match spec_resolve(pre, h) {
                        Ok(p) => (Ok(Some(ValueSig::Int(p.y as int))), pre),
                        Err(e) => (Err(DispatchError::Object(e)), pre),
                    }
                } else if entry == 3 {
                    match spec_resolve(pre, h) {
                        Ok(p) => (Ok(Some(ValueSig::Int(p.z as int))), pre),
                        Err(e) => (Err(DispatchError::Object(e)), pre),
                    }
                } else if entry == 4 {
                    if args.len() != 1 {
                        (Err(DispatchError::WrongArity), pre)
                    } else {
                        match args[0] {
                            Value::Object { class_name: _, handle: oh } => {
                                match spec_resolve(pre, oh) {
                                    Ok(other) => match spec_resolve(pre, h) {
                                        Ok(me) => (
                                            Ok(
                                                Some(
                                                    ValueSig::Str(
                                                        if me.name@.len() >= other.name@.len() {
                                                            me.name@
                                                        } else {
                                                            other.name@
                                                        },
                                                    ),
                                                ),
                                            ),
                                            pre,
                                        ),
                                        Err(e) => (Err(DispatchError::Object(e)), pre),
                                    },
                                    Err(e) => (Err(DispatchError::Object(e)), pre),
                                }
                            },
                            _ => (Err(DispatchError::Conversion(MarshallError::WrongType)), pre),
                        }
                    }
                } else if entry == 5 {
                    match spec_resolve(pre, h) {
                        Ok(p) => if p.x == i32::MAX {
                            (Err(DispatchError::Conversion(MarshallError::OutOfRange)), pre)
                        } else {
                            (
                                Ok(None),
                                pre.update(
                                    h as int,
                                    Some(Player { x: (p.x + 1) as i32, ..p }),
                                ),
                            )
                        },
                        Err(e) => (Err(DispatchError::Object(e)), pre),
                    }
                } else {
                    (Err(DispatchError::UnknownEntry), pre)
                }
            },
        }
    }

    fn call_entry(
        objects: &mut HandleTable<Player>,
        receiver: Option<u64>,
        entry: u64,
        args: &Vec<Value>,
    ) -> (r: Result<Option<Value>, DispatchError>) {
        let h: u64 = match receiver {
            Some(h) => h,
            None => {
                return Err(DispatchError::NoReceiver);
            },
        };
        match entry {
            0 => {
                let me = match objects.resolve(h) {
                    Ok(o) => o,
                    Err(e) => {
                        return Err(DispatchError::Object(e));
                    },
                };
                let v = me.name_marshall::<ScriptMarshall>();
                proof {
                    assert(v@ == ValueSig::Str(me.name@));
                }
                Ok(Some(v))
            },
            1 => {
                let me = match objects.resolve(h) {
                    Ok(o) => o,
                    Err(e) => {
                        return Err(DispatchError::Object(e));
                    },
                };
                let v = me.x_marshall::<ScriptMarshall>();
                proof {
                    assert(v@ == ValueSig::Int(me.x as int));
                }
                Ok(Some(v))
            },
            2 => {
                let me = match objects.resolve(h) {
                    Ok(o) => o,
                    Err(e) => {
                        return Err(DispatchError::Object(e));
                    },
                };
                let v = me.y_marshall::<ScriptMarshall>();
                proof {
                    assert(v@ == ValueSig::Int(me.y as int));
                }
                Ok(Some(v))
            },
            3 => {
                let me = match objects.resolve(h) {
                    Ok(o) => o,
                    Err(e) => {
                        return Err(DispatchError::Object(e));
                    },
                };
                let v = me.z_marshall::<ScriptMarshall>();
                proof {
                    assert(v@ == ValueSig::Int(me.z as int));
                }
                Ok(Some(v))
            },
            4 => {
                if args.len() != 1 {
                    return Err(DispatchError::WrongArity);
                }
                let oh: u64 = match &args[0] {
                    Value::Object { class_name: _, handle } => *handle,
                    _ => {
                        return Err(DispatchError::Conversion(MarshallError::WrongType));
                    },
                };
                let other = match objects.resolve(oh) {
                    Ok(o) => o,
                    Err(e) => {
                        return Err(DispatchError::Object(e));
                    },
                };
                let me = match objects.resolve(h) {
                    Ok(o) => o,
                    Err(e) => {
                        return Err(DispatchError::Object(e));
                    },
                };
                let v = me.longest_name_marshall::<ScriptMarshall>(other);
                proof {
                    assert(v@ == ValueSig::Str(
                        if me.name@.len() >= other.name@.len() {
                            me.name@
                        } else {
                            other.name@
                        },
                    ));
                }
                Ok(Some(v))
            },
            5 => {
                let at_edge = match objects.resolve(h) {
                    Ok(o) => o.x() == i32::MAX,
                    Err(e) => {
                        return Err(DispatchError::Object(e));
                    },
                };
                if at_edge {
                    return Err(DispatchError::Conversion(MarshallError::OutOfRange));
                }
                let me = match objects.resolve_mut(h) {
                    Ok(o) => o,
                    Err(e) => {
                        return Err(DispatchError::Object(e));
                    },
                };
                let ghost p = *me;
                match me.move_left_marshall::<ScriptMarshall>() {
                    Ok(_) => {
                        proof {
                            assert(*me == (Player { x: (p.x + 1) as i32, ..p }));
                        }
                        Ok(None)
                    },
                    Err(e) => Err(DispatchError::Conversion(e)),
                }
            },
            _ => Err(DispatchError::UnknownEntry),
        }
    }
}

} // verus!
