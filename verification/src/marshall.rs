//! The marshall contract: per scripting language, the bidirectional
//! conversions between that language's value representation and each native
//! primitive type, together with the default-return-value policy.
//!
//! Every conversion towards a native type is range-checked and fails with a
//! [`MarshallError`] when the scripting value is not representable; every
//! conversion away from a native type succeeds, because native values are
//! already range-correct for their own type.  Each implementation must also
//! prove the round-trip laws: converting a native value into the scripting
//! representation and back yields the value unchanged.

use vstd::prelude::*;

use crate::value::Value;

verus! {

/// Why a conversion towards a native type failed.
#[derive(Clone, Copy, Debug, PartialEq, Eq, Structural)]
pub enum MarshallError {
    /// The scripting value has the wrong shape (a string where an integer is
    /// needed, and so on).
    WrongType,
    /// The scripting value is an integer, but it does not fit the target
    /// width and signedness.
    OutOfRange,
}

/// A language that can marshall values to and from native primitive types.
///
/// The spec functions fix what each conversion returns; the exec functions
/// must follow them, and the proof functions oblige every implementation to
/// the round-trip laws.
pub trait Marshall {
    /// The language's value representation.
    type Value;

    /// What converting to a boolean yields; never fails.
    spec fn spec_to_bool(v: &Self::Value) -> bool;

    spec fn spec_to_u8(v: &Self::Value) -> Result<u8, MarshallError>;

    spec fn spec_to_u16(v: &Self::Value) -> Result<u16, MarshallError>;

    spec fn spec_to_u32(v: &Self::Value) -> Result<u32, MarshallError>;

    spec fn spec_to_u64(v: &Self::Value) -> Result<u64, MarshallError>;

    spec fn spec_to_i8(v: &Self::Value) -> Result<i8, MarshallError>;

    spec fn spec_to_i16(v: &Self::Value) -> Result<i16, MarshallError>;

    spec fn spec_to_i32(v: &Self::Value) -> Result<i32, MarshallError>;

    spec fn spec_to_i64(v: &Self::Value) -> Result<i64, MarshallError>;

    /// What converting to a string yields, as a character sequence.
    spec fn spec_to_string(v: &Self::Value) -> Result<Seq<char>, MarshallError>;

    spec fn spec_from_bool(b: bool) -> Self::Value;

    spec fn spec_from_u8(x: u8) -> Self::Value;

    spec fn spec_from_u16(x: u16) -> Self::Value;

    spec fn spec_from_u32(x: u32) -> Self::Value;

    spec fn spec_from_u64(x: u64) -> Self::Value;

    spec fn spec_from_i8(x: i8) -> Self::Value;

    spec fn spec_from_i16(x: i16) -> Self::Value;

    spec fn spec_from_i32(x: i32) -> Self::Value;

    spec fn spec_from_i64(x: i64) -> Self::Value;

    /// What converting a native string yields.  The parameter is the string
    /// itself rather than its character sequence, so that implementations can
    /// carry the allocation across unchanged.
    spec fn spec_from_string(s: String) -> Self::Value;

    /// The canonical "no value" result the language wants for a method
    /// without a native return type, if it has one.
    spec fn spec_default_return() -> Option<Self::Value>;

    fn to_bool(v: &Self::Value) -> (r: bool)
        ensures
            r == Self::spec_to_bool(v),
    ;

    fn to_u8(v: &Self::Value) -> (r: Result<u8, MarshallError>)
        ensures
            r == Self::spec_to_u8(v),
    ;

    fn to_u16(v: &Self::Value) -> (r: Result<u16, MarshallError>)
        ensures
            r == Self::spec_to_u16(v),
    ;

    fn to_u32(v: &Self::Value) -> (r: Result<u32, MarshallError>)
        ensures
            r == Self::spec_to_u32(v),
    ;

    fn to_u64(v: &Self::Value) -> (r: Result<u64, MarshallError>)
        ensures
            r == Self::spec_to_u64(v),
    ;

    fn to_i8(v: &Self::Value) -> (r: Result<i8, MarshallError>)
        ensures
            r == Self::spec_to_i8(v),
    ;

    fn to_i16(v: &Self::Value) -> (r: Result<i16, MarshallError>)
        ensures
            r == Self::spec_to_i16(v),
    ;

    fn to_i32(v: &Self::Value) -> (r: Result<i32, MarshallError>)
        ensures
            r == Self::spec_to_i32(v),
    ;

    fn to_i64(v: &Self::Value) -> (r: Result<i64, MarshallError>)
        ensures
            r == Self::spec_to_i64(v),
    ;

    fn to_string(v: &Self::Value) -> (r: Result<String, MarshallError>)
        ensures
            match r {
                Ok(s) => Self::spec_to_string(v) == Ok::<Seq<char>, MarshallError>(s@),
                Err(e) => Self::spec_to_string(v) == Err::<Seq<char>, MarshallError>(e),
            },
    ;

    fn from_bool(b: bool) -> (r: Self::Value)
        ensures
            r == Self::spec_from_bool(b),
    ;

    fn from_u8(x: u8) -> (r: Self::Value)
        ensures
            r == Self::spec_from_u8(x),
    ;

    fn from_u16(x: u16) -> (r: Self::Value)
        ensures
            r == Self::spec_from_u16(x),
    ;

    fn from_u32(x: u32) -> (r: Self::Value)
        ensures
            r == Self::spec_from_u32(x),
    ;

    fn from_u64(x: u64) -> (r: Self::Value)
        ensures
            r == Self::spec_from_u64(x),
    ;

    fn from_i8(x: i8) -> (r: Self::Value)
        ensures
            r == Self::spec_from_i8(x),
    ;

    fn from_i16(x: i16) -> (r: Self::Value)
        ensures
            r == Self::spec_from_i16(x),
    ;

    fn from_i32(x: i32) -> (r: Self::Value)
        ensures
            r == Self::spec_from_i32(x),
    ;

    fn from_i64(x: i64) -> (r: Self::Value)
        ensures
            r == Self::spec_from_i64(x),
    ;

    fn from_string(s: String) -> (r: Self::Value)
        ensures
            r == Self::spec_from_string(s),
    ;

    fn default_return_value() -> (r: Option<Self::Value>)
        ensures
            r == Self::spec_default_return(),
    ;

    /// Round trip: a native boolean survives the crossing unchanged.
    proof fn round_trip_bool(b: bool)
        ensures
            Self::spec_to_bool(&Self::spec_from_bool(b)) == b,
    ;

    /// Round trip: every in-range `u8` survives the crossing unchanged.
    proof fn round_trip_u8(x: u8)
        ensures
            Self::spec_to_u8(&Self::spec_from_u8(x)) == Ok::<u8, MarshallError>(x),
    ;

    proof fn round_trip_u16(x: u16)
        ensures
            Self::spec_to_u16(&Self::spec_from_u16(x)) == Ok::<u16, MarshallError>(x),
    ;

    proof fn round_trip_u32(x: u32)
        ensures
            Self::spec_to_u32(&Self::spec_from_u32(x)) == Ok::<u32, MarshallError>(x),
    ;

    proof fn round_trip_u64(x: u64)
        ensures
            Self::spec_to_u64(&Self::spec_from_u64(x)) == Ok::<u64, MarshallError>(x),
    ;

    proof fn round_trip_i8(x: i8)
        ensures
            Self::spec_to_i8(&Self::spec_from_i8(x)) == Ok::<i8, MarshallError>(x),
    ;

    proof fn round_trip_i16(x: i16)
        ensures
            Self::spec_to_i16(&Self::spec_from_i16(x)) == Ok::<i16, MarshallError>(x),
    ;

    proof fn round_trip_i32(x: i32)
        ensures
            Self::spec_to_i32(&Self::spec_from_i32(x)) == Ok::<i32, MarshallError>(x),
    ;

    proof fn round_trip_i64(x: i64)
        ensures
            Self::spec_to_i64(&Self::spec_from_i64(x)) == Ok::<i64, MarshallError>(x),
    ;

    /// Round trip: a native string survives the crossing unchanged.
    proof fn round_trip_string(s: String)
        ensures
            Self::spec_to_string(&Self::spec_from_string(s)) == Ok::<Seq<char>, MarshallError>(s@),
    ;
}

/// The marshall for this crate's own scripting runtime, whose value
/// representation is [`Value`].
///
/// Integers arrive as [`Value::Int`], which is wider than every native
/// integer type the bridge converts: each narrowing conversion checks range
/// and fails with [`MarshallError::OutOfRange`] when the value does not fit,
/// and each widening conversion is exact.  Booleans are read strictly: only
/// the boolean true converts to true, everything else to false.
pub struct ScriptMarshall;

impl Marshall for ScriptMarshall {
    type Value = Value;

    open spec fn spec_to_bool(v: &Value) -> bool {
        v.spec_is_true()
    }

    open spec fn spec_to_u8(v: &Value) -> Result<u8, MarshallError> {
        match *v {
            Value::Int(i) => if 0 <= i <= u8::MAX {
                Ok(i as u8)
            } else {
                Err(MarshallError::OutOfRange)
            },
            _ => Err(MarshallError::WrongType),
        }
    }

    open spec fn spec_to_u16(v: &Value) -> Result<u16, MarshallError> {
        match *v {
            Value::Int(i) => if 0 <= i <= u16::MAX {
                Ok(i as u16)
            } else {
                Err(MarshallError::OutOfRange)
            },
            _ => Err(MarshallError::WrongType),
        }
    }

    open spec fn spec_to_u32(v: &Value) -> Result<u32, MarshallError> {
        match *v {
            Value::Int(i) => if 0 <= i <= u32::MAX {
                Ok(i as u32)
            } else {
                Err(MarshallError::OutOfRange)
            },
            _ => Err(MarshallError::WrongType),
        }
    }

    open spec fn spec_to_u64(v: &Value) -> Result<u64, MarshallError> {
        match *v {
            Value::Int(i) => if 0 <= i <= u64::MAX {
                Ok(i as u64)
            } else {
                Err(MarshallError::OutOfRange)
            },
            _ => Err(MarshallError::WrongType),
        }
    }

    open spec fn spec_to_i8(v: &Value) -> Result<i8, MarshallError> {
        match *v {
            Value::Int(i) => if i8::MIN <= i <= i8::MAX {
                Ok(i as i8)
            } else {
                Err(MarshallError::OutOfRange)
            },
            _ => Err(MarshallError::WrongType),
        }
    }

    open spec fn spec_to_i16(v: &Value) -> Result<i16, MarshallError> {
        match *v {
            Value::Int(i) => if i16::MIN <= i <= i16::MAX {
                Ok(i as i16)
            } else {
                Err(MarshallError::OutOfRange)
            },
            _ => Err(MarshallError::WrongType),
        }
    }

    open spec fn spec_to_i32(v: &Value) -> Result<i32, MarshallError> {
        match *v {
            Value::Int(i) => if i32::MIN <= i <= i32::MAX {
                Ok(i as i32)
            } else {
                Err(MarshallError::OutOfRange)
            },
            _ => Err(MarshallError::WrongType),
        }
    }

    open spec fn spec_to_i64(v: &Value) -> Result<i64, MarshallError> {
        match *v {
            Value::Int(i) => if i64::MIN <= i <= i64::MAX {
                Ok(i as i64)
            } else {
                Err(MarshallError::OutOfRange)
            },
            _ => Err(MarshallError::WrongType),
        }
    }

    open spec fn spec_to_string(v: &Value) -> Result<Seq<char>, MarshallError> {
        match v {
            Value::Str(s) => Ok(s@),
            _ => Err(MarshallError::WrongType),
        }
    }

    open spec fn spec_from_bool(b: bool) -> Value {
        Value::Bool(b)
    }

    open spec fn spec_from_u8(x: u8) -> Value {
        Value::Int(x as i128)
    }

    open spec fn spec_from_u16(x: u16) -> Value {
        Value::Int(x as i128)
    }

    open spec fn spec_from_u32(x: u32) -> Value {
        Value::Int(x as i128)
    }

    open spec fn spec_from_u64(x: u64) -> Value {
        Value::Int(x as i128)
    }

    open spec fn spec_from_i8(x: i8) -> Value {
        Value::Int(x as i128)
    }

    open spec fn spec_from_i16(x: i16) -> Value {
        Value::Int(x as i128)
    }

    open spec fn spec_from_i32(x: i32) -> Value {
        Value::Int(x as i128)
    }

    open spec fn spec_from_i64(x: i64) -> Value {
        Value::Int(x as i128)
    }

    open spec fn spec_from_string(s: String) -> Value {
        Value::Str(s)
    }

    open spec fn spec_default_return() -> Option<Value> {
        Some(Value::Nil)
    }

    fn to_bool(v: &Value) -> (r: bool) {
        v.is_true()
    }

    fn to_u8(v: &Value) -> (r: Result<u8, MarshallError>) {
        match v {
            Value::Int(i) => if 0 <= *i && *i <= u8::MAX as i128 {
                Ok(*i as u8)
            } else {
                Err(MarshallError::OutOfRange)
            },
            _ => Err(MarshallError::WrongType),
        }
    }

    fn to_u16(v: &Value) -> (r: Result<u16, MarshallError>) {
        match v {
            Value::Int(i) => if 0 <= *i && *i <= u16::MAX as i128 {
                Ok(*i as u16)
            } else {
                Err(MarshallError::OutOfRange)
            },
            _ => Err(MarshallError::WrongType),
        }
    }

    fn to_u32(v: &Value) -> (r: Result<u32, MarshallError>) {
        match v {
            Value::Int(i) => if 0 <= *i && *i <= u32::MAX as i128 {
                Ok(*i as u32)
            } else {
                Err(MarshallError::OutOfRange)
            },
            _ => Err(MarshallError::WrongType),
        }
    }

    fn to_u64(v: &Value) -> (r: Result<u64, MarshallError>) {
        match v {
            Value::Int(i) => if 0 <= *i && *i <= u64::MAX as i128 {
                Ok(*i as u64)
            } else {
                Err(MarshallError::OutOfRange)
            },
            _ => Err(MarshallError::WrongType),
        }
    }

    fn to_i8(v: &Value) -> (r: Result<i8, MarshallError>) {
        match v {
            Value::Int(i) => if i8::MIN as i128 <= *i && *i <= i8::MAX as i128 {
                Ok(*i as i8)
            } else {
                Err(MarshallError::OutOfRange)
            },
            _ => Err(MarshallError::WrongType),
        }
    }

    fn to_i16(v: &Value) -> (r: Result<i16, MarshallError>) {
        match v {
            Value::Int(i) => if i16::MIN as i128 <= *i && *i <= i16::MAX as i128 {
                Ok(*i as i16)
            } else {
                Err(MarshallError::OutOfRange)
            },
            _ => Err(MarshallError::WrongType),
        }
    }

    fn to_i32(v: &Value) -> (r: Result<i32, MarshallError>) {
        match v {
            Value::Int(i) => if i32::MIN as i128 <= *i && *i <= i32::MAX as i128 {
                Ok(*i as i32)
            } else {
                Err(MarshallError::OutOfRange)
            },
            _ => Err(MarshallError::WrongType),
        }
    }

    fn to_i64(v: &Value) -> (r: Result<i64, MarshallError>) {
        match v {
            Value::Int(i) => if i64::MIN as i128 <= *i && *i <= i64::MAX as i128 {
                Ok(*i as i64)
            } else {
                Err(MarshallError::OutOfRange)
            },
            _ => Err(MarshallError::WrongType),
        }
    }

    fn to_string(v: &Value) -> (r: Result<String, MarshallError>) {
        match v {
            Value::Str(s) => Ok(s.clone()),
            _ => Err(MarshallError::WrongType),
        }
    }

    fn from_bool(b: bool) -> (r: Value) {
        Value::Bool(b)
    }

    fn from_u8(x: u8) -> (r: Value) {
        Value::Int(x as i128)
    }

    fn from_u16(x: u16) -> (r: Value) {
        Value::Int(x as i128)
    }

    fn from_u32(x: u32) -> (r: Value) {
        Value::Int(x as i128)
    }

    fn from_u64(x: u64) -> (r: Value) {
        Value::Int(x as i128)
    }

    fn from_i8(x: i8) -> (r: Value) {
        Value::Int(x as i128)
    }

    fn from_i16(x: i16) -> (r: Value) {
        Value::Int(x as i128)
    }

    fn from_i32(x: i32) -> (r: Value) {
        Value::Int(x as i128)
    }

    fn from_i64(x: i64) -> (r: Value) {
        Value::Int(x as i128)
    }

    fn from_string(s: String) -> (r: Value) {
        Value::Str(s)
    }

    fn default_return_value() -> (r: Option<Value>) {
        Some(Value::Nil)
    }

    proof fn round_trip_bool(b: bool) {
    }

    proof fn round_trip_u8(x: u8) {
    }

    proof fn round_trip_u16(x: u16) {
    }

    proof fn round_trip_u32(x: u32) {
    }

    proof fn round_trip_u64(x: u64) {
    }

    proof fn round_trip_i8(x: i8) {
    }

    proof fn round_trip_i16(x: i16) {
    }

    proof fn round_trip_i32(x: i32) {
    }

    proof fn round_trip_i64(x: i64) {
    }

    proof fn round_trip_string(s: String) {
    }
}

/// Round trip in the scripting direction: whenever a conversion towards a
/// native type succeeds on a value of the canonical shape, converting the
/// native result back yields the very same scripting value.
pub proof fn lemma_script_round_trip(v: Value)
    ensures
        v matches Value::Bool(b) ==> ScriptMarshall::spec_from_bool(
            ScriptMarshall::spec_to_bool(&v),
        ) == v,
        ScriptMarshall::spec_to_u8(&v) matches Ok(x) ==> ScriptMarshall::spec_from_u8(x) == v,
        ScriptMarshall::spec_to_u16(&v) matches Ok(x) ==> ScriptMarshall::spec_from_u16(x) == v,
        ScriptMarshall::spec_to_u32(&v) matches Ok(x) ==> ScriptMarshall::spec_from_u32(x) == v,
        ScriptMarshall::spec_to_u64(&v) matches Ok(x) ==> ScriptMarshall::spec_from_u64(x) == v,
        ScriptMarshall::spec_to_i8(&v) matches Ok(x) ==> ScriptMarshall::spec_from_i8(x) == v,
        ScriptMarshall::spec_to_i16(&v) matches Ok(x) ==> ScriptMarshall::spec_from_i16(x) == v,
        ScriptMarshall::spec_to_i32(&v) matches Ok(x) ==> ScriptMarshall::spec_from_i32(x) == v,
        ScriptMarshall::spec_to_i64(&v) matches Ok(x) ==> ScriptMarshall::spec_from_i64(x) == v,
        v matches Value::Str(s) ==> ScriptMarshall::spec_from_string(s) == v,
{
}

} // verus!
