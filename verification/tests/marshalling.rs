//! The marshall contract on concrete values: round trips, range checks,
//! strict boolean reads and the default-return policy.

use plugger::marshall::{Marshall, MarshallError, ScriptMarshall};
use plugger::value::Value;

/// Every in-range native integer survives the crossing unchanged.
#[test]
fn round_trip_integers() {
    assert_eq!(ScriptMarshall::to_u8(&ScriptMarshall::from_u8(7)), Ok(7));
    assert_eq!(ScriptMarshall::to_u8(&ScriptMarshall::from_u8(255)), Ok(255));
    assert_eq!(ScriptMarshall::to_u16(&ScriptMarshall::from_u16(40_000)), Ok(40_000));
    assert_eq!(
        ScriptMarshall::to_u32(&ScriptMarshall::from_u32(4_000_000_000)),
        Ok(4_000_000_000)
    );
    assert_eq!(ScriptMarshall::to_u64(&ScriptMarshall::from_u64(u64::MAX)), Ok(u64::MAX));
    assert_eq!(ScriptMarshall::to_i8(&ScriptMarshall::from_i8(-128)), Ok(-128));
    assert_eq!(ScriptMarshall::to_i16(&ScriptMarshall::from_i16(-32_768)), Ok(-32_768));
    assert_eq!(ScriptMarshall::to_i32(&ScriptMarshall::from_i32(i32::MIN)), Ok(i32::MIN));
    assert_eq!(ScriptMarshall::to_i64(&ScriptMarshall::from_i64(i64::MAX)), Ok(i64::MAX));
}

/// The canonical scripting representations also survive the reverse trip.
#[test]
fn round_trip_canonical_values() {
    let v = Value::integer(453);
    let x = ScriptMarshall::to_i64(&v).unwrap();
    assert_eq!(ScriptMarshall::from_i64(x), Value::integer(453));

    let s = Value::string(String::from("Bob"));
    let native = ScriptMarshall::to_string(&s).unwrap();
    assert_eq!(native, "Bob");
    assert_eq!(ScriptMarshall::from_string(native), Value::string(String::from("Bob")));

    let b = Value::boolean(true);
    assert!(ScriptMarshall::to_bool(&b));
    assert_eq!(ScriptMarshall::from_bool(true), Value::boolean(true));
}

/// A scripting integer of 300 does not fit an 8-bit unsigned target: the
/// conversion fails instead of truncating.
#[test]
fn out_of_range_conversion_fails() {
    assert_eq!(
        ScriptMarshall::to_u8(&Value::integer(300)),
        Err(MarshallError::OutOfRange)
    );
    assert_eq!(
        ScriptMarshall::to_u8(&Value::integer(-1)),
        Err(MarshallError::OutOfRange)
    );
    assert_eq!(
        ScriptMarshall::to_i8(&Value::integer(-300)),
        Err(MarshallError::OutOfRange)
    );
    assert_eq!(
        ScriptMarshall::to_u64(&Value::integer(-1)),
        Err(MarshallError::OutOfRange)
    );
    assert_eq!(
        ScriptMarshall::to_i64(&Value::integer(i128::MAX)),
        Err(MarshallError::OutOfRange)
    );
}

/// Conversions towards the wrong shape fail with a type error.
#[test]
fn wrong_type_conversion_fails() {
    assert_eq!(
        ScriptMarshall::to_u8(&Value::string(String::from("7"))),
        Err(MarshallError::WrongType)
    );
    assert_eq!(
        ScriptMarshall::to_string(&Value::integer(7)),
        Err(MarshallError::WrongType)
    );
    assert_eq!(ScriptMarshall::to_i32(&Value::nil()), Err(MarshallError::WrongType));
}

/// Boolean reads are strict: only the boolean true is true.
#[test]
fn strict_boolean_reads() {
    assert!(ScriptMarshall::to_bool(&Value::boolean(true)));
    assert!(!ScriptMarshall::to_bool(&Value::boolean(false)));
    assert!(!ScriptMarshall::to_bool(&Value::nil()));
    assert!(!ScriptMarshall::to_bool(&Value::integer(0)));
    assert!(!ScriptMarshall::to_bool(&Value::integer(1)));
    assert!(!ScriptMarshall::to_bool(&Value::string(String::new())));
}

/// The runtime wants nil for value-less methods.
#[test]
fn default_return_value_is_nil() {
    assert_eq!(ScriptMarshall::default_return_value(), Some(Value::nil()));
}

/// The evaluator's renderings of plain values.
#[test]
fn inspect_renderings() {
    assert_eq!(Value::nil().inspect(), "nil");
    assert_eq!(Value::boolean(true).inspect(), "true");
    assert_eq!(Value::boolean(false).inspect(), "false");
    assert_eq!(Value::integer(0).inspect(), "0");
    assert_eq!(Value::integer(453).inspect(), "453");
    assert_eq!(Value::integer(-244).inspect(), "-244");
    assert_eq!(Value::integer(48879).inspect(), "48879");
    assert_eq!(
        Value::integer(i128::MAX).inspect(),
        "170141183460469231731687303715884105727"
    );
    assert_eq!(
        Value::integer(i128::MIN).inspect(),
        "-170141183460469231731687303715884105728"
    );
    assert_eq!(Value::string(String::from("Bob")).inspect(), "\"Bob\"");
}
