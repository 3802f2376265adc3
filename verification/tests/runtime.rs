//! The registration engine, the dispatch protocol and its error taxonomy,
//! driven through the public runtime surface.

use plugger::animal::Animal;
use plugger::handle::{HandleError, HandleTable};
use plugger::interp::ErrorKind;
use plugger::marshall::MarshallError;
use plugger::player::Player;
use plugger::pluggable::{DispatchError, Pluggable};
use plugger::value::Value;
use plugger::vm::{PlugError, Vm};

/// Plugging issues consecutive object handles and binds the upper-cased
/// global.
#[test]
fn plug_binds_global() {
    let mut vm: Vm<Player> = Vm::new();
    let h = vm.plug("player", Player::default()).unwrap();
    assert_eq!(h, 0);
    assert_eq!(vm.eval("PLAYER").unwrap(), "#<Player>");
    let h2 = vm.plug("second", Player::default()).unwrap();
    assert_eq!(h2, 1);
}

/// Plugging the same public name twice is refused, and the runtime is left
/// as it was.
#[test]
fn duplicate_plug_is_refused() {
    let mut vm: Vm<Player> = Vm::new();
    vm.plug("player", Player::default()).unwrap();
    assert_eq!(
        vm.plug("player", Player::default()),
        Err(PlugError::DuplicateName)
    );
    assert_eq!(vm.eval("PLAYER.x").unwrap(), "453");
}

/// A name bound to nothing is an unknown-name error.
#[test]
fn unknown_names() {
    let mut vm: Vm<Player> = Vm::new();
    vm.plug("player", Player::default()).unwrap();
    assert_eq!(vm.eval("NOPE"), Err(ErrorKind::UnknownName));
    assert_eq!(vm.eval("NOPE.x"), Err(ErrorKind::UnknownName));
    assert_eq!(vm.eval("PLAYER.longest_name(NOPE)"), Err(ErrorKind::UnknownName));
}

/// Inputs outside the grammar are syntax errors.
#[test]
fn syntax_errors() {
    let mut vm: Vm<Player> = Vm::new();
    vm.plug("player", Player::default()).unwrap();
    assert_eq!(vm.eval(""), Err(ErrorKind::Syntax));
    assert_eq!(vm.eval("PLAYER."), Err(ErrorKind::Syntax));
    assert_eq!(vm.eval("PLAYER.x("), Err(ErrorKind::Syntax));
    assert_eq!(vm.eval("1PLAYER"), Err(ErrorKind::Syntax));
    assert_eq!(vm.eval("PLAYER..x"), Err(ErrorKind::Syntax));
    assert_eq!(vm.eval("PLAYER.longest_name(,)"), Err(ErrorKind::Syntax));
    // The explicit empty argument list is inside the grammar.
    assert_eq!(vm.eval("PLAYER.x()").unwrap(), "453");
}

/// A method the class does not mirror is a no-method error.
#[test]
fn no_method() {
    let mut vm: Vm<Player> = Vm::new();
    vm.plug("player", Player::default()).unwrap();
    assert_eq!(vm.eval("PLAYER.teleport"), Err(ErrorKind::NoMethod));
}

/// The wrong argument count is surfaced before the shim runs.
#[test]
fn wrong_arity() {
    let mut vm: Vm<Player> = Vm::new();
    vm.plug("player", Player::default()).unwrap();
    assert_eq!(vm.eval("PLAYER.x(PLAYER)"), Err(ErrorKind::Arity));
    assert_eq!(vm.eval("PLAYER.longest_name"), Err(ErrorKind::Arity));
    assert_eq!(vm.eval("PLAYER.object_pointer(PLAYER)"), Err(ErrorKind::Arity));
}

/// A method declared without a receiver is callable on the class itself; a
/// method with a receiver is not.
#[test]
fn static_versus_instance_dispatch() {
    let mut vm: Vm<Animal> = Vm::new();
    vm.plug("animal", Animal { a: 512 }).unwrap();
    // Class-level calls need no instance at all.
    assert_eq!(vm.eval("Animal.woof").unwrap(), "nil");
    assert_eq!(vm.eval("Animal.meow").unwrap(), "\"meooooooow\"");
    // The instance method works through the bound instance.
    assert_eq!(vm.eval("ANIMAL.moo").unwrap(), "512");
    // An instance method is not a class-level entry, and a class-level
    // entry is not an instance method.
    assert_eq!(vm.eval("Animal.moo"), Err(ErrorKind::NoMethod));
    assert_eq!(vm.eval("ANIMAL.woof"), Err(ErrorKind::NoMethod));
}

/// A value-less method yields nil even from the class-level path.
#[test]
fn default_return_injection() {
    let mut vm: Vm<Animal> = Vm::new();
    vm.plug("animal", Animal { a: 1 }).unwrap();
    assert_eq!(vm.eval("Animal.woof").unwrap(), "nil");
    let mut vm: Vm<Player> = Vm::new();
    vm.plug("player", Player::default()).unwrap();
    assert_eq!(vm.eval("PLAYER.move_left").unwrap(), "nil");
}

/// The mirrored class is created on the first plug of a type and reused by
/// later plugs; each instance keeps its own state.
#[test]
fn class_reused_across_plugs() {
    let mut vm: Vm<Animal> = Vm::new();
    vm.plug("first", Animal { a: 1 }).unwrap();
    vm.plug("second", Animal { a: 2 }).unwrap();
    assert_eq!(vm.eval("FIRST.moo").unwrap(), "1");
    assert_eq!(vm.eval("SECOND.moo").unwrap(), "2");
    assert_eq!(vm.eval("Animal.meow").unwrap(), "\"meooooooow\"");
}

/// Unregistering an object makes its handle report dangling, not resolve
/// to anything else.
#[test]
fn dangling_handles() {
    let mut vm: Vm<Player> = Vm::new();
    let h = vm.plug("player", Player::default()).unwrap();
    let taken = vm.unregister_object(h).unwrap();
    assert_eq!(taken.x(), 453);
    assert_eq!(
        vm.eval("PLAYER.x"),
        Err(ErrorKind::Dispatch(DispatchError::Object(HandleError::Dangling)))
    );
    assert_eq!(vm.unregister_object(h), Err(HandleError::Dangling));
    assert_eq!(vm.unregister_object(99), Err(HandleError::Unknown));
}

/// The handle table issues stable handles and keeps earlier entries
/// untouched by later registrations.
#[test]
fn handle_table_round_trip() {
    let mut table: HandleTable<u64> = HandleTable::new();
    let a = table.register(10);
    let b = table.register(20);
    assert_eq!(a, 0);
    assert_eq!(b, 1);
    assert_eq!(table.resolve(a), Ok(&10));
    assert_eq!(table.resolve(b), Ok(&20));
    assert_eq!(table.resolve(2), Err(HandleError::Unknown));
    assert_eq!(table.unregister(a), Ok(10));
    assert_eq!(table.resolve(a), Err(HandleError::Dangling));
    // The freed slot is never reissued.
    let c = table.register(30);
    assert_eq!(c, 2);
    assert_eq!(table.resolve(b), Ok(&20));
}

/// Driving the shims directly with a broken protocol.
#[test]
fn shim_protocol_errors() {
    let mut vm: Vm<Player> = Vm::new();
    vm.plug("player", Player::default()).unwrap();
    let receiver = Value::nil();
    // No leading function handle at all.
    let argv: Vec<Value> = Vec::new();
    assert_eq!(
        vm.method_shim(&receiver, &argv),
        Err(DispatchError::BadFunctionHandle)
    );
    // A handle that was never issued.
    let argv = vec![Value::integer(99)];
    assert_eq!(
        vm.method_shim(&receiver, &argv),
        Err(DispatchError::BadFunctionHandle)
    );
    // An instance entry through the singleton shim.
    let argv = vec![Value::integer(0)];
    assert_eq!(vm.function_shim(&argv), Err(DispatchError::WrongProtocol));
    // An instance entry with a receiver that is no instance.
    let argv = vec![Value::integer(0)];
    assert_eq!(vm.method_shim(&receiver, &argv), Err(DispatchError::NoReceiver));
}

/// Driving the native entry point directly: conversion and entry errors.
#[test]
fn native_entry_errors() {
    let mut table: HandleTable<Player> = HandleTable::new();
    let h = table.register(Player::default());
    // An object-typed parameter fed a plain integer.
    let args = vec![Value::integer(5)];
    assert_eq!(
        Player::call_entry(&mut table, Some(h), 4, &args),
        Err(DispatchError::Conversion(MarshallError::WrongType))
    );
    // An entry code the native side does not know.
    let args: Vec<Value> = Vec::new();
    assert_eq!(
        Player::call_entry(&mut table, Some(h), 99, &args),
        Err(DispatchError::UnknownEntry)
    );
    // An instance entry without a receiver.
    assert_eq!(
        Player::call_entry(&mut table, None, 0, &args),
        Err(DispatchError::NoReceiver)
    );
}

/// Stepping past the numeric edge of the world aborts the dispatch with an
/// out-of-range conversion error.
#[test]
fn move_left_at_the_edge() {
    let mut vm: Vm<Player> = Vm::new();
    vm.plug(
        "player",
        Player {
            x: i32::MAX,
            ..Player::default()
        },
    )
    .unwrap();
    assert_eq!(
        vm.eval("PLAYER.move_left"),
        Err(ErrorKind::Dispatch(DispatchError::Conversion(MarshallError::OutOfRange)))
    );
    assert_eq!(vm.eval("PLAYER.x").unwrap(), format!("{}", i32::MAX));
}
