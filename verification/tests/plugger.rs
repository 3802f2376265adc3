//! End-to-end scenarios: plugging native objects and calling them through
//! the evaluation surface.

use plugger::player::Player;
use plugger::vm::Vm;

/// One entry point covering the classic scenarios: native methods reachable
/// from the scripting side, string marshalling, passing a plugged object as
/// a non-receiver argument, and nil injection for value-less methods.
#[test]
fn plugger() {
    // We should be able to call simple native methods from the script side.
    let mut vm: Vm<Player> = Vm::new();
    let player = Player::default();
    vm.plug("player", player).unwrap();
    assert_eq!(vm.eval("PLAYER.x").unwrap(), "453");
    assert_eq!(vm.eval("PLAYER.y").unwrap(), "-244");
    assert_eq!(vm.eval("PLAYER.z").unwrap(), "48879");

    // Native strings come back marshalled into scripting strings.
    let mut vm: Vm<Player> = Vm::new();
    vm.plug("player", Player::default()).unwrap();
    assert_eq!(vm.eval("PLAYER.name").unwrap(), "\"Bob\"");

    // A plugged object can be passed to another plugged object's method;
    // the callee sees the very same object state through the handle table.
    let mut vm: Vm<Player> = Vm::new();
    let long_name_player = Player {
        name: String::from("long as shit name"),
        ..Player::default()
    };
    let short_name_player = Player {
        name: String::from("bar"),
        ..Player::default()
    };
    vm.plug("long_name_player", long_name_player).unwrap();
    vm.plug("short_name_player", short_name_player).unwrap();
    assert_eq!(
        vm.eval("SHORT_NAME_PLAYER.longest_name(LONG_NAME_PLAYER)").unwrap(),
        "\"long as shit name\""
    );

    // If the native method has no return value, the marshalled call yields
    // the runtime's nil.
    let mut vm: Vm<Player> = Vm::new();
    vm.plug("player", Player::default()).unwrap();
    assert_eq!(vm.eval("PLAYER.move_left").unwrap(), "nil");
}

/// The full concrete scenario: Bob at (453, -244, 0xbeef); reading fields
/// through the mirrored class, then mutating through it.
#[test]
fn concrete_scenario() {
    let mut vm: Vm<Player> = Vm::new();
    let h = vm
        .plug(
            "player",
            Player {
                name: String::from("Bob"),
                x: 453,
                y: -244,
                z: 0xbeef,
            },
        )
        .unwrap();
    assert_eq!(vm.eval("PLAYER.x").unwrap(), "453");
    assert_eq!(vm.eval("PLAYER.name").unwrap(), "\"Bob\"");
    assert_eq!(vm.eval("PLAYER.move_left").unwrap(), "nil");
    assert_eq!(vm.eval("PLAYER.x").unwrap(), "454");
    // The mutation reached the native object itself.
    assert_eq!(vm.object(h).unwrap().x(), 454);
}

/// Passing the receiver itself as the argument resolves to the same state.
#[test]
fn accepts_own_object_as_argument() {
    let mut vm: Vm<Player> = Vm::new();
    vm.plug("player", Player::default()).unwrap();
    assert_eq!(vm.eval("PLAYER.longest_name(PLAYER)").unwrap(), "\"Bob\"");
}

/// The instance carries its object handle, readable through the base
/// class's accessor.
#[test]
fn object_pointer_accessor() {
    let mut vm: Vm<Player> = Vm::new();
    vm.plug("player", Player::default()).unwrap();
    assert_eq!(vm.eval("PLAYER.object_pointer").unwrap(), "0");
    vm.plug("other", Player::default()).unwrap();
    assert_eq!(vm.eval("OTHER.object_pointer").unwrap(), "1");
}

/// Reading constants: a plugged instance renders as an instance, the
/// mirrored class and the bootstrap base class are visible by name.
#[test]
fn constant_reads() {
    let mut vm: Vm<Player> = Vm::new();
    vm.plug("player", Player::default()).unwrap();
    assert_eq!(vm.eval("PLAYER").unwrap(), "#<Player>");
    assert_eq!(vm.eval("Player").unwrap(), "Player");
    assert_eq!(vm.eval("PluggerObject").unwrap(), "PluggerObject");
}
