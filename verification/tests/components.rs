//! The building blocks on their own: native example types, descriptors,
//! the expression parser and the text utilities.

use plugger::animal::Animal;
use plugger::descriptor::{Class, Method, Parameter, TypeTag};
use plugger::parse::{parse, Ast};
use plugger::player::Player;
use plugger::pluggable::Pluggable;
use plugger::text::{check_identifier, decimal, to_upper};

/// The native methods behave as declared.
#[test]
fn player_native_methods() {
    let mut player = Player::default();
    assert_eq!(player.name(), "Bob");
    assert_eq!(player.x(), 453);
    assert_eq!(player.y(), -244);
    assert_eq!(player.z(), 0xbeef);
    player.move_left();
    assert_eq!(player.x(), 454);

    let other = Player {
        name: String::from("Bo"),
        ..Player::default()
    };
    assert_eq!(player.longest_name(&other), "Bob");
    // A tie goes to the receiver.
    let same = Player {
        name: String::from("Rob"),
        ..Player::default()
    };
    assert_eq!(player.longest_name(&same), "Bob");
    assert_eq!(other.longest_name(&player), "Bob");
}

/// The second example type's native methods.
#[test]
fn animal_native_methods() {
    let animal = Animal { a: 512 };
    Animal::woof();
    assert_eq!(Animal::meow(), "meooooooow");
    assert_eq!(animal.moo(), 512);
}

/// The assembled descriptor lists every method, in order, with its
/// marshall entry for this runtime's language.
#[test]
fn player_descriptor() {
    let player = Player::default();
    let class = player.class();
    assert_eq!(class.name, "Player");
    assert_eq!(class.fields.len(), 0);
    assert_eq!(class.methods.len(), 6);
    assert_eq!(class.methods[0].name, "name");
    assert_eq!(class.methods[4].name, "longest_name");
    assert_eq!(class.methods[4].parameters.len(), 1);
    assert_eq!(class.methods[4].parameters[0].name, "other");
    assert_eq!(class.methods[4].parameters[0].ty, TypeTag::Object);
    assert_eq!(class.methods[5].name, "move_left");
    assert_eq!(class.methods[5].ret, None);
    assert!(!class.methods[5].is_static);
    assert_eq!(class.methods[5].marshall("script"), Some(5));
    assert_eq!(class.methods[5].marshall("elsewhere"), None);
    assert!(class.check_wf());
}

/// The descriptor well-formedness check refuses what the mirroring cannot
/// keep unambiguous.
#[test]
fn descriptor_well_formedness() {
    let method = |name: &str| Method {
        name: String::from(name),
        parameters: Vec::new(),
        ret: Some(TypeTag::I32),
        is_static: false,
        lang_marshalls: vec![(String::from("script"), 0)],
    };
    let ok = Class {
        name: String::from("Thing"),
        fields: Vec::new(),
        methods: vec![method("a"), method("b")],
    };
    assert!(ok.check_wf());

    // Two method names colliding once upper-cased would fight over one
    // class constant.
    let colliding = Class {
        name: String::from("Thing"),
        fields: Vec::new(),
        methods: vec![method("ab"), method("aB")],
    };
    assert!(!colliding.check_wf());

    // A method name that is no identifier cannot become an entry name.
    let broken = Class {
        name: String::from("Thing"),
        fields: Vec::new(),
        methods: vec![method("not a name")],
    };
    assert!(!broken.check_wf());

    // The class name itself must be an identifier.
    let nameless = Class {
        name: String::new(),
        fields: Vec::new(),
        methods: Vec::new(),
    };
    assert!(!nameless.check_wf());
}

/// Parameters keep their declared order and types.
#[test]
fn parameter_values() {
    let p = Parameter {
        name: String::from("health"),
        ty: TypeTag::U8,
    };
    assert_eq!(p.name, "health");
    assert_eq!(p.ty, TypeTag::U8);
}

/// The expression parser yields the structure the grammar describes.
#[test]
fn parser_structure() {
    match parse("PLAYER") {
        Some(Ast::Name(n)) => assert_eq!(n, "PLAYER"),
        other => panic!("unexpected parse: {:?}", other.is_some()),
    }
    match parse("PLAYER.x") {
        Some(Ast::Call {
            receiver,
            method,
            args,
        }) => {
            assert_eq!(receiver, "PLAYER");
            assert_eq!(method, "x");
            assert_eq!(args.len(), 0);
        },
        _ => panic!("expected a call"),
    }
    match parse("A.b(C,D_e)") {
        Some(Ast::Call {
            receiver,
            method,
            args,
        }) => {
            assert_eq!(receiver, "A");
            assert_eq!(method, "b");
            assert_eq!(args, vec![String::from("C"), String::from("D_e")]);
        },
        _ => panic!("expected a call"),
    }
    assert!(parse("").is_none());
    assert!(parse("A.").is_none());
    assert!(parse(".b").is_none());
    assert!(parse("A.b(C").is_none());
    assert!(parse("A.b(C,)").is_none());
    assert!(parse("A.b()C").is_none());
}

/// Upper-casing and identifier checks, as the registration engine uses
/// them.
#[test]
fn text_utilities() {
    assert_eq!(to_upper("move_left"), "MOVE_LEFT");
    assert_eq!(to_upper("player"), "PLAYER");
    assert_eq!(to_upper("A_9z"), "A_9Z");
    assert!(check_identifier("move_left"));
    assert!(check_identifier("_x9"));
    assert!(!check_identifier("9x"));
    assert!(!check_identifier(""));
    assert!(!check_identifier("a b"));
    assert_eq!(decimal(0), "0");
    assert_eq!(decimal(-1), "-1");
    assert_eq!(decimal(1_000_000_007), "1000000007");
}
