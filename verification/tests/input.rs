use synarion::input::action::{Action, ActionMap, InputBinding};
use synarion::input::gamepad::{GamepadAxis, GamepadButton};
use synarion::input::keyboard::{KeyCode, KeyState};
use synarion::input::mouse::MouseButton;

fn jump() -> Action {
    Action {
        name: String::from("jump"),
        bindings: vec![
            InputBinding::Key(KeyCode::Space),
            InputBinding::Gamepad(GamepadButton::South),
        ],
    }
}

#[test]
fn action_map_starts_empty() {
    let map = ActionMap::new();
    assert!(map.get("jump").is_none());
    assert!(ActionMap::default().get("").is_none());
}

#[test]
fn action_map_register_then_get() {
    let mut map = ActionMap::new();
    map.register(jump());
    map.register(Action { name: String::from("fire"), bindings: vec![InputBinding::Mouse(MouseButton::Left)] });
    let found = map.get("jump").expect("registered");
    assert_eq!(found.name, "jump");
    assert_eq!(found.bindings.len(), 2);
    assert!(matches!(found.bindings[0], InputBinding::Key(KeyCode::Space)));
    assert!(matches!(found.bindings[1], InputBinding::Gamepad(GamepadButton::South)));
    let fire = map.get("fire").expect("registered");
    assert!(matches!(fire.bindings[0], InputBinding::Mouse(MouseButton::Left)));
    assert!(map.get("duck").is_none());
    assert!(map.get("Jump").is_none());
}

#[test]
fn action_map_register_replaces_same_name() {
    let mut map = ActionMap::new();
    map.register(jump());
    map.register(Action { name: String::from("jump"), bindings: vec![InputBinding::Key(KeyCode::W)] });
    let found = map.get("jump").expect("registered");
    assert_eq!(found.bindings.len(), 1);
    assert!(matches!(found.bindings[0], InputBinding::Key(KeyCode::W)));
}

#[test]
fn input_enums_compare_by_variant() {
    assert_eq!(KeyCode::A, KeyCode::A);
    assert_ne!(KeyCode::A, KeyCode::B);
    assert_ne!(KeyState::Pressed, KeyState::JustPressed);
    assert_eq!(MouseButton::Other(4), MouseButton::Other(4));
    assert_ne!(MouseButton::Other(4), MouseButton::Other(5));
    assert_ne!(MouseButton::Left, MouseButton::Right);
    assert_ne!(GamepadButton::DPadUp, GamepadButton::DPadDown);
    assert_ne!(GamepadAxis::LeftStickX, GamepadAxis::LeftStickY);
    let copy = KeyCode::Escape;
    let again = copy;
    assert_eq!(copy, again);
}
