use mado::input::{
    character_key, key_to_nvim, named_key, nvim_modifiers, repeated_direction, wheel_directions,
    KeyInput, LogicalKey, Modifiers, NamedKey, WheelDirection,
};

fn ctrl() -> Modifiers {
    Modifiers { control: true, ..Modifiers::default() }
}

#[test]
fn escapes_literal_angle_bracket() {
    assert_eq!(character_key("<", Some("<"), Modifiers::default()).as_deref(), Some("<LT>"));
}

#[test]
fn encodes_control_character() {
    assert_eq!(character_key("S", None, ctrl()).as_deref(), Some("<C-s>"));
}

#[test]
fn does_not_forward_uncommitted_ime_key() {
    assert_eq!(character_key("k", None, Modifiers::default()), None);
}

#[test]
fn escapes_every_angle_bracket_in_committed_text() {
    assert_eq!(character_key("a", Some("a<b<"), Modifiers::default()).as_deref(), Some("a<LT>b<LT>"));
    assert_eq!(character_key("a", Some(""), Modifiers::default()), None);
}

#[test]
fn orders_command_modifiers_control_alt_super_shift() {
    let all = Modifiers { shift: true, control: true, alt: true, super_key: true };
    assert_eq!(character_key("X", None, all).as_deref(), Some("<C-A-D-S-x>"));
    let alt = Modifiers { alt: true, ..Modifiers::default() };
    assert_eq!(character_key("", Some("x"), alt), None);
}

#[test]
fn lists_modifier_letters_shift_first() {
    let all = Modifiers { shift: true, control: true, alt: true, super_key: true };
    assert_eq!(nvim_modifiers(all), "SCAD");
    assert_eq!(nvim_modifiers(Modifiers::default()), "");
}

#[test]
fn names_special_keys() {
    assert_eq!(named_key(NamedKey::Enter, Modifiers::default()).as_deref(), Some("<CR>"));
    let shift_ctrl = Modifiers { shift: true, control: true, ..Modifiers::default() };
    assert_eq!(named_key(NamedKey::ArrowLeft, shift_ctrl).as_deref(), Some("<S-C-Left>"));
    assert_eq!(named_key(NamedKey::F12, Modifiers::default()).as_deref(), Some("<F12>"));
    assert_eq!(named_key(NamedKey::Other, Modifiers::default()), None);
}

#[test]
fn ignores_released_and_dead_keys() {
    let released = KeyInput { pressed: false, logical_key: LogicalKey::Named(NamedKey::Escape), text: None };
    assert_eq!(key_to_nvim(&released, Modifiers::default()), None);
    let dead = KeyInput { pressed: true, logical_key: LogicalKey::Dead, text: Some("´".into()) };
    assert_eq!(key_to_nvim(&dead, Modifiers::default()), None);
    let escape = KeyInput { pressed: true, logical_key: LogicalKey::Named(NamedKey::Escape), text: None };
    assert_eq!(key_to_nvim(&escape, Modifiers::default()).as_deref(), Some("<Esc>"));
    let typed = KeyInput { pressed: true, logical_key: LogicalKey::Character("a".into()), text: Some("a".into()) };
    assert_eq!(key_to_nvim(&typed, Modifiers::default()).as_deref(), Some("a"));
}

#[test]
fn lowercases_unicode_logical_text_with_control() {
    assert_eq!(character_key("Ä", None, ctrl()).as_deref(), Some("<C-ä>"));
}

#[test]
fn preserves_wheel_step_counts_for_both_axes() {
    assert_eq!(
        wheel_directions(-3, -2),
        [
            WheelDirection::Down,
            WheelDirection::Down,
            WheelDirection::Down,
            WheelDirection::Left,
            WheelDirection::Left,
        ]
    );
    assert_eq!(wheel_directions(1, 2), [WheelDirection::Up, WheelDirection::Right, WheelDirection::Right]);
    assert!(wheel_directions(0, 0).is_empty());
    assert_eq!(repeated_direction(-2, WheelDirection::Up, WheelDirection::Down), [WheelDirection::Down, WheelDirection::Down]);
}
