use mado::ime::ImeState;
use mado::input::{KeyInput, LogicalKey, Modifiers};
use mado::ui_state::{handle_ime_event, handle_key, ImeEvent};

#[test]
fn only_commit_produces_text() {
    let mut ime = ImeState::default();
    ime.set_preedit("にほ".into(), Some((6, 6)));
    assert!(ime.blocks_keyboard_input());
    assert_eq!(ime.preedit().unwrap().0, "にほ");
    ime.set_preedit(String::new(), None);
    assert_eq!(ime.commit("日本".into()).as_deref(), Some("日本"));
    assert!(ime.preedit().is_none());
}

#[test]
fn cancelled_preedit_releases_next_key() {
    let mut ime = ImeState::default();
    ime.set_preedit("x".into(), None);
    ime.set_preedit(String::new(), None);
    assert!(!ime.blocks_keyboard_input());
}

#[test]
fn empty_commit_sends_nothing() {
    let mut ime = ImeState::default();
    ime.set_preedit("a".into(), None);
    assert_eq!(ime.commit(String::new()), None);
    assert_eq!(ime, ImeState::Idle);
}

#[test]
fn composing_keeps_keys_from_neovim() {
    let mut ime = ImeState::default();
    ime.set_preedit("か".into(), Some((0, 3)));
    assert_eq!(ime.preedit(), Some(("か", Some((0, 3)))));
    assert!(ime.blocks_keyboard_input());
    assert!(ime.blocks_keyboard_input());
    ime.cancel();
    assert!(!ime.blocks_keyboard_input());
    assert_eq!(ime.preedit(), None);
}

#[test]
fn clearing_without_composition_stays_idle() {
    let mut ime = ImeState::default();
    ime.set_preedit(String::new(), None);
    assert_eq!(ime, ImeState::Idle);
}

#[test]
fn ime_events_send_only_commits() {
    let mut ime = ImeState::default();
    assert_eq!(handle_ime_event(&mut ime, ImeEvent::Enabled), None);
    assert_eq!(handle_ime_event(&mut ime, ImeEvent::Preedit("にほん".into(), Some((9, 9)))), None);
    assert_eq!(ime.preedit(), Some(("にほん", Some((9, 9)))));
    assert_eq!(handle_ime_event(&mut ime, ImeEvent::Commit("日本".into())), Some("日本".to_string()));
    assert_eq!(ime, ImeState::Idle);
    handle_ime_event(&mut ime, ImeEvent::Preedit("a".into(), None));
    assert_eq!(handle_ime_event(&mut ime, ImeEvent::Disabled), None);
    assert_eq!(ime, ImeState::Idle);
}

#[test]
fn keys_go_to_the_input_method_while_composing() {
    let key = KeyInput { pressed: true, logical_key: LogicalKey::Character("k".into()), text: Some("k".into()) };
    let mut ime = ImeState::default();
    ime.set_preedit("k".into(), None);
    assert_eq!(handle_key(&mut ime, &key, Modifiers::default()), None);
    ime.set_preedit(String::new(), None);
    assert_eq!(handle_key(&mut ime, &key, Modifiers::default()), Some("k".to_string()));
    assert_eq!(ime, ImeState::Idle);
    assert_eq!(handle_key(&mut ime, &key, Modifiers::default()), Some("k".to_string()));
}
