use mado::grid::GridState;
use mado::ime::ImeState;
use mado::input::WheelDirection;
use mado::redraw::{CursorStyle, RedrawEvent};
use mado::ui_state::{
    apply_redraw_events, button_name, close_command, events_restart_blink, mode_allows_ime,
    note_frame, set_ime_for_mode, wheel_action, window_title, CursorBlink, MouseTracker, PointerButton,
};

#[test]
fn enables_ime_only_for_text_entry_modes() {
    for mode in ["insert", "insert_completion", "replace", "cmdline_normal", "cmdline_insert", "terminal"] {
        assert!(mode_allows_ime(mode), "{mode}");
    }
    for mode in ["normal", "visual", "operator", "select"] {
        assert!(!mode_allows_ime(mode), "{mode}");
    }
}

#[test]
fn follows_cursor_blink_timing() {
    let start: u64 = 1_000;
    let mut blink = CursorBlink::default();
    blink.reset(
        &CursorStyle { blink_wait: 100, blink_on: 200, blink_off: 50, ..CursorStyle::default() },
        start,
    );
    assert!(blink.visible());
    assert!(!blink.advance(start + 99));
    assert!(blink.advance(start + 100));
    assert!(!blink.visible());
    assert!(blink.advance(start + 150));
    assert!(blink.visible());
}

#[test]
fn close_uses_neovim_confirmation_flow() {
    assert_eq!(close_command(), "<Esc>:confirm qa<CR>");
}

#[test]
fn window_title_reflects_startup_state() {
    assert_eq!(window_title(false), "Mado — Starting…");
    assert_eq!(window_title(true), "Mado");
}

#[test]
fn blink_cycles_hidden_then_shown() {
    let mut blink = CursorBlink::default();
    blink.reset(&CursorStyle { blink_wait: 10, blink_on: 30, blink_off: 20, ..CursorStyle::default() }, 0);
    assert!(blink.advance(10));
    assert!(!blink.visible());
    assert!(!blink.advance(29));
    assert!(blink.advance(30));
    assert!(blink.visible());
    assert!(!blink.advance(59));
    assert!(blink.advance(60));
    assert!(!blink.visible());
    // several half-cycles at once: 60 + 20 + 30 = 110 ends hidden again.
    assert!(!blink.advance(115));
    assert!(!blink.visible());
}

#[test]
fn blinkless_styles_keep_the_cursor_shown() {
    let mut blink = CursorBlink::default();
    blink.reset(&CursorStyle { blink_wait: 10, blink_on: 0, blink_off: 20, ..CursorStyle::default() }, 0);
    assert!(!blink.advance(1_000));
    assert!(blink.visible());
    blink.reset(&CursorStyle { blink_wait: 10, blink_on: 5, blink_off: 5, ..CursorStyle::default() }, 0);
    assert!(blink.advance(12));
    blink.suspend();
    assert!(blink.visible());
    assert!(!blink.advance(10_000));
}

#[test]
fn names_wheel_and_mouse_actions() {
    assert_eq!(wheel_action(WheelDirection::Up), "up");
    assert_eq!(wheel_action(WheelDirection::Left), "left");
    assert_eq!(button_name(PointerButton::Middle), "middle");
    let mut mouse = MouseTracker::default();
    assert_eq!(mouse.drag(), None);
    assert_eq!(mouse.button(PointerButton::Left, true), ("left", "press"));
    assert_eq!(mouse.drag(), Some("left"));
    assert_eq!(mouse.button(PointerButton::Left, false), ("left", "release"));
    assert_eq!(mouse.drag(), None);
}

#[test]
fn turns_the_input_method_off_outside_text_modes() {
    let mut allowed = false;
    let mut ime = ImeState::default();
    assert!(set_ime_for_mode(&mut allowed, &mut ime, "insert"));
    assert!(allowed);
    ime.set_preedit("か".into(), None);
    assert!(!set_ime_for_mode(&mut allowed, &mut ime, "insert_completion"));
    assert!(ime.preedit().is_some());
    assert!(set_ime_for_mode(&mut allowed, &mut ime, "normal"));
    assert!(!allowed);
    assert_eq!(ime, ImeState::Idle);
}

#[test]
fn applies_batches_and_notes_the_first_frame() {
    let mut grid = GridState::default();
    let events = vec![
        RedrawEvent::GridResize { grid: 1, width: 4, height: 2 },
        RedrawEvent::GridCursorGoto { grid: 1, row: 1, col: 2 },
        RedrawEvent::Flush,
    ];
    assert!(apply_redraw_events(&mut grid, &events));
    assert_eq!((grid.width(), grid.height()), (4, 2));
    assert_eq!((grid.cursor().row, grid.cursor().col), (1, 2));
    assert!(events_restart_blink(&events));
    assert!(!events_restart_blink(&vec![RedrawEvent::Flush]));
    let mut first = false;
    assert!(note_frame(&mut first, true));
    assert!(!note_frame(&mut first, true));
    assert!(first);
    let mut waiting = false;
    assert!(!note_frame(&mut waiting, false));
    assert!(!waiting);
}
