use mado::layout::{byte_column, byte_index_for_column, preedit_window_start, visible_preedit};

#[test]
fn converts_ime_byte_offsets_to_grid_columns() {
    assert_eq!(byte_column("a日本", 1), 1);
    assert_eq!(byte_column("a日本", 4), 3);
    assert_eq!(byte_column("a日本", 7), 5);
}

#[test]
fn converts_grid_columns_back_to_byte_offsets() {
    assert_eq!(byte_index_for_column("a日本", 0), 0);
    assert_eq!(byte_index_for_column("a日本", 1), 1);
    assert_eq!(byte_index_for_column("a日本", 3), 4);
    assert_eq!(byte_index_for_column("a日本", 5), 7);
}

#[test]
fn keeps_the_preedit_selection_visible_when_text_is_long() {
    let visible = visible_preedit("かな漢字まじりの長い変換テキスト", Some((24, 24)), 6);
    assert!(visible.width <= 6);
    assert!(visible.selection_end >= visible.start_column);
    assert!(visible.selection_end <= visible.start_column + 6);
    assert!(visible.clipped_start || visible.clipped_end);
}

#[test]
fn prefers_the_selection_start_when_selection_is_wider_than_view() {
    let start = preedit_window_start(3, 12, 20, 5);
    assert_eq!(start, 3);
}

#[test]
fn reports_when_preedit_is_clipped_on_each_side() {
    let left = visible_preedit("abcdef", Some((0, 0)), 3);
    assert!(!left.clipped_start);
    assert!(left.clipped_end);

    let right = visible_preedit("abcdef", Some((6, 6)), 3);
    assert!(right.clipped_start);
    assert!(!right.clipped_end);
}

#[test]
fn byte_columns_inside_a_character_count_the_characters_before_it() {
    assert_eq!(byte_column("a日本", 2), 3);
    assert_eq!(byte_column("a日本", 5), 5);
    assert_eq!(byte_column("a日本", 100), 5);
}

#[test]
fn column_lands_after_a_wide_character_it_splits() {
    assert_eq!(byte_index_for_column("a日本", 2), 4);
    assert_eq!(byte_index_for_column("a日本", 99), 7);
    assert_eq!(byte_index_for_column("", 3), 0);
}

#[test]
fn measures_display_width_of_the_whole_text() {
    let visible = visible_preedit("a日本", None, 10);
    assert_eq!((visible.selection_start, visible.width), (5, 5));
    let empty = visible_preedit("", None, 10);
    assert_eq!((empty.selection_start, empty.width), (0, 0));
}

#[test]
fn places_the_window_to_show_the_selection() {
    assert_eq!(preedit_window_start(2, 4, 5, 10), 0);
    assert_eq!(preedit_window_start(15, 15, 20, 5), 10);
    assert_eq!(preedit_window_start(19, 20, 20, 5), 15);
    assert_eq!(preedit_window_start(12, 3, 20, 5), 3);
    assert_eq!(preedit_window_start(0, 0, 20, 5), 0);
}

#[test]
fn shows_the_whole_short_preedit() {
    let visible = visible_preedit("abc", None, 10);
    assert_eq!(visible.text, "abc");
    assert_eq!(visible.width, 3);
    assert_eq!((visible.selection_start, visible.selection_end), (3, 3));
    assert!(!visible.clipped_start && !visible.clipped_end);
}

#[test]
fn cuts_the_window_out_of_a_long_preedit() {
    let visible = visible_preedit("abcdef", Some((3, 4)), 3);
    assert_eq!(visible.start_column, 1);
    assert_eq!(visible.text, "bcd");
    assert_eq!(visible.width, 3);
    assert_eq!((visible.selection_start, visible.selection_end), (3, 4));
}
