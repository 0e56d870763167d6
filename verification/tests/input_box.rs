use discordinator::input_box::{
    delete_char_before_cursor, insert_char, move_cursor_end, move_cursor_home, move_cursor_left,
    move_cursor_right,
};
use discordinator::types::InputState;

fn input(text: &str, cursor: usize) -> InputState {
    InputState {
        content: text.to_string(),
        cursor_pos: cursor,
        cursor_col: cursor,
        reply_to: None,
        editing: None,
    }
}

#[test]
fn typing_goes_in_at_the_cursor() {
    let mut i = input("hllo", 1);
    insert_char(&mut i, 'e');
    assert_eq!(i.content, "hello");
    assert_eq!(i.cursor_pos, 2);
    assert_eq!(i.cursor_col, 2);
}

#[test]
fn typing_counts_characters_not_bytes() {
    let mut i = input("héllo", 2);
    insert_char(&mut i, 'ü');
    assert_eq!(i.content, "héüllo");
    assert_eq!(i.cursor_pos, 3);
}

#[test]
fn backspace_at_start_changes_nothing() {
    let mut i = input("abc", 0);
    delete_char_before_cursor(&mut i);
    assert_eq!(i, input("abc", 0));
}

#[test]
fn backspace_removes_the_character_before_the_cursor() {
    let mut i = input("abc", 2);
    delete_char_before_cursor(&mut i);
    assert_eq!(i, input("ac", 1));
}

#[test]
fn backspace_undoes_typing() {
    let before = input("héllo wörld", 6);
    let mut i = before.clone();
    insert_char(&mut i, 'x');
    delete_char_before_cursor(&mut i);
    assert_eq!(i, before);
}

#[test]
fn left_undoes_right() {
    let before = input("abc", 1);
    let mut i = before.clone();
    move_cursor_right(&mut i);
    assert_eq!(i.cursor_pos, 2);
    move_cursor_left(&mut i);
    assert_eq!(i, before);
}

#[test]
fn cursor_stops_at_the_edges() {
    let mut i = input("ab", 2);
    move_cursor_right(&mut i);
    assert_eq!(i.cursor_pos, 2);
    let mut j = input("ab", 0);
    move_cursor_left(&mut j);
    assert_eq!(j.cursor_pos, 0);
}

#[test]
fn home_and_end() {
    let mut i = input("héllo", 2);
    move_cursor_end(&mut i);
    assert_eq!((i.cursor_pos, i.cursor_col), (5, 5));
    move_cursor_home(&mut i);
    assert_eq!((i.cursor_pos, i.cursor_col), (0, 0));
}

#[test]
fn cursor_beyond_the_text_counts_as_the_end() {
    let mut i = input("ab", 9);
    insert_char(&mut i, 'c');
    assert_eq!(i, input("abc", 3));
}
