use tui_chat_app::input::{
    cursor_column, edit, erase_word, pop_input, word_char, KeyCode, KeyEvent,
};

fn line(text: &str) -> Vec<char> {
    text.chars().collect()
}

fn press(text: &str, idx: usize, code: KeyCode, control: bool) -> (String, usize) {
    let mut input = line(text);
    let mut idx = idx;
    edit(&mut input, &mut idx, KeyEvent { code, control });
    (input.into_iter().collect(), idx)
}

#[test]
fn pop_input_takes_the_character_before_or_under_the_cursor() {
    let mut input = line("abc");
    let mut idx = 2;
    assert_eq!(pop_input(&mut input, &mut idx, -1), Some('b'));
    assert_eq!((input.clone(), idx), (line("ac"), 1));
    assert_eq!(pop_input(&mut input, &mut idx, 0), Some('c'));
    assert_eq!((input.clone(), idx), (line("a"), 1));
    assert_eq!(pop_input(&mut input, &mut idx, 0), None);
    assert_eq!((input.clone(), idx), (line("a"), 1));
    assert_eq!(pop_input(&mut input, &mut idx, -1), Some('a'));
    assert_eq!((input.clone(), idx), (line(""), 0));
    assert_eq!(pop_input(&mut input, &mut idx, -1), None);
    assert_eq!(pop_input(&mut input, &mut idx, 0), None);
    assert_eq!((input.clone(), idx), (line(""), 0));
    let mut input = line("abc");
    let mut idx = usize::MAX;
    assert_eq!(pop_input(&mut input, &mut idx, isize::MAX), None);
    assert_eq!(pop_input(&mut input, &mut idx, isize::MIN), None);
    assert_eq!(idx, usize::MAX);
}

#[test]
fn characters_go_in_at_the_cursor() {
    assert_eq!(press("", 0, KeyCode::Char('x'), false), ("x".to_string(), 1));
    assert_eq!(press("ac", 1, KeyCode::Char('b'), false), ("abc".to_string(), 2));
    assert_eq!(press("ab", 2, KeyCode::Char('é'), false), ("abé".to_string(), 3));
    assert_eq!(press("éé", 1, KeyCode::Char('語'), false), ("é語é".to_string(), 2));
    // a cursor past the end counts as at the end
    assert_eq!(press("ab", 9, KeyCode::Char('c'), false), ("abc".to_string(), 3));
}

#[test]
fn backspace_and_delete_take_one_character() {
    assert_eq!(press("abc", 3, KeyCode::Backspace, false), ("ab".to_string(), 2));
    assert_eq!(press("abc", 1, KeyCode::Backspace, false), ("bc".to_string(), 0));
    assert_eq!(press("abc", 0, KeyCode::Backspace, false), ("abc".to_string(), 0));
    assert_eq!(press("abc", 0, KeyCode::Delete, false), ("bc".to_string(), 0));
    assert_eq!(press("abc", 2, KeyCode::Delete, false), ("ab".to_string(), 2));
    assert_eq!(press("abc", 3, KeyCode::Delete, false), ("abc".to_string(), 3));
    assert_eq!(press("abc", 3, KeyCode::Delete, true), ("abc".to_string(), 3));
}

#[test]
fn control_backspace_erases_back_through_the_word() {
    assert_eq!(press("hello world", 11, KeyCode::Backspace, true), ("hello".to_string(), 5));
    assert_eq!(press("hello", 5, KeyCode::Backspace, true), ("".to_string(), 0));
    assert_eq!(press("a_b-c9 x", 6, KeyCode::Backspace, true), (" x".to_string(), 0));
    assert_eq!(press("one two three", 7, KeyCode::Backspace, true), ("one three".to_string(), 3));
    assert_eq!(press("ab  ", 4, KeyCode::Backspace, true), ("ab ".to_string(), 3));
    assert_eq!(press("áb", 2, KeyCode::Backspace, true), ("".to_string(), 0));
    assert_eq!(press("xáb", 3, KeyCode::Backspace, true), ("x".to_string(), 1));
    assert_eq!(press("abc", 0, KeyCode::Backspace, true), ("abc".to_string(), 0));
    let mut input = line("foo.bar");
    let mut idx = 7;
    erase_word(&mut input, &mut idx);
    assert_eq!((input, idx), (line("foo"), 3));
}

#[test]
fn the_cursor_moves_within_the_line() {
    assert_eq!(press("abc", 1, KeyCode::Left, false), ("abc".to_string(), 0));
    assert_eq!(press("abc", 0, KeyCode::Left, false), ("abc".to_string(), 0));
    assert_eq!(press("abc", 1, KeyCode::Right, false), ("abc".to_string(), 2));
    assert_eq!(press("abc", 3, KeyCode::Right, false), ("abc".to_string(), 3));
    assert_eq!(press("abc", 2, KeyCode::Home, false), ("abc".to_string(), 0));
    assert_eq!(press("abc", 1, KeyCode::End, false), ("abc".to_string(), 3));
    assert_eq!(press("abc", 100, KeyCode::Left, false), ("abc".to_string(), 2));
}

#[test]
fn other_keys_change_nothing() {
    assert_eq!(press("abc", 1, KeyCode::Other, false), ("abc".to_string(), 1));
    assert_eq!(press("abc", 1, KeyCode::Esc, true), ("abc".to_string(), 1));
    assert_eq!(press("abc", 7, KeyCode::Enter, false), ("abc".to_string(), 7));
}

#[test]
fn word_characters_are_letters_digits_underscore_and_hyphen() {
    for c in ['a', 'z', 'A', 'Z', '0', '9', '_', '-', 'm', 'Q', '5'] {
        assert!(word_char(c));
    }
    for c in [' ', '.', '/', ':', '@', '[', '`', '{', 'é', '語', '\n'] {
        assert!(!word_char(c));
    }
}

#[test]
fn the_cursor_column_falls_back_to_the_start_when_it_does_not_fit() {
    assert_eq!(cursor_column(0), 0);
    assert_eq!(cursor_column(17), 17);
    assert_eq!(cursor_column(65535), 65535);
    assert_eq!(cursor_column(65536), 0);
    assert_eq!(cursor_column(usize::MAX), 0);
}
