use parsekit::cursor::{skip_ahead, take_ahead, text_cursor};
use parsekit::{Cursor, TokenCursor};

#[test]
fn a_token_cursor_walks_its_slice() {
    let tokens: Vec<u8> = vec![10, 20, 30];
    let mut cursor = TokenCursor::new(&tokens);
    assert_eq!(cursor.consumed(), 0);
    assert_eq!(cursor.next(), Some(10));
    assert_eq!(cursor.next(), Some(20));
    assert_eq!(cursor.consumed(), 2);
    assert_eq!(cursor.next(), Some(30));
    assert_eq!(cursor.next(), None);
    assert_eq!(cursor.next(), None);
    assert_eq!(cursor.consumed(), 3);
}

#[test]
fn a_snapshot_of_a_token_cursor_stays_behind() {
    let tokens: Vec<u8> = vec![1, 2, 3];
    let mut cursor = TokenCursor::new(&tokens);
    assert_eq!(cursor.next(), Some(1));
    let backup = cursor.snapshot();
    assert_eq!(cursor.next(), Some(2));
    assert_eq!(cursor.next(), Some(3));
    assert_eq!(backup.consumed(), 1);
    cursor = backup;
    assert_eq!(cursor.next(), Some(2));
}

#[test]
fn an_empty_token_cursor_has_no_token() {
    let tokens: Vec<u8> = vec![];
    let mut cursor = TokenCursor::new(&tokens);
    assert_eq!(cursor.next(), None);
    assert_eq!(cursor.consumed(), 0);
}

#[test]
fn characters_are_a_cursor() {
    let mut cursor = "ab".chars();
    assert_eq!(Cursor::next(&mut cursor), Some('a'));
    let backup = Cursor::snapshot(&cursor);
    assert_eq!(Cursor::next(&mut cursor), Some('b'));
    assert_eq!(Cursor::next(&mut cursor), None);
    assert_eq!(Cursor::next(&mut cursor), None);
    let mut again = backup;
    assert_eq!(Cursor::next(&mut again), Some('b'));
    assert_eq!(Cursor::next(&mut again), None);
}

#[test]
fn take_ahead_copies_and_leaves_the_cursor() {
    let mut cursor = "abcdef".chars();
    assert_eq!(Cursor::next(&mut cursor), Some('a'));
    assert_eq!(take_ahead(&cursor, 3), vec!['b', 'c', 'd']);
    assert_eq!(take_ahead(&cursor, 0), Vec::<char>::new());
    assert_eq!(take_ahead(&cursor, 9), vec!['b', 'c', 'd', 'e', 'f']);
    assert_eq!(Cursor::next(&mut cursor), Some('b'));
}

#[test]
fn skip_ahead_steps_over_tokens() {
    let mut cursor = "abcdef".chars();
    skip_ahead(&mut cursor, 2);
    assert_eq!(Cursor::next(&mut cursor), Some('c'));
    skip_ahead(&mut cursor, 0);
    assert_eq!(Cursor::next(&mut cursor), Some('d'));
    skip_ahead(&mut cursor, 9);
    assert_eq!(Cursor::next(&mut cursor), None);
}

#[test]
fn a_text_cursor_starts_at_the_first_character() {
    let mut cursor = text_cursor("ab");
    assert_eq!(take_ahead(&cursor, 5), vec!['a', 'b']);
    assert_eq!(Cursor::next(&mut cursor), Some('a'));
    assert_eq!(Cursor::next(&mut cursor), Some('b'));
    assert_eq!(Cursor::next(&mut cursor), None);
    let mut empty = text_cursor("");
    assert_eq!(Cursor::next(&mut empty), None);
}
