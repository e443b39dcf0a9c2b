use bb_lang::text_stream::TextStream;
use bb_lang::token_stream::TokenStream;
use bb_lang::util::Stream;

#[test]
fn a_new_cursor_has_consumed_nothing() {
    let cursor = TextStream::new("ab");
    assert_eq!(cursor.current(), 0);
    assert_eq!(cursor.peek(), b'a');
    assert!(!cursor.eof());
    assert_eq!(cursor.position(), (1, 1));
}

#[test]
fn advancing_returns_the_characters_in_order() {
    let mut cursor = TextStream::new("ab");
    assert_eq!(cursor.next(), b'a');
    assert_eq!(cursor.current(), b'a');
    assert_eq!(cursor.peek(), b'b');
    assert!(!cursor.eof());
    assert_eq!(cursor.next(), b'b');
    assert_eq!(cursor.current(), b'b');
    assert_eq!(cursor.peek(), 0);
    assert!(cursor.eof());
}

#[test]
fn peeking_consumes_nothing() {
    let mut cursor = TextStream::new("xy");
    assert_eq!(cursor.peek(), b'x');
    assert_eq!(cursor.peek(), b'x');
    assert_eq!(cursor.next(), b'x');
}

#[test]
fn advancing_past_the_end_yields_zero() {
    let mut cursor = TextStream::new("a");
    assert_eq!(cursor.next(), b'a');
    assert_eq!(cursor.next(), 0);
    assert_eq!(cursor.current(), 0);
    assert_eq!(cursor.next(), 0);
    assert!(cursor.eof());
}

#[test]
fn an_empty_text_is_at_its_end() {
    let mut cursor = TextStream::new("");
    assert!(cursor.eof());
    assert_eq!(cursor.peek(), 0);
    assert_eq!(cursor.next(), 0);
    assert_eq!(cursor.position(), (1, 2));
}

#[test]
fn the_column_grows_with_each_advance() {
    let mut cursor = TextStream::new("abc");
    cursor.next();
    assert_eq!(cursor.position(), (1, 2));
    cursor.next();
    assert_eq!(cursor.position(), (1, 3));
    cursor.next();
    assert_eq!(cursor.position(), (1, 4));
    cursor.next();
    assert_eq!(cursor.position(), (1, 5));
}

#[test]
fn a_new_row_begins_with_the_advance_after_a_line_feed() {
    let mut cursor = TextStream::new("ab\ncd");
    cursor.next();
    cursor.next();
    assert_eq!(cursor.next(), b'\n');
    assert_eq!(cursor.position(), (1, 4));
    assert_eq!(cursor.next(), b'c');
    assert_eq!(cursor.position(), (2, 0));
    assert_eq!(cursor.next(), b'd');
    assert_eq!(cursor.position(), (2, 1));
}

#[test]
fn consecutive_line_feeds_each_begin_a_row() {
    let mut cursor = TextStream::new("\n\n\nx");
    cursor.next();
    assert_eq!(cursor.position(), (1, 2));
    cursor.next();
    assert_eq!(cursor.position(), (2, 0));
    cursor.next();
    assert_eq!(cursor.position(), (3, 0));
    cursor.next();
    assert_eq!(cursor.position(), (4, 0));
}

#[test]
fn reset_rewinds_to_the_start() {
    let mut cursor = TextStream::new("a\nb");
    cursor.next();
    cursor.next();
    cursor.next();
    cursor.reset();
    assert_eq!(cursor.current(), 0);
    assert_eq!(cursor.peek(), b'a');
    assert_eq!(cursor.position(), (1, 1));
    assert!(!cursor.eof());
    assert_eq!(cursor.next(), b'a');
}

#[test]
fn err_carries_the_message_and_the_place() {
    let mut cursor = TextStream::new("a\nbc");
    cursor.next();
    cursor.next();
    cursor.next();
    let report = cursor.err("something is wrong");
    assert_eq!(report.message, "something is wrong");
    assert_eq!(report.row, 2);
    assert_eq!(report.col, 0);
}

#[test]
fn the_bytes_of_a_character_of_several_bytes_come_one_by_one() {
    let mut cursor = TextStream::new("é");
    assert_eq!(cursor.next(), 0xc3);
    assert_eq!(cursor.next(), 0xa9);
    assert!(cursor.eof());
}

/// Pulls items until `rounds` are had, through the interface alone.
fn pull<T, S: Stream<T>>(stream: &mut S, rounds: usize) -> Vec<T> {
    let mut items = Vec::new();
    for _ in 0..rounds {
        items.push(stream.next());
    }
    items
}

#[test]
fn the_layers_share_one_interface() {
    let mut cursor = TextStream::new("a b");
    assert_eq!(pull(&mut cursor, 4), vec![b'a', b' ', b'b', 0]);
    let mut tokens = TokenStream::new("a b");
    let texts: Vec<String> = pull(&mut tokens, 3).into_iter().map(|token| token.value).collect();
    assert_eq!(texts, vec!["a", "b", ""]);
}

#[test]
fn what_peek_shows_is_what_next_returns() {
    let mut cursor = TextStream::new("xyz");
    for _ in 0..5 {
        let shown = cursor.peek();
        assert_eq!(cursor.next(), shown);
        assert_eq!(cursor.current(), shown);
    }
    let mut tokens = TokenStream::new("a + b ;");
    for _ in 0..6 {
        let shown = tokens.peek();
        let got = tokens.next();
        assert_eq!(got.token_type, shown.token_type);
        assert_eq!(got.value, shown.value);
        assert_eq!(tokens.current().value, shown.value);
    }
}
