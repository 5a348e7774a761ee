use todo_shell::tokenizer::{tokenize, TokenIterator};

#[test]
fn test_token_iterator() {
    let mut iter = TokenIterator::new("Hello, 'world'");
    assert_eq!(iter.next(), Some("Hello,"));
    assert_eq!(iter.next(), Some("world"));
    assert_eq!(iter.next(), None);
}

#[test]
fn test_token_iterator2() {
    let mut iter = TokenIterator::new("Hello, \"world\"");
    assert_eq!(iter.next(), Some("Hello,"));
    assert_eq!(iter.next(), Some("world"));
    assert_eq!(iter.next(), None);
}

#[test]
fn test_token_iterator3() {
    let mut iter = TokenIterator::new("Hello, \"world is man's world!\"");
    assert_eq!(iter.next(), Some("Hello,"));
    assert_eq!(iter.next(), Some("world is man's world!"));
    assert_eq!(iter.next(), None);
}

#[test]
fn test_token_iterator4() {
    let mut iter = TokenIterator::new("Hello, Tom's mom!");
    assert_eq!(iter.next(), Some("Hello,"));
    assert_eq!(iter.next(), Some("Tom's"));
    assert_eq!(iter.next(), Some("mom!"));
    assert_eq!(iter.next(), None);
}

#[test]
fn clean_input_splits_on_whitespace() {
    assert_eq!(tokenize("one two three"), vec!["one", "two", "three"]);
}

#[test]
fn leading_and_multiple_spaces_between_words() {
    assert_eq!(tokenize("  one   two"), vec!["one", "two"]);
}

#[test]
fn empty_line_has_no_tokens() {
    assert_eq!(tokenize(""), Vec::<&str>::new());
}

#[test]
fn unterminated_quote_runs_to_end_of_input() {
    assert_eq!(tokenize("say 'unfinished business"), vec!["say", "unfinished business"]);
}

#[test]
fn quoted_empty_token_is_emitted() {
    assert_eq!(tokenize("''"), vec![""]);
}

#[test]
fn trailing_whitespace_is_scanned_into_a_final_token() {
    assert_eq!(tokenize("Hello, world "), vec!["Hello,", "world", " "]);
}

#[test]
fn quote_characters_inside_a_bare_word_are_kept() {
    assert_eq!(tokenize("don't \"stop\""), vec!["don't", "stop"]);
}
