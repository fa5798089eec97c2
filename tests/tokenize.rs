use command_limits::{tokenize_delimited, tokenize_strict, DelimitedTokenizer, StrictTokenizer, TokenError};

fn owned(v: &[&[u8]]) -> Vec<Vec<u8>> {
    v.iter().map(|s| s.to_vec()).collect()
}

#[test]
fn delimited_quotes_and_escapes() {
    let r = tokenize_delimited(b"a 'b c' d\\ e \"f g\"").unwrap();
    assert_eq!(r, owned(&[b"a", b"b c", b"d e", b"f g"]));
}

#[test]
fn delimited_skips_runs_of_blanks() {
    let r = tokenize_delimited(b"  one\t\ttwo\n\r\x0cthree  \n").unwrap();
    assert_eq!(r, owned(&[b"one", b"two", b"three"]));
    assert_eq!(tokenize_delimited(b"").unwrap(), Vec::<Vec<u8>>::new());
    assert_eq!(tokenize_delimited(b" \n ").unwrap(), Vec::<Vec<u8>>::new());
}

#[test]
fn delimited_quote_kinds_do_not_nest() {
    let r = tokenize_delimited(b"'a\"b' \"c'd\" e'f'g").unwrap();
    assert_eq!(r, owned(&[b"a\"b", b"c'd", b"efg"]));
}

#[test]
fn delimited_empty_quotes_give_no_token() {
    assert_eq!(tokenize_delimited(b"'' x").unwrap(), owned(&[b"x"]));
}

#[test]
fn strict_keeps_empty_tokens() {
    let r = tokenize_strict(b"a\0b c\0\0d", 0);
    assert_eq!(r, owned(&[b"a", b"b c", b"", b"d"]));
}

#[test]
fn strict_trailing_delimiter_ends_last_token() {
    assert_eq!(tokenize_strict(b"a\0", 0), owned(&[b"a"]));
    assert_eq!(tokenize_strict(b"\0", 0), owned(&[b""]));
    assert_eq!(tokenize_strict(b"", 0), Vec::<Vec<u8>>::new());
    assert_eq!(tokenize_strict(b"x y\nz", b'\n'), owned(&[b"x y", b"z"]));
}

#[test]
fn unterminated_single_quote_is_malformed() {
    assert_eq!(tokenize_delimited(b"a 'bc"), Err(TokenError::UnterminatedQuote));
    assert_eq!(tokenize_delimited(b"'"), Err(TokenError::UnterminatedQuote));
}

#[test]
fn unterminated_double_quote_is_malformed() {
    assert_eq!(tokenize_delimited(b"a \"bc"), Err(TokenError::UnterminatedQuote));
}

#[test]
fn newline_inside_quote_is_malformed() {
    assert_eq!(tokenize_delimited(b"'a\nb'"), Err(TokenError::UnterminatedQuote));
}

#[test]
fn trailing_backslash_is_malformed() {
    assert_eq!(tokenize_delimited(b"a b\\"), Err(TokenError::TrailingBackslash));
}

#[test]
fn delimited_tokenizer_yields_lazily() {
    let mut t = DelimitedTokenizer::new();
    assert_eq!(t.push(b'a'), Ok(None));
    assert_eq!(t.push(b'b'), Ok(None));
    assert_eq!(t.push(b' '), Ok(Some(b"ab".to_vec())));
    assert_eq!(t.push(b' '), Ok(None));
    assert_eq!(t.push(b'\''), Ok(None));
    assert_eq!(t.push(b'c'), Ok(None));
    assert_eq!(t.finish(), Err(TokenError::UnterminatedQuote));
    assert_eq!(t.finish(), Ok(None));
}

#[test]
fn strict_tokenizer_yields_lazily() {
    let mut t = StrictTokenizer::new(b',');
    assert_eq!(t.push(b'x'), None);
    assert_eq!(t.push(b','), Some(b"x".to_vec()));
    assert_eq!(t.push(b','), Some(Vec::new()));
    assert_eq!(t.push(b'y'), None);
    assert_eq!(t.finish(), Some(b"y".to_vec()));
    assert_eq!(t.finish(), None);
}
