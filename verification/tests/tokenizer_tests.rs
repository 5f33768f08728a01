use minishell::tokenizer::parse;

fn words(xs: &[&str]) -> Vec<String> {
    xs.iter().map(|s| String::from(*s)).collect()
}

#[test]
fn single_quotes_literal() {
    assert_eq!(parse("'a b'"), words(&["a b"]));
    assert_eq!(parse("say 'hello   world' now"), words(&["say", "hello   world", "now"]));
}

#[test]
fn single_quotes_suppress_escapes() {
    assert_eq!(parse("'a\\nb'"), words(&["a\\nb"]));
    assert_eq!(parse("'a\"b'"), words(&["a\"b"]));
}

#[test]
fn double_quote_escapes_collapse() {
    assert_eq!(parse("\"a\\\\b\""), words(&["a\\b"]));
    assert_eq!(parse("\"a\\$b\""), words(&["a$b"]));
    assert_eq!(parse("\"a\\\"b\""), words(&["a\"b"]));
    assert_eq!(parse("\"a\\`b\""), words(&["a`b"]));
    assert_eq!(parse("\"a\\\nb\""), words(&["a\nb"]));
}

#[test]
fn double_quote_other_backslash_kept() {
    assert_eq!(parse("\"a\\xb\""), words(&["a\\xb"]));
    assert_eq!(parse("\"a\\ b\""), words(&["a\\ b"]));
}

#[test]
fn unquoted_backslash_collapses() {
    assert_eq!(parse("a\\ b"), words(&["a b"]));
    assert_eq!(parse("\\'x"), words(&["'x"]));
    assert_eq!(parse("a\\\\b"), words(&["a\\b"]));
}

#[test]
fn empty_line_yields_no_tokens() {
    assert_eq!(parse(""), words(&[]));
}

#[test]
fn whitespace_line_yields_no_tokens() {
    assert_eq!(parse("   \t  "), words(&[]));
    assert_eq!(parse("\n"), words(&[]));
}

#[test]
fn interior_whitespace_splits_words() {
    assert_eq!(parse("echo a  b"), words(&["echo", "a", "b"]));
    assert_eq!(parse("  echo   a \t b  "), words(&["echo", "a", "b"]));
}

#[test]
fn double_quotes_protect_whitespace() {
    assert_eq!(parse("echo \"a   b\""), words(&["echo", "a   b"]));
}

#[test]
fn unterminated_quote_flushes_partial_word() {
    assert_eq!(parse("'abc"), words(&["abc"]));
    assert_eq!(parse("\"abc"), words(&["abc"]));
}

#[test]
fn trailing_backslash_consumes_nothing() {
    assert_eq!(parse("ab\\"), words(&["ab"]));
}

#[test]
fn quoted_empty_word_vanishes() {
    assert_eq!(parse("''"), words(&[]));
    assert_eq!(parse("'' x"), words(&["x"]));
}

#[test]
fn quotes_join_adjacent_text() {
    assert_eq!(parse("a'b c'd"), words(&["ab cd"]));
    assert_eq!(parse("\"a\"'b'"), words(&["ab"]));
}
