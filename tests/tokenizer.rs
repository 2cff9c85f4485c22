use rawshell::tokenize::{join_words, parse};

fn words(v: &[&str]) -> Vec<String> {
    v.iter().map(|s| s.to_string()).collect()
}

#[test]
fn splits_on_spaces() {
    assert_eq!(parse("a b c"), words(&["a", "b", "c"]));
}

#[test]
fn quoted_span_is_one_word_without_quotes() {
    assert_eq!(parse("a \"b c\" d"), words(&["a", "b c", "d"]));
}

#[test]
fn trailing_space_gives_empty_word() {
    assert_eq!(parse("a b "), words(&["a", "b", ""]));
}

#[test]
fn empty_line_has_no_words() {
    assert_eq!(parse(""), Vec::<String>::new());
}

#[test]
fn runs_of_blanks_give_no_empty_words() {
    assert_eq!(parse("  a   b"), words(&["a", "b"]));
    assert_eq!(parse("a\tb"), words(&["a", "b"]));
}

#[test]
fn backslash_escapes_a_blank() {
    assert_eq!(parse("a\\ b c"), words(&["a b", "c"]));
    assert_eq!(parse("\\\"x"), words(&["\"x"]));
}

#[test]
fn backslash_inside_quotes_is_literal() {
    assert_eq!(parse("\"a\\b\""), words(&["a\\b"]));
}

#[test]
fn unterminated_quote_runs_to_end() {
    assert_eq!(parse("echo \"b c"), words(&["echo", "b c"]));
}

#[test]
fn escaped_trailing_space_is_part_of_word() {
    assert_eq!(parse("cat my\\ "), words(&["cat", "my "]));
}

#[test]
fn line_of_blanks_is_one_empty_word() {
    assert_eq!(parse("   "), words(&[""]));
}

#[test]
fn join_uses_single_spaces() {
    assert_eq!(join_words(&words(&["a", "b", ""])), "a b ");
    assert_eq!(join_words(&words(&[])), "");
    assert_eq!(join_words(&words(&["x"])), "x");
}

#[test]
fn rejoined_words_split_the_same() {
    for line in ["a  b   c ", "ls -l  /tmp", "x", "", "\"ab\" cd  "] {
        let first = parse(line);
        let again = parse(&join_words(&first));
        assert_eq!(again, first, "line {:?}", line);
    }
}

#[test]
fn only_a_trailing_space_gives_empty_word() {
    assert_eq!(parse("a\t"), words(&["a"]));
    assert_eq!(parse("a\n"), words(&["a"]));
    assert_eq!(parse("a \t"), words(&["a"]));
    assert_eq!(parse("a\t "), words(&["a", ""]));
}

#[test]
fn quoted_or_escaped_trailing_space_gives_no_empty_word() {
    assert_eq!(parse("a \"b \""), words(&["a", "b "]));
}

#[test]
fn unicode_blanks_separate_words() {
    assert_eq!(parse("a\u{a0}b\u{85}c\u{3000}d"), words(&["a", "b", "c", "d"]));
}
