use distrust::lexer::lex;

fn words(line: &str) -> Vec<String> {
    lex(&line.to_string())
}

#[test]
fn lex_of_empty_input_is_empty() {
    assert_eq!(words(""), Vec::<String>::new());
}

#[test]
fn lex_of_one_word() {
    assert_eq!(words("get"), vec!["get"]);
}

#[test]
fn lex_splits_on_single_spaces() {
    assert_eq!(words("set x 1"), vec!["set", "x", "1"]);
}

#[test]
fn lex_keeps_case() {
    assert_eq!(words("SET Name John"), vec!["SET", "Name", "John"]);
}

#[test]
fn lex_flushes_the_last_word() {
    assert_eq!(words("get name"), vec!["get", "name"]);
}

#[test]
fn lex_drops_an_empty_last_word() {
    assert_eq!(words("get name "), vec!["get", "name"]);
}

#[test]
fn lex_of_two_spaces_holds_an_empty_word() {
    assert_eq!(words("get  name"), vec!["get", "", "name"]);
}

#[test]
fn lex_of_a_leading_space_starts_with_an_empty_word() {
    assert_eq!(words(" get"), vec!["", "get"]);
}

#[test]
fn lex_of_spaces_only() {
    assert_eq!(words(" "), vec![""]);
    assert_eq!(words("   "), vec!["", "", ""]);
}

#[test]
fn lex_keeps_spaces_inside_quotes() {
    assert_eq!(words("set name \"john doe\""), vec!["set", "name", "john doe"]);
}

#[test]
fn lex_elides_the_quotes() {
    assert_eq!(words("\"get\""), vec!["get"]);
    assert_eq!(words("ab\"cd\"ef"), vec!["abcdef"]);
}

#[test]
fn lex_of_quotes_in_the_middle_of_a_word() {
    assert_eq!(words("a\"b c\"d e"), vec!["ab cd", "e"]);
}

#[test]
fn lex_of_an_empty_quoted_section() {
    assert_eq!(words("\"\""), Vec::<String>::new());
    assert_eq!(words("\"\" x"), vec!["", "x"]);
    assert_eq!(words("set k \"\""), vec!["set", "k"]);
}

#[test]
fn lex_tolerates_an_open_quote() {
    assert_eq!(words("set k \"john doe"), vec!["set", "k", "john doe"]);
    assert_eq!(words("\"a b c"), vec!["a b c"]);
    assert_eq!(words("a \""), vec!["a"]);
}

#[test]
fn lex_of_an_escaped_quote() {
    assert_eq!(words("say \\\"hi\\\""), vec!["say", "\"hi\""]);
    assert_eq!(words("a\\\"b c"), vec!["a\"b", "c"]);
}

#[test]
fn lex_of_an_escaped_quote_inside_quotes() {
    assert_eq!(words("\"a \\\" b\""), vec!["a \" b"]);
}

#[test]
fn lex_of_an_escaped_space() {
    assert_eq!(words("a\\ b"), vec!["a b"]);
    assert_eq!(words("set my\\ key v"), vec!["set", "my key", "v"]);
}

#[test]
fn lex_of_an_escaped_backslash() {
    assert_eq!(words("a\\\\b"), vec!["a\\b"]);
    assert_eq!(words("a\\\\ b"), vec!["a\\", "b"]);
}

#[test]
fn lex_escapes_one_character_only() {
    assert_eq!(words("\\\"a b\""), vec!["\"a", "b"]);
    assert_eq!(words("\\a\"b c\""), vec!["ab c"]);
}

#[test]
fn lex_of_an_escaped_ordinary_character() {
    assert_eq!(words("a\\bc"), vec!["abc"]);
    assert_eq!(words("\\n"), vec!["n"]);
}

#[test]
fn lex_of_a_trailing_backslash() {
    assert_eq!(words("a\\"), vec!["a"]);
    assert_eq!(words("\\"), Vec::<String>::new());
}

#[test]
fn lex_splits_on_spaces_only() {
    assert_eq!(words("a\tb"), vec!["a\tb"]);
    assert_eq!(words("a\nb c"), vec!["a\nb", "c"]);
}

#[test]
fn lex_of_text_beyond_ascii() {
    assert_eq!(words("set clé \"été à Paris\""), vec!["set", "clé", "été à Paris"]);
}

#[test]
fn lex_reads_joined_words_back() {
    let list = vec!["set", "a-key", "some_value", "42"];
    assert_eq!(words(&list.join(" ")), list);
}
