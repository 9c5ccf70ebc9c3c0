use codebook::text::{copy_vec, vec_to_line};
use codebook::tokenizer::{get_string, tokenize};
use codebook::session::Namespace;

fn toks(line: &str) -> Option<Vec<String>> {
    tokenize(&line.to_string())
}

fn strs(v: &[&str]) -> Vec<String> {
    v.iter().map(|s| s.to_string()).collect()
}

#[test]
fn splits_on_spaces_and_newlines() {
    assert_eq!(toks("2 3  +\n"), Some(strs(&["2", "3", "+"])));
    assert_eq!(toks(""), Some(vec![]));
    assert_eq!(toks("   "), Some(vec![]));
}

#[test]
fn tabs_stay_inside_tokens() {
    assert_eq!(toks("a\tb c"), Some(strs(&["a\tb", "c"])));
}

#[test]
fn quoted_literal_is_one_token() {
    assert_eq!(toks("\"hello world\" puts"), Some(strs(&["hello world", "puts"])));
}

#[test]
fn quoted_escapes_are_resolved() {
    assert_eq!(toks("\"a\\nb\\t\\\\\\\"\""), Some(strs(&["a\nb\t\\\""])));
}

#[test]
fn unknown_escape_is_refused() {
    assert_eq!(toks("\"a\\qb\""), None);
    assert_eq!(toks("\"a\\"), None);
}

#[test]
fn character_after_closing_quote_is_kept() {
    assert_eq!(toks("\"ab\"cd"), Some(strs(&["ab", "cd"])));
}

#[test]
fn tokens_keep_source_order() {
    assert_eq!(toks("ab\"cd\" ef"), Some(strs(&["ab", "cd", "ef"])));
    assert_eq!(toks("ab\"c d\""), Some(strs(&["ab", "c d"])));
}

#[test]
fn unterminated_quote_runs_to_end() {
    assert_eq!(toks("x \"abc"), Some(strs(&["x", "abc"])));
    assert_eq!(toks("x\"abc"), Some(strs(&["x", "abc"])));
}

#[test]
fn get_string_reports_closing_position() {
    let line = "\"ab\\ncd\" rest".to_string();
    assert_eq!(get_string(&line, 1), Some(("ab\ncd".to_string(), 7)));
    let open = "\"abc".to_string();
    assert_eq!(get_string(&open, 1), Some(("abc".to_string(), 4)));
    let bad = "\"a\\z\"".to_string();
    assert_eq!(get_string(&bad, 1), None);
}

#[test]
fn vec_to_line_joins_with_single_spaces() {
    assert_eq!(vec_to_line(&strs(&["1", "2", "+"])), "1 2 +");
    assert_eq!(vec_to_line(&strs(&["only"])), "only");
    assert_eq!(vec_to_line(&vec![]), "");
}

#[test]
fn copy_vec_copies_every_token() {
    let v = strs(&["{", "a b", "}"]);
    assert_eq!(copy_vec(&v), v);
    assert_eq!(copy_vec(&vec![]), Vec::<String>::new());
}

#[test]
fn namespace_new_is_empty() {
    let ns = Namespace::new("math".to_string());
    assert_eq!(ns.title, "math");
    assert_eq!(ns.functions.len(), 0);
}
