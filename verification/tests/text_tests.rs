use taminal::path::{dir_name_of, resolve, split_partial};
use taminal::text::{join_with_spaces, tokenize};

#[test]
fn tokenize_splits_on_whitespace() {
    let toks = tokenize("  rm   -f\tfile.txt ");
    assert_eq!(toks, vec!["rm".to_string(), "-f".to_string(), "file.txt".to_string()]);
}

#[test]
fn tokenize_empty_and_blank() {
    assert!(tokenize("").is_empty());
    assert!(tokenize("   \t  ").is_empty());
}

#[test]
fn rejoin_is_idempotent_on_tokens() {
    let line = "  a  b   c ";
    let toks = tokenize(line);
    assert_eq!(toks, vec!["a".to_string(), "b".to_string(), "c".to_string()]);
    let joined = join_with_spaces(&toks);
    assert_eq!(joined, "a b c");
    let again = tokenize(&joined);
    assert_eq!(again, toks);
}

#[test]
fn resolve_absolute_passes_through() {
    assert_eq!(resolve("/etc", "/home/user"), "/etc");
}

#[test]
fn resolve_relative_joins_base() {
    assert_eq!(resolve("docs", "/home/user"), "/home/user/docs");
}

#[test]
fn split_partial_shapes() {
    assert_eq!(split_partial(""), (".".to_string(), "".to_string()));
    assert_eq!(split_partial("sr"), (".".to_string(), "sr".to_string()));
    assert_eq!(split_partial("src/"), ("src/".to_string(), "".to_string()));
    assert_eq!(split_partial("src/ma"), ("src".to_string(), "ma".to_string()));
    assert_eq!(split_partial("/x"), ("/".to_string(), "x".to_string()));
}

#[test]
fn dir_name_takes_last_segment() {
    assert_eq!(dir_name_of("/home/user/documents"), "documents");
    assert_eq!(dir_name_of("/"), "?");
    assert_eq!(dir_name_of(""), "?");
    assert_eq!(dir_name_of("plain"), "plain");
}

