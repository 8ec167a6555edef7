use std::collections::VecDeque;

use terminal_orbit::block::{handle_briefing, join_strings, read_value, skip_to_close};
use terminal_orbit::parser::{join, strip_comments, tokenize, Parser};

fn words(v: &[&str]) -> Vec<String> {
    v.iter().map(|s| s.to_string()).collect()
}

fn deque(v: &[&str]) -> VecDeque<String> {
    v.iter().map(|s| s.to_string()).collect()
}

fn parser_with(text: &str) -> Parser {
    let mut p = Parser::new(String::from("missions"));
    p.push_file("m.msn", Ok(text.to_string())).unwrap();
    p
}

fn drain(p: &mut Parser) -> Vec<String> {
    let mut out = Vec::new();
    while let Some(t) = p.next() {
        out.push(t);
    }
    out
}

#[test]
fn tokenize_splits_on_any_whitespace() {
    let t = tokenize("  cursor {\t1 2\n3 }\r\n");
    assert_eq!(Vec::from(t), words(&["cursor", "{", "1", "2", "3", "}"]));
}

#[test]
fn tokenize_splits_on_unicode_space() {
    let t = tokenize("a\u{00a0}b\u{3000}c");
    assert_eq!(Vec::from(t), words(&["a", "b", "c"]));
}

#[test]
fn tokenize_drops_comments() {
    let t = tokenize("player /* the player starts here */ { }");
    assert_eq!(Vec::from(t), words(&["player", "{", "}"]));
}

#[test]
fn tokenize_unterminated_comment_drops_the_rest() {
    let t = tokenize("a /* b c");
    assert_eq!(Vec::from(t), words(&["a"]));
}

#[test]
fn tokenize_glued_markers_are_plain_words() {
    let t = tokenize("x/* y */z");
    assert_eq!(Vec::from(t), words(&["x/*", "y", "*/z"]));
}

#[test]
fn tokenize_empty_text() {
    assert!(tokenize("").is_empty());
    assert!(tokenize(" \n\t ").is_empty());
}

#[test]
fn strip_comments_keeps_stray_close_marker() {
    let out = strip_comments(deque(&["a", "/*", "b", "*/", "c", "*/"]));
    assert_eq!(Vec::from(out), words(&["a", "c", "*/"]));
}

#[test]
fn strip_comments_second_open_inside_comment_is_ignored() {
    let out = strip_comments(deque(&["/*", "/*", "x", "*/", "y"]));
    assert_eq!(Vec::from(out), words(&["y"]));
}

#[test]
fn parser_reads_tokens_in_order() {
    let mut p = parser_with("one two three");
    assert_eq!(drain(&mut p), words(&["one", "two", "three"]));
    assert_eq!(p.next(), None);
}

#[test]
fn parser_include_tokens_come_first() {
    let mut p = parser_with("a include inc.inc b");
    assert_eq!(p.next().as_deref(), Some("a"));
    assert_eq!(p.next().as_deref(), Some("include"));
    let f = p.next().unwrap();
    assert_eq!(f, "inc.inc");
    p.push_include(&f, Ok("x y".to_string())).unwrap();
    assert_eq!(drain(&mut p), words(&["x", "y", "b"]));
}

#[test]
fn parser_empty_include_level_is_skipped() {
    let mut p = parser_with("a b");
    p.push_file("empty.inc", Ok("/* nothing */".to_string())).unwrap();
    assert_eq!(drain(&mut p), words(&["a", "b"]));
}

#[test]
fn push_file_reports_unreadable_file() {
    let mut p = Parser::new(String::from("missions"));
    let r = p.push_file("missions/gone.msn", Err("No such file or directory".to_string()));
    assert_eq!(r, Err("Cannot open missions/gone.msn: No such file or directory".to_string()));
    assert_eq!(p.next(), None);
}

#[test]
fn push_include_reports_joined_path() {
    let mut p = parser_with("z");
    let r = p.push_include("extra.inc", Err("denied".to_string()));
    assert_eq!(r, Err("Cannot open missions/extra.inc: denied".to_string()));
    assert_eq!(drain(&mut p), words(&["z"]));
}

#[test]
fn include_path_joins_like_path_join() {
    let p = Parser::new(String::from("missions"));
    assert_eq!(p.include_path("a.inc"), "missions/a.inc");
    assert_eq!(p.include_path("/abs/a.inc"), "/abs/a.inc");
    let q = Parser::new(String::from("missions/"));
    assert_eq!(q.include_path("a.inc"), "missions/a.inc");
    let r = Parser::new(String::new());
    assert_eq!(r.include_path("a.inc"), "a.inc");
}

#[test]
fn join_examples() {
    assert_eq!(join("/home/u/.config/terminal-orbit", "saves.toml"), "/home/u/.config/terminal-orbit/saves.toml");
    assert_eq!(join("dir/", "f"), "dir/f");
    assert_eq!(join("dir", "/f"), "/f");
    assert_eq!(join("", "f"), "f");
}

#[test]
fn require_at_end_is_an_error() {
    let mut p = parser_with("only");
    assert_eq!(p.require(), Ok("only".to_string()));
    assert_eq!(p.require(), Err("Unexpected end of mission file".to_string()));
}

#[test]
fn require_brace_accepts_brace() {
    let mut p = parser_with("{ x");
    assert_eq!(p.require_brace(), Ok(()));
    assert_eq!(p.next().as_deref(), Some("x"));
}

#[test]
fn require_brace_rejects_other_token() {
    let mut p = parser_with("name {");
    assert_eq!(p.require_brace(), Err("Expected '{', found 'name'".to_string()));
    assert_eq!(p.next().as_deref(), Some("{"));
}

#[test]
fn require_brace_at_end() {
    let mut p = parser_with("");
    assert_eq!(p.require_brace(), Err("Unexpected end of mission file".to_string()));
}

#[test]
fn read_value_bare_token() {
    let mut p = parser_with("42 rest");
    assert_eq!(read_value(&mut p), Ok("42".to_string()));
    assert_eq!(drain(&mut p), words(&["rest"]));
}

#[test]
fn read_value_group_joins_words() {
    let mut p = parser_with("{ Welcome to the Sol system } after");
    assert_eq!(read_value(&mut p), Ok("Welcome to the Sol system".to_string()));
    assert_eq!(drain(&mut p), words(&["after"]));
}

#[test]
fn read_value_empty_group() {
    let mut p = parser_with("{ }");
    assert_eq!(read_value(&mut p), Ok(String::new()));
}

#[test]
fn read_value_unterminated_group() {
    let mut p = parser_with("{ never closed");
    assert_eq!(read_value(&mut p), Err("Unexpected end of mission file".to_string()));
    assert_eq!(p.next(), None);
}

#[test]
fn read_value_at_end() {
    let mut p = parser_with("");
    assert_eq!(read_value(&mut p), Err("Unexpected end of mission file".to_string()));
}

#[test]
fn skip_to_close_consumes_through_brace() {
    let mut p = parser_with("a b } c");
    assert_eq!(skip_to_close(&mut p), Ok(()));
    assert_eq!(drain(&mut p), words(&["c"]));
}

#[test]
fn skip_to_close_without_brace() {
    let mut p = parser_with("a b");
    assert_eq!(skip_to_close(&mut p), Err("Unexpected end of mission file".to_string()));
    assert_eq!(p.next(), None);
}

#[test]
fn briefing_words_are_joined() {
    let mut p = parser_with("Destroy   the\nfreighter } next");
    assert_eq!(handle_briefing(&mut p), Ok("Destroy the freighter".to_string()));
    assert_eq!(drain(&mut p), words(&["next"]));
}

#[test]
fn briefing_without_close() {
    let mut p = parser_with("Destroy the");
    assert_eq!(handle_briefing(&mut p), Err("Unexpected end of mission file".to_string()));
}

#[test]
fn join_strings_examples() {
    assert_eq!(join_strings(&words(&[])), "");
    assert_eq!(join_strings(&words(&["a"])), "a");
    assert_eq!(join_strings(&words(&["a", "b", "c"])), "a b c");
}
