use surqx::capture::id_alphabet;
use surqx::pass::{reconstruct, reconstruct_with};
use surqx::reconstruct::Capture;
use surqx::registry::{name_less, sorted_captures};
use surqx::reconstruct::ErrorKind;
use surqx::token::{Delimiter, Pos, Spacing, Token};

fn pos(line: usize, column: usize) -> Pos {
    Pos { line, column }
}

fn ident(text: &str, line: usize, column: usize) -> Token {
    Token::Ident {
        text: text.to_string(),
        start: pos(line, column),
        end: pos(line, column + text.chars().count()),
    }
}

fn literal(text: &str, line: usize, column: usize) -> Token {
    Token::Literal {
        text: text.to_string(),
        start: pos(line, column),
        end: pos(line, column + text.chars().count()),
    }
}

fn punct(ch: char, joint: bool, line: usize, column: usize) -> Token {
    Token::Punct {
        ch,
        spacing: if joint { Spacing::Joint } else { Spacing::Alone },
        pos: pos(line, column),
    }
}

/// `CREATE person SET name = &name;` on one line.
fn create_with_capture() -> Vec<Token> {
    vec![
        ident("CREATE", 1, 0),
        ident("person", 1, 7),
        ident("SET", 1, 14),
        ident("name", 1, 18),
        punct('=', false, 1, 23),
        punct('&', false, 1, 25),
        ident("name", 1, 26),
        punct(';', false, 1, 30),
    ]
}

#[test]
fn capture_replaces_reference_with_placeholder() {
    let r = reconstruct(&create_with_capture(), true).unwrap();
    let prefix = "CREATE person SET name = $name_";
    assert!(r.text.starts_with(prefix));
    assert!(r.text.ends_with(';'));
    let suffix: String = r.text[prefix.len()..r.text.len() - 1].to_string();
    assert_eq!(suffix.chars().count(), 8);
    let alphabet = id_alphabet();
    assert!(suffix.chars().all(|c| alphabet.contains(&c)));
    assert_eq!(r.captures.len(), 1);
    assert_eq!(r.captures[0].name, format!("name_{}", suffix));
    assert_eq!(r.captures[0].ident, "name");
}

#[test]
fn capture_with_given_suffixes_is_exact() {
    let r = reconstruct_with(&create_with_capture(), &vec!["abcdefgh".to_string()], true).unwrap();
    assert_eq!(r.text, "CREATE person SET name = $name_abcdefgh;");
    assert_eq!(r.captures.len(), 1);
    assert_eq!(r.captures[0].name, "name_abcdefgh");
}

#[test]
fn without_capture_reference_is_literal() {
    let r = reconstruct(&create_with_capture(), false).unwrap();
    assert_eq!(r.text, "CREATE person SET name = &name;");
    assert!(r.captures.is_empty());
}

#[test]
fn two_captures_get_distinct_names() {
    let toks = vec![
        punct('&', false, 1, 0),
        ident("a", 1, 1),
        punct(',', false, 1, 2),
        punct('&', false, 1, 4),
        ident("a", 1, 5),
    ];
    let r = reconstruct(&toks, true).unwrap();
    assert_eq!(r.captures.len(), 2);
    assert_ne!(r.captures[0].name, r.captures[1].name);
    assert_eq!(r.captures[0].ident, "a");
    assert_eq!(r.captures[1].ident, "a");
}

#[test]
fn double_hash_becomes_comment_start() {
    let toks = vec![
        ident("a", 1, 0),
        punct('#', true, 1, 2),
        punct('#', false, 1, 3),
        ident("b", 1, 5),
    ];
    let r = reconstruct(&toks, true).unwrap();
    assert_eq!(r.text, "a // b");
}

#[test]
fn hash_with_other_punct_passes_through() {
    let toks = vec![
        ident("a", 1, 0),
        punct('#', true, 1, 2),
        punct('=', false, 1, 3),
        ident("b", 1, 5),
    ];
    let r = reconstruct(&toks, false).unwrap();
    assert_eq!(r.text, "a #= b");
}

#[test]
fn negative_indent_fails_at_that_token() {
    let toks = vec![
        ident("SELECT", 1, 4),
        ident("a", 2, 4),
        ident("b", 3, 2),
    ];
    let e = reconstruct(&toks, true).err().unwrap();
    assert_eq!(e.kind, ErrorKind::Indentation);
    assert_eq!(e.at, pos(3, 2));
}

#[test]
fn new_lines_keep_relative_indentation() {
    let toks = vec![
        ident("SELECT", 1, 8),
        ident("a", 2, 8),
        ident("b", 4, 12),
    ];
    let r = reconstruct(&toks, true).unwrap();
    assert_eq!(r.text, "SELECT\na\n\n    b");
}

#[test]
fn group_baseline_is_its_own() {
    let toks = vec![
        ident("A", 1, 0),
        ident("B", 2, 8),
        Token::Group {
            delimiter: Delimiter::Brace,
            open: pos(2, 10),
            close: pos(6, 8),
            stream: vec![ident("C", 3, 4), ident("D", 4, 6), ident("E", 5, 7)],
        },
    ];
    let r = reconstruct(&toks, true).unwrap();
    assert_eq!(r.text, "A\nB {\nC\n  D\n   E\n}");
}

#[test]
fn groups_write_their_delimiters() {
    let toks = vec![
        ident("f", 1, 0),
        Token::Group {
            delimiter: Delimiter::Parenthesis,
            open: pos(1, 1),
            close: pos(1, 6),
            stream: vec![ident("a", 1, 2), punct(',', false, 1, 3), ident("b", 1, 5)],
        },
        Token::Group {
            delimiter: Delimiter::Bracket,
            open: pos(1, 8),
            close: pos(1, 9),
            stream: vec![],
        },
        Token::Group {
            delimiter: Delimiter::Implicit,
            open: pos(1, 11),
            close: pos(1, 12),
            stream: vec![ident("x", 1, 11)],
        },
    ];
    let r = reconstruct(&toks, false).unwrap();
    assert_eq!(r.text, "f(a, b) [] x");
}

#[test]
fn prefixed_string_is_glued() {
    let toks = vec![
        ident("RETURN", 1, 0),
        ident("r", 1, 7),
        literal("\"person:john\"", 1, 9),
    ];
    let r = reconstruct(&toks, true).unwrap();
    assert_eq!(r.text, "RETURN r\"person:john\"");
}

#[test]
fn reference_without_identifier_is_malformed() {
    let toks = vec![
        ident("a", 1, 0),
        punct('&', false, 1, 2),
        literal("1", 1, 3),
    ];
    let e = reconstruct(&toks, true).err().unwrap();
    assert_eq!(e.kind, ErrorKind::MalformedCapture);
    assert_eq!(e.at, pos(1, 2));
    let e = reconstruct(&vec![punct('&', false, 2, 3)], true).err().unwrap();
    assert_eq!(e.kind, ErrorKind::MalformedCapture);
    assert_eq!(e.at, pos(2, 3));
}

#[test]
fn empty_input_gives_empty_text() {
    let r = reconstruct(&vec![], true).unwrap();
    assert_eq!(r.text, "");
    assert!(r.captures.is_empty());
}

fn capture(name: &str, ident: &str) -> Capture {
    Capture { name: name.to_string(), ident: ident.to_string() }
}

#[test]
fn captures_sort_by_name() {
    let sorted = sorted_captures(vec![
        capture("name_b", "name"),
        capture("age_z", "age"),
        capture("name_a", "name"),
        capture("name", "x"),
    ]);
    let names: Vec<&str> = sorted.iter().map(|c| c.name.as_str()).collect();
    assert_eq!(names, vec!["age_z", "name", "name_a", "name_b"]);
    assert_eq!(sorted[0].ident, "age");
}

#[test]
fn names_compare_by_characters() {
    assert!(name_less(&"Z".to_string(), &"a".to_string()));
    assert!(name_less(&"ab".to_string(), &"abc".to_string()));
    assert!(!name_less(&"abc".to_string(), &"abc".to_string()));
    assert!(!name_less(&"b".to_string(), &"abc".to_string()));
    assert!(name_less(&"_".to_string(), &"a".to_string()));
}

#[test]
fn group_keeps_spaces_after_its_opening() {
    let toks = vec![Token::Group {
        delimiter: Delimiter::Parenthesis,
        open: pos(1, 0),
        close: pos(1, 4),
        stream: vec![ident("a", 1, 2)],
    }];
    let r = reconstruct(&toks, false).unwrap();
    assert_eq!(r.text, "( a )");
}

#[test]
fn group_keeps_its_line_breaks() {
    let toks = vec![Token::Group {
        delimiter: Delimiter::Brace,
        open: pos(0, 0),
        close: pos(2, 0),
        stream: vec![ident("a", 1, 4)],
    }];
    let r = reconstruct(&toks, false).unwrap();
    assert_eq!(r.text, "{\na\n}");
}
