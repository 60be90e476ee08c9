use surqx::reconstruct::ErrorKind;
use surqx::token::{Pos, Spacing, Token};
use surqx::{expand, sql};

fn pos(line: usize, column: usize) -> Pos {
    Pos { line, column }
}

fn ident(text: &str, line: usize, column: usize) -> Token {
    Token::Ident {
        text: text.to_string(),
        start: pos(line, column),
        end: pos(line, column + text.chars().count()),
    }
}

fn punct(ch: char, line: usize, column: usize) -> Token {
    Token::Punct { ch, spacing: Spacing::Alone, pos: pos(line, column) }
}

#[test]
fn valid_query_passes_the_parser() {
    let toks = vec![
        ident("CREATE", 1, 0),
        ident("person", 1, 7),
        ident("SET", 1, 14),
        ident("name", 1, 18),
        punct('=', 1, 23),
        punct('$', 1, 25),
        ident("name", 1, 26),
        punct(';', 1, 30),
    ];
    let e = sql(&toks).unwrap();
    assert_eq!(e.query, "CREATE person SET name = $name;");
    assert!(e.captures.is_empty());
}

#[test]
fn captured_query_passes_the_parser() {
    let toks = vec![
        ident("CREATE", 1, 0),
        ident("person", 1, 7),
        ident("SET", 1, 14),
        ident("name", 1, 18),
        punct('=', 1, 23),
        punct('&', 1, 25),
        ident("name", 1, 26),
        punct(';', 1, 30),
    ];
    let e = expand(&toks, true).unwrap();
    assert!(e.query.starts_with("CREATE person SET name = $name_"));
    assert_eq!(e.captures.len(), 1);
    assert_eq!(e.captures[0].ident, "name");
}

#[test]
fn invalid_query_is_reported_over_the_whole_span() {
    let toks = vec![ident("SELEC", 1, 2), punct('*', 1, 8), ident("FROM", 1, 10), ident("x", 2, 2)];
    let d = expand(&toks, true).err().unwrap();
    assert_eq!(d.kind, ErrorKind::Grammar);
    assert!(d.message.ends_with("\nSELEC * FROM\nx"));
    assert_eq!(d.start, pos(1, 2));
    assert_eq!(d.end, pos(2, 3));
}

#[test]
fn invalid_query_passes_without_validation() {
    let toks = vec![ident("SELEC", 1, 2), punct('*', 1, 8)];
    let e = expand(&toks, false).unwrap();
    assert_eq!(e.query, "SELEC *");
}

#[test]
fn indentation_fault_becomes_diagnostic() {
    let toks = vec![ident("SELECT", 1, 4), ident("a", 2, 4), ident("b", 3, 2)];
    let d = expand(&toks, true).err().unwrap();
    assert_eq!(d.kind, ErrorKind::Indentation);
    assert_eq!(d.message, "invalid indent");
    assert_eq!(d.start, pos(3, 2));
    assert_eq!(d.end, pos(3, 2));
}
