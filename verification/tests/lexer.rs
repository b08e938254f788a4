use rrain::lexer::{lex, Token};

fn lx(s: &str) -> Vec<Token> {
    lex(s).expect("lexing should succeed")
}

fn ident(s: &str) -> Token {
    Token::Identifier(s.to_string())
}

fn sym(s: &str) -> Token {
    Token::Symbol(s.to_string())
}

fn op(s: &str) -> Token {
    Token::Operator(s.to_string())
}

#[test]
fn lexes_integer_literal() {
    assert_eq!(lx("42"), vec![Token::Int(42)]);
}

#[test]
fn lexes_float_literal_as_text() {
    assert_eq!(lx("4.5"), vec![Token::Float("4.5".to_string())]);
}

#[test]
fn scanner_accepts_multiple_decimal_points() {
    // the maximal-run rule takes the whole text; classification only asks
    // whether a decimal point occurred at all
    assert_eq!(lx("1.2.3"), vec![Token::Float("1.2.3".to_string())]);
}

#[test]
fn largest_integer_fits() {
    assert_eq!(lx("9223372036854775807"), vec![Token::Int(i64::MAX)]);
}

#[test]
fn oversized_integer_is_an_error() {
    let e = lex("9223372036854775808").expect_err("must not fit");
    assert_eq!(e, "integer literal too large: 9223372036854775808");
}

#[test]
fn double_colon_is_one_operator_token() {
    assert_eq!(lx("::"), vec![op("::")]);
}

#[test]
fn single_colon_before_other_character_is_one_symbol() {
    assert_eq!(lx(":a"), vec![sym(":"), ident("a")]);
}

#[test]
fn two_character_operators_and_their_one_character_forms() {
    assert_eq!(lx("a<=b"), vec![ident("a"), op("<="), ident("b")]);
    assert_eq!(lx("a<b"), vec![ident("a"), op("<"), ident("b")]);
    assert_eq!(lx("a>=b"), vec![ident("a"), op(">="), ident("b")]);
    assert_eq!(lx("a==b"), vec![ident("a"), op("=="), ident("b")]);
    assert_eq!(lx("a=b"), vec![ident("a"), sym("="), ident("b")]);
    assert_eq!(lx("a!=b"), vec![ident("a"), op("!="), ident("b")]);
    assert_eq!(lx("!a"), vec![op("!"), ident("a")]);
    assert_eq!(lx("x->y"), vec![ident("x"), sym("->"), ident("y")]);
    assert_eq!(lx("x-y"), vec![ident("x"), op("-"), ident("y")]);
}

#[test]
fn single_character_operators_and_symbols() {
    assert_eq!(
        lx("a+b*c"),
        vec![ident("a"), op("+"), ident("b"), op("*"), ident("c")]
    );
    assert_eq!(lx("(x);"), vec![sym("("), ident("x"), sym(")"), sym(";")]);
    assert_eq!(lx("{x}"), vec![sym("{"), ident("x"), sym("}")]);
    assert_eq!(
        lx("p.q,r"),
        vec![ident("p"), sym("."), ident("q"), sym(","), ident("r")]
    );
    assert_eq!(
        lx("$a~b&c|d/e"),
        vec![
            op("$"),
            ident("a"),
            op("~"),
            ident("b"),
            op("&"),
            ident("c"),
            op("|"),
            ident("d"),
            op("/"),
            ident("e")
        ]
    );
}

#[test]
fn two_character_heads_at_end_of_input_fall_back() {
    assert_eq!(lx(":"), vec![sym(":")]);
    assert_eq!(lx("="), vec![sym("=")]);
    assert_eq!(lx("-"), vec![op("-")]);
    assert_eq!(lx("!"), vec![op("!")]);
    assert_eq!(lx("<"), vec![op("<")]);
    assert_eq!(lx(">"), vec![op(">")]);
}

#[test]
fn string_literal_kept_verbatim() {
    assert_eq!(lx("\"hi there\""), vec![Token::Str("hi there".to_string())]);
}

#[test]
fn unterminated_string_reaches_end_of_input_silently() {
    assert_eq!(lx("\"abc"), vec![Token::Str("abc".to_string())]);
}

#[test]
fn words_classify_to_literals_keywords_and_identifiers() {
    assert_eq!(
        lx("true false null break foo"),
        vec![
            Token::Bool(true),
            Token::Bool(false),
            Token::Null,
            Token::Keyword("break".to_string()),
            ident("foo")
        ]
    );
}

#[test]
fn all_fourteen_keywords_are_recognized() {
    let words = [
        "break", "catch", "continue", "else", "for", "func", "if", "in", "loop", "pass",
        "return", "save", "while", "table",
    ];
    for w in words {
        assert_eq!(lx(w), vec![Token::Keyword(w.to_string())]);
    }
}

#[test]
fn unexpected_character_is_reported() {
    let e = lex("#").expect_err("not a known character");
    assert_eq!(e, "unexpected character #");
}

#[test]
fn spaces_between_tokens_are_skipped() {
    assert_eq!(lx("a   b"), vec![ident("a"), ident("b")]);
}

#[test]
fn equal_indentation_emits_line_end() {
    assert_eq!(
        lx("a\nb\n"),
        vec![ident("a"), Token::Newline, ident("b"), Token::Newline]
    );
}

#[test]
fn indentation_scenario_block_markers() {
    // a deeper line opens a block with one block-start marker and no line
    // end; the return to width zero emits one block-end marker followed by
    // one line-end marker
    assert_eq!(
        lx("if x\n  y = 1\n"),
        vec![
            Token::Keyword("if".to_string()),
            ident("x"),
            Token::Indent,
            ident("y"),
            sym("="),
            Token::Int(1),
            Token::Dedent,
            Token::Newline,
        ]
    );
}

#[test]
fn deeper_sibling_indentation_opens_another_block() {
    // a body indented by two followed by a line indented by three: the
    // stack grows again, and the final return to width zero pops both
    assert_eq!(
        lx("if x\n  y = 1\n   z = 2\n"),
        vec![
            Token::Keyword("if".to_string()),
            ident("x"),
            Token::Indent,
            ident("y"),
            sym("="),
            Token::Int(1),
            Token::Indent,
            ident("z"),
            sym("="),
            Token::Int(2),
            Token::Dedent,
            Token::Newline,
            Token::Dedent,
            Token::Newline,
        ]
    );
}

#[test]
fn dedent_to_unaligned_width_is_accepted_silently() {
    // popping stops as soon as the top is no longer greater than the new
    // width; no check that the new width equals the remaining top
    assert_eq!(
        lx("if x\n    y\n  z\n"),
        vec![
            Token::Keyword("if".to_string()),
            ident("x"),
            Token::Indent,
            ident("y"),
            Token::Dedent,
            Token::Newline,
            ident("z"),
            Token::Newline,
        ]
    );
}

#[test]
fn block_markers_are_nested_in_every_prefix() {
    let toks = lx("if a\n  if b\n   c\n  d\ne\n");
    let mut depth: i64 = 0;
    for t in &toks {
        match t {
            Token::Indent => depth += 1,
            Token::Dedent => depth -= 1,
            _ => {}
        }
        assert!(depth >= 0, "a block end must close an earlier block start");
    }
}

#[test]
fn empty_input_lexes_to_no_tokens() {
    assert_eq!(lx(""), Vec::<Token>::new());
}
