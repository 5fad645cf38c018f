use lua_lexer::errors::{ErrorReason, LexError};
use lua_lexer::lexer::{Lexer, ScanOutcome, TokenExtras};
use lua_lexer::token::{Span, TokenEnum, TokenKind};

fn scan_bytes(src: &[u8]) -> ScanOutcome {
    let mut lex = Lexer::new(src, b"test.lua".to_vec());
    lex.scan()
}

fn kinds(out: &ScanOutcome) -> Vec<TokenKind> {
    out.tokens.iter().map(|t| t.kind()).collect()
}

#[test]
fn punctuation_kinds_match_table() {
    let cases: Vec<(&[u8], TokenKind)> = vec![
        (b"=", TokenKind::Equal),
        (b"+", TokenKind::Plus),
        (b"-", TokenKind::Sub),
        (b"*", TokenKind::Mul),
        (b"/", TokenKind::Div),
        (b"//", TokenKind::DivToInt),
        (b";", TokenKind::Semicolon),
        (b",", TokenKind::Comma),
        (b"..", TokenKind::DoubleDot),
        (b".", TokenKind::Dot),
        (b">", TokenKind::Gt),
        (b"<", TokenKind::Lt),
        (b"(", TokenKind::ParenthesesLeft),
        (b")", TokenKind::ParenthesesRight),
    ];
    for (src, want) in cases {
        let out = scan_bytes(src);
        assert_eq!(out.errors.len(), 0, "errors for {:?}", src);
        assert_eq!(out.tokens.len(), 1, "tokens for {:?}", src);
        assert_eq!(out.tokens[0].kind(), want);
        let span = out.tokens[0].span();
        assert_eq!((span.start, span.end), (0, src.len()));
    }
}

#[test]
fn keyword_kinds_match_table() {
    let cases: Vec<(&[u8], TokenKind)> = vec![
        (b"function", TokenKind::Function),
        (b"end", TokenKind::End),
        (b"local", TokenKind::Local),
        (b"break", TokenKind::Break),
        (b"do", TokenKind::Do),
        (b"while", TokenKind::While),
        (b"if", TokenKind::If),
        (b"else", TokenKind::Else),
        (b"elseif", TokenKind::Elseif),
        (b"then", TokenKind::Then),
        (b"repeat", TokenKind::Repeat),
        (b"until", TokenKind::Until),
        (b"for", TokenKind::For),
        (b"goto", TokenKind::Goto),
        (b"and", TokenKind::And),
        (b"or", TokenKind::Or),
    ];
    for (src, want) in cases {
        let out = scan_bytes(src);
        assert_eq!(out.errors.len(), 0, "errors for {:?}", src);
        assert_eq!(out.tokens.len(), 1, "tokens for {:?}", src);
        assert_eq!(out.tokens[0].kind(), want);
    }
}

#[test]
fn keyword_needs_exact_text() {
    let out = scan_bytes(b"functions iffy");
    assert_eq!(kinds(&out), vec![TokenKind::Name, TokenKind::Name]);
    assert_eq!(out.errors.len(), 0);
}

#[test]
fn int_literal_decimal() {
    let out = scan_bytes(b"42");
    assert_eq!(out.errors.len(), 0);
    assert_eq!(out.tokens.len(), 1);
    match &out.tokens[0] {
        TokenEnum::Int(t) => assert_eq!(t.v, 42),
        other => panic!("not an integer token: {:?}", other),
    }
}

#[test]
fn int_literal_hex() {
    let out = scan_bytes(b"0x2A");
    assert_eq!(out.errors.len(), 0);
    assert_eq!(out.tokens.len(), 1);
    match &out.tokens[0] {
        TokenEnum::Int(t) => {
            assert_eq!(t.v, 42);
            assert_eq!((t.span.start, t.span.end), (0, 4));
        },
        other => panic!("not an integer token: {:?}", other),
    }
}

#[test]
fn int_literal_overflow_reports_and_continues() {
    let out = scan_bytes(b"99999999999999999999 42");
    assert_eq!(out.errors.len(), 1);
    assert_eq!(out.errors[0].reason, ErrorReason::InvalidIntLiteral);
    assert_eq!((out.errors[0].span.start, out.errors[0].span.end), (0, 20));
    assert_eq!(out.tokens.len(), 1);
    match &out.tokens[0] {
        TokenEnum::Int(t) => assert_eq!(t.v, 42),
        other => panic!("not an integer token: {:?}", other),
    }
}

#[test]
fn int_literal_hex_overflow() {
    let out = scan_bytes(b"0xFFFFFFFFFFFFFFFFF");
    assert_eq!(out.errors.len(), 1);
    assert_eq!(out.errors[0].reason, ErrorReason::InvalidIntLiteral);
    assert_eq!(out.tokens.len(), 0);
}

fn float_value(t: &TokenEnum) -> f64 {
    match t {
        TokenEnum::Float(t) => String::from_utf8(t.v.clone()).unwrap().parse().unwrap(),
        other => panic!("not a float token: {:?}", other),
    }
}

#[test]
fn float_literal_plain() {
    let out = scan_bytes(b"3.14");
    assert_eq!(out.errors.len(), 0);
    assert_eq!(out.tokens.len(), 1);
    assert_eq!(float_value(&out.tokens[0]), 3.14);
}

#[test]
fn float_literal_exponent() {
    let out = scan_bytes(b"2e10");
    assert_eq!(out.errors.len(), 0);
    assert_eq!(out.tokens.len(), 1);
    assert_eq!(float_value(&out.tokens[0]), 2e10);
}

#[test]
fn float_literal_leading_dot() {
    let out = scan_bytes(b".5");
    assert_eq!(out.errors.len(), 0);
    assert_eq!(out.tokens.len(), 1);
    assert_eq!(float_value(&out.tokens[0]), 0.5);
}

#[test]
fn float_wins_over_int() {
    let out = scan_bytes(b"1..2");
    assert_eq!(kinds(&out), vec![TokenKind::Float, TokenKind::Float]);
    match &out.tokens[0] {
        TokenEnum::Float(t) => assert_eq!(t.v, b"1.".to_vec()),
        other => panic!("not a float token: {:?}", other),
    }
    assert_eq!(out.errors.len(), 1);
}

#[test]
fn float_trailing_dot() {
    let out = scan_bytes(b"2. x");
    assert_eq!(kinds(&out), vec![TokenKind::Float, TokenKind::Name]);
    assert_eq!(float_value(&out.tokens[0]), 2.0);
    assert_eq!(out.errors.len(), 0);
}

#[test]
fn float_dot_then_exponent() {
    let out = scan_bytes(b"1.e5");
    assert_eq!(kinds(&out), vec![TokenKind::Float]);
    assert_eq!(float_value(&out.tokens[0]), 1e5);
    assert_eq!(out.errors.len(), 0);
}

#[test]
fn double_quoted_string() {
    let out = scan_bytes(b"\"hi\"");
    assert_eq!(out.errors.len(), 0);
    match &out.tokens[0] {
        TokenEnum::QuotedString(t) => {
            assert_eq!(t.v, b"\"hi".to_vec());
            assert_eq!((t.span.start, t.span.end), (0, 4));
        },
        other => panic!("not a string token: {:?}", other),
    }
}

#[test]
fn comment_at_end_of_input() {
    let out = scan_bytes(b"x --");
    assert_eq!(kinds(&out), vec![TokenKind::Name, TokenKind::Comment]);
    match &out.tokens[1] {
        TokenEnum::Comment(t) => assert_eq!(t.v, b"--".to_vec()),
        other => panic!("not a comment token: {:?}", other),
    }
    assert_eq!(out.errors.len(), 0);
}

#[test]
fn bool_literals() {
    let out = scan_bytes(b"true false truex");
    assert_eq!(
        kinds(&out),
        vec![TokenKind::Bool, TokenKind::Bool, TokenKind::Name],
    );
    match (&out.tokens[0], &out.tokens[1]) {
        (TokenEnum::Bool(a), TokenEnum::Bool(b)) => {
            assert_eq!(a.v, true);
            assert_eq!(b.v, false);
        },
        other => panic!("not boolean tokens: {:?}", other),
    }
    assert_eq!(out.errors.len(), 0);
}

#[test]
fn string_literal_decodes_naively() {
    let out = scan_bytes(b"'ab\\'cd'");
    assert_eq!(out.errors.len(), 0);
    assert_eq!(out.tokens.len(), 1);
    match &out.tokens[0] {
        TokenEnum::QuotedString(t) => {
            assert_eq!(t.v, b"'ab'cd".to_vec());
            assert_eq!((t.span.start, t.span.end), (0, 8));
        },
        other => panic!("not a string token: {:?}", other),
    }
}

#[test]
fn string_literal_doubled_quote() {
    let out = scan_bytes(b"'a''b'");
    assert_eq!(out.errors.len(), 0);
    assert_eq!(out.tokens.len(), 1);
    match &out.tokens[0] {
        TokenEnum::QuotedString(t) => {
            assert_eq!(t.v, b"'a''b".to_vec());
            assert_eq!((t.span.start, t.span.end), (0, 6));
        },
        other => panic!("not a string token: {:?}", other),
    }
}

#[test]
fn string_literal_unterminated() {
    let out = scan_bytes(b"'abc");
    assert_eq!(out.errors.len(), 1);
    assert_eq!(out.errors[0].reason, ErrorReason::UnknownToken);
    assert_eq!((out.errors[0].span.start, out.errors[0].span.end), (0, 1));
    assert_eq!(kinds(&out), vec![TokenKind::Name]);
}

#[test]
fn adjacency_error_spans_both_tokens() {
    let out = scan_bytes(b"123abc");
    assert_eq!(kinds(&out), vec![TokenKind::Int, TokenKind::Name]);
    assert_eq!(out.errors.len(), 1);
    assert_eq!(out.errors[0].reason, ErrorReason::UnknownToken);
    assert_eq!((out.errors[0].span.start, out.errors[0].span.end), (0, 6));
}

#[test]
fn adjacency_fine_with_space() {
    let out = scan_bytes(b"123 abc");
    assert_eq!(kinds(&out), vec![TokenKind::Int, TokenKind::Name]);
    assert_eq!(out.errors.len(), 0);
}

#[test]
fn line_tracking_reports_line_three() {
    let out = scan_bytes(b"a\nb\nc");
    assert_eq!(out.tokens.len(), 3);
    assert_eq!(out.tokens[0].line(), 1);
    assert_eq!(out.tokens[1].line(), 2);
    assert_eq!(out.tokens[2].line(), 3);
    assert_eq!(out.errors.len(), 0);
}

#[test]
fn line_tracking_all_terminators() {
    let out = scan_bytes(b"a\r\nb\rc\x0cd");
    assert_eq!(out.tokens.len(), 4);
    let lines: Vec<usize> = out.tokens.iter().map(|t| t.line()).collect();
    assert_eq!(lines, vec![1, 2, 3, 4]);
    assert_eq!(out.errors.len(), 0);
}

#[test]
fn newline_inside_string_is_not_a_line() {
    let out = scan_bytes(b"'a\nb' x");
    assert_eq!(kinds(&out), vec![TokenKind::QuotedString, TokenKind::Name]);
    assert_eq!(out.tokens[1].line(), 1);
    assert_eq!(out.errors.len(), 0);
}

#[test]
fn scanning_twice_is_identical() {
    let src: &[u8] = b"local x = 10 + 5 -- sum\n'a\\'b' 123abc 0x2A 3.14 @";
    let first = scan_bytes(src);
    let second = scan_bytes(src);
    assert_eq!(first.tokens, second.tokens);
    assert_eq!(first.errors, second.errors);
}

#[test]
fn end_to_end_line() {
    let out = scan_bytes(b"local x = 10 + 5 -- sum\n");
    assert_eq!(
        kinds(&out),
        vec![
            TokenKind::Local,
            TokenKind::Name,
            TokenKind::Equal,
            TokenKind::Int,
            TokenKind::Plus,
            TokenKind::Int,
            TokenKind::Comment,
        ],
    );
    match &out.tokens[1] {
        TokenEnum::Name(t) => assert_eq!(t.v, b"x".to_vec()),
        other => panic!("not a name token: {:?}", other),
    }
    match (&out.tokens[3], &out.tokens[5]) {
        (TokenEnum::Int(a), TokenEnum::Int(b)) => {
            assert_eq!(a.v, 10);
            assert_eq!(b.v, 5);
        },
        other => panic!("not integer tokens: {:?}", other),
    }
    match &out.tokens[6] {
        TokenEnum::Comment(t) => assert_eq!(t.v, b"-- sum".to_vec()),
        other => panic!("not a comment token: {:?}", other),
    }
    assert_eq!(out.errors.len(), 0);
    assert_eq!(out.token_count(), 7);
}

#[test]
fn unknown_byte_reports_and_continues() {
    let out = scan_bytes(b"@ x");
    assert_eq!(out.errors.len(), 1);
    assert_eq!(out.errors[0].reason, ErrorReason::UnknownToken);
    assert_eq!((out.errors[0].span.start, out.errors[0].span.end), (0, 1));
    assert_eq!(kinds(&out), vec![TokenKind::Name]);
}

#[test]
fn hex_prefix_without_digits() {
    let out = scan_bytes(b"0x");
    assert_eq!(kinds(&out), vec![TokenKind::Int, TokenKind::Name]);
    match &out.tokens[0] {
        TokenEnum::Int(t) => assert_eq!(t.v, 0),
        other => panic!("not an integer token: {:?}", other),
    }
    assert_eq!(out.errors.len(), 1);
}

#[test]
fn empty_input_scans_clean() {
    let out = scan_bytes(b"");
    assert_eq!(out.tokens.len(), 0);
    assert_eq!(out.errors.len(), 0);
    assert_eq!(out.token_count(), 0);
}

#[test]
fn separators_and_non_separators() {
    let out = scan_bytes(b"+ . 'x' -- c");
    assert!(out.tokens[0].is_separate());
    assert!(out.tokens[1].is_separate());
    assert!(out.tokens[2].is_separate());
    assert!(out.tokens[3].is_separate());
    let out2 = scan_bytes(b"x 1 true do");
    for t in &out2.tokens {
        assert!(!t.is_separate(), "{:?} should not separate", t);
    }
}

#[test]
fn comment_separates_neighbours() {
    let out = scan_bytes(b"1-- c\n2");
    assert_eq!(
        kinds(&out),
        vec![TokenKind::Int, TokenKind::Comment, TokenKind::Int],
    );
    assert_eq!(out.errors.len(), 0);
}

#[test]
fn render_unknown_token_line() {
    let src: &[u8] = b"@";
    let out = scan_bytes(src);
    let rendered = out.errors[0].render(src, b"test.lua");
    assert_eq!(rendered, b"test.lua:1: unknown token '@'".to_vec());
}

#[test]
fn render_invalid_integer_line() {
    let src: &[u8] = b"\n99999999999999999999";
    let out = scan_bytes(src);
    assert_eq!(out.errors.len(), 1);
    let rendered = out.errors[0].render(src, b"a.lua");
    assert_eq!(
        rendered,
        b"a.lua:2: invalid integer literal '99999999999999999999'".to_vec(),
    );
}

#[test]
fn extras_default_state() {
    let extras = TokenExtras::default();
    assert_eq!(extras.line_breaks, 1);
    assert_eq!(extras.line_start, 0);
    assert_eq!(extras.file_path, Vec::<u8>::new());
    assert_eq!(extras.before_token_is_separate, true);
    assert_eq!(extras.before_token_start, 0);
}

#[test]
fn pull_based_iteration_matches_scan() {
    let src: &[u8] = b"local 123abc";
    let mut lex = Lexer::new(src, Vec::new());
    let mut pulled_tokens: Vec<TokenEnum> = Vec::new();
    let mut pulled_errors: Vec<LexError> = Vec::new();
    loop {
        match lex.next_token() {
            None => break,
            Some(Ok(t)) => pulled_tokens.push(t),
            Some(Err(e)) => pulled_errors.push(e),
        }
    }
    let whole = scan_bytes(src);
    assert_eq!(pulled_tokens, whole.tokens);
    assert_eq!(pulled_errors, whole.errors);
}

#[test]
fn spans_are_byte_ranges() {
    let src: &[u8] = b"do  x";
    let out = scan_bytes(src);
    let spans: Vec<(usize, usize)> = out
        .tokens
        .iter()
        .map(|t| {
            let Span { start, end } = t.span();
            (start, end)
        })
        .collect();
    assert_eq!(spans, vec![(0, 2), (4, 5)]);
}
