use report_dispatcher::lexer::{tokenize, Lexer};
use report_dispatcher::token::{Span, TokenKind};

fn kinds(input: &str) -> Vec<TokenKind> {
    tokenize(input).into_iter().map(|t| t.kind).collect()
}

#[test]
fn lexer_test_simple_filter() {
    let input = r#"Filter: status["Open"]"#;
    let mut lexer = Lexer::new(input);

    assert_eq!(lexer.next_token().unwrap().kind, TokenKind::Filter);
    assert_eq!(lexer.next_token().unwrap().kind, TokenKind::Identifier("status".to_string()));
    assert_eq!(lexer.next_token().unwrap().kind, TokenKind::LBracket);
    assert_eq!(lexer.next_token().unwrap().kind, TokenKind::String("Open".to_string()));
    assert_eq!(lexer.next_token().unwrap().kind, TokenKind::RBracket);
    assert_eq!(lexer.next_token(), None);
}

#[test]
fn test_all_operators_and_punctuation() {
    let input = "!= = > < >= <= ( ) [ ] ; -";
    assert_eq!(
        kinds(input),
        vec![
            TokenKind::NotEq, TokenKind::Eq, TokenKind::Gt, TokenKind::Lt,
            TokenKind::Gte, TokenKind::Lte, TokenKind::LParen, TokenKind::RParen,
            TokenKind::LBracket, TokenKind::RBracket, TokenKind::Semicolon,
            TokenKind::Dash,
        ]
    );
}

#[test]
fn test_keywords_and_identifiers() {
    let input = "AND or nOt is IN NULL today current_user My-Identifier";
    assert_eq!(
        kinds(input),
        vec![
            TokenKind::And, TokenKind::Or, TokenKind::Not, TokenKind::Is, TokenKind::In,
            TokenKind::Null, TokenKind::Today, TokenKind::CurrentUser,
            TokenKind::Identifier("My-Identifier".to_string()),
        ]
    );
}

#[test]
fn test_numbers_and_strings() {
    let input = r#"12345 "hello world""#;
    assert_eq!(
        kinds(input),
        vec![TokenKind::Number(12345), TokenKind::String("hello world".to_string())]
    );
}

#[test]
fn lexer_test_complex_query() {
    let input = r#"Filter: title["Plan" AND (v1 OR v2)];CrossFilter: <Test-Run> dueDate[>today]"#;
    assert_eq!(
        kinds(input),
        vec![
            TokenKind::Filter,
            TokenKind::Identifier("title".to_string()),
            TokenKind::LBracket,
            TokenKind::String("Plan".to_string()),
            TokenKind::And,
            TokenKind::LParen,
            TokenKind::Identifier("v1".to_string()),
            TokenKind::Or,
            TokenKind::Identifier("v2".to_string()),
            TokenKind::RParen,
            TokenKind::RBracket,
            TokenKind::Semicolon,
            TokenKind::CrossFilter,
            TokenKind::Lt,
            TokenKind::Identifier("Test-Run".to_string()),
            TokenKind::Gt,
            TokenKind::Identifier("dueDate".to_string()),
            TokenKind::LBracket,
            TokenKind::Gt,
            TokenKind::Today,
            TokenKind::RBracket
        ]
    );
}

#[test]
fn test_cross_filter_with_brackets() {
    let input = r#"CrossFilter: <Test-Run>"#;
    assert_eq!(
        kinds(input),
        vec![
            TokenKind::CrossFilter,
            TokenKind::Lt,
            TokenKind::Identifier("Test-Run".to_string()),
            TokenKind::Gt,
        ]
    );
}

#[test]
fn test_greater_than_operator() {
    let input = "field[>5]";
    assert_eq!(
        kinds(input),
        vec![
            TokenKind::Identifier("field".to_string()),
            TokenKind::LBracket,
            TokenKind::Gt,
            TokenKind::Number(5),
            TokenKind::RBracket,
        ]
    );
}

#[test]
fn spans_rebuild_the_source_without_whitespace() {
    let input = "Filter:  status[\"Open  now\" OR >= 12];\tCrossFilter: <A-B> x[IS NOT NULL]";
    let tokens = tokenize(input);
    let mut rebuilt = String::new();
    let mut last = 0;
    for t in &tokens {
        assert!(input[last..t.span.start].chars().all(|c| c.is_whitespace()));
        assert!(t.span.start < t.span.end);
        rebuilt.push_str(&input[t.span.start..t.span.end]);
        last = t.span.end;
    }
    assert!(input[last..].chars().all(|c| c.is_whitespace()));
    let no_ws: String = input.chars().filter(|c| !c.is_whitespace()).collect();
    let rebuilt_no_ws: String = rebuilt.chars().filter(|c| !c.is_whitespace()).collect();
    assert_eq!(rebuilt_no_ws, no_ws);
}

#[test]
fn spans_are_byte_offsets() {
    let tokens = tokenize("é \"ü\" x");
    assert_eq!(tokens[0].kind, TokenKind::Identifier("é".to_string()));
    assert_eq!(tokens[0].span, Span::new(0, 2));
    assert_eq!(tokens[1].kind, TokenKind::String("ü".to_string()));
    assert_eq!(tokens[1].span, Span::new(3, 7));
    assert_eq!(tokens[2].span, Span::new(8, 9));
}

#[test]
fn comma_colon_and_bang() {
    assert_eq!(
        kinds("a, : ! !="),
        vec![
            TokenKind::Identifier("a".to_string()),
            TokenKind::Comma,
            TokenKind::Illegal,
            TokenKind::Illegal,
            TokenKind::NotEq,
        ]
    );
}

#[test]
fn section_keywords_need_a_colon_and_ignore_case() {
    assert_eq!(
        kinds("filter: CROSSFILTER: Filter x:"),
        vec![
            TokenKind::Filter,
            TokenKind::CrossFilter,
            TokenKind::Identifier("Filter".to_string()),
            TokenKind::Identifier("x".to_string()),
            TokenKind::Illegal,
        ]
    );
}

#[test]
fn negative_numbers_are_a_dash_and_a_number() {
    assert_eq!(kinds("-456"), vec![TokenKind::Dash, TokenKind::Number(456)]);
}

#[test]
fn number_too_large_is_illegal() {
    assert_eq!(kinds("99999999999999999999"), vec![TokenKind::Illegal]);
    assert_eq!(kinds("9223372036854775807"), vec![TokenKind::Number(i64::MAX)]);
}

#[test]
fn unterminated_string_runs_to_the_end() {
    let tokens = tokenize("x[\"abc");
    assert_eq!(tokens[2].kind, TokenKind::String("abc".to_string()));
    assert_eq!(tokens[2].span, Span::new(2, 6));
}

#[test]
fn empty_and_blank_input_have_no_tokens() {
    assert!(tokenize("").is_empty());
    assert!(tokenize(" \t\n ").is_empty());
}
