use report_dispatcher::ast::{CompOp, Condition, Literal, Query};
use report_dispatcher::lexer::tokenize;
use report_dispatcher::parser::{ParseError, Parser};
use report_dispatcher::token::Span;

fn parse_string(input: &str) -> Result<Query, ParseError> {
    let tokens = tokenize(input);
    Parser::new(&tokens).parse()
}

#[test]
fn parser_test_simple_filter() {
    let result = parse_string(r#"Filter: status["Open"]"#).unwrap();
    assert_eq!(result.base_filters.len(), 1);
    assert_eq!(result.cross_filters.len(), 0);
    let filter = &result.base_filters[0];
    assert_eq!(filter.field.0, "status");
    if let Condition::Comparison { op, value } = &filter.condition {
        assert_eq!(*op, CompOp::Eq);
        assert_eq!(*value, Literal::String("Open".to_string()));
    } else {
        panic!("Expected comparison condition");
    }
}

#[test]
fn test_multiple_filters() {
    let result = parse_string(r#"Filter: status["Open"]; priority[>2]"#).unwrap();
    assert_eq!(result.base_filters.len(), 2);
    assert_eq!(result.cross_filters.len(), 0);
    assert_eq!(result.base_filters[0].field.0, "status");
    let filter2 = &result.base_filters[1];
    assert_eq!(filter2.field.0, "priority");
    if let Condition::Comparison { op, value } = &filter2.condition {
        assert_eq!(*op, CompOp::Gt);
        assert_eq!(*value, Literal::Number(2));
    } else {
        panic!("Expected comparison condition");
    }
}

#[test]
fn test_cross_filter() {
    let result = parse_string(r#"CrossFilter: <Test-Run> status["PASS"]"#).unwrap();
    assert_eq!(result.base_filters.len(), 0);
    assert_eq!(result.cross_filters.len(), 1);
    let cross_filter = &result.cross_filters[0];
    assert_eq!(cross_filter.source_entity.0, "Test");
    assert_eq!(cross_filter.target_entity.0, "Run");
    assert_eq!(cross_filter.filters.len(), 1);
    assert_eq!(cross_filter.filters[0].field.0, "status");
}

#[test]
fn test_logical_operations() {
    let result = parse_string(r#"Filter: status["Open" OR "Pending"]"#).unwrap();
    let filter = &result.base_filters[0];
    if let Condition::Or(left, right) = &filter.condition {
        if let (Condition::Comparison { value: left_val, .. }, Condition::Comparison { value: right_val, .. }) =
            (left.as_ref(), right.as_ref())
        {
            assert_eq!(*left_val, Literal::String("Open".to_string()));
            assert_eq!(*right_val, Literal::String("Pending".to_string()));
        } else {
            panic!("Expected comparison conditions in OR");
        }
    } else {
        panic!("Expected OR condition");
    }
}

#[test]
fn test_not_condition() {
    let result = parse_string(r#"Filter: status[NOT "Closed"]"#).unwrap();
    let filter = &result.base_filters[0];
    if let Condition::Not(inner) = &filter.condition {
        if let Condition::Comparison { op, value } = inner.as_ref() {
            assert_eq!(*op, CompOp::Eq);
            assert_eq!(*value, Literal::String("Closed".to_string()));
        } else {
            panic!("Expected comparison condition inside NOT");
        }
    } else {
        panic!("Expected NOT condition");
    }
}

#[test]
fn test_grouped_condition() {
    let result = parse_string(r#"Filter: status[("Open" OR "Pending")]"#).unwrap();
    let filter = &result.base_filters[0];
    if let Condition::Grouped(inner) = &filter.condition {
        if let Condition::Or(_, _) = inner.as_ref() {
        } else {
            panic!("Expected OR condition inside group");
        }
    } else {
        panic!("Expected grouped condition");
    }
}

#[test]
fn test_date_keywords() {
    let result = parse_string(r#"Filter: created[>today]; modified[<=yesterday]"#).unwrap();
    assert_eq!(result.base_filters.len(), 2);
    if let Condition::Comparison { op, value } = &result.base_filters[0].condition {
        assert_eq!(*op, CompOp::Gt);
        assert_eq!(*value, Literal::Date("today".to_string()));
    } else {
        panic!("Expected comparison with today");
    }
    if let Condition::Comparison { op, value } = &result.base_filters[1].condition {
        assert_eq!(*op, CompOp::Lte);
        assert_eq!(*value, Literal::Date("yesterday".to_string()));
    } else {
        panic!("Expected comparison with yesterday");
    }
}

#[test]
fn test_current_user() {
    let result = parse_string(r#"Filter: assignee[!=current_user]"#).unwrap();
    if let Condition::Comparison { op, value } = &result.base_filters[0].condition {
        assert_eq!(*op, CompOp::NotEq);
        assert_eq!(*value, Literal::CurrentUser);
    } else {
        panic!("Expected comparison with current_user");
    }
}

#[test]
fn test_in_clause() {
    let result = parse_string(r#"Filter: status[IN ("Open", "Pending")]"#).unwrap();
    let filter = &result.base_filters[0];
    assert_eq!(filter.field.0, "status");
    if let Condition::In(values) = &filter.condition {
        assert_eq!(values.len(), 2);
        assert_eq!(values[0], Literal::String("Open".to_string()));
        assert_eq!(values[1], Literal::String("Pending".to_string()));
    } else {
        panic!("Expected IN condition");
    }
}

#[test]
fn test_in_clause_empty() {
    let result = parse_string(r#"Filter: status[IN ()]"#).unwrap();
    if let Condition::In(values) = &result.base_filters[0].condition {
        assert!(values.is_empty());
    } else {
        panic!("Expected IN condition");
    }
}

#[test]
fn test_in_clause_single_item() {
    let result = parse_string(r#"Filter: status[IN ("Open")]"#).unwrap();
    if let Condition::In(values) = &result.base_filters[0].condition {
        assert_eq!(values.len(), 1);
        assert_eq!(values[0], Literal::String("Open".to_string()));
    } else {
        panic!("Expected IN condition");
    }
}

#[test]
fn test_in_clause_trailing_comma_is_error() {
    assert!(parse_string(r#"Filter: status[IN ("Open",)]"#).is_err());
}

#[test]
fn parser_test_complex_query() {
    let input = r#"Filter: title["Plan" AND ("v1" OR "v2")]; priority[>2]; CrossFilter: <Test-Run> status["PASS"]"#;
    let result = parse_string(input).unwrap();
    assert_eq!(result.base_filters.len(), 2);
    assert_eq!(result.cross_filters.len(), 1);
    let title_filter = &result.base_filters[0];
    assert_eq!(title_filter.field.0, "title");
    if let Condition::And(left, right) = &title_filter.condition {
        if let Condition::Comparison { value, .. } = left.as_ref() {
            assert_eq!(*value, Literal::String("Plan".to_string()));
        } else {
            panic!("Expected comparison on left side of AND");
        }
        if let Condition::Grouped(inner) = right.as_ref() {
            if let Condition::Or(_, _) = inner.as_ref() {
            } else {
                panic!("Expected OR inside group");
            }
        } else {
            panic!("Expected grouped condition on right side of AND");
        }
    } else {
        panic!("Expected AND condition for title");
    }
}

#[test]
fn cross_filter_without_hyphen_fails_on_the_entity() {
    let err = parse_string(r#"CrossFilter: <TestRun> status["PASS"]"#).unwrap_err();
    assert_eq!(err.span, Some(Span::new(14, 21)));
}

#[test]
fn cross_filter_with_empty_half_or_two_hyphens_fails() {
    let err = parse_string(r#"CrossFilter: <Test-> status["PASS"]"#).unwrap_err();
    assert_eq!(err.span, Some(Span::new(14, 19)));
    let err = parse_string(r#"CrossFilter: <A-B-C> status["PASS"]"#).unwrap_err();
    assert_eq!(err.span, Some(Span::new(14, 19)));
}

#[test]
fn double_negation_is_kept() {
    let result = parse_string(r#"Filter: status[NOT NOT "Open"]"#).unwrap();
    let expected = Condition::Not(Box::new(Condition::Not(Box::new(Condition::Comparison {
        op: CompOp::Eq,
        value: Literal::String("Open".to_string()),
    }))));
    assert_eq!(result.base_filters[0].condition, expected);
}

#[test]
fn parsing_twice_gives_equal_trees() {
    let input = r#"Filter: a[1 OR (2 AND NOT 3)]; b[IS NOT NULL]; CrossFilter: <X-Y> c[IN (x, "y", 4)]"#;
    let tokens = tokenize(input);
    let first = Parser::new(&tokens).parse().unwrap();
    let second = Parser::new(&tokens).parse().unwrap();
    assert_eq!(first, second);
}

#[test]
fn and_binds_tighter_than_or_and_both_group_left() {
    let result = parse_string(r#"Filter: f[1 OR 2 AND 3 OR 4]"#).unwrap();
    let n = |v: i64| Box::new(Condition::Comparison { op: CompOp::Eq, value: Literal::Number(v) });
    let expected = Condition::Or(
        Box::new(Condition::Or(n(1), Box::new(Condition::And(n(2), n(3))))),
        n(4),
    );
    assert_eq!(result.base_filters[0].condition, expected);
}

#[test]
fn null_tests_parse() {
    let result = parse_string(r#"Filter: a[IS NULL]; b[IS NOT NULL]"#).unwrap();
    assert_eq!(result.base_filters[0].condition, Condition::IsNull);
    assert_eq!(result.base_filters[1].condition, Condition::IsNotNull);
}

#[test]
fn error_at_end_of_input_has_no_span() {
    let err = parse_string(r#"Filter: status["#).unwrap_err();
    assert_eq!(err.span, None);
}

#[test]
fn unexpected_leading_token_is_reported() {
    let err = parse_string(r#"status["Open"]"#).unwrap_err();
    assert_eq!(err.span, Some(Span::new(0, 6)));
}

#[test]
fn missing_semicolon_is_reported_at_the_next_token() {
    let err = parse_string(r#"Filter: a[1] b[2]"#).unwrap_err();
    assert_eq!(err.span, Some(Span::new(13, 14)));
}

#[test]
fn trailing_semicolon_ends_the_filters() {
    let result = parse_string(r#"Filter: a[1];"#).unwrap();
    assert_eq!(result.base_filters.len(), 1);
}

#[test]
fn several_sections_are_collected_in_order() {
    let result =
        parse_string(r#"Filter: a[1]; d[4]; CrossFilter: <A-B> b[2]; CrossFilter: <C-D> c[3]"#).unwrap();
    assert_eq!(result.base_filters.len(), 2);
    assert_eq!(result.base_filters[1].field.0, "d");
    assert_eq!(result.cross_filters.len(), 2);
    assert_eq!(result.cross_filters[1].target_entity.0, "D");
}

#[test]
fn a_filter_section_after_a_cross_filter_is_an_error() {
    assert!(parse_string(r#"CrossFilter: <A-B> b[2]; Filter: d[4]"#).is_err());
}

#[test]
fn empty_input_is_an_empty_query() {
    let result = parse_string("").unwrap();
    assert!(result.base_filters.is_empty() && result.cross_filters.is_empty());
}
