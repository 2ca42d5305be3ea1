use rqlite::ast::{BinaryOp, ColumnRef, Expr, Select, Statement, Value};
use rqlite::numeral::parse_i64;
use rqlite::parser::{parse, ParseError};
use rqlite::tokenizer::tokenize;

#[test]
fn tokenize_whitespace_only_is_empty() {
    assert_eq!(tokenize(""), Vec::<String>::new());
    assert_eq!(tokenize("   "), Vec::<String>::new());
    assert_eq!(tokenize(" \t\r\n  \t"), Vec::<String>::new());
}

#[test]
fn tokenize_unicode_whitespace_separates() {
    // No-break space and ideographic space carry the Unicode White_Space property.
    assert_eq!(tokenize("a\u{00A0}b"), vec!["a", "b"]);
    assert_eq!(tokenize("a\u{3000}b"), vec!["a", "b"]);
}

#[test]
fn tokenize_select_star() {
    assert_eq!(tokenize("SELECT * FROM users"), vec!["SELECT", "*", "FROM", "users"]);
}

#[test]
fn tokenize_punctuation_is_singleton() {
    assert_eq!(tokenize("age>30"), vec!["age", ">", "30"]);
    assert_eq!(tokenize("(a,b);"), vec!["(", "a", ",", "b", ")", ";"]);
    assert_eq!(tokenize("a=b<c"), vec!["a", "=", "b", "<", "c"]);
}

#[test]
fn parse_select_with_where() {
    let tokens = tokenize("SELECT id, name FROM users WHERE age > 30");
    let stmt = parse(&tokens).unwrap();
    let expected = Statement::Select(Select {
        columns: vec![
            ColumnRef::Name("id".to_string()),
            ColumnRef::Name("name".to_string()),
        ],
        table: "users".to_string(),
        where_clause: Some(Expr::Binary(
            BinaryOp::Gt,
            Box::new(Expr::Column("age".to_string())),
            Box::new(Expr::Literal(Value::Integer(30))),
        )),
    });
    assert_eq!(stmt, expected);
}

#[test]
fn parse_select_without_where() {
    let tokens = tokenize("select name from people");
    let stmt = parse(&tokens).unwrap();
    let expected = Statement::Select(Select {
        columns: vec![ColumnRef::Name("name".to_string())],
        table: "people".to_string(),
        where_clause: None,
    });
    assert_eq!(stmt, expected);
}

#[test]
fn parse_keywords_case_insensitive() {
    let tokens = tokenize("SeLeCt id FrOm t WhErE id = 1");
    let stmt = parse(&tokens).unwrap();
    let expected = Statement::Select(Select {
        columns: vec![ColumnRef::Name("id".to_string())],
        table: "t".to_string(),
        where_clause: Some(Expr::Binary(
            BinaryOp::Eq,
            Box::new(Expr::Column("id".to_string())),
            Box::new(Expr::Literal(Value::Integer(1))),
        )),
    });
    assert_eq!(stmt, expected);
}

#[test]
fn parse_star_then_names_mixes() {
    // `*` ends the list wherever it stands, so a name before it is kept.
    let tokens = tokenize("SELECT a, * FROM t");
    let stmt = parse(&tokens).unwrap();
    let expected = Statement::Select(Select {
        columns: vec![ColumnRef::Name("a".to_string()), ColumnRef::Star],
        table: "t".to_string(),
        where_clause: None,
    });
    assert_eq!(stmt, expected);
}

#[test]
fn parse_text_literal_in_where() {
    let tokens = tokenize("SELECT id FROM t WHERE name = alice");
    let stmt = parse(&tokens).unwrap();
    let expected = Statement::Select(Select {
        columns: vec![ColumnRef::Name("id".to_string())],
        table: "t".to_string(),
        where_clause: Some(Expr::Binary(
            BinaryOp::Eq,
            Box::new(Expr::Column("name".to_string())),
            Box::new(Expr::Literal(Value::Text("alice".to_string()))),
        )),
    });
    assert_eq!(stmt, expected);
}

#[test]
fn parse_overflowing_integer_becomes_text() {
    let tokens = tokenize("SELECT id FROM t WHERE age = 9223372036854775808");
    let stmt = parse(&tokens).unwrap();
    match stmt {
        Statement::Select(s) => match s.where_clause {
            Some(Expr::Binary(_, _, rhs)) => {
                assert_eq!(
                    *rhs,
                    Expr::Literal(Value::Text("9223372036854775808".to_string()))
                );
            }
            other => panic!("unexpected where clause: {:?}", other),
        },
    }
}

#[test]
fn parse_empty_query_fails() {
    let err = parse(&tokenize("")).unwrap_err();
    assert_eq!(err, ParseError::EmptyQuery);
    assert_eq!(err.message(), "Empty SQL query");
}

#[test]
fn parse_missing_from_fails() {
    let err = parse(&tokenize("SELECT * users")).unwrap_err();
    assert_eq!(err, ParseError::ExpectedFrom);
    assert_eq!(err.message(), "Expected FROM");
}

#[test]
fn parse_non_select_fails() {
    let err = parse(&tokenize("DELETE FROM users")).unwrap_err();
    assert_eq!(err, ParseError::InvalidQuery);
    assert_eq!(err.message(), "Invalid SQL query");
}

#[test]
fn parse_missing_column_fails() {
    let err = parse(&tokenize("SELECT")).unwrap_err();
    assert_eq!(err, ParseError::ExpectedColumn);
    assert_eq!(err.message(), "Expected column or *");
}

#[test]
fn parse_trailing_comma_fails() {
    let err = parse(&tokenize("SELECT a,")).unwrap_err();
    assert_eq!(err, ParseError::ExpectedColumn);
}

#[test]
fn parse_missing_table_fails() {
    let err = parse(&tokenize("SELECT a FROM")).unwrap_err();
    assert_eq!(err, ParseError::ExpectedTableName);
    assert_eq!(err.message(), "Expected table name");
}

#[test]
fn parse_missing_where_column_fails() {
    let err = parse(&tokenize("SELECT a FROM t WHERE")).unwrap_err();
    assert_eq!(err, ParseError::ExpectedExpression);
    assert_eq!(err.message(), "Expected expression");
}

#[test]
fn parse_missing_operator_fails() {
    let err = parse(&tokenize("SELECT a FROM t WHERE age")).unwrap_err();
    assert_eq!(err, ParseError::ExpectedOperator);
    assert_eq!(err.message(), "Expected operator");
}

#[test]
fn parse_unknown_operator_fails() {
    let err = parse(&tokenize("SELECT a FROM t WHERE age ! 5")).unwrap_err();
    assert_eq!(err, ParseError::UnknownOperator("!".to_string()));
    assert_eq!(err.message(), "Unknown operator: !");
}

#[test]
fn parse_missing_value_fails() {
    let err = parse(&tokenize("SELECT a FROM t WHERE age >")).unwrap_err();
    assert_eq!(err, ParseError::ExpectedValue);
    assert_eq!(err.message(), "Expected value");
}

#[test]
fn parse_extra_tokens_fail() {
    let err = parse(&tokenize("SELECT a FROM t x")).unwrap_err();
    assert_eq!(err, ParseError::ExtraTokens);
    let err = parse(&tokenize("SELECT a FROM t WHERE a = 1 x")).unwrap_err();
    assert_eq!(err, ParseError::ExtraTokens);
}

#[test]
fn parse_i64_accepts_signs_and_bounds() {
    assert_eq!(parse_i64("0"), Some(0));
    assert_eq!(parse_i64("+42"), Some(42));
    assert_eq!(parse_i64("-17"), Some(-17));
    assert_eq!(parse_i64("9223372036854775807"), Some(i64::MAX));
    assert_eq!(parse_i64("-9223372036854775808"), Some(i64::MIN));
}

#[test]
fn parse_i64_rejects_bad_spellings() {
    assert_eq!(parse_i64(""), None);
    assert_eq!(parse_i64("+"), None);
    assert_eq!(parse_i64("-"), None);
    assert_eq!(parse_i64("12x"), None);
    assert_eq!(parse_i64("1.5"), None);
    assert_eq!(parse_i64("9223372036854775808"), None);
    assert_eq!(parse_i64("-9223372036854775809"), None);
    assert_eq!(parse_i64("99999999999999999999999999"), None);
}
