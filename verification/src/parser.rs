//! Recursive-descent parser for the single statement shape
//! `SELECT <column-list> FROM <table> [WHERE <column> <op> <literal>]`.
//! Keywords compare case-insensitively; the first grammar violation is
//! reported as a [`ParseError`] and no partial syntax tree is returned.

use crate::ast::{
    columns_view, statement_wf, where_expr_wf, BinaryOp, ColumnRef, ColumnRefV, Expr, ExprV, Select, SelectV,
    Statement, StatementV, Value, ValueV,
};
use crate::numeral::{parse_i64, parse_i64_spec};
use crate::text::{seq_eqic, str_eq, str_eq_ignore_case};
use crate::tokenizer::toks_view;
use vstd::prelude::*;

verus! {

/// A grammar violation, carrying what the parser expected or found.
#[derive(Debug, PartialEq)]
pub enum ParseError {
    /// The token sequence was empty.
    EmptyQuery,
    /// The first token is not the `SELECT` keyword.
    InvalidQuery,
    /// A column name or `*` was missing from the column list.
    ExpectedColumn,
    /// The `FROM` keyword was missing after the column list.
    ExpectedFrom,
    /// The table name was missing after `FROM`.
    ExpectedTableName,
    /// The column of the `WHERE` comparison was missing.
    ExpectedExpression,
    /// The operator of the `WHERE` comparison was missing.
    ExpectedOperator,
    /// The operator token is none of `=`, `>`, `<`.
    UnknownOperator(String),
    /// The literal of the `WHERE` comparison was missing.
    ExpectedValue,
    /// Tokens remained after a structurally complete statement.
    ExtraTokens,
}

/// Ghost view of [`ParseError`].
pub enum ParseErrorV {
    EmptyQuery,
    InvalidQuery,
    ExpectedColumn,
    ExpectedFrom,
    ExpectedTableName,
    ExpectedExpression,
    ExpectedOperator,
    UnknownOperator(Seq<char>),
    ExpectedValue,
    ExtraTokens,
}

pub open spec fn parse_error_view(e: ParseError) -> ParseErrorV {
    match e {
        ParseError::EmptyQuery => ParseErrorV::EmptyQuery,
        ParseError::InvalidQuery => ParseErrorV::InvalidQuery,
        ParseError::ExpectedColumn => ParseErrorV::ExpectedColumn,
        ParseError::ExpectedFrom => ParseErrorV::ExpectedFrom,
        ParseError::ExpectedTableName => ParseErrorV::ExpectedTableName,
        ParseError::ExpectedExpression => ParseErrorV::ExpectedExpression,
        ParseError::ExpectedOperator => ParseErrorV::ExpectedOperator,
        ParseError::UnknownOperator(t) => ParseErrorV::UnknownOperator(t@),
        ParseError::ExpectedValue => ParseErrorV::ExpectedValue,
        ParseError::ExtraTokens => ParseErrorV::ExtraTokens,
    }
}

impl View for ParseError {
    type V = ParseErrorV;

    open spec fn view(&self) -> ParseErrorV {
        parse_error_view(*self)
    }
}

/// The human-readable message of each error.
pub open spec fn message_spec(e: ParseErrorV) -> Seq<char> {
    match e {
        ParseErrorV::EmptyQuery => "Empty SQL query"@,
        ParseErrorV::InvalidQuery => "Invalid SQL query"@,
        ParseErrorV::ExpectedColumn => "Expected column or *"@,
        ParseErrorV::ExpectedFrom => "Expected FROM"@,
        ParseErrorV::ExpectedTableName => "Expected table name"@,
        ParseErrorV::ExpectedExpression => "Expected expression"@,
        ParseErrorV::ExpectedOperator => "Expected operator"@,
        ParseErrorV::UnknownOperator(t) => "Unknown operator: "@ + t,
        ParseErrorV::ExpectedValue => "Expected value"@,
        ParseErrorV::ExtraTokens => "Extra tokens after query"@,
    }
}

impl ParseError {
    /// The descriptive message for this grammar violation.
    pub fn message(&self) -> (r: String)
        ensures
            r@ == message_spec(self@),
    {
        match self {
            ParseError::EmptyQuery => String::from_str("Empty SQL query"),
            ParseError::InvalidQuery => String::from_str("Invalid SQL query"),
            ParseError::ExpectedColumn => String::from_str("Expected column or *"),
            ParseError::ExpectedFrom => String::from_str("Expected FROM"),
            ParseError::ExpectedTableName => String::from_str("Expected table name"),
            ParseError::ExpectedExpression => String::from_str("Expected expression"),
            ParseError::ExpectedOperator => String::from_str("Expected operator"),
            ParseError::UnknownOperator(t) => String::from_str("Unknown operator: ").concat(
                t.as_str(),
            ),
            ParseError::ExpectedValue => String::from_str("Expected value"),
            ParseError::ExtraTokens => String::from_str("Extra tokens after query"),
        }
    }
}

/// The column list starting at token `i`: `*` terminates the list at once;
/// otherwise names separated by `,`, ending at the first token that is not a
/// comma. Returns the columns and the index of the first unconsumed token.
pub open spec fn parse_columns_spec(toks: Seq<Seq<char>>, i: int) -> Result<
    (Seq<ColumnRefV>, int),
    ParseErrorV,
>
    decreases toks.len() - i,
{
    if i < 0 || i >= toks.len() {
        Err(ParseErrorV::ExpectedColumn)
    } else if toks[i] == "*"@ {
        Ok((seq![ColumnRefV::Star], i + 1))
    } else if i + 1 < toks.len() && toks[i + 1] == ","@ {
        match parse_columns_spec(toks, i + 2) {
            Ok((rest, j)) => Ok((seq![ColumnRefV::Name(toks[i])] + rest, j)),
            Err(e) => Err(e),
        }
    } else {
        Ok((seq![ColumnRefV::Name(toks[i])], i + 1))
    }
}

/// The `WHERE` comparison starting at token `i`: exactly
/// column-operator-literal, no `AND`/`OR` chaining. A literal that parses as
/// a signed 64-bit integer becomes `Integer`, any other token `Text`.
pub open spec fn parse_where_spec(toks: Seq<Seq<char>>, i: int) -> Result<
    (ExprV, int),
    ParseErrorV,
> {
    if i >= toks.len() {
        Err(ParseErrorV::ExpectedExpression)
    } else if i + 1 >= toks.len() {
        Err(ParseErrorV::ExpectedOperator)
    } else if !(toks[i + 1] == "="@ || toks[i + 1] == ">"@ || toks[i + 1] == "<"@) {
        Err(ParseErrorV::UnknownOperator(toks[i + 1]))
    } else if i + 2 >= toks.len() {
        Err(ParseErrorV::ExpectedValue)
    } else {
        let op = if toks[i + 1] == "="@ {
            BinaryOp::Eq
        } else if toks[i + 1] == ">"@ {
            BinaryOp::Gt
        } else {
            BinaryOp::Lt
        };
        let value = match parse_i64_spec(toks[i + 2]) {
            Some(n) => ValueV::Integer(n),
            None => ValueV::Text(toks[i + 2]),
        };
        Ok(
            (
                ExprV::Binary(
                    op,
                    Box::new(ExprV::Column(toks[i])),
                    Box::new(ExprV::Literal(value)),
                ),
                i + 3,
            ),
        )
    }
}

/// What parsing a token sequence yields: the statement, or the first
/// grammar violation.
pub open spec fn parse_spec(toks: Seq<Seq<char>>) -> Result<StatementV, ParseErrorV> {
    if toks.len() == 0 {
        Err(ParseErrorV::EmptyQuery)
    } else if !seq_eqic(toks[0], "select"@) {
        Err(ParseErrorV::InvalidQuery)
    } else {
        match parse_columns_spec(toks, 1) {
            Err(e) => Err(e),
            Ok((columns, i)) => {
                if i >= toks.len() || !seq_eqic(toks[i], "from"@) {
                    Err(ParseErrorV::ExpectedFrom)
                } else if i + 1 >= toks.len() {
                    Err(ParseErrorV::ExpectedTableName)
                } else if i + 2 < toks.len() && seq_eqic(toks[i + 2], "where"@) {
                    match parse_where_spec(toks, i + 3) {
                        Err(e) => Err(e),
                        Ok((e, k)) => {
                            if k < toks.len() {
                                Err(ParseErrorV::ExtraTokens)
                            } else {
                                Ok(
                                    StatementV::Select(
                                        SelectV {
                                            columns,
                                            table: toks[i + 1],
                                            where_clause: Some(e),
                                        },
                                    ),
                                )
                            }
                        },
                    }
                } else if i + 2 < toks.len() {
                    Err(ParseErrorV::ExtraTokens)
                } else {
                    Ok(
                        StatementV::Select(
                            SelectV { columns, table: toks[i + 1], where_clause: None },
                        ),
                    )
                }
            },
        }
    }
}

fn parse_select_list(tokens: &Vec<String>, i: usize) -> (r: Result<
    (Vec<ColumnRef>, usize),
    ParseError,
>)
    ensures
        match r {
            Ok((cols, j)) => {
                &&& parse_columns_spec(toks_view(tokens@), i as int) == Ok::<
                    (Seq<ColumnRefV>, int),
                    ParseErrorV,
                >((columns_view(cols@), j as int))
                &&& cols@.len() > 0
                &&& i < j <= tokens@.len()
            },
            Err(e) => parse_columns_spec(toks_view(tokens@), i as int) == Err::<
                (Seq<ColumnRefV>, int),
                ParseErrorV,
            >(e@),
        },
    decreases tokens@.len() - i,
{
    let n = tokens.len();
    if i >= n {
        return Err(ParseError::ExpectedColumn);
    }
    proof {
        assert(toks_view(tokens@)[i as int] == tokens@[i as int]@);
    }
    if str_eq(tokens[i].as_str(), "*") {
        let mut cols: Vec<ColumnRef> = Vec::new();
        cols.push(ColumnRef::Star);
        proof {
            assert(columns_view(cols@) =~= seq![ColumnRefV::Star]);
        }
        return Ok((cols, i + 1));
    }
    proof {
        if i + 1 < n {
            assert(toks_view(tokens@)[i + 1] == tokens@[i + 1]@);
        }
    }
    if i + 1 < n && str_eq(tokens[i + 1].as_str(), ",") {
        match parse_select_list(tokens, i + 2) {
            Ok((rest, j)) => {
                let mut rest = rest;
                let ghost rest0 = rest@;
                let mut cols: Vec<ColumnRef> = Vec::new();
                cols.push(ColumnRef::Name(tokens[i].clone()));
                cols.append(&mut rest);
                proof {
                    assert(columns_view(cols@) =~= seq![
                        ColumnRefV::Name(toks_view(tokens@)[i as int]),
                    ] + columns_view(rest0));
                }
                Ok((cols, j))
            },
            Err(e) => Err(e),
        }
    } else {
        let mut cols: Vec<ColumnRef> = Vec::new();
        cols.push(ColumnRef::Name(tokens[i].clone()));
        proof {
            assert(columns_view(cols@) =~= seq![ColumnRefV::Name(toks_view(tokens@)[i as int])]);
        }
        Ok((cols, i + 1))
    }
}

fn parse_where_expr(tokens: &Vec<String>, i: usize) -> (r: Result<(Expr, usize), ParseError>)
    ensures
        match r {
            Ok((e, j)) => {
                &&& parse_where_spec(toks_view(tokens@), i as int) == Ok::<
                    (ExprV, int),
                    ParseErrorV,
                >((e@, j as int))
                &&& where_expr_wf(e@)
                &&& j <= tokens@.len()
            },
            Err(pe) => parse_where_spec(toks_view(tokens@), i as int) == Err::<
                (ExprV, int),
                ParseErrorV,
            >(pe@),
        },
{
    let n = tokens.len();
    if i >= n {
        return Err(ParseError::ExpectedExpression);
    }
    proof {
        assert(toks_view(tokens@)[i as int] == tokens@[i as int]@);
    }
    let left = Expr::Column(tokens[i].clone());
    if i + 1 >= n {
        return Err(ParseError::ExpectedOperator);
    }
    proof {
        assert(toks_view(tokens@)[i + 1] == tokens@[i + 1]@);
    }
    let op = if str_eq(tokens[i + 1].as_str(), "=") {
        BinaryOp::Eq
    } else if str_eq(tokens[i + 1].as_str(), ">") {
        BinaryOp::Gt
    } else if str_eq(tokens[i + 1].as_str(), "<") {
        BinaryOp::Lt
    } else {
        return Err(ParseError::UnknownOperator(tokens[i + 1].clone()));
    };
    if i + 2 >= n {
        return Err(ParseError::ExpectedValue);
    }
    proof {
        assert(toks_view(tokens@)[i + 2] == tokens@[i + 2]@);
    }
    let right = match parse_i64(tokens[i + 2].as_str()) {
        Some(v) => Expr::Literal(Value::Integer(v)),
        None => Expr::Literal(Value::Text(tokens[i + 2].clone())),
    };
    let ghost leftv = left@;
    let ghost rightv = right@;
    let e = Expr::Binary(op, Box::new(left), Box::new(right));
    proof {
        assert(leftv == ExprV::Column(tokens@[i as int]@));
        assert(rightv == ExprV::Literal(
            match parse_i64_spec(tokens@[i + 2]@) {
                Some(v) => ValueV::Integer(v),
                None => ValueV::Text(tokens@[i + 2]@),
            },
        ));
        assert(e@ == ExprV::Binary(op, Box::new(leftv), Box::new(rightv)));
    }
    Ok((e, i + 3))
}

/// The column entries for a list of plain column names.
pub open spec fn names_of(cols: Seq<Seq<char>>) -> Seq<ColumnRefV> {
    cols.map_values(|c: Seq<char>| ColumnRefV::Name(c))
}

/// The tokens of a column list: for several columns, the names with a `,`
/// token between each pair; a single entry stands alone.
pub open spec fn list_tokens(cols: Seq<Seq<char>>) -> Seq<Seq<char>> {
    if cols.len() == 0 {
        Seq::empty()
    } else {
        Seq::new(
            (2 * cols.len() - 1) as nat,
            |j: int|
                if j % 2 == 0 {
                    cols[j / 2]
                } else {
                    ","@
                },
        )
    }
}

/// The token sequence of a whole statement: the `SELECT` keyword, the
/// column-list tokens, the `FROM` keyword and table name, and, optionally,
/// the `WHERE` keyword with column, operator and literal tokens.
pub open spec fn statement_tokens(
    sel: Seq<char>,
    colpart: Seq<Seq<char>>,
    from_kw: Seq<char>,
    table: Seq<char>,
    wh: Option<(Seq<char>, Seq<char>, Seq<char>, Seq<char>)>,
) -> Seq<Seq<char>> {
    seq![sel] + colpart + seq![from_kw, table] + (match wh {
        None => Seq::empty(),
        Some((w, c, o, l)) => seq![w, c, o, l],
    })
}

/// The operator a `WHERE` operator token denotes.
pub open spec fn operator_of(o: Seq<char>) -> BinaryOp {
    if o == "="@ {
        BinaryOp::Eq
    } else if o == ">"@ {
        BinaryOp::Gt
    } else {
        BinaryOp::Lt
    }
}

/// The literal value a `WHERE` value token denotes: an integer when the
/// spelling parses as one, otherwise the raw text.
pub open spec fn comparison_value(l: Seq<char>) -> ValueV {
    match parse_i64_spec(l) {
        Some(n) => ValueV::Integer(n),
        None => ValueV::Text(l),
    }
}

/// Round trip of the column list: a comma-separated run of names, none of
/// them `*`, followed by anything but a comma, parses back to exactly those
/// names, in order.
pub proof fn lemma_columns_reflect(toks: Seq<Seq<char>>, i: int, cols: Seq<Seq<char>>)
    requires
        0 <= i,
        cols.len() >= 1,
        i + 2 * cols.len() - 1 <= toks.len(),
        forall|j: int|
            i <= j < i + 2 * cols.len() - 1 ==> #[trigger] toks[j] == (if (j - i) % 2 == 0 {
                cols[(j - i) / 2]
            } else {
                ","@
            }),
        forall|k: int| 0 <= k < cols.len() ==> #[trigger] cols[k] != "*"@,
        i + 2 * cols.len() - 1 == toks.len() || toks[i + 2 * cols.len() - 1] != ","@,
    ensures
        parse_columns_spec(toks, i) == Ok::<(Seq<ColumnRefV>, int), ParseErrorV>(
            (names_of(cols), i + 2 * cols.len() - 1),
        ),
    decreases cols.len(),
{
    assert(toks[i] == cols[0]);
    if cols.len() == 1 {
        assert(parse_columns_spec(toks, i) == Ok::<(Seq<ColumnRefV>, int), ParseErrorV>(
            (seq![ColumnRefV::Name(toks[i])], i + 1),
        ));
        assert(names_of(cols) =~= seq![ColumnRefV::Name(cols[0])]);
    } else {
        assert(toks[i + 1] == ","@);
        let rest = cols.drop_first();
        assert forall|j: int|
            i + 2 <= j < i + 2 + 2 * rest.len() - 1 implies #[trigger] toks[j] == (if (j - (i + 2))
            % 2 == 0 {
            rest[(j - (i + 2)) / 2]
        } else {
            ","@
        }) by {
            assert(toks[j] == (if (j - i) % 2 == 0 {
                cols[(j - i) / 2]
            } else {
                ","@
            }));
            assert((j - (i + 2)) % 2 == (j - i) % 2 && (j - (i + 2)) / 2 == (j - i) / 2 - 1) by {
                let d = j - i;
                assert(d >= 2);
                assert((d - 2) % 2 == d % 2 && (d - 2) / 2 == d / 2 - 1) by (nonlinear_arith)
                    requires
                        d >= 2,
                ;
            }
            if (j - i) % 2 == 0 {
                assert(rest[(j - i) / 2 - 1] == cols[(j - i) / 2]);
            }
        }
        assert forall|k: int| 0 <= k < rest.len() implies #[trigger] rest[k] != "*"@ by {
            assert(cols[k + 1] != "*"@);
        }
        lemma_columns_reflect(toks, i + 2, rest);
        assert(names_of(cols) =~= seq![ColumnRefV::Name(cols[0])] + names_of(rest));
    }
}

proof fn lemma_statement_reflects(
    toks: Seq<Seq<char>>,
    colsr: Seq<ColumnRefV>,
    i: int,
    wh: Option<(Seq<char>, Seq<char>, Seq<char>, Seq<char>)>,
)
    requires
        toks.len() > 0,
        seq_eqic(toks[0], "select"@),
        parse_columns_spec(toks, 1) == Ok::<(Seq<ColumnRefV>, int), ParseErrorV>((colsr, i)),
        0 <= i,
        seq_eqic(toks[i], "from"@),
        match wh {
            None => toks.len() == i + 2,
            Some((w, c, o, l)) => {
                &&& toks.len() == i + 6
                &&& seq_eqic(toks[i + 2], "where"@)
                &&& toks[i + 2] == w
                &&& toks[i + 3] == c
                &&& toks[i + 4] == o
                &&& toks[i + 5] == l
                &&& (o == "="@ || o == ">"@ || o == "<"@)
            },
        },
    ensures
        parse_spec(toks) == Ok::<StatementV, ParseErrorV>(
            StatementV::Select(
                SelectV {
                    columns: colsr,
                    table: toks[i + 1],
                    where_clause: match wh {
                        None => None,
                        Some((w, c, o, l)) => Some(
                            ExprV::Binary(
                                operator_of(o),
                                Box::new(ExprV::Column(c)),
                                Box::new(ExprV::Literal(comparison_value(l))),
                            ),
                        ),
                    },
                },
            ),
        ),
{
    match wh {
        None => {
        },
        Some((w, c, o, l)) => {
            assert(parse_where_spec(toks, i + 3) == Ok::<(ExprV, int), ParseErrorV>(
                (
                    ExprV::Binary(
                        operator_of(o),
                        Box::new(ExprV::Column(c)),
                        Box::new(ExprV::Literal(comparison_value(l))),
                    ),
                    i + 6,
                ),
            ));
        },
    }
}

/// Round trip of the grammar, named-column form: for any casing of the
/// keywords, any non-empty list of column names (none of them the `*`
/// token), any table name, and optionally any `WHERE` column, an operator
/// drawn from `=`, `>`, `<` and any literal token, parsing the statement's
/// token sequence succeeds and returns exactly the statement those tokens
/// spell.
pub proof fn lemma_grammar_round_trip(
    sel: Seq<char>,
    cols: Seq<Seq<char>>,
    from_kw: Seq<char>,
    table: Seq<char>,
    wh: Option<(Seq<char>, Seq<char>, Seq<char>, Seq<char>)>,
)
    requires
        seq_eqic(sel, "select"@),
        seq_eqic(from_kw, "from"@),
        cols.len() >= 1,
        forall|k: int| 0 <= k < cols.len() ==> cols[k] != "*"@,
        match wh {
            None => true,
            Some((w, c, o, l)) => seq_eqic(w, "where"@) && (o == "="@ || o == ">"@ || o == "<"@),
        },
    ensures
        parse_spec(statement_tokens(sel, list_tokens(cols), from_kw, table, wh)) == Ok::<
            StatementV,
            ParseErrorV,
        >(
            StatementV::Select(
                SelectV {
                    columns: names_of(cols),
                    table: table,
                    where_clause: match wh {
                        None => None,
                        Some((w, c, o, l)) => Some(
                            ExprV::Binary(
                                operator_of(o),
                                Box::new(ExprV::Column(c)),
                                Box::new(ExprV::Literal(comparison_value(l))),
                            ),
                        ),
                    },
                },
            ),
        ),
{
    let toks = statement_tokens(sel, list_tokens(cols), from_kw, table, wh);
    let n = cols.len() as int;
    assert(list_tokens(cols).len() == 2 * n - 1);
    assert(toks[0] == sel);
    assert forall|j: int| 1 <= j < 2 * n implies #[trigger] toks[j] == (if (j - 1) % 2 == 0 {
        cols[(j - 1) / 2]
    } else {
        ","@
    }) by {
        assert(toks[j] == list_tokens(cols)[j - 1]);
    }
    assert(toks[2 * n] == from_kw);
    assert(from_kw.len() == 4 && ","@.len() == 1) by {
        reveal_strlit("from");
        reveal_strlit(",");
    }
    lemma_columns_reflect(toks, 1, cols);
    assert(toks[2 * n + 1] == table);
    match wh {
        None => {},
        Some((w, c, o, l)) => {
            assert(toks[2 * n + 2] == w);
            assert(toks[2 * n + 3] == c);
            assert(toks[2 * n + 4] == o);
            assert(toks[2 * n + 5] == l);
        },
    }
    lemma_statement_reflects(toks, names_of(cols), 2 * n, wh);
}

/// Round trip of the grammar, `*` form: `SELECT * FROM <table>`, in any
/// keyword casing and with or without a `WHERE` comparison, parses to the
/// statement with the sole column `*`.
pub proof fn lemma_grammar_round_trip_star(
    sel: Seq<char>,
    from_kw: Seq<char>,
    table: Seq<char>,
    wh: Option<(Seq<char>, Seq<char>, Seq<char>, Seq<char>)>,
)
    requires
        seq_eqic(sel, "select"@),
        seq_eqic(from_kw, "from"@),
        match wh {
            None => true,
            Some((w, c, o, l)) => seq_eqic(w, "where"@) && (o == "="@ || o == ">"@ || o == "<"@),
        },
    ensures
        parse_spec(statement_tokens(sel, seq!["*"@], from_kw, table, wh)) == Ok::<
            StatementV,
            ParseErrorV,
        >(
            StatementV::Select(
                SelectV {
                    columns: seq![ColumnRefV::Star],
                    table: table,
                    where_clause: match wh {
                        None => None,
                        Some((w, c, o, l)) => Some(
                            ExprV::Binary(
                                operator_of(o),
                                Box::new(ExprV::Column(c)),
                                Box::new(ExprV::Literal(comparison_value(l))),
                            ),
                        ),
                    },
                },
            ),
        ),
{
    let toks = statement_tokens(sel, seq!["*"@], from_kw, table, wh);
    assert(toks[0] == sel);
    assert(toks[1] == "*"@);
    assert(toks[2] == from_kw);
    assert(toks[3] == table);
    assert(parse_columns_spec(toks, 1) == Ok::<(Seq<ColumnRefV>, int), ParseErrorV>(
        (seq![ColumnRefV::Star], 2),
    ));
    match wh {
        None => {},
        Some((w, c, o, l)) => {
            assert(toks[4] == w);
            assert(toks[5] == c);
            assert(toks[6] == o);
            assert(toks[7] == l);
        },
    }
    lemma_statement_reflects(toks, seq![ColumnRefV::Star], 2, wh);
}

/// Maps a parse result to its ghost view.
pub open spec fn parse_result_view(r: Result<Statement, ParseError>) -> Result<
    StatementV,
    ParseErrorV,
> {
    match r {
        Ok(s) => Ok(s@),
        Err(e) => Err(e@),
    }
}

/// Parses a token sequence into a statement, or reports the first grammar
/// violation. Every statement returned is well-formed, ready for planning.
pub fn parse(tokens: &Vec<String>) -> (r: Result<Statement, ParseError>)
    ensures
        parse_result_view(r) == parse_spec(toks_view(tokens@)),
        r matches Ok(stmt) ==> statement_wf(stmt@),
{
    let n = tokens.len();
    if n == 0 {
        return Err(ParseError::EmptyQuery);
    }
    proof {
        assert(toks_view(tokens@)[0] == tokens@[0]@);
    }
    if !str_eq_ignore_case(tokens[0].as_str(), "select") {
        return Err(ParseError::InvalidQuery);
    }
    let (columns, i) = match parse_select_list(tokens, 1) {
        Ok(p) => p,
        Err(e) => return Err(e),
    };
    if i >= n {
        return Err(ParseError::ExpectedFrom);
    }
    proof {
        assert(toks_view(tokens@)[i as int] == tokens@[i as int]@);
    }
    if !str_eq_ignore_case(tokens[i].as_str(), "from") {
        return Err(ParseError::ExpectedFrom);
    }
    if i + 1 >= n {
        return Err(ParseError::ExpectedTableName);
    }
    proof {
        assert(toks_view(tokens@)[i + 1] == tokens@[i + 1]@);
        if i + 2 < n {
            assert(toks_view(tokens@)[i + 2] == tokens@[i + 2]@);
        }
    }
    let table = tokens[i + 1].clone();
    if i + 2 < n && str_eq_ignore_case(tokens[i + 2].as_str(), "where") {
        match parse_where_expr(tokens, i + 3) {
            Ok((e, k)) => {
                if k < n {
                    Err(ParseError::ExtraTokens)
                } else {
                    Ok(Statement::Select(Select { columns, table, where_clause: Some(e) }))
                }
            },
            Err(pe) => Err(pe),
        }
    } else if i + 2 < n {
        Err(ParseError::ExtraTokens)
    } else {
        Ok(Statement::Select(Select { columns, table, where_clause: None }))
    }
}

} // verus!
