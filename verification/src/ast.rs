//! Abstract syntax of the SQL dialect, together with its mathematical view:
//! each syntax type has a ghost counterpart over `Seq<char>` that contracts
//! and proofs speak about.

use vstd::prelude::*;

verus! {

/// The root syntax node; a closed variant set that currently contains only
/// `Select`, left open so further statement kinds can be added later.
#[derive(Debug, PartialEq)]
pub enum Statement {
    Select(Select),
}

/// A `SELECT <column-list> FROM <table> [WHERE <comparison>]` statement.
#[derive(Debug, PartialEq)]
pub struct Select {
    pub columns: Vec<ColumnRef>,
    pub table: String,
    pub where_clause: Option<Expr>,
}

/// One entry of a column list: `*` or a named column.
#[derive(Debug, PartialEq)]
pub enum ColumnRef {
    Star,
    Name(String),
}

/// An expression tree; the grammar only ever produces a single
/// column-operator-literal comparison, but the type can represent more.
#[derive(Debug, PartialEq)]
pub enum Expr {
    Column(String),
    Literal(Value),
    Binary(BinaryOp, Box<Expr>, Box<Expr>),
}

/// Comparison and logical operators. Only `Eq`, `Gt` and `Lt` are reachable
/// from the grammar; `And` and `Or` exist for future use and the planner
/// rejects them explicitly.
#[derive(Debug, Clone, Copy, PartialEq, Eq)]
pub enum BinaryOp {
    Gt,
    Lt,
    Eq,
    And,
    Or,
}

/// A literal value. `Null` has no source syntax and is never produced by the
/// parser.
#[derive(Debug, PartialEq)]
pub enum Value {
    Integer(i64),
    Text(String),
    Null,
}

/// Ghost view of [`Statement`].
pub enum StatementV {
    Select(SelectV),
}

/// Ghost view of [`Select`].
pub struct SelectV {
    pub columns: Seq<ColumnRefV>,
    pub table: Seq<char>,
    pub where_clause: Option<ExprV>,
}

/// Ghost view of [`ColumnRef`].
pub enum ColumnRefV {
    Star,
    Name(Seq<char>),
}

/// Ghost view of [`Expr`].
pub enum ExprV {
    Column(Seq<char>),
    Literal(ValueV),
    Binary(BinaryOp, Box<ExprV>, Box<ExprV>),
}

/// Ghost view of [`Value`].
pub enum ValueV {
    Integer(i64),
    Text(Seq<char>),
    Null,
}

pub open spec fn value_view(v: Value) -> ValueV {
    match v {
        Value::Integer(n) => ValueV::Integer(n),
        Value::Text(s) => ValueV::Text(s@),
        Value::Null => ValueV::Null,
    }
}

impl View for Value {
    type V = ValueV;

    open spec fn view(&self) -> ValueV {
        value_view(*self)
    }
}

pub open spec fn expr_view(e: Expr) -> ExprV
    decreases e,
{
    match e {
        Expr::Column(s) => ExprV::Column(s@),
        Expr::Literal(v) => ExprV::Literal(value_view(v)),
        Expr::Binary(op, lhs, rhs) => ExprV::Binary(
            op,
            Box::new(expr_view(*lhs)),
            Box::new(expr_view(*rhs)),
        ),
    }
}

impl View for Expr {
    type V = ExprV;

    open spec fn view(&self) -> ExprV {
        expr_view(*self)
    }
}

pub open spec fn column_ref_view(c: ColumnRef) -> ColumnRefV {
    match c {
        ColumnRef::Star => ColumnRefV::Star,
        ColumnRef::Name(s) => ColumnRefV::Name(s@),
    }
}

impl View for ColumnRef {
    type V = ColumnRefV;

    open spec fn view(&self) -> ColumnRefV {
        column_ref_view(*self)
    }
}

/// View of a column-list vector.
pub open spec fn columns_view(cs: Seq<ColumnRef>) -> Seq<ColumnRefV> {
    cs.map_values(|c: ColumnRef| column_ref_view(c))
}

impl View for Select {
    type V = SelectV;

    open spec fn view(&self) -> SelectV {
        SelectV {
            columns: columns_view(self.columns@),
            table: self.table@,
            where_clause: match self.where_clause {
                Some(e) => Some(expr_view(e)),
                None => None,
            },
        }
    }
}

impl View for Statement {
    type V = StatementV;

    open spec fn view(&self) -> StatementV {
        match self {
            Statement::Select(s) => StatementV::Select(s@),
        }
    }
}

/// The shape of a `WHERE` clause the grammar can produce: a single
/// column-operator-literal comparison with a comparison operator and a
/// non-`Null` literal.
pub open spec fn where_expr_wf(e: ExprV) -> bool {
    match e {
        ExprV::Binary(op, lhs, rhs) => {
            &&& (op is Eq || op is Gt || op is Lt)
            &&& (*lhs) is Column
            &&& match *rhs {
                ExprV::Literal(v) => !(v is Null),
                _ => false,
            }
        },
        _ => false,
    }
}

/// A well-formed `Select`: a non-empty column list and, if present, a
/// `WHERE` clause of the shape the grammar produces. Every statement the
/// parser returns satisfies this.
pub open spec fn select_wf(s: SelectV) -> bool {
    &&& s.columns.len() > 0
    &&& match s.where_clause {
        Some(e) => where_expr_wf(e),
        None => true,
    }
}

/// A well-formed statement, ready for planning.
pub open spec fn statement_wf(s: StatementV) -> bool {
    match s {
        StatementV::Select(sel) => select_wf(sel),
    }
}

} // verus!
