//! The planner/compiler: lowers a well-formed `SELECT` statement into a
//! linear instruction sequence for the register virtual machine. One
//! deterministic pass with explicit register allocation and one deferred
//! jump offset, patched once the row-emission code is placed.

use crate::ast::{
    column_ref_view, columns_view, expr_view, select_wf, statement_wf, where_expr_wf, BinaryOp, ColumnRef, ColumnRefV, Expr, ExprV, Select,
    SelectV, Statement, StatementV, Value, ValueV,
};
use crate::text::str_eq;
use vstd::prelude::*;

verus! {

/// One instruction of the target virtual machine. An instruction sequence
/// is addressed by position; `Goto(offset)` continues at
/// `address + offset + 1`.
#[derive(Debug, Clone, PartialEq)]
pub enum Opcode {
    /// Open a read cursor positioned at the given root page.
    OpenRead { root_page: u32 },
    /// Position the cursor at the first row, or mark it exhausted.
    Rewind,
    /// Advance the cursor; mark it exhausted when no rows remain.
    Next,
    /// Load the column at `index` of the current row into the next register.
    Column { index: usize },
    /// Load an integer constant into the next register.
    Integer(i64),
    /// Load a text constant into the next register.
    Text(String),
    /// Compare two registers for equality; acts through the following `Goto`.
    Eq(usize, usize),
    /// Compare two registers with `>`; acts through the following `Goto`.
    Gt(usize, usize),
    /// Compare two registers with `<`; acts through the following `Goto`.
    Lt(usize, usize),
    /// Unconditional relative jump.
    Goto(i32),
    /// Emit the accumulated output registers as one result row.
    ResultRow,
    /// Pack registers into a row; reserved for write paths.
    MakeRecord,
    /// Insert a packed row; reserved for write paths.
    Insert,
    /// Release the cursor.
    Close,
    /// Stop execution.
    Halt,
}

/// Ghost view of [`Opcode`], with unbounded integers for indices, registers
/// and offsets.
pub enum OpcodeV {
    OpenRead { root_page: u32 },
    Rewind,
    Next,
    Column { index: int },
    Integer(i64),
    Text(Seq<char>),
    Eq(int, int),
    Gt(int, int),
    Lt(int, int),
    Goto(int),
    ResultRow,
    MakeRecord,
    Insert,
    Close,
    Halt,
}

pub open spec fn opcode_view(o: Opcode) -> OpcodeV {
    match o {
        Opcode::OpenRead { root_page } => OpcodeV::OpenRead { root_page },
        Opcode::Rewind => OpcodeV::Rewind,
        Opcode::Next => OpcodeV::Next,
        Opcode::Column { index } => OpcodeV::Column { index: index as int },
        Opcode::Integer(v) => OpcodeV::Integer(v),
        Opcode::Text(s) => OpcodeV::Text(s@),
        Opcode::Eq(a, b) => OpcodeV::Eq(a as int, b as int),
        Opcode::Gt(a, b) => OpcodeV::Gt(a as int, b as int),
        Opcode::Lt(a, b) => OpcodeV::Lt(a as int, b as int),
        Opcode::Goto(o) => OpcodeV::Goto(o as int),
        Opcode::ResultRow => OpcodeV::ResultRow,
        Opcode::MakeRecord => OpcodeV::MakeRecord,
        Opcode::Insert => OpcodeV::Insert,
        Opcode::Close => OpcodeV::Close,
        Opcode::Halt => OpcodeV::Halt,
    }
}

impl View for Opcode {
    type V = OpcodeV;

    open spec fn view(&self) -> OpcodeV {
        opcode_view(*self)
    }
}

/// View of an instruction vector.
pub open spec fn code_view(v: Seq<Opcode>) -> Seq<OpcodeV> {
    v.map_values(|o: Opcode| opcode_view(o))
}

/// The placeholder schema mapping: `id`, `name` and `age` resolve to
/// columns 0, 1 and 2; any other name resolves to 0. The silent fallback is
/// a documented gap kept deliberately in place of a real catalog.
pub open spec fn col_index_spec(name: Seq<char>) -> int {
    if name == "id"@ {
        0
    } else if name == "name"@ {
        1
    } else if name == "age"@ {
        2
    } else {
        0
    }
}

fn resolve_column(name: &str) -> (r: usize)
    ensures
        r as int == col_index_spec(name@),
{
    if str_eq(name, "id") {
        0
    } else if str_eq(name, "name") {
        1
    } else if str_eq(name, "age") {
        2
    } else {
        0
    }
}

/// The column-load instructions of one column-list entry: a named column is
/// one load; `*` expands to loads of the three declared columns.
pub open spec fn head_column_ops(c: ColumnRefV) -> Seq<OpcodeV> {
    match c {
        ColumnRefV::Star => seq![
            OpcodeV::Column { index: 0 },
            OpcodeV::Column { index: 1 },
            OpcodeV::Column { index: 2 },
        ],
        ColumnRefV::Name(nm) => seq![OpcodeV::Column { index: col_index_spec(nm) }],
    }
}

/// The column-load instructions of a whole column list, in list order.
pub open spec fn column_ops(cs: Seq<ColumnRefV>) -> Seq<OpcodeV>
    decreases cs.len(),
{
    if cs.len() == 0 {
        Seq::empty()
    } else {
        head_column_ops(cs[0]) + column_ops(cs.drop_first())
    }
}

/// The comparison code of a `WHERE` clause with registers `r` and `r + 1`
/// and a trailing jump of offset `goto_off`: load the compared column, load
/// the literal, compare, jump on a failed comparison.
pub open spec fn filter_ops_with(e: ExprV, r: int, goto_off: int) -> Seq<OpcodeV> {
    match e {
        ExprV::Binary(op, lhs, rhs) => {
            let col = match *lhs {
                ExprV::Column(nm) => col_index_spec(nm),
                _ => 0,
            };
            let lit = match *rhs {
                ExprV::Literal(v) => match v {
                    ValueV::Integer(n) => OpcodeV::Integer(n),
                    ValueV::Text(s) => OpcodeV::Text(s),
                    ValueV::Null => OpcodeV::Integer(0),
                },
                _ => OpcodeV::Integer(0),
            };
            let cmp = match op {
                BinaryOp::Eq => OpcodeV::Eq(r, r + 1),
                BinaryOp::Gt => OpcodeV::Gt(r, r + 1),
                BinaryOp::Lt => OpcodeV::Lt(r, r + 1),
                _ => OpcodeV::Halt,
            };
            seq![OpcodeV::Column { index: col }, lit, cmp, OpcodeV::Goto(goto_off)]
        },
        _ => Seq::empty(),
    }
}

/// The patched comparison code: with `n` column-load instructions between
/// the placeholder and the post-row code, the jump skips ahead to the
/// second `Next`.
pub open spec fn filter_ops(e: ExprV, n: int) -> Seq<OpcodeV> {
    filter_ops_with(e, 0, 3 + n)
}

/// The whole instruction sequence of a `SELECT`: open the cursor, rewind,
/// filter (when a `WHERE` clause exists), load the output columns, emit the
/// row, advance and loop; a filtered-out row advances through a second
/// `Next`/`Goto` pair; then close and halt.
pub open spec fn plan_select_spec(s: SelectV) -> Seq<OpcodeV> {
    let cols = column_ops(s.columns);
    let n = cols.len() as int;
    match s.where_clause {
        None => seq![OpcodeV::OpenRead { root_page: 2 }, OpcodeV::Rewind] + cols + seq![
            OpcodeV::ResultRow,
            OpcodeV::Next,
            OpcodeV::Goto(-4 - n),
            OpcodeV::Close,
            OpcodeV::Halt,
        ],
        Some(e) => seq![OpcodeV::OpenRead { root_page: 2 }, OpcodeV::Rewind] + filter_ops(e, n)
            + cols + seq![
            OpcodeV::ResultRow,
            OpcodeV::Next,
            OpcodeV::Goto(-8 - n),
            OpcodeV::Next,
            OpcodeV::Goto(-10 - n),
            OpcodeV::Close,
            OpcodeV::Halt,
        ],
    }
}

/// The instruction sequence of any statement.
pub open spec fn plan_spec(s: StatementV) -> Seq<OpcodeV> {
    match s {
        StatementV::Select(sel) => plan_select_spec(sel),
    }
}

/// The machine bound the 32-bit jump offsets force: with at most this many
/// column-list entries, every program address fits an `i32`.
pub open spec fn select_fits(s: SelectV) -> bool {
    s.columns.len() <= 0x0fff_ffff
}

pub open spec fn statement_fits(s: StatementV) -> bool {
    match s {
        StatementV::Select(sel) => select_fits(sel),
    }
}

proof fn lemma_code_view_push(v: Seq<Opcode>, o: Opcode)
    ensures
        code_view(v.push(o)) =~= code_view(v).push(opcode_view(o)),
{
}

proof fn lemma_code_view_update(v: Seq<Opcode>, i: int, o: Opcode)
    requires
        0 <= i < v.len(),
    ensures
        code_view(v.update(i, o)) =~= code_view(v).update(i, opcode_view(o)),
{
}

proof fn lemma_column_ops_snoc(cs: Seq<ColumnRefV>, c: ColumnRefV)
    ensures
        column_ops(cs.push(c)) =~= column_ops(cs) + head_column_ops(c),
    decreases cs.len(),
{
    if cs.len() == 0 {
        assert(cs.push(c)[0] == c);
        assert(cs.push(c).drop_first() =~= Seq::<ColumnRefV>::empty());
        assert(column_ops(Seq::<ColumnRefV>::empty()) == Seq::<OpcodeV>::empty());
        assert(cs =~= Seq::<ColumnRefV>::empty());
    } else {
        assert(cs.push(c)[0] == cs[0]);
        assert(cs.push(c).drop_first() =~= cs.drop_first().push(c));
        lemma_column_ops_snoc(cs.drop_first(), c);
    }
}

fn plan_where(code: &mut Vec<Opcode>, expr: &Expr, reg: &mut usize)
    requires
        where_expr_wf(expr@),
        *old(reg) + 2 <= usize::MAX,
        old(code)@.len() + 4 <= usize::MAX,
    ensures
        code_view(final(code)@) == code_view(old(code)@) + filter_ops_with(
            expr@,
            *old(reg) as int,
            0,
        ),
        final(code)@.len() == old(code)@.len() + 4,
        *final(reg) == *old(reg) + 2,
{
    let ghost c0 = code@;
    match expr {
        Expr::Binary(op, lhs, rhs) => {
            let col_idx: usize = match &**lhs {
                Expr::Column(nm) => {
                    proof {
                        assert(expr_view(**lhs) == ExprV::Column(nm@));
                    }
                    resolve_column(nm.as_str())
                },
                _ => 0,
            };
            let reg_left = *reg;
            let load_col = Opcode::Column { index: col_idx };
            let ghost v1 = opcode_view(load_col);
            code.push(load_col);
            *reg = *reg + 1;
            let reg_right = *reg;
            let load_lit = match &**rhs {
                Expr::Literal(Value::Integer(n)) => {
                    proof {
                        assert(expr_view(**rhs) == ExprV::Literal(
                            ValueV::Integer(*n),
                        ));
                    }
                    Opcode::Integer(*n)
                },
                Expr::Literal(Value::Text(s)) => {
                    proof {
                        assert(expr_view(**rhs) == ExprV::Literal(ValueV::Text(s@)));
                    }
                    Opcode::Text(s.clone())
                },
                Expr::Literal(Value::Null) => {
                    proof {
                        assert(expr_view(**rhs) == ExprV::Literal(ValueV::Null));
                    }
                    Opcode::Integer(0)
                },
                _ => {
                    proof {
                        assert(!(expr_view(**rhs) is Literal));
                    }
                    Opcode::Integer(0)
                },
            };
            let ghost v2 = opcode_view(load_lit);
            code.push(load_lit);
            *reg = *reg + 1;
            let compare = match op {
                BinaryOp::Eq => Opcode::Eq(reg_left, reg_right),
                BinaryOp::Gt => Opcode::Gt(reg_left, reg_right),
                BinaryOp::Lt => Opcode::Lt(reg_left, reg_right),
                _ => Opcode::Halt,
            };
            let ghost v3 = opcode_view(compare);
            code.push(compare);
            code.push(Opcode::Goto(0));
            proof {
                let fops = filter_ops_with(expr@, *old(reg) as int, 0);
                assert(expr@ is Binary);
                assert(fops.len() == 4);
                assert(fops[0] == v1);
                assert(fops[1] == v2);
                assert(fops[2] == v3);
                assert(fops[3] == OpcodeV::Goto(0));
                assert(fops =~= seq![v1, v2, v3, OpcodeV::Goto(0)]);
                lemma_code_view_push(c0, load_col);
                lemma_code_view_push(c0.push(load_col), load_lit);
                lemma_code_view_push(c0.push(load_col).push(load_lit), compare);
                lemma_code_view_push(
                    c0.push(load_col).push(load_lit).push(compare),
                    Opcode::Goto(0),
                );
                assert(code_view(code@) =~= code_view(c0) + fops);
            }
        },
        _ => {
            proof {
                assert(false);
            }
        },
    }
}

fn plan_select(select: &Select) -> (r: Vec<Opcode>)
    requires
        select_wf(select@),
        select_fits(select@),
    ensures
        code_view(r@) == plan_select_spec(select@),
{
    let ghost colsv = columns_view(select.columns@);
    let ghost cols_code = column_ops(colsv);
    let mut code: Vec<Opcode> = Vec::new();
    let mut reg: usize = 0;
    code.push(Opcode::OpenRead { root_page: 2 });
    let loop_start: i32 = 1;
    code.push(Opcode::Rewind);
    let ghost header = code@;
    proof {
        lemma_code_view_push(Seq::<Opcode>::empty(), Opcode::OpenRead { root_page: 2 });
        lemma_code_view_push(seq![Opcode::OpenRead { root_page: 2 }], Opcode::Rewind);
        assert(code_view(header) =~= seq![
            OpcodeV::OpenRead { root_page: 2 },
            OpcodeV::Rewind,
        ]);
    }
    let has_filter = match &select.where_clause {
        Some(expr) => {
            plan_where(&mut code, expr, &mut reg);
            true
        },
        None => false,
    };
    let ghost pre = code@;
    proof {
        assert(colsv.take(0) =~= Seq::<ColumnRefV>::empty());
        assert(code_view(code@) + column_ops(colsv.take(0)) =~= code_view(pre));
    }
    let mut k: usize = 0;
    while k < select.columns.len()
        invariant
            k <= select.columns@.len(),
            select.columns@.len() <= 0x0fff_ffff,
            colsv == columns_view(select.columns@),
            colsv.len() == select.columns@.len(),
            pre.len() == (if has_filter {
                6int
            } else {
                2int
            }),
            code_view(code@) == code_view(pre) + column_ops(colsv.take(k as int)),
            code@.len() == pre.len() + column_ops(colsv.take(k as int)).len(),
            column_ops(colsv.take(k as int)).len() <= 3 * k,
            reg <= 2 + 3 * k,
        decreases select.columns@.len() - k,
    {
        let ghost cbefore = code@;
        proof {
            assert(colsv[k as int] == column_ref_view(select.columns@[k as int]));
            assert(colsv.take(k + 1) =~= colsv.take(k as int).push(colsv[k as int]));
            lemma_column_ops_snoc(colsv.take(k as int), colsv[k as int]);
        }
        match &select.columns[k] {
            ColumnRef::Star => {
                code.push(Opcode::Column { index: 0 });
                reg = reg + 1;
                code.push(Opcode::Column { index: 1 });
                reg = reg + 1;
                code.push(Opcode::Column { index: 2 });
                reg = reg + 1;
                proof {
                    assert(head_column_ops(colsv[k as int]) == seq![
                        OpcodeV::Column { index: 0 },
                        OpcodeV::Column { index: 1 },
                        OpcodeV::Column { index: 2 },
                    ]);
                    lemma_code_view_push(cbefore, Opcode::Column { index: 0 });
                    lemma_code_view_push(
                        cbefore.push(Opcode::Column { index: 0 }),
                        Opcode::Column { index: 1 },
                    );
                    lemma_code_view_push(
                        cbefore.push(Opcode::Column { index: 0 }).push(
                            Opcode::Column { index: 1 },
                        ),
                        Opcode::Column { index: 2 },
                    );
                    assert(code_view(code@) =~= code_view(pre) + column_ops(colsv.take(k + 1)));
                }
            },
            ColumnRef::Name(nm) => {
                let idx = resolve_column(nm.as_str());
                code.push(Opcode::Column { index: idx });
                reg = reg + 1;
                proof {
                    assert(head_column_ops(colsv[k as int]) == seq![
                        OpcodeV::Column { index: idx as int },
                    ]);
                    lemma_code_view_push(cbefore, Opcode::Column { index: idx });
                    assert(code_view(code@) =~= code_view(pre) + column_ops(colsv.take(k + 1)));
                }
            },
        }
        k += 1;
    }
    proof {
        assert(colsv.take(colsv.len() as int) =~= colsv);
        assert(code_view(code@) == code_view(pre) + cols_code);
        assert(cols_code.len() <= 3 * colsv.len());
    }
    let ghost n = cols_code.len() as int;
    let ghost c1 = code@;
    code.push(Opcode::ResultRow);
    code.push(Opcode::Next);
    let pos1 = code.len();
    let jump_back = Opcode::Goto(loop_start - pos1 as i32 - 1);
    code.push(jump_back);
    proof {
        lemma_code_view_push(c1, Opcode::ResultRow);
        lemma_code_view_push(c1.push(Opcode::ResultRow), Opcode::Next);
        lemma_code_view_push(c1.push(Opcode::ResultRow).push(Opcode::Next), jump_back);
    }
    let ghost c2 = code@;
    if has_filter {
        let next_pc = code.len();
        code.push(Opcode::Next);
        let pos2 = code.len();
        let jump_back2 = Opcode::Goto(loop_start - pos2 as i32 - 1);
        code.push(jump_back2);
        let patched = Opcode::Goto(next_pc as i32 - 5 - 1);
        code.set(5, patched);
        proof {
            lemma_code_view_push(c2, Opcode::Next);
            lemma_code_view_push(c2.push(Opcode::Next), jump_back2);
            lemma_code_view_update(c2.push(Opcode::Next).push(jump_back2), 5, patched);
        }
    }
    let ghost c3 = code@;
    code.push(Opcode::Close);
    code.push(Opcode::Halt);
    proof {
        lemma_code_view_push(c3, Opcode::Close);
        lemma_code_view_push(c3.push(Opcode::Close), Opcode::Halt);
        let sv = select@;
        assert(sv.columns == colsv);
        if has_filter {
            let e = sv.where_clause->0;
            assert(code_view(pre) == code_view(header) + filter_ops_with(e, 0, 0));
            assert(filter_ops_with(e, 0, 0).len() == 4);
            assert(filter_ops(e, n).len() == 4);
            assert(code_view(code@) =~= plan_select_spec(sv));
        } else {
            assert(code_view(code@) =~= plan_select_spec(sv));
        }
    }
    code
}

/// Compiles a well-formed statement into its instruction sequence. Total:
/// planning never fails on a statement the parser returned, as long as the
/// column list respects the machine bound.
pub fn plan(stmt: &Statement) -> (r: Vec<Opcode>)
    requires
        statement_wf(stmt@),
        statement_fits(stmt@),
    ensures
        code_view(r@) == plan_spec(stmt@),
{
    match stmt {
        Statement::Select(select) => plan_select(select),
    }
}

/// Whether [`plan`] accepts a statement: well-formed — a non-empty column
/// list and a `WHERE` clause of the grammar's shape, so the syntax-tree
/// variants the grammar cannot produce are rejected explicitly rather than
/// assumed absent — and within the machine bound. Unverified callers test
/// this before calling [`plan`].
pub fn statement_plannable(stmt: &Statement) -> (r: bool)
    ensures
        r == (statement_wf(stmt@) && statement_fits(stmt@)),
{
    match stmt {
        Statement::Select(s) => {
            if s.columns.len() == 0 || s.columns.len() > 0x0fff_ffff {
                return false;
            }
            match &s.where_clause {
                None => true,
                Some(e) => where_expr_plannable(e),
            }
        },
    }
}

fn where_expr_plannable(e: &Expr) -> (r: bool)
    ensures
        r == where_expr_wf(e@),
{
    match e {
        Expr::Binary(op, lhs, rhs) => {
            proof {
                assert(e@ == ExprV::Binary(
                    *op,
                    Box::new(expr_view(**lhs)),
                    Box::new(expr_view(**rhs)),
                ));
            }
            let op_ok = match op {
                BinaryOp::Eq | BinaryOp::Gt | BinaryOp::Lt => true,
                _ => false,
            };
            let lhs_ok = match &**lhs {
                Expr::Column(_) => true,
                _ => false,
            };
            let rhs_ok = match &**rhs {
                Expr::Literal(Value::Null) => false,
                Expr::Literal(_) => true,
                _ => false,
            };
            op_ok && lhs_ok && rhs_ok
        },
        _ => false,
    }
}

/// Planning is deterministic: it depends on nothing but the statement's
/// structure, so structurally equal statements compile to identical
/// instruction sequences.
pub proof fn lemma_plan_deterministic(a: &Statement, b: &Statement)
    requires
        a@ == b@,
    ensures
        plan_spec(a@) == plan_spec(b@),
{
}

/// Jump correctness: in the plan of any well-formed `SELECT` with a `WHERE`
/// clause, the patched `Goto` at address 5 lands exactly on the post-row
/// `Next`/`Goto` pair, and both backward jumps land on the `Rewind` at the
/// loop start.
pub proof fn lemma_filter_jump_correct(s: SelectV)
    requires
        select_wf(s),
        s.where_clause is Some,
    ensures
        ({
            let code = plan_select_spec(s);
            let n = column_ops(s.columns).len() as int;
            &&& code.len() == 13 + n
            &&& code[5] == OpcodeV::Goto(3 + n)
            &&& 5 + (3 + n) + 1 == 9 + n
            &&& code[9 + n] == OpcodeV::Next
            &&& code[10 + n] == OpcodeV::Goto(-10 - n)
            &&& (10 + n) + (-10 - n) + 1 == 1
            &&& code[8 + n] == OpcodeV::Goto(-8 - n)
            &&& (8 + n) + (-8 - n) + 1 == 1
            &&& code[1] == OpcodeV::Rewind
        }),
{
    let e = s.where_clause->0;
    let cols = column_ops(s.columns);
    let n = cols.len() as int;
    let code = plan_select_spec(s);
    assert(filter_ops(e, n).len() == 4);
    assert(code[5] == filter_ops(e, n)[3]);
}

/// `*` expansion: a `SELECT *` plan loads exactly the three declared
/// columns, in order of their indices, immediately before `ResultRow`,
/// whether or not a `WHERE` clause is present.
pub proof fn lemma_star_expansion(s: SelectV)
    requires
        select_wf(s),
        s.columns =~= seq![ColumnRefV::Star],
    ensures
        ({
            let code = plan_select_spec(s);
            let base: int = if s.where_clause is Some {
                6
            } else {
                2
            };
            &&& column_ops(s.columns) =~= seq![
                OpcodeV::Column { index: 0 },
                OpcodeV::Column { index: 1 },
                OpcodeV::Column { index: 2 },
            ]
            &&& code[base] == OpcodeV::Column { index: 0 }
            &&& code[base + 1] == OpcodeV::Column { index: 1 }
            &&& code[base + 2] == OpcodeV::Column { index: 2 }
            &&& code[base + 3] == OpcodeV::ResultRow
        }),
{
    assert(s.columns[0] == ColumnRefV::Star);
    assert(s.columns.drop_first() =~= Seq::<ColumnRefV>::empty());
    assert(column_ops(Seq::<ColumnRefV>::empty()) == Seq::<OpcodeV>::empty());
    assert(column_ops(s.columns) =~= head_column_ops(ColumnRefV::Star));
    if s.where_clause is Some {
        let e = s.where_clause->0;
        assert(filter_ops(e, 3).len() == 4);
    }
}

/// The documented gap: a `WHERE` clause that references a column name
/// outside the placeholder schema compiles exactly as if it referenced
/// `id`, the column at index 0. Planning never fails on it.
pub proof fn lemma_unknown_column_plans_as_index_zero(s: SelectV, op: BinaryOp, name: Seq<char>, lit: ValueV)
    requires
        select_wf(s),
        s.where_clause == Some(
            ExprV::Binary(op, Box::new(ExprV::Column(name)), Box::new(ExprV::Literal(lit))),
        ),
        name != "id"@,
        name != "name"@,
        name != "age"@,
    ensures
        plan_select_spec(s) == plan_select_spec(
            SelectV {
                where_clause: Some(
                    ExprV::Binary(
                        op,
                        Box::new(ExprV::Column("id"@)),
                        Box::new(ExprV::Literal(lit)),
                    ),
                ),
                ..s
            },
        ),
{
    let n = column_ops(s.columns).len() as int;
    let e1 = s.where_clause->0;
    let e2 = ExprV::Binary(op, Box::new(ExprV::Column("id"@)), Box::new(ExprV::Literal(lit)));
    assert(col_index_spec(name) == 0);
    assert(col_index_spec("id"@) == 0);
    assert(filter_ops(e1, n) =~= filter_ops(e2, n));
    assert(plan_select_spec(s) =~= plan_select_spec(SelectV { where_clause: Some(e2), ..s }));
}

} // verus!
