use rqlite::ast::{BinaryOp, ColumnRef, Expr, Select, Statement, Value};
use rqlite::parser::parse;
use rqlite::planner::{plan, statement_plannable, Opcode};
use rqlite::tokenizer::tokenize;

fn compile(sql: &str) -> Vec<Opcode> {
    let stmt = parse(&tokenize(sql)).unwrap();
    assert!(statement_plannable(&stmt));
    plan(&stmt)
}

/// A synthetic cursor executor: rows have the three declared columns
/// (id, name, age) as integers. Returns the number of emitted result rows.
///
/// Conventions: `Goto(off)` continues at `address + off + 1`; a comparison
/// executes the following `Goto` exactly when it fails, and skips it when
/// it holds; `Next` skips the following `Goto` once the cursor is
/// exhausted; `Rewind` positions at the first row only when the cursor is
/// fresh, and continues at the closing code when there are no rows. A
/// backward jump to the loop start resets the register counter, as each
/// iteration reuses the compile-time register numbering.
fn run(code: &[Opcode], rows: &[[i64; 3]]) -> usize {
    let close_at = code
        .iter()
        .position(|op| matches!(op, Opcode::Close))
        .expect("plan always emits Close");
    let mut pc: usize = 0;
    let mut pos: usize = 0;
    let mut rewound = false;
    let mut regs: Vec<i64> = Vec::new();
    let mut next_reg: usize = 0;
    let mut emitted: usize = 0;
    let mut steps: usize = 0;
    loop {
        steps += 1;
        assert!(steps < 10_000, "runaway program");
        match &code[pc] {
            Opcode::OpenRead { .. } => pc += 1,
            Opcode::Rewind => {
                if !rewound {
                    rewound = true;
                    pos = 0;
                    if rows.is_empty() {
                        pc = close_at;
                        continue;
                    }
                }
                next_reg = 0;
                pc += 1;
            }
            Opcode::Column { index } => {
                store(&mut regs, next_reg, rows[pos][*index]);
                next_reg += 1;
                pc += 1;
            }
            Opcode::Integer(v) => {
                store(&mut regs, next_reg, *v);
                next_reg += 1;
                pc += 1;
            }
            Opcode::Text(_) => {
                store(&mut regs, next_reg, 0);
                next_reg += 1;
                pc += 1;
            }
            Opcode::Eq(a, b) => pc = branch(code, pc, regs[*a] == regs[*b]),
            Opcode::Gt(a, b) => pc = branch(code, pc, regs[*a] > regs[*b]),
            Opcode::Lt(a, b) => pc = branch(code, pc, regs[*a] < regs[*b]),
            Opcode::Goto(off) => {
                pc = (pc as i64 + 1 + *off as i64) as usize;
            }
            Opcode::ResultRow => {
                emitted += 1;
                pc += 1;
            }
            Opcode::Next => {
                pos += 1;
                if pos >= rows.len() {
                    pc += 2;
                } else {
                    pc += 1;
                }
            }
            Opcode::MakeRecord | Opcode::Insert => pc += 1,
            Opcode::Close => pc += 1,
            Opcode::Halt => return emitted,
        }
    }
}

fn store(regs: &mut Vec<i64>, at: usize, v: i64) {
    if at < regs.len() {
        regs[at] = v;
    } else {
        regs.resize(at + 1, 0);
        regs[at] = v;
    }
}

fn branch(code: &[Opcode], pc: usize, holds: bool) -> usize {
    assert!(
        matches!(code[pc + 1], Opcode::Goto(_)),
        "a comparison is always followed by a jump"
    );
    if holds {
        pc + 2
    } else {
        pc + 1
    }
}

#[test]
fn plan_without_where_exact_code() {
    let code = compile("SELECT * FROM users");
    let expected = vec![
        Opcode::OpenRead { root_page: 2 },
        Opcode::Rewind,
        Opcode::Column { index: 0 },
        Opcode::Column { index: 1 },
        Opcode::Column { index: 2 },
        Opcode::ResultRow,
        Opcode::Next,
        Opcode::Goto(-7),
        Opcode::Close,
        Opcode::Halt,
    ];
    assert_eq!(code, expected);
}

#[test]
fn plan_with_where_exact_code() {
    let code = compile("SELECT id FROM users WHERE age > 30");
    let expected = vec![
        Opcode::OpenRead { root_page: 2 },
        Opcode::Rewind,
        Opcode::Column { index: 2 },
        Opcode::Integer(30),
        Opcode::Gt(0, 1),
        Opcode::Goto(4),
        Opcode::Column { index: 0 },
        Opcode::ResultRow,
        Opcode::Next,
        Opcode::Goto(-9),
        Opcode::Next,
        Opcode::Goto(-11),
        Opcode::Close,
        Opcode::Halt,
    ];
    assert_eq!(code, expected);
}

#[test]
fn plan_is_deterministic() {
    let stmt = parse(&tokenize("SELECT id, name FROM users WHERE age > 30")).unwrap();
    let first = plan(&stmt);
    let second = plan(&stmt);
    assert_eq!(first, second);
}

#[test]
fn star_expands_to_three_loads_before_result_row() {
    for sql in ["SELECT * FROM users", "SELECT * FROM users WHERE age > 30"] {
        let code = compile(sql);
        let result_at = code
            .iter()
            .position(|op| matches!(op, Opcode::ResultRow))
            .unwrap();
        assert_eq!(
            &code[result_at - 3..result_at],
            &[
                Opcode::Column { index: 0 },
                Opcode::Column { index: 1 },
                Opcode::Column { index: 2 },
            ]
        );
        let loads = code[..result_at]
            .iter()
            .filter(|op| matches!(op, Opcode::Column { .. }))
            .count();
        // The filtered form loads one extra column for the comparison.
        let filter_loads = if sql.contains("WHERE") { 1 } else { 0 };
        assert_eq!(loads, 3 + filter_loads);
    }
}

#[test]
fn unknown_column_compiles_as_index_zero() {
    let code = compile("SELECT id FROM users WHERE shoe_size = 1");
    assert_eq!(code[2], Opcode::Column { index: 0 });
    let as_id = compile("SELECT id FROM users WHERE id = 1");
    assert_eq!(code, as_id);
}

#[test]
fn filtered_scan_counts_matching_rows() {
    let code = compile("SELECT id FROM users WHERE age > 30");
    assert_eq!(run(&code, &[]), 0);
    assert_eq!(run(&code, &[[1, 10, 40], [2, 11, 20]]), 1);
    assert_eq!(run(&code, &[[1, 10, 40], [2, 11, 20], [3, 12, 50]]), 2);
    assert_eq!(run(&code, &[[1, 10, 1], [2, 11, 2], [3, 12, 3]]), 0);
}

#[test]
fn unfiltered_scan_emits_every_row() {
    let code = compile("SELECT * FROM users");
    assert_eq!(run(&code, &[]), 0);
    assert_eq!(run(&code, &[[1, 2, 3], [4, 5, 6]]), 2);
    assert_eq!(run(&code, &[[1, 2, 3], [4, 5, 6], [7, 8, 9]]), 3);
}

#[test]
fn equality_filter_simulates_correctly() {
    let code = compile("SELECT name FROM users WHERE id = 2");
    assert_eq!(run(&code, &[[1, 0, 0], [2, 0, 0], [2, 0, 0]]), 2);
    let lt = compile("SELECT name FROM users WHERE id < 2");
    assert_eq!(run(&lt, &[[1, 0, 0], [2, 0, 0], [3, 0, 0]]), 1);
}

#[test]
fn plannable_rejects_shapes_outside_the_grammar() {
    let and_clause = Statement::Select(Select {
        columns: vec![ColumnRef::Name("id".to_string())],
        table: "t".to_string(),
        where_clause: Some(Expr::Binary(
            BinaryOp::And,
            Box::new(Expr::Column("a".to_string())),
            Box::new(Expr::Literal(Value::Integer(1))),
        )),
    });
    assert!(!statement_plannable(&and_clause));
    let no_columns = Statement::Select(Select {
        columns: vec![],
        table: "t".to_string(),
        where_clause: None,
    });
    assert!(!statement_plannable(&no_columns));
    let null_literal = Statement::Select(Select {
        columns: vec![ColumnRef::Star],
        table: "t".to_string(),
        where_clause: Some(Expr::Binary(
            BinaryOp::Eq,
            Box::new(Expr::Column("a".to_string())),
            Box::new(Expr::Literal(Value::Null)),
        )),
    });
    assert!(!statement_plannable(&null_literal));
    let parsed = parse(&tokenize("SELECT a FROM t WHERE b = c")).unwrap();
    assert!(statement_plannable(&parsed));
}
