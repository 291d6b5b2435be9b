use rrust::ast::{
    Block, CompiledProgram, Direction, Expr, MutOp, Place, Program, PureExpr, PureOp, Routine,
    RunError, Stmt,
};
use rrust::machine::run_routine;
use rrust::semantics::StorageRef;
use rrust::transform::transform_program;

fn lit(n: u64) -> PureExpr {
    PureExpr::Lit(n)
}

fn rd(x: u64) -> PureExpr {
    PureExpr::Read(Place::Var(x))
}

fn rd_at(x: u64, idx: PureExpr) -> PureExpr {
    PureExpr::Read(Place::Index(x, Box::new(idx)))
}

fn bin(op: PureOp, a: PureExpr, b: PureExpr) -> PureExpr {
    PureExpr::Binary(op, Box::new(a), Box::new(b))
}

fn assign(x: u64, op: MutOp, source: PureExpr) -> Stmt {
    Stmt::ExprStmt(Expr::CompoundAssign { target: Place::Var(x), op, source })
}

fn assign_at(x: u64, idx: PureExpr, op: MutOp, source: PureExpr) -> Stmt {
    Stmt::ExprStmt(Expr::CompoundAssign { target: Place::Index(x, Box::new(idx)), op, source })
}

fn local(x: u64, init: PureExpr) -> Stmt {
    Stmt::LocalDecl { name: x, init }
}

fn retire(x: u64, expected: PureExpr) -> Stmt {
    Stmt::ExprStmt(Expr::Retire { name: x, expected })
}

fn call(routine: u64, args: Vec<u64>) -> Stmt {
    Stmt::ExprStmt(Expr::RoutineCall {
        routine,
        direction: Direction::Forward,
        args: args.into_iter().map(Place::Var).collect(),
    })
}

fn blk(stmts: Vec<Stmt>) -> Block {
    Block { stmts }
}

fn single(name: u64, params: Vec<u64>, stmts: Vec<Stmt>) -> CompiledProgram {
    transform_program(Program {
        routines: vec![Routine { name, params, body: blk(stmts) }],
    })
    .expect("the routine is well formed")
}

fn whole(n: usize) -> Vec<StorageRef> {
    (0..n).map(StorageRef::Whole).collect()
}

const A: u64 = 1;
const B: u64 = 2;
const I: u64 = 3;
const X1: u64 = 4;
const X2: u64 = 5;
const N: u64 = 6;
const ARR: u64 = 7;
const PAYLOAD: u64 = 8;
const FIB: u64 = 100;
const MAIN: u64 = 101;

#[test]
fn test_addone() {
    let prog = single(
        MAIN,
        vec![A, B],
        vec![assign(A, MutOp::AddAssign, lit(1)), assign(B, MutOp::AddAssign, lit(1))],
    );
    let mut cells = vec![vec![1u64], vec![2u64]];
    run_routine(&prog, MAIN, Direction::Forward, &whole(2), &mut cells, 1000).unwrap();
    assert_eq!(cells[0][0], 2);
    assert_eq!(cells[1][0], 3);
    run_routine(&prog, MAIN, Direction::Backward, &whole(2), &mut cells, 1000).unwrap();
    assert_eq!(cells[0][0], 1);
    assert_eq!(cells[1][0], 2);
}

#[test]
fn test_block() {
    let prog = single(
        MAIN,
        vec![A, B],
        vec![Stmt::NestedBlock(blk(vec![
            assign(A, MutOp::AddAssign, lit(1)),
            assign(B, MutOp::AddAssign, lit(1)),
        ]))],
    );
    let mut cells = vec![vec![1u64], vec![2u64]];
    run_routine(&prog, MAIN, Direction::Forward, &whole(2), &mut cells, 1000).unwrap();
    assert_eq!(cells[0][0], 2);
    assert_eq!(cells[1][0], 3);
    run_routine(&prog, MAIN, Direction::Backward, &whole(2), &mut cells, 1000).unwrap();
    assert_eq!(cells[0][0], 1);
    assert_eq!(cells[1][0], 2);
}

#[test]
fn test_block_block() {
    let prog = single(
        MAIN,
        vec![A, B],
        vec![Stmt::NestedBlock(blk(vec![Stmt::NestedBlock(blk(vec![
            assign(A, MutOp::AddAssign, lit(1)),
            assign(B, MutOp::AddAssign, lit(1)),
        ]))]))],
    );
    let mut cells = vec![vec![1u64], vec![2u64]];
    run_routine(&prog, MAIN, Direction::Forward, &whole(2), &mut cells, 1000).unwrap();
    assert_eq!(cells[0][0], 2);
    assert_eq!(cells[1][0], 3);
    run_routine(&prog, MAIN, Direction::Backward, &whole(2), &mut cells, 1000).unwrap();
    assert_eq!(cells[0][0], 1);
    assert_eq!(cells[1][0], 2);
}

#[test]
fn test_blocks() {
    let prog = single(
        MAIN,
        vec![A, B],
        vec![Stmt::NestedBlock(blk(vec![
            Stmt::NestedBlock(blk(vec![assign(A, MutOp::AddAssign, lit(1))])),
            Stmt::NestedBlock(blk(vec![assign(B, MutOp::AddAssign, lit(1))])),
        ]))],
    );
    let mut cells = vec![vec![1u64], vec![2u64]];
    run_routine(&prog, MAIN, Direction::Forward, &whole(2), &mut cells, 1000).unwrap();
    assert_eq!(cells[0][0], 2);
    assert_eq!(cells[1][0], 3);
    run_routine(&prog, MAIN, Direction::Backward, &whole(2), &mut cells, 1000).unwrap();
    assert_eq!(cells[0][0], 1);
    assert_eq!(cells[1][0], 2);
}

#[test]
fn test_fib() {
    // The base case raises both accumulators to one; the recursive case
    // counts down, recurses, accumulates, and swaps with three exclusive-or
    // assignments. The branch guard: equal accumulators exactly after the
    // base case.
    let body = vec![Stmt::ExprStmt(Expr::Conditional {
        before: bin(PureOp::CmpEq, rd(N), lit(0)),
        then_branch: blk(vec![
            assign(X1, MutOp::AddAssign, lit(1)),
            assign(X2, MutOp::AddAssign, lit(1)),
        ]),
        else_branch: Some(blk(vec![
            assign(N, MutOp::SubAssign, lit(1)),
            call(FIB, vec![X1, X2, N]),
            assign(X1, MutOp::AddAssign, rd(X2)),
            assign(X1, MutOp::XorAssign, rd(X2)),
            assign(X2, MutOp::XorAssign, rd(X1)),
            assign(X1, MutOp::XorAssign, rd(X2)),
        ])),
        after: bin(PureOp::CmpEq, rd(X1), rd(X2)),
    })];
    let prog = single(FIB, vec![X1, X2, N], body);
    let mut cells = vec![vec![0u64], vec![0u64], vec![10u64]];
    run_routine(&prog, FIB, Direction::Forward, &whole(3), &mut cells, 100000).unwrap();
    assert_eq!(cells[0][0], 89);
    assert_eq!(cells[1][0], 144);
    assert_eq!(cells[2][0], 0);
    run_routine(&prog, FIB, Direction::Backward, &whole(3), &mut cells, 100000).unwrap();
    assert_eq!(cells[0][0], 0);
    assert_eq!(cells[1][0], 0);
    assert_eq!(cells[2][0], 10);
}

fn scary_stmts() -> Vec<Stmt> {
    vec![
        local(I, lit(0)),
        Stmt::ExprStmt(Expr::RepeatLoop {
            from: bin(PureOp::CmpEq, rd(I), lit(0)),
            do_part: None,
            body: blk(vec![
                assign_at(ARR, rd(I), MutOp::AddAssign, rd_at(PAYLOAD, rd(I))),
                assign(I, MutOp::AddAssign, lit(1)),
            ]),
            until: bin(PureOp::CmpEq, rd(I), lit(2048)),
        }),
        retire(I, lit(2048)),
    ]
}

#[test]
fn test_scary_correct() {
    let prog = single(MAIN, vec![ARR, PAYLOAD], scary_stmts());
    let mut cells = vec![vec![0u64; 2048], vec![42u64; 2048]];
    run_routine(&prog, MAIN, Direction::Forward, &whole(2), &mut cells, 100000).unwrap();
    assert_eq!(cells[0], cells[1]);
    run_routine(&prog, MAIN, Direction::Backward, &whole(2), &mut cells, 100000).unwrap();
    assert_eq!(cells[0], vec![0u64; 2048]);
}

#[test]
fn test_scary_incorrect() {
    // A 1024-element target against a 2048-element source: the loop must
    // stop with a fatal error instead of running past the end.
    let prog = single(MAIN, vec![ARR, PAYLOAD], scary_stmts());
    let mut cells = vec![vec![0u64; 1024], vec![42u64; 2048]];
    let r = run_routine(&prog, MAIN, Direction::Forward, &whole(2), &mut cells, 100000);
    assert_eq!(r, Err(RunError::Fault));
}

#[test]
fn test_delocal_block() {
    let r = transform_program(Program {
        routines: vec![Routine {
            name: MAIN,
            params: vec![ARR],
            body: blk(vec![Stmt::NestedBlock(blk(vec![
                local(I, lit(42)),
                retire(I, lit(42)),
            ]))]),
        }],
    });
    assert!(r.is_ok());
}

#[test]
fn test_alias_arr() {
    // arr[42] -= arr[i] with i == 42: both operands denote one element.
    let prog = single(
        MAIN,
        vec![ARR],
        vec![
            local(I, lit(42)),
            assign_at(ARR, lit(42), MutOp::SubAssign, rd_at(ARR, rd(I))),
            retire(I, lit(42)),
        ],
    );
    let mut cells = vec![vec![10u64; 100]];
    let r = run_routine(&prog, MAIN, Direction::Forward, &whole(1), &mut cells, 1000);
    assert_eq!(r, Err(RunError::AliasViolation));
    assert_eq!(cells[0], vec![10u64; 100]);
}

#[test]
fn test_alias_var() {
    let prog = single(MAIN, vec![A], vec![assign(A, MutOp::SubAssign, rd(A))]);
    let mut cells = vec![vec![5u64]];
    let fwd = run_routine(&prog, MAIN, Direction::Forward, &whole(1), &mut cells, 1000);
    assert_eq!(fwd, Err(RunError::AliasViolation));
    let bwd = run_routine(&prog, MAIN, Direction::Backward, &whole(1), &mut cells, 1000);
    assert_eq!(bwd, Err(RunError::AliasViolation));
    assert_eq!(cells[0][0], 5);
}

#[test]
fn test_alias_arg() {
    // One storage cell passed as both parameters: the first compound
    // assignment between them is an alias violation.
    let prog = single(MAIN, vec![A, B], vec![assign(A, MutOp::AddAssign, rd(B))]);
    let mut cells = vec![vec![0u64]];
    let refs = vec![StorageRef::Whole(0), StorageRef::Whole(0)];
    let fwd = run_routine(&prog, MAIN, Direction::Forward, &refs, &mut cells, 1000);
    assert_eq!(fwd, Err(RunError::AliasViolation));
    let bwd = run_routine(&prog, MAIN, Direction::Backward, &refs, &mut cells, 1000);
    assert_eq!(bwd, Err(RunError::AliasViolation));
    assert_eq!(cells[0][0], 0);
}

#[test]
fn test_no_delocal() {
    let r = transform_program(Program {
        routines: vec![Routine {
            name: MAIN,
            params: vec![X1],
            body: blk(vec![local(I, lit(1)), assign(X1, MutOp::AddAssign, rd(I))]),
        }],
    });
    assert!(matches!(r, Err(rrust::ast::TransformError::UnretiredLocals(ns)) if ns == vec![I]));
}
