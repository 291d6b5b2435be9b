use rrust::ast::{
    Block, Direction, Expr, MutOp, Place, Program, PureExpr, Routine, RunError, Stmt,
    TransformError, invert,
};
use rrust::machine::run_routine;
use rrust::semantics::StorageRef;
use rrust::transform::{transform_program, transform_routine};

fn lit(n: u64) -> PureExpr {
    PureExpr::Lit(n)
}

fn rd(x: u64) -> PureExpr {
    PureExpr::Read(Place::Var(x))
}

fn assign(x: u64, op: MutOp, source: PureExpr) -> Stmt {
    Stmt::ExprStmt(Expr::CompoundAssign { target: Place::Var(x), op, source })
}

fn routine(name: u64, params: Vec<u64>, stmts: Vec<Stmt>) -> Routine {
    Routine { name, params, body: Block { stmts } }
}

const P: u64 = 1;
const L: u64 = 2;
const R: u64 = 50;

#[test]
fn invert_maps_the_three_operators() {
    assert!(matches!(invert(MutOp::AddAssign), Ok(MutOp::SubAssign)));
    assert!(matches!(invert(MutOp::SubAssign), Ok(MutOp::AddAssign)));
    assert!(matches!(invert(MutOp::XorAssign), Ok(MutOp::XorAssign)));
}

#[test]
fn invert_is_an_involution() {
    for op in [MutOp::AddAssign, MutOp::SubAssign, MutOp::XorAssign] {
        let once = invert(op).unwrap();
        assert_eq!(invert(once).unwrap(), op);
    }
}

#[test]
fn invert_rejects_every_other_operator() {
    for op in [
        MutOp::MulAssign,
        MutOp::DivAssign,
        MutOp::RemAssign,
        MutOp::AndAssign,
        MutOp::OrAssign,
        MutOp::ShlAssign,
        MutOp::ShrAssign,
        MutOp::Assign,
    ] {
        assert!(matches!(
            invert(op),
            Err(TransformError::NonInvertibleOperator(bad)) if bad == op
        ));
    }
}

#[test]
fn duplicate_local_is_rejected() {
    let r = transform_routine(routine(
        R,
        vec![P],
        vec![
            Stmt::LocalDecl { name: L, init: lit(0) },
            Stmt::LocalDecl { name: L, init: lit(1) },
        ],
    ));
    assert!(matches!(r, Err(TransformError::DuplicateLocal(n)) if n == L));
}

#[test]
fn unknown_local_is_rejected() {
    let r = transform_routine(routine(
        R,
        vec![P],
        vec![Stmt::ExprStmt(Expr::Retire { name: L, expected: lit(0) })],
    ));
    assert!(matches!(r, Err(TransformError::UnknownLocal(n)) if n == L));
}

#[test]
fn local_scopes_do_not_cross_block_boundaries() {
    // Retiring in a nested block a name declared outside it is unknown
    // there.
    let r = transform_routine(routine(
        R,
        vec![P],
        vec![
            Stmt::LocalDecl { name: L, init: lit(0) },
            Stmt::NestedBlock(Block {
                stmts: vec![Stmt::ExprStmt(Expr::Retire { name: L, expected: lit(0) })],
            }),
        ],
    ));
    assert!(matches!(r, Err(TransformError::UnknownLocal(n)) if n == L));
}

#[test]
fn non_invertible_operator_fails_the_reverse_pass() {
    let r = transform_routine(routine(R, vec![P], vec![assign(P, MutOp::MulAssign, lit(2))]));
    assert!(matches!(r, Err(TransformError::NonInvertibleOperator(MutOp::MulAssign))));
}

#[test]
fn pure_statement_is_rejected() {
    let r = transform_routine(routine(R, vec![P], vec![Stmt::ExprStmt(Expr::Pure(lit(1)))]));
    assert!(matches!(r, Err(TransformError::UnsupportedConstruct)));
}

#[test]
fn backward_tagged_invocation_fails_the_reverse_pass() {
    let r = transform_routine(routine(
        R,
        vec![P],
        vec![Stmt::ExprStmt(Expr::RoutineCall {
            routine: R,
            direction: Direction::Backward,
            args: vec![Place::Var(P)],
        })],
    ));
    assert!(matches!(r, Err(TransformError::UnsupportedConstruct)));
}

#[test]
fn retire_mismatch_is_fatal() {
    let prog = transform_program(Program {
        routines: vec![routine(
            R,
            vec![P],
            vec![
                Stmt::LocalDecl { name: L, init: lit(3) },
                Stmt::ExprStmt(Expr::Retire { name: L, expected: lit(4) }),
            ],
        )],
    })
    .unwrap();
    let mut cells = vec![vec![0u64]];
    let r = run_routine(
        &prog,
        R,
        Direction::Forward,
        &vec![StorageRef::Whole(0)],
        &mut cells,
        100,
    );
    assert_eq!(r, Err(RunError::RetireMismatch));
}

#[test]
fn retire_checks_the_value_both_ways() {
    let prog = transform_program(Program {
        routines: vec![routine(
            R,
            vec![P],
            vec![
                Stmt::LocalDecl { name: L, init: lit(3) },
                assign(P, MutOp::AddAssign, rd(L)),
                Stmt::ExprStmt(Expr::Retire { name: L, expected: lit(3) }),
            ],
        )],
    })
    .unwrap();
    let mut cells = vec![vec![10u64]];
    let refs = vec![StorageRef::Whole(0)];
    run_routine(&prog, R, Direction::Forward, &refs, &mut cells, 100).unwrap();
    assert_eq!(cells[0][0], 13);
    run_routine(&prog, R, Direction::Backward, &refs, &mut cells, 100).unwrap();
    assert_eq!(cells[0][0], 10);
}

#[test]
fn guard_violation_when_branches_are_indistinguishable() {
    // Both branches leave the exit guard false, so taking the first branch
    // violates it.
    let prog = transform_program(Program {
        routines: vec![routine(
            R,
            vec![P],
            vec![Stmt::ExprStmt(Expr::Conditional {
                before: lit(1),
                then_branch: Block { stmts: vec![assign(P, MutOp::AddAssign, lit(1))] },
                else_branch: None,
                after: lit(0),
            })],
        )],
    })
    .unwrap();
    let mut cells = vec![vec![0u64]];
    let r = run_routine(
        &prog,
        R,
        Direction::Forward,
        &vec![StorageRef::Whole(0)],
        &mut cells,
        100,
    );
    assert_eq!(r, Err(RunError::GuardViolation));
}

#[test]
fn unknown_routine_is_a_fault() {
    let prog = transform_program(Program { routines: vec![] }).unwrap();
    let mut cells: Vec<Vec<u64>> = vec![];
    let r = run_routine(&prog, R, Direction::Forward, &vec![], &mut cells, 100);
    assert_eq!(r, Err(RunError::Fault));
}

#[test]
fn fuel_runs_out_on_an_endless_loop() {
    let prog = transform_program(Program {
        routines: vec![routine(
            R,
            vec![P],
            vec![Stmt::ExprStmt(Expr::RepeatLoop {
                from: PureExpr::Binary(
                    rrust::ast::PureOp::CmpEq,
                    Box::new(rd(P)),
                    Box::new(lit(0)),
                ),
                do_part: None,
                body: Block { stmts: vec![assign(P, MutOp::AddAssign, lit(1))] },
                until: lit(0),
            })],
        )],
    })
    .unwrap();
    let mut cells = vec![vec![0u64]];
    let r = run_routine(
        &prog,
        R,
        Direction::Forward,
        &vec![StorageRef::Whole(0)],
        &mut cells,
        100,
    );
    assert_eq!(r, Err(RunError::FuelExhausted));
}

#[test]
fn overflowing_arithmetic_is_a_fault() {
    let prog = transform_program(Program {
        routines: vec![routine(R, vec![P], vec![assign(P, MutOp::SubAssign, lit(1))])],
    })
    .unwrap();
    let mut cells = vec![vec![0u64]];
    let r = run_routine(
        &prog,
        R,
        Direction::Forward,
        &vec![StorageRef::Whole(0)],
        &mut cells,
        100,
    );
    assert_eq!(r, Err(RunError::Fault));
}
