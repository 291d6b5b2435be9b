//! The mathematical model of execution.
//!
//! Produced programs run against a machine made of storage cells (each an
//! array of unsigned values; a scalar is a one-element array) and an
//! environment stack binding variable names to storage. This module defines
//! that state and, as specification functions, the complete operational
//! semantics: pure-expression evaluation, the runtime alias check, the
//! reversible conditional and loop protocols, and routine invocation. The
//! executable runner in [`crate::machine`] is proved to implement exactly
//! these functions.

use vstd::prelude::*;

use crate::ast::{
    BlockView, Direction, ExprView, MutOp, Place, ProgramView, PureExpr, PureOp, RoutineEntry,
    RunError, StmtView,
};

verus! {

/// A reference to storage: a whole cell, or one element of a cell.
#[derive(Debug, Clone, Copy, PartialEq, Eq, Structural)]
pub enum StorageRef {
    /// A whole cell (a scalar when the cell has one element).
    Whole(usize),
    /// One element of a cell.
    Elem(usize, usize),
}

/// The identity of one scalar storage location: a cell and an element index.
#[derive(Debug, Clone, Copy, PartialEq, Eq, Structural)]
pub struct Loc {
    pub cell: usize,
    pub idx: usize,
}

/// The mathematical machine state: the contents of every cell, and the
/// binding stack from names to storage.
#[verifier::ext_equal]
pub struct MState {
    pub cells: Seq<Seq<u64>>,
    pub env: Seq<(u64, StorageRef)>,
}

/// The storage bound to `x`: the most recent binding wins (shadowing).
pub open spec fn lookup_env(env: Seq<(u64, StorageRef)>, x: u64) -> Option<StorageRef>
    decreases env.len(),
{
    if env.len() == 0 {
        None
    } else if env.last().0 == x {
        Some(env.last().1)
    } else {
        lookup_env(env.drop_last(), x)
    }
}

/// `env` with the most recent binding of `x` removed.
pub open spec fn unbind_env(env: Seq<(u64, StorageRef)>, x: u64) -> Seq<(u64, StorageRef)>
    decreases env.len(),
{
    if env.len() == 0 {
        env
    } else if env.last().0 == x {
        env.drop_last()
    } else {
        unbind_env(env.drop_last(), x).push(env.last())
    }
}

/// Whether `l` names an existing element of an existing cell.
pub open spec fn loc_valid(s: MState, l: Loc) -> bool {
    l.cell < s.cells.len() && l.idx < s.cells[l.cell as int].len()
}

/// The value stored at `l`.
pub open spec fn read_loc(s: MState, l: Loc) -> u64 {
    s.cells[l.cell as int][l.idx as int]
}

/// The state with `v` stored at `l` and everything else unchanged.
pub open spec fn write_loc(s: MState, l: Loc, v: u64) -> MState {
    MState {
        cells: s.cells.update(l.cell as int, s.cells[l.cell as int].update(l.idx as int, v)),
        env: s.env,
    }
}

/// A guard is taken as true exactly when its value is non-zero.
pub open spec fn truthy(v: u64) -> bool {
    v != 0
}

/// The value of a pure binary operation, or a fault where the dialect gives
/// it none: arithmetic leaving the `u64` range, or division by zero.
/// Comparisons and logical operators yield `1` or `0`.
pub open spec fn apply_pure(op: PureOp, x: u64, y: u64) -> Result<u64, RunError> {
    match op {
        PureOp::Add => if x + y <= u64::MAX {
            Ok((x + y) as u64)
        } else {
            Err(RunError::Fault)
        },
        PureOp::Sub => if x >= y {
            Ok((x - y) as u64)
        } else {
            Err(RunError::Fault)
        },
        PureOp::Mul => if x * y <= u64::MAX {
            Ok((x * y) as u64)
        } else {
            Err(RunError::Fault)
        },
        PureOp::Div => if y != 0 {
            Ok(x / y)
        } else {
            Err(RunError::Fault)
        },
        PureOp::Rem => if y != 0 {
            Ok(x % y)
        } else {
            Err(RunError::Fault)
        },
        PureOp::Xor => Ok(x ^ y),
        PureOp::CmpEq => Ok(if x == y { 1u64 } else { 0u64 }),
        PureOp::CmpNe => Ok(if x != y { 1u64 } else { 0u64 }),
        PureOp::CmpLt => Ok(if x < y { 1u64 } else { 0u64 }),
        PureOp::CmpLe => Ok(if x <= y { 1u64 } else { 0u64 }),
        PureOp::CmpGt => Ok(if x > y { 1u64 } else { 0u64 }),
        PureOp::CmpGe => Ok(if x >= y { 1u64 } else { 0u64 }),
        PureOp::LogicalAnd => Ok(if truthy(x) && truthy(y) { 1u64 } else { 0u64 }),
        PureOp::LogicalOr => Ok(if truthy(x) || truthy(y) { 1u64 } else { 0u64 }),
    }
}

/// The new value of a storage location under a compound assignment. Only the
/// three invertible operators have meaning; the transformers never let any
/// other reach execution, so every other operator is a fault.
pub open spec fn apply_mut(op: MutOp, cur: u64, operand: u64) -> Result<u64, RunError> {
    match op {
        MutOp::AddAssign => apply_pure(PureOp::Add, cur, operand),
        MutOp::SubAssign => apply_pure(PureOp::Sub, cur, operand),
        MutOp::XorAssign => apply_pure(PureOp::Xor, cur, operand),
        _ => Err(RunError::Fault),
    }
}

/// The scalar location a place denotes, or a fault: an unbound name, a cell
/// read as a scalar that is not one, an index out of bounds, or indexing
/// into storage that is not a whole array cell.
pub open spec fn resolve_place(s: MState, p: Place) -> Result<Loc, RunError>
    decreases p,
{
    match p {
        Place::Var(x) => match lookup_env(s.env, x) {
            Some(StorageRef::Whole(c)) => if c < s.cells.len() && s.cells[c as int].len() == 1 {
                Ok(Loc { cell: c, idx: 0 })
            } else {
                Err(RunError::Fault)
            },
            Some(StorageRef::Elem(c, i)) => if c < s.cells.len() && i < s.cells[c as int].len() {
                Ok(Loc { cell: c, idx: i })
            } else {
                Err(RunError::Fault)
            },
            None => Err(RunError::Fault),
        },
        Place::Index(x, e) => match eval_pure(s, *e) {
            Ok(v) => match lookup_env(s.env, x) {
                Some(StorageRef::Whole(c)) => if c < s.cells.len() && v < s.cells[c as int].len() {
                    Ok(Loc { cell: c, idx: v as usize })
                } else {
                    Err(RunError::Fault)
                },
                _ => Err(RunError::Fault),
            },
            Err(e) => Err(e),
        },
    }
}

/// The value of a pure expression in state `s`, or the first fault its
/// evaluation reaches (operands evaluate left to right).
pub open spec fn eval_pure(s: MState, e: PureExpr) -> Result<u64, RunError>
    decreases e,
{
    match e {
        PureExpr::Lit(n) => Ok(n),
        PureExpr::Read(p) => match resolve_place(s, p) {
            Ok(l) => Ok(read_loc(s, l)),
            Err(err) => Err(err),
        },
        PureExpr::Binary(op, a, b) => match eval_pure(s, *a) {
            Ok(x) => match eval_pure(s, *b) {
                Ok(y) => apply_pure(op, x, y),
                Err(err) => Err(err),
            },
            Err(err) => Err(err),
        },
    }
}

/// The storage a place passes as a routine argument: a bare variable hands
/// over whatever storage it is bound to; an index hands over one element of
/// an array cell.
pub open spec fn resolve_arg(s: MState, p: Place) -> Result<StorageRef, RunError> {
    match p {
        Place::Var(x) => match lookup_env(s.env, x) {
            Some(r) => Ok(r),
            None => Err(RunError::Fault),
        },
        Place::Index(x, e) => match eval_pure(s, *e) {
            Ok(v) => match lookup_env(s.env, x) {
                Some(StorageRef::Whole(c)) => if c < s.cells.len() && v < s.cells[c as int].len() {
                    Ok(StorageRef::Elem(c, v as usize))
                } else {
                    Err(RunError::Fault)
                },
                _ => Err(RunError::Fault),
            },
            Err(err) => Err(err),
        },
    }
}

/// The storage for each argument place, left to right.
pub open spec fn resolve_args(s: MState, args: Seq<Place>) -> Result<Seq<StorageRef>, RunError>
    decreases args.len(),
{
    if args.len() == 0 {
        Ok(Seq::empty())
    } else {
        match resolve_args(s, args.drop_last()) {
            Ok(rs) => match resolve_arg(s, args.last()) {
                Ok(r) => Ok(rs.push(r)),
                Err(err) => Err(err),
            },
            Err(err) => Err(err),
        }
    }
}

/// The callee environment: each parameter bound to the corresponding
/// argument storage.
pub open spec fn bind_params(params: Seq<u64>, refs: Seq<StorageRef>) -> Seq<(u64, StorageRef)> {
    Seq::new(params.len(), |i: int| (params[i], refs[i]))
}

/// The result of running part of a program: the machine state it ends in,
/// either normally or at the point of a fatal runtime error.
pub enum Outcome {
    Done(MState),
    Halted(RunError, MState),
}

/// Execution of the statements of one block, in order, stopping at the first
/// fatal error. `fuel` bounds loop iterations and routine invocations; all
/// other work is structural.
pub open spec fn run_stmts(prog: ProgramView, ss: Seq<StmtView>, s: MState, fuel: nat) -> Outcome
    decreases fuel, ss, 1int,
{
    if ss.len() == 0 {
        Outcome::Done(s)
    } else {
        match run_stmt(prog, ss[0], s, fuel) {
            Outcome::Done(s1) => run_stmts(prog, ss.drop_first(), s1, fuel),
            Outcome::Halted(e, s1) => Outcome::Halted(e, s1),
        }
    }
}

/// Execution of one statement. A declaration allocates a fresh scalar cell
/// holding the initializer's value and binds the name to it; a nested block
/// is run in sequence (its scoping is enforced statically, not here).
pub open spec fn run_stmt(prog: ProgramView, st: StmtView, s: MState, fuel: nat) -> Outcome
    decreases fuel, st, 1int,
{
    match st {
        StmtView::LocalDecl { name, init } => match eval_pure(s, init) {
            Ok(v) => Outcome::Done(
                MState {
                    cells: s.cells.push(seq![v]),
                    env: s.env.push((name, StorageRef::Whole(s.cells.len() as usize))),
                },
            ),
            Err(err) => Outcome::Halted(err, s),
        },
        StmtView::ExprStmt(e) => run_expr(prog, e, s, fuel),
        StmtView::NestedBlock(b) => run_stmts(prog, b.stmts, s, fuel),
    }
}

/// Execution of one effectful expression: the compound assignment, the
/// runtime alias check, retirement, routine invocation, and the reversible
/// conditional and loop protocols.
pub open spec fn run_expr(prog: ProgramView, e: ExprView, s: MState, fuel: nat) -> Outcome
    decreases fuel, e, 1int,
{
    match e {
        ExprView::CompoundAssign { target, op, source } => match resolve_place(s, target) {
            Ok(l) => match eval_pure(s, source) {
                Ok(v) => match apply_mut(op, read_loc(s, l), v) {
                    Ok(nv) => Outcome::Done(write_loc(s, l, nv)),
                    Err(err) => Outcome::Halted(err, s),
                },
                Err(err) => Outcome::Halted(err, s),
            },
            Err(err) => Outcome::Halted(err, s),
        },
        ExprView::AliasGuard { target, source } => match resolve_place(s, target) {
            Ok(l) => match source {
                PureExpr::Read(p2) => match resolve_place(s, p2) {
                    Ok(l2) => if l == l2 {
                        Outcome::Halted(RunError::AliasViolation, s)
                    } else {
                        Outcome::Done(s)
                    },
                    Err(err) => Outcome::Halted(err, s),
                },
                _ => Outcome::Done(s),
            },
            Err(err) => Outcome::Halted(err, s),
        },
        ExprView::Retire { name, expected } => match eval_pure(s, expected) {
            Ok(v) => match resolve_place(s, Place::Var(name)) {
                Ok(l) => if read_loc(s, l) == v {
                    Outcome::Done(MState { cells: s.cells, env: unbind_env(s.env, name) })
                } else {
                    Outcome::Halted(RunError::RetireMismatch, s)
                },
                Err(err) => Outcome::Halted(err, s),
            },
            Err(err) => Outcome::Halted(err, s),
        },
        ExprView::RoutineCall { routine, direction, args } => if fuel == 0 {
            Outcome::Halted(RunError::FuelExhausted, s)
        } else {
            match find_routine(prog.routines, routine) {
                Some(rt) => if rt.params.len() == args.len() {
                    match resolve_args(s, args) {
                        Ok(rs) => {
                            let body = if direction is Forward {
                                rt.forward
                            } else {
                                rt.backward
                            };
                            let entry = MState {
                                cells: s.cells,
                                env: bind_params(rt.params, rs),
                            };
                            match run_stmts(prog, body.stmts, entry, (fuel - 1) as nat) {
                                Outcome::Done(s1) => Outcome::Done(
                                    MState { cells: s1.cells, env: s.env },
                                ),
                                Outcome::Halted(err, s1) => Outcome::Halted(
                                    err,
                                    MState { cells: s1.cells, env: s.env },
                                ),
                            }
                        },
                        Err(err) => Outcome::Halted(err, s),
                    }
                } else {
                    Outcome::Halted(RunError::Fault, s)
                },
                None => Outcome::Halted(RunError::Fault, s),
            }
        },
        ExprView::Conditional { before, then_branch, else_branch, after } => match eval_pure(
            s,
            before,
        ) {
            Ok(bv) => if truthy(bv) {
                match run_stmts(prog, then_branch.stmts, s, fuel) {
                    Outcome::Done(s1) => match eval_pure(s1, after) {
                        Ok(av) => if truthy(av) {
                            Outcome::Done(s1)
                        } else {
                            Outcome::Halted(RunError::GuardViolation, s1)
                        },
                        Err(err) => Outcome::Halted(err, s1),
                    },
                    Outcome::Halted(err, s1) => Outcome::Halted(err, s1),
                }
            } else {
                match else_branch {
                    Some(eb) => match run_stmts(prog, eb.stmts, s, fuel) {
                        Outcome::Done(s1) => match eval_pure(s1, after) {
                            Ok(av) => if !truthy(av) {
                                Outcome::Done(s1)
                            } else {
                                Outcome::Halted(RunError::GuardViolation, s1)
                            },
                            Err(err) => Outcome::Halted(err, s1),
                        },
                        Outcome::Halted(err, s1) => Outcome::Halted(err, s1),
                    },
                    None => match eval_pure(s, after) {
                        Ok(av) => if !truthy(av) {
                            Outcome::Done(s)
                        } else {
                            Outcome::Halted(RunError::GuardViolation, s)
                        },
                        Err(err) => Outcome::Halted(err, s),
                    },
                }
            },
            Err(err) => Outcome::Halted(err, s),
        },
        ExprView::RepeatLoop { from, do_part, body, until } => match eval_pure(s, from) {
            Ok(fv) => if !truthy(fv) {
                Outcome::Halted(RunError::GuardViolation, s)
            } else {
                match run_do_part(prog, do_part, s, fuel) {
                    Outcome::Done(s1) => run_loop(prog, e, s1, fuel),
                    Outcome::Halted(err, s1) => Outcome::Halted(err, s1),
                }
            },
            Err(err) => Outcome::Halted(err, s),
        },
        ExprView::Pure(pe) => match eval_pure(s, pe) {
            Ok(_) => Outcome::Done(s),
            Err(err) => Outcome::Halted(err, s),
        },
    }
}

/// Execution of a loop's optional `do` part (nothing where it is absent).
pub open spec fn run_do_part(
    prog: ProgramView,
    do_part: Option<BlockView>,
    s: MState,
    fuel: nat,
) -> Outcome
    decreases fuel, do_part, 1int,
{
    match do_part {
        Some(b) => run_stmts(prog, b.stmts, s, fuel),
        None => Outcome::Done(s),
    }
}

/// The repeated part of the loop protocol, entered after the entry guard and
/// the first `do`: stop when `until` holds; otherwise run the body, demand
/// that the entry guard no longer holds, run `do` again, and repeat. Each
/// iteration consumes one unit of fuel. `e` must be the enclosing
/// [`ExprView::RepeatLoop`]; it is passed whole so the recursion is visibly
/// bounded.
pub open spec fn run_loop(prog: ProgramView, e: ExprView, s: MState, fuel: nat) -> Outcome
    decreases fuel, e, 0int,
{
    match e {
        ExprView::RepeatLoop { from, do_part, body, until } => match eval_pure(s, until) {
            Ok(uv) => if truthy(uv) {
                Outcome::Done(s)
            } else if fuel == 0 {
                Outcome::Halted(RunError::FuelExhausted, s)
            } else {
                match run_stmts(prog, body.stmts, s, fuel) {
                    Outcome::Done(s1) => match eval_pure(s1, from) {
                        Ok(fv) => if truthy(fv) {
                            Outcome::Halted(RunError::GuardViolation, s1)
                        } else {
                            match run_do_part(prog, do_part, s1, fuel) {
                                Outcome::Done(s2) => run_loop(prog, e, s2, (fuel - 1) as nat),
                                Outcome::Halted(err, s2) => Outcome::Halted(err, s2),
                            }
                        },
                        Err(err) => Outcome::Halted(err, s1),
                    },
                    Outcome::Halted(err, s1) => Outcome::Halted(err, s1),
                }
            },
            Err(err) => Outcome::Halted(err, s),
        },
        _ => Outcome::Halted(RunError::Fault, s),
    }
}

/// Invocation of one routine of a produced program from outside: the runner
/// hands over storage for each parameter and a step budget. Unknown names
/// and wrong arity are faults; otherwise the chosen entry point's block runs
/// with only the parameters in scope.
pub open spec fn spec_run_routine(
    prog: ProgramView,
    name: u64,
    direction: Direction,
    refs: Seq<StorageRef>,
    cells: Seq<Seq<u64>>,
    fuel: nat,
) -> Outcome {
    match find_routine(prog.routines, name) {
        Some(rt) => if rt.params.len() == refs.len() {
            let entry = MState { cells, env: bind_params(rt.params, refs) };
            let body = if direction is Forward {
                rt.forward
            } else {
                rt.backward
            };
            run_stmts(prog, body.stmts, entry, fuel)
        } else {
            Outcome::Halted(RunError::Fault, MState { cells, env: Seq::empty() })
        },
        None => Outcome::Halted(RunError::Fault, MState { cells, env: Seq::empty() }),
    }
}

/// The routine of the program named `name`, if any (names are unique).
pub open spec fn find_routine(routines: Seq<RoutineEntry>, name: u64) -> Option<RoutineEntry>
    decreases routines.len(),
{
    if routines.len() == 0 {
        None
    } else if routines[0].name == name {
        Some(routines[0])
    } else {
        find_routine(routines.drop_first(), name)
    }
}

} // verus!
