//! The executable runner for produced programs.
//!
//! The machine is a store of cells (`Vec<Vec<u64>>`; a scalar is a
//! one-element cell) and, during execution, an environment stack binding
//! names to storage. Every function here is proved to return exactly what
//! the corresponding specification function of [`crate::semantics`] says, so
//! everything established of the model — the alias check, the guard
//! protocols, the round-trip arguments — holds of this runner.

use vstd::prelude::*;

use crate::ast::{
    Block, CompiledProgram, Direction, Expr, MutOp, Place, PureExpr, PureOp, RunError, Stmt,
    block_size, expr_size, lemma_stmts_size_at, lemma_view_stmts, stmt_size, stmts_size,
    view_block, view_stmts,
};
use crate::semantics::{
    Loc, MState, Outcome, StorageRef, apply_mut, apply_pure, bind_params, eval_pure, find_routine,
    lookup_env, read_loc, resolve_arg, resolve_args, resolve_place, run_do_part, run_expr,
    run_loop, run_stmt, run_stmts, spec_run_routine, truthy, unbind_env, write_loc,
};

verus! {

/// The mathematical contents of a store: each cell as a sequence.
pub open spec fn cells_view(cs: Seq<Vec<u64>>) -> Seq<Seq<u64>> {
    Seq::new(cs.len(), |i: int| cs[i]@)
}

/// The machine state made of a store and an environment.
pub open spec fn st_of(cells: Seq<Vec<u64>>, env: Seq<(u64, StorageRef)>) -> MState {
    MState { cells: cells_view(cells), env }
}

/// The storage bound to `x`, scanning the most recent bindings first.
fn lookup(env: &Vec<(u64, StorageRef)>, x: u64) -> (r: Option<StorageRef>)
    ensures
        r == lookup_env(env@, x),
{
    let mut i: usize = env.len();
    proof {
        assert(env@.take(env@.len() as int) =~= env@);
    }
    while i > 0
        invariant
            i <= env@.len(),
            lookup_env(env@, x) == lookup_env(env@.take(i as int), x),
        decreases i,
    {
        let pair = env[i - 1];
        proof {
            assert(env@.take(i as int).last() == env@[i - 1]);
            assert(env@.take(i as int).drop_last() =~= env@.take(i - 1));
        }
        if pair.0 == x {
            return Some(pair.1);
        }
        i = i - 1;
    }
    proof {
        assert(env@.take(0) =~= Seq::<(u64, StorageRef)>::empty());
    }
    None
}

/// Removal of the most recent binding of `x`, found at index `i`, is removal
/// at `i`.
proof fn lemma_unbind_at(s: Seq<(u64, StorageRef)>, x: u64, i: int)
    requires
        0 <= i < s.len(),
        s[i].0 == x,
        forall|k: int| i < k < s.len() ==> s[k].0 != x,
    ensures
        unbind_env(s, x) == s.remove(i),
    decreases s.len(),
{
    if i == s.len() - 1 {
        assert(unbind_env(s, x) =~= s.remove(i));
    } else {
        lemma_unbind_at(s.drop_last(), x, i);
        assert(unbind_env(s, x) =~= s.drop_last().remove(i).push(s.last()));
        assert(s.drop_last().remove(i).push(s.last()) =~= s.remove(i));
    }
}

/// Drop the most recent binding of `x`.
fn unbind(env: &mut Vec<(u64, StorageRef)>, x: u64)
    requires
        lookup_env(old(env)@, x) is Some,
    ensures
        final(env)@ == unbind_env(old(env)@, x),
{
    let mut i: usize = env.len();
    while i > 0
        invariant
            i <= env@.len(),
            env@ == old(env)@,
            forall|k: int| i <= k < env@.len() ==> env@[k].0 != x,
        decreases i,
    {
        if env[i - 1].0 == x {
            proof {
                lemma_unbind_at(env@, x, i - 1 as int);
            }
            env.remove(i - 1);
            return ;
        }
        i = i - 1;
    }
    proof {
        lemma_lookup_none(env@, x);
    }
}

/// A name bound nowhere in the environment has no lookup result.
proof fn lemma_lookup_none(s: Seq<(u64, StorageRef)>, x: u64)
    requires
        forall|k: int| 0 <= k < s.len() ==> s[k].0 != x,
    ensures
        lookup_env(s, x) is None,
    decreases s.len(),
{
    if s.len() > 0 {
        lemma_lookup_none(s.drop_last(), x);
    }
}

/// The value of a pure binary operation; arithmetic leaving the `u64` range
/// and division by zero are faults.
fn exec_apply_pure(op: PureOp, x: u64, y: u64) -> (r: Result<u64, RunError>)
    ensures
        r == apply_pure(op, x, y),
{
    match op {
        PureOp::Add => match x.checked_add(y) {
            Some(v) => Ok(v),
            None => Err(RunError::Fault),
        },
        PureOp::Sub => match x.checked_sub(y) {
            Some(v) => Ok(v),
            None => Err(RunError::Fault),
        },
        PureOp::Mul => match x.checked_mul(y) {
            Some(v) => Ok(v),
            None => Err(RunError::Fault),
        },
        PureOp::Div => if y != 0 {
            Ok(x / y)
        } else {
            Err(RunError::Fault)
        },
        PureOp::Rem => if y != 0 {
            Ok(x % y)
        } else {
            Err(RunError::Fault)
        },
        PureOp::Xor => Ok(x ^ y),
        PureOp::CmpEq => Ok(if x == y { 1 } else { 0 }),
        PureOp::CmpNe => Ok(if x != y { 1 } else { 0 }),
        PureOp::CmpLt => Ok(if x < y { 1 } else { 0 }),
        PureOp::CmpLe => Ok(if x <= y { 1 } else { 0 }),
        PureOp::CmpGt => Ok(if x > y { 1 } else { 0 }),
        PureOp::CmpGe => Ok(if x >= y { 1 } else { 0 }),
        PureOp::LogicalAnd => Ok(if x != 0 && y != 0 { 1 } else { 0 }),
        PureOp::LogicalOr => Ok(if x != 0 || y != 0 { 1 } else { 0 }),
    }
}

/// The new value of a location under a compound assignment; operators
/// without an inverse never reach execution and are faults.
fn exec_apply_mut(op: MutOp, cur: u64, operand: u64) -> (r: Result<u64, RunError>)
    ensures
        r == apply_mut(op, cur, operand),
{
    match op {
        MutOp::AddAssign => exec_apply_pure(PureOp::Add, cur, operand),
        MutOp::SubAssign => exec_apply_pure(PureOp::Sub, cur, operand),
        MutOp::XorAssign => exec_apply_pure(PureOp::Xor, cur, operand),
        _ => Err(RunError::Fault),
    }
}

/// The scalar location a place denotes in the current state.
fn resolve(cells: &Vec<Vec<u64>>, env: &Vec<(u64, StorageRef)>, p: &Place) -> (r: Result<
    Loc,
    RunError,
>)
    ensures
        r == resolve_place(st_of(cells@, env@), *p),
    decreases p,
{
    match p {
        Place::Var(x) => match lookup(env, *x) {
            Some(StorageRef::Whole(c)) => if c < cells.len() && cells[c].len() == 1 {
                Ok(Loc { cell: c, idx: 0 })
            } else {
                Err(RunError::Fault)
            },
            Some(StorageRef::Elem(c, i)) => if c < cells.len() && i < cells[c].len() {
                Ok(Loc { cell: c, idx: i })
            } else {
                Err(RunError::Fault)
            },
            None => Err(RunError::Fault),
        },
        Place::Index(x, e) => match eval(cells, env, e) {
            Ok(v) => match lookup(env, *x) {
                Some(StorageRef::Whole(c)) => if c < cells.len() && v < cells[c].len() as u64 {
                    Ok(Loc { cell: c, idx: v as usize })
                } else {
                    Err(RunError::Fault)
                },
                Some(StorageRef::Elem(..)) => Err(RunError::Fault),
                None => Err(RunError::Fault),
            },
            Err(err) => Err(err),
        },
    }
}

/// The value of a pure expression in the current state.
fn eval(cells: &Vec<Vec<u64>>, env: &Vec<(u64, StorageRef)>, e: &PureExpr) -> (r: Result<
    u64,
    RunError,
>)
    ensures
        r == eval_pure(st_of(cells@, env@), *e),
    decreases e,
{
    match e {
        PureExpr::Lit(n) => Ok(*n),
        PureExpr::Read(p) => match resolve(cells, env, p) {
            Ok(l) => Ok(cells[l.cell][l.idx]),
            Err(err) => Err(err),
        },
        PureExpr::Binary(op, a, b) => match eval(cells, env, a) {
            Ok(x) => match eval(cells, env, b) {
                Ok(y) => exec_apply_pure(*op, x, y),
                Err(err) => Err(err),
            },
            Err(err) => Err(err),
        },
    }
}

/// The storage a place passes as a routine argument.
fn exec_resolve_arg(cells: &Vec<Vec<u64>>, env: &Vec<(u64, StorageRef)>, p: &Place) -> (r: Result<
    StorageRef,
    RunError,
>)
    ensures
        r == resolve_arg(st_of(cells@, env@), *p),
{
    match p {
        Place::Var(x) => match lookup(env, *x) {
            Some(sr) => Ok(sr),
            None => Err(RunError::Fault),
        },
        Place::Index(x, e) => match eval(cells, env, e) {
            Ok(v) => match lookup(env, *x) {
                Some(StorageRef::Whole(c)) => if c < cells.len() && v < cells[c].len() as u64 {
                    Ok(StorageRef::Elem(c, v as usize))
                } else {
                    Err(RunError::Fault)
                },
                Some(StorageRef::Elem(..)) => Err(RunError::Fault),
                None => Err(RunError::Fault),
            },
            Err(err) => Err(err),
        },
    }
}

/// An argument list that fails at some prefix fails as a whole, with the
/// same fault.
proof fn lemma_resolve_args_err(s: MState, args: Seq<Place>, j: int)
    requires
        0 <= j <= args.len(),
        resolve_args(s, args.take(j)) is Err,
    ensures
        resolve_args(s, args) == resolve_args(s, args.take(j)),
    decreases args.len(),
{
    if j == args.len() {
        assert(args.take(j) =~= args);
    } else {
        assert(args.drop_last().take(j) =~= args.take(j));
        lemma_resolve_args_err(s, args.drop_last(), j);
    }
}

/// The storage for each argument place, left to right.
fn exec_resolve_args(
    cells: &Vec<Vec<u64>>,
    env: &Vec<(u64, StorageRef)>,
    args: &Vec<Place>,
) -> (r: Result<Vec<StorageRef>, RunError>)
    ensures
        match r {
            Ok(rs) => resolve_args(st_of(cells@, env@), args@) == Ok::<_, RunError>(rs@),
            Err(err) => resolve_args(st_of(cells@, env@), args@) == Err::<Seq<StorageRef>, _>(err),
        },
{
    let mut rs: Vec<StorageRef> = Vec::new();
    let mut i: usize = 0;
    while i < args.len()
        invariant
            i <= args@.len(),
            resolve_args(st_of(cells@, env@), args@.take(i as int)) == Ok::<_, RunError>(rs@),
        decreases args@.len() - i,
    {
        proof {
            assert(args@.take(i + 1).drop_last() =~= args@.take(i as int));
            assert(args@.take(i + 1).last() == args@[i as int]);
        }
        match exec_resolve_arg(cells, env, &args[i]) {
            Ok(sr) => {
                rs.push(sr);
            },
            Err(err) => {
                proof {
                    assert(resolve_args(st_of(cells@, env@), args@.take(i + 1)) == Err::<
                        Seq<StorageRef>,
                        _,
                    >(err));
                    lemma_resolve_args_err(st_of(cells@, env@), args@, i + 1);
                }
                return Err(err);
            },
        }
        i = i + 1;
    }
    proof {
        assert(args@.take(args@.len() as int) =~= args@);
    }
    Ok(rs)
}

/// An argument list that resolves as a whole yields one storage reference
/// per place.
proof fn lemma_resolve_args_len(s: MState, args: Seq<Place>)
    requires
        resolve_args(s, args) is Ok,
    ensures
        resolve_args(s, args)->Ok_0.len() == args.len(),
    decreases args.len(),
{
    if args.len() > 0 {
        lemma_resolve_args_len(s, args.drop_last());
    }
}

/// The first routine of the sequence named `name`, found at index `i`, is
/// the lookup result.
proof fn lemma_find_routine_at(rs: Seq<crate::ast::RoutineEntry>, name: u64, i: int)
    requires
        0 <= i < rs.len(),
        rs[i].name == name,
        forall|k: int| 0 <= k < i ==> rs[k].name != name,
    ensures
        find_routine(rs, name) == Some(rs[i]),
    decreases rs.len(),
{
    if i > 0 {
        lemma_find_routine_at(rs.drop_first(), name, i - 1);
    }
}

/// A name carried by no routine has no lookup result.
proof fn lemma_find_routine_none(rs: Seq<crate::ast::RoutineEntry>, name: u64)
    requires
        forall|k: int| 0 <= k < rs.len() ==> rs[k].name != name,
    ensures
        find_routine(rs, name) is None,
    decreases rs.len(),
{
    if rs.len() > 0 {
        lemma_find_routine_none(rs.drop_first(), name);
    }
}

/// The index of the routine named `name`, if any.
fn find_routine_index(prog: &CompiledProgram, name: u64) -> (r: Option<usize>)
    ensures
        match r {
            Some(i) => i < prog.routines@.len() && find_routine(prog@.routines, name) == Some(
                prog.routines@[i as int]@,
            ),
            None => find_routine(prog@.routines, name) is None,
        },
{
    let mut i: usize = 0;
    while i < prog.routines.len()
        invariant
            i <= prog.routines@.len(),
            forall|k: int| 0 <= k < i ==> prog@.routines[k].name != name,
        decreases prog.routines@.len() - i,
    {
        if prog.routines[i].name == name {
            proof {
                lemma_find_routine_at(prog@.routines, name, i as int);
            }
            return Some(i);
        }
        i = i + 1;
    }
    proof {
        lemma_find_routine_none(prog@.routines, name);
    }
    None
}

/// Execution of the statements of one block, in order, stopping at the first
/// fatal error.
fn run_stmts_exec(
    prog: &CompiledProgram,
    stmts: &Vec<Stmt>,
    cells: &mut Vec<Vec<u64>>,
    env: &mut Vec<(u64, StorageRef)>,
    fuel: u64,
) -> (r: Result<(), RunError>)
    ensures
        match run_stmts(prog@, view_stmts(stmts@), st_of(old(cells)@, old(env)@), fuel as nat) {
            Outcome::Done(s) => r is Ok && st_of(final(cells)@, final(env)@) == s,
            Outcome::Halted(e2, s) => r == Err::<(), RunError>(e2) && st_of(
                final(cells)@,
                final(env)@,
            ) == s,
        },
    decreases fuel, stmts_size(stmts@), 1int,
{
    let ghost gss: Seq<crate::ast::StmtView> = view_stmts(stmts@);
    let ghost entry: MState = st_of(cells@, env@);
    proof {
        lemma_view_stmts(stmts@);
        assert(gss.skip(0) =~= gss);
    }
    let mut i: usize = 0;
    while i < stmts.len()
        invariant
            i <= stmts@.len(),
            gss == view_stmts(stmts@),
            gss.len() == stmts@.len(),
            forall|k: int| 0 <= k < stmts@.len() ==> gss[k] == #[trigger] stmts@[k]@,
            entry == st_of(old(cells)@, old(env)@),
            run_stmts(prog@, gss, entry, fuel as nat) == run_stmts(
                prog@,
                gss.skip(i as int),
                st_of(cells@, env@),
                fuel as nat,
            ),
        decreases stmts@.len() - i,
    {
        let ghost pre: MState = st_of(cells@, env@);
        proof {
            assert(gss.skip(i as int)[0] == gss[i as int]);
            assert(gss.skip(i as int).drop_first() =~= gss.skip(i + 1));
            assert(stmts@[i as int]@ == gss[i as int]);
            lemma_stmts_size_at(stmts@, i as int);
        }
        match run_stmt_exec(prog, &stmts[i], cells, env, fuel) {
            Ok(_) => {
                proof {
                    assert(run_stmt(prog@, gss[i as int], pre, fuel as nat)
                        == Outcome::Done(st_of(cells@, env@)));
                }
            },
            Err(err) => {
                proof {
                    assert(run_stmt(prog@, gss[i as int], pre, fuel as nat) == Outcome::Halted(
                        err,
                        st_of(cells@, env@),
                    ));
                    assert(gss.skip(i as int).len() > 0);
                    assert(run_stmts(prog@, gss.skip(i as int), pre, fuel as nat)
                        == Outcome::Halted(err, st_of(cells@, env@)));
                    assert(entry == st_of(old(cells)@, old(env)@));
                    assert(view_stmts(stmts@) == gss);
                    assert(run_stmts(prog@, view_stmts(stmts@), st_of(old(cells)@, old(env)@),
                        fuel as nat) == Outcome::Halted(err, st_of(cells@, env@)));
                }
                return Err(err);
            },
        }
        i = i + 1;
    }
    proof {
        assert(gss.skip(stmts@.len() as int) =~= Seq::<crate::ast::StmtView>::empty());
    }
    Ok(())
}

/// Execution of one statement.
fn run_stmt_exec(
    prog: &CompiledProgram,
    st: &Stmt,
    cells: &mut Vec<Vec<u64>>,
    env: &mut Vec<(u64, StorageRef)>,
    fuel: u64,
) -> (r: Result<(), RunError>)
    ensures
        match run_stmt(prog@, st@, st_of(old(cells)@, old(env)@), fuel as nat) {
            Outcome::Done(s) => r is Ok && st_of(final(cells)@, final(env)@) == s,
            Outcome::Halted(e2, s) => r == Err::<(), RunError>(e2) && st_of(
                final(cells)@,
                final(env)@,
            ) == s,
        },
    decreases fuel, stmt_size(*st), 0int,
{
    match st {
        Stmt::LocalDecl { name, init } => match eval(cells, env, init) {
            Ok(v) => {
                let idx = cells.len();
                let mut fresh: Vec<u64> = Vec::new();
                fresh.push(v);
                proof {
                    assert(fresh@ =~= seq![v]);
                }
                cells.push(fresh);
                env.push((*name, StorageRef::Whole(idx)));
                proof {
                    assert(cells_view(cells@) =~= cells_view(old(cells)@).push(seq![v]));
                    assert(st_of(cells@, env@) =~= MState {
                        cells: cells_view(old(cells)@).push(seq![v]),
                        env: old(env)@.push((*name, StorageRef::Whole(idx))),
                    });
                }
                Ok(())
            },
            Err(err) => Err(err),
        },
        Stmt::ExprStmt(e) => run_expr_exec(prog, e, cells, env, fuel),
        Stmt::NestedBlock(b) => run_stmts_exec(prog, &b.stmts, cells, env, fuel),
    }
}

/// Execution of a compound assignment: resolve the target, evaluate the
/// source, combine, write back.
fn run_assign_exec(
    target: &Place,
    op: MutOp,
    source: &PureExpr,
    cells: &mut Vec<Vec<u64>>,
    env: &mut Vec<(u64, StorageRef)>,
) -> (r: Result<(), RunError>)
    ensures
        ({
            let pre = st_of(old(cells)@, old(env)@);
            match resolve_place(pre, *target) {
                Ok(l) => match eval_pure(pre, *source) {
                    Ok(v) => match apply_mut(op, read_loc(pre, l), v) {
                        Ok(nv) => r is Ok && st_of(final(cells)@, final(env)@) == write_loc(
                            pre,
                            l,
                            nv,
                        ),
                        Err(err) => r == Err::<(), RunError>(err) && st_of(
                            final(cells)@,
                            final(env)@,
                        ) == pre,
                    },
                    Err(err) => r == Err::<(), RunError>(err) && st_of(final(cells)@, final(env)@)
                        == pre,
                },
                Err(err) => r == Err::<(), RunError>(err) && st_of(final(cells)@, final(env)@)
                    == pre,
            }
        }),
{
    let l = match resolve(cells, env, target) {
        Ok(l) => l,
        Err(err) => {
            return Err(err);
        },
    };
    let v = match eval(cells, env, source) {
        Ok(v) => v,
        Err(err) => {
            return Err(err);
        },
    };
    let cur = cells[l.cell][l.idx];
    let nv = match exec_apply_mut(op, cur, v) {
        Ok(nv) => nv,
        Err(err) => {
            return Err(err);
        },
    };
    let row = &mut cells[l.cell];
    row[l.idx] = nv;
    proof {
        assert(cells_view(cells@) =~= write_loc(st_of(old(cells)@, old(env)@), l, nv).cells);
        assert(st_of(cells@, env@) =~= write_loc(st_of(old(cells)@, old(env)@), l, nv));
    }
    Ok(())
}

/// Execution of the runtime alias guard: a fatal violation where target and
/// source denote the same storage.
fn run_guard_exec(
    target: &Place,
    source: &PureExpr,
    cells: &mut Vec<Vec<u64>>,
    env: &mut Vec<(u64, StorageRef)>,
) -> (r: Result<(), RunError>)
    ensures
        final(cells)@ == old(cells)@ && final(env)@ == old(env)@,
        ({
            let pre = st_of(old(cells)@, old(env)@);
            match resolve_place(pre, *target) {
                Ok(l) => match *source {
                    PureExpr::Read(p2) => match resolve_place(pre, p2) {
                        Ok(l2) => if l == l2 {
                            r == Err::<(), RunError>(RunError::AliasViolation)
                        } else {
                            r is Ok
                        },
                        Err(err) => r == Err::<(), RunError>(err),
                    },
                    _ => r is Ok,
                },
                Err(err) => r == Err::<(), RunError>(err),
            }
        }),
{
    let l = match resolve(cells, env, target) {
        Ok(l) => l,
        Err(err) => {
            return Err(err);
        },
    };
    match source {
        PureExpr::Read(p2) => {
            let l2 = match resolve(cells, env, p2) {
                Ok(l2) => l2,
                Err(err) => {
                    return Err(err);
                },
            };
            if l.cell == l2.cell && l.idx == l2.idx {
                Err(RunError::AliasViolation)
            } else {
                Ok(())
            }
        },
        _ => Ok(()),
    }
}

/// Execution of a retirement: check the value, then drop the binding.
fn run_retire_exec(
    name: u64,
    expected: &PureExpr,
    cells: &mut Vec<Vec<u64>>,
    env: &mut Vec<(u64, StorageRef)>,
) -> (r: Result<(), RunError>)
    ensures
        final(cells)@ == old(cells)@,
        ({
            let pre = st_of(old(cells)@, old(env)@);
            match eval_pure(pre, *expected) {
                Ok(v) => match resolve_place(pre, Place::Var(name)) {
                    Ok(l) => if read_loc(pre, l) == v {
                        r is Ok && final(env)@ == unbind_env(old(env)@, name)
                    } else {
                        r == Err::<(), RunError>(RunError::RetireMismatch) && final(env)@ == old(
                            env,
                        )@
                    },
                    Err(err) => r == Err::<(), RunError>(err) && final(env)@ == old(env)@,
                },
                Err(err) => r == Err::<(), RunError>(err) && final(env)@ == old(env)@,
            }
        }),
{
    let v = match eval(cells, env, expected) {
        Ok(v) => v,
        Err(err) => {
            return Err(err);
        },
    };
    let pv = Place::Var(name);
    let l = match resolve(cells, env, &pv) {
        Ok(l) => l,
        Err(err) => {
            return Err(err);
        },
    };
    if cells[l.cell][l.idx] == v {
        unbind(env, name);
        Ok(())
    } else {
        Err(RunError::RetireMismatch)
    }
}


/// Execution of one RoutineCall expression.
#[verifier::rlimit(100)]
#[verifier::spinoff_prover]
fn run_call_exec(
    prog: &CompiledProgram,
    e: &Expr,
    cells: &mut Vec<Vec<u64>>,
    env: &mut Vec<(u64, StorageRef)>,
    fuel: u64,
) -> (r: Result<(), RunError>)
    requires
        e matches Expr::RoutineCall { .. },
    ensures
        match run_expr(prog@, e@, st_of(old(cells)@, old(env)@), fuel as nat) {
            Outcome::Done(s) => r is Ok && st_of(final(cells)@, final(env)@) == s,
            Outcome::Halted(e2, s) => r == Err::<(), RunError>(e2) && st_of(
                final(cells)@,
                final(env)@,
            ) == s,
        },
    decreases fuel, expr_size(*e), 1int,
{
    match e {
        Expr::RoutineCall { routine, direction, args } => {
            if fuel == 0 {
                return Err(RunError::FuelExhausted);
            }
            let idx = match find_routine_index(prog, *routine) {
                Some(i) => i,
                None => {
                    return Err(RunError::Fault);
                },
            };
            let rt = &prog.routines[idx];
            if rt.params.len() != args.len() {
                return Err(RunError::Fault);
            }
            let refs = match exec_resolve_args(cells, env, args) {
                Ok(rs) => rs,
                Err(err) => {
                    return Err(err);
                },
            };
            proof {
                lemma_resolve_args_len(st_of(cells@, env@), args@);
            }
            let mut callee_env: Vec<(u64, StorageRef)> = Vec::new();
            let mut k: usize = 0;
            while k < rt.params.len()
                invariant
                    k <= rt.params@.len(),
                    refs@.len() == rt.params@.len(),
                    callee_env@.len() == k,
                    forall|j: int| 0 <= j < k ==> callee_env@[j] == (rt.params@[j], refs@[j]),
                decreases rt.params@.len() - k,
            {
                callee_env.push((rt.params[k], refs[k]));
                k = k + 1;
            }
            proof {
                assert(callee_env@ =~= bind_params(prog.routines@[idx as int]@.params, refs@));
            }
            let body: &Block = match direction {
                Direction::Forward => &rt.forward,
                Direction::Backward => &rt.backward,
            };
            let outcome = run_stmts_exec(prog, &body.stmts, cells, &mut callee_env, fuel - 1);
            proof {
                assert(st_of(cells@, env@) =~= MState {
                    cells: st_of(cells@, callee_env@).cells,
                    env: old(env)@,
                });
            }
            match outcome {
                Ok(_) => Ok(()),
                Err(err) => Err(err),
            }
        },
        _ => Err(RunError::Fault),
    }
}

/// Execution of one Conditional expression.
#[verifier::rlimit(100)]
#[verifier::spinoff_prover]
fn run_cond_exec(
    prog: &CompiledProgram,
    e: &Expr,
    cells: &mut Vec<Vec<u64>>,
    env: &mut Vec<(u64, StorageRef)>,
    fuel: u64,
) -> (r: Result<(), RunError>)
    requires
        e matches Expr::Conditional { .. },
    ensures
        match run_expr(prog@, e@, st_of(old(cells)@, old(env)@), fuel as nat) {
            Outcome::Done(s) => r is Ok && st_of(final(cells)@, final(env)@) == s,
            Outcome::Halted(e2, s) => r == Err::<(), RunError>(e2) && st_of(
                final(cells)@,
                final(env)@,
            ) == s,
        },
    decreases fuel, expr_size(*e), 1int,
{
    match e {
        Expr::Conditional { before, then_branch, else_branch, after } => {
            let bv = match eval(cells, env, before) {
                Ok(bv) => bv,
                Err(err) => {
                    return Err(err);
                },
            };
            if bv != 0 {
                match run_stmts_exec(prog, &then_branch.stmts, cells, env, fuel) {
                    Ok(_) => {},
                    Err(err) => {
                        return Err(err);
                    },
                }
                let av = match eval(cells, env, after) {
                    Ok(av) => av,
                    Err(err) => {
                        return Err(err);
                    },
                };
                if av != 0 {
                    Ok(())
                } else {
                    Err(RunError::GuardViolation)
                }
            } else {
                match else_branch {
                    Some(eb) => {
                        match run_stmts_exec(prog, &eb.stmts, cells, env, fuel) {
                            Ok(_) => {},
                            Err(err) => {
                                return Err(err);
                            },
                        }
                        let av = match eval(cells, env, after) {
                            Ok(av) => av,
                            Err(err) => {
                                return Err(err);
                            },
                        };
                        if av == 0 {
                            Ok(())
                        } else {
                            Err(RunError::GuardViolation)
                        }
                    },
                    None => {
                        let av = match eval(cells, env, after) {
                            Ok(av) => av,
                            Err(err) => {
                                return Err(err);
                            },
                        };
                        if av == 0 {
                            Ok(())
                        } else {
                            Err(RunError::GuardViolation)
                        }
                    },
                }
            }
        },
        _ => Err(RunError::Fault),
    }
}

/// Execution of one RepeatLoop expression.
#[verifier::rlimit(100)]
#[verifier::spinoff_prover]
fn run_loop_entry_exec(
    prog: &CompiledProgram,
    e: &Expr,
    cells: &mut Vec<Vec<u64>>,
    env: &mut Vec<(u64, StorageRef)>,
    fuel: u64,
) -> (r: Result<(), RunError>)
    requires
        e matches Expr::RepeatLoop { .. },
    ensures
        match run_expr(prog@, e@, st_of(old(cells)@, old(env)@), fuel as nat) {
            Outcome::Done(s) => r is Ok && st_of(final(cells)@, final(env)@) == s,
            Outcome::Halted(e2, s) => r == Err::<(), RunError>(e2) && st_of(
                final(cells)@,
                final(env)@,
            ) == s,
        },
    decreases fuel, expr_size(*e), 1int,
{
    match e {
        Expr::RepeatLoop { from, do_part, body, until } => {
            let fv = match eval(cells, env, from) {
                Ok(fv) => fv,
                Err(err) => {
                    return Err(err);
                },
            };
            if fv == 0 {
                return Err(RunError::GuardViolation);
            }
            match do_part {
                Some(db) => {
                    match run_stmts_exec(prog, &db.stmts, cells, env, fuel) {
                        Ok(_) => {},
                        Err(err) => {
                            return Err(err);
                        },
                    }
                },
                None => {},
            }
            run_loop_exec(prog, e, cells, env, fuel)
        },
        _ => Err(RunError::Fault),
    }
}
/// Execution of one effectful expression.
#[verifier::rlimit(100)]
#[verifier::spinoff_prover]
fn run_expr_exec(
    prog: &CompiledProgram,
    e: &Expr,
    cells: &mut Vec<Vec<u64>>,
    env: &mut Vec<(u64, StorageRef)>,
    fuel: u64,
) -> (r: Result<(), RunError>)
    ensures
        match run_expr(prog@, e@, st_of(old(cells)@, old(env)@), fuel as nat) {
            Outcome::Done(s) => r is Ok && st_of(final(cells)@, final(env)@) == s,
            Outcome::Halted(e2, s) => r == Err::<(), RunError>(e2) && st_of(
                final(cells)@,
                final(env)@,
            ) == s,
        },
    decreases fuel, expr_size(*e), 2int,
{
    match e {
        Expr::CompoundAssign { target, op, source } => run_assign_exec(
            target,
            *op,
            source,
            cells,
            env,
        ),
        Expr::AliasGuard { target, source } => run_guard_exec(target, source, cells, env),
        Expr::Retire { name, expected } => run_retire_exec(*name, expected, cells, env),
        Expr::RoutineCall { .. } => run_call_exec(prog, e, cells, env, fuel),
        Expr::Conditional { .. } => run_cond_exec(prog, e, cells, env, fuel),
        Expr::RepeatLoop { .. } => run_loop_entry_exec(prog, e, cells, env, fuel),
        Expr::Pure(pe) => match eval(cells, env, pe) {
            Ok(_) => Ok(()),
            Err(err) => Err(err),
        },
    }
}

/// The repeated part of the loop protocol: stop when the exit guard holds;
/// otherwise run the body, demand the entry guard no longer holds, run the
/// `do` part again, and repeat with one unit of fuel less.
#[verifier::rlimit(60)]
fn run_loop_exec(
    prog: &CompiledProgram,
    e: &Expr,
    cells: &mut Vec<Vec<u64>>,
    env: &mut Vec<(u64, StorageRef)>,
    fuel: u64,
) -> (r: Result<(), RunError>)
    ensures
        match run_loop(prog@, e@, st_of(old(cells)@, old(env)@), fuel as nat) {
            Outcome::Done(s) => r is Ok && st_of(final(cells)@, final(env)@) == s,
            Outcome::Halted(e2, s) => r == Err::<(), RunError>(e2) && st_of(
                final(cells)@,
                final(env)@,
            ) == s,
        },
    decreases fuel, expr_size(*e), 0int,
{
    let ghost s0: MState = st_of(cells@, env@);
    match e {
        Expr::RepeatLoop { from, do_part, body, until } => {
            proof {
                assert(e@ matches crate::ast::ExprView::RepeatLoop { .. });
                assert(view_block(*body).stmts == view_stmts(body.stmts@));
            }
            let uv = match eval(cells, env, until) {
                Ok(uv) => uv,
                Err(err) => {
                    return Err(err);
                },
            };
            if uv != 0 {
                proof {
                    assert(run_loop(prog@, e@, s0, fuel as nat) == Outcome::Done(s0));
                }
                return Ok(());
            }
            if fuel == 0 {
                return Err(RunError::FuelExhausted);
            }
            match run_stmts_exec(prog, &body.stmts, cells, env, fuel) {
                Ok(_) => {},
                Err(err) => {
                    proof {
                        assert(run_loop(prog@, e@, s0, fuel as nat) == Outcome::Halted(
                            err,
                            st_of(cells@, env@),
                        ));
                    }
                    return Err(err);
                },
            }
            let ghost s1: MState = st_of(cells@, env@);
            let fv = match eval(cells, env, from) {
                Ok(fv) => fv,
                Err(err) => {
                    return Err(err);
                },
            };
            if fv != 0 {
                return Err(RunError::GuardViolation);
            }
            match do_part {
                Some(db) => {
                    proof {
                        assert(view_block(*db).stmts == view_stmts(db.stmts@));
                    }
                    match run_stmts_exec(prog, &db.stmts, cells, env, fuel) {
                        Ok(_) => {
                            proof {
                                assert(run_do_part(
                                    prog@,
                                    Some(view_block(*db)),
                                    s1,
                                    fuel as nat,
                                ) == Outcome::Done(st_of(cells@, env@)));
                            }
                        },
                        Err(err) => {
                            proof {
                                assert(run_do_part(
                                    prog@,
                                    Some(view_block(*db)),
                                    s1,
                                    fuel as nat,
                                ) == Outcome::Halted(err, st_of(cells@, env@)));
                                assert(run_loop(prog@, e@, s0, fuel as nat) == Outcome::Halted(
                                    err,
                                    st_of(cells@, env@),
                                ));
                            }
                            return Err(err);
                        },
                    }
                },
                None => {},
            }
            let ghost s2: MState = st_of(cells@, env@);
            proof {
                let gdo: Option<crate::ast::BlockView> = match do_part {
                    Some(db) => Some(view_block(*db)),
                    None => None,
                };
                assert(e@ == crate::ast::ExprView::RepeatLoop {
                    from: *from,
                    do_part: gdo,
                    body: view_block(*body),
                    until: *until,
                });
                assert(eval_pure(s0, *until) == Ok::<u64, RunError>(uv) && !truthy(uv));
                assert(run_stmts(prog@, view_block(*body).stmts, s0, fuel as nat)
                    == Outcome::Done(s1));
                assert(eval_pure(s1, *from) == Ok::<u64, RunError>(fv) && !truthy(fv));
                assert(run_do_part(prog@, gdo, s1, fuel as nat) == Outcome::Done(s2));
                assert(run_loop(prog@, e@, s0, fuel as nat) == run_loop(
                    prog@,
                    e@,
                    s2,
                    (fuel - 1) as nat,
                ));
            }
            run_loop_exec(prog, e, cells, env, fuel - 1)
        },
        _ => Err(RunError::Fault),
    }
}

/// Run one entry point of a produced program: `name`'s forward or backward
/// form, with `refs` as the storage for its parameters and `fuel` bounding
/// loop iterations and nested invocations. The store is mutated exactly as
/// the operational semantics say; the result surfaces the first fatal
/// runtime error, if any.
pub fn run_routine(
    prog: &CompiledProgram,
    name: u64,
    direction: Direction,
    refs: &Vec<StorageRef>,
    cells: &mut Vec<Vec<u64>>,
    fuel: u64,
) -> (r: Result<(), RunError>)
    ensures
        match spec_run_routine(prog@, name, direction, refs@, cells_view(old(cells)@), fuel as nat) {
            Outcome::Done(s) => r is Ok && cells_view(final(cells)@) == s.cells,
            Outcome::Halted(e2, s) => r == Err::<(), RunError>(e2) && cells_view(final(cells)@) == s.cells,
        },
{
    let idx = match find_routine_index(prog, name) {
        Some(i) => i,
        None => {
            return Err(RunError::Fault);
        },
    };
    let rt = &prog.routines[idx];
    if rt.params.len() != refs.len() {
        return Err(RunError::Fault);
    }
    let mut callee_env: Vec<(u64, StorageRef)> = Vec::new();
    let mut k: usize = 0;
    while k < rt.params.len()
        invariant
            k <= rt.params@.len(),
            refs@.len() == rt.params@.len(),
            callee_env@.len() == k,
            forall|j: int| 0 <= j < k ==> callee_env@[j] == (rt.params@[j], refs@[j]),
        decreases rt.params@.len() - k,
    {
        callee_env.push((rt.params[k], refs[k]));
        k = k + 1;
    }
    proof {
        assert(callee_env@ =~= bind_params(prog.routines@[idx as int]@.params, refs@));
    }
    let body: &Block = match direction {
        Direction::Forward => &rt.forward,
        Direction::Backward => &rt.backward,
    };
    run_stmts_exec(prog, &body.stmts, cells, &mut callee_env, fuel)
}

} // verus!
