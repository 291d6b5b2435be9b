//! The forward transformer.
//!
//! Rewrites a routine body into its directly runnable forward form: every
//! compound assignment gains a runtime alias guard ahead of it, every
//! invocation is forced to the forward entry point, and the local-variable
//! lifetime discipline is validated with one fresh checker per block. The
//! transformation succeeds exactly when the block is well formed
//! ([`crate::scope::block_ok`] without the strict conditions), and its output
//! is pinned down by the relation [`fwd_block_rel`].

use vstd::prelude::*;

use crate::ast::{
    Block, BlockView, Direction, Expr, ExprView, MutOp, Place, PureExpr, Stmt, StmtView,
    TransformError, block_size, clone_place, clone_pure, lemma_stmts_size_at, lemma_view_stmts,
    stmt_size, stmts_size, view_stmts,
};
use crate::scope::{LiveSet, block_ok, live_after, live_next, stmt_ok, stmts_ok};

verus! {

/// The forward image of one compound assignment: a two-statement block that
/// first checks the operands for aliasing, then performs the unchanged
/// assignment.
pub open spec fn guarded_assign(target: Place, op: MutOp, source: PureExpr) -> StmtView {
    StmtView::NestedBlock(
        BlockView {
            stmts: seq![
                StmtView::ExprStmt(ExprView::AliasGuard { target, source }),
                StmtView::ExprStmt(ExprView::CompoundAssign { target, op, source }),
            ],
        },
    )
}

/// How one statement of the forward form relates to the statement it was
/// rewritten from.
pub open spec fn fwd_stmt_rel(i: StmtView, o: StmtView) -> bool
    decreases i,
{
    match i {
        StmtView::LocalDecl { .. } => o == i,
        StmtView::NestedBlock(b) => match o {
            StmtView::NestedBlock(ob) => fwd_block_rel(b, ob),
            _ => false,
        },
        StmtView::ExprStmt(e) => match e {
            ExprView::CompoundAssign { target, op, source } => o == guarded_assign(
                target,
                op,
                source,
            ),
            ExprView::Retire { .. } => o == i,
            ExprView::RoutineCall { routine, direction: _, args } => o == StmtView::ExprStmt(
                ExprView::RoutineCall { routine, direction: Direction::Forward, args },
            ),
            ExprView::Conditional { before, then_branch, else_branch, after } => match o {
                StmtView::ExprStmt(
                    ExprView::Conditional {
                        before: ob,
                        then_branch: otb,
                        else_branch: oeb,
                        after: oa,
                    },
                ) => ob == before && oa == after && fwd_block_rel(then_branch, otb) && match (
                    else_branch,
                    oeb,
                ) {
                    (Some(eb), Some(oe)) => fwd_block_rel(eb, oe),
                    (None, None) => true,
                    _ => false,
                },
                _ => false,
            },
            ExprView::RepeatLoop { from, do_part, body, until } => match o {
                StmtView::ExprStmt(
                    ExprView::RepeatLoop { from: of, do_part: od, body: obd, until: ou },
                ) => of == from && ou == until && fwd_block_rel(body, obd) && match (do_part, od) {
                    (Some(db), Some(odb)) => fwd_block_rel(db, odb),
                    (None, None) => true,
                    _ => false,
                },
                _ => false,
            },
            ExprView::AliasGuard { .. } => false,
            ExprView::Pure(_) => false,
        },
    }
}

/// How a forward-transformed block relates to its source: statement for
/// statement, in the same order.
pub open spec fn fwd_block_rel(i: BlockView, o: BlockView) -> bool
    decreases i,
{
    o.stmts.len() == i.stmts.len() && forall|j: int|
        0 <= j < i.stmts.len() ==> fwd_stmt_rel(#[trigger] i.stmts[j], o.stmts[j])
}

/// In a sequence that checks, each statement is acceptable against the live
/// set left by those before it.
pub proof fn lemma_stmts_ok_at(ss: Seq<StmtView>, live: Seq<u64>, strict: bool, j: int)
    requires
        stmts_ok(ss, live, strict),
        0 <= j < ss.len(),
    ensures
        stmt_ok(ss[j], live_after(ss.take(j), live), strict),
    decreases ss.len(),
{
    if j == ss.len() - 1 {
        assert(ss.take(j) =~= ss.drop_last());
    } else {
        lemma_stmts_ok_at(ss.drop_last(), live, strict, j);
        assert(ss.drop_last().take(j) =~= ss.take(j));
    }
}

/// Rewrite one statement of a block, recording its effect on the block's
/// live set. Succeeds exactly when the statement is acceptable there.
fn fwd_stmt(st: Stmt, live: &mut LiveSet) -> (r: Result<Stmt, TransformError>)
    ensures
        r is Ok <==> stmt_ok(st@, old(live)@, false),
        r matches Ok(o) ==> fwd_stmt_rel(st@, o@) && final(live)@ == live_next(st@, old(live)@),
    decreases stmt_size(st),
{
    match st {
        Stmt::LocalDecl { name, init } => match live.declare(name) {
            Ok(_) => Ok(Stmt::LocalDecl { name, init }),
            Err(e) => Err(e),
        },
        Stmt::NestedBlock(b) => match transform_forward(b) {
            Ok(ob) => Ok(Stmt::NestedBlock(ob)),
            Err(e) => Err(e),
        },
        Stmt::ExprStmt(e) => match e {
            Expr::CompoundAssign { target, op, source } => {
                let gt = clone_place(&target);
                let gs = clone_pure(&source);
                let mut pair: Vec<Stmt> = Vec::new();
                pair.push(Stmt::ExprStmt(Expr::AliasGuard { target: gt, source: gs }));
                pair.push(Stmt::ExprStmt(Expr::CompoundAssign { target, op, source }));
                let o = Stmt::NestedBlock(Block { stmts: pair });
                proof {
                    lemma_view_stmts(pair@);
                    assert(view_stmts(pair@) =~= seq![
                        StmtView::ExprStmt(ExprView::AliasGuard { target: gt, source: gs }),
                        StmtView::ExprStmt(ExprView::CompoundAssign { target: gt, op, source: gs }),
                    ]);
                    assert(o@ =~= guarded_assign(gt, op, gs));
                }
                Ok(o)
            },
            Expr::Retire { name, expected } => match live.retire(name) {
                Ok(_) => Ok(Stmt::ExprStmt(Expr::Retire { name, expected })),
                Err(err) => Err(err),
            },
            Expr::RoutineCall { routine, direction: _, args } => Ok(
                Stmt::ExprStmt(
                    Expr::RoutineCall { routine, direction: Direction::Forward, args },
                ),
            ),
            Expr::Conditional { before, then_branch, else_branch, after } => {
                let otb = match transform_forward(then_branch) {
                    Ok(x) => x,
                    Err(err) => {
                        return Err(err);
                    },
                };
                let oeb = match else_branch {
                    Some(eb) => match transform_forward(eb) {
                        Ok(x) => Some(x),
                        Err(err) => {
                            return Err(err);
                        },
                    },
                    None => None,
                };
                Ok(
                    Stmt::ExprStmt(
                        Expr::Conditional {
                            before,
                            then_branch: otb,
                            else_branch: oeb,
                            after,
                        },
                    ),
                )
            },
            Expr::RepeatLoop { from, do_part, body, until } => {
                let obd = match transform_forward(body) {
                    Ok(x) => x,
                    Err(err) => {
                        return Err(err);
                    },
                };
                let odb = match do_part {
                    Some(db) => match transform_forward(db) {
                        Ok(x) => Some(x),
                        Err(err) => {
                            return Err(err);
                        },
                    },
                    None => None,
                };
                Ok(
                    Stmt::ExprStmt(
                        Expr::RepeatLoop { from, do_part: odb, body: obd, until },
                    ),
                )
            },
            Expr::AliasGuard { .. } => Err(TransformError::UnsupportedConstruct),
            Expr::Pure(_) => Err(TransformError::UnsupportedConstruct),
        },
    }
}

/// Rewrite the statements of one block, in order, under a fresh checker
/// scope, and demand that the scope ends empty.
fn fwd_stmts(stmts: Vec<Stmt>) -> (r: Result<Vec<Stmt>, TransformError>)
    ensures
        r is Ok <==> stmts_ok(view_stmts(stmts@), Seq::empty(), false) && live_after(
            view_stmts(stmts@),
            Seq::empty(),
        ).len() == 0,
        r matches Ok(o) ==> view_stmts(o@).len() == view_stmts(stmts@).len() && forall|j: int|
            0 <= j < stmts@.len() ==> fwd_stmt_rel(
                #[trigger] view_stmts(stmts@)[j],
                view_stmts(o@)[j],
            ),
    decreases stmts_size(stmts@) + 1,
{
    let ghost orig: Seq<Stmt> = stmts@;
    let ghost gorig: Seq<StmtView> = view_stmts(stmts@);
    proof {
        lemma_view_stmts(stmts@);
    }
    let mut rest = stmts;
    let mut out: Vec<Stmt> = Vec::new();
    let mut live = LiveSet::new();
    while rest.len() > 0
        invariant
            orig == stmts@,
            rest@ =~= orig.skip(out@.len() as int),
            out@.len() <= orig.len(),
            gorig == view_stmts(orig),
            gorig.len() == orig.len(),
            forall|k: int| 0 <= k < orig.len() ==> gorig[k] == #[trigger] orig[k]@,
            live@ == live_after(gorig.take(out@.len() as int), Seq::empty()),
            stmts_ok(gorig.take(out@.len() as int), Seq::empty(), false),
            forall|k: int|
                0 <= k < out@.len() ==> fwd_stmt_rel(#[trigger] gorig[k], out@[k]@),
        decreases rest@.len(),
    {
        let ghost j = out@.len() as int;
        let st = rest.remove(0);
        proof {
            assert(orig.skip(j)[0] == orig[j]);
            assert(st == orig[j]);
            assert(st@ == gorig[j]);
            lemma_stmts_size_at(orig, j);
        }
        match fwd_stmt(st, &mut live) {
            Ok(o) => {
                proof {
                    assert(gorig.take(j + 1).drop_last() =~= gorig.take(j));
                    assert(gorig.take(j + 1).last() == gorig[j]);
                    assert(stmts_ok(gorig.take(j + 1), Seq::empty(), false));
                }
                out.push(o);
                proof {
                    assert(rest@ =~= orig.skip(out@.len() as int));
                    assert(out@[j] == o);
                }
            },
            Err(err) => {
                proof {
                    if stmts_ok(gorig, Seq::empty(), false) {
                        lemma_stmts_ok_at(gorig, Seq::empty(), false, j);
                        assert(stmt_ok(gorig[j], live_after(gorig.take(j), Seq::empty()), false));
                        assert(false);
                    }
                }
                return Err(err);
            },
        }
    }
    proof {
        assert(gorig.take(out@.len() as int) =~= gorig);
    }
    match live.finish() {
        Ok(_) => {
            proof {
                lemma_view_stmts(out@);
            }
            Ok(out)
        },
        Err(err) => Err(err),
    }
}

/// Forward-transform one block: validate the lifetime discipline of its
/// scope and rewrite each statement in place. Succeeds if and only if the
/// block is well formed; the output is related to the input statement for
/// statement.
pub fn transform_forward(b: Block) -> (r: Result<Block, TransformError>)
    ensures
        r is Ok <==> block_ok(b@, false),
        r matches Ok(o) ==> fwd_block_rel(b@, o@),
    decreases block_size(b),
{
    let ghost gstmts: Seq<Stmt> = b.stmts@;
    let Block { stmts } = b;
    match fwd_stmts(stmts) {
        Ok(o) => {
            let ob = Block { stmts: o };
            proof {
                lemma_view_stmts(gstmts);
                assert(fwd_block_rel(b@, ob@));
            }
            Ok(ob)
        },
        Err(err) => Err(err),
    }
}

} // verus!
