//! The reverse transformer.
//!
//! Rewrites a routine body into its exact inverse: each statement is
//! individually inverted — declarations become retirements and retirements
//! declarations, compound assignments keep their target and source but take
//! the inverse operator (still behind an alias guard), invocations are
//! redirected to the callee's backward entry point, and the guards of
//! conditionals and loops swap their entry and exit roles — and then the
//! statement order of every block is reversed, at every nesting depth.
//! The same lifetime discipline as in the forward pass is validated, plus the
//! strict conditions: every operator must be invertible and every invocation
//! forward-tagged. Success is exactly [`crate::scope::block_ok`] with the
//! strict conditions; the output is pinned down by [`rev_block_rel`].

use vstd::prelude::*;

use crate::ast::{
    Block, BlockView, Direction, Expr, ExprView, Stmt, StmtView, TransformError, block_size,
    clone_place, clone_pure, invert, lemma_stmts_size_at, lemma_view_stmts, spec_invert,
    stmt_size, stmts_size, view_stmts,
};
use crate::forward::guarded_assign;
use crate::scope::{LiveSet, block_ok, live_after, live_next, stmt_ok, stmts_ok};

verus! {

/// How one statement of the backward form relates to the statement it was
/// rewritten from (before the enclosing block's order is reversed).
pub open spec fn rev_stmt_rel(i: StmtView, o: StmtView) -> bool
    decreases i,
{
    match i {
        StmtView::LocalDecl { name, init } => o == StmtView::ExprStmt(
            ExprView::Retire { name, expected: init },
        ),
        StmtView::NestedBlock(b) => match o {
            StmtView::NestedBlock(ob) => rev_block_rel(b, ob),
            _ => false,
        },
        StmtView::ExprStmt(e) => match e {
            ExprView::CompoundAssign { target, op, source } => match spec_invert(op) {
                Some(iv) => o == guarded_assign(target, iv, source),
                None => false,
            },
            ExprView::Retire { name, expected } => o == StmtView::LocalDecl {
                name,
                init: expected,
            },
            ExprView::RoutineCall { routine, direction, args } => direction is Forward && o
                == StmtView::ExprStmt(
                ExprView::RoutineCall { routine, direction: Direction::Backward, args },
            ),
            ExprView::Conditional { before, then_branch, else_branch, after } => match o {
                StmtView::ExprStmt(
                    ExprView::Conditional {
                        before: ob,
                        then_branch: otb,
                        else_branch: oeb,
                        after: oa,
                    },
                ) => ob == after && oa == before && rev_block_rel(then_branch, otb) && match (
                    else_branch,
                    oeb,
                ) {
                    (Some(eb), Some(oe)) => rev_block_rel(eb, oe),
                    (None, None) => true,
                    _ => false,
                },
                _ => false,
            },
            ExprView::RepeatLoop { from, do_part, body, until } => match o {
                StmtView::ExprStmt(
                    ExprView::RepeatLoop { from: of, do_part: od, body: obd, until: ou },
                ) => of == until && ou == from && rev_block_rel(body, obd) && match (do_part, od) {
                    (Some(db), Some(odb)) => rev_block_rel(db, odb),
                    (None, None) => true,
                    _ => false,
                },
                _ => false,
            },
            ExprView::AliasGuard { .. } => false,
            ExprView::Pure(_) => false,
        },
    }
}

/// How a reverse-transformed block relates to its source: the statement at
/// `j` of the source appears, inverted, at the mirrored position of the
/// output — time runs backward.
pub open spec fn rev_block_rel(i: BlockView, o: BlockView) -> bool
    decreases i,
{
    o.stmts.len() == i.stmts.len() && forall|j: int|
        0 <= j < i.stmts.len() ==> rev_stmt_rel(
            #[trigger] i.stmts[j],
            o.stmts[i.stmts.len() - 1 - j],
        )
}

/// Invert one statement, recording its effect on the block's live set (the
/// discipline is judged on the source order). Succeeds exactly when the
/// statement is acceptable under the strict conditions.
fn rev_stmt(st: Stmt, live: &mut LiveSet) -> (r: Result<Stmt, TransformError>)
    ensures
        r is Ok <==> stmt_ok(st@, old(live)@, true),
        r matches Ok(o) ==> rev_stmt_rel(st@, o@) && final(live)@ == live_next(st@, old(live)@),
    decreases stmt_size(st),
{
    match st {
        Stmt::LocalDecl { name, init } => match live.declare(name) {
            Ok(_) => Ok(Stmt::ExprStmt(Expr::Retire { name, expected: init })),
            Err(e) => Err(e),
        },
        Stmt::NestedBlock(b) => match transform_reverse(b) {
            Ok(ob) => Ok(Stmt::NestedBlock(ob)),
            Err(e) => Err(e),
        },
        Stmt::ExprStmt(e) => match e {
            Expr::CompoundAssign { target, op, source } => {
                let iv = match invert(op) {
                    Ok(x) => x,
                    Err(err) => {
                        return Err(err);
                    },
                };
                let gt = clone_place(&target);
                let gs = clone_pure(&source);
                let mut pair: Vec<Stmt> = Vec::new();
                pair.push(Stmt::ExprStmt(Expr::AliasGuard { target: gt, source: gs }));
                pair.push(Stmt::ExprStmt(Expr::CompoundAssign { target, op: iv, source }));
                let o = Stmt::NestedBlock(Block { stmts: pair });
                proof {
                    lemma_view_stmts(pair@);
                    assert(view_stmts(pair@) =~= seq![
                        StmtView::ExprStmt(ExprView::AliasGuard { target: gt, source: gs }),
                        StmtView::ExprStmt(
                            ExprView::CompoundAssign { target: gt, op: iv, source: gs },
                        ),
                    ]);
                    assert(o@ =~= guarded_assign(gt, iv, gs));
                }
                Ok(o)
            },
            Expr::Retire { name, expected } => match live.retire(name) {
                Ok(_) => Ok(Stmt::LocalDecl { name, init: expected }),
                Err(err) => Err(err),
            },
            Expr::RoutineCall { routine, direction, args } => match direction {
                Direction::Forward => Ok(
                    Stmt::ExprStmt(
                        Expr::RoutineCall { routine, direction: Direction::Backward, args },
                    ),
                ),
                Direction::Backward => Err(TransformError::UnsupportedConstruct),
            },
            Expr::Conditional { before, then_branch, else_branch, after } => {
                let otb = match transform_reverse(then_branch) {
                    Ok(x) => x,
                    Err(err) => {
                        return Err(err);
                    },
                };
                let oeb = match else_branch {
                    Some(eb) => match transform_reverse(eb) {
                        Ok(x) => Some(x),
                        Err(err) => {
                            return Err(err);
                        },
                    },
                    None => None,
                };
                Ok(
                    Stmt::ExprStmt(
                        Expr::Conditional {
                            before: after,
                            then_branch: otb,
                            else_branch: oeb,
                            after: before,
                        },
                    ),
                )
            },
            Expr::RepeatLoop { from, do_part, body, until } => {
                let obd = match transform_reverse(body) {
                    Ok(x) => x,
                    Err(err) => {
                        return Err(err);
                    },
                };
                let odb = match do_part {
                    Some(db) => match transform_reverse(db) {
                        Ok(x) => Some(x),
                        Err(err) => {
                            return Err(err);
                        },
                    },
                    None => None,
                };
                Ok(
                    Stmt::ExprStmt(
                        Expr::RepeatLoop { from: until, do_part: odb, body: obd, until: from },
                    ),
                )
            },
            Expr::AliasGuard { .. } => Err(TransformError::UnsupportedConstruct),
            Expr::Pure(_) => Err(TransformError::UnsupportedConstruct),
        },
    }
}

/// Invert the statements of one block under a fresh checker scope, demand
/// that the scope ends empty, and reverse the rewritten order.
fn rev_stmts(stmts: Vec<Stmt>) -> (r: Result<Vec<Stmt>, TransformError>)
    ensures
        r is Ok <==> stmts_ok(view_stmts(stmts@), Seq::empty(), true) && live_after(
            view_stmts(stmts@),
            Seq::empty(),
        ).len() == 0,
        r matches Ok(o) ==> view_stmts(o@).len() == view_stmts(stmts@).len() && forall|j: int|
            0 <= j < stmts@.len() ==> rev_stmt_rel(
                #[trigger] view_stmts(stmts@)[j],
                view_stmts(o@)[stmts@.len() - 1 - j],
            ),
    decreases stmts_size(stmts@) + 1,
{
    let ghost orig: Seq<Stmt> = stmts@;
    let ghost gorig: Seq<StmtView> = view_stmts(stmts@);
    proof {
        lemma_view_stmts(stmts@);
    }
    let mut rest = stmts;
    let mut out: Vec<Stmt> = Vec::new();
    let mut live = LiveSet::new();
    while rest.len() > 0
        invariant
            orig == stmts@,
            rest@ =~= orig.skip(out@.len() as int),
            out@.len() <= orig.len(),
            gorig == view_stmts(orig),
            gorig.len() == orig.len(),
            forall|k: int| 0 <= k < orig.len() ==> gorig[k] == #[trigger] orig[k]@,
            live@ == live_after(gorig.take(out@.len() as int), Seq::empty()),
            stmts_ok(gorig.take(out@.len() as int), Seq::empty(), true),
            forall|k: int| 0 <= k < out@.len() ==> rev_stmt_rel(#[trigger] gorig[k], out@[k]@),
        decreases rest@.len(),
    {
        let ghost j = out@.len() as int;
        let st = rest.remove(0);
        proof {
            assert(orig.skip(j)[0] == orig[j]);
            assert(st == orig[j]);
            assert(st@ == gorig[j]);
            lemma_stmts_size_at(orig, j);
        }
        match rev_stmt(st, &mut live) {
            Ok(o) => {
                proof {
                    assert(gorig.take(j + 1).drop_last() =~= gorig.take(j));
                    assert(gorig.take(j + 1).last() == gorig[j]);
                    assert(stmts_ok(gorig.take(j + 1), Seq::empty(), true));
                }
                out.push(o);
                proof {
                    assert(rest@ =~= orig.skip(out@.len() as int));
                    assert(out@[j] == o);
                }
            },
            Err(err) => {
                proof {
                    if stmts_ok(gorig, Seq::empty(), true) {
                        crate::forward::lemma_stmts_ok_at(gorig, Seq::empty(), true, j);
                        assert(stmt_ok(gorig[j], live_after(gorig.take(j), Seq::empty()), true));
                        assert(false);
                    }
                }
                return Err(err);
            },
        }
    }
    proof {
        assert(gorig.take(out@.len() as int) =~= gorig);
    }
    match live.finish() {
        Ok(_) => {
            let ghost n = out@.len() as int;
            let ghost full: Seq<Stmt> = out@;
            proof {
                assert(n == gorig.len());
                assert(forall|k: int|
                    0 <= k < n ==> rev_stmt_rel(#[trigger] gorig[k], full[k]@));
            }
            let mut revd: Vec<Stmt> = Vec::new();
            proof {
                assert(full.take(n) =~= full);
            }
            while out.len() > 0
                invariant
                    n == full.len(),
                    out@.len() + revd@.len() == n,
                    out@ =~= full.take(out@.len() as int),
                    forall|k: int| 0 <= k < revd@.len() ==> revd@[k] == full[n - 1 - k],
                decreases out@.len(),
            {
                let ghost m = out@.len() as int;
                let x = match out.pop() {
                    Some(x) => x,
                    // The loop runs only while the vector is non-empty.
                    None => {
                        return Err(TransformError::UnsupportedConstruct);
                    },
                };
                proof {
                    assert(x == full.take(m)[m - 1]);
                    assert(x == full[m - 1]);
                    assert(full.take(m).subrange(0, m - 1) =~= full.take(m - 1));
                }
                revd.push(x);
            }
            proof {
                assert(out@.len() == 0);
                assert(revd@.len() == n);
                lemma_view_stmts(revd@);
                assert forall|j: int| 0 <= j < gorig.len() implies rev_stmt_rel(
                    gorig[j],
                    view_stmts(revd@)[gorig.len() - 1 - j],
                ) by {
                    assert(0 <= n - 1 - j < n);
                    assert(revd@[n - 1 - j] == full[n - 1 - (n - 1 - j)]);
                    assert(full[n - 1 - (n - 1 - j)] == full[j]);
                    assert(rev_stmt_rel(gorig[j], full[j]@));
                    assert(view_stmts(revd@)[n - 1 - j] == revd@[n - 1 - j]@);
                }
            }
            Ok(revd)
        },
        Err(err) => Err(err),
    }
}

/// Reverse-transform one block: validate the strict lifetime discipline of
/// its scope, invert each statement, and reverse their order. Succeeds if
/// and only if the block is well formed with every operator invertible and
/// every invocation forward-tagged; the output is the mirrored image of the
/// input.
pub fn transform_reverse(b: Block) -> (r: Result<Block, TransformError>)
    ensures
        r is Ok <==> block_ok(b@, true),
        r matches Ok(o) ==> rev_block_rel(b@, o@),
    decreases block_size(b),
{
    let ghost gstmts: Seq<Stmt> = b.stmts@;
    let Block { stmts } = b;
    match rev_stmts(stmts) {
        Ok(o) => {
            let ob = Block { stmts: o };
            proof {
                lemma_view_stmts(gstmts);
                assert(rev_block_rel(b@, ob@));
            }
            Ok(ob)
        },
        Err(err) => Err(err),
    }
}

} // verus!
