//! The guarantees the transformer is built for, stated and proved against
//! the operational semantics.

use vstd::prelude::*;

use crate::ast::{BlockView, ExprView, MutOp, Place, ProgramView, PureExpr, RunError, StmtView,
    spec_invert};
use crate::forward::{fwd_block_rel, fwd_stmt_rel, guarded_assign};
use crate::reverse::{rev_block_rel, rev_stmt_rel};
use crate::scope::{block_ok, live_after, live_next, remove_first, stmt_ok, stmts_ok};
use crate::semantics::{
    Loc, MState, Outcome, apply_mut, eval_pure, read_loc, resolve_place, run_expr, run_stmt,
    run_stmts, write_loc,
};

verus! {

/// Alias rejection: executing the guarded form of a compound assignment —
/// which is what both transformation passes emit, whatever the operator — in
/// a state where target and source resolve to identical storage halts with
/// an alias violation before any mutation takes effect: the state is handed
/// back unchanged.
pub proof fn lemma_alias_rejection(
    prog: ProgramView,
    target: Place,
    op: MutOp,
    q: Place,
    s: MState,
    fuel: nat,
    l: Loc,
)
    requires
        resolve_place(s, target) == Ok::<Loc, RunError>(l),
        resolve_place(s, q) == Ok::<Loc, RunError>(l),
    ensures
        run_stmt(prog, guarded_assign(target, op, PureExpr::Read(q)), s, fuel) == Outcome::Halted(
            RunError::AliasViolation,
            s,
        ),
{
    let g = StmtView::ExprStmt(ExprView::AliasGuard { target, source: PureExpr::Read(q) });
    let a = StmtView::ExprStmt(
        ExprView::CompoundAssign { target, op, source: PureExpr::Read(q) },
    );
    let pair = seq![g, a];
    assert(run_expr(prog, ExprView::AliasGuard { target, source: PureExpr::Read(q) }, s, fuel)
        == Outcome::Halted(RunError::AliasViolation, s));
    assert(pair[0] == g);
    assert(run_stmt(prog, g, s, fuel) == Outcome::Halted(RunError::AliasViolation, s));
    assert(run_stmts(prog, pair, s, fuel) == Outcome::Halted(RunError::AliasViolation, s));
    assert(guarded_assign(target, op, PureExpr::Read(q)) == StmtView::NestedBlock(
        BlockView { stmts: pair },
    ));
}

/// Membership in a live set survives the removal of a different name.
proof fn lemma_remove_first_keeps(s: Seq<u64>, x: u64, y: u64)
    requires
        s.contains(y),
        y != x,
    ensures
        remove_first(s, x).contains(y),
    decreases s.len(),
{
    if s.len() > 0 && s[0] != x {
        if s[0] == y {
            assert(remove_first(s, x)[0] == y);
        } else {
            let i = choose|i: int| 0 <= i < s.len() && s[i] == y;
            assert(s.drop_first()[i - 1] == y);
            lemma_remove_first_keeps(s.drop_first(), x, y);
            let j = choose|j: int|
                0 <= j < remove_first(s.drop_first(), x).len() && remove_first(
                    s.drop_first(),
                    x,
                )[j] == y;
            assert(remove_first(s, x)[j + 1] == y);
        }
    } else if s.len() > 0 && s[0] == x {
        let i = choose|i: int| 0 <= i < s.len() && s[i] == y;
        assert(s.drop_first()[i - 1] == y);
    }
}

/// A name declared at top level and never retired at top level is still live
/// when the sequence ends.
proof fn lemma_live_after_keeps(ss: Seq<StmtView>, live: Seq<u64>, n: u64)
    requires
        forall|j: int|
            0 <= j < ss.len() ==> !(#[trigger] ss[j] matches StmtView::ExprStmt(
                ExprView::Retire { name, .. },
            ) && name == n),
        live.contains(n) || exists|i: int|
            0 <= i < ss.len() && (#[trigger] ss[i] matches StmtView::LocalDecl { name, .. }
                && name == n),
    ensures
        live_after(ss, live).contains(n),
    decreases ss.len(),
{
    if ss.len() == 0 {
    } else {
        let rest = ss.drop_last();
        let last = ss.last();
        let declared_last = last matches StmtView::LocalDecl { name, .. } && name == n;
        if live.contains(n) {
            lemma_live_after_keeps(rest, live, n);
        } else {
            let i = choose|i: int|
                0 <= i < ss.len() && (#[trigger] ss[i] matches StmtView::LocalDecl { name, .. }
                    && name == n);
            if i < ss.len() - 1 {
                assert(rest[i] == ss[i]);
                lemma_live_after_keeps(rest, live, n);
            } else {
                assert(declared_last);
            }
        }
        let pre = live_after(rest, live);
        if declared_last || pre.contains(n) {
            match last {
                StmtView::LocalDecl { name, .. } => {
                    if name == n {
                        assert(live_next(last, pre).last() == n);
                    } else {
                        if pre.contains(n) {
                            let k = choose|k: int| 0 <= k < pre.len() && pre[k] == n;
                            assert(live_next(last, pre)[k] == n);
                        }
                    }
                },
                StmtView::ExprStmt(ExprView::Retire { name, .. }) => {
                    lemma_remove_first_keeps(pre, name, n);
                },
                _ => {
                },
            }
        }
    }
}

/// Lifetime completeness, first half: a block that declares a local at top
/// level and never retires it at top level fails transformation — in either
/// pass — before any program is produced.
pub proof fn lemma_unretired_local_rejected(b: BlockView, n: u64, i: int, strict: bool)
    requires
        0 <= i < b.stmts.len(),
        b.stmts[i] matches StmtView::LocalDecl { name, .. } && name == n,
        forall|j: int|
            0 <= j < b.stmts.len() ==> !(#[trigger] b.stmts[j] matches StmtView::ExprStmt(
                ExprView::Retire { name, .. },
            ) && name == n),
    ensures
        !block_ok(b, strict),
{
    lemma_live_after_keeps(b.stmts, Seq::empty(), n);
}

/// A name never declared at top level and not live to begin with is not live
/// later either.
proof fn lemma_live_after_absent(ss: Seq<StmtView>, live: Seq<u64>, n: u64)
    requires
        !live.contains(n),
        forall|j: int|
            0 <= j < ss.len() ==> !(#[trigger] ss[j] matches StmtView::LocalDecl { name, .. }
                && name == n),
    ensures
        !live_after(ss, live).contains(n),
    decreases ss.len(),
{
    if ss.len() > 0 {
        let rest = ss.drop_last();
        assert(forall|j: int|
            0 <= j < rest.len() ==> !(#[trigger] rest[j] matches StmtView::LocalDecl {
                name,
                ..
            } && name == n));
        lemma_live_after_absent(rest, live, n);
        let pre = live_after(rest, live);
        match ss.last() {
            StmtView::LocalDecl { name, init } => {
                assert(forall|k: int|
                    0 <= k < pre.push(name).len() ==> pre.push(name)[k] != n);
            },
            StmtView::ExprStmt(ExprView::Retire { name, .. }) => {
                lemma_remove_first_no_new(pre, name, n);
            },
            _ => {
            },
        }
    }
}

/// Removing a name never adds one.
proof fn lemma_remove_first_no_new(s: Seq<u64>, x: u64, y: u64)
    requires
        !s.contains(y),
    ensures
        !remove_first(s, x).contains(y),
    decreases s.len(),
{
    if s.len() > 0 {
        assert(forall|k: int| 0 <= k < s.drop_first().len() ==> s.drop_first()[k] != y);
        lemma_remove_first_no_new(s.drop_first(), x, y);
        if s[0] != x {
            let r = seq![s[0]].add(remove_first(s.drop_first(), x));
            assert(forall|k: int|
                1 <= k < r.len() ==> r[k] == remove_first(s.drop_first(), x)[k - 1]);
        }
    }
}

/// Variable places resolve the same way in two states with the same
/// environment and the same store shape.
proof fn lemma_resolve_var_stable(s1: MState, s2: MState, x: u64)
    requires
        s2.env == s1.env,
        s2.cells.len() == s1.cells.len(),
        forall|c: int| 0 <= c < s1.cells.len() ==> s2.cells[c].len() == s1.cells[c].len(),
    ensures
        resolve_place(s2, Place::Var(x)) == resolve_place(s1, Place::Var(x)),
{
}

/// An invertible operator applied and then undone hands back the original
/// value.
proof fn lemma_apply_mut_inverse(op: MutOp, iv: MutOp, cur: u64, nv: u64, operand: u64)
    requires
        spec_invert(op) == Some(iv),
        apply_mut(op, cur, operand) == Ok::<u64, RunError>(nv),
    ensures
        apply_mut(iv, nv, operand) == Ok::<u64, RunError>(cur),
{
    if op is XorAssign {
        assert(nv == cur ^ operand);
        assert((cur ^ operand) ^ operand == cur) by (bit_vector);
    }
}

/// Round-trip law for one compound assignment whose target is a bare
/// variable and whose source is a literal or a bare variable read: if the
/// guarded forward form runs to completion, the guarded backward form —
/// the same statement under the inverse operator, which is exactly what the
/// reverse pass emits for it — restores the starting state bit for bit.
///
/// Sources that read their own target through arithmetic (rather than as a
/// bare read, which the alias guard halts) are outside the guarantee: the
/// dialect cannot undo them.
pub proof fn lemma_assign_round_trip(
    prog: ProgramView,
    x: u64,
    op: MutOp,
    iv: MutOp,
    source: PureExpr,
    s: MState,
    s2: MState,
    fuel: nat,
)
    requires
        spec_invert(op) == Some(iv),
        (source matches PureExpr::Lit(_)) || (source matches PureExpr::Read(Place::Var(_))),
        run_stmt(prog, guarded_assign(Place::Var(x), op, source), s, fuel) == Outcome::Done(s2),
    ensures
        run_stmt(prog, guarded_assign(Place::Var(x), iv, source), s2, fuel) == Outcome::Done(s),
{
    let t = Place::Var(x);
    let gv = ExprView::AliasGuard { target: t, source };
    let av = ExprView::CompoundAssign { target: t, op, source };
    let abv = ExprView::CompoundAssign { target: t, op: iv, source };
    let g = StmtView::ExprStmt(gv);
    let af = StmtView::ExprStmt(av);
    let ab = StmtView::ExprStmt(abv);
    let pf = seq![g, af];
    let pb = seq![g, ab];
    assert(guarded_assign(t, op, source) == StmtView::NestedBlock(BlockView { stmts: pf }));
    assert(guarded_assign(t, iv, source) == StmtView::NestedBlock(BlockView { stmts: pb }));
    assert(pf.drop_first() =~= seq![af]);
    assert(pb.drop_first() =~= seq![ab]);
    assert(seq![af].drop_first() =~= Seq::<StmtView>::empty());
    assert(seq![ab].drop_first() =~= Seq::<StmtView>::empty());
    assert(run_stmts(prog, pf, s, fuel) == Outcome::Done(s2));

    // Unpack the forward run: the guard passed and the assignment landed.
    let og = run_expr(prog, gv, s, fuel);
    assert(run_stmt(prog, g, s, fuel) == og);
    match resolve_place(s, t) {
        Ok(_) => {
        },
        Err(e0) => {
            assert(og == Outcome::Halted(e0, s));
            assert(false);
        },
    }
    let l = resolve_place(s, t)->Ok_0;
    match source {
        PureExpr::Read(q) => {
            match resolve_place(s, q) {
                Ok(l2) => {
                    if l2 == l {
                        assert(og == Outcome::Halted(RunError::AliasViolation, s));
                        assert(false);
                    }
                },
                Err(e0) => {
                    assert(og == Outcome::Halted(e0, s));
                    assert(false);
                },
            }
        },
        _ => {
        },
    }
    assert(og == Outcome::Done(s));
    assert(run_stmts(prog, seq![af], s, fuel) == Outcome::Done(s2));
    let oa = run_expr(prog, av, s, fuel);
    assert(run_stmt(prog, af, s, fuel) == oa);
    match eval_pure(s, source) {
        Ok(_) => {
        },
        Err(e0) => {
            assert(oa == Outcome::Halted(e0, s));
            assert(false);
        },
    }
    let v = eval_pure(s, source)->Ok_0;
    let cur = read_loc(s, l);
    match apply_mut(op, cur, v) {
        Ok(_) => {
        },
        Err(e0) => {
            assert(oa == Outcome::Halted(e0, s));
            assert(false);
        },
    }
    let nv = apply_mut(op, cur, v)->Ok_0;
    assert(oa == Outcome::Done(write_loc(s, l, nv)));
    assert(seq![af][0] == af);
    assert(run_stmts(
        prog,
        Seq::<StmtView>::empty(),
        write_loc(s, l, nv),
        fuel,
    ) == Outcome::Done(write_loc(s, l, nv)));
    assert(s2 == write_loc(s, l, nv));
    assert(l.cell < s.cells.len() && l.idx < s.cells[l.cell as int].len());

    // The write changed one value and nothing else.
    assert(s2.env == s.env);
    assert(s2.cells.len() == s.cells.len());
    assert(forall|c: int| 0 <= c < s.cells.len() ==> s2.cells[c].len() == s.cells[c].len());
    lemma_resolve_var_stable(s, s2, x);
    assert(read_loc(s2, l) == nv);

    // The backward guard passes and the source still evaluates to the same
    // operand: a literal is constant, and a bare variable read was proved
    // disjoint from the target by the forward guard.
    match source {
        PureExpr::Read(q) => {
            let l2 = resolve_place(s, q)->Ok_0;
            match q {
                Place::Var(y) => {
                    lemma_resolve_var_stable(s, s2, y);
                },
                _ => {
                },
            }
            assert(resolve_place(s2, q) == Ok::<Loc, RunError>(l2));
            assert(read_loc(s2, l2) == read_loc(s, l2));
            assert(eval_pure(s2, source) == Ok::<u64, RunError>(v));
        },
        _ => {
        },
    }
    assert(eval_pure(s2, source) == Ok::<u64, RunError>(v));
    lemma_apply_mut_inverse(op, iv, cur, nv, v);

    // Writing the original value back is the identity.
    let s3 = write_loc(s2, l, cur);
    assert(s3.cells[l.cell as int] =~= s.cells[l.cell as int]);
    assert(s3.cells =~~= s.cells);
    assert(s3 =~= s);

    assert(run_expr(prog, gv, s2, fuel) == Outcome::Done(s2));
    assert(run_stmt(prog, g, s2, fuel) == Outcome::Done(s2));
    assert(run_expr(prog, abv, s2, fuel) == Outcome::Done(s3));
    assert(run_stmt(prog, ab, s2, fuel) == Outcome::Done(s3));
    assert(seq![ab][0] == ab);
    assert(run_stmts(prog, Seq::<StmtView>::empty(), s3, fuel) == Outcome::Done(s3));
    assert(run_stmts(prog, seq![ab], s2, fuel) == Outcome::Done(s3));
    assert(run_stmts(prog, pb, s2, fuel) == Outcome::Done(s));
}

/// Whether a statement is a compound assignment to a bare variable whose
/// source is a literal or a bare variable read, under an invertible
/// operator: the straight-line fragment of the dialect.
pub open spec fn plain_var_assign(st: StmtView) -> bool {
    st matches StmtView::ExprStmt(ExprView::CompoundAssign { target, op, source })
        && (target matches Place::Var(_)) && spec_invert(op) is Some && ((
    source matches PureExpr::Lit(_)) || (source matches PureExpr::Read(Place::Var(_))))
}

/// Running a concatenation runs the first part and, where it completes, the
/// second from where it left off.
proof fn lemma_run_stmts_append(
    prog: ProgramView,
    a: Seq<StmtView>,
    b: Seq<StmtView>,
    s: MState,
    fuel: nat,
)
    ensures
        run_stmts(prog, a.add(b), s, fuel) == (match run_stmts(prog, a, s, fuel) {
            Outcome::Done(s1) => run_stmts(prog, b, s1, fuel),
            Outcome::Halted(e, s1) => Outcome::Halted(e, s1),
        }),
    decreases a.len(),
{
    if a.len() == 0 {
        assert(a.add(b) =~= b);
    } else {
        assert(a.add(b)[0] == a[0]);
        assert(a.add(b).drop_first() =~= a.drop_first().add(b));
        match run_stmt(prog, a[0], s, fuel) {
            Outcome::Done(s1) => {
                lemma_run_stmts_append(prog, a.drop_first(), b, s1, fuel);
            },
            Outcome::Halted(..) => {
            },
        }
    }
}

/// Round-trip law for straight-line blocks of plain variable assignments:
/// where the forward form of such a block runs to completion, the backward
/// form — the inverted statements in reversed order, exactly what the two
/// passes produce — restores the starting state bit for bit.
pub proof fn lemma_straightline_round_trip(
    prog: ProgramView,
    b: BlockView,
    f: BlockView,
    r: BlockView,
    s: MState,
    s2: MState,
    fuel: nat,
)
    requires
        forall|j: int| 0 <= j < b.stmts.len() ==> plain_var_assign(#[trigger] b.stmts[j]),
        fwd_block_rel(b, f),
        rev_block_rel(b, r),
        run_stmts(prog, f.stmts, s, fuel) == Outcome::Done(s2),
    ensures
        run_stmts(prog, r.stmts, s2, fuel) == Outcome::Done(s),
    decreases b.stmts.len(),
{
    let n = b.stmts.len() as int;
    if n == 0 {
        assert(s2 == s);
    } else {
        let st0 = b.stmts[0];
        let fs0 = f.stmts[0];
        let rsl = r.stmts[n - 1];
        assert(plain_var_assign(st0));
        assert(fwd_stmt_rel(st0, fs0));
        assert(rev_stmt_rel(st0, rsl));
        match st0 {
            StmtView::ExprStmt(ExprView::CompoundAssign { target, op, source }) => {
                let iv = spec_invert(op)->Some_0;
                assert(fs0 == guarded_assign(target, op, source));
                assert(rsl == guarded_assign(target, iv, source));
                let x = target->Var_0;
                assert(f.stmts =~= seq![fs0].add(f.stmts.drop_first()));
                lemma_run_stmts_append(prog, seq![fs0], f.stmts.drop_first(), s, fuel);
                assert(seq![fs0][0] == fs0);
                assert(seq![fs0].drop_first() =~= Seq::<StmtView>::empty());
                let o0 = run_stmt(prog, fs0, s, fuel);
                match o0 {
                    Outcome::Done(s1) => {
                        assert(run_stmts(prog, Seq::<StmtView>::empty(), s1, fuel)
                            == Outcome::Done(s1));
                        assert(run_stmts(prog, seq![fs0], s, fuel) == Outcome::Done(s1));
                        assert(run_stmts(prog, f.stmts.drop_first(), s1, fuel) == Outcome::Done(
                            s2,
                        ));
                        // The tail round-trips by induction.
                        let bt = BlockView { stmts: b.stmts.drop_first() };
                        let ft = BlockView { stmts: f.stmts.drop_first() };
                        let rt = BlockView { stmts: r.stmts.take(n - 1) };
                        assert(forall|j: int|
                            0 <= j < bt.stmts.len() ==> plain_var_assign(#[trigger] bt.stmts[j]));
                        assert(fwd_block_rel(bt, ft)) by {
                            assert(forall|j: int|
                                0 <= j < bt.stmts.len() ==> fwd_stmt_rel(
                                    #[trigger] bt.stmts[j],
                                    ft.stmts[j],
                                ));
                        }
                        assert(rev_block_rel(bt, rt)) by {
                            assert(forall|j: int|
                                0 <= j < bt.stmts.len() ==> rev_stmt_rel(
                                    #[trigger] bt.stmts[j],
                                    rt.stmts[bt.stmts.len() - 1 - j],
                                ));
                        }
                        lemma_straightline_round_trip(prog, bt, ft, rt, s1, s2, fuel);
                        // Undo the head last.
                        lemma_assign_round_trip(prog, x, op, iv, source, s, s1, fuel);
                        assert(r.stmts =~= rt.stmts.add(seq![rsl]));
                        lemma_run_stmts_append(prog, rt.stmts, seq![rsl], s2, fuel);
                        assert(seq![rsl][0] == rsl);
                        assert(seq![rsl].drop_first() =~= Seq::<StmtView>::empty());
                        assert(run_stmt(prog, rsl, s1, fuel) == Outcome::Done(s));
                        assert(run_stmts(prog, Seq::<StmtView>::empty(), s, fuel)
                            == Outcome::Done(s));
                        assert(run_stmts(prog, seq![rsl], s1, fuel) == Outcome::Done(s));
                    },
                    Outcome::Halted(..) => {
                        assert(false);
                    },
                }
            },
            _ => {
                assert(false);
            },
        }
    }
}

/// Lifetime completeness, second half: a block that retires, at top level, a
/// name it never declared before that point fails transformation in either
/// pass.
pub proof fn lemma_undeclared_retire_rejected(b: BlockView, n: u64, k: int, strict: bool)
    requires
        0 <= k < b.stmts.len(),
        b.stmts[k] matches StmtView::ExprStmt(ExprView::Retire { name, .. }) && name == n,
        forall|j: int|
            0 <= j < k ==> !(#[trigger] b.stmts[j] matches StmtView::LocalDecl { name, .. }
                && name == n),
    ensures
        !block_ok(b, strict),
{
    if stmts_ok(b.stmts, Seq::empty(), strict) {
        crate::forward::lemma_stmts_ok_at(b.stmts, Seq::empty(), strict, k);
        let prefix = b.stmts.take(k);
        assert(forall|j: int|
            0 <= j < prefix.len() ==> !(#[trigger] prefix[j] matches StmtView::LocalDecl {
                name,
                ..
            } && name == n));
        lemma_live_after_absent(prefix, Seq::empty(), n);
        assert(!live_after(prefix, Seq::empty()).contains(n));
        assert(stmt_ok(b.stmts[k], live_after(prefix, Seq::empty()), strict));
        assert(false);
    }
}

} // verus!
