//! The compile-time local-variable lifetime checker.
//!
//! Each block owns one checker instance: a set of live declared names.
//! Declaring a name that is already live, retiring one that is not, or ending
//! the block with names still live is a transform-time error. The same
//! discipline governs both transformation passes; the reverse pass adds the
//! conditions that every operator is invertible and every invocation is
//! forward-tagged. The specification functions here characterise exactly when
//! a block passes, so the transformers can promise success if and only if the
//! block is well formed.

use vstd::prelude::*;

use crate::ast::{BlockView, Direction, ExprView, StmtView, TransformError, spec_invert};

verus! {

/// `s` with its first occurrence of `x` removed (unchanged where there is
/// none).
pub open spec fn remove_first(s: Seq<u64>, x: u64) -> Seq<u64>
    decreases s.len(),
{
    if s.len() == 0 {
        s
    } else if s[0] == x {
        s.drop_first()
    } else {
        seq![s[0]].add(remove_first(s.drop_first(), x))
    }
}

/// The live set after one statement: a declaration adds its name, a
/// retirement removes it, everything else leaves the set alone (a nested
/// block's names are invisible outside it).
pub open spec fn live_next(st: StmtView, live: Seq<u64>) -> Seq<u64> {
    match st {
        StmtView::LocalDecl { name, .. } => live.push(name),
        StmtView::ExprStmt(ExprView::Retire { name, .. }) => remove_first(live, name),
        _ => live,
    }
}

/// The live set after a whole statement sequence, starting from `live`.
pub open spec fn live_after(ss: Seq<StmtView>, live: Seq<u64>) -> Seq<u64>
    decreases ss.len(),
{
    if ss.len() == 0 {
        live
    } else {
        live_next(ss.last(), live_after(ss.drop_last(), live))
    }
}

/// Whether one statement is acceptable given the names currently live.
/// With `strict` (the reverse pass) the operator of a compound assignment
/// must be invertible and an invocation must carry the forward tag.
pub open spec fn stmt_ok(st: StmtView, live: Seq<u64>, strict: bool) -> bool
    decreases st,
{
    match st {
        StmtView::LocalDecl { name, .. } => !live.contains(name),
        StmtView::NestedBlock(b) => block_ok(b, strict),
        StmtView::ExprStmt(e) => match e {
            ExprView::Retire { name, .. } => live.contains(name),
            ExprView::CompoundAssign { op, .. } => !strict || spec_invert(op) is Some,
            ExprView::RoutineCall { direction, .. } => !strict || direction is Forward,
            ExprView::Conditional { then_branch, else_branch, .. } => block_ok(then_branch, strict)
                && match else_branch {
                Some(eb) => block_ok(eb, strict),
                None => true,
            },
            ExprView::RepeatLoop { do_part, body, .. } => block_ok(body, strict) && match do_part {
                Some(db) => block_ok(db, strict),
                None => true,
            },
            ExprView::AliasGuard { .. } => false,
            ExprView::Pure(_) => false,
        },
    }
}

/// Whether every statement of the sequence is acceptable, each judged
/// against the live set left by those before it.
pub open spec fn stmts_ok(ss: Seq<StmtView>, live: Seq<u64>, strict: bool) -> bool
    decreases ss,
{
    if ss.len() == 0 {
        true
    } else {
        stmts_ok(ss.drop_last(), live, strict) && stmt_ok(
            ss.last(),
            live_after(ss.drop_last(), live),
            strict,
        )
    }
}

/// Whether a block passes transformation: its statements are acceptable from
/// an empty scope, and no name is still live at its end.
pub open spec fn block_ok(b: BlockView, strict: bool) -> bool
    decreases b,
{
    stmts_ok(b.stmts, Seq::empty(), strict) && live_after(b.stmts, Seq::empty()).len() == 0
}

/// One lexical scope's live-set tracker.
pub struct LiveSet {
    names: Vec<u64>,
}

impl LiveSet {
    pub closed spec fn view(&self) -> Seq<u64> {
        self.names@
    }

    /// A fresh tracker for a block just entered: nothing is live.
    pub fn new() -> (r: LiveSet)
        ensures
            r@ == Seq::<u64>::empty(),
    {
        LiveSet { names: Vec::new() }
    }

    /// Whether `x` is currently live.
    pub fn is_live(&self, x: u64) -> (r: bool)
        ensures
            r == self@.contains(x),
    {
        let mut i: usize = 0;
        while i < self.names.len()
            invariant
                i <= self.names@.len(),
                forall|k: int| 0 <= k < i ==> self.names@[k] != x,
            decreases self.names@.len() - i,
        {
            if self.names[i] == x {
                return true;
            }
            i = i + 1;
        }
        false
    }

    /// Record a declaration: an error if the name is already live.
    pub fn declare(&mut self, x: u64) -> (r: Result<(), TransformError>)
        ensures
            r is Ok <==> !old(self)@.contains(x),
            r is Ok ==> final(self)@ == old(self)@.push(x),
            r is Err ==> final(self)@ == old(self)@ && (r matches Err(TransformError::DuplicateLocal(n))
                && n == x),
    {
        if self.is_live(x) {
            Err(TransformError::DuplicateLocal(x))
        } else {
            self.names.push(x);
            Ok(())
        }
    }

    /// Record a retirement: an error if the name is not live.
    pub fn retire(&mut self, x: u64) -> (r: Result<(), TransformError>)
        ensures
            r is Ok <==> old(self)@.contains(x),
            r is Ok ==> final(self)@ == remove_first(old(self)@, x),
            r is Err ==> final(self)@ == old(self)@ && (r matches Err(TransformError::UnknownLocal(n))
                && n == x),
    {
        let mut i: usize = 0;
        while i < self.names.len()
            invariant
                i <= self.names@.len(),
                self.names@ == old(self).names@,
                forall|k: int| 0 <= k < i ==> self.names@[k] != x,
            decreases self.names@.len() - i,
        {
            if self.names[i] == x {
                proof {
                    lemma_remove_first_at(old(self)@, x, i as int);
                }
                self.names.remove(i);
                return Ok(());
            }
            i = i + 1;
        }
        assert(!old(self)@.contains(x));
        Err(TransformError::UnknownLocal(x))
    }

    /// End of block: an error naming the leftovers if anything is still
    /// live.
    pub fn finish(&self) -> (r: Result<(), TransformError>)
        ensures
            r is Ok <==> self@.len() == 0,
            r is Err ==> (r matches Err(TransformError::UnretiredLocals(ns)) && ns@ == self@),
    {
        if self.names.len() == 0 {
            Ok(())
        } else {
            let mut leftovers: Vec<u64> = Vec::new();
            let mut i: usize = 0;
            while i < self.names.len()
                invariant
                    i <= self.names@.len(),
                    leftovers@ == self.names@.take(i as int),
                decreases self.names@.len() - i,
            {
                leftovers.push(self.names[i]);
                proof {
                    assert(leftovers@ =~= self.names@.take(i + 1 as int));
                }
                i = i + 1;
            }
            proof {
                assert(leftovers@ =~= self.names@);
            }
            Err(TransformError::UnretiredLocals(leftovers))
        }
    }
}

/// Removing the first occurrence of `x`, found at index `i`, is removal at
/// `i`.
proof fn lemma_remove_first_at(s: Seq<u64>, x: u64, i: int)
    requires
        0 <= i < s.len(),
        s[i] == x,
        forall|k: int| 0 <= k < i ==> s[k] != x,
    ensures
        remove_first(s, x) == s.remove(i),
    decreases i,
{
    if i == 0 {
        assert(remove_first(s, x) =~= s.remove(0));
    } else {
        lemma_remove_first_at(s.drop_first(), x, i - 1);
        assert(remove_first(s, x) =~= seq![s[0]].add(s.drop_first().remove(i - 1)));
        assert(seq![s[0]].add(s.drop_first().remove(i - 1)) =~= s.remove(i));
    }
}

} // verus!
