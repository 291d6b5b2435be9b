//! The restricted-dialect abstract syntax tree.
//!
//! A routine body is a [`Block`] of [`Stmt`]s. The only mutating construct is
//! the compound assignment with one of the three invertible operators; all
//! other compound operators are represented so that they can be rejected with
//! [`TransformError::NonInvertibleOperator`]. Variable names are interned
//! symbols (`u64`), assigned by the front end that produces the tree.

use vstd::prelude::*;

verus! {

/// A compound-assignment operator. Only `+=`, `-=` and `^=` are invertible;
/// the remaining variants exist so that a front end can hand them over and
/// have them rejected rather than approximated.
#[derive(Debug, Clone, Copy, PartialEq, Eq, Structural)]
pub enum MutOp {
    /// `+=` (wrap-free: overflow is a runtime fault)
    AddAssign,
    /// `-=`
    SubAssign,
    /// `^=`
    XorAssign,
    /// `*=` — not invertible
    MulAssign,
    /// `/=` — not invertible
    DivAssign,
    /// `%=` — not invertible
    RemAssign,
    /// `&=` — not invertible
    AndAssign,
    /// `|=` — not invertible
    OrAssign,
    /// `<<=` — not invertible
    ShlAssign,
    /// `>>=` — not invertible
    ShrAssign,
    /// plain `=` — not invertible
    Assign,
}

/// An operator usable inside pure (non-mutating) sub-expressions.
/// Comparisons and logical operators yield `1` for true and `0` for false.
#[derive(Debug, Clone, Copy, PartialEq, Eq, Structural)]
pub enum PureOp {
    Add,
    Sub,
    Mul,
    Div,
    Rem,
    Xor,
    CmpEq,
    CmpNe,
    CmpLt,
    CmpLe,
    CmpGt,
    CmpGe,
    LogicalAnd,
    LogicalOr,
}

/// Which entry point of a routine an invocation targets.
#[derive(Debug, Clone, Copy, PartialEq, Eq, Structural)]
pub enum Direction {
    Forward,
    Backward,
}

/// A storage location expression: a bare variable, or a single-level index
/// into a variable of array kind. Never a computed alias.
#[derive(Debug)]
pub enum Place {
    /// A bare variable.
    Var(u64),
    /// `x[e]`: one level of indexing; the index is a pure expression.
    Index(u64, Box<PureExpr>),
}

/// A pure (non-mutating) expression: usable as an assignment source, an
/// initializer, an index, or a guard, but never as a statement of its own.
#[derive(Debug)]
pub enum PureExpr {
    /// An unsigned literal.
    Lit(u64),
    /// Read the current value of a place.
    Read(Place),
    /// A binary operation on two pure operands.
    Binary(PureOp, Box<PureExpr>, Box<PureExpr>),
}

/// An effectful expression, usable as a statement.
pub enum Expr {
    /// `target op= source` — the only mutating construct.
    CompoundAssign { target: Place, op: MutOp, source: PureExpr },
    /// A runtime check, emitted by the transformers ahead of every compound
    /// assignment, that `target` and `source` do not denote the same storage.
    AliasGuard { target: Place, source: PureExpr },
    /// Invoke another routine's forward or backward entry point.
    RoutineCall { routine: u64, direction: Direction, args: Vec<Place> },
    /// The reversible two-branch conditional: dispatch on `before`, verify
    /// with `after`.
    Conditional {
        before: PureExpr,
        then_branch: Block,
        else_branch: Option<Block>,
        after: PureExpr,
    },
    /// The reversible do-while loop: entry guard `from`, exit guard `until`,
    /// optional `do_part` run between iterations of `body`.
    RepeatLoop {
        from: PureExpr,
        do_part: Option<Block>,
        body: Block,
        until: PureExpr,
    },
    /// End a local variable's lifetime, asserting its final value.
    Retire { name: u64, expected: PureExpr },
    /// A pure expression in statement position; never accepted by the
    /// transformers.
    Pure(PureExpr),
}

/// One statement of a block.
pub enum Stmt {
    /// Declare a scoped variable with an initial value.
    LocalDecl { name: u64, init: PureExpr },
    /// Evaluate an effectful expression.
    ExprStmt(Expr),
    /// A nested block with its own lexical scope.
    NestedBlock(Block),
}

/// An ordered sequence of statements introducing one lexical scope.
pub struct Block {
    pub stmts: Vec<Stmt>,
}

/// A named routine: an ordered parameter list (each parameter a mutable
/// reference to caller storage) and one body block.
pub struct Routine {
    pub name: u64,
    pub params: Vec<u64>,
    pub body: Block,
}

/// A parsed source program: a set of uniquely named routines.
pub struct Program {
    pub routines: Vec<Routine>,
}

/// One routine after transformation: the shared parameter list and the two
/// callable entry points.
pub struct CompiledRoutine {
    pub name: u64,
    pub params: Vec<u64>,
    pub forward: Block,
    pub backward: Block,
}

/// A whole transformed program.
pub struct CompiledProgram {
    pub routines: Vec<CompiledRoutine>,
}

/// The mathematical image of an [`Expr`]: identical except that sequences are
/// `Seq` rather than `Vec`, so that equality of images is extensional.
/// Contracts and the operational semantics speak of these images.
#[verifier::ext_equal]
pub enum ExprView {
    CompoundAssign { target: Place, op: MutOp, source: PureExpr },
    AliasGuard { target: Place, source: PureExpr },
    RoutineCall { routine: u64, direction: Direction, args: Seq<Place> },
    Conditional {
        before: PureExpr,
        then_branch: BlockView,
        else_branch: Option<BlockView>,
        after: PureExpr,
    },
    RepeatLoop { from: PureExpr, do_part: Option<BlockView>, body: BlockView, until: PureExpr },
    Retire { name: u64, expected: PureExpr },
    Pure(PureExpr),
}

/// The mathematical image of a [`Stmt`].
#[verifier::ext_equal]
pub enum StmtView {
    LocalDecl { name: u64, init: PureExpr },
    ExprStmt(ExprView),
    NestedBlock(BlockView),
}

/// The mathematical image of a [`Block`].
#[verifier::ext_equal]
pub struct BlockView {
    pub stmts: Seq<StmtView>,
}

/// The mathematical image of a [`CompiledRoutine`].
#[verifier::ext_equal]
pub struct RoutineEntry {
    pub name: u64,
    pub params: Seq<u64>,
    pub forward: BlockView,
    pub backward: BlockView,
}

/// The mathematical image of a [`CompiledProgram`].
#[verifier::ext_equal]
pub struct ProgramView {
    pub routines: Seq<RoutineEntry>,
}

/// The image of an effectful expression.
pub open spec fn view_expr(e: Expr) -> ExprView
    decreases e,
{
    match e {
        Expr::CompoundAssign { target, op, source } => ExprView::CompoundAssign {
            target,
            op,
            source,
        },
        Expr::AliasGuard { target, source } => ExprView::AliasGuard { target, source },
        Expr::RoutineCall { routine, direction, args } => ExprView::RoutineCall {
            routine,
            direction,
            args: args@,
        },
        Expr::Conditional { before, then_branch, else_branch, after } => ExprView::Conditional {
            before,
            then_branch: view_block(then_branch),
            else_branch: match else_branch {
                Some(eb) => Some(view_block(eb)),
                None => None,
            },
            after,
        },
        Expr::RepeatLoop { from, do_part, body, until } => ExprView::RepeatLoop {
            from,
            do_part: match do_part {
                Some(db) => Some(view_block(db)),
                None => None,
            },
            body: view_block(body),
            until,
        },
        Expr::Retire { name, expected } => ExprView::Retire { name, expected },
        Expr::Pure(pe) => ExprView::Pure(pe),
    }
}

/// The image of a statement.
pub open spec fn view_stmt(st: Stmt) -> StmtView
    decreases st,
{
    match st {
        Stmt::LocalDecl { name, init } => StmtView::LocalDecl { name, init },
        Stmt::ExprStmt(e) => StmtView::ExprStmt(view_expr(e)),
        Stmt::NestedBlock(b) => StmtView::NestedBlock(view_block(b)),
    }
}

/// The images of a statement sequence, in order.
pub open spec fn view_stmts(ss: Seq<Stmt>) -> Seq<StmtView>
    decreases ss,
{
    if ss.len() == 0 {
        Seq::empty()
    } else {
        view_stmts(ss.drop_last()).push(view_stmt(ss.last()))
    }
}

/// The image of a block.
pub open spec fn view_block(b: Block) -> BlockView
    decreases b,
{
    BlockView { stmts: view_stmts(b.stmts@) }
}

/// The image of a statement sequence is the sequence of the statements'
/// images.
pub broadcast proof fn lemma_view_stmts(ss: Seq<Stmt>)
    ensures
        (#[trigger] view_stmts(ss)).len() == ss.len(),
        forall|i: int| 0 <= i < ss.len() ==> view_stmts(ss)[i] == view_stmt(ss[i]),
    decreases ss.len(),
{
    if ss.len() > 0 {
        lemma_view_stmts(ss.drop_last());
    }
}

impl View for Expr {
    type V = ExprView;

    open spec fn view(&self) -> ExprView {
        view_expr(*self)
    }
}

impl View for Stmt {
    type V = StmtView;

    open spec fn view(&self) -> StmtView {
        view_stmt(*self)
    }
}

impl View for Block {
    type V = BlockView;

    open spec fn view(&self) -> BlockView {
        view_block(*self)
    }
}

/// The image of one transformed routine.
pub open spec fn view_routine(rt: CompiledRoutine) -> RoutineEntry {
    RoutineEntry {
        name: rt.name,
        params: rt.params@,
        forward: view_block(rt.forward),
        backward: view_block(rt.backward),
    }
}

impl View for CompiledRoutine {
    type V = RoutineEntry;

    open spec fn view(&self) -> RoutineEntry {
        view_routine(*self)
    }
}

impl View for CompiledProgram {
    type V = ProgramView;

    open spec fn view(&self) -> ProgramView {
        ProgramView {
            routines: self.routines@.map_values(|rt: CompiledRoutine| view_routine(rt)),
        }
    }
}

/// A transform-time (static) failure. None is recoverable: the transform
/// aborts and surfaces the first violation encountered.
#[derive(Debug)]
pub enum TransformError {
    /// A `LocalDecl` for a name that is already live in its scope.
    DuplicateLocal(u64),
    /// A `Retire` of a name that is not live in its scope.
    UnknownLocal(u64),
    /// Names still live when their block ends.
    UnretiredLocals(Vec<u64>),
    /// A compound assignment whose operator has no inverse.
    NonInvertibleOperator(MutOp),
    /// A construct the dialect does not support in that position.
    UnsupportedConstruct,
}

/// A failure while executing a produced program. All are fatal to the
/// current execution.
#[derive(Debug, Clone, Copy, PartialEq, Eq, Structural)]
pub enum RunError {
    /// Target and source of a compound assignment denote the same storage.
    AliasViolation,
    /// A retired variable's value disagrees with its asserted expected value.
    RetireMismatch,
    /// A conditional or loop guard invariant does not hold.
    GuardViolation,
    /// Invalid storage access, arithmetic outside the value range, or an
    /// unresolvable routine invocation.
    Fault,
    /// The step budget given to the runner was exhausted.
    FuelExhausted,
}

/// The inverse of an invertible operator, or `None` where none exists.
pub open spec fn spec_invert(op: MutOp) -> Option<MutOp> {
    match op {
        MutOp::AddAssign => Some(MutOp::SubAssign),
        MutOp::SubAssign => Some(MutOp::AddAssign),
        MutOp::XorAssign => Some(MutOp::XorAssign),
        _ => None,
    }
}

/// Operator inversion: `+=` and `-=` are each other's inverse, `^=` is its
/// own; every other operator is rejected.
pub fn invert(op: MutOp) -> (r: Result<MutOp, TransformError>)
    ensures
        match r {
            Ok(inv) => spec_invert(op) == Some(inv),
            Err(e) => spec_invert(op) is None && (e matches TransformError::NonInvertibleOperator(
                bad,
            ) && bad == op),
        },
{
    match op {
        MutOp::AddAssign => Ok(MutOp::SubAssign),
        MutOp::SubAssign => Ok(MutOp::AddAssign),
        MutOp::XorAssign => Ok(MutOp::XorAssign),
        _ => Err(TransformError::NonInvertibleOperator(op)),
    }
}

/// An exact copy of a place.
pub fn clone_place(p: &Place) -> (r: Place)
    ensures
        r == *p,
    decreases p,
{
    match p {
        Place::Var(x) => Place::Var(*x),
        Place::Index(x, e) => Place::Index(*x, Box::new(clone_pure(e))),
    }
}

/// An exact copy of a pure expression.
pub fn clone_pure(e: &PureExpr) -> (r: PureExpr)
    ensures
        r == *e,
    decreases e,
{
    match e {
        PureExpr::Lit(n) => PureExpr::Lit(*n),
        PureExpr::Read(p) => PureExpr::Read(clone_place(p)),
        PureExpr::Binary(op, a, b) => PureExpr::Binary(
            *op,
            Box::new(clone_pure(a)),
            Box::new(clone_pure(b)),
        ),
    }
}

/// A copy of an effectful expression with the same image.
pub fn clone_expr(e: &Expr) -> (r: Expr)
    ensures
        r@ == e@,
    decreases e,
{
    match e {
        Expr::CompoundAssign { target, op, source } => Expr::CompoundAssign {
            target: clone_place(target),
            op: *op,
            source: clone_pure(source),
        },
        Expr::AliasGuard { target, source } => Expr::AliasGuard {
            target: clone_place(target),
            source: clone_pure(source),
        },
        Expr::RoutineCall { routine, direction, args } => {
            let mut cargs: Vec<Place> = Vec::new();
            let mut i: usize = 0;
            while i < args.len()
                invariant
                    i <= args@.len(),
                    cargs@.len() == i,
                    forall|k: int| 0 <= k < i ==> cargs@[k] == args@[k],
                decreases args@.len() - i,
            {
                cargs.push(clone_place(&args[i]));
                i = i + 1;
            }
            proof {
                assert(cargs@ =~= args@);
            }
            Expr::RoutineCall { routine: *routine, direction: *direction, args: cargs }
        },
        Expr::Conditional { before, then_branch, else_branch, after } => Expr::Conditional {
            before: clone_pure(before),
            then_branch: clone_block(then_branch),
            else_branch: match else_branch {
                Some(eb) => Some(clone_block(eb)),
                None => None,
            },
            after: clone_pure(after),
        },
        Expr::RepeatLoop { from, do_part, body, until } => Expr::RepeatLoop {
            from: clone_pure(from),
            do_part: match do_part {
                Some(db) => Some(clone_block(db)),
                None => None,
            },
            body: clone_block(body),
            until: clone_pure(until),
        },
        Expr::Retire { name, expected } => Expr::Retire {
            name: *name,
            expected: clone_pure(expected),
        },
        Expr::Pure(pe) => Expr::Pure(clone_pure(pe)),
    }
}

/// A copy of a statement with the same image.
pub fn clone_stmt(st: &Stmt) -> (r: Stmt)
    ensures
        r@ == st@,
    decreases st,
{
    match st {
        Stmt::LocalDecl { name, init } => Stmt::LocalDecl { name: *name, init: clone_pure(init) },
        Stmt::ExprStmt(e) => Stmt::ExprStmt(clone_expr(e)),
        Stmt::NestedBlock(b) => Stmt::NestedBlock(clone_block(b)),
    }
}

/// A copy of a block with the same image.
pub fn clone_block(b: &Block) -> (r: Block)
    ensures
        r@ == b@,
    decreases b,
{
    let mut stmts: Vec<Stmt> = Vec::new();
    let mut i: usize = 0;
    while i < b.stmts.len()
        invariant
            i <= b.stmts@.len(),
            stmts@.len() == i,
            forall|k: int| 0 <= k < i ==> #[trigger] stmts@[k]@ == b.stmts@[k]@,
        decreases b.stmts@.len() - i,
    {
        stmts.push(clone_stmt(&b.stmts[i]));
        i = i + 1;
    }
    let r = Block { stmts };
    proof {
        lemma_view_stmts(stmts@);
        lemma_view_stmts(b.stmts@);
        assert forall|k: int| 0 <= k < stmts@.len() implies view_stmts(stmts@)[k] == view_stmts(
            b.stmts@,
        )[k] by {
            assert(stmts@[k]@ == b.stmts@[k]@);
        }
        assert(view_stmts(stmts@) =~= view_stmts(b.stmts@));
        assert(r@ =~= b@);
    }
    r
}

/// The size of an effectful expression, counting every node: the measure by
/// which the transformers recurse.
pub open spec fn expr_size(e: Expr) -> nat
    decreases e,
{
    match e {
        Expr::CompoundAssign { .. } => 1,
        Expr::AliasGuard { .. } => 1,
        Expr::RoutineCall { .. } => 1,
        Expr::Conditional { before: _, then_branch, else_branch, after: _ } => 1 + block_size(
            then_branch,
        ) + match else_branch {
            Some(eb) => block_size(eb),
            None => 0,
        },
        Expr::RepeatLoop { from: _, do_part, body, until: _ } => 1 + block_size(body)
            + match do_part {
            Some(db) => block_size(db),
            None => 0,
        },
        Expr::Retire { .. } => 1,
        Expr::Pure(_) => 1,
    }
}

/// The size of a statement.
pub open spec fn stmt_size(st: Stmt) -> nat
    decreases st,
{
    match st {
        Stmt::LocalDecl { .. } => 1,
        Stmt::ExprStmt(e) => 1 + expr_size(e),
        Stmt::NestedBlock(b) => 1 + block_size(b),
    }
}

/// The summed size of a statement sequence.
pub open spec fn stmts_size(ss: Seq<Stmt>) -> nat
    decreases ss,
{
    if ss.len() == 0 {
        0
    } else {
        stmts_size(ss.drop_last()) + stmt_size(ss.last())
    }
}

/// The size of a block.
pub open spec fn block_size(b: Block) -> nat
    decreases b,
{
    2 + stmts_size(b.stmts@)
}

/// No statement outweighs the sequence that holds it.
pub proof fn lemma_stmts_size_at(ss: Seq<Stmt>, j: int)
    requires
        0 <= j < ss.len(),
    ensures
        stmt_size(ss[j]) <= stmts_size(ss),
    decreases ss.len(),
{
    if j < ss.len() - 1 {
        lemma_stmts_size_at(ss.drop_last(), j);
    }
}

/// Operator closure: inversion is an involution on the invertible operators.
pub proof fn lemma_invert_involution(op: MutOp)
    ensures
        spec_invert(op) matches Some(inv) ==> spec_invert(inv) == Some(op),
{
}

} // verus!
