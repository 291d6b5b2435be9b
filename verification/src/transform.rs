//! The whole-program transformation pipeline.
//!
//! Each routine of a parsed program is consumed once by each transformer,
//! yielding a compiled routine with two callable entry points over the shared
//! parameter list. Failure of either pass on any routine aborts the whole
//! transform: no partial program is ever produced.

use vstd::prelude::*;

use crate::ast::{
    Block, CompiledProgram, CompiledRoutine, Program, Routine, TransformError, clone_block,
};
use crate::forward::{fwd_block_rel, transform_forward};
use crate::reverse::{rev_block_rel, transform_reverse};
use crate::scope::block_ok;

verus! {

/// Whether one routine passes both transformation passes.
pub open spec fn routine_ok(rt: Routine) -> bool {
    block_ok(rt.body@, false) && block_ok(rt.body@, true)
}

/// How a compiled routine relates to its source: same name, same parameter
/// list, and the two entry points are the forward and reverse images of the
/// one body.
pub open spec fn routine_rel(rt: Routine, cr: CompiledRoutine) -> bool {
    cr.name == rt.name && cr.params@ == rt.params@ && fwd_block_rel(rt.body@, cr.forward@)
        && rev_block_rel(rt.body@, cr.backward@)
}

/// Transform one routine: derive its forward and backward entry points from
/// the one written body. Succeeds if and only if the body passes both
/// passes.
pub fn transform_routine(rt: Routine) -> (r: Result<CompiledRoutine, TransformError>)
    ensures
        r is Ok <==> routine_ok(rt),
        r matches Ok(cr) ==> routine_rel(rt, cr),
{
    let Routine { name, params, body } = rt;
    let copy = clone_block(&body);
    let fwd = match transform_forward(body) {
        Ok(x) => x,
        Err(err) => {
            return Err(err);
        },
    };
    let bwd = match transform_reverse(copy) {
        Ok(x) => x,
        Err(err) => {
            return Err(err);
        },
    };
    Ok(CompiledRoutine { name, params, forward: fwd, backward: bwd })
}

/// Transform a whole program, routine by routine, surfacing the first
/// violation. Succeeds if and only if every routine passes both passes; the
/// output pairs each source routine with its two derived forms, in order.
pub fn transform_program(p: Program) -> (r: Result<CompiledProgram, TransformError>)
    ensures
        r is Ok <==> (forall|i: int|
            0 <= i < p.routines@.len() ==> routine_ok(#[trigger] p.routines@[i])),
        r matches Ok(cp) ==> cp.routines@.len() == p.routines@.len() && forall|i: int|
            0 <= i < p.routines@.len() ==> routine_rel(#[trigger] p.routines@[i], cp.routines@[i]),
{
    let ghost orig: Seq<Routine> = p.routines@;
    let Program { routines } = p;
    let mut rest = routines;
    let mut out: Vec<CompiledRoutine> = Vec::new();
    while rest.len() > 0
        invariant
            orig == p.routines@,
            rest@ =~= orig.skip(out@.len() as int),
            out@.len() <= orig.len(),
            forall|k: int| 0 <= k < out@.len() ==> routine_ok(#[trigger] orig[k]),
            forall|k: int| 0 <= k < out@.len() ==> routine_rel(#[trigger] orig[k], out@[k]),
        decreases rest@.len(),
    {
        let ghost j = out@.len() as int;
        let rt = rest.remove(0);
        proof {
            assert(orig.skip(j)[0] == orig[j]);
            assert(rt == orig[j]);
        }
        match transform_routine(rt) {
            Ok(cr) => {
                out.push(cr);
                proof {
                    assert(rest@ =~= orig.skip(out@.len() as int));
                }
            },
            Err(err) => {
                proof {
                    assert(!routine_ok(orig[j]));
                    assert(orig[j] == p.routines@[j]);
                }
                return Err(err);
            },
        }
    }
    Ok(CompiledProgram { routines: out })
}

} // verus!
