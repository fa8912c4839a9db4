//! The relations that an analysis hands out, read off the derived facts.

use crate::allocation::{Alloc, Allocations};
use crate::analysis::canonical::{
    describes_classes, is_representative, lemma_representative_unique, representative,
};
use crate::analysis::engine::distinct;
use crate::analysis::facts::{context_under, holds, Context, Fact, FactView};
use crate::analysis::rules::{derivable, Setup};
use crate::llvm::name::{FunctionId, InstructionName};
use crate::llvm::operand::Operand;
use crate::llvm::Module;
use vstd::prelude::*;

verus! {

// ----------------------------------------------------------------------
// What operands denote
/// Whether the rows say that `op` may denote `r` in `ctx`.
pub open spec fn has_points_to(
    rows: Seq<(Context, Operand, Alloc)>,
    ctx: Seq<InstructionName>,
    op: Operand,
    r: Alloc,
) -> bool {
    exists|k: int|
        0 <= k < rows.len() && (#[trigger] rows[k]).0@ == ctx && rows[k].1 == op && rows[k].2 == r
}

/// Whether `op` may denote, in `ctx`, an allocation whose representative is
/// `r`.
pub open spec fn points_to_row(
    m: Module,
    c: Setup,
    ctx: Seq<InstructionName>,
    op: Operand,
    r: Alloc,
) -> bool {
    exists|a: Alloc|
        #![trigger is_representative(m, c, a, r)]
        derivable(m, c, FactView::OperandPointsTo { ctx, operand: op, alloc: a })
            && is_representative(m, c, a, r)
}

spec fn points_to_upto(
    m: Module,
    c: Setup,
    state: Seq<Fact>,
    i: int,
    ctx: Seq<InstructionName>,
    op: Operand,
    r: Alloc,
) -> bool {
    exists|j: int, a: Alloc|
        #![trigger state[j], is_representative(m, c, a, r)]
        0 <= j < i && state[j]@ == (FactView::OperandPointsTo { ctx, operand: op, alloc: a })
            && is_representative(m, c, a, r)
}

pub proof fn lemma_push_points_to(
    rows: Seq<(Context, Operand, Alloc)>,
    row: (Context, Operand, Alloc),
    ctx: Seq<InstructionName>,
    op: Operand,
    r: Alloc,
)
    ensures
        has_points_to(rows.push(row), ctx, op, r) <==> has_points_to(rows, ctx, op, r) || (row.0@
            == ctx && row.1 == op && row.2 == r),
{
    let after = rows.push(row);
    if has_points_to(after, ctx, op, r) {
        let k = choose|k: int|
            0 <= k < after.len() && (#[trigger] after[k]).0@ == ctx && after[k].1 == op
                && after[k].2 == r;
        if k < rows.len() {
            assert(rows[k] == after[k]);
        }
    }
    if has_points_to(rows, ctx, op, r) {
        let k = choose|k: int|
            0 <= k < rows.len() && (#[trigger] rows[k]).0@ == ctx && rows[k].1 == op && rows[k].2
                == r;
        assert(after[k] == rows[k]);
    }
    assert(after[rows.len() as int] == row);
}

/// What operands may denote, each allocation replaced by the representative
/// of its class.
pub(crate) fn collect_points_to(
    state: &Vec<Fact>,
    t: &mut Allocations,
    contexts: usize,
    Ghost(m): Ghost<Module>,
    Ghost(c): Ghost<Setup>,
) -> (out:
    Vec<(Context, Operand, Alloc)>)
    requires
        describes_classes(m, c, *old(t)),
        forall|h: FactView| #![trigger holds(state@, h)] holds(state@, h) <==> derivable(m, c, h),
    ensures
        describes_classes(m, c, *final(t)),
        forall|k: int| 0 <= k < out@.len() ==> (#[trigger] out@[k]).0.k == contexts,
        forall|ctx: Seq<InstructionName>, op: Operand, r: Alloc|
            #![trigger has_points_to(out@, ctx, op, r)]
            has_points_to(out@, ctx, op, r) <==> points_to_row(m, c, ctx, op, r),
{
    let mut out: Vec<(Context, Operand, Alloc)> = Vec::new();
    let mut i: usize = 0;
    while i < state.len()
        invariant
            i <= state.len(),
            describes_classes(m, c, *t),
            forall|k: int| 0 <= k < out@.len() ==> (#[trigger] out@[k]).0.k == contexts,
            forall|h: FactView|
                #![trigger holds(state@, h)]
                holds(state@, h) <==> derivable(m, c, h),
            forall|ctx: Seq<InstructionName>, op: Operand, r: Alloc|
                #![trigger has_points_to(out@, ctx, op, r)]
                has_points_to(out@, ctx, op, r) <==> points_to_upto(
                    m,
                    c,
                    state@,
                    i as int,
                    ctx,
                    op,
                    r,
                ),
        decreases state.len() - i,
    {
        let ghost before = out@;
        if let Fact::OperandPointsTo { ctx, operand, alloc } = &state[i] {
            let rep = representative(t, *alloc, Ghost(m), Ghost(c));
            let row = (context_under(ctx, contexts), operand.clone(), rep);
            out.push(row);
            proof {
                assert forall|x: Seq<InstructionName>, op: Operand, r: Alloc|
                    #![trigger has_points_to(out@, x, op, r)]
                    has_points_to(out@, x, op, r) <==> points_to_upto(
                        m,
                        c,
                        state@,
                        i + 1,
                        x,
                        op,
                        r,
                    ) by {
                    lemma_push_points_to(before, row, x, op, r);
                    assert(has_points_to(before, x, op, r) <==> points_to_upto(
                        m,
                        c,
                        state@,
                        i as int,
                        x,
                        op,
                        r,
                    ));
                    if points_to_upto(m, c, state@, i + 1, x, op, r) {
                        let (j, a) = choose|j: int, a: Alloc|
                            #![trigger state@[j], is_representative(m, c, a, r)]
                            0 <= j < i + 1 && state@[j]@ == (FactView::OperandPointsTo {
                                ctx: x,
                                operand: op,
                                alloc: a,
                            }) && is_representative(m, c, a, r);
                        if j == i {
                            lemma_representative_unique(m, c, a, r, rep);
                        } else {
                            assert(points_to_upto(m, c, state@, i as int, x, op, r));
                        }
                    }
                    if points_to_upto(m, c, state@, i as int, x, op, r) {
                        let (j, a) = choose|j: int, a: Alloc|
                            #![trigger state@[j], is_representative(m, c, a, r)]
                            0 <= j < i && state@[j]@ == (FactView::OperandPointsTo {
                                ctx: x,
                                operand: op,
                                alloc: a,
                            }) && is_representative(m, c, a, r);
                        assert(0 <= j < i + 1 && state@[j]@ == (FactView::OperandPointsTo {
                            ctx: x,
                            operand: op,
                            alloc: a,
                        }) && is_representative(m, c, a, r));
                    }
                    if row.0@ == x && row.1 == op && row.2 == r {
                        assert(state@[i as int]@ == (FactView::OperandPointsTo {
                            ctx: x,
                            operand: op,
                            alloc: *alloc,
                        }) && is_representative(m, c, *alloc, r));
                    }
                }
            }
        } else {
            proof {
                assert forall|x: Seq<InstructionName>, op: Operand, r: Alloc|
                    #![trigger has_points_to(out@, x, op, r)]
                    has_points_to(out@, x, op, r) <==> points_to_upto(
                        m,
                        c,
                        state@,
                        i + 1,
                        x,
                        op,
                        r,
                    ) by {
                    assert(has_points_to(before, x, op, r) <==> points_to_upto(
                        m,
                        c,
                        state@,
                        i as int,
                        x,
                        op,
                        r,
                    ));
                    if points_to_upto(m, c, state@, i + 1, x, op, r) {
                        let (j, a) = choose|j: int, a: Alloc|
                            #![trigger state@[j], is_representative(m, c, a, r)]
                            0 <= j < i + 1 && state@[j]@ == (FactView::OperandPointsTo {
                                ctx: x,
                                operand: op,
                                alloc: a,
                            }) && is_representative(m, c, a, r);
                        assert(j < i);
                        assert(points_to_upto(m, c, state@, i as int, x, op, r));
                    }
                    if points_to_upto(m, c, state@, i as int, x, op, r) {
                        let (j, a) = choose|j: int, a: Alloc|
                            #![trigger state@[j], is_representative(m, c, a, r)]
                            0 <= j < i && state@[j]@ == (FactView::OperandPointsTo {
                                ctx: x,
                                operand: op,
                                alloc: a,
                            }) && is_representative(m, c, a, r);
                        assert(0 <= j < i + 1 && state@[j]@ == (FactView::OperandPointsTo {
                            ctx: x,
                            operand: op,
                            alloc: a,
                        }) && is_representative(m, c, a, r));
                    }
                }
            }
        }
        i += 1;
    }
    proof {
        assert forall|x: Seq<InstructionName>, op: Operand, r: Alloc|
            #![trigger has_points_to(out@, x, op, r)]
            has_points_to(out@, x, op, r) <==> points_to_row(m, c, x, op, r) by {
            if points_to_upto(m, c, state@, state@.len() as int, x, op, r) {
                let (j, a) = choose|j: int, a: Alloc|
                    #![trigger state@[j], is_representative(m, c, a, r)]
                    0 <= j < state@.len() && state@[j]@ == (FactView::OperandPointsTo {
                        ctx: x,
                        operand: op,
                        alloc: a,
                    }) && is_representative(m, c, a, r);
                assert(holds(state@, state@[j]@));
                assert(is_representative(m, c, a, r));
            }
            if points_to_row(m, c, x, op, r) {
                let a = choose|a: Alloc|
                    #![trigger is_representative(m, c, a, r)]
                    derivable(m, c, FactView::OperandPointsTo { ctx: x, operand: op, alloc: a })
                        && is_representative(m, c, a, r);
                let h = FactView::OperandPointsTo { ctx: x, operand: op, alloc: a };
                assert(holds(state@, h));
                let j = choose|j: int| 0 <= j < state@.len() && (#[trigger] state@[j])@ == h;
                assert(0 <= j < state@.len() && state@[j]@ == h && is_representative(m, c, a, r));
            }
        }
    }
    out
}

// ----------------------------------------------------------------------
// What allocations point to
/// Whether the rows say that `x` points to `y`.
pub open spec fn has_edge(rows: Seq<(Alloc, Alloc)>, x: Alloc, y: Alloc) -> bool {
    rows.contains((x, y))
}

/// Whether an allocation whose representative is `x` points to one whose
/// representative is `y`.
pub open spec fn edge_row(m: Module, c: Setup, x: Alloc, y: Alloc) -> bool {
    exists|a: Alloc, b: Alloc|
        #![trigger is_representative(m, c, a, x), is_representative(m, c, b, y)]
        derivable(m, c, FactView::AllocPointsTo { from: a, to: b }) && is_representative(
            m,
            c,
            a,
            x,
        ) && is_representative(m, c, b, y)
}

spec fn edge_upto(m: Module, c: Setup, state: Seq<Fact>, i: int, x: Alloc, y: Alloc) -> bool {
    exists|j: int, a: Alloc, b: Alloc|
        #![trigger state[j], is_representative(m, c, a, x), is_representative(m, c, b, y)]
        0 <= j < i && state[j]@ == (FactView::AllocPointsTo { from: a, to: b })
            && is_representative(m, c, a, x) && is_representative(m, c, b, y)
}

/// What allocations point to, each allocation replaced by the
/// representative of its class.
pub(crate) fn collect_edges(
    state: &Vec<Fact>,
    t: &mut Allocations,
    Ghost(m): Ghost<Module>,
    Ghost(c): Ghost<Setup>,
) -> (out:
    Vec<(Alloc, Alloc)>)
    requires
        describes_classes(m, c, *old(t)),
        forall|h: FactView| #![trigger holds(state@, h)] holds(state@, h) <==> derivable(m, c, h),
    ensures
        describes_classes(m, c, *final(t)),
        forall|x: Alloc, y: Alloc|
            #![trigger has_edge(out@, x, y)]
            has_edge(out@, x, y) <==> edge_row(m, c, x, y),
{
    let mut out: Vec<(Alloc, Alloc)> = Vec::new();
    let mut i: usize = 0;
    while i < state.len()
        invariant
            i <= state.len(),
            describes_classes(m, c, *t),
            forall|h: FactView|
                #![trigger holds(state@, h)]
                holds(state@, h) <==> derivable(m, c, h),
            forall|x: Alloc, y: Alloc|
                #![trigger has_edge(out@, x, y)]
                has_edge(out@, x, y) <==> edge_upto(m, c, state@, i as int, x, y),
        decreases state.len() - i,
    {
        let ghost before = out@;
        if let Fact::AllocPointsTo { from, to } = &state[i] {
            let rf = representative(t, *from, Ghost(m), Ghost(c));
            let rt = representative(t, *to, Ghost(m), Ghost(c));
            out.push((rf, rt));
            proof {
                assert forall|x: Alloc, y: Alloc| #![trigger has_edge(out@, x, y)]
                    has_edge(out@, x, y) <==> edge_upto(m, c, state@, i + 1, x, y) by {
                    crate::sequences::lemma_push_contains(before, (rf, rt), (x, y));
                    assert(has_edge(before, x, y) <==> edge_upto(m, c, state@, i as int, x, y));
                    if edge_upto(m, c, state@, i + 1, x, y) {
                        let (j, a, b) = choose|j: int, a: Alloc, b: Alloc|
                            #![trigger state@[j], is_representative(m, c, a, x), is_representative(m, c, b, y)]
                            0 <= j < i + 1 && state@[j]@ == (FactView::AllocPointsTo {
                                from: a,
                                to: b,
                            }) && is_representative(m, c, a, x) && is_representative(m, c, b, y);
                        if j == i {
                            lemma_representative_unique(m, c, a, x, rf);
                            lemma_representative_unique(m, c, b, y, rt);
                        } else {
                            assert(edge_upto(m, c, state@, i as int, x, y));
                        }
                    }
                    if edge_upto(m, c, state@, i as int, x, y) {
                        let (j, a, b) = choose|j: int, a: Alloc, b: Alloc|
                            #![trigger state@[j], is_representative(m, c, a, x), is_representative(m, c, b, y)]
                            0 <= j < i && state@[j]@ == (FactView::AllocPointsTo { from: a, to: b })
                                && is_representative(m, c, a, x) && is_representative(m, c, b, y);
                        assert(0 <= j < i + 1 && state@[j]@ == (FactView::AllocPointsTo {
                            from: a,
                            to: b,
                        }) && is_representative(m, c, a, x) && is_representative(m, c, b, y));
                    }
                    if (rf, rt) == (x, y) {
                        assert(state@[i as int]@ == (FactView::AllocPointsTo {
                            from: *from,
                            to: *to,
                        }) && is_representative(m, c, *from, x) && is_representative(
                            m,
                            c,
                            *to,
                            y,
                        ));
                    }
                }
            }
        } else {
            proof {
                assert forall|x: Alloc, y: Alloc| #![trigger has_edge(out@, x, y)]
                    has_edge(out@, x, y) <==> edge_upto(m, c, state@, i + 1, x, y) by {
                    assert(has_edge(before, x, y) <==> edge_upto(m, c, state@, i as int, x, y));
                    if edge_upto(m, c, state@, i + 1, x, y) {
                        let (j, a, b) = choose|j: int, a: Alloc, b: Alloc|
                            #![trigger state@[j], is_representative(m, c, a, x), is_representative(m, c, b, y)]
                            0 <= j < i + 1 && state@[j]@ == (FactView::AllocPointsTo {
                                from: a,
                                to: b,
                            }) && is_representative(m, c, a, x) && is_representative(m, c, b, y);
                        assert(j < i);
                        assert(edge_upto(m, c, state@, i as int, x, y));
                    }
                    if edge_upto(m, c, state@, i as int, x, y) {
                        let (j, a, b) = choose|j: int, a: Alloc, b: Alloc|
                            #![trigger state@[j], is_representative(m, c, a, x), is_representative(m, c, b, y)]
                            0 <= j < i && state@[j]@ == (FactView::AllocPointsTo { from: a, to: b })
                                && is_representative(m, c, a, x) && is_representative(m, c, b, y);
                        assert(0 <= j < i + 1 && state@[j]@ == (FactView::AllocPointsTo {
                            from: a,
                            to: b,
                        }) && is_representative(m, c, a, x) && is_representative(m, c, b, y));
                    }
                }
            }
        }
        i += 1;
    }
    proof {
        assert forall|x: Alloc, y: Alloc| #![trigger has_edge(out@, x, y)]
            has_edge(out@, x, y) <==> edge_row(m, c, x, y) by {
            if edge_upto(m, c, state@, state@.len() as int, x, y) {
                let (j, a, b) = choose|j: int, a: Alloc, b: Alloc|
                    #![trigger state@[j], is_representative(m, c, a, x), is_representative(m, c, b, y)]
                    0 <= j < state@.len() && state@[j]@ == (FactView::AllocPointsTo {
                        from: a,
                        to: b,
                    }) && is_representative(m, c, a, x) && is_representative(m, c, b, y);
                assert(holds(state@, state@[j]@));
                assert(is_representative(m, c, a, x) && is_representative(m, c, b, y));
            }
            if edge_row(m, c, x, y) {
                let (a, b) = choose|a: Alloc, b: Alloc|
                    #![trigger is_representative(m, c, a, x), is_representative(m, c, b, y)]
                    derivable(m, c, FactView::AllocPointsTo { from: a, to: b })
                        && is_representative(m, c, a, x) && is_representative(m, c, b, y);
                let h = FactView::AllocPointsTo { from: a, to: b };
                assert(holds(state@, h));
                let j = choose|j: int| 0 <= j < state@.len() && (#[trigger] state@[j])@ == h;
                assert(0 <= j < state@.len() && state@[j]@ == h && is_representative(m, c, a, x)
                    && is_representative(m, c, b, y));
            }
        }
    }
    out
}

// ----------------------------------------------------------------------
// Functions
/// The relations that have one row per function.
#[derive(Clone, Copy, Debug, PartialEq, Eq, Structural)]
pub enum Listed {
    Reachable,
    NeedsSignature,
}

/// The function that the fact puts into the relation, if any.
pub open spec fn listed_function(h: FactView, which: Listed) -> Option<FunctionId> {
    match (h, which) {
        (FactView::Reachable { ctx, function }, Listed::Reachable) => Some(function),
        (FactView::NeedsSignature { function }, Listed::NeedsSignature) => Some(function),
        _ => None,
    }
}

/// Whether a derivable fact puts the function into the relation.
pub open spec fn function_row(m: Module, c: Setup, which: Listed, f: FunctionId) -> bool {
    exists|h: FactView|
        #![trigger listed_function(h, which)]
        derivable(m, c, h) && listed_function(h, which) == Some(f)
}

fn listed_function_of(fact: &Fact, which: Listed) -> (r: Option<FunctionId>)
    ensures
        r == listed_function(fact@, which),
{
    match (fact, which) {
        (Fact::Reachable { ctx, function }, Listed::Reachable) => Some(*function),
        (Fact::NeedsSignature { function }, Listed::NeedsSignature) => Some(*function),
        _ => None,
    }
}

/// The functions of a relation that has one row per function.
pub(crate) fn collect_functions(
    state: &Vec<Fact>,
    which: Listed,
    Ghost(m): Ghost<Module>,
    Ghost(c): Ghost<Setup>,
) -> (out: Vec<FunctionId>)
    requires
        forall|h: FactView| #![trigger holds(state@, h)] holds(state@, h) <==> derivable(m, c, h),
    ensures
        forall|f: FunctionId|
            #![trigger out@.contains(f)]
            out@.contains(f) <==> function_row(m, c, which, f),
{
    let mut out: Vec<FunctionId> = Vec::new();
    let mut i: usize = 0;
    while i < state.len()
        invariant
            i <= state.len(),
            forall|f: FunctionId|
                #![trigger out@.contains(f)]
                out@.contains(f) <==> exists|j: int|
                    0 <= j < i && listed_function((#[trigger] state@[j])@, which) == Some(f),
        decreases state.len() - i,
    {
        let ghost before = out@;
        match listed_function_of(&state[i], which) {
            Some(g) => {
                out.push(g);
                proof {
                    assert forall|f: FunctionId| #![trigger out@.contains(f)]
                        out@.contains(f) <==> exists|j: int|
                            0 <= j < i + 1 && listed_function((#[trigger] state@[j])@, which)
                                == Some(f) by {
                        crate::sequences::lemma_push_contains(before, g, f);
                        assert(before.contains(f) <==> exists|j: int|
                            0 <= j < i && listed_function((#[trigger] state@[j])@, which) == Some(
                                f,
                            ));
                        if f == g {
                            assert(listed_function(state@[i as int]@, which) == Some(f));
                        }
                    }
                }
            },
            None => {
                proof {
                    assert forall|f: FunctionId| #![trigger out@.contains(f)]
                        out@.contains(f) <==> exists|j: int|
                            0 <= j < i + 1 && listed_function((#[trigger] state@[j])@, which)
                                == Some(f) by {
                        assert(before.contains(f) <==> exists|j: int|
                            0 <= j < i && listed_function((#[trigger] state@[j])@, which) == Some(
                                f,
                            ));
                    }
                }
            },
        }
        i += 1;
    }
    proof {
        assert forall|f: FunctionId| #![trigger out@.contains(f)]
            out@.contains(f) <==> function_row(m, c, which, f) by {
            if function_row(m, c, which, f) {
                let h = choose|h: FactView|
                    #![trigger listed_function(h, which)]
                    derivable(m, c, h) && listed_function(h, which) == Some(f);
                assert(holds(state@, h));
                let j = choose|j: int| 0 <= j < state@.len() && (#[trigger] state@[j])@ == h;
                assert(listed_function(state@[j]@, which) == Some(f));
            }
            if exists|j: int|
                0 <= j < state@.len() && listed_function((#[trigger] state@[j])@, which) == Some(
                    f,
                ) {
                let j = choose|j: int|
                    0 <= j < state@.len() && listed_function((#[trigger] state@[j])@, which)
                        == Some(f);
                assert(holds(state@, state@[j]@));
                assert(listed_function(state@[j]@, which) == Some(f));
            }
        }
    }
    out
}

// ----------------------------------------------------------------------
// Calls
/// Whether the rows say that the call at `s` in `ctx` calls `f`.
pub open spec fn has_call(
    rows: Seq<(Context, InstructionName, FunctionId)>,
    ctx: Seq<InstructionName>,
    s: InstructionName,
    f: FunctionId,
) -> bool {
    exists|k: int|
        0 <= k < rows.len() && (#[trigger] rows[k]).0@ == ctx && rows[k].1 == s && rows[k].2 == f
}

/// Whether the call at `s` in `ctx` calls `f`.
pub open spec fn call_row(
    m: Module,
    c: Setup,
    ctx: Seq<InstructionName>,
    s: InstructionName,
    f: FunctionId,
) -> bool {
    exists|callee_ctx: Seq<InstructionName>| #[trigger]
        derivable(m, c, (FactView::Calls { ctx, site: s, callee: f, callee_ctx }))
}

spec fn call_upto(
    state: Seq<Fact>,
    i: int,
    ctx: Seq<InstructionName>,
    s: InstructionName,
    f: FunctionId,
) -> bool {
    exists|j: int|
        0 <= j < i && match (#[trigger] state[j])@ {
            FactView::Calls { ctx: x, site, callee, callee_ctx } => x == ctx && site == s
                && callee == f,
            _ => false,
        }
}

pub proof fn lemma_push_call(
    rows: Seq<(Context, InstructionName, FunctionId)>,
    row: (Context, InstructionName, FunctionId),
    ctx: Seq<InstructionName>,
    s: InstructionName,
    f: FunctionId,
)
    ensures
        has_call(rows.push(row), ctx, s, f) <==> has_call(rows, ctx, s, f) || (row.0@ == ctx
            && row.1 == s && row.2 == f),
{
    let after = rows.push(row);
    if has_call(after, ctx, s, f) {
        let k = choose|k: int|
            0 <= k < after.len() && (#[trigger] after[k]).0@ == ctx && after[k].1 == s
                && after[k].2 == f;
        if k < rows.len() {
            assert(rows[k] == after[k]);
        }
    }
    if has_call(rows, ctx, s, f) {
        let k = choose|k: int|
            0 <= k < rows.len() && (#[trigger] rows[k]).0@ == ctx && rows[k].1 == s && rows[k].2
                == f;
        assert(after[k] == rows[k]);
    }
    assert(after[rows.len() as int] == row);
}

/// The resolved calls: context, call site and callee.
pub(crate) fn collect_calls(
    state: &Vec<Fact>,
    contexts: usize,
    Ghost(m): Ghost<Module>,
    Ghost(c): Ghost<Setup>,
) -> (out: Vec<(Context, InstructionName, FunctionId)>)
    requires
        forall|h: FactView| #![trigger holds(state@, h)] holds(state@, h) <==> derivable(m, c, h),
    ensures
        forall|k: int| 0 <= k < out@.len() ==> (#[trigger] out@[k]).0.k == contexts,
        forall|ctx: Seq<InstructionName>, s: InstructionName, f: FunctionId|
            #![trigger has_call(out@, ctx, s, f)]
            has_call(out@, ctx, s, f) <==> call_row(m, c, ctx, s, f),
{
    let mut out: Vec<(Context, InstructionName, FunctionId)> = Vec::new();
    let mut i: usize = 0;
    while i < state.len()
        invariant
            i <= state.len(),
            forall|k: int| 0 <= k < out@.len() ==> (#[trigger] out@[k]).0.k == contexts,
            forall|ctx: Seq<InstructionName>, s: InstructionName, f: FunctionId|
                #![trigger has_call(out@, ctx, s, f)]
                has_call(out@, ctx, s, f) <==> call_upto(state@, i as int, ctx, s, f),
        decreases state.len() - i,
    {
        let ghost before = out@;
        if let Fact::Calls { ctx, site, callee, callee_ctx } = &state[i] {
            let row = (context_under(ctx, contexts), *site, *callee);
            out.push(row);
            proof {
                assert forall|x: Seq<InstructionName>, s: InstructionName, f: FunctionId|
                    #![trigger has_call(out@, x, s, f)]
                    has_call(out@, x, s, f) <==> call_upto(state@, i + 1, x, s, f) by {
                    lemma_push_call(before, row, x, s, f);
                    assert(has_call(before, x, s, f) <==> call_upto(state@, i as int, x, s, f));
                    lemma_call_upto_step(state@, i as int, x, s, f);
                }
            }
        } else {
            proof {
                assert forall|x: Seq<InstructionName>, s: InstructionName, f: FunctionId|
                    #![trigger has_call(out@, x, s, f)]
                    has_call(out@, x, s, f) <==> call_upto(state@, i + 1, x, s, f) by {
                    assert(has_call(before, x, s, f) <==> call_upto(state@, i as int, x, s, f));
                    lemma_call_upto_step(state@, i as int, x, s, f);
                }
            }
        }
        i += 1;
    }
    proof {
        assert forall|x: Seq<InstructionName>, s: InstructionName, f: FunctionId|
            #![trigger has_call(out@, x, s, f)]
            has_call(out@, x, s, f) <==> call_row(m, c, x, s, f) by {
            if call_upto(state@, state@.len() as int, x, s, f) {
                let j = choose|j: int|
                    0 <= j < state@.len() && match (#[trigger] state@[j])@ {
                        FactView::Calls { ctx: y, site, callee, callee_ctx } => y == x && site == s
                            && callee == f,
                        _ => false,
                    };
                assert(holds(state@, state@[j]@));
                let cc = state@[j]@->Calls_callee_ctx;
                assert(derivable(m, c, FactView::Calls { ctx: x, site: s, callee: f, callee_ctx: cc }));
            }
            if call_row(m, c, x, s, f) {
                let cc = choose|cc: Seq<InstructionName>| #[trigger]
                    derivable(
                        m,
                        c,
                        (FactView::Calls { ctx: x, site: s, callee: f, callee_ctx: cc }),
                    );
                let h = FactView::Calls { ctx: x, site: s, callee: f, callee_ctx: cc };
                assert(holds(state@, h));
                let j = choose|j: int| 0 <= j < state@.len() && (#[trigger] state@[j])@ == h;
                assert(match state@[j]@ {
                    FactView::Calls { ctx: y, site, callee, callee_ctx } => y == x && site == s
                        && callee == f,
                    _ => false,
                });
            }
        }
    }
    out
}

proof fn lemma_call_upto_step(
    state: Seq<Fact>,
    i: int,
    ctx: Seq<InstructionName>,
    s: InstructionName,
    f: FunctionId,
)
    requires
        0 <= i < state.len(),
    ensures
        call_upto(state, i + 1, ctx, s, f) <==> call_upto(state, i, ctx, s, f) || match state[i]@ {
            FactView::Calls { ctx: x, site, callee, callee_ctx } => x == ctx && site == s && callee
                == f,
            _ => false,
        },
{
    if call_upto(state, i + 1, ctx, s, f) {
        let j = choose|j: int|
            0 <= j < i + 1 && match (#[trigger] state[j])@ {
                FactView::Calls { ctx: x, site, callee, callee_ctx } => x == ctx && site == s
                    && callee == f,
                _ => false,
            };
        if j < i {
            assert(call_upto(state, i, ctx, s, f));
        }
    }
    if call_upto(state, i, ctx, s, f) {
        let j = choose|j: int|
            0 <= j < i && match (#[trigger] state[j])@ {
                FactView::Calls { ctx: x, site, callee, callee_ctx } => x == ctx && site == s
                    && callee == f,
                _ => false,
            };
        assert(0 <= j < i + 1);
    }
    if (match state[i]@ {
        FactView::Calls { ctx: x, site, callee, callee_ctx } => x == ctx && site == s && callee
            == f,
        _ => false,
    }) {
        assert(0 <= i < i + 1);
    }
}

// ----------------------------------------------------------------------
// Counts
/// The kinds of facts that the precision metrics count.
#[derive(Clone, Copy, Debug, PartialEq, Eq, Structural)]
pub enum Counted {
    Callgraph,
    FreeNonHeap,
    InvalidCall,
    InvalidLoad,
    InvalidMemcpyDst,
    InvalidMemcpySrc,
    InvalidStore,
    PointsToTop,
    ValueTop,
}

/// Whether the fact is of the kind.
pub open spec fn counts_as(h: FactView, k: Counted) -> bool {
    match k {
        Counted::Callgraph => h is Callgraph,
        Counted::FreeNonHeap => h is FreeNonHeap,
        Counted::InvalidCall => h is InvalidCall,
        Counted::InvalidLoad => h is InvalidLoad,
        Counted::InvalidMemcpyDst => h is InvalidMemcpyDst,
        Counted::InvalidMemcpySrc => h is InvalidMemcpySrc,
        Counted::InvalidStore => h is InvalidStore,
        Counted::PointsToTop => h is PointsToTop,
        Counted::ValueTop => h is ValueTop,
    }
}

/// Whether `n` is the number of derivable facts of the kind: a list
/// without repetition of exactly these facts has the length `n`.
pub open spec fn is_count(m: Module, c: Setup, k: Counted, n: nat) -> bool {
    exists|w: Seq<FactView>|
        #![trigger w.no_duplicates()]
        w.no_duplicates() && w.len() == n && forall|h: FactView|
            #![trigger w.contains(h)]
            w.contains(h) <==> derivable(m, c, h) && counts_as(h, k)
}

fn counts_as_of(fact: &Fact, k: Counted) -> (r: bool)
    ensures
        r == counts_as(fact@, k),
{
    match (fact, k) {
        (Fact::Callgraph { .. }, Counted::Callgraph) => true,
        (Fact::FreeNonHeap { .. }, Counted::FreeNonHeap) => true,
        (Fact::InvalidCall { .. }, Counted::InvalidCall) => true,
        (Fact::InvalidLoad { .. }, Counted::InvalidLoad) => true,
        (Fact::InvalidMemcpyDst { .. }, Counted::InvalidMemcpyDst) => true,
        (Fact::InvalidMemcpySrc { .. }, Counted::InvalidMemcpySrc) => true,
        (Fact::InvalidStore { .. }, Counted::InvalidStore) => true,
        (Fact::PointsToTop { .. }, Counted::PointsToTop) => true,
        (Fact::ValueTop { .. }, Counted::ValueTop) => true,
        _ => false,
    }
}

/// The number of derived facts of the kind.
pub(crate) fn count(state: &Vec<Fact>, k: Counted, Ghost(m): Ghost<Module>, Ghost(c): Ghost<Setup>) -> (n:
    usize)
    requires
        distinct(state@),
        forall|h: FactView| #![trigger holds(state@, h)] holds(state@, h) <==> derivable(m, c, h),
    ensures
        is_count(m, c, k, n as nat),
{
    let mut n: usize = 0;
    let ghost mut w: Seq<FactView> = Seq::empty();
    let mut i: usize = 0;
    while i < state.len()
        invariant
            i <= state.len(),
            n <= i,
            distinct(state@),
            w.no_duplicates(),
            w.len() == n,
            forall|h: FactView|
                #![trigger w.contains(h)]
                w.contains(h) <==> counts_as(h, k) && exists|j: int|
                    0 <= j < i && (#[trigger] state@[j])@ == h,
        decreases state.len() - i,
    {
        if counts_as_of(&state[i], k) {
            proof {
                let x = state@[i as int]@;
                let before = w;
                if before.contains(x) {
                    let j = choose|j: int| 0 <= j < i && (#[trigger] state@[j])@ == x;
                    assert(state@[j]@ != state@[i as int]@);
                }
                w = before.push(x);
                assert forall|p: int, q: int| 0 <= p < q < w.len() implies w[p] != w[q] by {
                    if q == before.len() {
                        assert(before.contains(before[p]));
                    }
                }
                assert forall|h: FactView| #![trigger w.contains(h)]
                    w.contains(h) <==> counts_as(h, k) && exists|j: int|
                        0 <= j < i + 1 && (#[trigger] state@[j])@ == h by {
                    crate::sequences::lemma_push_contains(before, x, h);
                    assert(before.contains(h) <==> counts_as(h, k) && exists|j: int|
                        0 <= j < i && (#[trigger] state@[j])@ == h);
                    if h == x {
                        assert(state@[i as int]@ == h);
                    }
                }
            }
            n += 1;
        } else {
            proof {
                assert forall|h: FactView| #![trigger w.contains(h)]
                    w.contains(h) <==> counts_as(h, k) && exists|j: int|
                        0 <= j < i + 1 && (#[trigger] state@[j])@ == h by {
                    assert(w.contains(h) <==> counts_as(h, k) && exists|j: int|
                        0 <= j < i && (#[trigger] state@[j])@ == h);
                    if counts_as(h, k) && exists|j: int|
                        0 <= j < i + 1 && (#[trigger] state@[j])@ == h {
                        let j = choose|j: int| 0 <= j < i + 1 && (#[trigger] state@[j])@ == h;
                        assert(j < i);
                    }
                }
            }
        }
        i += 1;
    }
    proof {
        assert forall|h: FactView| #![trigger w.contains(h)]
            w.contains(h) <==> derivable(m, c, h) && counts_as(h, k) by {
            assert(holds(state@, h) <==> derivable(m, c, h));
        }
        assert(w.no_duplicates());
    }
    n
}

} // verus!
