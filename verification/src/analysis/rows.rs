//! Relations as lists that hold each row once.

use crate::allocation::Alloc;
use crate::analysis::facts::{context_under, same_context, Context};
use crate::analysis::output::{has_call, has_points_to, lemma_push_call, lemma_push_points_to};
use crate::llvm::name::{FunctionId, InstructionName};
use crate::llvm::operand::Operand;
use crate::sequences::lemma_push_contains;
use vstd::prelude::*;

verus! {

/// Whether no two rows say the same of one operand in one context.
pub open spec fn points_to_once(rows: Seq<(Context, Operand, Alloc)>) -> bool {
    forall|p: int, q: int|
        0 <= p < q < rows.len() ==> !((#[trigger] rows[p]).0@ == (#[trigger] rows[q]).0@ && rows[p].1
            == rows[q].1 && rows[p].2 == rows[q].2)
}

/// Whether no two rows name the same call: context, call site and callee.
pub open spec fn calls_once(rows: Seq<(Context, InstructionName, FunctionId)>) -> bool {
    forall|p: int, q: int|
        0 <= p < q < rows.len() ==> !((#[trigger] rows[p]).0@ == (#[trigger] rows[q]).0@ && rows[p].1
            == rows[q].1 && rows[p].2 == rows[q].2)
}

/// Whether the rows say that `op` may denote `r` in `ctx`.
pub fn says_points_to(rows: &Vec<(Context, Operand, Alloc)>, ctx: &Context, op: &Operand, r: Alloc) -> (b:
    bool)
    ensures
        b == has_points_to(rows@, ctx@, *op, r),
{
    let mut k: usize = 0;
    while k < rows.len()
        invariant
            k <= rows.len(),
            forall|j: int|
                0 <= j < k ==> !((#[trigger] rows@[j]).0@ == ctx@ && rows@[j].1 == *op && rows@[j].2
                    == r),
        decreases rows.len() - k,
    {
        if same_context(&rows[k].0, ctx) && rows[k].1.equals(op) && rows[k].2 == r {
            assert(rows@[k as int].0@ == ctx@ && rows@[k as int].1 == *op && rows@[k as int].2 == r);
            return true;
        }
        k += 1;
    }
    false
}

/// Whether the rows say that the call at `s` in `ctx` calls `f`.
pub fn says_call(
    rows: &Vec<(Context, InstructionName, FunctionId)>,
    ctx: &Context,
    s: InstructionName,
    f: FunctionId,
) -> (b: bool)
    ensures
        b == has_call(rows@, ctx@, s, f),
{
    let mut k: usize = 0;
    while k < rows.len()
        invariant
            k <= rows.len(),
            forall|j: int|
                0 <= j < k ==> !((#[trigger] rows@[j]).0@ == ctx@ && rows@[j].1 == s && rows@[j].2
                    == f),
        decreases rows.len() - k,
    {
        if same_context(&rows[k].0, ctx) && rows[k].1 == s && rows[k].2 == f {
            assert(rows@[k as int].0@ == ctx@ && rows@[k as int].1 == s && rows@[k as int].2 == f);
            return true;
        }
        k += 1;
    }
    false
}

/// The rows, each once: a row that says what an earlier one says is left
/// out. The contexts keep their limit `contexts`.
pub fn points_to_rows_once(rows: &Vec<(Context, Operand, Alloc)>, contexts: usize) -> (out: Vec<
    (Context, Operand, Alloc),
>)
    ensures
        points_to_once(out@),
        forall|ctx: Seq<InstructionName>, op: Operand, r: Alloc|
            #![trigger has_points_to(out@, ctx, op, r)]
            has_points_to(out@, ctx, op, r) <==> has_points_to(rows@, ctx, op, r),
        forall|k: int| 0 <= k < out@.len() ==> (#[trigger] out@[k]).0.k == contexts,
{
    let mut out: Vec<(Context, Operand, Alloc)> = Vec::new();
    let mut i: usize = 0;
    assert(rows@.take(0) =~= Seq::<(Context, Operand, Alloc)>::empty());
    while i < rows.len()
        invariant
            i <= rows.len(),
            points_to_once(out@),
            forall|k: int| 0 <= k < out@.len() ==> (#[trigger] out@[k]).0.k == contexts,
            forall|ctx: Seq<InstructionName>, op: Operand, r: Alloc|
                #![trigger has_points_to(out@, ctx, op, r)]
                has_points_to(out@, ctx, op, r) <==> has_points_to(rows@.take(i as int), ctx, op, r),
        decreases rows.len() - i,
    {
        let ghost before = out@;
        let ghost seen = rows@.take(i as int);
        proof {
            assert(rows@.take(i + 1) =~= seen.push(rows@[i as int]));
        }
        if !says_points_to(&out, &rows[i].0, &rows[i].1, rows[i].2) {
            let row = (context_under(&rows[i].0, contexts), rows[i].1.clone(), rows[i].2);
            out.push(row);
            proof {
                assert forall|p: int, q: int| 0 <= p < q < out@.len() implies !((
                #[trigger] out@[p]).0@ == (#[trigger] out@[q]).0@ && out@[p].1 == out@[q].1
                    && out@[p].2 == out@[q].2) by {
                    if q == before.len() {
                        assert(before[p] == out@[p]);
                        if out@[p].0@ == row.0@ && out@[p].1 == row.1 && out@[p].2 == row.2 {
                            assert(has_points_to(before, row.0@, row.1, row.2));
                        }
                    } else {
                        assert(before[p] == out@[p] && before[q] == out@[q]);
                    }
                }
                assert forall|ctx: Seq<InstructionName>, op: Operand, r: Alloc|
                    #![trigger has_points_to(out@, ctx, op, r)]
                    has_points_to(out@, ctx, op, r) <==> has_points_to(
                        rows@.take(i + 1),
                        ctx,
                        op,
                        r,
                    ) by {
                    lemma_push_points_to(before, row, ctx, op, r);
                    lemma_push_points_to(seen, rows@[i as int], ctx, op, r);
                    assert(has_points_to(before, ctx, op, r) <==> has_points_to(seen, ctx, op, r));
                }
            }
        } else {
            proof {
                assert forall|ctx: Seq<InstructionName>, op: Operand, r: Alloc|
                    #![trigger has_points_to(out@, ctx, op, r)]
                    has_points_to(out@, ctx, op, r) <==> has_points_to(
                        rows@.take(i + 1),
                        ctx,
                        op,
                        r,
                    ) by {
                    lemma_push_points_to(seen, rows@[i as int], ctx, op, r);
                    assert(has_points_to(before, ctx, op, r) <==> has_points_to(seen, ctx, op, r));
                }
            }
        }
        i += 1;
    }
    assert(rows@.take(i as int) =~= rows@);
    out
}

/// The rows, each once: a row that names the call of an earlier one is left
/// out. The contexts keep their limit `contexts`.
pub fn call_rows_once(rows: &Vec<(Context, InstructionName, FunctionId)>, contexts: usize) -> (out:
    Vec<(Context, InstructionName, FunctionId)>)
    ensures
        calls_once(out@),
        forall|ctx: Seq<InstructionName>, s: InstructionName, f: FunctionId|
            #![trigger has_call(out@, ctx, s, f)]
            has_call(out@, ctx, s, f) <==> has_call(rows@, ctx, s, f),
        forall|k: int| 0 <= k < out@.len() ==> (#[trigger] out@[k]).0.k == contexts,
{
    let mut out: Vec<(Context, InstructionName, FunctionId)> = Vec::new();
    let mut i: usize = 0;
    assert(rows@.take(0) =~= Seq::<(Context, InstructionName, FunctionId)>::empty());
    while i < rows.len()
        invariant
            i <= rows.len(),
            calls_once(out@),
            forall|k: int| 0 <= k < out@.len() ==> (#[trigger] out@[k]).0.k == contexts,
            forall|ctx: Seq<InstructionName>, s: InstructionName, f: FunctionId|
                #![trigger has_call(out@, ctx, s, f)]
                has_call(out@, ctx, s, f) <==> has_call(rows@.take(i as int), ctx, s, f),
        decreases rows.len() - i,
    {
        let ghost before = out@;
        let ghost seen = rows@.take(i as int);
        proof {
            assert(rows@.take(i + 1) =~= seen.push(rows@[i as int]));
        }
        if !says_call(&out, &rows[i].0, rows[i].1, rows[i].2) {
            let row = (context_under(&rows[i].0, contexts), rows[i].1, rows[i].2);
            out.push(row);
            proof {
                assert forall|p: int, q: int| 0 <= p < q < out@.len() implies !((
                #[trigger] out@[p]).0@ == (#[trigger] out@[q]).0@ && out@[p].1 == out@[q].1
                    && out@[p].2 == out@[q].2) by {
                    if q == before.len() {
                        assert(before[p] == out@[p]);
                        if out@[p].0@ == row.0@ && out@[p].1 == row.1 && out@[p].2 == row.2 {
                            assert(has_call(before, row.0@, row.1, row.2));
                        }
                    } else {
                        assert(before[p] == out@[p] && before[q] == out@[q]);
                    }
                }
                assert forall|ctx: Seq<InstructionName>, s: InstructionName, f: FunctionId|
                    #![trigger has_call(out@, ctx, s, f)]
                    has_call(out@, ctx, s, f) <==> has_call(rows@.take(i + 1), ctx, s, f) by {
                    lemma_push_call(before, row, ctx, s, f);
                    lemma_push_call(seen, rows@[i as int], ctx, s, f);
                    assert(has_call(before, ctx, s, f) <==> has_call(seen, ctx, s, f));
                }
            }
        } else {
            proof {
                assert forall|ctx: Seq<InstructionName>, s: InstructionName, f: FunctionId|
                    #![trigger has_call(out@, ctx, s, f)]
                    has_call(out@, ctx, s, f) <==> has_call(rows@.take(i + 1), ctx, s, f) by {
                    lemma_push_call(seen, rows@[i as int], ctx, s, f);
                    assert(has_call(before, ctx, s, f) <==> has_call(seen, ctx, s, f));
                }
            }
        }
        i += 1;
    }
    assert(rows@.take(i as int) =~= rows@);
    out
}

/// Whether the list holds the pair.
pub fn holds_edge(rows: &Vec<(Alloc, Alloc)>, x: Alloc, y: Alloc) -> (b: bool)
    ensures
        b == rows@.contains((x, y)),
{
    let mut k: usize = 0;
    while k < rows.len()
        invariant
            k <= rows.len(),
            forall|j: int| 0 <= j < k ==> rows@[j] != (x, y),
        decreases rows.len() - k,
    {
        if rows[k].0 == x && rows[k].1 == y {
            assert(rows@[k as int] == (x, y));
            return true;
        }
        k += 1;
    }
    false
}

/// The pairs, each once.
pub fn edges_once(rows: &Vec<(Alloc, Alloc)>) -> (out: Vec<(Alloc, Alloc)>)
    ensures
        out@.no_duplicates(),
        forall|e: (Alloc, Alloc)| #![trigger out@.contains(e)] out@.contains(e) <==> rows@.contains(e),
{
    let mut out: Vec<(Alloc, Alloc)> = Vec::new();
    let mut i: usize = 0;
    assert(rows@.take(0) =~= Seq::<(Alloc, Alloc)>::empty());
    while i < rows.len()
        invariant
            i <= rows.len(),
            out@.no_duplicates(),
            forall|e: (Alloc, Alloc)|
                #![trigger out@.contains(e)]
                out@.contains(e) <==> rows@.take(i as int).contains(e),
        decreases rows.len() - i,
    {
        let ghost before = out@;
        let ghost seen = rows@.take(i as int);
        let row = rows[i];
        proof {
            assert(rows@.take(i + 1) =~= seen.push(row));
        }
        if !holds_edge(&out, row.0, row.1) {
            out.push(row);
            proof {
                assert forall|e: (Alloc, Alloc)| #![trigger out@.contains(e)]
                    out@.contains(e) <==> rows@.take(i + 1).contains(e) by {
                    lemma_push_contains(before, row, e);
                    lemma_push_contains(seen, row, e);
                    assert(before.contains(e) <==> seen.contains(e));
                }
                assert forall|p: int, q: int| 0 <= p < q < out@.len() implies out@[p] != out@[q] by {
                    if q == before.len() {
                        assert(before[p] == out@[p]);
                        assert(before.contains(before[p]));
                    } else {
                        assert(before[p] == out@[p] && before[q] == out@[q]);
                    }
                }
            }
        } else {
            proof {
                assert forall|e: (Alloc, Alloc)| #![trigger out@.contains(e)]
                    out@.contains(e) <==> rows@.take(i + 1).contains(e) by {
                    lemma_push_contains(seen, row, e);
                    assert(before.contains(e) <==> seen.contains(e));
                }
            }
        }
        i += 1;
    }
    assert(rows@.take(i as int) =~= rows@);
    out
}

/// Whether the list holds the function.
pub fn holds_function(rows: &Vec<FunctionId>, f: FunctionId) -> (b: bool)
    ensures
        b == rows@.contains(f),
{
    let mut k: usize = 0;
    while k < rows.len()
        invariant
            k <= rows.len(),
            forall|j: int| 0 <= j < k ==> rows@[j] != f,
        decreases rows.len() - k,
    {
        if rows[k] == f {
            return true;
        }
        k += 1;
    }
    false
}

/// The functions, each once.
pub fn functions_once(rows: &Vec<FunctionId>) -> (out: Vec<FunctionId>)
    ensures
        out@.no_duplicates(),
        forall|f: FunctionId| #![trigger out@.contains(f)] out@.contains(f) <==> rows@.contains(f),
{
    let mut out: Vec<FunctionId> = Vec::new();
    let mut i: usize = 0;
    assert(rows@.take(0) =~= Seq::<FunctionId>::empty());
    while i < rows.len()
        invariant
            i <= rows.len(),
            out@.no_duplicates(),
            forall|f: FunctionId|
                #![trigger out@.contains(f)]
                out@.contains(f) <==> rows@.take(i as int).contains(f),
        decreases rows.len() - i,
    {
        let ghost before = out@;
        let ghost seen = rows@.take(i as int);
        let row = rows[i];
        proof {
            assert(rows@.take(i + 1) =~= seen.push(row));
        }
        if !holds_function(&out, row) {
            out.push(row);
            proof {
                assert forall|f: FunctionId| #![trigger out@.contains(f)]
                    out@.contains(f) <==> rows@.take(i + 1).contains(f) by {
                    lemma_push_contains(before, row, f);
                    lemma_push_contains(seen, row, f);
                    assert(before.contains(f) <==> seen.contains(f));
                }
                assert forall|p: int, q: int| 0 <= p < q < out@.len() implies out@[p] != out@[q] by {
                    if q == before.len() {
                        assert(before[p] == out@[p]);
                        assert(before.contains(before[p]));
                    } else {
                        assert(before[p] == out@[p] && before[q] == out@[q]);
                    }
                }
            }
        } else {
            proof {
                assert forall|f: FunctionId| #![trigger out@.contains(f)]
                    out@.contains(f) <==> rows@.take(i + 1).contains(f) by {
                    lemma_push_contains(seen, row, f);
                    assert(before.contains(f) <==> seen.contains(f));
                }
            }
        }
        i += 1;
    }
    assert(rows@.take(i as int) =~= rows@);
    out
}

} // verus!
