//! Integer analysis: the constant values of integer operands.

use crate::analysis::checks::{AssertionFailure, FailureKind};
use crate::analysis::emit::result_of;
use crate::analysis::engine::{lists_sites, saturate};
use crate::analysis::facts::{clone_context, holds, same_context, Context, Fact, FactView};
use crate::analysis::output::{count, is_count, Counted};
use crate::analysis::rules::{derivable, Setup};
use crate::lattice::{below, lemma_below_order, lemma_join_least, IntLattice};
use crate::llvm::name::{FunctionId, InstructionName};
use crate::llvm::operand::Operand;
use crate::llvm::Module;
use vstd::prelude::*;

verus! {

/// Metrics about the precision of the analysis.
#[derive(Clone, Copy, Debug, PartialEq, Eq, Structural)]
pub struct Metrics {
    /// Number of operands of whose value, in some context, nothing is
    /// known: it has the value top there, or two different values.
    pub tops: usize,
}

/// The result of the analysis: for each context and operand that has a
/// value, the join of its values.
#[derive(Debug)]
pub struct IntRelations {
    pub operand_val: Vec<(Context, Operand, IntLattice)>,
    pub metrics: Option<Metrics>,
}

// ----------------------------------------------------------------------
// Values
/// Whether the operand may have the value `x` in `ctx`.
pub open spec fn valued(
    m: Module,
    c: Setup,
    ctx: Seq<InstructionName>,
    op: Operand,
    x: IntLattice,
) -> bool {
    derivable(m, c, FactView::OperandValue { ctx, operand: op, value: x })
}

/// Whether every value of the operand in `ctx` lies below `u`.
pub open spec fn bounds(
    m: Module,
    c: Setup,
    ctx: Seq<InstructionName>,
    op: Operand,
    u: IntLattice,
) -> bool {
    forall|x: IntLattice| #[trigger] valued(m, c, ctx, op, x) ==> below(x, u)
}

/// Whether `v` is the join of the values of the operand in `ctx`, of which
/// there is one at least: the least value that all of them lie below.
pub open spec fn is_join(
    m: Module,
    c: Setup,
    ctx: Seq<InstructionName>,
    op: Operand,
    v: IntLattice,
) -> bool {
    &&& exists|x: IntLattice| valued(m, c, ctx, op, x)
    &&& bounds(m, c, ctx, op, v)
    &&& forall|u: IntLattice| #[trigger] bounds(m, c, ctx, op, u) ==> below(v, u)
}

/// Whether the rows give the operand the value `v` in `ctx`.
pub open spec fn has_value(
    rows: Seq<(Context, Operand, IntLattice)>,
    ctx: Seq<InstructionName>,
    op: Operand,
    v: IntLattice,
) -> bool {
    exists|k: int|
        0 <= k < rows.len() && (#[trigger] rows[k]).0@ == ctx && rows[k].1 == op && rows[k].2 == v
}

/// Whether the rows have a row for the operand in `ctx`.
pub open spec fn has_key(
    rows: Seq<(Context, Operand, IntLattice)>,
    ctx: Seq<InstructionName>,
    op: Operand,
) -> bool {
    exists|k: int| 0 <= k < rows.len() && (#[trigger] rows[k]).0@ == ctx && rows[k].1 == op
}

/// Whether the fact gives the operand a value in `ctx`.
pub open spec fn gives_value(h: FactView, ctx: Seq<InstructionName>, op: Operand) -> bool {
    match h {
        FactView::OperandValue { ctx: x, operand, value } => x == ctx && operand == op,
        _ => false,
    }
}

fn gives_value_of(f: &Fact, ctx: &Context, op: &Operand) -> (r: bool)
    ensures
        r == gives_value(f@, ctx@, *op),
{
    match f {
        Fact::OperandValue { ctx: x, operand, value } => operand.equals(op) && same_context(x, ctx),
        _ => false,
    }
}

/// The join of the values that the facts give the operand in `ctx`.
fn join_all(state: &Vec<Fact>, ctx: &Context, op: &Operand) -> (v: IntLattice)
    ensures
        forall|j: int|
            0 <= j < state@.len() && gives_value((#[trigger] state@[j])@, ctx@, *op) ==> below(
                state@[j]@->OperandValue_value,
                v,
            ),
        forall|u: IntLattice|
            (forall|j: int|
                0 <= j < state@.len() && gives_value((#[trigger] state@[j])@, ctx@, *op) ==> below(
                    state@[j]@->OperandValue_value,
                    u,
                )) ==> below(v, u),
{
    let mut v = IntLattice::bottom();
    let mut i: usize = 0;
    while i < state.len()
        invariant
            i <= state.len(),
            forall|j: int|
                0 <= j < i && gives_value((#[trigger] state@[j])@, ctx@, *op) ==> below(
                    state@[j]@->OperandValue_value,
                    v,
                ),
            forall|u: IntLattice|
                (forall|j: int|
                    0 <= j < i && gives_value((#[trigger] state@[j])@, ctx@, *op) ==> below(
                        state@[j]@->OperandValue_value,
                        u,
                    )) ==> below(v, u),
        decreases state.len() - i,
    {
        let ghost before = v;
        if gives_value_of(&state[i], ctx, op) {
            if let Fact::OperandValue { ctx: _, operand: _, value } = &state[i] {
                v = v.join(*value);
                proof {
                    let x = *value;
                    assert forall|j: int|
                        0 <= j < i + 1 && gives_value(
                            (#[trigger] state@[j])@,
                            ctx@,
                            *op,
                        ) implies below(state@[j]@->OperandValue_value, v) by {
                        lemma_join_least(before, x, v);
                        if j < i {
                            lemma_below_order(state@[j]@->OperandValue_value, before, v);
                        }
                    }
                    assert forall|u: IntLattice|
                        (forall|j: int|
                            0 <= j < i + 1 && gives_value(
                                (#[trigger] state@[j])@,
                                ctx@,
                                *op,
                            ) ==> below(state@[j]@->OperandValue_value, u)) implies below(
                        v,
                        u,
                    ) by {
                        assert(below(state@[i as int]@->OperandValue_value, u));
                        assert(forall|j: int|
                            0 <= j < i && gives_value((#[trigger] state@[j])@, ctx@, *op)
                                ==> below(state@[j]@->OperandValue_value, u));
                        assert(below(before, u));
                        lemma_join_least(before, x, u);
                    }
                }
            }
        } else {
            proof {
                assert forall|u: IntLattice|
                    (forall|j: int|
                        0 <= j < i + 1 && gives_value(
                            (#[trigger] state@[j])@,
                            ctx@,
                            *op,
                        ) ==> below(state@[j]@->OperandValue_value, u)) implies below(v, u) by {
                    assert(forall|j: int|
                        0 <= j < i && gives_value((#[trigger] state@[j])@, ctx@, *op) ==> below(
                            state@[j]@->OperandValue_value,
                            u,
                        ));
                }
            }
        }
        i += 1;
    }
    v
}

fn has_key_of(rows: &Vec<(Context, Operand, IntLattice)>, ctx: &Context, op: &Operand) -> (r: bool)
    ensures
        r == has_key(rows@, ctx@, *op),
{
    let mut k: usize = 0;
    while k < rows.len()
        invariant
            k <= rows.len(),
            forall|j: int| 0 <= j < k ==> !((#[trigger] rows@[j]).0@ == ctx@ && rows@[j].1 == *op),
        decreases rows.len() - k,
    {
        if rows[k].1.equals(op) && same_context(&rows[k].0, ctx) {
            return true;
        }
        k += 1;
    }
    false
}

/// What the facts say of the join of the values of an operand.
proof fn lemma_join_of_facts(
    m: Module,
    c: Setup,
    state: Seq<Fact>,
    ctx: Seq<InstructionName>,
    op: Operand,
    v: IntLattice,
)
    requires
        forall|h: FactView| #![trigger holds(state, h)] holds(state, h) <==> derivable(m, c, h),
        exists|j: int| 0 <= j < state.len() && gives_value((#[trigger] state[j])@, ctx, op),
        forall|j: int|
            0 <= j < state.len() && gives_value((#[trigger] state[j])@, ctx, op) ==> below(
                state[j]@->OperandValue_value,
                v,
            ),
        forall|u: IntLattice|
            (forall|j: int|
                0 <= j < state.len() && gives_value((#[trigger] state[j])@, ctx, op) ==> below(
                    state[j]@->OperandValue_value,
                    u,
                )) ==> below(v, u),
    ensures
        is_join(m, c, ctx, op, v),
{
    let j0 = choose|j: int| 0 <= j < state.len() && gives_value((#[trigger] state[j])@, ctx, op);
    assert(holds(state, state[j0]@));
    assert(valued(m, c, ctx, op, state[j0]@->OperandValue_value));
    assert forall|x: IntLattice| #[trigger] valued(m, c, ctx, op, x) implies below(x, v) by {
        let h = FactView::OperandValue { ctx, operand: op, value: x };
        assert(holds(state, h));
        let j = choose|j: int| 0 <= j < state.len() && (#[trigger] state[j])@ == h;
        assert(gives_value(state[j]@, ctx, op));
    }
    assert forall|u: IntLattice| #[trigger] bounds(m, c, ctx, op, u) implies below(v, u) by {
        assert forall|j: int|
            0 <= j < state.len() && gives_value((#[trigger] state[j])@, ctx, op) implies below(
            state[j]@->OperandValue_value,
            u,
        ) by {
            assert(holds(state, state[j]@));
            assert(valued(m, c, ctx, op, state[j]@->OperandValue_value));
        }
    }
}

/// A set of values has one join.
pub proof fn lemma_join_unique(
    m: Module,
    c: Setup,
    ctx: Seq<InstructionName>,
    op: Operand,
    v: IntLattice,
    w: IntLattice,
)
    requires
        is_join(m, c, ctx, op, v),
        is_join(m, c, ctx, op, w),
    ensures
        v == w,
{
    assert(bounds(m, c, ctx, op, v));
    assert(bounds(m, c, ctx, op, w));
    lemma_below_order(v, w, v);
}

/// The values of the operands: one row for each context and operand that
/// has a value, with the join of its values.
pub(crate) fn collect_values(
    state: &Vec<Fact>,
    contexts: usize,
    Ghost(m): Ghost<Module>,
    Ghost(c): Ghost<Setup>,
) -> (out: Vec<(Context, Operand, IntLattice)>)
    requires
        forall|h: FactView| #![trigger holds(state@, h)] holds(state@, h) <==> derivable(m, c, h),
    ensures
        forall|k: int| 0 <= k < out@.len() ==> (#[trigger] out@[k]).0.k == contexts,
        forall|ctx: Seq<InstructionName>, op: Operand, v: IntLattice|
            #![trigger has_value(out@, ctx, op, v)]
            has_value(out@, ctx, op, v) <==> is_join(m, c, ctx, op, v),
        forall|p: int, q: int|
            0 <= p < q < out@.len() ==> !((#[trigger] out@[p]).0@ == (#[trigger] out@[q]).0@
                && out@[p].1 == out@[q].1),
{
    let mut out: Vec<(Context, Operand, IntLattice)> = Vec::new();
    let mut i: usize = 0;
    while i < state.len()
        invariant
            i <= state.len(),
            forall|k: int| 0 <= k < out@.len() ==> (#[trigger] out@[k]).0.k == contexts,
            forall|h: FactView|
                #![trigger holds(state@, h)]
                holds(state@, h) <==> derivable(m, c, h),
            forall|k: int|
                0 <= k < out@.len() ==> is_join(
                    m,
                    c,
                    (#[trigger] out@[k]).0@,
                    out@[k].1,
                    out@[k].2,
                ),
            forall|p: int, q: int|
                0 <= p < q < out@.len() ==> !((#[trigger] out@[p]).0@ == (#[trigger] out@[q]).0@
                    && out@[p].1 == out@[q].1),
            forall|j: int|
                0 <= j < i ==> match (#[trigger] state@[j])@ {
                    FactView::OperandValue { ctx, operand, value } => has_key(out@, ctx, operand),
                    _ => true,
                },
        decreases state.len() - i,
    {
        let ghost before = out@;
        if let Fact::OperandValue { ctx, operand, value } = &state[i] {
            if !has_key_of(&out, ctx, operand) {
                let v = join_all(state, ctx, operand);
                proof {
                    assert(gives_value(state@[i as int]@, ctx@, *operand));
                    lemma_join_of_facts(m, c, state@, ctx@, *operand, v);
                }
                out.push((crate::analysis::facts::context_under(ctx, contexts), operand.clone(), v));
                proof {
                    assert forall|j: int| 0 <= j < i + 1 implies match (#[trigger] state@[j])@ {
                        FactView::OperandValue { ctx, operand, value } => has_key(
                            out@,
                            ctx,
                            operand,
                        ),
                        _ => true,
                    } by {
                        if let FactView::OperandValue { ctx: x, operand: o, value: w } = state@[j]@ {
                            if j < i {
                                let k = choose|k: int|
                                    0 <= k < before.len() && (#[trigger] before[k]).0@ == x
                                        && before[k].1 == o;
                                assert(out@[k] == before[k]);
                            } else {
                                assert(out@[before.len() as int].0@ == x);
                            }
                        }
                    }
                }
            }
        }
        i += 1;
    }
    proof {
        assert forall|ctx: Seq<InstructionName>, op: Operand, v: IntLattice|
            #![trigger has_value(out@, ctx, op, v)]
            has_value(out@, ctx, op, v) <==> is_join(m, c, ctx, op, v) by {
            if is_join(m, c, ctx, op, v) {
                let x = choose|x: IntLattice| valued(m, c, ctx, op, x);
                let h = FactView::OperandValue { ctx, operand: op, value: x };
                assert(holds(state@, h));
                let j = choose|j: int| 0 <= j < state@.len() && (#[trigger] state@[j])@ == h;
                assert(has_key(out@, ctx, op));
                let k = choose|k: int|
                    0 <= k < out@.len() && (#[trigger] out@[k]).0@ == ctx && out@[k].1 == op;
                lemma_join_unique(m, c, ctx, op, v, out@[k].2);
            }
        }
    }
    out
}

// ----------------------------------------------------------------------
// Assertions
/// Whether the call at `s` has a target in some context.
pub open spec fn is_called(m: Module, c: Setup, s: InstructionName) -> bool {
    exists|ctx: Seq<InstructionName>, f: FunctionId, cc: Seq<InstructionName>| #[trigger]
        derivable(m, c, (FactView::Calls { ctx, site: s, callee: f, callee_ctx: cc }))
}

/// Whether the operand has a value in `ctx`.
pub open spec fn has_some_value(m: Module, c: Setup, ctx: Seq<InstructionName>, op: Operand) -> bool {
    exists|x: IntLattice| valued(m, c, ctx, op, x)
}

/// Whether the assertion of the given kind fails at the site `s` in the
/// context `ctx`: a call of a reachable function has no target in any
/// context, or an instruction of a reachable function has no value.
pub open spec fn fails_values(
    m: Module,
    c: Setup,
    kind: FailureKind,
    ctx: Seq<InstructionName>,
    s: InstructionName,
) -> bool {
    &&& derivable(m, c, FactView::Reachable { ctx, function: s.parent_function })
    &&& m.is_site(s)
    &&& match kind {
        FailureKind::CallWithoutTarget => m.callee(s) is Some && !is_called(m, c, s),
        FailureKind::InstructionWithoutValue => m.is_instruction(s) && !has_some_value(
            m,
            c,
            ctx,
            Operand::of_instruction(s),
        ),
        _ => false,
    }
}

fn find_called(state: &Vec<Fact>, s: InstructionName, Ghost(m): Ghost<Module>, Ghost(c): Ghost<Setup>) -> (r:
    bool)
    requires
        forall|h: FactView| #![trigger holds(state@, h)] holds(state@, h) <==> derivable(m, c, h),
    ensures
        r == is_called(m, c, s),
{
    let mut i: usize = 0;
    while i < state.len()
        invariant
            i <= state.len(),
            forall|h: FactView|
                #![trigger holds(state@, h)]
                holds(state@, h) <==> derivable(m, c, h),
            forall|j: int|
                0 <= j < i ==> match (#[trigger] state@[j])@ {
                    FactView::Calls { ctx, site, callee, callee_ctx } => site != s,
                    _ => true,
                },
        decreases state.len() - i,
    {
        if let Fact::Calls { ctx, site, callee, callee_ctx } = &state[i] {
            if *site == s {
                proof {
                    assert(holds(state@, state@[i as int]@));
                    assert(derivable(
                        m,
                        c,
                        (FactView::Calls {
                            ctx: ctx@,
                            site: s,
                            callee: *callee,
                            callee_ctx: callee_ctx@,
                        }),
                    ));
                }
                return true;
            }
        }
        i += 1;
    }
    proof {
        if is_called(m, c, s) {
            let (x, f, cc) = choose|
                x: Seq<InstructionName>,
                f: FunctionId,
                cc: Seq<InstructionName>,
            | #[trigger]
                derivable(m, c, (FactView::Calls { ctx: x, site: s, callee: f, callee_ctx: cc }));
            let h = FactView::Calls { ctx: x, site: s, callee: f, callee_ctx: cc };
            assert(holds(state@, h));
            let j = choose|j: int| 0 <= j < state@.len() && (#[trigger] state@[j])@ == h;
            assert(false);
        }
    }
    false
}

fn find_value(
    state: &Vec<Fact>,
    ctx: &Context,
    op: &Operand,
    Ghost(m): Ghost<Module>,
    Ghost(c): Ghost<Setup>,
) -> (r: bool)
    requires
        forall|h: FactView| #![trigger holds(state@, h)] holds(state@, h) <==> derivable(m, c, h),
    ensures
        r == has_some_value(m, c, ctx@, *op),
{
    let mut i: usize = 0;
    while i < state.len()
        invariant
            i <= state.len(),
            forall|h: FactView|
                #![trigger holds(state@, h)]
                holds(state@, h) <==> derivable(m, c, h),
            forall|j: int| 0 <= j < i ==> !gives_value((#[trigger] state@[j])@, ctx@, *op),
        decreases state.len() - i,
    {
        if gives_value_of(&state[i], ctx, op) {
            proof {
                assert(holds(state@, state@[i as int]@));
                assert(valued(m, c, ctx@, *op, state@[i as int]@->OperandValue_value));
            }
            return true;
        }
        i += 1;
    }
    proof {
        if has_some_value(m, c, ctx@, *op) {
            let x = choose|x: IntLattice| valued(m, c, ctx@, *op, x);
            let h = FactView::OperandValue { ctx: ctx@, operand: *op, value: x };
            assert(holds(state@, h));
            let j = choose|j: int| 0 <= j < state@.len() && (#[trigger] state@[j])@ == h;
            assert(gives_value(state@[j]@, ctx@, *op));
        }
    }
    false
}

/// An assertion that fails of the derived facts, if one does.
pub(crate) fn check_values(
    m: &Module,
    state: &Vec<Fact>,
    sites: &Vec<InstructionName>,
    Ghost(c): Ghost<Setup>,
) -> (r: Option<AssertionFailure>)
    requires
        lists_sites(*m, sites@),
        forall|h: FactView| #![trigger holds(state@, h)] holds(state@, h) <==> derivable(*m, c, h),
    ensures
        match r {
            Some(v) => fails_values(*m, c, v.kind, v.ctx@, v.site),
            None => forall|kind: FailureKind, ctx: Seq<InstructionName>, s: InstructionName|
                !fails_values(*m, c, kind, ctx, s),
        },
{
    let mut i: usize = 0;
    while i < state.len()
        invariant
            i <= state.len(),
            lists_sites(*m, sites@),
            forall|h: FactView|
                #![trigger holds(state@, h)]
                holds(state@, h) <==> derivable(*m, c, h),
            forall|j: int, kind: FailureKind, s: InstructionName|
                0 <= j < i && (#[trigger] state@[j])@ is Reachable && s.parent_function
                    == state@[j]@->Reachable_function ==> !#[trigger] fails_values(
                    *m,
                    c,
                    kind,
                    state@[j]@->Reachable_ctx,
                    s,
                ),
        decreases state.len() - i,
    {
        if let Fact::Reachable { ctx, function } = &state[i] {
            let mut k: usize = 0;
            while k < sites.len()
                invariant
                    k <= sites.len(),
                    i < state.len(),
                    state@[i as int] == (Fact::Reachable { ctx: *ctx, function: *function }),
                    lists_sites(*m, sites@),
                    forall|h: FactView|
                        #![trigger holds(state@, h)]
                        holds(state@, h) <==> derivable(*m, c, h),
                    forall|q: int, kind: FailureKind|
                        0 <= q < k && (#[trigger] sites@[q]).parent_function == *function
                            ==> !#[trigger] fails_values(*m, c, kind, ctx@, sites@[q]),
                decreases sites.len() - k,
            {
                let s = sites[k];
                if s.parent_function == *function {
                    proof {
                        assert(sites@.contains(s));
                        assert(holds(state@, state@[i as int]@));
                    }
                    if m.call_at(s).is_some() && !find_called(state, s, Ghost(*m), Ghost(c)) {
                        return Some(
                            AssertionFailure {
                                kind: FailureKind::CallWithoutTarget,
                                ctx: clone_context(ctx),
                                site: s,
                            },
                        );
                    }
                    if m.has_instruction(s) && !find_value(
                        state,
                        ctx,
                        &result_of(s),
                        Ghost(*m),
                        Ghost(c),
                    ) {
                        return Some(
                            AssertionFailure {
                                kind: FailureKind::InstructionWithoutValue,
                                ctx: clone_context(ctx),
                                site: s,
                            },
                        );
                    }
                }
                k += 1;
            }
            proof {
                assert forall|kind: FailureKind, s: InstructionName|
                    s.parent_function == *function implies !#[trigger] fails_values(
                    *m,
                    c,
                    kind,
                    ctx@,
                    s,
                ) by {
                    if m.is_site(s) {
                        assert(sites@.contains(s));
                        let q = choose|q: int| 0 <= q < sites@.len() && sites@[q] == s;
                        assert(!fails_values(*m, c, kind, ctx@, sites@[q]));
                    }
                }
            }
        }
        i += 1;
    }
    proof {
        assert forall|kind: FailureKind, ctx: Seq<InstructionName>, s: InstructionName|
            !fails_values(*m, c, kind, ctx, s) by {
            if fails_values(*m, c, kind, ctx, s) {
                let h = FactView::Reachable { ctx, function: s.parent_function };
                assert(holds(state@, h));
                let j = choose|j: int| 0 <= j < state@.len() && (#[trigger] state@[j])@ == h;
                assert(state@[j]@ is Reachable);
                assert(!fails_values(*m, c, kind, state@[j]@->Reachable_ctx, s));
            }
        }
    }
    None
}

// ----------------------------------------------------------------------
// The analysis
impl IntRelations {
    /// Whether these are the values of the least fixed point of the rules:
    /// every operand that has a value in a context has one row, with the
    /// join of its values.
    pub open spec fn describes(self, m: Module, c: Setup) -> bool {
        &&& forall|ctx: Seq<InstructionName>, op: Operand, v: IntLattice|
            #![trigger has_value(self.operand_val@, ctx, op, v)]
            has_value(self.operand_val@, ctx, op, v) <==> is_join(m, c, ctx, op, v)
        &&& forall|p: int, q: int|
            0 <= p < q < self.operand_val@.len() ==> !((#[trigger] self.operand_val@[p]).0@ == (
            #[trigger] self.operand_val@[q]).0@ && self.operand_val@[p].1
                == self.operand_val@[q].1)
        &&& forall|k: int|
            0 <= k < self.operand_val@.len() ==> (#[trigger] self.operand_val@[k]).0.k
                == c.contexts
        &&& match self.metrics {
            Some(x) => c.metrics && is_count(m, c, Counted::ValueTop, x.tops as nat),
            None => !c.metrics,
        }
    }
}

/// Whether `r` is the outcome of the analysis of `m` with `c`: the failure
/// of an assertion, where one fails, and else the values of the least fixed
/// point.
pub open spec fn is_outcome(m: Module, c: Setup, r: Result<IntRelations, AssertionFailure>) -> bool {
    match r {
        Ok(out) => out.describes(m, c) && forall|
            kind: FailureKind,
            ctx: Seq<InstructionName>,
            s: InstructionName,
        | !fails_values(m, c, kind, ctx, s),
        Err(v) => fails_values(m, c, v.kind, v.ctx@, v.site),
    }
}

/// Whether `c` is what the values of a module are analysed with under the
/// given callgraph and choices.
pub open spec fn is_setup(
    c: Setup,
    callgraph: Seq<(InstructionName, Vec<FunctionId>)>,
    contexts: usize,
    metrics: bool,
) -> bool {
    &&& c.callgraph is Some
    &&& c.callgraph->0@.len() == callgraph.len()
    &&& forall|k: int|
        0 <= k < callgraph.len() ==> (#[trigger] c.callgraph->0@[k]).0 == callgraph[k].0
            && c.callgraph->0@[k].1@ == callgraph[k].1@
    &&& c.contexts == contexts
    &&& c.metrics == metrics
    &&& !c.unification
    &&& c.signatures.len() == 0
    &&& c.extra_globals.len() == 0
}

/// What the values of a module are analysed with under the given callgraph
/// and choices.
pub fn setup(callgraph: &Vec<(InstructionName, Vec<FunctionId>)>, contexts: usize, metrics: bool) -> (c:
    Setup)
    ensures
        is_setup(c, callgraph@, contexts, metrics),
{
    let mut rows: Vec<(InstructionName, Vec<FunctionId>)> = Vec::new();
    let mut k: usize = 0;
    while k < callgraph.len()
        invariant
            k <= callgraph.len(),
            rows@.len() == k,
            forall|j: int|
                0 <= j < k ==> (#[trigger] rows@[j]).0 == callgraph@[j].0 && rows@[j].1@
                    == callgraph@[j].1@,
        decreases callgraph.len() - k,
    {
        let targets = callgraph[k].1.clone();
        assert(targets@ =~= callgraph@[k as int].1@);
        rows.push((callgraph[k].0, targets));
        k += 1;
    }
    Setup {
        signatures: Vec::new(),
        extra_globals: Vec::new(),
        contexts,
        unification: false,
        metrics,
        callgraph: Some(rows),
    }
}

/// Evaluates the rules on the module to their least fixed point and hands
/// out the values of the operands, or the assertion that fails of it.
pub fn solve(module: &Module, c: &Setup) -> (r: Result<IntRelations, AssertionFailure>)
    ensures
        is_outcome(*module, *c, r),
{
    let state = saturate(module, c);
    let sites = module.sites();
    if let Some(v) = check_values(module, &state, &sites, Ghost(*c)) {
        return Err(v);
    }
    let metrics = if c.metrics {
        Some(Metrics { tops: count(&state, Counted::ValueTop, Ghost(*module), Ghost(*c)) })
    } else {
        None
    };
    Ok(
        IntRelations {
            operand_val: collect_values(&state, c.contexts, Ghost(*module), Ghost(*c)),
            metrics,
        },
    )
}

/// Integer analysis of a module: the values of its operands under the given
/// callgraph, in contexts of the given depth, or the assertion that fails of
/// the result.
pub fn analysis(
    module: &Module,
    callgraph: &Vec<(InstructionName, Vec<FunctionId>)>,
    contexts: usize,
    debug: bool,
    metrics: bool,
) -> (r: Result<IntRelations, AssertionFailure>)
    ensures
        exists|c: Setup|
            #![trigger is_outcome(*module, c, r)]
            is_setup(c, callgraph@, contexts, metrics) && is_outcome(*module, c, r),
{
    let c = setup(callgraph, contexts, metrics);
    let r = solve(module, &c);
    assert(is_outcome(*module, c, r));
    r
}

} // verus!
