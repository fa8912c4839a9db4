//! The assertions that an analysis makes of its own result.

use crate::allocation::Alloc;
use crate::analysis::emit::result_of;
use crate::analysis::engine::lists_sites;
use crate::analysis::facts::{clone_context, holds, same_context, Context, Fact, FactView};
use crate::analysis::rules::{derivable, Setup};
use crate::llvm::constant::Constant;
use crate::llvm::instruction::Opcode;
use crate::llvm::name::{FunctionId, InstructionName};
use crate::llvm::operand::Operand;
use crate::llvm::{Module, Type};
use vstd::prelude::*;

verus! {

/// What an analysis may find wrong with its result.
#[derive(Clone, Copy, Debug, PartialEq, Eq, Structural)]
pub enum FailureKind {
    /// A call in a reachable function has no target.
    CallWithoutTarget,
    /// An instruction of pointer type in a reachable function points to
    /// nothing.
    InstructionWithoutPointee,
    /// A `bitcast` or `getelementptr` constant that a reachable instruction
    /// uses points to nothing.
    ConstantWithoutPointee,
    /// An instruction in a reachable function has no value.
    InstructionWithoutValue,
}

/// An assertion that failed: what is wrong, in which context and where.
#[derive(Debug)]
pub struct AssertionFailure {
    pub kind: FailureKind,
    pub ctx: Context,
    pub site: InstructionName,
}

/// Whether the opcode is a cast or an address computation.
pub open spec fn is_cast(op: Opcode) -> bool {
    op is BitCast || op is GetElementPtr || op is IntToPtr || op is PtrToInt
}

/// Whether the operand is a `bitcast` or `getelementptr` constant.
pub open spec fn is_cast_constant(op: Operand) -> bool {
    match op {
        Operand::Constant(k) => k is BitCast || k is GetElementPtr,
        _ => false,
    }
}

/// Whether the call at `s` in `ctx` has a target.
pub open spec fn has_target(m: Module, c: Setup, ctx: Seq<InstructionName>, s: InstructionName) -> bool {
    exists|f: FunctionId, cc: Seq<InstructionName>| #[trigger]
        derivable(m, c, (FactView::Calls { ctx, site: s, callee: f, callee_ctx: cc }))
}

/// Whether the operand denotes something in `ctx`.
pub open spec fn has_pointee(m: Module, c: Setup, ctx: Seq<InstructionName>, op: Operand) -> bool {
    exists|a: Alloc| #[trigger]
        derivable(m, c, (FactView::OperandPointsTo { ctx, operand: op, alloc: a }))
}

/// Whether some function needs a signature.
pub open spec fn any_needs_signature(m: Module, c: Setup) -> bool {
    exists|f: FunctionId| #[trigger] derivable(m, c, (FactView::NeedsSignature { function: f }))
}

/// Whether a constant operand of `s` that is a cast or an address
/// computation denotes nothing in `ctx`.
pub open spec fn has_empty_constant(
    m: Module,
    c: Setup,
    ctx: Seq<InstructionName>,
    s: InstructionName,
) -> bool {
    exists|i: int|
        0 <= i < m.operands(s).len() && is_cast_constant(#[trigger] m.operands(s)[i])
            && !has_pointee(m, c, ctx, m.operands(s)[i])
}

/// Whether the assertion of the given kind fails at the site `s` in the
/// context `ctx`. The second kind is asserted only when `strict` is set and
/// no function needs a signature.
pub open spec fn fails(
    m: Module,
    c: Setup,
    strict: bool,
    kind: FailureKind,
    ctx: Seq<InstructionName>,
    s: InstructionName,
) -> bool {
    &&& derivable(m, c, FactView::Reachable { ctx, function: s.parent_function })
    &&& m.is_site(s)
    &&& match kind {
        FailureKind::CallWithoutTarget => m.callee(s) is Some && !has_target(m, c, ctx, s),
        FailureKind::InstructionWithoutPointee => strict && !any_needs_signature(m, c)
            && m.is_instruction(s) && m.instruction_type(s).is_pointer() && !is_cast(m.opcode(s))
            && !has_pointee(m, c, ctx, Operand::of_instruction(s)),
        FailureKind::ConstantWithoutPointee => m.is_instruction(s) && has_empty_constant(
            m,
            c,
            ctx,
            s,
        ),
        FailureKind::InstructionWithoutValue => false,
    }
}

fn find_target(
    state: &Vec<Fact>,
    ctx: &Context,
    s: InstructionName,
    Ghost(m): Ghost<Module>,
    Ghost(c): Ghost<Setup>,
) -> (r: bool)
    requires
        forall|h: FactView| #![trigger holds(state@, h)] holds(state@, h) <==> derivable(m, c, h),
    ensures
        r == has_target(m, c, ctx@, s),
{
    let mut i: usize = 0;
    while i < state.len()
        invariant
            i <= state.len(),
            forall|h: FactView|
                #![trigger holds(state@, h)]
                holds(state@, h) <==> derivable(m, c, h),
            forall|j: int|
                0 <= j < i ==> match (#[trigger] state@[j])@ {
                    FactView::Calls { ctx: x, site, callee, callee_ctx } => !(x == ctx@ && site
                        == s),
                    _ => true,
                },
        decreases state.len() - i,
    {
        if let Fact::Calls { ctx: x, site, callee, callee_ctx } = &state[i] {
            if *site == s && same_context(x, ctx) {
                proof {
                    assert(holds(state@, state@[i as int]@));
                    assert(derivable(
                        m,
                        c,
                        (FactView::Calls {
                            ctx: ctx@,
                            site: s,
                            callee: *callee,
                            callee_ctx: callee_ctx@,
                        }),
                    ));
                }
                return true;
            }
        }
        i += 1;
    }
    proof {
        if has_target(m, c, ctx@, s) {
            let (f, cc) = choose|f: FunctionId, cc: Seq<InstructionName>| #[trigger]
                derivable(m, c, (FactView::Calls { ctx: ctx@, site: s, callee: f, callee_ctx: cc }));
            let h = FactView::Calls { ctx: ctx@, site: s, callee: f, callee_ctx: cc };
            assert(holds(state@, h));
            let j = choose|j: int| 0 <= j < state@.len() && (#[trigger] state@[j])@ == h;
            assert(false);
        }
    }
    false
}

fn find_pointee(
    state: &Vec<Fact>,
    ctx: &Context,
    op: &Operand,
    Ghost(m): Ghost<Module>,
    Ghost(c): Ghost<Setup>,
) -> (r: bool)
    requires
        forall|h: FactView| #![trigger holds(state@, h)] holds(state@, h) <==> derivable(m, c, h),
    ensures
        r == has_pointee(m, c, ctx@, *op),
{
    let mut i: usize = 0;
    while i < state.len()
        invariant
            i <= state.len(),
            forall|h: FactView|
                #![trigger holds(state@, h)]
                holds(state@, h) <==> derivable(m, c, h),
            forall|j: int|
                0 <= j < i ==> match (#[trigger] state@[j])@ {
                    FactView::OperandPointsTo { ctx: x, operand, alloc } => !(x == ctx@ && operand
                        == *op),
                    _ => true,
                },
        decreases state.len() - i,
    {
        if let Fact::OperandPointsTo { ctx: x, operand, alloc } = &state[i] {
            if operand.equals(op) && same_context(x, ctx) {
                proof {
                    assert(holds(state@, state@[i as int]@));
                    assert(derivable(
                        m,
                        c,
                        (FactView::OperandPointsTo { ctx: ctx@, operand: *op, alloc: *alloc }),
                    ));
                }
                return true;
            }
        }
        i += 1;
    }
    proof {
        if has_pointee(m, c, ctx@, *op) {
            let a = choose|a: Alloc| #[trigger]
                derivable(m, c, (FactView::OperandPointsTo { ctx: ctx@, operand: *op, alloc: a }));
            let h = FactView::OperandPointsTo { ctx: ctx@, operand: *op, alloc: a };
            assert(holds(state@, h));
            let j = choose|j: int| 0 <= j < state@.len() && (#[trigger] state@[j])@ == h;
            assert(false);
        }
    }
    false
}

fn find_needs_signature(state: &Vec<Fact>, Ghost(m): Ghost<Module>, Ghost(c): Ghost<Setup>) -> (r:
    bool)
    requires
        forall|h: FactView| #![trigger holds(state@, h)] holds(state@, h) <==> derivable(m, c, h),
    ensures
        r == any_needs_signature(m, c),
{
    let mut i: usize = 0;
    while i < state.len()
        invariant
            i <= state.len(),
            forall|h: FactView|
                #![trigger holds(state@, h)]
                holds(state@, h) <==> derivable(m, c, h),
            forall|j: int| 0 <= j < i ==> !((#[trigger] state@[j])@ is NeedsSignature),
        decreases state.len() - i,
    {
        if let Fact::NeedsSignature { function } = &state[i] {
            proof {
                assert(holds(state@, state@[i as int]@));
                assert(derivable(m, c, (FactView::NeedsSignature { function: *function })));
            }
            return true;
        }
        i += 1;
    }
    proof {
        if any_needs_signature(m, c) {
            let f = choose|f: FunctionId| #[trigger]
                derivable(m, c, (FactView::NeedsSignature { function: f }));
            let h = FactView::NeedsSignature { function: f };
            assert(holds(state@, h));
            let j = choose|j: int| 0 <= j < state@.len() && (#[trigger] state@[j])@ == h;
            assert(false);
        }
    }
    false
}

fn is_cast_constant_of(op: &Operand) -> (r: bool)
    ensures
        r == is_cast_constant(*op),
{
    match op {
        Operand::Constant(k) => match k {
            Constant::BitCast(_) => true,
            Constant::GetElementPtr(_) => true,
            _ => false,
        },
        _ => false,
    }
}

fn is_cast_of(op: &Opcode) -> (r: bool)
    ensures
        r == is_cast(*op),
{
    match op {
        Opcode::BitCast(_) => true,
        Opcode::GetElementPtr(_) => true,
        Opcode::IntToPtr(_) => true,
        Opcode::PtrToInt(_) => true,
        _ => false,
    }
}

fn find_empty_constant(
    m: &Module,
    state: &Vec<Fact>,
    ctx: &Context,
    s: InstructionName,
    Ghost(c): Ghost<Setup>,
) -> (r: bool)
    requires
        forall|h: FactView| #![trigger holds(state@, h)] holds(state@, h) <==> derivable(*m, c, h),
    ensures
        r == has_empty_constant(*m, c, ctx@, s),
{
    let ops = m.operands_at(s);
    let mut i: usize = 0;
    while i < ops.len()
        invariant
            i <= ops.len(),
            ops@ == m.operands(s),
            forall|h: FactView|
                #![trigger holds(state@, h)]
                holds(state@, h) <==> derivable(*m, c, h),
            forall|j: int|
                0 <= j < i ==> !(is_cast_constant(#[trigger] ops@[j]) && !has_pointee(
                    *m,
                    c,
                    ctx@,
                    ops@[j],
                )),
        decreases ops.len() - i,
    {
        if is_cast_constant_of(&ops[i]) && !find_pointee(state, ctx, &ops[i], Ghost(*m), Ghost(c)) {
            proof {
                assert(is_cast_constant(m.operands(s)[i as int]));
            }
            return true;
        }
        i += 1;
    }
    false
}

/// The assertion that fails at `s` in `ctx`, if one does.
fn site_failure(
    m: &Module,
    strict: bool,
    state: &Vec<Fact>,
    ctx: &Context,
    s: InstructionName,
    needs: bool,
    Ghost(c): Ghost<Setup>,
) -> (r: Option<FailureKind>)
    requires
        forall|h: FactView| #![trigger holds(state@, h)] holds(state@, h) <==> derivable(*m, c, h),
        derivable(*m, c, FactView::Reachable { ctx: ctx@, function: s.parent_function }),
        m.is_site(s),
        needs == any_needs_signature(*m, c),
    ensures
        match r {
            Some(kind) => fails(*m, c, strict, kind, ctx@, s),
            None => forall|kind: FailureKind| !fails(*m, c, strict, kind, ctx@, s),
        },
{
    if m.call_at(s).is_some() && !find_target(state, ctx, s, Ghost(*m), Ghost(c)) {
        return Some(FailureKind::CallWithoutTarget);
    }
    if m.has_instruction(s) {
        if strict && !needs {
            if let Type::Pointer { .. } = m.type_of(s) {
                if !is_cast_of(m.opcode_of(s)) && !find_pointee(
                    state,
                    ctx,
                    &result_of(s),
                    Ghost(*m),
                    Ghost(c),
                ) {
                    return Some(FailureKind::InstructionWithoutPointee);
                }
            }
        }
        if find_empty_constant(m, state, ctx, s, Ghost(c)) {
            return Some(FailureKind::ConstantWithoutPointee);
        }
    }
    None
}

/// An assertion that fails of the derived facts, if one does.
pub(crate) fn check(
    m: &Module,
    strict: bool,
    state: &Vec<Fact>,
    sites: &Vec<InstructionName>,
    Ghost(c): Ghost<Setup>,
) -> (r: Option<AssertionFailure>)
    requires
        lists_sites(*m, sites@),
        forall|h: FactView| #![trigger holds(state@, h)] holds(state@, h) <==> derivable(*m, c, h),
    ensures
        match r {
            Some(v) => fails(*m, c, strict, v.kind, v.ctx@, v.site),
            None => forall|kind: FailureKind, ctx: Seq<InstructionName>, s: InstructionName|
                !fails(*m, c, strict, kind, ctx, s),
        },
{
    let needs = find_needs_signature(state, Ghost(*m), Ghost(c));
    let mut i: usize = 0;
    while i < state.len()
        invariant
            i <= state.len(),
            lists_sites(*m, sites@),
            needs == any_needs_signature(*m, c),
            forall|h: FactView|
                #![trigger holds(state@, h)]
                holds(state@, h) <==> derivable(*m, c, h),
            forall|j: int, kind: FailureKind, s: InstructionName|
                0 <= j < i && (#[trigger] state@[j])@ is Reachable && s.parent_function
                    == state@[j]@->Reachable_function ==> !#[trigger] fails(
                    *m,
                    c,
                    strict,
                    kind,
                    state@[j]@->Reachable_ctx,
                    s,
                ),
        decreases state.len() - i,
    {
        if let Fact::Reachable { ctx, function } = &state[i] {
            let mut k: usize = 0;
            while k < sites.len()
                invariant
                    k <= sites.len(),
                    i < state.len(),
                    state@[i as int] == (Fact::Reachable { ctx: *ctx, function: *function }),
                    lists_sites(*m, sites@),
                    needs == any_needs_signature(*m, c),
                    forall|h: FactView|
                        #![trigger holds(state@, h)]
                        holds(state@, h) <==> derivable(*m, c, h),
                    forall|q: int, kind: FailureKind|
                        0 <= q < k && (#[trigger] sites@[q]).parent_function == *function
                            ==> !#[trigger] fails(*m, c, strict, kind, ctx@, sites@[q]),
                decreases sites.len() - k,
            {
                let s = sites[k];
                if s.parent_function == *function {
                    proof {
                        assert(sites@.contains(s));
                        assert(holds(state@, state@[i as int]@));
                    }
                    match site_failure(m, strict, state, ctx, s, needs, Ghost(c)) {
                        Some(kind) => {
                            return Some(
                                AssertionFailure { kind, ctx: clone_context(ctx), site: s },
                            );
                        },
                        None => {},
                    }
                }
                k += 1;
            }
            proof {
                assert forall|kind: FailureKind, s: InstructionName|
                    s.parent_function == *function implies !#[trigger] fails(
                    *m,
                    c,
                    strict,
                    kind,
                    ctx@,
                    s,
                ) by {
                    if m.is_site(s) {
                        assert(sites@.contains(s));
                        let q = choose|q: int| 0 <= q < sites@.len() && sites@[q] == s;
                        assert(!fails(*m, c, strict, kind, ctx@, sites@[q]));
                    }
                }
            }
        }
        i += 1;
    }
    proof {
        assert forall|kind: FailureKind, ctx: Seq<InstructionName>, s: InstructionName|
            !fails(*m, c, strict, kind, ctx, s) by {
            if fails(*m, c, strict, kind, ctx, s) {
                let h = FactView::Reachable { ctx, function: s.parent_function };
                assert(holds(state@, h));
                let j = choose|j: int| 0 <= j < state@.len() && (#[trigger] state@[j])@ == h;
                assert(state@[j]@ is Reachable);
                assert(!fails(*m, c, strict, kind, state@[j]@->Reachable_ctx, s));
            }
        }
    }
    None
}

} // verus!
