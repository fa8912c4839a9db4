//! The facts that the analyses derive.

use crate::allocation::Alloc;
use crate::klimited::KLimited;
use crate::lattice::IntLattice;
use crate::llvm::name::{FunctionId, InstructionName};
use crate::llvm::operand::Operand;
use vstd::prelude::*;

verus! {

/// A calling context: the most recent call sites, newest first.
pub type Context = KLimited<InstructionName>;

/// A fact, as the analyses hold it.
#[derive(Debug)]
pub enum Fact {
    /// The function is invoked in the context.
    Reachable { ctx: Context, function: FunctionId },
    /// The call site, in the context, calls the function in the callee's
    /// context.
    Calls { ctx: Context, site: InstructionName, callee: FunctionId, callee_ctx: Context },
    /// The operand, in the context, may denote the allocation.
    OperandPointsTo { ctx: Context, operand: Operand, alloc: Alloc },
    /// A cell of the first allocation may hold a pointer to the second.
    AllocPointsTo { from: Alloc, to: Alloc },
    /// A call, in the context, copies memory from `src` to `dst`.
    Memcpy { ctx: Context, dst: Operand, src: Operand, size: Option<u64> },
    /// A copy to `dst`, in the context, reads the allocation `source`.
    MemcpySource { ctx: Context, dst: Operand, source: Alloc },
    /// Memory is copied from the allocation `source` to the allocation
    /// `target`.
    MemcpyAlloc { target: Alloc, source: Alloc },
    /// The two allocations are unified.
    Unified { a: Alloc, b: Alloc },
    /// The declared function is called and no signature describes it.
    NeedsSignature { function: FunctionId },
    /// The call site may call the function.
    Callgraph { site: InstructionName, callee: FunctionId },
    /// An allocation that cannot be freed is passed to `free`.
    FreeNonHeap { alloc: Alloc },
    /// The callee operand of a call may denote something that is no function.
    InvalidCall { operand: Operand, alloc: Alloc },
    /// The address of a load may denote something that cannot be read.
    InvalidLoad { operand: Operand, alloc: Alloc },
    /// The destination of a copy may denote something that cannot be written.
    InvalidMemcpyDst { operand: Operand, alloc: Alloc },
    /// The source of a copy may denote something that cannot be read.
    InvalidMemcpySrc { operand: Operand, alloc: Alloc },
    /// The address of a store may denote something that cannot be written.
    InvalidStore { operand: Operand, alloc: Alloc },
    /// The operand may denote `Top`.
    PointsToTop { operand: Operand },
    /// The operand, in the context, may have the value.
    OperandValue { ctx: Context, operand: Operand, value: IntLattice },
    /// The first operand of the addition or subtraction at the site has a
    /// value in the context.
    Operated { ctx: Context, site: InstructionName },
    /// Nothing is known of the value of the operand.
    ValueTop { operand: Operand },
}

/// A fact, as the rules speak of it: contexts are sequences of call sites.
pub ghost enum FactView {
    Reachable { ctx: Seq<InstructionName>, function: FunctionId },
    Calls {
        ctx: Seq<InstructionName>,
        site: InstructionName,
        callee: FunctionId,
        callee_ctx: Seq<InstructionName>,
    },
    OperandPointsTo { ctx: Seq<InstructionName>, operand: Operand, alloc: Alloc },
    AllocPointsTo { from: Alloc, to: Alloc },
    Memcpy { ctx: Seq<InstructionName>, dst: Operand, src: Operand, size: Option<u64> },
    MemcpySource { ctx: Seq<InstructionName>, dst: Operand, source: Alloc },
    MemcpyAlloc { target: Alloc, source: Alloc },
    Unified { a: Alloc, b: Alloc },
    NeedsSignature { function: FunctionId },
    Callgraph { site: InstructionName, callee: FunctionId },
    FreeNonHeap { alloc: Alloc },
    InvalidCall { operand: Operand, alloc: Alloc },
    InvalidLoad { operand: Operand, alloc: Alloc },
    InvalidMemcpyDst { operand: Operand, alloc: Alloc },
    InvalidMemcpySrc { operand: Operand, alloc: Alloc },
    InvalidStore { operand: Operand, alloc: Alloc },
    PointsToTop { operand: Operand },
    OperandValue { ctx: Seq<InstructionName>, operand: Operand, value: IntLattice },
    Operated { ctx: Seq<InstructionName>, site: InstructionName },
    ValueTop { operand: Operand },
}

impl View for Fact {
    type V = FactView;

    open spec fn view(&self) -> FactView {
        match *self {
            Fact::Reachable { ctx, function } => FactView::Reachable { ctx: ctx@, function },
            Fact::Calls { ctx, site, callee, callee_ctx } => FactView::Calls {
                ctx: ctx@,
                site,
                callee,
                callee_ctx: callee_ctx@,
            },
            Fact::OperandPointsTo { ctx, operand, alloc } => FactView::OperandPointsTo {
                ctx: ctx@,
                operand,
                alloc,
            },
            Fact::AllocPointsTo { from, to } => FactView::AllocPointsTo { from, to },
            Fact::Memcpy { ctx, dst, src, size } => FactView::Memcpy { ctx: ctx@, dst, src, size },
            Fact::MemcpySource { ctx, dst, source } => FactView::MemcpySource { ctx: ctx@, dst, source },
            Fact::MemcpyAlloc { target, source } => FactView::MemcpyAlloc { target, source },
            Fact::Unified { a, b } => FactView::Unified { a, b },
            Fact::NeedsSignature { function } => FactView::NeedsSignature { function },
            Fact::Callgraph { site, callee } => FactView::Callgraph { site, callee },
            Fact::FreeNonHeap { alloc } => FactView::FreeNonHeap { alloc },
            Fact::InvalidCall { operand, alloc } => FactView::InvalidCall { operand, alloc },
            Fact::InvalidLoad { operand, alloc } => FactView::InvalidLoad { operand, alloc },
            Fact::InvalidMemcpyDst { operand, alloc } => FactView::InvalidMemcpyDst {
                operand,
                alloc,
            },
            Fact::InvalidMemcpySrc { operand, alloc } => FactView::InvalidMemcpySrc {
                operand,
                alloc,
            },
            Fact::InvalidStore { operand, alloc } => FactView::InvalidStore { operand, alloc },
            Fact::PointsToTop { operand } => FactView::PointsToTop { operand },
            Fact::OperandValue { ctx, operand, value } => FactView::OperandValue {
                ctx: ctx@,
                operand,
                value,
            },
            Fact::Operated { ctx, site } => FactView::Operated { ctx: ctx@, site },
            Fact::ValueTop { operand } => FactView::ValueTop { operand },
        }
    }
}

/// Whether the list holds a fact with the view `h`.
pub open spec fn holds(facts: Seq<Fact>, h: FactView) -> bool {
    exists|i: int| 0 <= i < facts.len() && (#[trigger] facts[i])@ == h
}

/// What a list of facts holds after a push.
pub proof fn lemma_push_holds(facts: Seq<Fact>, f: Fact, h: FactView)
    ensures
        holds(facts.push(f), h) <==> holds(facts, h) || f@ == h,
{
    if holds(facts.push(f), h) {
        let k = choose|k: int| 0 <= k < facts.push(f).len() && (#[trigger] facts.push(f)[k])@ == h;
        if k < facts.len() {
            assert(facts[k]@ == h);
        }
    }
    if holds(facts, h) {
        let k = choose|k: int| 0 <= k < facts.len() && (#[trigger] facts[k])@ == h;
        assert(facts.push(f)[k]@ == h);
    }
    assert(facts.push(f)[facts.len() as int] == f);
}

/// The copy of a context.
pub fn clone_context(ctx: &Context) -> (r: Context)
    ensures
        r@ == ctx@,
        r.k == ctx.k,
{
    let elems = ctx.elems.clone();
    assert(elems@ =~= ctx.elems@);
    KLimited { k: ctx.k, elems }
}

/// The copy of a context under the limit `k`.
pub fn context_under(ctx: &Context, k: usize) -> (r: Context)
    ensures
        r@ == ctx@,
        r.k == k,
{
    let elems = ctx.elems.clone();
    assert(elems@ =~= ctx.elems@);
    KLimited { k, elems }
}

/// Whether two contexts hold the same call sites.
pub fn same_context(a: &Context, b: &Context) -> (r: bool)
    ensures
        r == (a@ == b@),
{
    if a.elems.len() != b.elems.len() {
        return false;
    }
    let n = a.elems.len();
    let mut i: usize = 0;
    while i < n
        invariant
            i <= n,
            n == a@.len(),
            n == b@.len(),
            forall|j: int| 0 <= j < i ==> a@[j] == b@[j],
        decreases n - i,
    {
        if a.elems[i] != b.elems[i] {
            return false;
        }
        i += 1;
    }
    assert(a@ =~= b@);
    true
}

impl Fact {
    pub fn clone(&self) -> (r: Self)
        ensures
            r@ == self@,
    {
        match self {
            Fact::Reachable { ctx, function } => Fact::Reachable {
                ctx: clone_context(ctx),
                function: *function,
            },
            Fact::Calls { ctx, site, callee, callee_ctx } => Fact::Calls {
                ctx: clone_context(ctx),
                site: *site,
                callee: *callee,
                callee_ctx: clone_context(callee_ctx),
            },
            Fact::OperandPointsTo { ctx, operand, alloc } => Fact::OperandPointsTo {
                ctx: clone_context(ctx),
                operand: operand.clone(),
                alloc: *alloc,
            },
            Fact::AllocPointsTo { from, to } => Fact::AllocPointsTo { from: *from, to: *to },
            Fact::Memcpy { ctx, dst, src, size } => Fact::Memcpy {
                ctx: clone_context(ctx),
                dst: dst.clone(),
                src: src.clone(),
                size: *size,
            },
            Fact::MemcpySource { ctx, dst, source } => Fact::MemcpySource {
                ctx: clone_context(ctx),
                dst: dst.clone(),
                source: *source,
            },
            Fact::MemcpyAlloc { target, source } => Fact::MemcpyAlloc {
                target: *target,
                source: *source,
            },
            Fact::Unified { a, b } => Fact::Unified { a: *a, b: *b },
            Fact::NeedsSignature { function } => Fact::NeedsSignature { function: *function },
            Fact::Callgraph { site, callee } => Fact::Callgraph { site: *site, callee: *callee },
            Fact::FreeNonHeap { alloc } => Fact::FreeNonHeap { alloc: *alloc },
            Fact::InvalidCall { operand, alloc } => Fact::InvalidCall {
                operand: operand.clone(),
                alloc: *alloc,
            },
            Fact::InvalidLoad { operand, alloc } => Fact::InvalidLoad {
                operand: operand.clone(),
                alloc: *alloc,
            },
            Fact::InvalidMemcpyDst { operand, alloc } => Fact::InvalidMemcpyDst {
                operand: operand.clone(),
                alloc: *alloc,
            },
            Fact::InvalidMemcpySrc { operand, alloc } => Fact::InvalidMemcpySrc {
                operand: operand.clone(),
                alloc: *alloc,
            },
            Fact::InvalidStore { operand, alloc } => Fact::InvalidStore {
                operand: operand.clone(),
                alloc: *alloc,
            },
            Fact::PointsToTop { operand } => Fact::PointsToTop { operand: operand.clone() },
            Fact::OperandValue { ctx, operand, value } => Fact::OperandValue {
                ctx: clone_context(ctx),
                operand: operand.clone(),
                value: *value,
            },
            Fact::Operated { ctx, site } => Fact::Operated { ctx: clone_context(ctx), site: *site },
            Fact::ValueTop { operand } => Fact::ValueTop { operand: operand.clone() },
        }
    }

    /// Whether two facts say the same.
    pub fn equals(&self, other: &Self) -> (r: bool)
        ensures
            r == (self@ == other@),
    {
        match (self, other) {
            (
                Fact::Reachable { ctx: c1, function: f1 },
                Fact::Reachable { ctx: c2, function: f2 },
            ) => *f1 == *f2 && same_context(c1, c2),
            (
                Fact::Calls { ctx: c1, site: s1, callee: f1, callee_ctx: d1 },
                Fact::Calls { ctx: c2, site: s2, callee: f2, callee_ctx: d2 },
            ) => *s1 == *s2 && *f1 == *f2 && same_context(c1, c2) && same_context(d1, d2),
            (
                Fact::OperandPointsTo { ctx: c1, operand: o1, alloc: a1 },
                Fact::OperandPointsTo { ctx: c2, operand: o2, alloc: a2 },
            ) => *a1 == *a2 && o1.equals(o2) && same_context(c1, c2),
            (
                Fact::AllocPointsTo { from: a1, to: b1 },
                Fact::AllocPointsTo { from: a2, to: b2 },
            ) => *a1 == *a2 && *b1 == *b2,
            (
                Fact::Memcpy { ctx: c1, dst: d1, src: s1, size: z1 },
                Fact::Memcpy { ctx: c2, dst: d2, src: s2, size: z2 },
            ) => *z1 == *z2 && d1.equals(d2) && s1.equals(s2) && same_context(c1, c2),
            (
                Fact::MemcpySource { ctx: c1, dst: d1, source: s1 },
                Fact::MemcpySource { ctx: c2, dst: d2, source: s2 },
            ) => *s1 == *s2 && d1.equals(d2) && same_context(c1, c2),
            (
                Fact::MemcpyAlloc { target: d1, source: s1 },
                Fact::MemcpyAlloc { target: d2, source: s2 },
            ) => *d1
                == *d2 && *s1 == *s2,
            (Fact::Unified { a: a1, b: b1 }, Fact::Unified { a: a2, b: b2 }) => *a1 == *a2 && *b1
                == *b2,
            (Fact::NeedsSignature { function: f1 }, Fact::NeedsSignature { function: f2 }) => *f1
                == *f2,
            (
                Fact::Callgraph { site: s1, callee: f1 },
                Fact::Callgraph { site: s2, callee: f2 },
            ) => *s1 == *s2 && *f1 == *f2,
            (Fact::FreeNonHeap { alloc: a1 }, Fact::FreeNonHeap { alloc: a2 }) => *a1 == *a2,
            (
                Fact::InvalidCall { operand: o1, alloc: a1 },
                Fact::InvalidCall { operand: o2, alloc: a2 },
            ) => *a1 == *a2 && o1.equals(o2),
            (
                Fact::InvalidLoad { operand: o1, alloc: a1 },
                Fact::InvalidLoad { operand: o2, alloc: a2 },
            ) => *a1 == *a2 && o1.equals(o2),
            (
                Fact::InvalidMemcpyDst { operand: o1, alloc: a1 },
                Fact::InvalidMemcpyDst { operand: o2, alloc: a2 },
            ) => *a1 == *a2 && o1.equals(o2),
            (
                Fact::InvalidMemcpySrc { operand: o1, alloc: a1 },
                Fact::InvalidMemcpySrc { operand: o2, alloc: a2 },
            ) => *a1 == *a2 && o1.equals(o2),
            (
                Fact::InvalidStore { operand: o1, alloc: a1 },
                Fact::InvalidStore { operand: o2, alloc: a2 },
            ) => *a1 == *a2 && o1.equals(o2),
            (Fact::PointsToTop { operand: o1 }, Fact::PointsToTop { operand: o2 }) => o1.equals(
                o2,
            ),
            (
                Fact::OperandValue { ctx: c1, operand: o1, value: v1 },
                Fact::OperandValue { ctx: c2, operand: o2, value: v2 },
            ) => *v1 == *v2 && o1.equals(o2) && same_context(c1, c2),
            (Fact::Operated { ctx: c1, site: s1 }, Fact::Operated { ctx: c2, site: s2 }) => *s1
                == *s2 && same_context(c1, c2),
            (Fact::ValueTop { operand: o1 }, Fact::ValueTop { operand: o2 }) => o1.equals(o2),
            _ => false,
        }
    }
}

/// Whether the list holds a fact that says what `f` says.
pub fn contains_fact(facts: &Vec<Fact>, f: &Fact) -> (r: bool)
    ensures
        r == holds(facts@, f@),
{
    let mut i: usize = 0;
    while i < facts.len()
        invariant
            i <= facts.len(),
            forall|j: int| 0 <= j < i ==> (#[trigger] facts@[j])@ != f@,
        decreases facts.len() - i,
    {
        if facts[i].equals(f) {
            return true;
        }
        i += 1;
    }
    false
}

} // verus!
