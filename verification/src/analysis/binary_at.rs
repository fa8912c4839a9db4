//! The rules with two premises that look at a site.

use crate::allocation::Alloc;
use crate::analysis::callgraph::indirect_call_targets;
use crate::analysis::emit::{callee_context, emit_calls, lemma_added, result_of};
use crate::analysis::facts::{clone_context, holds, same_context, Fact, FactView};
use crate::analysis::rules::{
    binary_at, rule_call, rule_call_top, rule_load, rule_store, Setup,
};
use crate::analysis::unary_at::lemma_targets;
use crate::llvm::instruction::Opcode;
use crate::llvm::name::InstructionName;
use crate::llvm::operand::Callee;
use crate::llvm::Module;
use vstd::prelude::*;

verus! {

fn apply_call(m: &Module, c: &Setup, s: InstructionName, a: &Fact, b: &Fact, out: &mut Vec<Fact>)
    ensures
        forall|h: FactView|
            #![trigger holds(final(out)@, h)]
            holds(final(out)@, h) <==> holds(old(out)@, h) || rule_call(*m, *c, s, a@, b@, h),
{
    if let Fact::Reachable { ctx, function } = a {
        if let Fact::OperandPointsTo { ctx: ctx2, operand, alloc } = b {
            if s.parent_function == *function && same_context(ctx2, ctx) {
                if let Some((callee, _)) = m.call_at(s) {
                    if let Callee::Operand(op) = callee {
                        if let Alloc::Function(target) = alloc {
                            if op.equals(operand) {
                                let f = Fact::Calls {
                                    ctx: clone_context(ctx),
                                    site: s,
                                    callee: target.0,
                                    callee_ctx: callee_context(c.contexts, ctx, s),
                                };
                                out.push(f);
                                proof {
                                    lemma_added(old(out)@, out@, f);
                                }
                            }
                        }
                    }
                }
            }
        }
    }
}

fn apply_call_top(
    m: &Module,
    c: &Setup,
    s: InstructionName,
    a: &Fact,
    b: &Fact,
    out: &mut Vec<Fact>,
)
    ensures
        forall|h: FactView|
            #![trigger holds(final(out)@, h)]
            holds(final(out)@, h) <==> holds(old(out)@, h) || rule_call_top(*m, *c, s, a@, b@, h),
{
    if let Fact::Reachable { ctx, function } = a {
        if let Fact::OperandPointsTo { ctx: ctx2, operand, alloc } = b {
            if s.parent_function == *function && same_context(ctx2, ctx) {
                if let Some((callee, args)) = m.call_at(s) {
                    if let Callee::Operand(op) = callee {
                        if let Alloc::Top = alloc {
                            if op.equals(operand) {
                                let targets = indirect_call_targets(m, args.len());
                                emit_calls(c.contexts, ctx, s, &targets, out);
                                proof {
                                    assert forall|h: FactView| #![trigger holds(out@, h)]
                                        holds(out@, h) <==> holds(old(out)@, h) || rule_call_top(
                                            *m,
                                            *c,
                                            s,
                                            a@,
                                            b@,
                                            h,
                                        ) by {
                                        lemma_targets(
                                            *m,
                                            c.contexts,
                                            ctx@,
                                            s,
                                            args@.len(),
                                            targets@,
                                            h,
                                        );
                                    }
                                }
                            }
                        }
                    }
                }
            }
        }
    }
}

fn apply_store(m: &Module, c: &Setup, s: InstructionName, a: &Fact, b: &Fact, out: &mut Vec<Fact>)
    ensures
        forall|h: FactView|
            #![trigger holds(final(out)@, h)]
            holds(final(out)@, h) <==> holds(old(out)@, h) || rule_store(*m, *c, s, a@, b@, h),
{
    if let Fact::OperandPointsTo { ctx, operand, alloc } = a {
        if let Fact::OperandPointsTo { ctx: ctx2, operand: operand2, alloc: alloc2 } = b {
            if alloc.storable(m) && m.has_instruction(s) {
                if let Opcode::Store(st) = m.opcode_of(s) {
                    if st.pointer.equals(operand) && st.value.equals(operand2) && same_context(
                        ctx2,
                        ctx,
                    ) {
                        let f = Fact::AllocPointsTo { from: *alloc, to: *alloc2 };
                        out.push(f);
                        proof {
                            lemma_added(old(out)@, out@, f);
                        }
                    }
                }
            }
        }
    }
}

fn apply_load(m: &Module, c: &Setup, s: InstructionName, a: &Fact, b: &Fact, out: &mut Vec<Fact>)
    ensures
        forall|h: FactView|
            #![trigger holds(final(out)@, h)]
            holds(final(out)@, h) <==> holds(old(out)@, h) || rule_load(*m, *c, s, a@, b@, h),
{
    if let Fact::OperandPointsTo { ctx, operand, alloc } = a {
        if let Fact::AllocPointsTo { from, to } = b {
            if *from == *alloc && alloc.loadable() && m.has_instruction(s) {
                if let Opcode::Load(l) = m.opcode_of(s) {
                    if l.pointer.equals(operand) {
                        let f = Fact::OperandPointsTo {
                            ctx: clone_context(ctx),
                            operand: result_of(s),
                            alloc: *to,
                        };
                        out.push(f);
                        proof {
                            lemma_added(old(out)@, out@, f);
                        }
                    }
                }
            }
        }
    }
}

/// Adds what follows from `a` and `b` at the site `s`.
pub fn derive_binary_at(
    m: &Module,
    c: &Setup,
    s: InstructionName,
    a: &Fact,
    b: &Fact,
    out: &mut Vec<Fact>,
)
    requires
        m.is_site(s),
    ensures
        forall|h: FactView|
            #![trigger holds(final(out)@, h)]
            holds(final(out)@, h) <==> holds(old(out)@, h) || binary_at(*m, *c, s, a@, b@, h),
{
    apply_call(m, c, s, a, b, out);
    apply_call_top(m, c, s, a, b, out);
    apply_store(m, c, s, a, b, out);
    apply_load(m, c, s, a, b, out);
}

} // verus!
