//! The rules of the analysis of integer values, as functions that derive
//! facts.

use crate::analysis::emit::{emit_calls, lemma_added, result_of};
use crate::analysis::facts::{clone_context, holds, same_context, Fact, FactView};
use crate::analysis::initial::{apply_main, empty_context};
use crate::analysis::lookup::{is_main, parameter_of, returns_operand_of};
use crate::analysis::rules::{is_main_name, parameter_operand, Setup};
use crate::analysis::unary::apply_reachable;
use crate::analysis::values::{
    binary_values, binary_values_at, calls_target, constant_value, first_operand, initial_argc,
    initial_values, is_unknown, passes_value, return_type, rule_argument_value,
    rule_constant_value, rule_foreign, rule_known_call, rule_operand_ready, rule_operated,
    rule_pass_value, rule_return_value, rule_unknown_value, rule_value_clash, rule_value_top,
    rule_void,
    second_operand, top, unary_values, unary_values_at,
};
use crate::klimited::pushed_seq;
use crate::lattice::{ConstValue, Int, IntLattice};
use crate::llvm::constant::Constant;
use crate::llvm::instruction::Opcode;
use crate::llvm::name::{FunctionId, InstructionName};
use crate::llvm::operand::{Callee, Operand};
use crate::llvm::terminator::TerminatorOpcode;
use crate::llvm::{Module, Type};
use crate::sequences::lemma_push_contains;
use vstd::prelude::*;

verus! {

fn top_value() -> (r: IntLattice)
    ensures
        r == top(),
{
    IntLattice(ConstValue::Top)
}

fn is_top(v: &IntLattice) -> (r: bool)
    ensures
        r == (*v == top()),
{
    match v.0 {
        ConstValue::Top => true,
        _ => false,
    }
}

fn constant_value_of(k: &Constant) -> (r: IntLattice)
    ensures
        r == constant_value(*k),
{
    match k {
        Constant::Int { bits, value } => IntLattice(
            ConstValue::Constant(Int { bits: *bits, value: *value }),
        ),
        _ => IntLattice(ConstValue::Top),
    }
}

fn return_type_of(m: &Module, f: FunctionId) -> (r: Type)
    requires
        m.is_function(f),
    ensures
        r == return_type(*m, f),
{
    if f < m.functions.len() {
        m.functions[f].return_type
    } else {
        m.decls[f - m.functions.len()].return_type
    }
}

fn passes_value_of(op: &Opcode, o: &Operand) -> (r: bool)
    ensures
        r == passes_value(*op, *o),
{
    match op {
        Opcode::BitCast(b) => o.equals(&b.pointer),
        Opcode::IntToPtr(i) => o.equals(&i.int),
        Opcode::Phi(p) => {
            let mut i: usize = 0;
            while i < p.values.len()
                invariant
                    i <= p.values.len(),
                    *op == Opcode::Phi(*p),
                    forall|j: int| 0 <= j < i ==> p.values@[j] != *o,
                decreases p.values.len() - i,
            {
                if p.values[i].equals(o) {
                    assert(p.values@[i as int] == *o);
                    return true;
                }
                i += 1;
            }
            false
        },
        Opcode::PtrToInt(p) => o.equals(&p.pointer),
        Opcode::Select(s) => o.equals(&s.true_value) || o.equals(&s.false_value),
        _ => false,
    }
}

fn is_unknown_of(m: &Module, s: InstructionName) -> (r: bool)
    requires
        m.is_site(s),
    ensures
        r == is_unknown(*m, s),
{
    if m.has_instruction(s) {
        match m.opcode_of(s) {
            Opcode::Alloca(_) => true,
            Opcode::GetElementPtr(_) => true,
            Opcode::Icmp(_) => true,
            Opcode::Load(_) => true,
            Opcode::Other => true,
            Opcode::Store(_) => true,
            _ => false,
        }
    } else {
        match m.terminator_of(s) {
            TerminatorOpcode::Other => true,
            _ => false,
        }
    }
}

/// The targets that the callgraph gives the call site.
fn targets_of(c: &Setup, s: InstructionName) -> (r: Vec<FunctionId>)
    ensures
        forall|f: FunctionId| #![trigger r@.contains(f)] r@.contains(f) <==> calls_target(*c, s, f),
{
    let mut out: Vec<FunctionId> = Vec::new();
    if let Some(rows) = &c.callgraph {
        let mut k: usize = 0;
        while k < rows.len()
            invariant
                k <= rows.len(),
                c.callgraph == Some(*rows),
                forall|f: FunctionId|
                    #![trigger out@.contains(f)]
                    out@.contains(f) <==> exists|j: int|
                        0 <= j < k && (#[trigger] rows@[j]).0 == s && rows@[j].1@.contains(f),
            decreases rows.len() - k,
        {
            if rows[k].0 == s {
                let targets = &rows[k].1;
                let mut i: usize = 0;
                while i < targets.len()
                    invariant
                        i <= targets.len(),
                        k < rows.len(),
                        rows@[k as int].0 == s,
                        *targets == rows@[k as int].1,
                        forall|f: FunctionId|
                            #![trigger out@.contains(f)]
                            out@.contains(f) <==> (exists|j: int|
                                0 <= j < k && (#[trigger] rows@[j]).0 == s && rows@[j].1@.contains(
                                    f,
                                )) || exists|q: int| 0 <= q < i && #[trigger] targets@[q] == f,
                    decreases targets.len() - i,
                {
                    let ghost before = out@;
                    let t = targets[i];
                    out.push(t);
                    proof {
                        assert forall|f: FunctionId| #![trigger out@.contains(f)]
                            out@.contains(f) <==> (exists|j: int|
                                0 <= j < k && (#[trigger] rows@[j]).0 == s && rows@[j].1@.contains(
                                    f,
                                )) || exists|q: int| 0 <= q < i + 1 && #[trigger] targets@[q]
                                == f by {
                            lemma_push_contains(before, t, f);
                            assert(before.contains(f) <==> (exists|j: int|
                                0 <= j < k && (#[trigger] rows@[j]).0 == s && rows@[j].1@.contains(
                                    f,
                                )) || exists|q: int| 0 <= q < i && #[trigger] targets@[q] == f);
                            if f == t {
                                assert(targets@[i as int] == f);
                            }
                        }
                    }
                    i += 1;
                }
                proof {
                    assert forall|f: FunctionId| #![trigger out@.contains(f)]
                        out@.contains(f) <==> exists|j: int|
                            0 <= j < k + 1 && (#[trigger] rows@[j]).0 == s && rows@[j].1@.contains(
                                f,
                            ) by {
                        if exists|q: int| 0 <= q < targets@.len() && #[trigger] targets@[q] == f {
                            assert(rows@[k as int].1@.contains(f));
                        }
                        if exists|j: int|
                            0 <= j < k + 1 && (#[trigger] rows@[j]).0 == s && rows@[j].1@.contains(
                                f,
                            ) {
                            let j = choose|j: int|
                                0 <= j < k + 1 && (#[trigger] rows@[j]).0 == s
                                    && rows@[j].1@.contains(f);
                            if j == k {
                                let q = choose|q: int|
                                    0 <= q < targets@.len() && targets@[q] == f;
                                assert(targets@[q] == f);
                            }
                        }
                    }
                }
            } else {
                proof {
                    assert forall|f: FunctionId| #![trigger out@.contains(f)]
                        out@.contains(f) <==> exists|j: int|
                            0 <= j < k + 1 && (#[trigger] rows@[j]).0 == s && rows@[j].1@.contains(
                                f,
                            ) by {
                        if exists|j: int|
                            0 <= j < k + 1 && (#[trigger] rows@[j]).0 == s && rows@[j].1@.contains(
                                f,
                            ) {
                            let j = choose|j: int|
                                0 <= j < k + 1 && (#[trigger] rows@[j]).0 == s
                                    && rows@[j].1@.contains(f);
                            assert(j < k);
                        }
                    }
                }
            }
            k += 1;
        }
    }
    out
}

// ----------------------------------------------------------------------
// Initial facts
fn apply_argc(m: &Module, c: &Setup, out: &mut Vec<Fact>)
    ensures
        forall|h: FactView|
            #![trigger holds(final(out)@, h)]
            holds(final(out)@, h) <==> holds(old(out)@, h) || initial_argc(*m, *c, h),
{
    let mut f: usize = 0;
    while f < m.functions.len()
        invariant
            f <= m.functions.len(),
            forall|h: FactView|
                #![trigger holds(out@, h)]
                holds(out@, h) <==> holds(old(out)@, h) || exists|g: usize|
                    #![trigger m.functions@[g as int]]
                    g < f && is_main_name(m.functions@[g as int].name@)
                        && m.functions@[g as int].parameters.len() >= 1 && h
                        == (FactView::OperandValue {
                        ctx: Seq::empty(),
                        operand: parameter_operand(g, 0),
                        value: top(),
                    }),
        decreases m.functions.len() - f,
    {
        let ghost before = out@;
        if is_main(m.functions[f].name.get()) && m.functions[f].parameters.len() >= 1 {
            let x = Fact::OperandValue {
                ctx: empty_context(c.contexts),
                operand: parameter_of(f, 0),
                value: top_value(),
            };
            out.push(x);
            proof {
                lemma_added(before, out@, x);
                assert forall|h: FactView| #![trigger holds(out@, h)]
                    holds(out@, h) <==> holds(old(out)@, h) || exists|g: usize|
                        #![trigger m.functions@[g as int]]
                        g < f + 1 && is_main_name(m.functions@[g as int].name@)
                            && m.functions@[g as int].parameters.len() >= 1 && h
                            == (FactView::OperandValue {
                            ctx: Seq::empty(),
                            operand: parameter_operand(g, 0),
                            value: top(),
                        }) by {
                    assert(holds(before, h) <==> holds(old(out)@, h) || exists|g: usize|
                        #![trigger m.functions@[g as int]]
                        g < f && is_main_name(m.functions@[g as int].name@)
                            && m.functions@[g as int].parameters.len() >= 1 && h
                            == (FactView::OperandValue {
                            ctx: Seq::empty(),
                            operand: parameter_operand(g, 0),
                            value: top(),
                        }));
                    if h == x@ {
                        assert(is_main_name(m.functions@[f as int].name@));
                    }
                }
            }
        } else {
            proof {
                assert forall|h: FactView| #![trigger holds(out@, h)]
                    holds(out@, h) <==> holds(old(out)@, h) || exists|g: usize|
                        #![trigger m.functions@[g as int]]
                        g < f + 1 && is_main_name(m.functions@[g as int].name@)
                            && m.functions@[g as int].parameters.len() >= 1 && h
                            == (FactView::OperandValue {
                            ctx: Seq::empty(),
                            operand: parameter_operand(g, 0),
                            value: top(),
                        }) by {
                    assert(holds(before, h) <==> holds(old(out)@, h) || exists|g: usize|
                        #![trigger m.functions@[g as int]]
                        g < f && is_main_name(m.functions@[g as int].name@)
                            && m.functions@[g as int].parameters.len() >= 1 && h
                            == (FactView::OperandValue {
                            ctx: Seq::empty(),
                            operand: parameter_operand(g, 0),
                            value: top(),
                        }));
                }
            }
        }
        f += 1;
    }
}

/// Adds the facts that hold without a premise.
pub fn derive_initial_values(m: &Module, c: &Setup, out: &mut Vec<Fact>)
    ensures
        forall|h: FactView|
            #![trigger holds(final(out)@, h)]
            holds(final(out)@, h) <==> holds(old(out)@, h) || initial_values(*m, *c, h),
{
    apply_main(m, c, out);
    apply_argc(m, c, out);
}

// ----------------------------------------------------------------------
// One premise, no site
fn apply_void(m: &Module, c: &Setup, a: &Fact, out: &mut Vec<Fact>)
    ensures
        forall|h: FactView|
            #![trigger holds(final(out)@, h)]
            holds(final(out)@, h) <==> holds(old(out)@, h) || rule_void(*m, *c, a@, h),
{
    if let Fact::Calls { ctx, site, callee, callee_ctx } = a {
        if m.has_function(*callee) {
            if let Type::Void = return_type_of(m, *callee) {
                let f = Fact::OperandValue {
                    ctx: clone_context(ctx),
                    operand: result_of(*site),
                    value: top_value(),
                };
                out.push(f);
                proof {
                    lemma_added(old(out)@, out@, f);
                }
            }
        }
    }
}

fn apply_foreign(m: &Module, c: &Setup, a: &Fact, out: &mut Vec<Fact>)
    ensures
        forall|h: FactView|
            #![trigger holds(final(out)@, h)]
            holds(final(out)@, h) <==> holds(old(out)@, h) || rule_foreign(*m, *c, a@, h),
{
    if let Fact::Calls { ctx, site, callee, callee_ctx } = a {
        if *callee >= m.functions.len() && *callee - m.functions.len() < m.decls.len() {
            let f = Fact::OperandValue {
                ctx: clone_context(ctx),
                operand: result_of(*site),
                value: top_value(),
            };
            out.push(f);
            proof {
                lemma_added(old(out)@, out@, f);
            }
        }
    }
}

fn apply_value_top(m: &Module, c: &Setup, a: &Fact, out: &mut Vec<Fact>)
    ensures
        forall|h: FactView|
            #![trigger holds(final(out)@, h)]
            holds(final(out)@, h) <==> holds(old(out)@, h) || rule_value_top(*m, *c, a@, h),
{
    if let Fact::OperandValue { ctx, operand, value } = a {
        if is_top(value) {
            let f = Fact::ValueTop { operand: operand.clone() };
            out.push(f);
            proof {
                lemma_added(old(out)@, out@, f);
            }
        }
    }
}

/// Adds what follows from `a` without a look at a site.
pub fn derive_unary_values(m: &Module, c: &Setup, a: &Fact, out: &mut Vec<Fact>)
    ensures
        forall|h: FactView|
            #![trigger holds(final(out)@, h)]
            holds(final(out)@, h) <==> holds(old(out)@, h) || unary_values(*m, *c, a@, h),
{
    apply_reachable(m, c, a, out);
    apply_void(m, c, a, out);
    apply_foreign(m, c, a, out);
    apply_value_top(m, c, a, out);
}

// ----------------------------------------------------------------------
// One premise, at a site
fn apply_known_call(m: &Module, c: &Setup, s: InstructionName, a: &Fact, out: &mut Vec<Fact>)
    ensures
        forall|h: FactView|
            #![trigger holds(final(out)@, h)]
            holds(final(out)@, h) <==> holds(old(out)@, h) || rule_known_call(*m, *c, s, a@, h),
{
    if let Fact::Reachable { ctx, function } = a {
        if s.parent_function == *function {
            let targets = targets_of(c, s);
            emit_calls(c.contexts, ctx, s, &targets, out);
            proof {
                assert forall|h: FactView| #![trigger holds(out@, h)]
                    holds(out@, h) <==> holds(old(out)@, h) || rule_known_call(
                        *m,
                        *c,
                        s,
                        a@,
                        h,
                    ) by {
                    if rule_known_call(*m, *c, s, a@, h) {
                        let f = choose|f: FunctionId|
                            #![trigger calls_target(*c, s, f)]
                            calls_target(*c, s, f) && h == (FactView::Calls {
                                ctx: ctx@,
                                site: s,
                                callee: f,
                                callee_ctx: pushed_seq(c.contexts as nat, ctx@, s),
                            });
                        assert(targets@.contains(f));
                    }
                    if exists|f: FunctionId|
                        #![trigger targets@.contains(f)]
                        targets@.contains(f) && h == (FactView::Calls {
                            ctx: ctx@,
                            site: s,
                            callee: f,
                            callee_ctx: pushed_seq(c.contexts as nat, ctx@, s),
                        }) {
                        let f = choose|f: FunctionId|
                            #![trigger targets@.contains(f)]
                            targets@.contains(f) && h == (FactView::Calls {
                                ctx: ctx@,
                                site: s,
                                callee: f,
                                callee_ctx: pushed_seq(c.contexts as nat, ctx@, s),
                            });
                        assert(calls_target(*c, s, f));
                    }
                }
            }
        }
    }
}

fn apply_constant_value(m: &Module, c: &Setup, s: InstructionName, a: &Fact, out: &mut Vec<Fact>)
    ensures
        forall|h: FactView|
            #![trigger holds(final(out)@, h)]
            holds(final(out)@, h) <==> holds(old(out)@, h) || rule_constant_value(
                *m,
                *c,
                s,
                a@,
                h,
            ),
{
    if let Fact::Reachable { ctx, function } = a {
        if s.parent_function == *function {
            let ops = m.operands_at(s);
            let mut i: usize = 0;
            while i < ops.len()
                invariant
                    i <= ops.len(),
                    ops@ == m.operands(s),
                    forall|h: FactView|
                        #![trigger holds(out@, h)]
                        holds(out@, h) <==> holds(old(out)@, h) || exists|j: int|
                            0 <= j < i && (#[trigger] ops@[j]) is Constant && h
                                == (FactView::OperandValue {
                                ctx: ctx@,
                                operand: ops@[j],
                                value: constant_value(ops@[j]->Constant_0),
                            }),
                decreases ops.len() - i,
            {
                let ghost before = out@;
                if let Operand::Constant(k) = &ops[i] {
                    let f = Fact::OperandValue {
                        ctx: clone_context(ctx),
                        operand: ops[i].clone(),
                        value: constant_value_of(k),
                    };
                    out.push(f);
                    proof {
                        lemma_added(before, out@, f);
                        assert forall|h: FactView| #![trigger holds(out@, h)]
                            holds(out@, h) <==> holds(old(out)@, h) || exists|j: int|
                                0 <= j < i + 1 && (#[trigger] ops@[j]) is Constant && h
                                    == (FactView::OperandValue {
                                    ctx: ctx@,
                                    operand: ops@[j],
                                    value: constant_value(ops@[j]->Constant_0),
                                }) by {
                            assert(holds(before, h) <==> holds(old(out)@, h) || exists|j: int|
                                0 <= j < i && (#[trigger] ops@[j]) is Constant && h
                                    == (FactView::OperandValue {
                                    ctx: ctx@,
                                    operand: ops@[j],
                                    value: constant_value(ops@[j]->Constant_0),
                                }));
                            if h == f@ {
                                assert(ops@[i as int] is Constant);
                            }
                        }
                    }
                } else {
                    proof {
                        assert forall|h: FactView| #![trigger holds(out@, h)]
                            holds(out@, h) <==> holds(old(out)@, h) || exists|j: int|
                                0 <= j < i + 1 && (#[trigger] ops@[j]) is Constant && h
                                    == (FactView::OperandValue {
                                    ctx: ctx@,
                                    operand: ops@[j],
                                    value: constant_value(ops@[j]->Constant_0),
                                }) by {
                            assert(holds(before, h) <==> holds(old(out)@, h) || exists|j: int|
                                0 <= j < i && (#[trigger] ops@[j]) is Constant && h
                                    == (FactView::OperandValue {
                                    ctx: ctx@,
                                    operand: ops@[j],
                                    value: constant_value(ops@[j]->Constant_0),
                                }));
                        }
                    }
                }
                i += 1;
            }
        }
    }
}

fn apply_unknown_value(m: &Module, c: &Setup, s: InstructionName, a: &Fact, out: &mut Vec<Fact>)
    requires
        m.is_site(s),
    ensures
        forall|h: FactView|
            #![trigger holds(final(out)@, h)]
            holds(final(out)@, h) <==> holds(old(out)@, h) || rule_unknown_value(
                *m,
                *c,
                s,
                a@,
                h,
            ),
{
    if let Fact::Reachable { ctx, function } = a {
        if s.parent_function == *function && is_unknown_of(m, s) {
            let f = Fact::OperandValue {
                ctx: clone_context(ctx),
                operand: result_of(s),
                value: top_value(),
            };
            out.push(f);
            proof {
                lemma_added(old(out)@, out@, f);
            }
        }
    }
}

/// Adds what follows from `a` at the site `s`.
pub fn derive_unary_values_at(
    m: &Module,
    c: &Setup,
    s: InstructionName,
    a: &Fact,
    out: &mut Vec<Fact>,
)
    requires
        m.is_site(s),
    ensures
        forall|h: FactView|
            #![trigger holds(final(out)@, h)]
            holds(final(out)@, h) <==> holds(old(out)@, h) || unary_values_at(*m, *c, s, a@, h),
{
    apply_known_call(m, c, s, a, out);
    apply_constant_value(m, c, s, a, out);
    apply_unknown_value(m, c, s, a, out);
}

// ----------------------------------------------------------------------
// Two premises, no site
fn apply_argument_value(m: &Module, c: &Setup, a: &Fact, b: &Fact, out: &mut Vec<Fact>)
    ensures
        forall|h: FactView|
            #![trigger holds(final(out)@, h)]
            holds(final(out)@, h) <==> holds(old(out)@, h) || rule_argument_value(
                *m,
                *c,
                a@,
                b@,
                h,
            ),
{
    if let Fact::Calls { ctx, site, callee, callee_ctx } = a {
        if let Fact::OperandValue { ctx: ctx2, operand, value } = b {
            if same_context(ctx2, ctx) && *callee < m.functions.len() {
                if let Some((target, args)) = m.call_at(*site) {
                    if let Callee::Operand(_) = target {
                        let params = &m.functions[*callee].parameters;
                        let mut k: usize = 0;
                        while k < params.len() && k < args.len()
                            invariant
                                k <= params.len(),
                                k <= args.len(),
                                *callee < m.functions.len(),
                                *params == m.functions@[*callee as int].parameters,
                                args@ == m.args(*site),
                                forall|h: FactView|
                                    #![trigger holds(out@, h)]
                                    holds(out@, h) <==> holds(old(out)@, h) || exists|j: int|
                                        0 <= j < k && #[trigger] args@[j] == *operand && h
                                            == (FactView::OperandValue {
                                            ctx: callee_ctx@,
                                            operand: parameter_operand(*callee, j),
                                            value: *value,
                                        }),
                            decreases params.len() - k,
                        {
                            let ghost before = out@;
                            if args[k].equals(operand) {
                                let f = Fact::OperandValue {
                                    ctx: clone_context(callee_ctx),
                                    operand: parameter_of(*callee, k),
                                    value: *value,
                                };
                                out.push(f);
                                proof {
                                    lemma_added(before, out@, f);
                                    assert forall|h: FactView| #![trigger holds(out@, h)]
                                        holds(out@, h) <==> holds(old(out)@, h) || exists|j: int|
                                            0 <= j < k + 1 && #[trigger] args@[j] == *operand && h
                                                == (FactView::OperandValue {
                                                ctx: callee_ctx@,
                                                operand: parameter_operand(*callee, j),
                                                value: *value,
                                            }) by {
                                        assert(holds(before, h) <==> holds(old(out)@, h) || exists|
                                            j: int,
                                        |
                                            0 <= j < k && #[trigger] args@[j] == *operand && h
                                                == (FactView::OperandValue {
                                                ctx: callee_ctx@,
                                                operand: parameter_operand(*callee, j),
                                                value: *value,
                                            }));
                                        if h == f@ {
                                            assert(args@[k as int] == *operand);
                                        }
                                    }
                                }
                            } else {
                                proof {
                                    assert forall|h: FactView| #![trigger holds(out@, h)]
                                        holds(out@, h) <==> holds(old(out)@, h) || exists|j: int|
                                            0 <= j < k + 1 && #[trigger] args@[j] == *operand && h
                                                == (FactView::OperandValue {
                                                ctx: callee_ctx@,
                                                operand: parameter_operand(*callee, j),
                                                value: *value,
                                            }) by {
                                        assert(holds(before, h) <==> holds(old(out)@, h) || exists|
                                            j: int,
                                        |
                                            0 <= j < k && #[trigger] args@[j] == *operand && h
                                                == (FactView::OperandValue {
                                                ctx: callee_ctx@,
                                                operand: parameter_operand(*callee, j),
                                                value: *value,
                                            }));
                                    }
                                }
                            }
                            k += 1;
                        }
                        proof {
                            assert forall|h: FactView| #![trigger holds(out@, h)]
                                holds(out@, h) <==> holds(old(out)@, h) || rule_argument_value(
                                    *m,
                                    *c,
                                    a@,
                                    b@,
                                    h,
                                ) by {
                                if rule_argument_value(*m, *c, a@, b@, h) {
                                    let j = choose|j: int|
                                        0 <= j < params@.len() && j < args@.len()
                                            && #[trigger] args@[j] == *operand && h
                                            == (FactView::OperandValue {
                                            ctx: callee_ctx@,
                                            operand: parameter_operand(*callee, j),
                                            value: *value,
                                        });
                                    assert(0 <= j < k && args@[j] == *operand);
                                }
                                if exists|j: int|
                                    0 <= j < k && #[trigger] args@[j] == *operand && h
                                        == (FactView::OperandValue {
                                        ctx: callee_ctx@,
                                        operand: parameter_operand(*callee, j),
                                        value: *value,
                                    }) {
                                    let j = choose|j: int|
                                        0 <= j < k && #[trigger] args@[j] == *operand && h
                                            == (FactView::OperandValue {
                                            ctx: callee_ctx@,
                                            operand: parameter_operand(*callee, j),
                                            value: *value,
                                        });
                                    assert(0 <= j < params@.len() && j < args@.len() && args@[j]
                                        == *operand);
                                }
                            }
                        }
                    }
                }
            }
        }
    }
}

fn apply_return_value(m: &Module, c: &Setup, a: &Fact, b: &Fact, out: &mut Vec<Fact>)
    ensures
        forall|h: FactView|
            #![trigger holds(final(out)@, h)]
            holds(final(out)@, h) <==> holds(old(out)@, h) || rule_return_value(
                *m,
                *c,
                a@,
                b@,
                h,
            ),
{
    if let Fact::Calls { ctx, site, callee, callee_ctx } = a {
        if let Fact::OperandValue { ctx: ctx2, operand, value } = b {
            if same_context(ctx2, callee_ctx) && returns_operand_of(m, *callee, operand) {
                let f = Fact::OperandValue {
                    ctx: clone_context(ctx),
                    operand: result_of(*site),
                    value: *value,
                };
                out.push(f);
                proof {
                    lemma_added(old(out)@, out@, f);
                }
            }
        }
    }
}

fn first_operand_of(op: &Opcode) -> (r: Option<&Operand>)
    ensures
        match r {
            Some(o) => first_operand(*op) == Some(*o),
            None => first_operand(*op) is None,
        },
{
    match op {
        Opcode::Add(a) => Some(&a.operand0),
        Opcode::Sub(s) => Some(&s.minuend),
        _ => None,
    }
}

fn second_operand_of(op: &Opcode) -> (r: Option<&Operand>)
    ensures
        match r {
            Some(o) => second_operand(*op) == Some(*o),
            None => second_operand(*op) is None,
        },
{
    match op {
        Opcode::Add(a) => Some(&a.operand1),
        Opcode::Sub(s) => Some(&s.subtrahend),
        _ => None,
    }
}

fn apply_operated(m: &Module, c: &Setup, a: &Fact, b: &Fact, out: &mut Vec<Fact>)
    ensures
        forall|h: FactView|
            #![trigger holds(final(out)@, h)]
            holds(final(out)@, h) <==> holds(old(out)@, h) || rule_operated(*m, *c, a@, b@, h),
{
    if let Fact::Operated { ctx, site } = a {
        if let Fact::OperandValue { ctx: ctx2, operand, value } = b {
            if same_context(ctx2, ctx) && m.has_instruction(*site) {
                if let Some(second) = second_operand_of(m.opcode_of(*site)) {
                    if second.equals(operand) {
                        let f = Fact::OperandValue {
                            ctx: clone_context(ctx),
                            operand: result_of(*site),
                            value: top_value(),
                        };
                        out.push(f);
                        proof {
                            lemma_added(old(out)@, out@, f);
                        }
                    }
                }
            }
        }
    }
}

fn apply_value_clash(m: &Module, c: &Setup, a: &Fact, b: &Fact, out: &mut Vec<Fact>)
    ensures
        forall|h: FactView|
            #![trigger holds(final(out)@, h)]
            holds(final(out)@, h) <==> holds(old(out)@, h) || rule_value_clash(*m, *c, a@, b@, h),
{
    if let Fact::OperandValue { ctx, operand, value } = a {
        if let Fact::OperandValue { ctx: ctx2, operand: operand2, value: value2 } = b {
            if *value2 != *value && operand2.equals(operand) && same_context(ctx2, ctx) {
                let f = Fact::ValueTop { operand: operand.clone() };
                out.push(f);
                proof {
                    lemma_added(old(out)@, out@, f);
                }
            }
        }
    }
}

/// Adds what follows from `a` and `b` without a look at a site.
pub fn derive_binary_values(m: &Module, c: &Setup, a: &Fact, b: &Fact, out: &mut Vec<Fact>)
    ensures
        forall|h: FactView|
            #![trigger holds(final(out)@, h)]
            holds(final(out)@, h) <==> holds(old(out)@, h) || binary_values(*m, *c, a@, b@, h),
{
    apply_argument_value(m, c, a, b, out);
    apply_return_value(m, c, a, b, out);
    apply_operated(m, c, a, b, out);
    apply_value_clash(m, c, a, b, out);
}

// ----------------------------------------------------------------------
// Two premises, at a site
fn apply_pass_value(
    m: &Module,
    c: &Setup,
    s: InstructionName,
    a: &Fact,
    b: &Fact,
    out: &mut Vec<Fact>,
)
    ensures
        forall|h: FactView|
            #![trigger holds(final(out)@, h)]
            holds(final(out)@, h) <==> holds(old(out)@, h) || rule_pass_value(
                *m,
                *c,
                s,
                a@,
                b@,
                h,
            ),
{
    if let Fact::Reachable { ctx, function } = a {
        if let Fact::OperandValue { ctx: ctx2, operand, value } = b {
            if s.parent_function == *function && m.has_instruction(s) {
                if passes_value_of(m.opcode_of(s), operand) && same_context(ctx2, ctx) {
                    let f = Fact::OperandValue {
                        ctx: clone_context(ctx),
                        operand: result_of(s),
                        value: *value,
                    };
                    out.push(f);
                    proof {
                        lemma_added(old(out)@, out@, f);
                    }
                }
            }
        }
    }
}

fn apply_operand_ready(
    m: &Module,
    c: &Setup,
    s: InstructionName,
    a: &Fact,
    b: &Fact,
    out: &mut Vec<Fact>,
)
    ensures
        forall|h: FactView|
            #![trigger holds(final(out)@, h)]
            holds(final(out)@, h) <==> holds(old(out)@, h) || rule_operand_ready(
                *m,
                *c,
                s,
                a@,
                b@,
                h,
            ),
{
    if let Fact::Reachable { ctx, function } = a {
        if let Fact::OperandValue { ctx: ctx2, operand, value } = b {
            if s.parent_function == *function && m.has_instruction(s) {
                if let Some(first) = first_operand_of(m.opcode_of(s)) {
                    if first.equals(operand) && same_context(ctx2, ctx) {
                        let f = Fact::Operated { ctx: clone_context(ctx), site: s };
                        out.push(f);
                        proof {
                            lemma_added(old(out)@, out@, f);
                        }
                    }
                }
            }
        }
    }
}

/// Adds what follows from `a` and `b` at the site `s`.
pub fn derive_binary_values_at(
    m: &Module,
    c: &Setup,
    s: InstructionName,
    a: &Fact,
    b: &Fact,
    out: &mut Vec<Fact>,
)
    requires
        m.is_site(s),
    ensures
        forall|h: FactView|
            #![trigger holds(final(out)@, h)]
            holds(final(out)@, h) <==> holds(old(out)@, h) || binary_values_at(
                *m,
                *c,
                s,
                a@,
                b@,
                h,
            ),
{
    apply_pass_value(m, c, s, a, b, out);
    apply_operand_ready(m, c, s, a, b, out);
}

} // verus!
