//! The rules of the analysis of integer values, as relations between
//! facts.
//!
//! The values of an operand are facts of their own: an operand with two
//! different constant values, or with the value top, has the value top where
//! the values are joined.

use crate::analysis::facts::FactView;
use crate::analysis::rules::{
    initial_main, is_main_name, parameter_operand, returns_operand, rule_reachable, Setup,
};
use crate::klimited::pushed_seq;
use crate::lattice::{ConstValue, Int, IntLattice};
use crate::llvm::constant::Constant;
use crate::llvm::instruction::Opcode;
use crate::llvm::name::{FunctionId, InstructionName};
use crate::llvm::operand::Operand;
use crate::llvm::{Module, Type};
use vstd::prelude::*;

verus! {

/// The value top.
pub open spec fn top() -> IntLattice {
    IntLattice(ConstValue::Top)
}

/// The value of a constant operand: that of a constant integer is known.
pub open spec fn constant_value(k: Constant) -> IntLattice {
    match k {
        Constant::Int { bits, value } => IntLattice(ConstValue::Constant(Int { bits, value })),
        _ => top(),
    }
}

/// Whether the callgraph gives the call site `s` the target `f`.
pub open spec fn calls_target(c: Setup, s: InstructionName, f: FunctionId) -> bool {
    c.callgraph is Some && exists|k: int|
        0 <= k < c.callgraph->0.len() && (#[trigger] c.callgraph->0@[k]).0 == s
            && c.callgraph->0@[k].1@.contains(f)
}

/// The return type of a function.
pub open spec fn return_type(m: Module, f: FunctionId) -> Type {
    if m.is_definition(f) {
        m.functions@[f as int].return_type
    } else {
        m.decl(f).return_type
    }
}

/// Whether the value of `o` passes through an instruction with opcode `op`
/// to its result.
pub open spec fn passes_value(op: Opcode, o: Operand) -> bool {
    match op {
        Opcode::BitCast(b) => o == b.pointer,
        Opcode::IntToPtr(i) => o == i.int,
        Opcode::Phi(p) => p.values@.contains(o),
        Opcode::PtrToInt(p) => o == p.pointer,
        Opcode::Select(s) => o == s.true_value || o == s.false_value,
        _ => false,
    }
}

/// The first operand of an addition or subtraction.
pub open spec fn first_operand(op: Opcode) -> Option<Operand> {
    match op {
        Opcode::Add(a) => Some(a.operand0),
        Opcode::Sub(s) => Some(s.minuend),
        _ => None,
    }
}

/// The second operand of an addition or subtraction.
pub open spec fn second_operand(op: Opcode) -> Option<Operand> {
    match op {
        Opcode::Add(a) => Some(a.operand1),
        Opcode::Sub(s) => Some(s.subtrahend),
        _ => None,
    }
}

/// Whether nothing is known of the result of the instruction or terminator
/// `s` whatever its operands are.
pub open spec fn is_unknown(m: Module, s: InstructionName) -> bool {
    if m.is_instruction(s) {
        match m.opcode(s) {
            Opcode::Alloca(_) => true,
            Opcode::GetElementPtr(_) => true,
            Opcode::Icmp(_) => true,
            Opcode::Load(_) => true,
            Opcode::Other => true,
            Opcode::Store(_) => true,
            _ => false,
        }
    } else {
        m.is_terminator(s) && m.terminator(s) is Other
    }
}

// ----------------------------------------------------------------------
// Initial facts
/// The facts that hold without a premise.
pub open spec fn initial_values(m: Module, c: Setup, h: FactView) -> bool {
    initial_main(m, c, h) || initial_argc(m, c, h)
}

/// Nothing is known of the first parameter of a function where a program
/// starts.
pub open spec fn initial_argc(m: Module, c: Setup, h: FactView) -> bool {
    exists|f: usize|
        #![trigger m.functions@[f as int]]
        f < m.functions.len() && is_main_name(m.functions@[f as int].name@)
            && m.functions@[f as int].parameters.len() >= 1 && h == (FactView::OperandValue {
            ctx: Seq::empty(),
            operand: parameter_operand(f, 0),
            value: top(),
        })
}

// ----------------------------------------------------------------------
// One premise, no site
/// What follows from one fact, without a look at a site.
pub open spec fn unary_values(m: Module, c: Setup, a: FactView, h: FactView) -> bool {
    ||| rule_reachable(m, c, a, h)
    ||| rule_void(m, c, a, h)
    ||| rule_foreign(m, c, a, h)
    ||| rule_value_top(m, c, a, h)
}

/// Nothing is known of the result of a call of a function that returns
/// nothing.
pub open spec fn rule_void(m: Module, c: Setup, a: FactView, h: FactView) -> bool {
    match a {
        FactView::Calls { ctx, site, callee, callee_ctx } => m.is_function(callee) && return_type(
            m,
            callee,
        ) is Void && h == (FactView::OperandValue {
            ctx,
            operand: Operand::of_instruction(site),
            value: top(),
        }),
        _ => false,
    }
}

/// Nothing is known of the result of a call of a declared function.
pub open spec fn rule_foreign(m: Module, c: Setup, a: FactView, h: FactView) -> bool {
    match a {
        FactView::Calls { ctx, site, callee, callee_ctx } => m.is_declaration(callee) && h
            == (FactView::OperandValue {
            ctx,
            operand: Operand::of_instruction(site),
            value: top(),
        }),
        _ => false,
    }
}

/// An operand of whose value nothing is known is counted.
pub open spec fn rule_value_top(m: Module, c: Setup, a: FactView, h: FactView) -> bool {
    match a {
        FactView::OperandValue { ctx, operand, value } => value == top() && h
            == (FactView::ValueTop { operand }),
        _ => false,
    }
}

// ----------------------------------------------------------------------
// One premise, at a site
/// What follows from one fact at the site `s`.
pub open spec fn unary_values_at(
    m: Module,
    c: Setup,
    s: InstructionName,
    a: FactView,
    h: FactView,
) -> bool {
    ||| rule_known_call(m, c, s, a, h)
    ||| rule_constant_value(m, c, s, a, h)
    ||| rule_unknown_value(m, c, s, a, h)
}

/// A site of a reachable function calls the targets that the callgraph
/// gives it.
pub open spec fn rule_known_call(
    m: Module,
    c: Setup,
    s: InstructionName,
    a: FactView,
    h: FactView,
) -> bool {
    match a {
        FactView::Reachable { ctx, function } => s.parent_function == function && exists|
            f: FunctionId,
        |
            #![trigger calls_target(c, s, f)]
            calls_target(c, s, f) && h == (FactView::Calls {
                ctx,
                site: s,
                callee: f,
                callee_ctx: pushed_seq(c.contexts as nat, ctx, s),
            }),
        _ => false,
    }
}

/// A constant operand of a site of a reachable function has the value of
/// the constant.
pub open spec fn rule_constant_value(
    m: Module,
    c: Setup,
    s: InstructionName,
    a: FactView,
    h: FactView,
) -> bool {
    match a {
        FactView::Reachable { ctx, function } => s.parent_function == function && exists|i: int|
            0 <= i < m.operands(s).len() && (#[trigger] m.operands(s)[i]) is Constant && h
                == (FactView::OperandValue {
                ctx,
                operand: m.operands(s)[i],
                value: constant_value(m.operands(s)[i]->Constant_0),
            }),
        _ => false,
    }
}

/// Nothing is known of the result of an instruction that allocates,
/// computes an address, compares, loads or stores, nor of one that is not
/// modelled.
pub open spec fn rule_unknown_value(
    m: Module,
    c: Setup,
    s: InstructionName,
    a: FactView,
    h: FactView,
) -> bool {
    match a {
        FactView::Reachable { ctx, function } => s.parent_function == function && is_unknown(m, s)
            && h == (FactView::OperandValue {
            ctx,
            operand: Operand::of_instruction(s),
            value: top(),
        }),
        _ => false,
    }
}

// ----------------------------------------------------------------------
// Two premises, no site
/// What follows from two facts, without a look at a site.
pub open spec fn binary_values(m: Module, c: Setup, a: FactView, b: FactView, h: FactView) -> bool {
    ||| rule_argument_value(m, c, a, b, h)
    ||| rule_return_value(m, c, a, b, h)
    ||| rule_operated(m, c, a, b, h)
    ||| rule_value_clash(m, c, a, b, h)
}

/// An operand with two different values in one context is counted: nothing
/// is known of the join of its values.
pub open spec fn rule_value_clash(
    m: Module,
    c: Setup,
    a: FactView,
    b: FactView,
    h: FactView,
) -> bool {
    match (a, b) {
        (
            FactView::OperandValue { ctx, operand, value },
            FactView::OperandValue { ctx: ctx2, operand: operand2, value: value2 },
        ) => ctx2 == ctx && operand2 == operand && value2 != value && h == (FactView::ValueTop {
            operand,
        }),
        _ => false,
    }
}

/// A parameter of a called function has, in the callee's context, the
/// values that the argument in its position has in the caller's.
pub open spec fn rule_argument_value(
    m: Module,
    c: Setup,
    a: FactView,
    b: FactView,
    h: FactView,
) -> bool {
    match (a, b) {
        (
            FactView::Calls { ctx, site, callee, callee_ctx },
            FactView::OperandValue { ctx: ctx2, operand, value },
        ) => ctx2 == ctx && m.is_definition(callee) && m.callee(site) is Some && m.callee(site)->0
            is Operand && exists|k: int|
            0 <= k < m.functions@[callee as int].parameters.len() && k < m.args(site).len()
                && #[trigger] m.args(site)[k] == operand && h == (FactView::OperandValue {
                ctx: callee_ctx,
                operand: parameter_operand(callee, k),
                value,
            }),
        _ => false,
    }
}

/// The result of a call has, in the caller's context, the values that an
/// operand that the callee returns has in the callee's.
pub open spec fn rule_return_value(
    m: Module,
    c: Setup,
    a: FactView,
    b: FactView,
    h: FactView,
) -> bool {
    match (a, b) {
        (
            FactView::Calls { ctx, site, callee, callee_ctx },
            FactView::OperandValue { ctx: ctx2, operand, value },
        ) => ctx2 == callee_ctx && returns_operand(m, callee, operand) && h
            == (FactView::OperandValue { ctx, operand: Operand::of_instruction(site), value }),
        _ => false,
    }
}

/// Nothing is known of a sum or difference both of whose operands have a
/// value.
pub open spec fn rule_operated(m: Module, c: Setup, a: FactView, b: FactView, h: FactView) -> bool {
    match (a, b) {
        (
            FactView::Operated { ctx, site },
            FactView::OperandValue { ctx: ctx2, operand, value },
        ) => ctx2 == ctx && m.is_instruction(site) && second_operand(m.opcode(site)) == Some(
            operand,
        ) && h == (FactView::OperandValue {
            ctx,
            operand: Operand::of_instruction(site),
            value: top(),
        }),
        _ => false,
    }
}

// ----------------------------------------------------------------------
// Two premises, at a site
/// What follows from two facts at the site `s`.
pub open spec fn binary_values_at(
    m: Module,
    c: Setup,
    s: InstructionName,
    a: FactView,
    b: FactView,
    h: FactView,
) -> bool {
    rule_pass_value(m, c, s, a, b, h) || rule_operand_ready(m, c, s, a, b, h)
}

/// The result of a cast, a choice or a phi in a reachable function has the
/// values of its operands.
pub open spec fn rule_pass_value(
    m: Module,
    c: Setup,
    s: InstructionName,
    a: FactView,
    b: FactView,
    h: FactView,
) -> bool {
    match (a, b) {
        (
            FactView::Reachable { ctx, function },
            FactView::OperandValue { ctx: ctx2, operand, value },
        ) => ctx2 == ctx && s.parent_function == function && m.is_instruction(s) && passes_value(
            m.opcode(s),
            operand,
        ) && h == (FactView::OperandValue { ctx, operand: Operand::of_instruction(s), value }),
        _ => false,
    }
}

/// The first operand of an addition or subtraction in a reachable function
/// has a value.
pub open spec fn rule_operand_ready(
    m: Module,
    c: Setup,
    s: InstructionName,
    a: FactView,
    b: FactView,
    h: FactView,
) -> bool {
    match (a, b) {
        (
            FactView::Reachable { ctx, function },
            FactView::OperandValue { ctx: ctx2, operand, value },
        ) => ctx2 == ctx && s.parent_function == function && m.is_instruction(s) && first_operand(
            m.opcode(s),
        ) == Some(operand) && h == (FactView::Operated {
            ctx,
            site: s,
        }),
        _ => false,
    }
}

} // verus!
