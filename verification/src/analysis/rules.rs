//! The rules of the points-to analysis, as relations between facts.
//!
//! A rule has no premise (an initial fact), one premise or two premises among the
//! derived facts; whatever else it asks is read off the module. A rule that
//! is tied to an instruction or a terminator names it as its site.

use crate::allocation::{Alloc, FunctionAlloc, GlobalAlloc, GlobalKey, HeapAlloc, StackAlloc};
use crate::analysis::facts::FactView;
use crate::klimited::pushed_seq;
use crate::llvm::constant::Constant;
use crate::llvm::instruction::Opcode;
use crate::llvm::name::{FunctionId, GlobalName, InstructionName, LocalName, ParameterName};
use crate::llvm::operand::{Callee, Operand};
use crate::llvm::terminator::TerminatorOpcode;
use crate::llvm::Module;
use crate::signatures::{AllocType, Signature};
use crate::text::{is_prefix, occurs_in};
use vstd::prelude::*;

verus! {

/// What an analysis is run with, besides the module.
#[derive(Debug)]
pub struct Setup {
    /// For each declaration of the module, in order, the effects of the
    /// signatures whose pattern matches its name, if any pattern does.
    pub signatures: Vec<Option<Vec<Signature>>>,
    /// The names of the globals that are no variables of the module. The
    /// first eight stand for `argv`, an element of `argv`, and what
    /// `optarg`, `stderr`, `stdin`, `stdout` and the result of
    /// `__ctype_b_loc` point to, the last in two steps.
    pub extra_globals: Vec<GlobalName>,
    /// The number of call sites that a context keeps.
    pub contexts: usize,
    /// Whether allocations that one operand may denote are unified.
    pub unification: bool,
    /// Whether the facts that only the precision metrics count are derived.
    pub metrics: bool,
    /// For the analysis of integer values, the callgraph by which calls are
    /// resolved: call sites with their possible targets. The points-to
    /// analysis has none; it resolves calls itself.
    pub callgraph: Option<Vec<(InstructionName, Vec<FunctionId>)>>,
}

pub const EXTRA_ARGV: usize = 0;

pub const EXTRA_ARGV_ELEMENT: usize = 1;

pub const EXTRA_OPTARG: usize = 2;

pub const EXTRA_STDERR: usize = 3;

pub const EXTRA_STDIN: usize = 4;

pub const EXTRA_STDOUT: usize = 5;

pub const EXTRA_CTYPE: usize = 6;

pub const EXTRA_CTYPE_TARGET: usize = 7;

// ----------------------------------------------------------------------
// Names
/// Whether a function of this name is where a program starts: `main`, or a
/// name that begins with `_ZN` and holds `4main`.
pub open spec fn is_main_name(n: Seq<char>) -> bool {
    n == "main"@ || (is_prefix("_ZN"@, n) && occurs_in("4main"@, n))
}

/// For the name of a function that allocates on the heap, the position of
/// the argument that gives the size, where one does.
pub open spec fn heap_size_argument(n: Seq<char>) -> Option<Option<usize>> {
    if n == "_Znwm"@ {
        Some(None)
    } else if n == "calloc"@ {
        Some(None)
    } else if n == "malloc"@ {
        Some(Some(0usize))
    } else if n == "realloc"@ {
        Some(Some(1usize))
    } else if n == "reallocarray"@ {
        Some(None)
    } else {
        None
    }
}

/// Whether a function of this name copies memory from its second argument
/// to its first.
pub open spec fn is_memcpy_name(n: Seq<char>) -> bool {
    n == "memcpy"@ || n == "__memcpy_chk"@ || is_prefix("llvm.memcpy"@, n) || is_prefix(
        "llvm.memmove"@,
        n,
    )
}

/// Whether a function of this name is modelled without a signature.
pub open spec fn is_known_name(n: Seq<char>) -> bool {
    n == "assert_disjoint"@ || n == "assert_may_alias"@ || n == "assert_points_to_nothing"@ || n
        == "assert_points_to_something"@ || n == "assert_reachable"@ || n == "assert_unreachable"@
        || n == "__memcpy_chk"@ || n == "calloc"@ || n == "free"@ || n == "realloc"@ || n
        == "reallocarray"@ || n == "malloc"@ || n == "_Znwm"@ || n == "strtol"@ || n == "strtoll"@
        || n == "strtoul"@
}

// ----------------------------------------------------------------------
// What is read off the module
/// The operand that stands for the parameter at position `k` of the
/// function `f`.
pub open spec fn parameter_operand(f: FunctionId, k: int) -> Operand {
    Operand::Local(LocalName::Parameter(ParameterName { parent_function: f, index: k as usize }))
}

/// The allocation of a variable of the module.
pub open spec fn global_alloc(m: Module, g: usize) -> Alloc {
    Alloc::Global(GlobalAlloc { global: GlobalKey::Variable(g) })
}

/// The allocation of a global that is no variable of the module.
pub open spec fn extra_alloc(i: usize) -> Alloc {
    Alloc::Global(GlobalAlloc { global: GlobalKey::Extra(i) })
}

/// What a function, a global variable or null, as a constant, points to.
pub open spec fn atom_alloc(m: Module, p: Constant) -> Option<Alloc> {
    match p {
        Constant::Function(f) => Some(Alloc::Function(FunctionAlloc(f))),
        Constant::Global(g) => if g < m.globals.len() {
            Some(global_alloc(m, g))
        } else {
            None
        },
        Constant::Null => Some(Alloc::Null),
        _ => None,
    }
}

/// Whether the constant points to the allocation: one of its pointers does.
pub open spec fn constant_points_to(m: Module, c: Constant, a: Alloc) -> bool {
    exists|i: int|
        0 <= i < c.pointers_spec().len() && atom_alloc(m, #[trigger] c.pointers_spec()[i]) == Some(
            a,
        )
}

/// Whether `a` is the allocation of the global called `name`: that of each
/// variable of the module with the name, or else that of each other global
/// with the name.
pub open spec fn named_alloc(m: Module, c: Setup, name: Seq<char>, a: Alloc) -> bool {
    ||| exists|g: usize|
        g < m.globals.len() && (#[trigger] m.globals@[g as int]).name@ == name && a == global_alloc(
            m,
            g,
        )
    ||| {
        &&& forall|g: int| 0 <= g < m.globals.len() ==> (#[trigger] m.globals@[g]).name@ != name
        &&& exists|j: usize|
            j < c.extra_globals.len() && (#[trigger] c.extra_globals@[j as int])@ == name && a
                == extra_alloc(j)
    }
}

/// Whether the values of `o` pass through an instruction with opcode `op`
/// to its result. A cast or address computation on a local does not count:
/// its uses name the local itself.
pub open spec fn passes(op: Opcode, o: Operand) -> bool {
    match op {
        Opcode::Add(a) => o == a.operand0 || o == a.operand1,
        Opcode::BitCast(b) => o == b.pointer && !(o is Local),
        Opcode::GetElementPtr(g) => o == g.pointer && !(o is Local),
        Opcode::IntToPtr(i) => o == i.int && !(o is Local),
        Opcode::Phi(p) => p.values@.contains(o),
        Opcode::PtrToInt(p) => o == p.pointer && !(o is Local),
        Opcode::Select(s) => o == s.true_value || o == s.false_value,
        Opcode::Sub(s) => o == s.minuend,
        _ => false,
    }
}

/// Whether the function may be the target of a call with `nargs` arguments
/// of which nothing else is known: it takes no more parameters.
pub open spec fn arity_fits(m: Module, f: FunctionId, nargs: nat) -> bool {
    m.is_function(f) && m.arity(f) <= nargs
}

/// The effects that signatures give the function, where it is a
/// declaration whose name a pattern matches.
pub open spec fn effects(m: Module, c: Setup, f: FunctionId) -> Option<Seq<Signature>> {
    if m.is_declaration(f) && f - m.functions.len() < c.signatures.len() {
        match c.signatures@[f - m.functions.len()] {
            Some(v) => Some(v@),
            None => None,
        }
    } else {
        None
    }
}

/// Whether the function is a declaration that would need a signature and
/// has none: no pattern matches its name, it is not modelled otherwise, and
/// a pointer goes in or comes out.
pub open spec fn lacks_signature(m: Module, c: Setup, f: FunctionId) -> bool {
    &&& m.is_declaration(f)
    &&& !is_prefix("llvm.memcpy"@, m.function_name(f))
    &&& !is_prefix("llvm.memmove"@, m.function_name(f))
    &&& !is_known_name(m.function_name(f))
    &&& effects(m, c, f) is None
    &&& m.decl(f).has_pointer_spec()
}

/// Whether a block of the function returns the operand.
pub open spec fn returns_operand(m: Module, f: FunctionId, o: Operand) -> bool {
    m.is_definition(f) && exists|b: int|
        0 <= b < m.functions@[f as int].blocks.len() && (
        #[trigger] m.functions@[f as int].blocks@[b]).terminator.opcode == TerminatorOpcode::Ret(
            crate::llvm::terminator::Ret { operand: Some(o) },
        )
}

/// The allocation that a signature of the given kind introduces at a call
/// site.
pub open spec fn signature_alloc(kind: AllocType, s: InstructionName) -> Alloc {
    match kind {
        AllocType::Heap => Alloc::Heap(HeapAlloc { instruction: s }),
        AllocType::Stack => Alloc::Stack(StackAlloc { name: s }),
        AllocType::Top => Alloc::Top,
    }
}

/// The size that a heap-allocating call gives, where the argument at the
/// given position is a constant integer.
pub open spec fn heap_size(args: Seq<Operand>, at: Option<usize>) -> Option<u64> {
    match at {
        Some(i) => if i < args.len() {
            args[i as int].constant_int_spec()
        } else {
            None
        },
        None => None,
    }
}

/// The size of the heap object of a call site: where the callee of the site
/// is a constant that stands for one function, and that function allocates
/// on the heap by its name, the constant integer that the call gives for
/// the size.
pub open spec fn site_size(m: Module, s: InstructionName) -> Option<u64> {
    match m.callee(s) {
        Some(Callee::Operand(Operand::Constant(k))) => {
            let fs = crate::analysis::callgraph::constant_functions_spec(k);
            if fs.len() == 1 && m.is_function(fs[0]) {
                match heap_size_argument(m.function_name(fs[0])) {
                    Some(at) => heap_size(m.args(s), at),
                    None => None,
                }
            } else {
                None
            }
        },
        _ => None,
    }
}

// ----------------------------------------------------------------------
// Initial facts
/// The facts that hold without a premise.
pub open spec fn initial(m: Module, c: Setup, h: FactView) -> bool {
    ||| initial_main(m, c, h)
    ||| initial_argv(m, c, h)
    ||| initial_fixed(m, c, h)
    ||| initial_implicit(m, c, h)
    ||| initial_initializer(m, c, h)
}

/// Every function where a program starts is reachable in the empty context.
pub open spec fn initial_main(m: Module, c: Setup, h: FactView) -> bool {
    exists|f: usize|
        #![trigger m.functions@[f as int]]
        f < m.functions.len() && is_main_name(m.functions@[f as int].name@) && h
            == (FactView::Reachable { ctx: Seq::empty(), function: f })
}

/// The second parameter of such a function points to `argv`.
pub open spec fn initial_argv(m: Module, c: Setup, h: FactView) -> bool {
    exists|f: usize|
        #![trigger m.functions@[f as int]]
        f < m.functions.len() && is_main_name(m.functions@[f as int].name@) && m.functions@[f as int].parameters.len()
            >= 2 && h == (FactView::OperandPointsTo {
            ctx: Seq::empty(),
            operand: parameter_operand(f, 1),
            alloc: extra_alloc(EXTRA_ARGV),
        })
}

/// `Top` points to itself, `argv` to its elements, and the result of
/// `__ctype_b_loc` to its table.
pub open spec fn initial_fixed(m: Module, c: Setup, h: FactView) -> bool {
    ||| h == (FactView::AllocPointsTo { from: Alloc::Top, to: Alloc::Top })
    ||| h == (FactView::AllocPointsTo {
        from: extra_alloc(EXTRA_ARGV),
        to: extra_alloc(EXTRA_ARGV_ELEMENT),
    })
    ||| h == (FactView::AllocPointsTo {
        from: extra_alloc(EXTRA_CTYPE),
        to: extra_alloc(EXTRA_CTYPE_TARGET),
    })
}

/// The global that stands for what the variable of this name points to when
/// the module declares it without an initializer.
pub open spec fn implicit_target(n: Seq<char>) -> Option<usize> {
    if n == "optarg"@ {
        Some(EXTRA_OPTARG)
    } else if n == "stderr"@ {
        Some(EXTRA_STDERR)
    } else if n == "stdin"@ {
        Some(EXTRA_STDIN)
    } else if n == "stdout"@ {
        Some(EXTRA_STDOUT)
    } else {
        None
    }
}

/// A variable `optarg`, `stderr`, `stdin` or `stdout` without an initializer
/// points to the global that stands for its referent.
pub open spec fn initial_implicit(m: Module, c: Setup, h: FactView) -> bool {
    exists|g: usize|
        #![trigger m.globals@[g as int]]
        g < m.globals.len() && m.globals@[g as int].initializer is None && implicit_target(
            m.globals@[g as int].name@,
        ) is Some && h == (FactView::AllocPointsTo {
            from: global_alloc(m, g),
            to: extra_alloc(implicit_target(m.globals@[g as int].name@)->0),
        })
}

/// A variable points to what its initializer points to.
pub open spec fn initial_initializer(m: Module, c: Setup, h: FactView) -> bool {
    exists|g: usize, a: Alloc|
        #![trigger m.globals@[g as int], constant_points_to(m, m.globals@[g as int].initializer->0, a)]
        g < m.globals.len() && m.globals@[g as int].initializer is Some && constant_points_to(
            m,
            m.globals@[g as int].initializer->0,
            a,
        ) && h == (FactView::AllocPointsTo { from: global_alloc(m, g), to: a })
}

// ----------------------------------------------------------------------
// Rules with one premise and no site
/// What follows from one fact, without a look at a site.
pub open spec fn unary(m: Module, c: Setup, a: FactView, h: FactView) -> bool {
    ||| rule_reachable(m, c, a, h)
    ||| rule_heap(m, c, a, h)
    ||| rule_external(m, c, a, h)
    ||| rule_memcpy(m, c, a, h)
    ||| rule_signature(m, c, a, h)
    ||| rule_needs_signature(m, c, a, h)
    ||| rule_callgraph(m, c, a, h)
    ||| rule_points_to_top(m, c, a, h)
}

/// The callee of a call is reachable in the callee's context.
pub open spec fn rule_reachable(m: Module, c: Setup, a: FactView, h: FactView) -> bool {
    match a {
        FactView::Calls { ctx, site, callee, callee_ctx } => h == (FactView::Reachable {
            ctx: callee_ctx,
            function: callee,
        }),
        _ => false,
    }
}

/// A call of a heap-allocating function returns the heap object of the call
/// site.
pub open spec fn rule_heap(m: Module, c: Setup, a: FactView, h: FactView) -> bool {
    match a {
        FactView::Calls { ctx, site, callee, callee_ctx } => m.is_function(callee) && m.callee(
            site,
        ) is Some && heap_size_argument(m.function_name(callee)) is Some && h
            == (FactView::OperandPointsTo {
            ctx,
            operand: Operand::of_instruction(site),
            alloc: Alloc::Heap(HeapAlloc { instruction: site }),
        }),
        _ => false,
    }
}

/// A call of a declared function that lacks a signature and returns a
/// pointer returns `Top`.
pub open spec fn rule_external(m: Module, c: Setup, a: FactView, h: FactView) -> bool {
    match a {
        FactView::Calls { ctx, site, callee, callee_ctx } => lacks_signature(m, c, callee)
            && m.decl(callee).return_type.is_pointer() && h == (FactView::OperandPointsTo {
            ctx,
            operand: Operand::of_instruction(site),
            alloc: Alloc::Top,
        }),
        _ => false,
    }
}

/// A call of a function that copies memory copies from its second argument
/// to its first; the third gives the size where it is a constant.
pub open spec fn rule_memcpy(m: Module, c: Setup, a: FactView, h: FactView) -> bool {
    match a {
        FactView::Calls { ctx, site, callee, callee_ctx } => m.is_function(callee) && m.callee(
            site,
        ) is Some && is_memcpy_name(m.function_name(callee)) && m.args(site).len() >= 2 && h
            == (FactView::Memcpy {
            ctx,
            dst: m.args(site)[0],
            src: m.args(site)[1],
            size: if m.args(site).len() >= 3 {
                m.args(site)[2].constant_int_spec()
            } else {
                None
            },
        }),
        _ => false,
    }
}

/// What one effect of a signature, at a call of the function that has it,
/// says of the result or the arguments.
pub open spec fn effect_fact(
    m: Module,
    c: Setup,
    ctx: Seq<InstructionName>,
    site: InstructionName,
    e: Signature,
    h: FactView,
) -> bool {
    match e {
        Signature::ReturnAlloc { kind } => h == (FactView::OperandPointsTo {
            ctx,
            operand: Operand::of_instruction(site),
            alloc: signature_alloc(kind, site),
        }),
        Signature::ReturnPointsToGlobal { global } => exists|x: Alloc|
            #![trigger named_alloc(m, c, global@, x)]
            named_alloc(m, c, global@, x) && h == (FactView::OperandPointsTo {
                ctx,
                operand: Operand::of_instruction(site),
                alloc: x,
            }),
        Signature::ArgMemcpyArg { dst, src } => m.callee(site) is Some && dst != src && dst
            < m.args(site).len() && src < m.args(site).len() && h == (FactView::Memcpy {
            ctx,
            dst: m.args(site)[dst as int],
            src: m.args(site)[src as int],
            size: None,
        }),
        _ => false,
    }
}

/// A call of a function with signatures has the effects that they state.
pub open spec fn rule_signature(m: Module, c: Setup, a: FactView, h: FactView) -> bool {
    match a {
        FactView::Calls { ctx, site, callee, callee_ctx } => effects(m, c, callee) is Some
            && exists|j: int|
            0 <= j < effects(m, c, callee)->0.len() && effect_fact(
                m,
                c,
                ctx,
                site,
                #[trigger] effects(m, c, callee)->0[j],
                h,
            ),
        _ => false,
    }
}

/// A declared function that is called and lacks a signature needs one.
pub open spec fn rule_needs_signature(m: Module, c: Setup, a: FactView, h: FactView) -> bool {
    match a {
        FactView::Calls { ctx, site, callee, callee_ctx } => lacks_signature(m, c, callee) && h
            == (FactView::NeedsSignature { function: callee }),
        _ => false,
    }
}

/// Every call is an edge of the callgraph.
pub open spec fn rule_callgraph(m: Module, c: Setup, a: FactView, h: FactView) -> bool {
    match a {
        FactView::Calls { ctx, site, callee, callee_ctx } => h == (FactView::Callgraph {
            site,
            callee,
        }),
        _ => false,
    }
}

/// An operand that may denote `Top` is counted.
pub open spec fn rule_points_to_top(m: Module, c: Setup, a: FactView, h: FactView) -> bool {
    match a {
        FactView::OperandPointsTo { ctx, operand, alloc } => alloc == Alloc::Top && h
            == (FactView::PointsToTop { operand }),
        _ => false,
    }
}

// ----------------------------------------------------------------------
// Rules with one premise, at a site
/// What follows from one fact at the site `s`.
pub open spec fn unary_at(
    m: Module,
    c: Setup,
    s: InstructionName,
    a: FactView,
    h: FactView,
) -> bool {
    ||| rule_stack(m, c, s, a, h)
    ||| rule_constant(m, c, s, a, h)
    ||| rule_asm(m, c, s, a, h)
    ||| rule_pass(m, c, s, a, h)
    ||| rule_invalid_call(m, c, s, a, h)
    ||| rule_invalid_load(m, c, s, a, h)
    ||| rule_invalid_store(m, c, s, a, h)
}

/// An alloca of a reachable function yields its stack slot.
pub open spec fn rule_stack(
    m: Module,
    c: Setup,
    s: InstructionName,
    a: FactView,
    h: FactView,
) -> bool {
    match a {
        FactView::Reachable { ctx, function } => s.parent_function == function
            && m.is_instruction(s) && m.opcode(s) is Alloca && h == (FactView::OperandPointsTo {
            ctx,
            operand: Operand::of_instruction(s),
            alloc: Alloc::Stack(StackAlloc { name: s }),
        }),
        _ => false,
    }
}

/// A constant operand of a site of a reachable function denotes what the
/// constant points to.
pub open spec fn rule_constant(
    m: Module,
    c: Setup,
    s: InstructionName,
    a: FactView,
    h: FactView,
) -> bool {
    match a {
        FactView::Reachable { ctx, function } => s.parent_function == function && exists|
            i: int,
            x: Alloc,
        |
            #![trigger m.operands(s)[i], constant_points_to(m, m.operands(s)[i]->Constant_0, x)]
            0 <= i < m.operands(s).len() && m.operands(s)[i] is Constant && constant_points_to(
                m,
                m.operands(s)[i]->Constant_0,
                x,
            ) && h == (FactView::OperandPointsTo { ctx, operand: m.operands(s)[i], alloc: x }),
        _ => false,
    }
}

/// A call of inline assembly in a reachable function may call every
/// function that takes no more parameters than the call has arguments.
pub open spec fn rule_asm(
    m: Module,
    c: Setup,
    s: InstructionName,
    a: FactView,
    h: FactView,
) -> bool {
    match a {
        FactView::Reachable { ctx, function } => s.parent_function == function && m.callee(s)
            is Some && m.callee(s)->0 is Asm && exists|f: FunctionId|
            #![trigger arity_fits(m, f, m.args(s).len())]
            arity_fits(m, f, m.args(s).len()) && h == (FactView::Calls {
                ctx,
                site: s,
                callee: f,
                callee_ctx: pushed_seq(c.contexts as nat, ctx, s),
            }),
        _ => false,
    }
}

/// What an operand of a pass-through instruction denotes, the result
/// denotes too.
pub open spec fn rule_pass(
    m: Module,
    c: Setup,
    s: InstructionName,
    a: FactView,
    h: FactView,
) -> bool {
    match a {
        FactView::OperandPointsTo { ctx, operand, alloc } => m.is_instruction(s) && passes(
            m.opcode(s),
            operand,
        ) && h == (FactView::OperandPointsTo {
            ctx,
            operand: Operand::of_instruction(s),
            alloc,
        }),
        _ => false,
    }
}

/// A callee operand that may denote something other than a function.
pub open spec fn rule_invalid_call(
    m: Module,
    c: Setup,
    s: InstructionName,
    a: FactView,
    h: FactView,
) -> bool {
    match a {
        FactView::OperandPointsTo { ctx, operand, alloc } => c.metrics && m.callee(s) is Some
            && m.callee(s)->0 == Callee::Operand(operand) && !(alloc is Function) && h
            == (FactView::InvalidCall { operand, alloc }),
        _ => false,
    }
}

/// The address of a load that may denote something not loadable.
pub open spec fn rule_invalid_load(
    m: Module,
    c: Setup,
    s: InstructionName,
    a: FactView,
    h: FactView,
) -> bool {
    match a {
        FactView::OperandPointsTo { ctx, operand, alloc } => c.metrics && m.is_instruction(s)
            && m.opcode(s) is Load && m.opcode(s)->Load_0.pointer == operand
            && !alloc.loadable_spec() && h == (FactView::InvalidLoad { operand, alloc }),
        _ => false,
    }
}

/// The address of a store that may denote something not storable.
pub open spec fn rule_invalid_store(
    m: Module,
    c: Setup,
    s: InstructionName,
    a: FactView,
    h: FactView,
) -> bool {
    match a {
        FactView::OperandPointsTo { ctx, operand, alloc } => c.metrics && m.is_instruction(s)
            && m.opcode(s) is Store && m.opcode(s)->Store_0.pointer == operand
            && !alloc.storable_spec(m) && h == (FactView::InvalidStore { operand, alloc }),
        _ => false,
    }
}

// ----------------------------------------------------------------------
// Rules with two premises and no site
/// What follows from two facts, without a look at a site.
pub open spec fn binary(m: Module, c: Setup, a: FactView, b: FactView, h: FactView) -> bool {
    ||| rule_argument(m, c, a, b, h)
    ||| rule_return(m, c, a, b, h)
    ||| rule_return_aliases(m, c, a, b, h)
    ||| rule_memcpy_source(m, c, a, b, h)
    ||| rule_memcpy_alloc(m, c, a, b, h)
    ||| rule_memcpy_copy(m, c, a, b, h)
    ||| rule_unify(m, c, a, b, h)
    ||| rule_unify_transitive(m, c, a, b, h)
    ||| rule_unify_copy(m, c, a, b, h)
    ||| rule_free_non_heap(m, c, a, b, h)
    ||| rule_invalid_memcpy_dst(m, c, a, b, h)
    ||| rule_invalid_memcpy_src(m, c, a, b, h)
}

/// A parameter of a called function denotes, in the callee's context, what
/// the argument in its position denotes in the caller's.
pub open spec fn rule_argument(
    m: Module,
    c: Setup,
    a: FactView,
    b: FactView,
    h: FactView,
) -> bool {
    match (a, b) {
        (
            FactView::Calls { ctx, site, callee, callee_ctx },
            FactView::OperandPointsTo { ctx: ctx2, operand, alloc },
        ) => ctx2 == ctx && m.is_definition(callee) && m.callee(site) is Some && exists|
            k: int,
        |
            0 <= k < m.functions@[callee as int].parameters.len() && k < m.args(site).len()
                && #[trigger] m.args(site)[k] == operand && h == (FactView::OperandPointsTo {
                ctx: callee_ctx,
                operand: parameter_operand(callee, k),
                alloc,
            }),
        _ => false,
    }
}

/// The result of a call denotes, in the caller's context, what an operand
/// that the callee returns denotes in the callee's.
pub open spec fn rule_return(m: Module, c: Setup, a: FactView, b: FactView, h: FactView) -> bool {
    match (a, b) {
        (
            FactView::Calls { ctx, site, callee, callee_ctx },
            FactView::OperandPointsTo { ctx: ctx2, operand, alloc },
        ) => ctx2 == callee_ctx && returns_operand(m, callee, operand) && h
            == (FactView::OperandPointsTo { ctx, operand: Operand::of_instruction(site), alloc }),
        _ => false,
    }
}

/// The result of a call of a function whose signature says that it returns
/// an argument denotes what that argument denotes.
pub open spec fn rule_return_aliases(
    m: Module,
    c: Setup,
    a: FactView,
    b: FactView,
    h: FactView,
) -> bool {
    match (a, b) {
        (
            FactView::Calls { ctx, site, callee, callee_ctx },
            FactView::OperandPointsTo { ctx: ctx2, operand, alloc },
        ) => ctx2 == ctx && m.callee(site) is Some && effects(m, c, callee) is Some && (exists|
            j: int,
        |
            0 <= j < effects(m, c, callee)->0.len() && (#[trigger] effects(m, c, callee)->0[j])
                is ReturnAliasesArg && effects(m, c, callee)->0[j]->ReturnAliasesArg_arg < m.args(site).len() && m.args(site)[effects(
                m,
                c,
                callee,
            )->0[j]->ReturnAliasesArg_arg as int] == operand) && h == (FactView::OperandPointsTo {
            ctx,
            operand: Operand::of_instruction(site),
            alloc,
        }),
        _ => false,
    }
}

/// A copy reads every loadable allocation that its source denotes.
pub open spec fn rule_memcpy_source(
    m: Module,
    c: Setup,
    a: FactView,
    b: FactView,
    h: FactView,
) -> bool {
    match (a, b) {
        (
            FactView::Memcpy { ctx, dst, src, size },
            FactView::OperandPointsTo { ctx: ctx2, operand, alloc },
        ) => ctx2 == ctx && operand == src && alloc.loadable_spec() && h
            == (FactView::MemcpySource { ctx, dst, source: alloc }),
        _ => false,
    }
}

/// A copy writes every storable allocation that its destination denotes.
pub open spec fn rule_memcpy_alloc(
    m: Module,
    c: Setup,
    a: FactView,
    b: FactView,
    h: FactView,
) -> bool {
    match (a, b) {
        (
            FactView::MemcpySource { ctx, dst, source },
            FactView::OperandPointsTo { ctx: ctx2, operand, alloc },
        ) => ctx2 == ctx && operand == dst && alloc.storable_spec(m) && h
            == (FactView::MemcpyAlloc { target: alloc, source }),
        _ => false,
    }
}

/// What the source of a copy points to, the destination points to.
pub open spec fn rule_memcpy_copy(
    m: Module,
    c: Setup,
    a: FactView,
    b: FactView,
    h: FactView,
) -> bool {
    match (a, b) {
        (FactView::MemcpyAlloc { target, source }, FactView::AllocPointsTo { from, to }) => from
            == source && h == (FactView::AllocPointsTo { from: target, to }),
        _ => false,
    }
}

/// With unification, two mergeable allocations that one operand may denote
/// in one context are unified.
pub open spec fn rule_unify(m: Module, c: Setup, a: FactView, b: FactView, h: FactView) -> bool {
    match (a, b) {
        (
            FactView::OperandPointsTo { ctx, operand, alloc },
            FactView::OperandPointsTo { ctx: ctx2, operand: operand2, alloc: alloc2 },
        ) => c.unification && ctx2 == ctx && operand2 == operand && alloc.mergeable_spec(alloc2, m)
            && h == (FactView::Unified { a: alloc, b: alloc2 }),
        _ => false,
    }
}

/// Unification is transitive.
pub open spec fn rule_unify_transitive(
    m: Module,
    c: Setup,
    a: FactView,
    b: FactView,
    h: FactView,
) -> bool {
    match (a, b) {
        (FactView::Unified { a: x, b: y }, FactView::Unified { a: y2, b: z }) => y2 == y && x != z
            && h == (FactView::Unified { a: x, b: z }),
        _ => false,
    }
}

/// Unified allocations point to the same allocations.
pub open spec fn rule_unify_copy(
    m: Module,
    c: Setup,
    a: FactView,
    b: FactView,
    h: FactView,
) -> bool {
    match (a, b) {
        (FactView::Unified { a: x, b: y }, FactView::AllocPointsTo { from, to }) => from == y && h
            == (FactView::AllocPointsTo { from: x, to }),
        _ => false,
    }
}

/// An allocation that cannot be freed and that the argument of a call of
/// `free` may denote.
pub open spec fn rule_free_non_heap(
    m: Module,
    c: Setup,
    a: FactView,
    b: FactView,
    h: FactView,
) -> bool {
    match (a, b) {
        (
            FactView::Calls { ctx, site, callee, callee_ctx },
            FactView::OperandPointsTo { ctx: ctx2, operand, alloc },
        ) => ctx2 == ctx && m.is_function(callee) && m.function_name(callee) == "free"@
            && m.callee(site) is Some && m.args(site).len() >= 1 && m.args(site)[0] == operand
            && !alloc.freeable_spec() && h == (FactView::FreeNonHeap { alloc }),
        _ => false,
    }
}

/// The destination of a copy that may denote something not storable.
pub open spec fn rule_invalid_memcpy_dst(
    m: Module,
    c: Setup,
    a: FactView,
    b: FactView,
    h: FactView,
) -> bool {
    match (a, b) {
        (
            FactView::Memcpy { ctx, dst, src, size },
            FactView::OperandPointsTo { ctx: ctx2, operand, alloc },
        ) => c.metrics && ctx2 == ctx && operand == dst && !alloc.storable_spec(m) && h
            == (FactView::InvalidMemcpyDst { operand, alloc }),
        _ => false,
    }
}

/// The source of a copy that may denote something not loadable.
pub open spec fn rule_invalid_memcpy_src(
    m: Module,
    c: Setup,
    a: FactView,
    b: FactView,
    h: FactView,
) -> bool {
    match (a, b) {
        (
            FactView::Memcpy { ctx, dst, src, size },
            FactView::OperandPointsTo { ctx: ctx2, operand, alloc },
        ) => c.metrics && ctx2 == ctx && operand == src && !alloc.loadable_spec() && h
            == (FactView::InvalidMemcpySrc { operand, alloc }),
        _ => false,
    }
}

// ----------------------------------------------------------------------
// Rules with two premises, at a site
/// What follows from two facts at the site `s`.
pub open spec fn binary_at(
    m: Module,
    c: Setup,
    s: InstructionName,
    a: FactView,
    b: FactView,
    h: FactView,
) -> bool {
    ||| rule_call(m, c, s, a, b, h)
    ||| rule_call_top(m, c, s, a, b, h)
    ||| rule_store(m, c, s, a, b, h)
    ||| rule_load(m, c, s, a, b, h)
}

/// A call in a reachable function calls the function that its callee
/// operand denotes.
pub open spec fn rule_call(
    m: Module,
    c: Setup,
    s: InstructionName,
    a: FactView,
    b: FactView,
    h: FactView,
) -> bool {
    match (a, b) {
        (
            FactView::Reachable { ctx, function },
            FactView::OperandPointsTo { ctx: ctx2, operand, alloc },
        ) => ctx2 == ctx && s.parent_function == function && m.callee(s) is Some && m.callee(s)->0
            == Callee::Operand(operand) && alloc is Function && h == (FactView::Calls {
            ctx,
            site: s,
            callee: alloc->Function_0.0,
            callee_ctx: pushed_seq(c.contexts as nat, ctx, s),
        }),
        _ => false,
    }
}

/// A call in a reachable function whose callee operand may denote `Top`
/// may call every function that takes no more parameters than the call has
/// arguments.
pub open spec fn rule_call_top(
    m: Module,
    c: Setup,
    s: InstructionName,
    a: FactView,
    b: FactView,
    h: FactView,
) -> bool {
    match (a, b) {
        (
            FactView::Reachable { ctx, function },
            FactView::OperandPointsTo { ctx: ctx2, operand, alloc },
        ) => ctx2 == ctx && s.parent_function == function && m.callee(s) is Some && m.callee(s)->0
            == Callee::Operand(operand) && alloc == Alloc::Top && exists|f: FunctionId|
            #![trigger arity_fits(m, f, m.args(s).len())]
            arity_fits(m, f, m.args(s).len()) && h == (FactView::Calls {
                ctx,
                site: s,
                callee: f,
                callee_ctx: pushed_seq(c.contexts as nat, ctx, s),
            }),
        _ => false,
    }
}

/// A store makes every storable allocation that its address denotes point
/// to what the stored value denotes.
pub open spec fn rule_store(
    m: Module,
    c: Setup,
    s: InstructionName,
    a: FactView,
    b: FactView,
    h: FactView,
) -> bool {
    match (a, b) {
        (
            FactView::OperandPointsTo { ctx, operand, alloc },
            FactView::OperandPointsTo { ctx: ctx2, operand: operand2, alloc: alloc2 },
        ) => ctx2 == ctx && m.is_instruction(s) && m.opcode(s) is Store && m.opcode(
            s,
        )->Store_0.pointer == operand && m.opcode(s)->Store_0.value == operand2
            && alloc.storable_spec(m) && h == (FactView::AllocPointsTo { from: alloc, to: alloc2 }),
        _ => false,
    }
}

/// The result of a load denotes what the loadable allocations that its
/// address denotes point to.
pub open spec fn rule_load(
    m: Module,
    c: Setup,
    s: InstructionName,
    a: FactView,
    b: FactView,
    h: FactView,
) -> bool {
    match (a, b) {
        (
            FactView::OperandPointsTo { ctx, operand, alloc },
            FactView::AllocPointsTo { from, to },
        ) => from == alloc && m.is_instruction(s) && m.opcode(s) is Load && m.opcode(
            s,
        )->Load_0.pointer == operand && alloc.loadable_spec() && h == (FactView::OperandPointsTo {
            ctx,
            operand: Operand::of_instruction(s),
            alloc: to,
        }),
        _ => false,
    }
}

// ----------------------------------------------------------------------
// Derivability
/// The facts that the analysis starts from: those of the analysis of
/// integer values where a callgraph is given, else those of the points-to
/// analysis.
pub open spec fn start(m: Module, c: Setup, h: FactView) -> bool {
    if c.callgraph is Some {
        crate::analysis::values::initial_values(m, c, h)
    } else {
        initial(m, c, h)
    }
}

/// What follows from the fact `a` without a look at a site.
pub open spec fn alone(m: Module, c: Setup, a: FactView, h: FactView) -> bool {
    if c.callgraph is Some {
        crate::analysis::values::unary_values(m, c, a, h)
    } else {
        unary(m, c, a, h)
    }
}

/// What follows from the fact `a` at the site `s`.
pub open spec fn alone_at(
    m: Module,
    c: Setup,
    s: InstructionName,
    a: FactView,
    h: FactView,
) -> bool {
    if c.callgraph is Some {
        crate::analysis::values::unary_values_at(m, c, s, a, h)
    } else {
        unary_at(m, c, s, a, h)
    }
}

/// What follows from the facts `a` and `b` without a look at a site.
pub open spec fn both(m: Module, c: Setup, a: FactView, b: FactView, h: FactView) -> bool {
    if c.callgraph is Some {
        crate::analysis::values::binary_values(m, c, a, b, h)
    } else {
        binary(m, c, a, b, h)
    }
}

/// What follows from the facts `a` and `b` at the site `s`.
pub open spec fn both_at(
    m: Module,
    c: Setup,
    s: InstructionName,
    a: FactView,
    b: FactView,
    h: FactView,
) -> bool {
    if c.callgraph is Some {
        crate::analysis::values::binary_values_at(m, c, s, a, b, h)
    } else {
        binary_at(m, c, s, a, b, h)
    }
}

/// What follows from the fact `a` alone by one rule.
pub open spec fn single(m: Module, c: Setup, a: FactView, h: FactView) -> bool {
    ||| alone(m, c, a, h)
    ||| exists|s: InstructionName| m.is_site(s) && #[trigger] alone_at(m, c, s, a, h)
}

/// What follows from the facts `a` and `b` together by one rule.
pub open spec fn pair(m: Module, c: Setup, a: FactView, b: FactView, h: FactView) -> bool {
    ||| both(m, c, a, b, h)
    ||| exists|s: InstructionName| m.is_site(s) && #[trigger] both_at(m, c, s, a, b, h)
}

/// What follows from the facts `a` and `b` by one rule.
pub open spec fn step(m: Module, c: Setup, a: FactView, b: FactView, h: FactView) -> bool {
    single(m, c, a, h) || pair(m, c, a, b, h)
}

/// Whether `h` has a derivation of depth `n` at most.
pub open spec fn derivable_in(m: Module, c: Setup, n: nat, h: FactView) -> bool
    decreases n,
{
    if n == 0 {
        start(m, c, h)
    } else {
        derivable_in(m, c, (n - 1) as nat, h) || exists|a: FactView, b: FactView|
            derivable_in(m, c, (n - 1) as nat, a) && derivable_in(m, c, (n - 1) as nat, b)
                && #[trigger] step(m, c, a, b, h)
    }
}

/// Whether the rules derive `h`: the least set of facts that holds the
/// facts that the analysis starts from and is closed under the rules holds it.
pub open spec fn derivable(m: Module, c: Setup, h: FactView) -> bool {
    exists|n: nat| derivable_in(m, c, n, h)
}

} // verus!
