//! What the rules read off a module, computed.

use crate::allocation::{Alloc, FunctionAlloc, GlobalAlloc, GlobalKey, HeapAlloc, StackAlloc};
use crate::analysis::rules::{
    atom_alloc, constant_points_to, effects, extra_alloc, global_alloc, heap_size,
    heap_size_argument, implicit_target, is_known_name, is_main_name, is_memcpy_name,
    lacks_signature, named_alloc, parameter_operand, passes, returns_operand, signature_alloc, Setup, site_size,
};
use crate::llvm::constant::Constant;
use crate::llvm::instruction::Opcode;
use crate::llvm::name::{FunctionId, InstructionName, LocalName, ParameterName};
use crate::llvm::operand::{Callee, Operand};
use crate::llvm::terminator::TerminatorOpcode;
use crate::llvm::Module;
use crate::sequences::lemma_push_contains;
use crate::signatures::{AllocType, Signature};
use crate::text::{contains, same_text, starts_with};
use vstd::prelude::*;

verus! {

pub fn is_main(name: &str) -> (r: bool)
    ensures
        r == is_main_name(name@),
{
    same_text(name, "main") || (starts_with(name, "_ZN") && contains(name, "4main"))
}

pub fn heap_size_position(name: &str) -> (r: Option<Option<usize>>)
    ensures
        r == heap_size_argument(name@),
{
    if same_text(name, "_Znwm") {
        Some(None)
    } else if same_text(name, "calloc") {
        Some(None)
    } else if same_text(name, "malloc") {
        Some(Some(0))
    } else if same_text(name, "realloc") {
        Some(Some(1))
    } else if same_text(name, "reallocarray") {
        Some(None)
    } else {
        None
    }
}

pub fn is_memcpy(name: &str) -> (r: bool)
    ensures
        r == is_memcpy_name(name@),
{
    same_text(name, "memcpy") || same_text(name, "__memcpy_chk") || starts_with(
        name,
        "llvm.memcpy",
    ) || starts_with(name, "llvm.memmove")
}

pub fn is_known(name: &str) -> (r: bool)
    ensures
        r == is_known_name(name@),
{
    same_text(name, "assert_disjoint") || same_text(name, "assert_may_alias") || same_text(
        name,
        "assert_points_to_nothing",
    ) || same_text(name, "assert_points_to_something") || same_text(name, "assert_reachable")
        || same_text(name, "assert_unreachable") || same_text(name, "__memcpy_chk") || same_text(
        name,
        "calloc",
    ) || same_text(name, "free") || same_text(name, "realloc") || same_text(name, "reallocarray")
        || same_text(name, "malloc") || same_text(name, "_Znwm") || same_text(name, "strtol")
        || same_text(name, "strtoll") || same_text(name, "strtoul")
}

pub fn implicit_target_of(name: &str) -> (r: Option<usize>)
    ensures
        r == implicit_target(name@),
{
    if same_text(name, "optarg") {
        Some(2)
    } else if same_text(name, "stderr") {
        Some(3)
    } else if same_text(name, "stdin") {
        Some(4)
    } else if same_text(name, "stdout") {
        Some(5)
    } else {
        None
    }
}

pub fn parameter_of(f: FunctionId, k: usize) -> (r: Operand)
    ensures
        r == parameter_operand(f, k as int),
{
    Operand::Local(LocalName::Parameter(ParameterName { parent_function: f, index: k }))
}

pub fn global_alloc_of(m: &Module, g: usize) -> (r: Alloc)
    requires
        g < m.globals.len(),
    ensures
        r == global_alloc(*m, g),
{
    Alloc::Global(GlobalAlloc { global: GlobalKey::Variable(g) })
}

pub fn extra_alloc_of(i: usize) -> (r: Alloc)
    ensures
        r == extra_alloc(i),
{
    Alloc::Global(GlobalAlloc { global: GlobalKey::Extra(i) })
}

pub fn signature_alloc_of(kind: AllocType, s: InstructionName) -> (r: Alloc)
    ensures
        r == signature_alloc(kind, s),
{
    match kind {
        AllocType::Heap => Alloc::Heap(HeapAlloc { instruction: s }),
        AllocType::Stack => Alloc::Stack(StackAlloc { name: s }),
        AllocType::Top => Alloc::Top,
    }
}

pub fn site_size_of(m: &Module, s: InstructionName) -> (r: Option<u64>)
    ensures
        r == site_size(*m, s),
{
    match m.call_at(s) {
        Some((callee, args)) => match callee {
            Callee::Operand(Operand::Constant(k)) => {
                let fs = crate::analysis::callgraph::constant_functions(k);
                if fs.len() == 1 && m.has_function(fs[0]) {
                    match heap_size_position(m.name_of(fs[0])) {
                        Some(at) => heap_size_of(args, at),
                        None => None,
                    }
                } else {
                    None
                }
            },
            _ => None,
        },
        None => None,
    }
}

pub fn heap_size_of(args: &Vec<Operand>, at: Option<usize>) -> (r: Option<u64>)
    ensures
        r == heap_size(args@, at),
{
    match at {
        Some(i) => if i < args.len() {
            args[i].constant_int()
        } else {
            None
        },
        None => None,
    }
}

pub fn effects_of<'a>(m: &Module, c: &'a Setup, f: FunctionId) -> (r: Option<&'a Vec<Signature>>)
    ensures
        match r {
            Some(v) => effects(*m, *c, f) == Some(v@),
            None => effects(*m, *c, f) is None,
        },
{
    if f >= m.functions.len() && f - m.functions.len() < m.decls.len() && f - m.functions.len()
        < c.signatures.len() {
        match &c.signatures[f - m.functions.len()] {
            Some(v) => Some(v),
            None => None,
        }
    } else {
        None
    }
}

pub fn lacks_signature_of(m: &Module, c: &Setup, f: FunctionId) -> (r: bool)
    ensures
        r == lacks_signature(*m, *c, f),
{
    if f >= m.functions.len() && f - m.functions.len() < m.decls.len() {
        let d = &m.decls[f - m.functions.len()];
        let name = d.name.get();
        !starts_with(name, "llvm.memcpy") && !starts_with(name, "llvm.memmove") && !is_known(name)
            && effects_of(m, c, f).is_none() && d.has_pointer()
    } else {
        false
    }
}

/// What a function, a global variable or null, as a constant, points to.
pub fn atom_alloc_of(m: &Module, p: &Constant) -> (r: Option<Alloc>)
    ensures
        r == atom_alloc(*m, *p),
{
    match p {
        Constant::Function(f) => Some(Alloc::Function(FunctionAlloc(*f))),
        Constant::Global(g) => if *g < m.globals.len() {
            Some(global_alloc_of(m, *g))
        } else {
            None
        },
        Constant::Null => Some(Alloc::Null),
        _ => None,
    }
}

/// The allocations that the constant points to.
pub fn constant_allocs(m: &Module, c: &Constant) -> (r: Vec<Alloc>)
    ensures
        forall|a: Alloc| #![trigger r@.contains(a)] r@.contains(a) <==> constant_points_to(*m, *c, a),
{
    let ps = c.pointers();
    let mut out: Vec<Alloc> = Vec::new();
    let mut i: usize = 0;
    while i < ps.len()
        invariant
            i <= ps.len(),
            ps@ == c.pointers_spec(),
            forall|a: Alloc|
                #![trigger out@.contains(a)]
                out@.contains(a) <==> exists|j: int|
                    0 <= j < i && atom_alloc(*m, #[trigger] ps@[j]) == Some(a),
        decreases ps.len() - i,
    {
        let ghost before = out@;
        match atom_alloc_of(m, &ps[i]) {
            Some(x) => {
                out.push(x);
                assert forall|a: Alloc| #![trigger out@.contains(a)]
                    out@.contains(a) <==> exists|j: int|
                        0 <= j < i + 1 && atom_alloc(*m, #[trigger] ps@[j]) == Some(a) by {
                    lemma_push_contains(before, x, a);
                    assert(before.contains(a) <==> exists|j: int|
                        0 <= j < i && atom_alloc(*m, #[trigger] ps@[j]) == Some(a));
                    if a == x {
                        assert(atom_alloc(*m, ps@[i as int]) == Some(a));
                    }
                }
            },
            None => {
                assert forall|a: Alloc| #![trigger out@.contains(a)]
                    out@.contains(a) <==> exists|j: int|
                        0 <= j < i + 1 && atom_alloc(*m, #[trigger] ps@[j]) == Some(a) by {
                    assert(before.contains(a) <==> exists|j: int|
                        0 <= j < i && atom_alloc(*m, #[trigger] ps@[j]) == Some(a));
                }
            },
        }
        i += 1;
    }
    out
}

/// The allocations of the global called `name`.
pub fn named_allocs(m: &Module, c: &Setup, name: &str) -> (r: Vec<Alloc>)
    ensures
        forall|a: Alloc|
            #![trigger r@.contains(a)]
            r@.contains(a) <==> named_alloc(*m, *c, name@, a),
{
    let mut out: Vec<Alloc> = Vec::new();
    let mut g: usize = 0;
    while g < m.globals.len()
        invariant
            g <= m.globals.len(),
            forall|a: Alloc|
                #![trigger out@.contains(a)]
                out@.contains(a) <==> exists|j: usize|
                    j < g && (#[trigger] m.globals@[j as int]).name@ == name@ && a == global_alloc(
                        *m,
                        j,
                    ),
            out@.len() == 0 ==> forall|j: int|
                0 <= j < g ==> (#[trigger] m.globals@[j]).name@ != name@,
            out@.len() > 0 ==> exists|j: int|
                0 <= j < g && (#[trigger] m.globals@[j]).name@ == name@,
        decreases m.globals.len() - g,
    {
        let ghost before = out@;
        if same_text(m.globals[g].name.get(), name) {
            let x = global_alloc_of(m, g);
            out.push(x);
            assert forall|a: Alloc| #![trigger out@.contains(a)]
                out@.contains(a) <==> exists|j: usize|
                    j < g + 1 && (#[trigger] m.globals@[j as int]).name@ == name@ && a
                        == global_alloc(*m, j) by {
                lemma_push_contains(before, x, a);
                assert(before.contains(a) <==> exists|j: usize|
                    j < g && (#[trigger] m.globals@[j as int]).name@ == name@ && a == global_alloc(
                        *m,
                        j,
                    ));
                if a == x {
                    assert(m.globals@[g as int].name@ == name@ && a == global_alloc(*m, g));
                }
            }
            assert(m.globals@[g as int].name@ == name@);
        } else {
            assert forall|a: Alloc| #![trigger out@.contains(a)]
                out@.contains(a) <==> exists|j: usize|
                    j < g + 1 && (#[trigger] m.globals@[j as int]).name@ == name@ && a
                        == global_alloc(*m, j) by {
                assert(before.contains(a) <==> exists|j: usize|
                    j < g && (#[trigger] m.globals@[j as int]).name@ == name@ && a == global_alloc(
                        *m,
                        j,
                    ));
            }
            proof {
                if out@.len() > 0 {
                    let j = choose|j: int| 0 <= j < g && (#[trigger] m.globals@[j]).name@ == name@;
                    assert(0 <= j < g + 1 && m.globals@[j].name@ == name@);
                }
            }
        }
        g += 1;
    }
    if out.len() > 0 {
        assert forall|a: Alloc| #![trigger out@.contains(a)]
            out@.contains(a) <==> named_alloc(*m, *c, name@, a) by {
            let j = choose|j: int| 0 <= j < g && (#[trigger] m.globals@[j]).name@ == name@;
            assert(m.globals@[j].name@ == name@);
        }
        return out;
    }
    let mut e: usize = 0;
    while e < c.extra_globals.len()
        invariant
            e <= c.extra_globals.len(),
            forall|j: int| 0 <= j < m.globals.len() ==> (#[trigger] m.globals@[j]).name@ != name@,
            forall|a: Alloc|
                #![trigger out@.contains(a)]
                out@.contains(a) <==> exists|j: usize|
                    j < e && (#[trigger] c.extra_globals@[j as int])@ == name@ && a == extra_alloc(
                        j,
                    ),
        decreases c.extra_globals.len() - e,
    {
        let ghost before = out@;
        if same_text(c.extra_globals[e].get(), name) {
            let x = extra_alloc_of(e);
            out.push(x);
            assert forall|a: Alloc| #![trigger out@.contains(a)]
                out@.contains(a) <==> exists|j: usize|
                    j < e + 1 && (#[trigger] c.extra_globals@[j as int])@ == name@ && a
                        == extra_alloc(j) by {
                lemma_push_contains(before, x, a);
                assert(before.contains(a) <==> exists|j: usize|
                    j < e && (#[trigger] c.extra_globals@[j as int])@ == name@ && a == extra_alloc(
                        j,
                    ));
                if a == x {
                    assert(c.extra_globals@[e as int]@ == name@ && a == extra_alloc(e));
                }
            }
        } else {
            assert forall|a: Alloc| #![trigger out@.contains(a)]
                out@.contains(a) <==> exists|j: usize|
                    j < e + 1 && (#[trigger] c.extra_globals@[j as int])@ == name@ && a
                        == extra_alloc(j) by {
                assert(before.contains(a) <==> exists|j: usize|
                    j < e && (#[trigger] c.extra_globals@[j as int])@ == name@ && a == extra_alloc(
                        j,
                    ));
            }
        }
        e += 1;
    }
    out
}

/// Whether a block of the function returns the operand.
pub fn returns_operand_of(m: &Module, f: FunctionId, o: &Operand) -> (r: bool)
    ensures
        r == returns_operand(*m, f, *o),
{
    if f >= m.functions.len() {
        return false;
    }
    let blocks = &m.functions[f].blocks;
    let mut b: usize = 0;
    while b < blocks.len()
        invariant
            b <= blocks.len(),
            f < m.functions.len(),
            *blocks == m.functions@[f as int].blocks,
            forall|j: int|
                0 <= j < b ==> (#[trigger] blocks@[j]).terminator.opcode != TerminatorOpcode::Ret(
                    crate::llvm::terminator::Ret { operand: Some(*o) },
                ),
        decreases blocks.len() - b,
    {
        if let TerminatorOpcode::Ret(ret) = &blocks[b].terminator.opcode {
            if let Some(x) = &ret.operand {
                if x.equals(o) {
                    return true;
                }
            }
        }
        b += 1;
    }
    false
}

/// Whether the values of `o` pass through an instruction with opcode `op`.
pub fn passes_of(op: &Opcode, o: &Operand) -> (r: bool)
    ensures
        r == passes(*op, *o),
{
    match op {
        Opcode::Add(a) => o.equals(&a.operand0) || o.equals(&a.operand1),
        Opcode::BitCast(b) => o.equals(&b.pointer) && !is_local(o),
        Opcode::GetElementPtr(g) => o.equals(&g.pointer) && !is_local(o),
        Opcode::IntToPtr(i) => o.equals(&i.int) && !is_local(o),
        Opcode::Phi(p) => {
            let mut i: usize = 0;
            while i < p.values.len()
                invariant
                    i <= p.values.len(),
                    *op == Opcode::Phi(*p),
                    forall|j: int| 0 <= j < i ==> p.values@[j] != *o,
                decreases p.values.len() - i,
            {
                if p.values[i].equals(o) {
                    assert(p.values@[i as int] == *o);
                    return true;
                }
                i += 1;
            }
            false
        },
        Opcode::PtrToInt(p) => o.equals(&p.pointer) && !is_local(o),
        Opcode::Select(s) => o.equals(&s.true_value) || o.equals(&s.false_value),
        Opcode::Sub(s) => o.equals(&s.minuend),
        _ => false,
    }
}

pub fn is_local(o: &Operand) -> (r: bool)
    ensures
        r == (*o is Local),
{
    match o {
        Operand::Local(_) => true,
        _ => false,
    }
}

} // verus!
