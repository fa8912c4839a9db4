//! Over-approximate callgraph analysis.

use crate::analysis::rules::arity_fits;
use crate::llvm::constant::Constant;
use crate::llvm::name::{FunctionId, InstructionName};
use crate::llvm::operand::{Callee, Operand};
use crate::llvm::Module;
use crate::sequences::lemma_push_contains;
use vstd::prelude::*;

verus! {

/// The functions among the constants.
pub open spec fn functions_among(ps: Seq<Constant>) -> Seq<FunctionId>
    decreases ps.len(),
{
    if ps.len() == 0 {
        Seq::empty()
    } else {
        functions_among(ps.drop_last()) + match ps.last() {
            Constant::Function(f) => seq![f],
            _ => Seq::empty(),
        }
    }
}

/// The functions that a constant in the callee position may stand for: a
/// function stands for itself, a cast for what it casts, and an address
/// computation for the functions among its pointers. Nothing is known of
/// any other constant.
pub open spec fn constant_functions_spec(c: Constant) -> Seq<FunctionId>
    decreases c,
{
    match c {
        Constant::Function(f) => seq![f],
        Constant::BitCast(b) => constant_functions_spec(*b.pointer),
        Constant::GetElementPtr(_) => functions_among(c.pointers_spec()),
        _ => Seq::empty(),
    }
}

/// The functions that a constant in the callee position may stand for.
pub fn constant_functions(c: &Constant) -> (r: Vec<FunctionId>)
    ensures
        r@ == constant_functions_spec(*c),
    decreases *c,
{
    match c {
        Constant::Function(f) => {
            let r = vec![*f];
            assert(r@ =~= seq![*f]);
            r
        },
        Constant::BitCast(b) => constant_functions(&*b.pointer),
        Constant::GetElementPtr(_) => {
            let ps = c.pointers();
            let mut out: Vec<FunctionId> = Vec::new();
            let mut i: usize = 0;
            assert(ps@.subrange(0, 0) =~= Seq::<Constant>::empty());
            while i < ps.len()
                invariant
                    i <= ps.len(),
                    out@ == functions_among(ps@.subrange(0, i as int)),
                decreases ps.len() - i,
            {
                proof {
                    let next = ps@.subrange(0, i + 1);
                    assert(next.drop_last() =~= ps@.subrange(0, i as int));
                    assert(next.last() == ps@[i as int]);
                }
                let ghost before = out@;
                if let Constant::Function(f) = &ps[i] {
                    out.push(*f);
                    assert(out@ =~= before + seq![*f]);
                } else {
                    assert(out@ =~= before + Seq::<FunctionId>::empty());
                }
                i += 1;
            }
            assert(ps@.subrange(0, i as int) =~= ps@);
            out
        },
        _ => Vec::new(),
    }
}

/// Whether the function is a possible target of a call with the given
/// callee and number of arguments.
///
/// - A call of a constant targets the functions that the constant stands
///   for.
/// - A call of assembly, or through a local, may target any function that
///   takes no more parameters than the call has arguments.
pub open spec fn is_call_target(m: Module, callee: Callee, nargs: usize, f: FunctionId) -> bool {
    match callee {
        Callee::Asm => arity_fits(m, f, nargs as nat),
        Callee::Operand(Operand::Metadata) => false,
        Callee::Operand(Operand::Constant(c)) => constant_functions_spec(c).contains(f),
        Callee::Operand(Operand::Local(_)) => arity_fits(m, f, nargs as nat),
    }
}

/// All possible targets of a call.
pub fn call_targets(module: &Module, callee: &Callee, nargs: usize) -> (r: Vec<FunctionId>)
    ensures
        forall|f: FunctionId|
            #![trigger r@.contains(f)]
            r@.contains(f) <==> is_call_target(*module, *callee, nargs, f),
{
    match callee {
        Callee::Asm => indirect_call_targets(module, nargs),
        Callee::Operand(o) => match o {
            Operand::Metadata => Vec::new(),
            Operand::Constant(c) => constant_functions(c),
            Operand::Local(_) => indirect_call_targets(module, nargs),
        },
    }
}

/// Whether the rows give the call site `s` the target `f`.
pub open spec fn has_target(
    rows: Seq<(InstructionName, Vec<FunctionId>)>,
    s: InstructionName,
    f: FunctionId,
) -> bool {
    exists|k: int| 0 <= k < rows.len() && (#[trigger] rows[k]).0 == s && rows[k].1@.contains(f)
}

/// Whether the rows have a row for the call site `s`.
pub open spec fn has_site(rows: Seq<(InstructionName, Vec<FunctionId>)>, s: InstructionName) -> bool {
    exists|k: int| 0 <= k < rows.len() && (#[trigger] rows[k]).0 == s
}

/// Whether the rows are the callgraph of the module: one row for every
/// call and invoke, with its possible targets.
pub open spec fn is_callgraph(m: Module, rows: Seq<(InstructionName, Vec<FunctionId>)>) -> bool {
    &&& forall|s: InstructionName|
        #![trigger has_site(rows, s)]
        has_site(rows, s) <==> m.callee(s) is Some
    &&& forall|s: InstructionName, f: FunctionId|
        #![trigger has_target(rows, s, f)]
        has_target(rows, s, f) <==> m.callee(s) is Some && is_call_target(
            m,
            m.callee(s)->0,
            m.args(s).len() as usize,
            f,
        )
}

/// Over-approximate callgraph analysis: for every call and invoke of the
/// module, its possible targets.
pub fn analysis(module: &Module) -> (r: Vec<(InstructionName, Vec<FunctionId>)>)
    ensures
        is_callgraph(*module, r@),
{
    let sites = module.sites();
    let mut out: Vec<(InstructionName, Vec<FunctionId>)> = Vec::new();
    let mut i: usize = 0;
    while i < sites.len()
        invariant
            i <= sites.len(),
            forall|s: InstructionName|
                #![trigger sites@.contains(s)]
                sites@.contains(s) <==> module.is_site(s),
            forall|k: int|
                0 <= k < out@.len() ==> module.callee((#[trigger] out@[k]).0) is Some
                    && sites@.subrange(0, i as int).contains(out@[k].0) && forall|f: FunctionId|
                    #![trigger out@[k].1@.contains(f)]
                    out@[k].1@.contains(f) <==> is_call_target(
                        *module,
                        module.callee(out@[k].0)->0,
                        module.args(out@[k].0).len() as usize,
                        f,
                    ),
            forall|j: int|
                0 <= j < i && module.callee(#[trigger] sites@[j]) is Some ==> has_site(
                    out@,
                    sites@[j],
                ),
        decreases sites.len() - i,
    {
        let s = sites[i];
        let ghost before = out@;
        proof {
            assert forall|k: int| 0 <= k < before.len() implies sites@.subrange(
                0,
                i + 1,
            ).contains((#[trigger] before[k]).0) by {
                let p = choose|p: int|
                    0 <= p < sites@.subrange(0, i as int).len() && sites@.subrange(0, i as int)[p]
                        == before[k].0;
                assert(sites@.subrange(0, i + 1)[p] == before[k].0);
            }
        }
        if let Some((callee, args)) = module.call_at(s) {
            let targets = call_targets(module, callee, args.len());
            out.push((s, targets));
            proof {
                assert(sites@.subrange(0, i + 1)[i as int] == s);
                assert forall|j: int|
                    0 <= j < i + 1 && module.callee(#[trigger] sites@[j]) is Some implies has_site(
                    out@,
                    sites@[j],
                ) by {
                    if j < i {
                        let k = choose|k: int|
                            0 <= k < before.len() && (#[trigger] before[k]).0 == sites@[j];
                        assert(out@[k].0 == sites@[j]);
                    } else {
                        assert(out@[before.len() as int].0 == s);
                    }
                }
            }
        } else {
            proof {
                assert forall|j: int|
                    0 <= j < i + 1 && module.callee(#[trigger] sites@[j]) is Some implies has_site(
                    out@,
                    sites@[j],
                ) by {
                    assert(j < i);
                }
            }
        }
        i += 1;
    }
    proof {
        assert forall|s: InstructionName| #![trigger has_site(out@, s)]
            has_site(out@, s) <==> module.callee(s) is Some by {
            if module.callee(s) is Some {
                assert(module.is_site(s));
                assert(sites@.contains(s));
                let j = choose|j: int| 0 <= j < sites@.len() && sites@[j] == s;
                assert(has_site(out@, sites@[j]));
            }
        }
        assert forall|s: InstructionName, f: FunctionId| #![trigger has_target(out@, s, f)]
            has_target(out@, s, f) <==> module.callee(s) is Some && is_call_target(
                *module,
                module.callee(s)->0,
                module.args(s).len() as usize,
                f,
            ) by {
            if module.callee(s) is Some && is_call_target(
                *module,
                module.callee(s)->0,
                module.args(s).len() as usize,
                f,
            ) {
                assert(has_site(out@, s));
                let k = choose|k: int| 0 <= k < out@.len() && (#[trigger] out@[k]).0 == s;
                assert(out@[k].1@.contains(f));
            }
        }
    }
    out
}

/// Whether the ids stand in strictly ascending order.
pub open spec fn ascending(ids: Seq<FunctionId>) -> bool {
    forall|i: int, j: int| 0 <= i < j < ids.len() ==> ids[i] < ids[j]
}

/// The functions, defined or declared, that a call with `nargs` arguments
/// may target when nothing else is known of its callee: those that take no
/// more parameters. Calling a function with extra arguments is well defined.
/// They come in ascending order, each once.
pub fn indirect_call_targets(module: &Module, nargs: usize) -> (r: Vec<FunctionId>)
    ensures
        forall|f: FunctionId|
            #![trigger r@.contains(f)]
            r@.contains(f) <==> arity_fits(*module, f, nargs as nat),
        ascending(r@),
        r@.no_duplicates(),
{
    let mut out: Vec<FunctionId> = Vec::new();
    let nf = module.functions.len();
    let mut f: usize = 0;
    while f < nf
        invariant
            f <= nf,
            nf == module.functions.len(),
            ascending(out@),
            forall|i: int| 0 <= i < out@.len() ==> #[trigger] out@[i] < f,
            forall|g: FunctionId|
                #![trigger out@.contains(g)]
                out@.contains(g) <==> g < f && arity_fits(*module, g, nargs as nat),
        decreases nf - f,
    {
        let ghost before = out@;
        if nargs >= module.functions[f].parameters.len() {
            out.push(f);
            assert forall|g: FunctionId| #![trigger out@.contains(g)]
                out@.contains(g) <==> g < f + 1 && arity_fits(*module, g, nargs as nat) by {
                lemma_push_contains(before, f, g);
                assert(before.contains(g) <==> g < f && arity_fits(*module, g, nargs as nat));
            }
        } else {
            assert forall|g: FunctionId| #![trigger out@.contains(g)]
                out@.contains(g) <==> g < f + 1 && arity_fits(*module, g, nargs as nat) by {
                assert(before.contains(g) <==> g < f && arity_fits(*module, g, nargs as nat));
            }
        }
        f += 1;
    }
    let nd = module.decls.len();
    let mut d: usize = 0;
    while d < nd && nf <= usize::MAX - d
        invariant
            d <= nd,
            nf == module.functions.len(),
            nd == module.decls.len(),
            ascending(out@),
            forall|i: int| 0 <= i < out@.len() ==> #[trigger] out@[i] < nf + d,
            forall|g: FunctionId|
                #![trigger out@.contains(g)]
                out@.contains(g) <==> g < nf + d && arity_fits(*module, g, nargs as nat),
        decreases nd - d,
    {
        let ghost before = out@;
        if nargs >= module.decls[d].parameters.len() {
            out.push(nf + d);
            assert forall|g: FunctionId| #![trigger out@.contains(g)]
                out@.contains(g) <==> g < nf + d + 1 && arity_fits(*module, g, nargs as nat) by {
                lemma_push_contains(before, (nf + d) as usize, g);
                assert(before.contains(g) <==> g < nf + d && arity_fits(
                    *module,
                    g,
                    nargs as nat,
                ));
            }
        } else {
            assert forall|g: FunctionId| #![trigger out@.contains(g)]
                out@.contains(g) <==> g < nf + d + 1 && arity_fits(*module, g, nargs as nat) by {
                assert(before.contains(g) <==> g < nf + d && arity_fits(
                    *module,
                    g,
                    nargs as nat,
                ));
            }
        }
        d += 1;
    }
    assert forall|g: FunctionId| #![trigger out@.contains(g)]
        out@.contains(g) <==> arity_fits(*module, g, nargs as nat) by {
        assert(out@.contains(g) <==> g < nf + d && arity_fits(*module, g, nargs as nat));
        assert(g <= usize::MAX);
    }
    out
}

} // verus!
