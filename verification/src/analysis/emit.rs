//! What the rule functions share.

use crate::allocation::Alloc;
use crate::analysis::facts::{clone_context, holds, lemma_push_holds, Context, Fact, FactView};
use crate::klimited::{pushed_seq, KLimited};
use crate::llvm::name::{FunctionId, InstructionName, LocalName};
use crate::llvm::operand::Operand;
use vstd::prelude::*;

verus! {

/// What a list of facts holds after one more fact was added.
pub proof fn lemma_added(before: Seq<Fact>, after: Seq<Fact>, f: Fact)
    requires
        after == before.push(f),
    ensures
        forall|h: FactView|
            #![trigger holds(after, h)]
            holds(after, h) <==> holds(before, h) || h == f@,
{
    assert forall|h: FactView| #![trigger holds(after, h)]
        holds(after, h) <==> holds(before, h) || h == f@ by {
        lemma_push_holds(before, f, h);
    }
}

/// The operand that stands for the result of the instruction `s`.
pub fn result_of(s: InstructionName) -> (r: Operand)
    ensures
        r == Operand::of_instruction(s),
{
    Operand::Local(LocalName::Instruction(s))
}

/// The context of the callee of a call at `site` in the context `ctx`,
/// where contexts keep `k` call sites.
pub fn callee_context(k: usize, ctx: &Context, site: InstructionName) -> (r: Context)
    ensures
        r@ == pushed_seq(k as nat, ctx@, site),
        r.k == k,
{
    let copy = clone_context(ctx);
    let mut r = KLimited { k, elems: copy.elems };
    r.push(site);
    r
}

/// Adds that `operand` denotes, in `ctx`, each of `allocs`.
pub fn emit_points_to(ctx: &Context, operand: &Operand, allocs: &Vec<Alloc>, out: &mut Vec<Fact>)
    ensures
        forall|h: FactView|
            #![trigger holds(final(out)@, h)]
            holds(final(out)@, h) <==> holds(old(out)@, h) || exists|x: Alloc|
                #![trigger allocs@.contains(x)]
                allocs@.contains(x) && h == (FactView::OperandPointsTo {
                    ctx: ctx@,
                    operand: *operand,
                    alloc: x,
                }),
{
    let mut i: usize = 0;
    while i < allocs.len()
        invariant
            i <= allocs.len(),
            forall|h: FactView|
                #![trigger holds(out@, h)]
                holds(out@, h) <==> holds(old(out)@, h) || exists|j: int|
                    0 <= j < i && h == (FactView::OperandPointsTo {
                        ctx: ctx@,
                        operand: *operand,
                        alloc: #[trigger] allocs@[j],
                    }),
        decreases allocs.len() - i,
    {
        let ghost before = out@;
        let f = Fact::OperandPointsTo {
            ctx: clone_context(ctx),
            operand: operand.clone(),
            alloc: allocs[i],
        };
        out.push(f);
        proof {
            lemma_added(before, out@, f);
            assert forall|h: FactView| #![trigger holds(out@, h)]
                holds(out@, h) <==> holds(old(out)@, h) || exists|j: int|
                    0 <= j < i + 1 && h == (FactView::OperandPointsTo {
                        ctx: ctx@,
                        operand: *operand,
                        alloc: #[trigger] allocs@[j],
                    }) by {
                assert(holds(before, h) <==> holds(old(out)@, h) || exists|j: int|
                    0 <= j < i && h == (FactView::OperandPointsTo {
                        ctx: ctx@,
                        operand: *operand,
                        alloc: #[trigger] allocs@[j],
                    }));
                if h == f@ {
                    assert(h == (FactView::OperandPointsTo {
                        ctx: ctx@,
                        operand: *operand,
                        alloc: allocs@[i as int],
                    }));
                }
            }
        }
        i += 1;
    }
    proof {
        assert forall|h: FactView| #![trigger holds(out@, h)]
            holds(out@, h) <==> holds(old(out)@, h) || exists|x: Alloc|
                #![trigger allocs@.contains(x)]
                allocs@.contains(x) && h == (FactView::OperandPointsTo {
                    ctx: ctx@,
                    operand: *operand,
                    alloc: x,
                }) by {
            if exists|x: Alloc|
                #![trigger allocs@.contains(x)]
                allocs@.contains(x) && h == (FactView::OperandPointsTo {
                    ctx: ctx@,
                    operand: *operand,
                    alloc: x,
                }) {
                let x = choose|x: Alloc|
                    #![trigger allocs@.contains(x)]
                    allocs@.contains(x) && h == (FactView::OperandPointsTo {
                        ctx: ctx@,
                        operand: *operand,
                        alloc: x,
                    });
                let j = choose|j: int| 0 <= j < allocs@.len() && allocs@[j] == x;
                assert(h == (FactView::OperandPointsTo {
                    ctx: ctx@,
                    operand: *operand,
                    alloc: allocs@[j],
                }));
            }
            if exists|j: int|
                0 <= j < i && h == (FactView::OperandPointsTo {
                    ctx: ctx@,
                    operand: *operand,
                    alloc: #[trigger] allocs@[j],
                }) {
                let j = choose|j: int|
                    0 <= j < i && h == (FactView::OperandPointsTo {
                        ctx: ctx@,
                        operand: *operand,
                        alloc: #[trigger] allocs@[j],
                    });
                assert(allocs@.contains(allocs@[j]));
            }
        }
    }
}

/// Adds that `from` points to each of `allocs`.
pub fn emit_alloc_points_to(from: Alloc, allocs: &Vec<Alloc>, out: &mut Vec<Fact>)
    ensures
        forall|h: FactView|
            #![trigger holds(final(out)@, h)]
            holds(final(out)@, h) <==> holds(old(out)@, h) || exists|x: Alloc|
                #![trigger allocs@.contains(x)]
                allocs@.contains(x) && h == (FactView::AllocPointsTo { from, to: x }),
{
    let mut i: usize = 0;
    while i < allocs.len()
        invariant
            i <= allocs.len(),
            forall|h: FactView|
                #![trigger holds(out@, h)]
                holds(out@, h) <==> holds(old(out)@, h) || exists|j: int|
                    0 <= j < i && h == (FactView::AllocPointsTo {
                        from,
                        to: #[trigger] allocs@[j],
                    }),
        decreases allocs.len() - i,
    {
        let ghost before = out@;
        let f = Fact::AllocPointsTo { from, to: allocs[i] };
        out.push(f);
        proof {
            lemma_added(before, out@, f);
            assert forall|h: FactView| #![trigger holds(out@, h)]
                holds(out@, h) <==> holds(old(out)@, h) || exists|j: int|
                    0 <= j < i + 1 && h == (FactView::AllocPointsTo {
                        from,
                        to: #[trigger] allocs@[j],
                    }) by {
                assert(holds(before, h) <==> holds(old(out)@, h) || exists|j: int|
                    0 <= j < i && h == (FactView::AllocPointsTo {
                        from,
                        to: #[trigger] allocs@[j],
                    }));
                if h == f@ {
                    assert(h == (FactView::AllocPointsTo { from, to: allocs@[i as int] }));
                }
            }
        }
        i += 1;
    }
    proof {
        assert forall|h: FactView| #![trigger holds(out@, h)]
            holds(out@, h) <==> holds(old(out)@, h) || exists|x: Alloc|
                #![trigger allocs@.contains(x)]
                allocs@.contains(x) && h == (FactView::AllocPointsTo { from, to: x }) by {
            if exists|x: Alloc|
                #![trigger allocs@.contains(x)]
                allocs@.contains(x) && h == (FactView::AllocPointsTo { from, to: x }) {
                let x = choose|x: Alloc|
                    #![trigger allocs@.contains(x)]
                    allocs@.contains(x) && h == (FactView::AllocPointsTo { from, to: x });
                let j = choose|j: int| 0 <= j < allocs@.len() && allocs@[j] == x;
                assert(h == (FactView::AllocPointsTo { from, to: allocs@[j] }));
            }
            if exists|j: int|
                0 <= j < i && h == (FactView::AllocPointsTo { from, to: #[trigger] allocs@[j] }) {
                let j = choose|j: int|
                    0 <= j < i && h == (FactView::AllocPointsTo {
                        from,
                        to: #[trigger] allocs@[j],
                    });
                assert(allocs@.contains(allocs@[j]));
            }
        }
    }
}

/// Adds that the call at `site` in `ctx` calls each of `targets`.
pub fn emit_calls(
    k: usize,
    ctx: &Context,
    site: InstructionName,
    targets: &Vec<FunctionId>,
    out: &mut Vec<Fact>,
)
    ensures
        forall|h: FactView|
            #![trigger holds(final(out)@, h)]
            holds(final(out)@, h) <==> holds(old(out)@, h) || exists|f: FunctionId|
                #![trigger targets@.contains(f)]
                targets@.contains(f) && h == (FactView::Calls {
                    ctx: ctx@,
                    site,
                    callee: f,
                    callee_ctx: pushed_seq(k as nat, ctx@, site),
                }),
{
    let mut i: usize = 0;
    while i < targets.len()
        invariant
            i <= targets.len(),
            forall|h: FactView|
                #![trigger holds(out@, h)]
                holds(out@, h) <==> holds(old(out)@, h) || exists|j: int|
                    0 <= j < i && h == (FactView::Calls {
                        ctx: ctx@,
                        site,
                        callee: #[trigger] targets@[j],
                        callee_ctx: pushed_seq(k as nat, ctx@, site),
                    }),
        decreases targets.len() - i,
    {
        let ghost before = out@;
        let f = Fact::Calls {
            ctx: clone_context(ctx),
            site,
            callee: targets[i],
            callee_ctx: callee_context(k, ctx, site),
        };
        out.push(f);
        proof {
            lemma_added(before, out@, f);
            assert forall|h: FactView| #![trigger holds(out@, h)]
                holds(out@, h) <==> holds(old(out)@, h) || exists|j: int|
                    0 <= j < i + 1 && h == (FactView::Calls {
                        ctx: ctx@,
                        site,
                        callee: #[trigger] targets@[j],
                        callee_ctx: pushed_seq(k as nat, ctx@, site),
                    }) by {
                assert(holds(before, h) <==> holds(old(out)@, h) || exists|j: int|
                    0 <= j < i && h == (FactView::Calls {
                        ctx: ctx@,
                        site,
                        callee: #[trigger] targets@[j],
                        callee_ctx: pushed_seq(k as nat, ctx@, site),
                    }));
                if h == f@ {
                    assert(h == (FactView::Calls {
                        ctx: ctx@,
                        site,
                        callee: targets@[i as int],
                        callee_ctx: pushed_seq(k as nat, ctx@, site),
                    }));
                }
            }
        }
        i += 1;
    }
    proof {
        assert forall|h: FactView| #![trigger holds(out@, h)]
            holds(out@, h) <==> holds(old(out)@, h) || exists|f: FunctionId|
                #![trigger targets@.contains(f)]
                targets@.contains(f) && h == (FactView::Calls {
                    ctx: ctx@,
                    site,
                    callee: f,
                    callee_ctx: pushed_seq(k as nat, ctx@, site),
                }) by {
            if exists|f: FunctionId|
                #![trigger targets@.contains(f)]
                targets@.contains(f) && h == (FactView::Calls {
                    ctx: ctx@,
                    site,
                    callee: f,
                    callee_ctx: pushed_seq(k as nat, ctx@, site),
                }) {
                let f = choose|f: FunctionId|
                    #![trigger targets@.contains(f)]
                    targets@.contains(f) && h == (FactView::Calls {
                        ctx: ctx@,
                        site,
                        callee: f,
                        callee_ctx: pushed_seq(k as nat, ctx@, site),
                    });
                let j = choose|j: int| 0 <= j < targets@.len() && targets@[j] == f;
                assert(h == (FactView::Calls {
                    ctx: ctx@,
                    site,
                    callee: targets@[j],
                    callee_ctx: pushed_seq(k as nat, ctx@, site),
                }));
            }
            if exists|j: int|
                0 <= j < i && h == (FactView::Calls {
                    ctx: ctx@,
                    site,
                    callee: #[trigger] targets@[j],
                    callee_ctx: pushed_seq(k as nat, ctx@, site),
                }) {
                let j = choose|j: int|
                    0 <= j < i && h == (FactView::Calls {
                        ctx: ctx@,
                        site,
                        callee: #[trigger] targets@[j],
                        callee_ctx: pushed_seq(k as nat, ctx@, site),
                    });
                assert(targets@.contains(targets@[j]));
            }
        }
    }
}

} // verus!
