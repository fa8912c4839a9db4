//! The rules without a premise.

use crate::allocation::Alloc;
use crate::analysis::emit::{emit_alloc_points_to, lemma_added};
use crate::analysis::facts::{holds, Context, Fact, FactView};
use crate::analysis::lookup::{
    constant_allocs, extra_alloc_of, global_alloc_of, implicit_target_of, is_main, parameter_of,
};
use crate::analysis::rules::{
    constant_points_to, extra_alloc, global_alloc, implicit_target, initial, initial_argv,
    initial_fixed, initial_implicit, initial_initializer, initial_main, is_main_name,
    parameter_operand, Setup,
};
use crate::klimited::KLimited;
use crate::llvm::name::InstructionName;
use crate::llvm::Module;
use vstd::prelude::*;

verus! {

/// The context in which a program starts.
pub fn empty_context(k: usize) -> (r: Context)
    ensures
        r@ == Seq::<InstructionName>::empty(),
        r.k == k,
{
    let r = KLimited::new(k, Vec::new());
    assert(r@ =~= Seq::<InstructionName>::empty());
    r
}

pub fn apply_main(m: &Module, c: &Setup, out: &mut Vec<Fact>)
    ensures
        forall|h: FactView|
            #![trigger holds(final(out)@, h)]
            holds(final(out)@, h) <==> holds(old(out)@, h) || initial_main(*m, *c, h),
{
    let mut f: usize = 0;
    while f < m.functions.len()
        invariant
            f <= m.functions.len(),
            forall|h: FactView|
                #![trigger holds(out@, h)]
                holds(out@, h) <==> holds(old(out)@, h) || exists|g: usize|
                    #![trigger m.functions@[g as int]]
                    g < f && is_main_name(m.functions@[g as int].name@) && h
                        == (FactView::Reachable { ctx: Seq::empty(), function: g }),
        decreases m.functions.len() - f,
    {
        let ghost before = out@;
        if is_main(m.functions[f].name.get()) {
            let x = Fact::Reachable { ctx: empty_context(c.contexts), function: f };
            out.push(x);
            proof {
                lemma_added(before, out@, x);
                assert forall|h: FactView| #![trigger holds(out@, h)]
                    holds(out@, h) <==> holds(old(out)@, h) || exists|g: usize|
                        #![trigger m.functions@[g as int]]
                        g < f + 1 && is_main_name(m.functions@[g as int].name@) && h
                            == (FactView::Reachable { ctx: Seq::empty(), function: g }) by {
                    assert(holds(before, h) <==> holds(old(out)@, h) || exists|g: usize|
                        #![trigger m.functions@[g as int]]
                        g < f && is_main_name(m.functions@[g as int].name@) && h
                            == (FactView::Reachable { ctx: Seq::empty(), function: g }));
                    if h == x@ {
                        assert(is_main_name(m.functions@[f as int].name@));
                    }
                }
            }
        } else {
            proof {
                assert forall|h: FactView| #![trigger holds(out@, h)]
                    holds(out@, h) <==> holds(old(out)@, h) || exists|g: usize|
                        #![trigger m.functions@[g as int]]
                        g < f + 1 && is_main_name(m.functions@[g as int].name@) && h
                            == (FactView::Reachable { ctx: Seq::empty(), function: g }) by {
                    assert(holds(before, h) <==> holds(old(out)@, h) || exists|g: usize|
                        #![trigger m.functions@[g as int]]
                        g < f && is_main_name(m.functions@[g as int].name@) && h
                            == (FactView::Reachable { ctx: Seq::empty(), function: g }));
                }
            }
        }
        f += 1;
    }
}

fn apply_argv(m: &Module, c: &Setup, out: &mut Vec<Fact>)
    ensures
        forall|h: FactView|
            #![trigger holds(final(out)@, h)]
            holds(final(out)@, h) <==> holds(old(out)@, h) || initial_argv(*m, *c, h),
{
    let mut f: usize = 0;
    while f < m.functions.len()
        invariant
            f <= m.functions.len(),
            forall|h: FactView|
                #![trigger holds(out@, h)]
                holds(out@, h) <==> holds(old(out)@, h) || exists|g: usize|
                    #![trigger m.functions@[g as int]]
                    g < f && is_main_name(m.functions@[g as int].name@)
                        && m.functions@[g as int].parameters.len() >= 2 && h
                        == (FactView::OperandPointsTo {
                        ctx: Seq::empty(),
                        operand: parameter_operand(g, 1),
                        alloc: extra_alloc(0),
                    }),
        decreases m.functions.len() - f,
    {
        let ghost before = out@;
        if is_main(m.functions[f].name.get()) && m.functions[f].parameters.len() >= 2 {
            let x = Fact::OperandPointsTo {
                ctx: empty_context(c.contexts),
                operand: parameter_of(f, 1),
                alloc: extra_alloc_of(0),
            };
            out.push(x);
            proof {
                lemma_added(before, out@, x);
                assert forall|h: FactView| #![trigger holds(out@, h)]
                    holds(out@, h) <==> holds(old(out)@, h) || exists|g: usize|
                        #![trigger m.functions@[g as int]]
                        g < f + 1 && is_main_name(m.functions@[g as int].name@)
                            && m.functions@[g as int].parameters.len() >= 2 && h
                            == (FactView::OperandPointsTo {
                            ctx: Seq::empty(),
                            operand: parameter_operand(g, 1),
                            alloc: extra_alloc(0),
                        }) by {
                    assert(holds(before, h) <==> holds(old(out)@, h) || exists|g: usize|
                        #![trigger m.functions@[g as int]]
                        g < f && is_main_name(m.functions@[g as int].name@)
                            && m.functions@[g as int].parameters.len() >= 2 && h
                            == (FactView::OperandPointsTo {
                            ctx: Seq::empty(),
                            operand: parameter_operand(g, 1),
                            alloc: extra_alloc(0),
                        }));
                    if h == x@ {
                        assert(is_main_name(m.functions@[f as int].name@));
                    }
                }
            }
        } else {
            proof {
                assert forall|h: FactView| #![trigger holds(out@, h)]
                    holds(out@, h) <==> holds(old(out)@, h) || exists|g: usize|
                        #![trigger m.functions@[g as int]]
                        g < f + 1 && is_main_name(m.functions@[g as int].name@)
                            && m.functions@[g as int].parameters.len() >= 2 && h
                            == (FactView::OperandPointsTo {
                            ctx: Seq::empty(),
                            operand: parameter_operand(g, 1),
                            alloc: extra_alloc(0),
                        }) by {
                    assert(holds(before, h) <==> holds(old(out)@, h) || exists|g: usize|
                        #![trigger m.functions@[g as int]]
                        g < f && is_main_name(m.functions@[g as int].name@)
                            && m.functions@[g as int].parameters.len() >= 2 && h
                            == (FactView::OperandPointsTo {
                            ctx: Seq::empty(),
                            operand: parameter_operand(g, 1),
                            alloc: extra_alloc(0),
                        }));
                }
            }
        }
        f += 1;
    }
}

fn apply_fixed(m: &Module, c: &Setup, out: &mut Vec<Fact>)
    ensures
        forall|h: FactView|
            #![trigger holds(final(out)@, h)]
            holds(final(out)@, h) <==> holds(old(out)@, h) || initial_fixed(*m, *c, h),
{
    let x = Fact::AllocPointsTo { from: Alloc::Top, to: Alloc::Top };
    out.push(x);
    let ghost one = out@;
    let y = Fact::AllocPointsTo { from: extra_alloc_of(0), to: extra_alloc_of(1) };
    out.push(y);
    let ghost two = out@;
    let z = Fact::AllocPointsTo { from: extra_alloc_of(6), to: extra_alloc_of(7) };
    out.push(z);
    proof {
        lemma_added(old(out)@, one, x);
        lemma_added(one, two, y);
        lemma_added(two, out@, z);
        assert forall|h: FactView| #![trigger holds(out@, h)]
            holds(out@, h) <==> holds(old(out)@, h) || initial_fixed(*m, *c, h) by {
            assert(holds(two, h) <==> holds(one, h) || h == y@);
            assert(holds(one, h) <==> holds(old(out)@, h) || h == x@);
        }
    }
}

fn apply_implicit(m: &Module, c: &Setup, out: &mut Vec<Fact>)
    ensures
        forall|h: FactView|
            #![trigger holds(final(out)@, h)]
            holds(final(out)@, h) <==> holds(old(out)@, h) || initial_implicit(*m, *c, h),
{
    let mut g: usize = 0;
    while g < m.globals.len()
        invariant
            g <= m.globals.len(),
            forall|h: FactView|
                #![trigger holds(out@, h)]
                holds(out@, h) <==> holds(old(out)@, h) || exists|j: usize|
                    #![trigger m.globals@[j as int]]
                    j < g && m.globals@[j as int].initializer is None && implicit_target(
                        m.globals@[j as int].name@,
                    ) is Some && h == (FactView::AllocPointsTo {
                        from: global_alloc(*m, j),
                        to: extra_alloc(implicit_target(m.globals@[j as int].name@)->0),
                    }),
        decreases m.globals.len() - g,
    {
        let ghost before = out@;
        let target = implicit_target_of(m.globals[g].name.get());
        if m.globals[g].initializer.is_none() && target.is_some() {
            let x = Fact::AllocPointsTo {
                from: global_alloc_of(m, g),
                to: extra_alloc_of(target.unwrap()),
            };
            out.push(x);
            proof {
                lemma_added(before, out@, x);
                assert forall|h: FactView| #![trigger holds(out@, h)]
                    holds(out@, h) <==> holds(old(out)@, h) || exists|j: usize|
                        #![trigger m.globals@[j as int]]
                        j < g + 1 && m.globals@[j as int].initializer is None && implicit_target(
                            m.globals@[j as int].name@,
                        ) is Some && h == (FactView::AllocPointsTo {
                            from: global_alloc(*m, j),
                            to: extra_alloc(implicit_target(m.globals@[j as int].name@)->0),
                        }) by {
                    assert(holds(before, h) <==> holds(old(out)@, h) || exists|j: usize|
                        #![trigger m.globals@[j as int]]
                        j < g && m.globals@[j as int].initializer is None && implicit_target(
                            m.globals@[j as int].name@,
                        ) is Some && h == (FactView::AllocPointsTo {
                            from: global_alloc(*m, j),
                            to: extra_alloc(implicit_target(m.globals@[j as int].name@)->0),
                        }));
                    if h == x@ {
                        assert(m.globals@[g as int].initializer is None);
                    }
                }
            }
        } else {
            proof {
                assert forall|h: FactView| #![trigger holds(out@, h)]
                    holds(out@, h) <==> holds(old(out)@, h) || exists|j: usize|
                        #![trigger m.globals@[j as int]]
                        j < g + 1 && m.globals@[j as int].initializer is None && implicit_target(
                            m.globals@[j as int].name@,
                        ) is Some && h == (FactView::AllocPointsTo {
                            from: global_alloc(*m, j),
                            to: extra_alloc(implicit_target(m.globals@[j as int].name@)->0),
                        }) by {
                    assert(holds(before, h) <==> holds(old(out)@, h) || exists|j: usize|
                        #![trigger m.globals@[j as int]]
                        j < g && m.globals@[j as int].initializer is None && implicit_target(
                            m.globals@[j as int].name@,
                        ) is Some && h == (FactView::AllocPointsTo {
                            from: global_alloc(*m, j),
                            to: extra_alloc(implicit_target(m.globals@[j as int].name@)->0),
                        }));
                }
            }
        }
        g += 1;
    }
}

/// Whether `h` says that one of the first `n` variables points to what its
/// initializer points to.
pub open spec fn initializer_fact(m: Module, n: int, h: FactView) -> bool {
    exists|g: usize, a: Alloc|
        #![trigger m.globals@[g as int], constant_points_to(m, m.globals@[g as int].initializer->0, a)]
        g < n && m.globals@[g as int].initializer is Some && constant_points_to(
            m,
            m.globals@[g as int].initializer->0,
            a,
        ) && h == (FactView::AllocPointsTo { from: global_alloc(m, g), to: a })
}

proof fn lemma_initializer_step(m: Module, g: usize, allocs: Seq<Alloc>, h: FactView)
    requires
        g < m.globals.len(),
        m.globals@[g as int].initializer is Some,
        forall|x: Alloc|
            #![trigger allocs.contains(x)]
            allocs.contains(x) <==> constant_points_to(m, m.globals@[g as int].initializer->0, x),
    ensures
        initializer_fact(m, g + 1, h) <==> initializer_fact(m, g as int, h) || exists|x: Alloc|
            #![trigger allocs.contains(x)]
            allocs.contains(x) && h == (FactView::AllocPointsTo {
                from: global_alloc(m, g),
                to: x,
            }),
{
    if initializer_fact(m, g + 1, h) {
        let (j, x) = choose|j: usize, x: Alloc|
            #![trigger m.globals@[j as int], constant_points_to(m, m.globals@[j as int].initializer->0, x)]
            j < g + 1 && m.globals@[j as int].initializer is Some && constant_points_to(
                m,
                m.globals@[j as int].initializer->0,
                x,
            ) && h == (FactView::AllocPointsTo { from: global_alloc(m, j), to: x });
        if j < g {
            assert(initializer_fact(m, g as int, h));
        } else {
            assert(allocs.contains(x));
        }
    }
    if initializer_fact(m, g as int, h) {
        let (j, x) = choose|j: usize, x: Alloc|
            #![trigger m.globals@[j as int], constant_points_to(m, m.globals@[j as int].initializer->0, x)]
            j < g && m.globals@[j as int].initializer is Some && constant_points_to(
                m,
                m.globals@[j as int].initializer->0,
                x,
            ) && h == (FactView::AllocPointsTo { from: global_alloc(m, j), to: x });
        assert(j < g + 1 && m.globals@[j as int].initializer is Some && constant_points_to(
            m,
            m.globals@[j as int].initializer->0,
            x,
        ));
    }
    if exists|x: Alloc|
        #![trigger allocs.contains(x)]
        allocs.contains(x) && h == (FactView::AllocPointsTo { from: global_alloc(m, g), to: x }) {
        let x = choose|x: Alloc|
            #![trigger allocs.contains(x)]
            allocs.contains(x) && h == (FactView::AllocPointsTo {
                from: global_alloc(m, g),
                to: x,
            });
        assert(m.globals@[g as int].initializer is Some && constant_points_to(
            m,
            m.globals@[g as int].initializer->0,
            x,
        ));
    }
}

proof fn lemma_initializer_skip(m: Module, g: usize, h: FactView)
    requires
        g < m.globals.len(),
        m.globals@[g as int].initializer is None,
    ensures
        initializer_fact(m, g + 1, h) <==> initializer_fact(m, g as int, h),
{
    if initializer_fact(m, g + 1, h) {
        let (j, x) = choose|j: usize, x: Alloc|
            #![trigger m.globals@[j as int], constant_points_to(m, m.globals@[j as int].initializer->0, x)]
            j < g + 1 && m.globals@[j as int].initializer is Some && constant_points_to(
                m,
                m.globals@[j as int].initializer->0,
                x,
            ) && h == (FactView::AllocPointsTo { from: global_alloc(m, j), to: x });
        assert(j < g);
        assert(initializer_fact(m, g as int, h));
    }
    if initializer_fact(m, g as int, h) {
        let (j, x) = choose|j: usize, x: Alloc|
            #![trigger m.globals@[j as int], constant_points_to(m, m.globals@[j as int].initializer->0, x)]
            j < g && m.globals@[j as int].initializer is Some && constant_points_to(
                m,
                m.globals@[j as int].initializer->0,
                x,
            ) && h == (FactView::AllocPointsTo { from: global_alloc(m, j), to: x });
        assert(j < g + 1 && m.globals@[j as int].initializer is Some && constant_points_to(
            m,
            m.globals@[j as int].initializer->0,
            x,
        ));
    }
}

fn apply_initializer(m: &Module, c: &Setup, out: &mut Vec<Fact>)
    ensures
        forall|h: FactView|
            #![trigger holds(final(out)@, h)]
            holds(final(out)@, h) <==> holds(old(out)@, h) || initial_initializer(*m, *c, h),
{
    let mut g: usize = 0;
    while g < m.globals.len()
        invariant
            g <= m.globals.len(),
            forall|h: FactView|
                #![trigger holds(out@, h)]
                holds(out@, h) <==> holds(old(out)@, h) || initializer_fact(*m, g as int, h),
        decreases m.globals.len() - g,
    {
        let ghost before = out@;
        match &m.globals[g].initializer {
            Some(init) => {
                let allocs = constant_allocs(m, init);
                emit_alloc_points_to(global_alloc_of(m, g), &allocs, out);
                proof {
                    assert forall|h: FactView| #![trigger holds(out@, h)]
                        holds(out@, h) <==> holds(old(out)@, h) || initializer_fact(
                            *m,
                            g + 1,
                            h,
                        ) by {
                        lemma_initializer_step(*m, g, allocs@, h);
                        assert(holds(before, h) <==> holds(old(out)@, h) || initializer_fact(
                            *m,
                            g as int,
                            h,
                        ));
                    }
                }
            },
            None => {
                proof {
                    assert forall|h: FactView| #![trigger holds(out@, h)]
                        holds(out@, h) <==> holds(old(out)@, h) || initializer_fact(
                            *m,
                            g + 1,
                            h,
                        ) by {
                        lemma_initializer_skip(*m, g, h);
                        assert(holds(before, h) <==> holds(old(out)@, h) || initializer_fact(
                            *m,
                            g as int,
                            h,
                        ));
                    }
                }
            },
        }
        g += 1;
    }
    proof {
        assert forall|h: FactView| #![trigger holds(out@, h)]
            holds(out@, h) <==> holds(old(out)@, h) || initial_initializer(*m, *c, h) by {
            assert(initializer_fact(*m, m.globals.len() as int, h) <==> initial_initializer(
                *m,
                *c,
                h,
            ));
        }
    }
}

/// Adds the facts that hold without a premise.
pub fn derive_initial(m: &Module, c: &Setup, out: &mut Vec<Fact>)
    ensures
        forall|h: FactView|
            #![trigger holds(final(out)@, h)]
            holds(final(out)@, h) <==> holds(old(out)@, h) || initial(*m, *c, h),
{
    apply_main(m, c, out);
    apply_argv(m, c, out);
    apply_fixed(m, c, out);
    apply_implicit(m, c, out);
    apply_initializer(m, c, out);
}

} // verus!
