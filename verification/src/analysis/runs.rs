//! Two runs of the points-to analysis on the same inputs.
//!
//! What a run is made with is built anew for each run. Two such setups
//! need not be equal as values, but the rules cannot tell them apart, and
//! so two runs derive the same facts and hand out the same rows.

use crate::allocation::Alloc;
use crate::analysis::canonical::{in_class, is_representative};
use crate::analysis::facts::FactView;
use crate::analysis::laws::lemma_count_unique;
use crate::analysis::output::{
    call_row, counts_as, edge_row, function_row, has_call, has_edge, has_points_to, is_count,
    points_to_row, Counted, Listed,
};
use crate::analysis::pointer::{Metrics, OutputRelations};
use crate::analysis::rules::{
    alone, alone_at, both, both_at, derivable, derivable_in, effect_fact, effects, initial,
    lacks_signature, named_alloc, rule_return_aliases, rule_signature, start, step, unary, Setup,
};
use crate::analysis::setup::{names_of, with_effect_names, with_signature_names};
use crate::llvm::name::{FunctionId, InstructionName};
use crate::llvm::operand::Operand;
use crate::llvm::Module;
use crate::signatures::{
    effects_at, entry_patterns, lists_matches, same_effects, Signature, Signatures,
};
use vstd::prelude::*;

verus! {

/// Whether two lists hold the same effects at every declaration.
pub open spec fn same_signatures(
    s1: Seq<Option<Vec<Signature>>>,
    s2: Seq<Option<Vec<Signature>>>,
) -> bool {
    &&& s1.len() == s2.len()
    &&& forall|d: int|
        0 <= d < s1.len() ==> match (#[trigger] s1[d], s2[d]) {
            (Some(v), Some(w)) => same_effects(v@, w@),
            (None, None) => true,
            _ => false,
        }
}

/// Whether the rules of the points-to analysis cannot tell the two setups
/// apart: they hold the same effects and the same names, as text, and the
/// same choices.
pub open spec fn same_setup(c1: Setup, c2: Setup) -> bool {
    &&& same_signatures(c1.signatures@, c2.signatures@)
    &&& names_of(c1.extra_globals@) == names_of(c2.extra_globals@)
    &&& c1.contexts == c2.contexts
    &&& c1.unification == c2.unification
    &&& c1.metrics == c2.metrics
    &&& c1.callgraph is None
    &&& c2.callgraph is None
}

proof fn lemma_same_named(m: Module, c1: Setup, c2: Setup, name: Seq<char>, a: Alloc)
    requires
        same_setup(c1, c2),
        named_alloc(m, c1, name, a),
    ensures
        named_alloc(m, c2, name, a),
{
    if exists|g: usize|
        g < m.globals.len() && (#[trigger] m.globals@[g as int]).name@ == name && a
            == crate::analysis::rules::global_alloc(m, g) {
    } else {
        let j = choose|j: usize|
            j < c1.extra_globals.len() && (#[trigger] c1.extra_globals@[j as int])@ == name && a
                == crate::analysis::rules::extra_alloc(j);
        assert(names_of(c1.extra_globals@)[j as int] == name);
        assert(names_of(c2.extra_globals@)[j as int] == name);
        assert(names_of(c2.extra_globals@).len() == c2.extra_globals@.len());
        assert(c2.extra_globals@[j as int]@ == name);
    }
}

proof fn lemma_same_effect(
    m: Module,
    c1: Setup,
    c2: Setup,
    ctx: Seq<InstructionName>,
    site: InstructionName,
    e1: Signature,
    e2: Signature,
    h: FactView,
)
    requires
        same_setup(c1, c2),
        e1.same(e2),
        effect_fact(m, c1, ctx, site, e1, h),
    ensures
        effect_fact(m, c2, ctx, site, e2, h),
{
    if let Signature::ReturnPointsToGlobal { global } = e1 {
        let x = choose|x: Alloc|
            #![trigger named_alloc(m, c1, global@, x)]
            named_alloc(m, c1, global@, x) && h == (FactView::OperandPointsTo {
                ctx,
                operand: Operand::of_instruction(site),
                alloc: x,
            });
        lemma_same_named(m, c1, c2, global@, x);
        assert(named_alloc(m, c2, e2->ReturnPointsToGlobal_global@, x));
    }
}

proof fn lemma_same_effects(m: Module, c1: Setup, c2: Setup, f: FunctionId)
    requires
        same_setup(c1, c2),
    ensures
        effects(m, c1, f) is Some <==> effects(m, c2, f) is Some,
        effects(m, c1, f) is Some ==> same_effects(effects(m, c1, f)->0, effects(m, c2, f)->0),
        lacks_signature(m, c1, f) <==> lacks_signature(m, c2, f),
{
    if m.is_declaration(f) && f - m.functions.len() < c1.signatures.len() {
        let d = f - m.functions.len();
        assert(match (c1.signatures@[d], c2.signatures@[d]) {
            (Some(v), Some(w)) => same_effects(v@, w@),
            (None, None) => true,
            _ => false,
        });
    }
}

proof fn lemma_same_step(m: Module, c1: Setup, c2: Setup, a: FactView, b: FactView, h: FactView)
    requires
        same_setup(c1, c2),
        step(m, c1, a, b, h),
    ensures
        step(m, c2, a, b, h),
{
    if a is Calls {
        lemma_same_effects(m, c1, c2, a->Calls_callee);
    }
    if alone(m, c1, a, h) {
        if rule_signature(m, c1, a, h) {
            let callee = a->Calls_callee;
            let j = choose|j: int|
                0 <= j < effects(m, c1, callee)->0.len() && effect_fact(
                    m,
                    c1,
                    a->Calls_ctx,
                    a->Calls_site,
                    #[trigger] effects(m, c1, callee)->0[j],
                    h,
                );
            let e1 = effects(m, c1, callee)->0[j];
            let e2 = effects(m, c2, callee)->0[j];
            assert(e1.same(e2));
            lemma_same_effect(m, c1, c2, a->Calls_ctx, a->Calls_site, e1, e2, h);
            assert(rule_signature(m, c2, a, h));
        }
        assert(unary(m, c2, a, h));
    } else if both(m, c1, a, b, h) {
        if rule_return_aliases(m, c1, a, b, h) {
            let callee = a->Calls_callee;
            let site = a->Calls_site;
            let operand = b->OperandPointsTo_operand;
            let j = choose|j: int|
                0 <= j < effects(m, c1, callee)->0.len() && (#[trigger] effects(
                    m,
                    c1,
                    callee,
                )->0[j]) is ReturnAliasesArg && effects(m, c1, callee)->0[j]->ReturnAliasesArg_arg
                    < m.args(site).len() && m.args(site)[effects(
                    m,
                    c1,
                    callee,
                )->0[j]->ReturnAliasesArg_arg as int] == operand;
            let e1 = effects(m, c1, callee)->0[j];
            let e2 = effects(m, c2, callee)->0[j];
            assert(e1.same(e2));
            assert(rule_return_aliases(m, c2, a, b, h));
        }
        assert(crate::analysis::rules::binary(m, c2, a, b, h));
    } else if exists|s: InstructionName| m.is_site(s) && #[trigger] alone_at(m, c1, s, a, h) {
        let s = choose|s: InstructionName| m.is_site(s) && #[trigger] alone_at(m, c1, s, a, h);
        assert(alone_at(m, c1, s, a, h));
        assert(alone_at(m, c2, s, a, h));
    } else {
        let s = choose|s: InstructionName| m.is_site(s) && #[trigger] both_at(m, c1, s, a, b, h);
        assert(both_at(m, c1, s, a, b, h));
        assert(both_at(m, c2, s, a, b, h));
    }
}

proof fn lemma_same_start(m: Module, c1: Setup, c2: Setup, h: FactView)
    requires
        same_setup(c1, c2),
        start(m, c1, h),
    ensures
        start(m, c2, h),
{
    assert(initial(m, c1, h));
    assert(initial(m, c2, h));
}

proof fn lemma_same_derivable_in(m: Module, c1: Setup, c2: Setup, n: nat, h: FactView)
    requires
        same_setup(c1, c2),
        derivable_in(m, c1, n, h),
    ensures
        derivable_in(m, c2, n, h),
    decreases n,
{
    if n == 0 {
        lemma_same_start(m, c1, c2, h);
    } else if derivable_in(m, c1, (n - 1) as nat, h) {
        lemma_same_derivable_in(m, c1, c2, (n - 1) as nat, h);
    } else {
        let (a, b) = choose|a: FactView, b: FactView|
            derivable_in(m, c1, (n - 1) as nat, a) && derivable_in(m, c1, (n - 1) as nat, b)
                && #[trigger] step(m, c1, a, b, h);
        lemma_same_derivable_in(m, c1, c2, (n - 1) as nat, a);
        lemma_same_derivable_in(m, c1, c2, (n - 1) as nat, b);
        lemma_same_step(m, c1, c2, a, b, h);
    }
}

proof fn lemma_same_setup_symmetric(c1: Setup, c2: Setup)
    requires
        same_setup(c1, c2),
    ensures
        same_setup(c2, c1),
{
    assert forall|d: int| 0 <= d < c2.signatures@.len() implies match (
        #[trigger] c2.signatures@[d],
        c1.signatures@[d],
    ) {
        (Some(v), Some(w)) => same_effects(v@, w@),
        (None, None) => true,
        _ => false,
    } by {
        assert(match (c1.signatures@[d], c2.signatures@[d]) {
            (Some(v), Some(w)) => same_effects(v@, w@),
            (None, None) => true,
            _ => false,
        });
        if let (Some(v), Some(w)) = (c1.signatures@[d], c2.signatures@[d]) {
            assert forall|i: int| 0 <= i < w@.len() implies (#[trigger] w@[i]).same(v@[i]) by {
                assert(v@[i].same(w@[i]));
            }
        }
    }
}

/// Setups that the rules cannot tell apart derive the same facts.
pub proof fn law_same_setup_same_facts(m: Module, c1: Setup, c2: Setup, h: FactView)
    requires
        same_setup(c1, c2),
    ensures
        derivable(m, c1, h) <==> derivable(m, c2, h),
{
    lemma_same_setup_symmetric(c1, c2);
    if derivable(m, c1, h) {
        let n = choose|n: nat| derivable_in(m, c1, n, h);
        lemma_same_derivable_in(m, c1, c2, n, h);
    }
    if derivable(m, c2, h) {
        let n = choose|n: nat| derivable_in(m, c2, n, h);
        lemma_same_derivable_in(m, c2, c1, n, h);
    }
}

// ----------------------------------------------------------------------
// Setups of the same inputs
/// Two ascending lists that hold the same numbers are one list.
proof fn lemma_ascending_unique(a: Seq<usize>, b: Seq<usize>)
    requires
        forall|i: int, j: int| 0 <= i < j < a.len() ==> a[i] < a[j],
        forall|i: int, j: int| 0 <= i < j < b.len() ==> b[i] < b[j],
        forall|x: usize| a.contains(x) <==> b.contains(x),
    ensures
        a == b,
    decreases a.len(),
{
    if a.len() == 0 {
        if b.len() > 0 {
            assert(b.contains(b[0]));
            assert(a.contains(b[0]));
        }
        assert(a =~= b);
    } else {
        assert(a.contains(a.last()));
        assert(b.contains(a.last()));
        assert(b.len() > 0);
        assert(b.contains(b.last()));
        assert(a.contains(b.last()));
        let i = choose|i: int| 0 <= i < a.len() && a[i] == b.last();
        let j = choose|j: int| 0 <= j < b.len() && b[j] == a.last();
        assert(a.last() == b.last());
        let a1 = a.drop_last();
        let b1 = b.drop_last();
        assert forall|x: usize| a1.contains(x) <==> b1.contains(x) by {
            if a1.contains(x) {
                let p = choose|p: int| 0 <= p < a1.len() && a1[p] == x;
                assert(a[p] == x);
                assert(a.contains(x));
                let q = choose|q: int| 0 <= q < b.len() && b[q] == x;
                assert(x < a.last());
                assert(q < b.len() - 1);
                assert(b1[q] == x);
            }
            if b1.contains(x) {
                let q = choose|q: int| 0 <= q < b1.len() && b1[q] == x;
                assert(b[q] == x);
                assert(b.contains(x));
                let p = choose|p: int| 0 <= p < a.len() && a[p] == x;
                assert(x < b.last());
                assert(p < a.len() - 1);
                assert(a1[p] == x);
            }
        }
        lemma_ascending_unique(a1, b1);
        assert(a =~= a1.push(a.last()));
        assert(b =~= b1.push(b.last()));
    }
}

/// What the signatures say of a name, they say in one way: two lists of
/// effects that both describe it hold the same effects.
pub proof fn lemma_described_once(
    s: Signatures,
    name: Seq<char>,
    r1: Option<Vec<Signature>>,
    r2: Option<Vec<Signature>>,
)
    requires
        s.describes(name, r1),
        s.describes(name, r2),
    ensures
        match (r1, r2) {
            (Some(v), Some(w)) => same_effects(v@, w@),
            (None, None) => true,
            _ => false,
        },
{
    let ps = entry_patterns(s.entries_spec());
    let i1 = choose|idx: Seq<usize>|
        #![trigger lists_matches(ps, name, idx)]
        lists_matches(ps, name, idx) && match r1 {
            None => idx.len() == 0,
            Some(v) => idx.len() > 0 && same_effects(v@, effects_at(s.entries_spec(), idx)),
        };
    let i2 = choose|idx: Seq<usize>|
        #![trigger lists_matches(ps, name, idx)]
        lists_matches(ps, name, idx) && match r2 {
            None => idx.len() == 0,
            Some(v) => idx.len() > 0 && same_effects(v@, effects_at(s.entries_spec(), idx)),
        };
    assert forall|x: usize| i1.contains(x) <==> i2.contains(x) by {
        if i1.contains(x) {
            let p = choose|p: int| 0 <= p < i1.len() && i1[p] == x;
            assert(x < ps.len());
        }
        if i2.contains(x) {
            let p = choose|p: int| 0 <= p < i2.len() && i2[p] == x;
            assert(x < ps.len());
        }
    }
    lemma_ascending_unique(i1, i2);
    if let (Some(v), Some(w)) = (r1, r2) {
        let e = effects_at(s.entries_spec(), i1);
        assert forall|i: int| 0 <= i < v@.len() implies (#[trigger] v@[i]).same(w@[i]) by {
            assert(v@[i].same(e[i]));
            assert(w@[i].same(e[i]));
        }
    }
}

proof fn lemma_same_effect_names(names: Seq<Seq<char>>, e1: Seq<Signature>, e2: Seq<Signature>)
    requires
        same_effects(e1, e2),
    ensures
        with_effect_names(names, e1) == with_effect_names(names, e2),
    decreases e1.len(),
{
    if e1.len() > 0 {
        assert(e1.last().same(e2.last()));
        assert forall|i: int| 0 <= i < e1.drop_last().len() implies (#[trigger] e1.drop_last()[i]).same(
            e2.drop_last()[i],
        ) by {
            assert(e1[i].same(e2[i]));
        }
        lemma_same_effect_names(names, e1.drop_last(), e2.drop_last());
    }
}

proof fn lemma_same_signature_names(
    names: Seq<Seq<char>>,
    s1: Seq<Option<Vec<Signature>>>,
    s2: Seq<Option<Vec<Signature>>>,
)
    requires
        same_signatures(s1, s2),
    ensures
        with_signature_names(names, s1) == with_signature_names(names, s2),
    decreases s1.len(),
{
    if s1.len() > 0 {
        let n = s1.len() - 1;
        assert(match (s1[n], s2[n]) {
            (Some(v), Some(w)) => same_effects(v@, w@),
            (None, None) => true,
            _ => false,
        });
        assert forall|d: int| 0 <= d < s1.drop_last().len() implies match (
            #[trigger] s1.drop_last()[d],
            s2.drop_last()[d],
        ) {
            (Some(v), Some(w)) => same_effects(v@, w@),
            (None, None) => true,
            _ => false,
        } by {
            assert(match (s1[d], s2[d]) {
                (Some(v), Some(w)) => same_effects(v@, w@),
                (None, None) => true,
                _ => false,
            });
        }
        lemma_same_signature_names(names, s1.drop_last(), s2.drop_last());
        if let (Some(v), Some(w)) = (s1[n], s2[n]) {
            lemma_same_effect_names(with_signature_names(names, s1.drop_last()), v@, w@);
        }
    }
}

/// The setups of two runs on the same inputs are the same to the rules.
pub proof fn law_one_setup(
    m: Module,
    signatures: Signatures,
    contexts: usize,
    unification: bool,
    metrics: bool,
    c1: Setup,
    c2: Setup,
)
    requires
        c1.describes(m, signatures, contexts, unification, metrics),
        c2.describes(m, signatures, contexts, unification, metrics),
    ensures
        same_setup(c1, c2),
{
    assert forall|d: int| 0 <= d < c1.signatures@.len() implies match (
        #[trigger] c1.signatures@[d],
        c2.signatures@[d],
    ) {
        (Some(v), Some(w)) => same_effects(v@, w@),
        (None, None) => true,
        _ => false,
    } by {
        lemma_described_once(signatures, m.decls@[d].name@, c1.signatures@[d], c2.signatures@[d]);
    }
    lemma_same_signature_names(
        crate::analysis::setup::fixed_names(),
        c1.signatures@,
        c2.signatures@,
    );
}

// ----------------------------------------------------------------------
// The relations of two runs
proof fn lemma_same_representative(m: Module, c1: Setup, c2: Setup, a: Alloc, r: Alloc)
    requires
        same_setup(c1, c2),
        is_representative(m, c1, a, r),
    ensures
        is_representative(m, c2, a, r),
{
    law_same_setup_same_facts(m, c1, c2, FactView::Unified { a, b: r });
    assert forall|b: Alloc| #[trigger] in_class(m, c2, a, b) implies !b.precedes(r) by {
        law_same_setup_same_facts(m, c1, c2, FactView::Unified { a, b });
        assert(in_class(m, c1, a, b));
    }
}

proof fn lemma_same_rows(m: Module, c1: Setup, c2: Setup)
    requires
        same_setup(c1, c2),
    ensures
        forall|x: Alloc, y: Alloc| edge_row(m, c1, x, y) ==> edge_row(m, c2, x, y),
        forall|ctx: Seq<InstructionName>, op: Operand, r: Alloc|
            points_to_row(m, c1, ctx, op, r) ==> points_to_row(m, c2, ctx, op, r),
        forall|which: Listed, f: FunctionId|
            function_row(m, c1, which, f) ==> function_row(m, c2, which, f),
        forall|ctx: Seq<InstructionName>, s: InstructionName, f: FunctionId|
            call_row(m, c1, ctx, s, f) ==> call_row(m, c2, ctx, s, f),
        forall|k: Counted, n: nat| is_count(m, c1, k, n) ==> is_count(m, c2, k, n),
{
    lemma_same_setup_symmetric(c1, c2);
    assert forall|x: Alloc, y: Alloc| edge_row(m, c1, x, y) implies edge_row(m, c2, x, y) by {
        let (a, b) = choose|a: Alloc, b: Alloc|
            #![trigger is_representative(m, c1, a, x), is_representative(m, c1, b, y)]
            derivable(m, c1, FactView::AllocPointsTo { from: a, to: b }) && is_representative(
                m,
                c1,
                a,
                x,
            ) && is_representative(m, c1, b, y);
        law_same_setup_same_facts(m, c1, c2, FactView::AllocPointsTo { from: a, to: b });
        lemma_same_representative(m, c1, c2, a, x);
        lemma_same_representative(m, c1, c2, b, y);
    }
    assert forall|ctx: Seq<InstructionName>, op: Operand, r: Alloc|
        points_to_row(m, c1, ctx, op, r) implies points_to_row(m, c2, ctx, op, r) by {
        let a = choose|a: Alloc|
            #![trigger is_representative(m, c1, a, r)]
            derivable(m, c1, FactView::OperandPointsTo { ctx, operand: op, alloc: a })
                && is_representative(m, c1, a, r);
        law_same_setup_same_facts(
            m,
            c1,
            c2,
            FactView::OperandPointsTo { ctx, operand: op, alloc: a },
        );
        lemma_same_representative(m, c1, c2, a, r);
    }
    assert forall|which: Listed, f: FunctionId| function_row(m, c1, which, f) implies function_row(
        m,
        c2,
        which,
        f,
    ) by {
        let h = choose|h: FactView|
            #![trigger crate::analysis::output::listed_function(h, which)]
            derivable(m, c1, h) && crate::analysis::output::listed_function(h, which) == Some(f);
        law_same_setup_same_facts(m, c1, c2, h);
    }
    assert forall|ctx: Seq<InstructionName>, s: InstructionName, f: FunctionId|
        call_row(m, c1, ctx, s, f) implies call_row(m, c2, ctx, s, f) by {
        let callee_ctx = choose|callee_ctx: Seq<InstructionName>| #[trigger]
            derivable(m, c1, (FactView::Calls { ctx, site: s, callee: f, callee_ctx }));
        law_same_setup_same_facts(
            m,
            c1,
            c2,
            FactView::Calls { ctx, site: s, callee: f, callee_ctx },
        );
    }
    assert forall|k: Counted, n: nat| is_count(m, c1, k, n) implies is_count(m, c2, k, n) by {
        let w = choose|w: Seq<FactView>|
            #![trigger w.no_duplicates()]
            w.no_duplicates() && w.len() == n && forall|h: FactView|
                #![trigger w.contains(h)]
                w.contains(h) <==> derivable(m, c1, h) && counts_as(h, k);
        assert forall|h: FactView| #![trigger w.contains(h)]
            w.contains(h) <==> derivable(m, c2, h) && counts_as(h, k) by {
            law_same_setup_same_facts(m, c1, c2, h);
        }
    }
}

proof fn lemma_same_metrics(m: Module, c1: Setup, c2: Setup, x: Metrics, y: Metrics)
    requires
        same_setup(c1, c2),
        x.describes(m, c1),
        y.describes(m, c2),
    ensures
        x == y,
{
    lemma_same_rows(m, c1, c2);
    lemma_count_unique(m, c2, Counted::Callgraph, x.callgraph_size as nat, y.callgraph_size as nat);
    lemma_count_unique(m, c2, Counted::FreeNonHeap, x.free_non_heap as nat, y.free_non_heap as nat);
    lemma_count_unique(m, c2, Counted::InvalidCall, x.invalid_calls as nat, y.invalid_calls as nat);
    lemma_count_unique(m, c2, Counted::InvalidLoad, x.invalid_loads as nat, y.invalid_loads as nat);
    lemma_count_unique(
        m,
        c2,
        Counted::InvalidMemcpyDst,
        x.invalid_memcpy_dsts as nat,
        y.invalid_memcpy_dsts as nat,
    );
    lemma_count_unique(
        m,
        c2,
        Counted::InvalidMemcpySrc,
        x.invalid_memcpy_srcs as nat,
        y.invalid_memcpy_srcs as nat,
    );
    lemma_count_unique(
        m,
        c2,
        Counted::InvalidStore,
        x.invalid_stores as nat,
        y.invalid_stores as nat,
    );
    lemma_count_unique(m, c2, Counted::PointsToTop, x.points_to_top as nat, y.points_to_top as nat);
}

/// Two runs of the analysis on one module, with the same signatures and
/// the same choices, hold the same rows and the same metrics.
pub proof fn law_same_inputs_same_relations(
    m: Module,
    signatures: Signatures,
    contexts: usize,
    unification: bool,
    metrics: bool,
    c1: Setup,
    c2: Setup,
    out1: OutputRelations,
    out2: OutputRelations,
)
    requires
        c1.describes(m, signatures, contexts, unification, metrics),
        c2.describes(m, signatures, contexts, unification, metrics),
        out1.describes(m, c1),
        out2.describes(m, c2),
    ensures
        forall|x: Alloc, y: Alloc|
            has_edge(out1.alloc_points_to@, x, y) == has_edge(out2.alloc_points_to@, x, y),
        forall|ctx: Seq<InstructionName>, op: Operand, r: Alloc|
            has_points_to(out1.operand_points_to@, ctx, op, r) == has_points_to(
                out2.operand_points_to@,
                ctx,
                op,
                r,
            ),
        forall|f: FunctionId| out1.reachable@.contains(f) == out2.reachable@.contains(f),
        forall|ctx: Seq<InstructionName>, s: InstructionName, f: FunctionId|
            has_call(out1.calls@, ctx, s, f) == has_call(out2.calls@, ctx, s, f),
        forall|f: FunctionId|
            out1.needs_signature@.contains(f) == out2.needs_signature@.contains(f),
        out1.metrics == out2.metrics,
{
    law_one_setup(m, signatures, contexts, unification, metrics, c1, c2);
    lemma_same_setup_symmetric(c1, c2);
    lemma_same_rows(m, c1, c2);
    lemma_same_rows(m, c2, c1);
    assert forall|x: Alloc, y: Alloc|
        has_edge(out1.alloc_points_to@, x, y) == has_edge(out2.alloc_points_to@, x, y) by {
        assert(has_edge(out1.alloc_points_to@, x, y) <==> edge_row(m, c1, x, y));
        assert(has_edge(out2.alloc_points_to@, x, y) <==> edge_row(m, c2, x, y));
    }
    assert forall|ctx: Seq<InstructionName>, op: Operand, r: Alloc|
        has_points_to(out1.operand_points_to@, ctx, op, r) == has_points_to(
            out2.operand_points_to@,
            ctx,
            op,
            r,
        ) by {
        assert(has_points_to(out1.operand_points_to@, ctx, op, r) <==> points_to_row(
            m,
            c1,
            ctx,
            op,
            r,
        ));
        assert(has_points_to(out2.operand_points_to@, ctx, op, r) <==> points_to_row(
            m,
            c2,
            ctx,
            op,
            r,
        ));
    }
    assert forall|f: FunctionId|
        out1.reachable@.contains(f) == out2.reachable@.contains(f) by {
        assert(out1.reachable@.contains(f) <==> function_row(m, c1, Listed::Reachable, f));
        assert(out2.reachable@.contains(f) <==> function_row(m, c2, Listed::Reachable, f));
    }
    assert forall|ctx: Seq<InstructionName>, s: InstructionName, f: FunctionId|
        has_call(out1.calls@, ctx, s, f) == has_call(out2.calls@, ctx, s, f) by {
        assert(has_call(out1.calls@, ctx, s, f) <==> call_row(m, c1, ctx, s, f));
        assert(has_call(out2.calls@, ctx, s, f) <==> call_row(m, c2, ctx, s, f));
    }
    assert forall|f: FunctionId|
        out1.needs_signature@.contains(f) == out2.needs_signature@.contains(f) by {
        assert(out1.needs_signature@.contains(f) <==> function_row(
            m,
            c1,
            Listed::NeedsSignature,
            f,
        ));
        assert(out2.needs_signature@.contains(f) <==> function_row(
            m,
            c2,
            Listed::NeedsSignature,
            f,
        ));
    }
    match (out1.metrics, out2.metrics) {
        (Some(x), Some(y)) => {
            lemma_same_metrics(m, c1, c2, x, y);
        },
        _ => {},
    }
}

} // verus!
