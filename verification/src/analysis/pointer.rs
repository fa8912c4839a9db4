//! Pointer analysis.
//!
//! Sources of imprecision that the analysis counts rather than rejects:
//! loads and stores through what cannot be read or written, calls of what
//! is no function, and everything that `Top` absorbs.

use crate::allocation::{Alloc, Allocations};
use crate::analysis::canonical::{classes, describes_classes};
use crate::analysis::checks::{check, fails, AssertionFailure, FailureKind};
use crate::analysis::engine::saturate;
use crate::analysis::facts::Context;
use crate::analysis::output::{
    call_row, collect_calls, collect_edges, collect_functions, collect_points_to, count,
    edge_row, function_row, has_call, has_edge, has_points_to, is_count, points_to_row, Counted,
    Listed,
};
use crate::analysis::rows::{
    call_rows_once, calls_once, edges_once, functions_once, points_to_once, points_to_rows_once,
};
use crate::analysis::rules::Setup;
use crate::llvm::name::{FunctionId, InstructionName};
use crate::llvm::operand::Operand;
use crate::llvm::Module;
use crate::signatures::Signatures;
use vstd::prelude::*;

verus! {

/// Metrics about the precision of the points-to analysis. Lower is better.
#[derive(Clone, Copy, Debug, PartialEq, Eq, Structural)]
pub struct Metrics {
    /// Number of callgraph edges, from a call or invoke to a possible
    /// callee.
    pub callgraph_size: usize,
    /// Allocations that cannot be freed and are passed to `free`.
    pub free_non_heap: usize,
    /// Callee operands that may denote something that is no function.
    pub invalid_calls: usize,
    /// Addresses of loads that may denote something that cannot be read.
    pub invalid_loads: usize,
    /// Destinations of copies that may denote something that cannot be
    /// written.
    pub invalid_memcpy_dsts: usize,
    /// Sources of copies that may denote something that cannot be read.
    pub invalid_memcpy_srcs: usize,
    /// Addresses of stores that may denote something that cannot be
    /// written.
    pub invalid_stores: usize,
    /// Operands that may denote `Top`.
    pub points_to_top: usize,
}

/// The choices of a pointer analysis.
#[derive(Clone, Copy, Debug, PartialEq, Eq, Structural)]
pub struct Options {
    pub check_assertions: bool,
    pub check_strict: bool,
    pub contexts: u8,
    pub debug: bool,
    pub metrics: bool,
    pub unification: bool,
}

/// The result of a pointer analysis. The relations are lists in no
/// particular order; no list holds a row twice.
#[derive(Debug)]
pub struct OutputRelations {
    pub alloc_points_to: Vec<(Alloc, Alloc)>,
    pub operand_points_to: Vec<(Context, Operand, Alloc)>,
    pub reachable: Vec<FunctionId>,
    pub calls: Vec<(Context, InstructionName, FunctionId)>,
    pub needs_signature: Vec<FunctionId>,
    pub metrics: Option<Metrics>,
    /// The allocations that are unified with another, with their classes.
    pub unified: Allocations,
}

impl Metrics {
    /// Whether these are the numbers of the derivable facts of each kind.
    pub open spec fn describes(self, m: Module, c: Setup) -> bool {
        &&& is_count(m, c, Counted::Callgraph, self.callgraph_size as nat)
        &&& is_count(m, c, Counted::FreeNonHeap, self.free_non_heap as nat)
        &&& is_count(m, c, Counted::InvalidCall, self.invalid_calls as nat)
        &&& is_count(m, c, Counted::InvalidLoad, self.invalid_loads as nat)
        &&& is_count(m, c, Counted::InvalidMemcpyDst, self.invalid_memcpy_dsts as nat)
        &&& is_count(m, c, Counted::InvalidMemcpySrc, self.invalid_memcpy_srcs as nat)
        &&& is_count(m, c, Counted::InvalidStore, self.invalid_stores as nat)
        &&& is_count(m, c, Counted::PointsToTop, self.points_to_top as nat)
    }
}

impl OutputRelations {
    /// Whether these are the relations of the least fixed point of the
    /// rules: each list holds exactly the rows that the derivable facts
    /// give, each once, allocations replaced by the representatives of
    /// their classes, and every context is one under the limit of the
    /// analysis.
    pub open spec fn describes(self, m: Module, c: Setup) -> bool {
        &&& forall|x: Alloc, y: Alloc|
            #![trigger has_edge(self.alloc_points_to@, x, y)]
            has_edge(self.alloc_points_to@, x, y) <==> edge_row(m, c, x, y)
        &&& forall|ctx: Seq<InstructionName>, op: Operand, r: Alloc|
            #![trigger has_points_to(self.operand_points_to@, ctx, op, r)]
            has_points_to(self.operand_points_to@, ctx, op, r) <==> points_to_row(m, c, ctx, op, r)
        &&& forall|k: int|
            0 <= k < self.operand_points_to@.len() ==> (#[trigger] self.operand_points_to@[k]).0.k
                == c.contexts
        &&& forall|k: int|
            0 <= k < self.calls@.len() ==> (#[trigger] self.calls@[k]).0.k == c.contexts
        &&& self.alloc_points_to@.no_duplicates()
        &&& points_to_once(self.operand_points_to@)
        &&& self.reachable@.no_duplicates()
        &&& calls_once(self.calls@)
        &&& self.needs_signature@.no_duplicates()
        &&& forall|f: FunctionId|
            #![trigger self.reachable@.contains(f)]
            self.reachable@.contains(f) <==> function_row(m, c, Listed::Reachable, f)
        &&& forall|ctx: Seq<InstructionName>, s: InstructionName, f: FunctionId|
            #![trigger has_call(self.calls@, ctx, s, f)]
            has_call(self.calls@, ctx, s, f) <==> call_row(m, c, ctx, s, f)
        &&& forall|f: FunctionId|
            #![trigger self.needs_signature@.contains(f)]
            self.needs_signature@.contains(f) <==> function_row(m, c, Listed::NeedsSignature, f)
        &&& match self.metrics {
            Some(x) => c.metrics && x.describes(m, c),
            None => !c.metrics,
        }
        &&& describes_classes(m, c, self.unified)
    }
}

/// Whether `r` is the outcome of the analysis of `m` with `c`: the failure
/// of an assertion, where assertions are checked and one fails, and else
/// the relations of the least fixed point.
pub open spec fn is_outcome(
    m: Module,
    c: Setup,
    check_assertions: bool,
    check_strict: bool,
    r: Result<OutputRelations, AssertionFailure>,
) -> bool {
    match r {
        Ok(out) => out.describes(m, c) && (check_assertions ==> forall|
            kind: FailureKind,
            ctx: Seq<InstructionName>,
            s: InstructionName,
        | !fails(m, c, check_strict, kind, ctx, s)),
        Err(v) => check_assertions && fails(m, c, check_strict, v.kind, v.ctx@, v.site),
    }
}

/// Evaluates the rules on the module to their least fixed point and hands
/// out its relations, or the assertion that fails of it.
pub fn solve(module: &Module, setup: &Setup, check_assertions: bool, check_strict: bool) -> (r:
    Result<OutputRelations, AssertionFailure>)
    ensures
        is_outcome(*module, *setup, check_assertions, check_strict, r),
{
    let state = saturate(module, setup);
    if check_assertions {
        let sites = module.sites();
        if let Some(v) = check(module, check_strict, &state, &sites, Ghost(*setup)) {
            return Err(v);
        }
    }
    let metrics = if setup.metrics {
        Some(
            Metrics {
                callgraph_size: count(
                    &state,
                    Counted::Callgraph,
                    Ghost(*module),
                    Ghost(*setup),
                ),
                free_non_heap: count(
                    &state,
                    Counted::FreeNonHeap,
                    Ghost(*module),
                    Ghost(*setup),
                ),
                invalid_calls: count(
                    &state,
                    Counted::InvalidCall,
                    Ghost(*module),
                    Ghost(*setup),
                ),
                invalid_loads: count(
                    &state,
                    Counted::InvalidLoad,
                    Ghost(*module),
                    Ghost(*setup),
                ),
                invalid_memcpy_dsts: count(
                    &state,
                    Counted::InvalidMemcpyDst,
                    Ghost(*module),
                    Ghost(*setup),
                ),
                invalid_memcpy_srcs: count(
                    &state,
                    Counted::InvalidMemcpySrc,
                    Ghost(*module),
                    Ghost(*setup),
                ),
                invalid_stores: count(
                    &state,
                    Counted::InvalidStore,
                    Ghost(*module),
                    Ghost(*setup),
                ),
                points_to_top: count(
                    &state,
                    Counted::PointsToTop,
                    Ghost(*module),
                    Ghost(*setup),
                ),
            },
        )
    } else {
        None
    };
    let mut unified = classes(&state, Ghost(*module), Ghost(*setup));
    let edges = collect_edges(&state, &mut unified, Ghost(*module), Ghost(*setup));
    let points_to = collect_points_to(
        &state,
        &mut unified,
        setup.contexts,
        Ghost(*module),
        Ghost(*setup),
    );
    let reachable = collect_functions(&state, Listed::Reachable, Ghost(*module), Ghost(*setup));
    let calls = collect_calls(&state, setup.contexts, Ghost(*module), Ghost(*setup));
    let needs = collect_functions(&state, Listed::NeedsSignature, Ghost(*module), Ghost(*setup));
    let out = OutputRelations {
        alloc_points_to: edges_once(&edges),
        operand_points_to: points_to_rows_once(&points_to, setup.contexts),
        reachable: functions_once(&reachable),
        calls: call_rows_once(&calls, setup.contexts),
        needs_signature: functions_once(&needs),
        metrics,
        unified,
    };
    proof {
        assert forall|x: Alloc, y: Alloc| #![trigger has_edge(out.alloc_points_to@, x, y)]
            has_edge(out.alloc_points_to@, x, y) <==> edge_row(*module, *setup, x, y) by {
            assert(out.alloc_points_to@.contains((x, y)) <==> edges@.contains((x, y)));
            assert(has_edge(edges@, x, y) <==> edge_row(*module, *setup, x, y));
        }
    }
    Ok(out)
}

/// Pointer analysis of a module under the given signatures: the relations
/// of the least fixed point of the rules, or the assertion that fails of it.
/// Strict assertions are checked only where assertions are checked at all.
pub fn analysis(module: &Module, signatures: &Signatures, opts: &Options) -> (r: Result<
    OutputRelations,
    AssertionFailure,
>)
    ensures
        exists|setup: Setup|
            #![trigger is_outcome(*module, setup, opts.check_assertions, opts.check_strict, r)]
            setup.describes(
                *module,
                *signatures,
                opts.contexts as usize,
                opts.unification,
                opts.metrics,
            ) && is_outcome(*module, setup, opts.check_assertions, opts.check_strict, r),
{
    let setup = Setup::new(
        module,
        signatures,
        opts.contexts as usize,
        opts.unification,
        opts.metrics,
    );
    let r = solve(module, &setup, opts.check_assertions, opts.check_strict);
    assert(is_outcome(*module, setup, opts.check_assertions, opts.check_strict, r));
    r
}

} // verus!
