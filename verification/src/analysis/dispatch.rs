//! The rule functions of the analysis that is run.

use crate::analysis::binary::derive_binary;
use crate::analysis::binary_at::derive_binary_at;
use crate::analysis::facts::{holds, Fact, FactView};
use crate::analysis::initial::derive_initial;
use crate::analysis::rules::{alone, alone_at, both, both_at, start, Setup};
use crate::analysis::unary::derive_unary;
use crate::analysis::unary_at::derive_unary_at;
use crate::analysis::values_derive::{
    derive_binary_values, derive_binary_values_at, derive_initial_values, derive_unary_values,
    derive_unary_values_at,
};
use crate::llvm::name::InstructionName;
use crate::llvm::Module;
use vstd::prelude::*;

verus! {

/// Adds the facts that the analysis starts from.
pub fn derive_start(m: &Module, c: &Setup, out: &mut Vec<Fact>)
    ensures
        forall|h: FactView|
            #![trigger holds(final(out)@, h)]
            holds(final(out)@, h) <==> holds(old(out)@, h) || start(*m, *c, h),
{
    if c.callgraph.is_some() {
        derive_initial_values(m, c, out);
    } else {
        derive_initial(m, c, out);
    }
}

/// Adds what follows from `a` without a look at a site.
pub fn derive_alone(m: &Module, c: &Setup, a: &Fact, out: &mut Vec<Fact>)
    ensures
        forall|h: FactView|
            #![trigger holds(final(out)@, h)]
            holds(final(out)@, h) <==> holds(old(out)@, h) || alone(*m, *c, a@, h),
{
    if c.callgraph.is_some() {
        derive_unary_values(m, c, a, out);
    } else {
        derive_unary(m, c, a, out);
    }
}

/// Adds what follows from `a` at the site `s`.
pub fn derive_alone_at(m: &Module, c: &Setup, s: InstructionName, a: &Fact, out: &mut Vec<Fact>)
    requires
        m.is_site(s),
    ensures
        forall|h: FactView|
            #![trigger holds(final(out)@, h)]
            holds(final(out)@, h) <==> holds(old(out)@, h) || alone_at(*m, *c, s, a@, h),
{
    if c.callgraph.is_some() {
        derive_unary_values_at(m, c, s, a, out);
    } else {
        derive_unary_at(m, c, s, a, out);
    }
}

/// Adds what follows from `a` and `b` without a look at a site.
pub fn derive_both(m: &Module, c: &Setup, a: &Fact, b: &Fact, out: &mut Vec<Fact>)
    ensures
        forall|h: FactView|
            #![trigger holds(final(out)@, h)]
            holds(final(out)@, h) <==> holds(old(out)@, h) || both(*m, *c, a@, b@, h),
{
    if c.callgraph.is_some() {
        derive_binary_values(m, c, a, b, out);
    } else {
        derive_binary(m, c, a, b, out);
    }
}

/// Adds what follows from `a` and `b` at the site `s`.
pub fn derive_both_at(
    m: &Module,
    c: &Setup,
    s: InstructionName,
    a: &Fact,
    b: &Fact,
    out: &mut Vec<Fact>,
)
    requires
        m.is_site(s),
    ensures
        forall|h: FactView|
            #![trigger holds(final(out)@, h)]
            holds(final(out)@, h) <==> holds(old(out)@, h) || both_at(*m, *c, s, a@, b@, h),
{
    if c.callgraph.is_some() {
        derive_binary_values_at(m, c, s, a, b, out);
    } else {
        derive_binary_at(m, c, s, a, b, out);
    }
}

} // verus!
