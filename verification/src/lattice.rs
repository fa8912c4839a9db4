//! The lattice of values of integer variables.

use ascent::lattice::constant_propagation::ConstPropagation;
use vstd::prelude::*;

verus! {

/// An integer of a given width.
#[derive(Clone, Copy, Debug, PartialEq, Eq, Structural, Hash)]
pub struct Int {
    pub bits: u32,
    pub value: u64,
}

/// A point of the flat lattice over [`Int`]: bottom lies below every
/// constant and every constant below top.
#[derive(Clone, Copy, Debug, PartialEq, Eq, Structural, Hash)]
pub enum ConstValue {
    Bottom,
    Constant(Int),
    Top,
}

/// What is known of the value of an integer variable.
#[derive(Clone, Copy, Debug, PartialEq, Eq, Structural, Hash)]
pub struct IntLattice(pub ConstValue);

/// The least upper bound in the flat lattice.
pub open spec fn join_spec(a: ConstValue, b: ConstValue) -> ConstValue {
    match (a, b) {
        (ConstValue::Bottom, o) => o,
        (ConstValue::Constant(x), ConstValue::Bottom) => ConstValue::Constant(x),
        (ConstValue::Constant(x), ConstValue::Constant(y)) => if x == y {
            ConstValue::Constant(x)
        } else {
            ConstValue::Top
        },
        (ConstValue::Constant(_), ConstValue::Top) => ConstValue::Top,
        (ConstValue::Top, _) => ConstValue::Top,
    }
}

/// The greatest lower bound in the flat lattice.
pub open spec fn meet_spec(a: ConstValue, b: ConstValue) -> ConstValue {
    match (a, b) {
        (ConstValue::Bottom, _) => ConstValue::Bottom,
        (ConstValue::Constant(_), ConstValue::Bottom) => ConstValue::Bottom,
        (ConstValue::Constant(x), ConstValue::Constant(y)) => if x == y {
            ConstValue::Constant(x)
        } else {
            ConstValue::Bottom
        },
        (ConstValue::Constant(x), ConstValue::Top) => ConstValue::Constant(x),
        (ConstValue::Top, o) => o,
    }
}

impl IntLattice {
    pub fn bottom() -> (r: Self)
        ensures
            r.0 == ConstValue::Bottom,
    {
        IntLattice(ConstValue::Bottom)
    }

    pub fn constant(i: Int) -> (r: Self)
        ensures
            r.0 == ConstValue::Constant(i),
    {
        IntLattice(ConstValue::Constant(i))
    }

    pub fn top() -> (r: Self)
        ensures
            r.0 == ConstValue::Top,
    {
        IntLattice(ConstValue::Top)
    }

    /// The sum of two values: nothing is known of it.
    pub fn add(&self, _other: &Self) -> (r: Self)
        ensures
            r.0 == ConstValue::Top,
    {
        Self::top()
    }

    /// The quotient of two values: nothing is known of it.
    pub fn div(&self, _other: &Self) -> (r: Self)
        ensures
            r.0 == ConstValue::Top,
    {
        Self::top()
    }

    /// The product of two values: nothing is known of it.
    pub fn mul(&self, _other: &Self) -> (r: Self)
        ensures
            r.0 == ConstValue::Top,
    {
        Self::top()
    }

    /// The difference of two values: nothing is known of it.
    pub fn sub(&self, _other: &Self) -> (r: Self)
        ensures
            r.0 == ConstValue::Top,
    {
        Self::top()
    }
}

/// `ascent::Lattice::join` on `ConstPropagation`: the least upper bound in
/// the flat lattice.
#[verifier::external_body]
fn flat_join(a: ConstValue, b: ConstValue) -> (r: ConstValue)
    ensures
        r == join_spec(a, b),
{
    let x = match a {
        ConstValue::Bottom => ConstPropagation::Bottom,
        ConstValue::Constant(i) => ConstPropagation::Constant(i),
        ConstValue::Top => ConstPropagation::Top,
    };
    let y = match b {
        ConstValue::Bottom => ConstPropagation::Bottom,
        ConstValue::Constant(i) => ConstPropagation::Constant(i),
        ConstValue::Top => ConstPropagation::Top,
    };
    match ascent::Lattice::join(x, y) {
        ConstPropagation::Bottom => ConstValue::Bottom,
        ConstPropagation::Constant(i) => ConstValue::Constant(i),
        ConstPropagation::Top => ConstValue::Top,
    }
}

/// `ascent::Lattice::meet` on `ConstPropagation`: the greatest lower bound
/// in the flat lattice.
#[verifier::external_body]
fn flat_meet(a: ConstValue, b: ConstValue) -> (r: ConstValue)
    ensures
        r == meet_spec(a, b),
{
    let x = match a {
        ConstValue::Bottom => ConstPropagation::Bottom,
        ConstValue::Constant(i) => ConstPropagation::Constant(i),
        ConstValue::Top => ConstPropagation::Top,
    };
    let y = match b {
        ConstValue::Bottom => ConstPropagation::Bottom,
        ConstValue::Constant(i) => ConstPropagation::Constant(i),
        ConstValue::Top => ConstPropagation::Top,
    };
    match ascent::Lattice::meet(x, y) {
        ConstPropagation::Bottom => ConstValue::Bottom,
        ConstPropagation::Constant(i) => ConstValue::Constant(i),
        ConstPropagation::Top => ConstValue::Top,
    }
}

/// Whether `x` lies below `u` in the flat lattice, or is `u`.
pub open spec fn below(x: IntLattice, u: IntLattice) -> bool {
    join_spec(x.0, u.0) == u.0
}

impl IntLattice {
    /// The least upper bound of two values.
    pub fn join(self, other: Self) -> (r: Self)
        ensures
            r.0 == join_spec(self.0, other.0),
    {
        IntLattice(flat_join(self.0, other.0))
    }

    /// The greatest lower bound of two values.
    pub fn meet(self, other: Self) -> (r: Self)
        ensures
            r.0 == meet_spec(self.0, other.0),
    {
        IntLattice(flat_meet(self.0, other.0))
    }
}

/// The join of two values lies above both and below everything that lies
/// above both.
pub proof fn lemma_join_least(a: IntLattice, b: IntLattice, u: IntLattice)
    ensures
        below(a, IntLattice(join_spec(a.0, b.0))),
        below(b, IntLattice(join_spec(a.0, b.0))),
        below(a, u) && below(b, u) ==> below(IntLattice(join_spec(a.0, b.0)), u),
{
}

/// Lying below is a partial order.
pub proof fn lemma_below_order(a: IntLattice, b: IntLattice, c: IntLattice)
    ensures
        below(a, a),
        below(a, b) && below(b, a) ==> a == b,
        below(a, b) && below(b, c) ==> below(a, c),
{
}

} // verus!
