//! Abstract allocations.
//!
//! An allocation stands for the memory that one syntactic origin produces:
//! a function, a global, a heap-allocating call site or a stack slot, and the
//! two distinguished allocations `Null` and `Top`.
//!
//! An allocation is its origin and nothing else: two allocations of one
//! origin are equal. What else is known of an allocation, whether a global
//! is constant and how large a global or a heap object is, is read off the
//! module.

use crate::analysis::lookup::site_size_of;
use crate::analysis::rules::site_size;
use crate::llvm::name::{FunctionId, InstructionName};
use crate::llvm::Module;
use crate::union::UnionFind;
use vstd::prelude::*;

verus! {

/// The address of a function.
#[derive(Clone, Copy, Debug, PartialEq, Eq, Structural, Hash)]
pub struct FunctionAlloc(pub FunctionId);

impl FunctionAlloc {
    pub fn new(f: FunctionId) -> (r: Self)
        ensures
            r.0 == f,
    {
        FunctionAlloc(f)
    }

    pub fn function_name(&self) -> (r: FunctionId)
        ensures
            r == self.0,
    {
        self.0
    }
}

/// What a global allocation is the storage of: a variable of the module, by
/// its position, or one of the globals that the analysis itself introduces.
#[derive(Clone, Copy, Debug, PartialEq, Eq, Structural, Hash)]
pub enum GlobalKey {
    Variable(usize),
    Extra(usize),
}

/// The storage of a global.
#[derive(Clone, Copy, Debug, PartialEq, Eq, Structural, Hash)]
pub struct GlobalAlloc {
    pub global: GlobalKey,
}

impl GlobalAlloc {
    pub fn new(global: GlobalKey) -> (r: Self)
        ensures
            r.global == global,
    {
        GlobalAlloc { global }
    }

    /// Whether the global is a constant: a variable of the module that is
    /// declared so.
    pub open spec fn constant_spec(self, m: Module) -> bool {
        match self.global {
            GlobalKey::Variable(g) => g < m.globals.len() && m.globals@[g as int].is_const,
            GlobalKey::Extra(_) => false,
        }
    }

    /// The size of the global, where the module gives one.
    pub open spec fn size_spec(self, m: Module) -> Option<u64> {
        match self.global {
            GlobalKey::Variable(g) => if g < m.globals.len() {
                m.globals@[g as int].size_spec()
            } else {
                None
            },
            GlobalKey::Extra(_) => None,
        }
    }

    pub fn constant(&self, module: &Module) -> (r: bool)
        ensures
            r == self.constant_spec(*module),
    {
        match self.global {
            GlobalKey::Variable(g) => g < module.globals.len() && module.globals[g].is_const,
            GlobalKey::Extra(_) => false,
        }
    }

    pub fn size(&self, module: &Module) -> (r: Option<u64>)
        ensures
            r == self.size_spec(*module),
    {
        match self.global {
            GlobalKey::Variable(g) => if g < module.globals.len() {
                module.globals[g].size()
            } else {
                None
            },
            GlobalKey::Extra(_) => None,
        }
    }
}

/// The object that one heap-allocating call site produces.
#[derive(Clone, Copy, Debug, PartialEq, Eq, Structural, Hash)]
pub struct HeapAlloc {
    pub instruction: InstructionName,
}

impl HeapAlloc {
    pub fn new(instruction: InstructionName) -> (r: Self)
        ensures
            r.instruction == instruction,
    {
        HeapAlloc { instruction }
    }

    /// The size of the object, where the call site asks for a known one.
    ///
    /// The size is a property of the call site alone, so that one site has
    /// one object. It is known only where the callee of the site is a
    /// constant that stands for one function (the function itself or a cast
    /// of it), that function allocates on the heap by its name, and the
    /// argument that gives the size is a constant integer. A call through a
    /// local, which may reach several functions, gives an object of unknown
    /// size, also where the analysis resolves it to `malloc` or `realloc`.
    pub open spec fn size_spec(self, m: Module) -> Option<u64> {
        site_size(m, self.instruction)
    }

    pub fn size(&self, module: &Module) -> (r: Option<u64>)
        ensures
            r == self.size_spec(*module),
    {
        site_size_of(module, self.instruction)
    }
}

/// The object that one `alloca`, or one call with a stack-allocating
/// signature, produces.
#[derive(Clone, Copy, Debug, PartialEq, Eq, Structural, Hash)]
pub struct StackAlloc {
    pub name: InstructionName,
}

impl StackAlloc {
    pub fn alloca(name: InstructionName) -> (r: Self)
        ensures
            r.name == name,
    {
        StackAlloc { name }
    }

    pub fn signature(name: InstructionName) -> (r: Self)
        ensures
            r.name == name,
    {
        StackAlloc { name }
    }
}

/// An abstract allocation.
#[derive(Clone, Copy, Debug, PartialEq, Eq, Structural, Hash)]
pub enum Alloc {
    Function(FunctionAlloc),
    Global(GlobalAlloc),
    Heap(HeapAlloc),
    Stack(StackAlloc),
    //
    Null,
    Top,
}

/// Whether the first four numbers come before the last four in the
/// lexicographic order.
pub open spec fn lex_less(a: (int, int, int, int), b: (int, int, int, int)) -> bool {
    a.0 < b.0 || (a.0 == b.0 && (a.1 < b.1 || (a.1 == b.1 && (a.2 < b.2 || (a.2 == b.2 && a.3
        < b.3)))))
}

impl Alloc {
    /// Whether a value can be read from the allocation: from everything but
    /// a function and null.
    pub open spec fn loadable_spec(self) -> bool {
        !(self is Function) && !(self is Null)
    }

    /// Whether a value can be written to the allocation: to everything but a
    /// function, null and a constant global.
    pub open spec fn storable_spec(self, m: Module) -> bool {
        match self {
            Alloc::Function(_) => false,
            Alloc::Global(g) => !g.constant_spec(m),
            Alloc::Null => false,
            _ => true,
        }
    }

    /// Whether the allocation can be freed: only heap objects and `Top`.
    pub open spec fn freeable_spec(self) -> bool {
        self is Heap || self is Top
    }

    /// Whether the two allocations are of one kind that unification
    /// merges: two globals, two heap objects or two stack slots.
    pub open spec fn same_kind(self, o: Alloc) -> bool {
        match (self, o) {
            (Alloc::Global(_), Alloc::Global(_)) => true,
            (Alloc::Heap(_), Alloc::Heap(_)) => true,
            (Alloc::Stack(_), Alloc::Stack(_)) => true,
            _ => false,
        }
    }

    /// Whether the two allocations may stand in one class: they are of one
    /// kind, two globals are both constant or both not, and two heap objects
    /// have the same size.
    pub open spec fn alike(self, o: Alloc, m: Module) -> bool {
        match (self, o) {
            (Alloc::Global(p), Alloc::Global(q)) => p.constant_spec(m) == q.constant_spec(m),
            (Alloc::Heap(p), Alloc::Heap(q)) => p.size_spec(m) == q.size_spec(m),
            (Alloc::Stack(_), Alloc::Stack(_)) => true,
            _ => false,
        }
    }

    /// Whether unification may put the two allocations into one class: two
    /// distinct allocations that are alike.
    pub open spec fn mergeable_spec(self, o: Alloc, m: Module) -> bool {
        self != o && self.alike(o, m)
    }

    /// The numbers by which allocations are ordered: the kind first, then
    /// the origin.
    pub open spec fn order_key(self) -> (int, int, int, int) {
        match self {
            Alloc::Function(f) => (0int, f.0 as int, 0int, 0int),
            Alloc::Global(g) => match g.global {
                GlobalKey::Variable(i) => (1int, 0int, i as int, 0int),
                GlobalKey::Extra(i) => (1int, 1int, i as int, 0int),
            },
            Alloc::Heap(h) => (
                2int,
                h.instruction.parent_function as int,
                h.instruction.parent_block as int,
                h.instruction.idx as int,
            ),
            Alloc::Stack(s) => (
                3int,
                s.name.parent_function as int,
                s.name.parent_block as int,
                s.name.idx as int,
            ),
            Alloc::Null => (4int, 0int, 0int, 0int),
            Alloc::Top => (5int, 0int, 0int, 0int),
        }
    }

    /// The strict total order on allocations by which the representative of
    /// a class of unified allocations is chosen.
    pub open spec fn precedes(self, o: Alloc) -> bool {
        lex_less(self.order_key(), o.order_key())
    }

    pub fn freeable(&self) -> (r: bool)
        ensures
            r == self.freeable_spec(),
    {
        match self {
            Alloc::Heap(_) => true,
            Alloc::Top => true,
            Alloc::Function(_) => false,
            Alloc::Global(_) => false,
            Alloc::Null => false,
            Alloc::Stack(_) => false,
        }
    }

    pub fn loadable(&self) -> (r: bool)
        ensures
            r == self.loadable_spec(),
    {
        match self {
            Alloc::Function(_) => false,
            Alloc::Null => false,
            Alloc::Global(_) => true,
            Alloc::Heap(_) => true,
            Alloc::Stack(_) => true,
            Alloc::Top => true,
        }
    }

    pub fn storable(&self, module: &Module) -> (r: bool)
        ensures
            r == self.storable_spec(*module),
    {
        match self {
            Alloc::Function(_) => false,
            Alloc::Global(g) => !g.constant(module),
            Alloc::Null => false,
            Alloc::Heap(_) => true,
            Alloc::Stack(_) => true,
            Alloc::Top => true,
        }
    }

    pub fn mergeable(&self, o: &Alloc, module: &Module) -> (r: bool)
        ensures
            r == self.mergeable_spec(*o, *module),
    {
        if *self == *o {
            return false;
        }
        match (self, o) {
            (Alloc::Global(p), Alloc::Global(q)) => p.constant(module) == q.constant(module),
            (Alloc::Heap(p), Alloc::Heap(q)) => same_size(p.size(module), q.size(module)),
            (Alloc::Stack(_), Alloc::Stack(_)) => true,
            _ => false,
        }
    }

    /// The numbers of [`Alloc::order_key`].
    fn key(&self) -> (r: (i128, i128, i128, i128))
        ensures
            r.0 == self.order_key().0,
            r.1 == self.order_key().1,
            r.2 == self.order_key().2,
            r.3 == self.order_key().3,
    {
        match self {
            Alloc::Function(f) => (0, f.0 as i128, 0, 0),
            Alloc::Global(g) => match g.global {
                GlobalKey::Variable(i) => (1, 0, i as i128, 0),
                GlobalKey::Extra(i) => (1, 1, i as i128, 0),
            },
            Alloc::Heap(h) => (
                2,
                h.instruction.parent_function as i128,
                h.instruction.parent_block as i128,
                h.instruction.idx as i128,
            ),
            Alloc::Stack(s) => (
                3,
                s.name.parent_function as i128,
                s.name.parent_block as i128,
                s.name.idx as i128,
            ),
            Alloc::Null => (4, 0, 0, 0),
            Alloc::Top => (5, 0, 0, 0),
        }
    }

    /// Whether this allocation comes before `o` in the order of
    /// allocations.
    pub fn comes_before(&self, o: &Alloc) -> (r: bool)
        ensures
            r == self.precedes(*o),
    {
        let a = self.key();
        let b = o.key();
        a.0 < b.0 || (a.0 == b.0 && (a.1 < b.1 || (a.1 == b.1 && (a.2 < b.2 || (a.2 == b.2 && a.3
            < b.3)))))
    }
}

fn same_size(a: Option<u64>, b: Option<u64>) -> (r: bool)
    ensures
        r == (a == b),
{
    match (a, b) {
        (Some(x), Some(y)) => x == y,
        (None, None) => true,
        _ => false,
    }
}

/// Allocations of one origin are one allocation.
pub proof fn law_one_allocation_per_origin(a: Alloc, b: Alloc)
    ensures
        (a == b) <==> a.order_key() == b.order_key(),
        match (a, b) {
            (Alloc::Heap(p), Alloc::Heap(q)) => (a == b) <==> p.instruction == q.instruction,
            (Alloc::Stack(p), Alloc::Stack(q)) => (a == b) <==> p.name == q.name,
            (Alloc::Global(p), Alloc::Global(q)) => (a == b) <==> p.global == q.global,
            (Alloc::Function(p), Alloc::Function(q)) => (a == b) <==> p.0 == q.0,
            _ => true,
        },
{
}

/// No allocation comes before itself.
pub proof fn lemma_precedes_irreflexive(a: Alloc)
    ensures
        !a.precedes(a),
{
}

/// The order of allocations is transitive.
pub proof fn lemma_precedes_transitive(a: Alloc, b: Alloc, c: Alloc)
    requires
        a.precedes(b),
        b.precedes(c),
    ensures
        a.precedes(c),
{
}

/// Of two distinct allocations one comes before the other.
pub proof fn lemma_precedes_total(a: Alloc, b: Alloc)
    ensures
        a == b || a.precedes(b) || b.precedes(a),
{
}

/// Allocations with their classes: allocations that were merged are in one
/// class, and the first of them in the list stands for the class.
#[derive(Debug)]
pub struct Allocations {
    pub allocs: Vec<Alloc>,
    pub classes: UnionFind,
}

impl Allocations {
    /// Whether every allocation has its place in the forest of classes, and
    /// every parent in the forest is of the kind of its child. So a
    /// function, `Null` and `Top` have no parent.
    pub open spec fn wf(self) -> bool {
        &&& self.classes.wf()
        &&& self.classes.parent@.len() == self.allocs@.len()
        &&& forall|i: int|
            0 <= i < self.allocs@.len() ==> match #[trigger] self.classes.parent@[i] {
                Some(p) => self.allocs@[i].same_kind(self.allocs@[p as int]),
                None => true,
            }
    }

    /// Whether every parent in the forest is alike its child: the two may
    /// stand in one class of allocations of the module `m`.
    pub open spec fn alike_classes(self, m: Module) -> bool {
        forall|i: int|
            0 <= i < self.allocs@.len() ==> match #[trigger] self.classes.parent@[i] {
                Some(p) => self.allocs@[i].alike(self.allocs@[p as int], m),
                None => true,
            }
    }

    /// The allocations, each in a class of its own: no allocation has a
    /// parent.
    pub fn new(allocs: Vec<Alloc>) -> (r: Self)
        ensures
            r.wf(),
            r.allocs == allocs,
            forall|i: int| 0 <= i < allocs@.len() ==> r.classes.parent@[i] is None,
            forall|m: Module| #[trigger] r.alike_classes(m),
    {
        let classes = UnionFind::new(allocs.len());
        Allocations { allocs, classes }
    }

    /// The allocation that stands for the class of the allocation at `a`:
    /// the allocation itself, or one of its kind. Where the classes hold
    /// only allocations that are alike, it is alike the allocation.
    pub fn lookup(&mut self, a: usize) -> (r: Alloc)
        requires
            old(self).wf(),
            a < old(self).allocs@.len(),
        ensures
            final(self).wf(),
            final(self).allocs == old(self).allocs,
            0 <= old(self).classes.root(a as int) < old(self).allocs@.len(),
            r == old(self).allocs@[old(self).classes.root(a as int)],
            old(self).classes.root(a as int) == a || old(self).allocs@[a as int].same_kind(r),
            forall|i: int|
                0 <= i < old(self).allocs@.len() ==> final(self).classes.root(i)
                    == old(self).classes.root(i),
            forall|m: Module| #[trigger]
                old(self).alike_classes(m) ==> final(self).alike_classes(m) && (old(
                    self,
                ).classes.root(a as int) == a || old(self).allocs@[a as int].alike(r, m)),
    {
        proof {
            crate::union::lemma_root(self.classes.parent@, a as int);
            lemma_root_kind(*self, a as int);
        }
        let ghost before = *self;
        let r = self.classes.lookup(a);
        proof {
            lemma_moved_up_kind(before, self.classes.parent@, a as int);
            assert forall|m: Module| #[trigger] before.alike_classes(m) implies self.alike_classes(
                m,
            ) && (before.classes.root(a as int) == a || before.allocs@[a as int].alike(
                before.allocs@[before.classes.root(a as int)],
                m,
            )) by {
                lemma_root_alike(before, m, a as int);
                lemma_moved_up_alike(before, m, self.classes.parent@, a as int);
                assert forall|i: int| 0 <= i < self.allocs@.len() implies match #[trigger] self.classes.parent@[i] {
                    Some(p) => self.allocs@[i].alike(self.allocs@[p as int], m),
                    None => true,
                } by {
                    if i != a {
                        assert(self.classes.parent@[i] == before.classes.parent@[i]);
                    }
                }
            }
        }
        self.allocs[r]
    }

    /// Puts the allocations at `a` and `b` into one class, if they may be
    /// merged and are not in one class already. The lesser of the two
    /// representatives then stands for the united class; no other class
    /// changes.
    pub fn merge(&mut self, a: usize, b: usize, module: &Module) -> (r: bool)
        requires
            old(self).wf(),
            a < old(self).allocs@.len(),
            b < old(self).allocs@.len(),
        ensures
            final(self).wf(),
            final(self).allocs == old(self).allocs,
            r == (old(self).allocs@[a as int].mergeable_spec(old(self).allocs@[b as int], *module)
                && old(self).classes.root(a as int) != old(self).classes.root(b as int)),
            forall|i: int|
                0 <= i < old(self).allocs@.len() ==> final(self).classes.root(i) == if r && (old(
                    self,
                ).classes.root(i) == old(self).classes.root(a as int) || old(self).classes.root(i)
                    == old(self).classes.root(b as int)) {
                    crate::union::lesser_root(old(self).classes.parent@, a as int, b as int)
                } else {
                    old(self).classes.root(i)
                },
            old(self).alike_classes(*module) ==> final(self).alike_classes(*module),
    {
        if self.allocs[a].mergeable(&self.allocs[b], module) {
            self.unite(a, b)
        } else {
            false
        }
    }

    /// Puts two allocations of one kind into one class, if they are not in
    /// one class already. The lesser of the two representatives stands for
    /// the united class.
    pub fn unite(&mut self, a: usize, b: usize) -> (r: bool)
        requires
            old(self).wf(),
            a < old(self).allocs@.len(),
            b < old(self).allocs@.len(),
            old(self).allocs@[a as int].same_kind(old(self).allocs@[b as int]),
        ensures
            final(self).wf(),
            final(self).allocs == old(self).allocs,
            r == (old(self).classes.root(a as int) != old(self).classes.root(b as int)),
            forall|i: int|
                0 <= i < old(self).allocs@.len() ==> final(self).classes.root(i) == if old(
                    self,
                ).classes.root(i) == old(self).classes.root(a as int) || old(self).classes.root(i)
                    == old(self).classes.root(b as int) {
                    crate::union::lesser_root(old(self).classes.parent@, a as int, b as int)
                } else {
                    old(self).classes.root(i)
                },
            forall|m: Module| #[trigger]
                old(self).alike_classes(m) && old(self).allocs@[a as int].alike(
                    old(self).allocs@[b as int],
                    m,
                ) ==> final(self).alike_classes(m),
    {
        let ghost before = *self;
        proof {
            crate::union::lemma_root(self.classes.parent@, a as int);
            crate::union::lemma_root(self.classes.parent@, b as int);
            lemma_root_kind(*self, a as int);
            lemma_root_kind(*self, b as int);
        }
        let r = self.classes.merge(a, b);
        proof {
            let hi = crate::union::greater_root(before.classes.parent@, a as int, b as int);
            let after = self.classes.parent@;
            assert forall|m: Module| #[trigger]
                before.alike_classes(m) && before.allocs@[a as int].alike(
                    before.allocs@[b as int],
                    m,
                ) implies self.alike_classes(m) by {
                lemma_root_alike(before, m, a as int);
                lemma_root_alike(before, m, b as int);
                assert forall|i: int| 0 <= i < self.allocs@.len() implies match #[trigger] after[i] {
                    Some(p) => self.allocs@[i].alike(self.allocs@[p as int], m),
                    None => true,
                } by {
                    if r && i == hi {
                    } else if i == a || i == b {
                        lemma_moved_up_alike(before, m, after, i);
                    } else {
                        assert(after[i] == before.classes.parent@[i]);
                    }
                }
            }
            assert forall|i: int| 0 <= i < self.allocs@.len() implies match #[trigger] after[i] {
                Some(p) => self.allocs@[i].same_kind(self.allocs@[p as int]),
                None => true,
            } by {
                if r && i == hi {
                } else if i == a || i == b {
                    lemma_moved_up_kind(before, after, i);
                } else {
                    assert(after[i] == before.classes.parent@[i]);
                }
            }
        }
        r
    }
}

/// The representative of an allocation that is not its own is of its kind.
pub proof fn lemma_root_kind(t: Allocations, a: int)
    requires
        t.wf(),
        0 <= a < t.allocs@.len(),
    ensures
        t.classes.root(a) == a || t.allocs@[a].same_kind(t.allocs@[t.classes.root(a)]),
    decreases a,
{
    if let Some(p) = t.classes.parent@[a] {
        lemma_root_kind(t, p as int);
    }
}

/// The representative of an allocation that is not its own is alike it.
pub proof fn lemma_root_alike(t: Allocations, m: Module, a: int)
    requires
        t.wf(),
        t.alike_classes(m),
        0 <= a < t.allocs@.len(),
    ensures
        t.classes.root(a) == a || t.allocs@[a].alike(t.allocs@[t.classes.root(a)], m),
    decreases a,
{
    if let Some(p) = t.classes.parent@[a] {
        lemma_root_alike(t, m, p as int);
    }
}

proof fn lemma_ancestor_alike(t: Allocations, m: Module, a: int, g: int)
    requires
        t.wf(),
        t.alike_classes(m),
        crate::union::ancestor(t.classes.parent@, a, g),
    ensures
        t.allocs@[a].alike(t.allocs@[g], m),
    decreases a,
{
    let q = t.classes.parent@[a]->0;
    if q != g {
        lemma_ancestor_alike(t, m, q as int, g);
    }
}

proof fn lemma_moved_up_alike(t: Allocations, m: Module, after: Seq<Option<usize>>, a: int)
    requires
        t.wf(),
        t.alike_classes(m),
        0 <= a < t.allocs@.len(),
        after.len() == t.allocs@.len(),
        crate::union::moved_up(t.classes.parent@, after, a),
    ensures
        match after[a] {
            Some(p) => t.allocs@[a].alike(t.allocs@[p as int], m),
            None => true,
        },
{
    if after[a] != t.classes.parent@[a] {
        lemma_ancestor_alike(t, m, a, after[a]->0 as int);
    }
}

/// What stands above an allocation in the forest is of its kind.
proof fn lemma_ancestor_kind(t: Allocations, a: int, g: int)
    requires
        t.wf(),
        crate::union::ancestor(t.classes.parent@, a, g),
    ensures
        t.allocs@[a].same_kind(t.allocs@[g]),
    decreases a,
{
    let q = t.classes.parent@[a]->0;
    if q != g {
        lemma_ancestor_kind(t, q as int, g);
    }
}

/// An allocation that has moved up in the forest has a parent of its kind.
proof fn lemma_moved_up_kind(t: Allocations, after: Seq<Option<usize>>, a: int)
    requires
        t.wf(),
        0 <= a < t.allocs@.len(),
        after.len() == t.allocs@.len(),
        crate::union::moved_up(t.classes.parent@, after, a),
    ensures
        match after[a] {
            Some(p) => t.allocs@[a].same_kind(t.allocs@[p as int]),
            None => true,
        },
{
    if after[a] != t.classes.parent@[a] {
        lemma_ancestor_kind(t, a, after[a]->0 as int);
    }
}

} // verus!
