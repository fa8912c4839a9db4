//! The table of the module's global names.

use crate::llvm::constant::Constant;
use vstd::prelude::*;

verus! {

/// For each name of a function or a global, the constant that stands for
/// it. Where a name occurs twice, the later entry counts.
#[derive(Debug)]
pub struct GlobalNames {
    pub entries: Vec<(String, Constant)>,
}

/// The constant of the last of the entries with the name.
pub open spec fn lookup_name(entries: Seq<(Seq<char>, Constant)>, name: Seq<char>) -> Option<
    Constant,
>
    decreases entries.len(),
{
    if entries.len() == 0 {
        None
    } else if entries.last().0 == name {
        Some(entries.last().1)
    } else {
        lookup_name(entries.drop_last(), name)
    }
}

impl View for GlobalNames {
    type V = Seq<(Seq<char>, Constant)>;

    open spec fn view(&self) -> Seq<(Seq<char>, Constant)> {
        Seq::new(self.entries.len() as nat, |i: int| (self.entries@[i].0@, self.entries@[i].1))
    }
}

impl GlobalNames {
    pub fn new() -> (r: Self)
        ensures
            r@ == Seq::<(Seq<char>, Constant)>::empty(),
    {
        let r = GlobalNames { entries: Vec::new() };
        assert(r@ =~= Seq::<(Seq<char>, Constant)>::empty());
        r
    }

    /// Adds an entry.
    pub fn insert(&mut self, name: &str, constant: Constant)
        ensures
            final(self)@ == old(self)@.push((name@, constant)),
    {
        self.entries.push((name.to_owned(), constant));
        assert(self@ =~= old(self)@.push((name@, constant)));
    }

    /// The constant that stands for the name.
    pub fn get(&self, name: &str) -> (r: Option<Constant>)
        ensures
            r == lookup_name(self@, name@),
    {
        let mut i: usize = self.entries.len();
        assert(self@.subrange(0, i as int) =~= self@);
        while i > 0
            invariant
                i <= self.entries.len(),
                lookup_name(self@, name@) == lookup_name(self@.subrange(0, i as int), name@),
            decreases i,
        {
            let ghost prefix = self@.subrange(0, i as int);
            i -= 1;
            assert(prefix.last() == self@[i as int]);
            assert(prefix.drop_last() =~= self@.subrange(0, i as int));
            if crate::text::same_text(self.entries[i].0.as_str(), name) {
                return Some(self.entries[i].1.clone());
            }
        }
        None
    }
}

} // verus!
