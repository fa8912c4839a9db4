//! What an analysis of a module is run with.

use crate::analysis::rules::Setup;
use crate::llvm::name::GlobalName;
use crate::llvm::Module;
use crate::signatures::{Signature, Signatures};
use crate::text::same_text;
use vstd::prelude::*;

verus! {

/// The names of the globals that every analysis introduces.
pub open spec fn fixed_names() -> Seq<Seq<char>> {
    seq![
        "*argv"@,
        "*argv[*]"@,
        "*@optarg"@,
        "*@stderr"@,
        "*@stdin"@,
        "*@stdout"@,
        "__ctype_b_loc_alloc"@,
        "__ctype_b_loc_alloc_alloc"@,
    ]
}

/// The names of a list of globals.
pub open spec fn names_of(v: Seq<GlobalName>) -> Seq<Seq<char>> {
    Seq::new(v.len(), |i: int| v[i]@)
}

/// The list with `name` added at its end, unless it holds the name.
pub open spec fn with_name(names: Seq<Seq<char>>, name: Seq<char>) -> Seq<Seq<char>> {
    if names.contains(name) {
        names
    } else {
        names.push(name)
    }
}

/// The list with the names of the globals that the effects name.
pub open spec fn with_effect_names(names: Seq<Seq<char>>, es: Seq<Signature>) -> Seq<Seq<char>>
    decreases es.len(),
{
    if es.len() == 0 {
        names
    } else {
        let before = with_effect_names(names, es.drop_last());
        match es.last() {
            Signature::ReturnPointsToGlobal { global } => with_name(before, global@),
            _ => before,
        }
    }
}

/// The list with the names of the globals that the signatures of the
/// declarations name.
pub open spec fn with_signature_names(
    names: Seq<Seq<char>>,
    sigs: Seq<Option<Vec<Signature>>>,
) -> Seq<Seq<char>>
    decreases sigs.len(),
{
    if sigs.len() == 0 {
        names
    } else {
        let before = with_signature_names(names, sigs.drop_last());
        match sigs.last() {
            Some(es) => with_effect_names(before, es@),
            None => before,
        }
    }
}

fn add_name(names: &mut Vec<GlobalName>, name: &str)
    ensures
        names_of(final(names)@) == with_name(names_of(old(names)@), name@),
{
    let mut i: usize = 0;
    while i < names.len()
        invariant
            i <= names.len(),
            *names == *old(names),
            forall|j: int| 0 <= j < i ==> (#[trigger] names@[j])@ != name@,
        decreases names.len() - i,
    {
        if same_text(names[i].get(), name) {
            proof {
                assert(names_of(names@)[i as int] == name@);
            }
            return;
        }
        i += 1;
    }
    proof {
        let ns = names_of(names@);
        if ns.contains(name@) {
            let j = choose|j: int| 0 <= j < ns.len() && ns[j] == name@;
            assert(names@[j]@ == name@);
        }
    }
    let ghost before = names@;
    names.push(GlobalName::from_str(name));
    assert(names_of(names@) =~= names_of(before).push(name@));
}

fn add_effect_names(names: &mut Vec<GlobalName>, es: &Vec<Signature>)
    ensures
        names_of(final(names)@) == with_effect_names(names_of(old(names)@), es@),
{
    let mut j: usize = 0;
    assert(es@.subrange(0, 0) =~= Seq::<Signature>::empty());
    while j < es.len()
        invariant
            j <= es.len(),
            names_of(names@) == with_effect_names(names_of(old(names)@), es@.subrange(0, j as int)),
        decreases es.len() - j,
    {
        proof {
            let next = es@.subrange(0, j + 1);
            assert(next.drop_last() =~= es@.subrange(0, j as int));
            assert(next.last() == es@[j as int]);
        }
        if let Signature::ReturnPointsToGlobal { global } = &es[j] {
            add_name(names, global.as_str());
        }
        j += 1;
    }
    assert(es@.subrange(0, j as int) =~= es@);
}

impl Setup {
    /// Whether this is what the module is analysed with under the given
    /// signatures and choices: every declaration has the effects that the
    /// signatures give its name, and the globals that are no variables of
    /// the module are the fixed ones and those that these effects name.
    pub open spec fn describes(
        self,
        m: Module,
        signatures: Signatures,
        contexts: usize,
        unification: bool,
        metrics: bool,
    ) -> bool {
        &&& self.signatures.len() == m.decls.len()
        &&& forall|d: int|
            0 <= d < m.decls.len() ==> signatures.describes(
                m.decls@[d].name@,
                #[trigger] self.signatures@[d],
            )
        &&& names_of(self.extra_globals@) == with_signature_names(
            fixed_names(),
            self.signatures@,
        )
        &&& self.contexts == contexts
        &&& self.unification == unification
        &&& self.metrics == metrics
        &&& self.callgraph is None
    }

    /// What the module is analysed with under the given signatures and
    /// choices.
    pub fn new(
        module: &Module,
        signatures: &Signatures,
        contexts: usize,
        unification: bool,
        metrics: bool,
    ) -> (r: Setup)
        ensures
            r.describes(*module, *signatures, contexts, unification, metrics),
    {
        let mut sigs: Vec<Option<Vec<Signature>>> = Vec::new();
        let mut extra: Vec<GlobalName> = Vec::new();
        extra.push(GlobalName::from_str("*argv"));
        extra.push(GlobalName::from_str("*argv[*]"));
        extra.push(GlobalName::from_str("*@optarg"));
        extra.push(GlobalName::from_str("*@stderr"));
        extra.push(GlobalName::from_str("*@stdin"));
        extra.push(GlobalName::from_str("*@stdout"));
        extra.push(GlobalName::from_str("__ctype_b_loc_alloc"));
        extra.push(GlobalName::from_str("__ctype_b_loc_alloc_alloc"));
        assert(names_of(extra@) =~= fixed_names());
        let mut d: usize = 0;
        while d < module.decls.len()
            invariant
                d <= module.decls.len(),
                sigs@.len() == d,
                forall|j: int|
                    0 <= j < d ==> signatures.describes(
                        module.decls@[j].name@,
                        #[trigger] sigs@[j],
                    ),
                names_of(extra@) == with_signature_names(fixed_names(), sigs@),
            decreases module.decls.len() - d,
        {
            let found = signatures.signatures_for(module.decls[d].name.get());
            if let Some(es) = &found {
                add_effect_names(&mut extra, es);
            }
            let ghost before = sigs@;
            sigs.push(found);
            proof {
                assert(sigs@.drop_last() =~= before);
                assert(sigs@.last() == found);
            }
            d += 1;
        }
        Setup {
            signatures: sigs,
            extra_globals: extra,
            contexts,
            unification,
            metrics,
            callgraph: None,
        }
    }
}

} // verus!
