//! Signatures: what calls to external functions do to the points-to graph.

use crate::text::same_text;
use regex::RegexSet;
use vstd::prelude::*;

verus! {

/// The kind of allocation that a signature introduces.
#[derive(Clone, Copy, Debug, PartialEq, Eq, Structural, Hash)]
pub enum AllocType {
    Heap,
    Stack,
    Top,
}

/// One effect of a call to an external function.
#[derive(Debug)]
pub enum Signature {
    /// The call invokes the function passed as argument `arg`.
    CallsArg { arg: usize },
    /// The call returns a pointer to a fresh allocation of the given kind.
    ReturnAlloc { kind: AllocType },
    /// The call may return whatever argument `arg` points to.
    ReturnAliasesArg { arg: usize },
    /// The call returns a pointer to the global of the given name.
    ReturnPointsToGlobal { global: String },
    /// The call copies memory from argument `src` to argument `dst`.
    ArgMemcpyArg { dst: usize, src: usize },
}

impl Signature {
    /// Whether two effects are the same, names compared as text.
    pub open spec fn same(self, o: Signature) -> bool {
        match (self, o) {
            (Signature::CallsArg { arg: a }, Signature::CallsArg { arg: b }) => a == b,
            (Signature::ReturnAlloc { kind: a }, Signature::ReturnAlloc { kind: b }) => a == b,
            (Signature::ReturnAliasesArg { arg: a }, Signature::ReturnAliasesArg { arg: b }) => a
                == b,
            (
                Signature::ReturnPointsToGlobal { global: a },
                Signature::ReturnPointsToGlobal { global: b },
            ) => a@ == b@,
            (
                Signature::ArgMemcpyArg { dst: a, src: b },
                Signature::ArgMemcpyArg { dst: c, src: d },
            ) => a == c && b == d,
            _ => false,
        }
    }

    pub fn clone(&self) -> (r: Self)
        ensures
            r.same(*self),
    {
        match self {
            Signature::CallsArg { arg } => Signature::CallsArg { arg: *arg },
            Signature::ReturnAlloc { kind } => Signature::ReturnAlloc { kind: *kind },
            Signature::ReturnAliasesArg { arg } => Signature::ReturnAliasesArg { arg: *arg },
            Signature::ReturnPointsToGlobal { global } => Signature::ReturnPointsToGlobal {
                global: global.clone(),
            },
            Signature::ArgMemcpyArg { dst, src } => Signature::ArgMemcpyArg {
                dst: *dst,
                src: *src,
            },
        }
    }
}

/// Whether two lists hold the same effects in the same order.
pub open spec fn same_effects(a: Seq<Signature>, b: Seq<Signature>) -> bool {
    a.len() == b.len() && forall|i: int| 0 <= i < a.len() ==> (#[trigger] a[i]).same(b[i])
}

/// The copy of a list of effects.
pub fn clone_effects(v: &Vec<Signature>) -> (r: Vec<Signature>)
    ensures
        same_effects(r@, v@),
{
    let mut out: Vec<Signature> = Vec::new();
    let mut i: usize = 0;
    while i < v.len()
        invariant
            i <= v.len(),
            out@.len() == i,
            forall|j: int| 0 <= j < i ==> (#[trigger] out@[j]).same(v@[j]),
        decreases v.len() - i,
    {
        out.push(v[i].clone());
        i += 1;
    }
    out
}

#[verifier::external_type_specification]
#[verifier::external_body]
pub struct ExRegexSet(regex::RegexSet);

/// The patterns that a set of regular expressions was made of, in order.
pub uninterp spec fn set_patterns(set: RegexSet) -> Seq<Seq<char>>;

/// Whether a set of regular expressions can be made of the patterns, on
/// the machine that the library is built for: a set may be too big to
/// compile, and its size is counted in bytes of compiled states, which go by
/// the width of a pointer.
pub uninterp spec fn set_compiles(patterns: Seq<Seq<char>>) -> bool;

/// Whether the regular expression `pattern` matches somewhere in `text`.
pub uninterp spec fn pattern_matches(pattern: Seq<char>, text: Seq<char>) -> bool;

/// The texts of a list of strings.
pub open spec fn texts(v: Seq<String>) -> Seq<Seq<char>> {
    Seq::new(v.len(), |i: int| v[i]@)
}

/// Whether `idx` lists, in ascending order, the positions of the patterns
/// that match `text`.
pub open spec fn lists_matches(patterns: Seq<Seq<char>>, text: Seq<char>, idx: Seq<usize>) -> bool {
    &&& forall|i: int, j: int| 0 <= i < j < idx.len() ==> idx[i] < idx[j]
    &&& forall|j: int| 0 <= j < idx.len() ==> (#[trigger] idx[j]) < patterns.len()
    &&& forall|i: usize|
        i < patterns.len() ==> (#[trigger] idx.contains(i) <==> pattern_matches(
            patterns[i as int],
            text,
        ))
}

/// `regex::RegexSet::new`: compiles the patterns into one set. The set
/// remembers the patterns in their order; whether the call succeeds depends
/// on the patterns alone. A failure comes back as its message.
#[verifier::external_body]
fn compile_set(patterns: &Vec<String>) -> (r: Result<RegexSet, String>)
    ensures
        r is Ok <==> set_compiles(texts(patterns@)),
        r matches Ok(set) ==> set_patterns(set) == texts(patterns@),
{
    RegexSet::new(patterns).map_err(|e| e.to_string())
}

/// `regex::RegexSet::empty`: the set of no patterns.
#[verifier::external_body]
fn empty_set() -> (r: RegexSet)
    ensures
        set_patterns(r) == Seq::<Seq<char>>::empty(),
{
    RegexSet::empty()
}

/// `regex::RegexSet::matches`, iterated: the positions of the patterns of
/// the set that match somewhere in `text`, in ascending order.
#[verifier::external_body]
fn set_matches(set: &RegexSet, text: &str) -> (r: Vec<usize>)
    ensures
        forall|i: int, j: int| 0 <= i < j < r@.len() ==> r@[i] < r@[j],
        forall|j: int| 0 <= j < r@.len() ==> (#[trigger] r@[j]) < set_patterns(*set).len(),
        forall|i: usize|
            i < set_patterns(*set).len() ==> (#[trigger] r@.contains(i) <==> pattern_matches(
                set_patterns(*set)[i as int],
                text@,
            )),
{
    set.matches(text).into_iter().collect()
}

/// Why a list of entries makes no signatures.
#[derive(Debug)]
pub enum PatternError {
    /// The pattern stands in two entries.
    Duplicate(String),
    /// A pattern is no regular expression, or one too big to compile; the
    /// message says which.
    Invalid(String),
}

impl PatternError {
    /// The pattern that occurs twice, or the message.
    pub fn text(&self) -> (r: &str)
        ensures
            r@ == match *self {
                PatternError::Duplicate(p) => p@,
                PatternError::Invalid(e) => e@,
            },
    {
        match self {
            PatternError::Duplicate(p) => p.as_str(),
            PatternError::Invalid(e) => e.as_str(),
        }
    }
}

/// Whether no pattern stands in two of the entries.
pub open spec fn distinct_patterns(entries: Seq<(String, Vec<Signature>)>) -> bool {
    forall|i: int, j: int| 0 <= i < j < entries.len() ==> entries[i].0@ != entries[j].0@
}

/// Whether the pattern of the entry at `j` stands in an entry before it.
pub open spec fn repeats(entries: Seq<(String, Vec<Signature>)>, j: int) -> bool {
    exists|i: int| 0 <= i < j && (#[trigger] entries[i]).0@ == entries[j].0@
}

/// The first entry whose pattern stands in an entry before it.
pub fn first_repeated(sigs: &Vec<(String, Vec<Signature>)>) -> (r: Option<usize>)
    ensures
        match r {
            Some(j) => j < sigs@.len() && repeats(sigs@, j as int) && forall|k: int|
                0 <= k < j ==> !repeats(sigs@, k),
            None => distinct_patterns(sigs@),
        },
{
    let mut j: usize = 0;
    while j < sigs.len()
        invariant
            j <= sigs.len(),
            forall|k: int| 0 <= k < j ==> !repeats(sigs@, k),
        decreases sigs.len() - j,
    {
        let mut i: usize = 0;
        while i < j
            invariant
                i <= j,
                j < sigs.len(),
                forall|k: int| 0 <= k < j ==> !repeats(sigs@, k),
                forall|n: int| 0 <= n < i ==> (#[trigger] sigs@[n]).0@ != sigs@[j as int].0@,
            decreases j - i,
        {
            if same_text(sigs[i].0.as_str(), sigs[j].0.as_str()) {
                assert(sigs@[i as int].0@ == sigs@[j as int].0@);
                return Some(j);
            }
            i += 1;
        }
        j += 1;
    }
    assert forall|a: int, b: int| 0 <= a < b < sigs@.len() implies sigs@[a].0@ != sigs@[b].0@ by {
        assert(!repeats(sigs@, b));
    }
    None
}

/// The effects of the entries at the positions `idx`, in that order.
pub open spec fn effects_at(
    entries: Seq<(String, Vec<Signature>)>,
    idx: Seq<usize>,
) -> Seq<Signature>
    decreases idx.len(),
{
    if idx.len() == 0 {
        Seq::empty()
    } else {
        effects_at(entries, idx.drop_last()) + entries[idx.last() as int].1@
    }
}

/// Signatures, by the pattern that the names of their functions match.
#[derive(Debug)]
pub struct Signatures {
    pub(crate) entries: Vec<(String, Vec<Signature>)>,
    pub(crate) set: RegexSet,
}

/// The patterns of a list of entries.
pub open spec fn entry_patterns(entries: Seq<(String, Vec<Signature>)>) -> Seq<Seq<char>> {
    Seq::new(entries.len(), |i: int| entries[i].0@)
}

impl Signatures {
    #[verifier::type_invariant]
    pub closed spec fn wf(self) -> bool {
        set_patterns(self.set) == entry_patterns(self.entries@) && distinct_patterns(self.entries@)
    }

    /// The entries: each pattern with its effects.
    pub closed spec fn entries_spec(self) -> Seq<(String, Vec<Signature>)> {
        self.entries@
    }

    /// Whether `r` is what the signatures say of a function called `name`:
    /// nothing where no pattern matches the name, else the effects of all
    /// entries whose pattern matches, in the order of the entries.
    pub open spec fn describes(self, name: Seq<char>, r: Option<Vec<Signature>>) -> bool {
        exists|idx: Seq<usize>|
            #![trigger lists_matches(entry_patterns(self.entries_spec()), name, idx)]
            lists_matches(entry_patterns(self.entries_spec()), name, idx) && match r {
                None => idx.len() == 0,
                Some(v) => idx.len() > 0 && same_effects(v@, effects_at(self.entries_spec(), idx)),
            }
    }

    /// The signatures of the given entries. No entries make no signatures.
    /// Fails when a pattern stands in two entries, and else when the
    /// patterns do not compile.
    pub fn new(sigs: Vec<(String, Vec<Signature>)>) -> (r: Result<Self, PatternError>)
        ensures
            r is Ok <==> distinct_patterns(sigs@) && (sigs@.len() == 0 || set_compiles(
                entry_patterns(sigs@),
            )),
            r matches Ok(s) ==> s.entries_spec() == sigs@,
            r matches Err(PatternError::Duplicate(p)) ==> exists|j: int|
                0 <= j < sigs@.len() && #[trigger] repeats(sigs@, j) && p@ == sigs@[j].0@ && forall|
                    k: int,
                | 0 <= k < j ==> !repeats(sigs@, k),
            r matches Err(PatternError::Invalid(_)) ==> distinct_patterns(sigs@),
    {
        if let Some(j) = first_repeated(&sigs) {
            assert(repeats(sigs@, j as int));
            return Err(PatternError::Duplicate(sigs[j].0.clone()));
        }
        if sigs.len() == 0 {
            let set = empty_set();
            assert(entry_patterns(sigs@) =~= Seq::<Seq<char>>::empty());
            return Ok(Signatures { entries: sigs, set });
        }
        let mut patterns: Vec<String> = Vec::new();
        let mut i: usize = 0;
        while i < sigs.len()
            invariant
                i <= sigs.len(),
                patterns@.len() == i,
                forall|j: int| 0 <= j < i ==> (#[trigger] patterns@[j])@ == sigs@[j].0@,
            decreases sigs.len() - i,
        {
            patterns.push(sigs[i].0.clone());
            i += 1;
        }
        assert(texts(patterns@) =~= entry_patterns(sigs@));
        match compile_set(&patterns) {
            Ok(set) => Ok(Signatures { entries: sigs, set }),
            Err(e) => Err(PatternError::Invalid(e)),
        }
    }

    /// No signatures.
    pub fn empty() -> (r: Self)
        ensures
            r.entries_spec().len() == 0,
    {
        let entries: Vec<(String, Vec<Signature>)> = Vec::new();
        let set = empty_set();
        assert(entry_patterns(entries@) =~= Seq::<Seq<char>>::empty());
        Signatures { entries, set }
    }

    /// The effects of the entries at the positions `matched`, in that order;
    /// nothing where `matched` is empty.
    pub fn collect(&self, matched: &Vec<usize>) -> (r: Option<Vec<Signature>>)
        requires
            forall|j: int| 0 <= j < matched.len() ==> (#[trigger] matched@[j]) < self.entries_spec().len(),
        ensures
            match r {
                None => matched.len() == 0,
                Some(v) => matched.len() > 0 && same_effects(
                    v@,
                    effects_at(self.entries_spec(), matched@),
                ),
            },
    {
        if matched.len() == 0 {
            return None;
        }
        let mut out: Vec<Signature> = Vec::new();
        let mut j: usize = 0;
        while j < matched.len()
            invariant
                j <= matched.len(),
                forall|k: int|
                    0 <= k < matched.len() ==> (#[trigger] matched@[k]) < self.entries@.len(),
                same_effects(out@, effects_at(self.entries@, matched@.subrange(0, j as int))),
            decreases matched.len() - j,
        {
            let ghost before = out@;
            let ghost prefix = matched@.subrange(0, j as int);
            let mut more = clone_effects(&self.entries[matched[j]].1);
            let ghost added = more@;
            out.append(&mut more);
            proof {
                let next = matched@.subrange(0, j + 1);
                assert(next.drop_last() =~= prefix);
                assert(next.last() == matched@[j as int]);
                assert(out@ == before + added);
                let want = effects_at(self.entries@, prefix) + self.entries@[matched@[j as int] as int].1@;
                assert(effects_at(self.entries@, next) == want);
                assert forall|k: int| 0 <= k < out@.len() implies (#[trigger] out@[k]).same(
                    want[k],
                ) by {
                    if k < before.len() {
                        assert(before[k].same(effects_at(self.entries@, prefix)[k]));
                    } else {
                        assert(added[k - before.len()].same(
                            self.entries@[matched@[j as int] as int].1@[k - before.len()],
                        ));
                    }
                }
            }
            j += 1;
        }
        assert(matched@.subrange(0, j as int) =~= matched@);
        Some(out)
    }

    /// What the signatures say of a function called `func`.
    pub fn signatures_for(&self, func: &str) -> (r: Option<Vec<Signature>>)
        ensures
            self.describes(func@, r),
            distinct_patterns(self.entries_spec()),
    {
        proof {
            use_type_invariant(self);
        }
        let matched = set_matches(&self.set, func);
        let r = self.collect(&matched);
        assert(lists_matches(entry_patterns(self.entries_spec()), func@, matched@));
        r
    }

    /// Whether a pattern matches the name `func`.
    pub fn has_signatures_for(&self, func: &str) -> (r: bool)
        ensures
            r == exists|i: int|
                0 <= i < self.entries_spec().len() && pattern_matches(
                    #[trigger] entry_patterns(self.entries_spec())[i],
                    func@,
                ),
    {
        proof {
            use_type_invariant(self);
        }
        let matched = set_matches(&self.set, func);
        let n = self.entries.len();
        proof {
            let ps = entry_patterns(self.entries_spec());
            assert(ps.len() == n);
            if matched@.len() > 0 {
                assert(matched@.contains(matched@[0]));
                assert(pattern_matches(ps[matched@[0] as int], func@));
            } else {
                assert forall|i: int| 0 <= i < ps.len() implies !pattern_matches(
                    #[trigger] ps[i],
                    func@,
                ) by {
                    let u = i as usize;
                    assert(u < set_patterns(self.set).len());
                    assert(!matched@.contains(u));
                    assert(set_patterns(self.set)[u as int] == ps[i]);
                }
            }
        }
        matched.len() > 0
    }
}

impl Default for Signatures {
    fn default() -> (r: Self)
        ensures
            r.entries_spec().len() == 0,
    {
        Signatures::empty()
    }
}

} // verus!
