//! Operands of instructions.

use crate::llvm::constant::{created, is_result, Constant};
use crate::llvm::error::Error;
use crate::llvm::names::GlobalNames;
use crate::llvm::raw::RawOperand;
use crate::llvm::{label_text, Label, LabelView};
use crate::llvm::name::{InstructionName, LocalName};
use vstd::prelude::*;

verus! {

/// An operand of an instruction or terminator.
#[derive(Debug)]
pub enum Operand {
    Constant(Constant),
    Local(LocalName),
    Metadata,
}

impl Operand {
    /// The operand that stands for the result of the instruction `i`.
    pub open spec fn of_instruction(i: InstructionName) -> Operand {
        Operand::Local(LocalName::Instruction(i))
    }

    /// The value of an operand that is a constant integer.
    pub open spec fn constant_int_spec(self) -> Option<u64> {
        match self {
            Operand::Constant(Constant::Int { bits, value }) => Some(value),
            _ => None,
        }
    }

    pub fn constant_int(&self) -> (r: Option<u64>)
        ensures
            r == self.constant_int_spec(),
    {
        if let Operand::Constant(c) = self {
            if let Constant::Int { value, .. } = c {
                Some(*value)
            } else {
                None
            }
        } else {
            None
        }
    }

    pub fn clone(&self) -> (r: Self)
        ensures
            r == *self,
    {
        match self {
            Operand::Constant(c) => Operand::Constant(c.clone()),
            Operand::Local(l) => Operand::Local(*l),
            Operand::Metadata => Operand::Metadata,
        }
    }

    pub fn equals(&self, other: &Self) -> (r: bool)
        ensures
            r == (*self == *other),
    {
        match (self, other) {
            (Operand::Constant(a), Operand::Constant(b)) => a.equals(b),
            (Operand::Local(a), Operand::Local(b)) => *a == *b,
            (Operand::Metadata, Operand::Metadata) => true,
            _ => false,
        }
    }
}

/// The copy of a list of operands.
pub fn clone_operands(ops: &Vec<Operand>) -> (r: Vec<Operand>)
    ensures
        r@ == ops@,
{
    let mut out: Vec<Operand> = Vec::new();
    let mut i: usize = 0;
    while i < ops.len()
        invariant
            i <= ops.len(),
            out@ == ops@.subrange(0, i as int),
        decreases ops.len() - i,
    {
        out.push(ops[i].clone());
        assert(out@ =~= ops@.subrange(0, i + 1));
        i += 1;
    }
    assert(out@ =~= ops@);
    out
}

/// What a call or invoke calls.
#[derive(Debug)]
pub enum Callee {
    Operand(Operand),
    Asm,
}

/// The operand of an instruction's result.
#[derive(Clone, Copy, Debug, PartialEq, Eq, Structural, Hash)]
pub struct InstructionOperand(pub InstructionName);

impl InstructionOperand {
    pub fn new(i: InstructionName) -> (r: Self)
        ensures
            r.0 == i,
    {
        InstructionOperand(i)
    }

    pub fn instruction_name(&self) -> (r: InstructionName)
        ensures
            r == self.0,
    {
        self.0
    }

    pub fn operand(&self) -> (r: Operand)
        ensures
            r == Operand::of_instruction(self.0),
    {
        Operand::Local(LocalName::Instruction(self.0))
    }

    pub fn into_operand(self) -> (r: Operand)
        ensures
            r == Operand::of_instruction(self.0),
    {
        Operand::Local(LocalName::Instruction(self.0))
    }
}

/// For each label of a local of a function, the operand that stands for
/// it. Where a label occurs twice, the later entry counts.
#[derive(Debug)]
pub struct Locals {
    pub entries: Vec<(Label, Operand)>,
}

/// The operand of the last of the entries with the label.
pub open spec fn lookup_local(entries: Seq<(LabelView, Operand)>, name: LabelView) -> Option<
    Operand,
>
    decreases entries.len(),
{
    if entries.len() == 0 {
        None
    } else if entries.last().0 == name {
        Some(entries.last().1)
    } else {
        lookup_local(entries.drop_last(), name)
    }
}

impl View for Locals {
    type V = Seq<(LabelView, Operand)>;

    open spec fn view(&self) -> Seq<(LabelView, Operand)> {
        Seq::new(self.entries.len() as nat, |i: int| (self.entries@[i].0@, self.entries@[i].1))
    }
}

impl Locals {
    pub fn new() -> (r: Self)
        ensures
            r@ == Seq::<(LabelView, Operand)>::empty(),
    {
        let r = Locals { entries: Vec::new() };
        assert(r@ =~= Seq::<(LabelView, Operand)>::empty());
        r
    }

    /// Adds an entry.
    pub fn insert(&mut self, name: &Label, operand: Operand)
        ensures
            final(self)@ == old(self)@.push((name@, operand)),
    {
        self.entries.push((name.clone(), operand));
        assert(self@ =~= old(self)@.push((name@, operand)));
    }

    /// The operand that stands for the label.
    pub fn get(&self, name: &Label) -> (r: Option<Operand>)
        ensures
            r == lookup_local(self@, name@),
    {
        let mut i: usize = self.entries.len();
        assert(self@.subrange(0, i as int) =~= self@);
        while i > 0
            invariant
                i <= self.entries.len(),
                lookup_local(self@, name@) == lookup_local(self@.subrange(0, i as int), name@),
            decreases i,
        {
            let ghost prefix = self@.subrange(0, i as int);
            i -= 1;
            assert(prefix.last() == self@[i as int]);
            assert(prefix.drop_last() =~= self@.subrange(0, i as int));
            if self.entries[i].0.equals(name) {
                return Some(self.entries[i].1.clone());
            }
        }
        None
    }
}

/// The operand that an operand of the module's text stands for, or what is
/// wrong with it: a local without a definition, or a constant that refers to
/// a global without one.
pub open spec fn operand_model(
    names: Seq<(Seq<char>, Constant)>,
    locals: Seq<(LabelView, Operand)>,
    op: RawOperand,
) -> Result<Operand, Seq<char>> {
    match op {
        RawOperand::Metadata => Ok(Operand::Metadata),
        RawOperand::Constant(c) => match created(names, c) {
            Ok(x) => Ok(Operand::Constant(x)),
            Err(e) => Err(e),
        },
        RawOperand::Local { name } => match lookup_local(locals, name@) {
            Some(o) => Ok(o),
            None => Err("Bad local: "@ + label_text(name@)),
        },
    }
}

/// The operands that a list of operands of the module's text stands for, or
/// what is wrong with the first with which something is.
pub open spec fn operands_model(
    names: Seq<(Seq<char>, Constant)>,
    locals: Seq<(LabelView, Operand)>,
    ops: Seq<RawOperand>,
) -> Result<Seq<Operand>, Seq<char>>
    decreases ops.len(),
{
    if ops.len() == 0 {
        Ok(Seq::empty())
    } else {
        match operands_model(names, locals, ops.drop_last()) {
            Err(e) => Err(e),
            Ok(v) => match operand_model(names, locals, ops.last()) {
                Err(e) => Err(e),
                Ok(o) => Ok(v.push(o)),
            },
        }
    }
}

/// The model of a list that begins with `x` is that of `x`, then that of
/// the rest.
pub proof fn lemma_operands_model_cons(
    names: Seq<(Seq<char>, Constant)>,
    locals: Seq<(LabelView, Operand)>,
    x: RawOperand,
    rest: Seq<RawOperand>,
)
    ensures
        operands_model(names, locals, seq![x] + rest) == match operand_model(names, locals, x) {
            Err(e) => Err::<Seq<Operand>, Seq<char>>(e),
            Ok(a) => match operands_model(names, locals, rest) {
                Err(e) => Err(e),
                Ok(v) => Ok(seq![a] + v),
            },
        },
    decreases rest.len(),
{
    let all = seq![x] + rest;
    if rest.len() == 0 {
        assert(all.drop_last() =~= Seq::<RawOperand>::empty());
        assert(all.last() == x);
        if let Ok(a) = operand_model(names, locals, x) {
            assert(Seq::<Operand>::empty().push(a) =~= seq![a] + Seq::<Operand>::empty());
        }
    } else {
        assert(all.drop_last() =~= seq![x] + rest.drop_last());
        assert(all.last() == rest.last());
        lemma_operands_model_cons(names, locals, x, rest.drop_last());
        if let Ok(a) = operand_model(names, locals, x) {
            if let Ok(v) = operands_model(names, locals, rest.drop_last()) {
                if let Ok(o) = operand_model(names, locals, rest.last()) {
                    assert((seq![a] + v).push(o) =~= seq![a] + v.push(o));
                }
            }
        }
    }
}

/// The model of a list of one operand.
pub proof fn lemma_operands_model_one(
    names: Seq<(Seq<char>, Constant)>,
    locals: Seq<(LabelView, Operand)>,
    x: RawOperand,
)
    ensures
        operands_model(names, locals, seq![x]) == match operand_model(names, locals, x) {
            Err(e) => Err::<Seq<Operand>, Seq<char>>(e),
            Ok(a) => Ok(seq![a]),
        },
{
    lemma_operands_model_cons(names, locals, x, Seq::empty());
    assert(seq![x] + Seq::<RawOperand>::empty() =~= seq![x]);
    if let Ok(a) = operand_model(names, locals, x) {
        assert(seq![a] + Seq::<Operand>::empty() =~= seq![a]);
    }
}

/// The model of a list of two operands.
pub proof fn lemma_operands_model_two(
    names: Seq<(Seq<char>, Constant)>,
    locals: Seq<(LabelView, Operand)>,
    x: RawOperand,
    y: RawOperand,
)
    ensures
        operands_model(names, locals, seq![x, y]) == match operand_model(names, locals, x) {
            Err(e) => Err::<Seq<Operand>, Seq<char>>(e),
            Ok(a) => match operand_model(names, locals, y) {
                Err(e) => Err(e),
                Ok(b) => Ok(seq![a, b]),
            },
        },
{
    lemma_operands_model_cons(names, locals, x, seq![y]);
    lemma_operands_model_one(names, locals, y);
    assert(seq![x] + seq![y] =~= seq![x, y]);
    if let Ok(a) = operand_model(names, locals, x) {
        if let Ok(b) = operand_model(names, locals, y) {
            assert(seq![a] + seq![b] =~= seq![a, b]);
        }
    }
}

impl Operand {
    /// The operand that an operand of the module's text stands for.
    pub fn create(globals: &GlobalNames, locals: &Locals, op: &RawOperand) -> (r: Result<
        Operand,
        Error,
    >)
        ensures
            is_result(r, operand_model(globals@, locals@, *op)),
    {
        match op {
            RawOperand::Metadata => Ok(Operand::Metadata),
            RawOperand::Constant(c) => match Constant::create(globals, c) {
                Ok(x) => Ok(Operand::Constant(x)),
                Err(e) => Err(e),
            },
            RawOperand::Local { name } => match locals.get(name) {
                Some(o) => Ok(o),
                None => {
                    let t = name.text();
                    Err(Error(crate::text::joined("Bad local: ", t.as_str())))
                },
            },
        }
    }

    /// The operand that an operand of the module's text stands for.
    pub fn new(globals: &GlobalNames, locals: &Locals, op: &RawOperand) -> (r: Result<
        Operand,
        Error,
    >)
        ensures
            is_result(r, operand_model(globals@, locals@, *op)),
    {
        Self::create(globals, locals, op)
    }
}

/// The operands that a list of operands of the module's text stands for.
pub fn create_operands(globals: &GlobalNames, locals: &Locals, ops: &Vec<RawOperand>) -> (r:
    Result<Vec<Operand>, Error>)
    ensures
        match r {
            Ok(v) => operands_model(globals@, locals@, ops@) == Ok::<Seq<Operand>, Seq<char>>(v@),
            Err(e) => operands_model(globals@, locals@, ops@) == Err::<Seq<Operand>, Seq<char>>(
                e@,
            ),
        },
{
    let mut out: Vec<Operand> = Vec::new();
    let mut i: usize = 0;
    assert(ops@.subrange(0, 0) =~= Seq::<RawOperand>::empty());
    while i < ops.len()
        invariant
            i <= ops.len(),
            operands_model(globals@, locals@, ops@.subrange(0, i as int)) == Ok::<
                Seq<Operand>,
                Seq<char>,
            >(out@),
        decreases ops.len() - i,
    {
        proof {
            let next = ops@.subrange(0, i + 1);
            assert(next.drop_last() =~= ops@.subrange(0, i as int));
            assert(next.last() == ops@[i as int]);
        }
        match Operand::create(globals, locals, &ops[i]) {
            Ok(o) => out.push(o),
            Err(e) => {
                proof {
                    lemma_operands_model_error(
                        globals@,
                        locals@,
                        ops@,
                        i + 1,
                        e@,
                    );
                }
                return Err(e);
            },
        }
        i += 1;
    }
    assert(ops@.subrange(0, i as int) =~= ops@);
    Ok(out)
}

/// What is wrong with the first operands of a list is wrong with the list.
pub proof fn lemma_operands_model_error(
    names: Seq<(Seq<char>, Constant)>,
    locals: Seq<(LabelView, Operand)>,
    ops: Seq<RawOperand>,
    n: int,
    e: Seq<char>,
)
    requires
        0 <= n <= ops.len(),
        operands_model(names, locals, ops.subrange(0, n)) == Err::<Seq<Operand>, Seq<char>>(e),
    ensures
        operands_model(names, locals, ops) == Err::<Seq<Operand>, Seq<char>>(e),
    decreases ops.len() - n,
{
    if n < ops.len() {
        let next = ops.subrange(0, n + 1);
        assert(next.drop_last() =~= ops.subrange(0, n));
        lemma_operands_model_error(names, locals, ops, n + 1, e);
    } else {
        assert(ops.subrange(0, n) =~= ops);
    }
}

} // verus!
