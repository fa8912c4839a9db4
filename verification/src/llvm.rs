//! A model of an LLVM module that is amenable to analysis.

pub mod model;
pub mod constant;
pub mod error;
pub mod instruction;
pub mod name;
pub mod names;
pub mod operand;
pub mod raw;
pub mod terminator;

use crate::llvm::constant::Constant;
use crate::llvm::instruction::Opcode;
use crate::llvm::name::{BlockName, FunctionId, FunctionName, GlobalName, InstructionName};
use crate::llvm::operand::{Callee, Operand};
use crate::llvm::terminator::TerminatorOpcode;
use crate::sequences::lemma_push_contains;
use vstd::prelude::*;

verus! {

/// What the analyses need to know of a type.
#[derive(Clone, Copy, Debug, PartialEq, Eq, Structural, Hash)]
pub enum Type {
    Void,
    Pointer { pointee_is_pointer: bool },
    Other,
}

/// The label that a block or parameter has in the module's text.
#[derive(Debug)]
pub enum Label {
    Name(String),
    Number(usize),
}

#[derive(Debug)]
pub struct Instruction {
    pub name: InstructionName,
    pub opcode: Opcode,
    pub ty: Type,
}

#[derive(Debug)]
pub struct Terminator {
    pub name: InstructionName,
    pub opcode: TerminatorOpcode,
    pub ty: Type,
}

#[derive(Debug)]
pub struct Block {
    pub name: BlockName,
    pub label: Label,
    pub instrs: Vec<Instruction>,
    pub terminator: Terminator,
}

/// A function definition.
#[derive(Debug)]
pub struct Function {
    pub name: FunctionName,
    pub parameters: Vec<Operand>,
    pub parameter_labels: Vec<Label>,
    pub blocks: Vec<Block>,
    pub return_type: Type,
}

/// A function declaration.
#[derive(Debug)]
pub struct Decl {
    pub name: FunctionName,
    pub parameters: Vec<Type>,
    pub return_type: Type,
}

/// A global variable.
#[derive(Debug)]
pub struct Global {
    pub name: GlobalName,
    pub initializer: Option<Constant>,
    pub is_const: bool,
    pub ty: Type,
}

/// A module: its function definitions, function declarations, global
/// variables and global aliases.
#[derive(Debug)]
pub struct Module {
    pub functions: Vec<Function>,
    pub decls: Vec<Decl>,
    pub globals: Vec<Global>,
    pub aliases: Vec<GlobalName>,
}

/// What a label reads.
pub ghost enum LabelView {
    Name(Seq<char>),
    Number(usize),
}

impl View for Label {
    type V = LabelView;

    open spec fn view(&self) -> LabelView {
        match *self {
            Label::Name(s) => LabelView::Name(s@),
            Label::Number(n) => LabelView::Number(n),
        }
    }
}

/// The text of a label: a percent sign, then the name or the number.
pub open spec fn label_text(l: LabelView) -> Seq<char> {
    match l {
        LabelView::Name(s) => "%"@ + s,
        LabelView::Number(n) => "%"@ + crate::text::decimal_text(n as nat),
    }
}

impl Label {
    /// The text of the label.
    pub fn text(&self) -> (r: String)
        ensures
            r@ == label_text(self@),
    {
        match self {
            Label::Name(s) => crate::text::joined("%", s.as_str()),
            Label::Number(n) => {
                let d = crate::text::decimal(*n as u64);
                crate::text::joined("%", d.as_str())
            },
        }
    }

    /// Whether two labels read the same.
    pub open spec fn same(self, o: Label) -> bool {
        self@ == o@
    }

    pub fn equals(&self, o: &Label) -> (r: bool)
        ensures
            r == self.same(*o),
    {
        match (self, o) {
            (Label::Name(a), Label::Name(b)) => *a == *b,
            (Label::Number(a), Label::Number(b)) => *a == *b,
            _ => false,
        }
    }

    pub fn clone(&self) -> (r: Self)
        ensures
            r.same(*self),
    {
        match self {
            Label::Name(a) => Label::Name(a.clone()),
            Label::Number(a) => Label::Number(*a),
        }
    }
}

impl Type {
    pub open spec fn is_pointer(self) -> bool {
        self is Pointer
    }
}

impl Decl {
    /// Whether the return type or a parameter type is a pointer.
    pub open spec fn has_pointer_spec(self) -> bool {
        self.return_type.is_pointer() || exists|i: int|
            0 <= i < self.parameters.len() && (#[trigger] self.parameters@[i]).is_pointer()
    }

    pub fn has_pointer(&self) -> (r: bool)
        ensures
            r == self.has_pointer_spec(),
    {
        if let Type::Pointer { .. } = self.return_type {
            return true;
        }
        let mut i: usize = 0;
        while i < self.parameters.len()
            invariant
                i <= self.parameters.len(),
                !self.return_type.is_pointer(),
                forall|j: int| 0 <= j < i ==> !(#[trigger] self.parameters@[j]).is_pointer(),
            decreases self.parameters.len() - i,
        {
            if let Type::Pointer { .. } = self.parameters[i] {
                return true;
            }
            i += 1;
        }
        false
    }
}

impl Global {
    /// The size in bytes, where it is known: eight for a global that holds a
    /// pointer.
    pub open spec fn size_spec(self) -> Option<u64> {
        match self.ty {
            Type::Pointer { pointee_is_pointer } => if pointee_is_pointer {
                Some(8u64)
            } else {
                None
            },
            _ => None,
        }
    }

    pub fn size(&self) -> (r: Option<u64>)
        ensures
            r == self.size_spec(),
    {
        if let Type::Pointer { pointee_is_pointer } = self.ty {
            if pointee_is_pointer {
                Some(8)
            } else {
                None
            }
        } else {
            None
        }
    }
}

impl Block {
    /// Whether `idx` is the position of an instruction of the block.
    pub open spec fn is_instruction(self, idx: usize) -> bool {
        idx < self.instrs.len()
    }

    /// Whether `idx` is the position that stands for the block's terminator.
    pub open spec fn is_terminator(self, idx: usize) -> bool {
        idx == self.instrs.len() + 1
    }

    /// The operands of the instruction or terminator at `idx`.
    pub open spec fn operands_at(self, idx: usize) -> Seq<Operand> {
        if self.is_instruction(idx) {
            self.instrs@[idx as int].opcode.operands_spec()
        } else if self.is_terminator(idx) {
            self.terminator.opcode.operands_spec()
        } else {
            Seq::empty()
        }
    }

    /// The callee of the call or invoke at `idx`.
    pub open spec fn callee_at(self, idx: usize) -> Option<Callee> {
        if self.is_instruction(idx) {
            match self.instrs@[idx as int].opcode {
                Opcode::Call(c) => Some(c.callee),
                _ => None,
            }
        } else if self.is_terminator(idx) {
            match self.terminator.opcode {
                TerminatorOpcode::Invoke(c) => Some(c.callee),
                _ => None,
            }
        } else {
            None
        }
    }

    /// The arguments of the call or invoke at `idx`.
    pub open spec fn args_at(self, idx: usize) -> Seq<Operand> {
        if self.is_instruction(idx) {
            match self.instrs@[idx as int].opcode {
                Opcode::Call(c) => c.args@,
                _ => Seq::empty(),
            }
        } else if self.is_terminator(idx) {
            match self.terminator.opcode {
                TerminatorOpcode::Invoke(c) => c.args@,
                _ => Seq::empty(),
            }
        } else {
            Seq::empty()
        }
    }
}

impl Module {
    pub open spec fn is_definition(self, f: FunctionId) -> bool {
        f < self.functions.len()
    }

    pub open spec fn is_declaration(self, f: FunctionId) -> bool {
        self.functions.len() <= f < self.functions.len() + self.decls.len()
    }

    pub open spec fn is_function(self, f: FunctionId) -> bool {
        f < self.functions.len() + self.decls.len()
    }

    /// The declaration that `f` stands for.
    pub open spec fn decl(self, f: FunctionId) -> Decl {
        self.decls@[f - self.functions.len()]
    }

    pub open spec fn function_name(self, f: FunctionId) -> Seq<char> {
        if self.is_definition(f) {
            self.functions@[f as int].name@
        } else {
            self.decl(f).name@
        }
    }

    /// The number of parameters of a function.
    pub open spec fn arity(self, f: FunctionId) -> nat {
        if self.is_definition(f) {
            self.functions@[f as int].parameters.len() as nat
        } else {
            self.decl(f).parameters.len() as nat
        }
    }

    pub open spec fn is_block(self, f: FunctionId, b: usize) -> bool {
        self.is_definition(f) && b < self.functions@[f as int].blocks.len()
    }

    pub open spec fn block(self, f: FunctionId, b: usize) -> Block {
        self.functions@[f as int].blocks@[b as int]
    }

    /// Whether `s` names an instruction of the module.
    pub open spec fn is_instruction(self, s: InstructionName) -> bool {
        self.is_block(s.parent_function, s.parent_block) && self.block(
            s.parent_function,
            s.parent_block,
        ).is_instruction(s.idx)
    }

    /// Whether `s` names a terminator of the module.
    pub open spec fn is_terminator(self, s: InstructionName) -> bool {
        self.is_block(s.parent_function, s.parent_block) && self.block(
            s.parent_function,
            s.parent_block,
        ).is_terminator(s.idx)
    }

    /// Whether `s` names an instruction or a terminator of the module.
    pub open spec fn is_site(self, s: InstructionName) -> bool {
        self.is_instruction(s) || self.is_terminator(s)
    }

    /// The opcode of the instruction `s`.
    pub open spec fn opcode(self, s: InstructionName) -> Opcode {
        self.block(s.parent_function, s.parent_block).instrs@[s.idx as int].opcode
    }

    /// The type of the result of the instruction `s`.
    pub open spec fn instruction_type(self, s: InstructionName) -> Type {
        self.block(s.parent_function, s.parent_block).instrs@[s.idx as int].ty
    }

    /// The opcode of the terminator `s`.
    pub open spec fn terminator(self, s: InstructionName) -> TerminatorOpcode {
        self.block(s.parent_function, s.parent_block).terminator.opcode
    }

    /// The operands of the instruction or terminator `s`.
    pub open spec fn operands(self, s: InstructionName) -> Seq<Operand> {
        if self.is_site(s) {
            self.block(s.parent_function, s.parent_block).operands_at(s.idx)
        } else {
            Seq::empty()
        }
    }

    /// The callee of `s`, where `s` is a call or an invoke.
    pub open spec fn callee(self, s: InstructionName) -> Option<Callee> {
        if self.is_site(s) {
            self.block(s.parent_function, s.parent_block).callee_at(s.idx)
        } else {
            None
        }
    }

    /// The arguments of `s`, where `s` is a call or an invoke.
    pub open spec fn args(self, s: InstructionName) -> Seq<Operand> {
        if self.is_site(s) {
            self.block(s.parent_function, s.parent_block).args_at(s.idx)
        } else {
            Seq::empty()
        }
    }

    pub fn name_of(&self, f: FunctionId) -> (r: &str)
        requires
            self.is_function(f),
        ensures
            r@ == self.function_name(f),
    {
        if f < self.functions.len() {
            self.functions[f].name.get()
        } else {
            self.decls[f - self.functions.len()].name.get()
        }
    }

    pub fn arity_of(&self, f: FunctionId) -> (r: usize)
        requires
            self.is_function(f),
        ensures
            r == self.arity(f),
    {
        if f < self.functions.len() {
            self.functions[f].parameters.len()
        } else {
            self.decls[f - self.functions.len()].parameters.len()
        }
    }

    pub fn has_function(&self, f: FunctionId) -> (r: bool)
        ensures
            r == self.is_function(f),
    {
        f < self.functions.len() || f - self.functions.len() < self.decls.len()
    }

    /// The callee and the arguments of `s`, where `s` is a call or an invoke.
    pub fn call_at(&self, s: InstructionName) -> (r: Option<(&Callee, &Vec<Operand>)>)
        ensures
            match r {
                Some((callee, args)) => self.callee(s) == Some(*callee) && self.args(s) == args@,
                None => self.callee(s) is None,
            },
    {
        if !self.has_site(s) {
            return None;
        }
        let block = &self.functions[s.parent_function].blocks[s.parent_block];
        if s.idx < block.instrs.len() {
            match &block.instrs[s.idx].opcode {
                Opcode::Call(c) => Some((&c.callee, &c.args)),
                _ => None,
            }
        } else {
            match &block.terminator.opcode {
                TerminatorOpcode::Invoke(c) => Some((&c.callee, &c.args)),
                _ => None,
            }
        }
    }

    /// The operands of the instruction or terminator `s`.
    pub fn operands_at(&self, s: InstructionName) -> (r: Vec<Operand>)
        ensures
            r@ == self.operands(s),
    {
        if !self.has_site(s) {
            return Vec::new();
        }
        let block = &self.functions[s.parent_function].blocks[s.parent_block];
        if s.idx < block.instrs.len() {
            block.instrs[s.idx].opcode.operands()
        } else {
            block.terminator.opcode.operands()
        }
    }

    pub fn has_site(&self, s: InstructionName) -> (r: bool)
        ensures
            r == self.is_site(s),
    {
        if s.parent_function < self.functions.len() {
            let f = &self.functions[s.parent_function];
            if s.parent_block < f.blocks.len() {
                let n = f.blocks[s.parent_block].instrs.len();
                s.idx < n || (s.idx >= 1 && s.idx - 1 == n)
            } else {
                false
            }
        } else {
            false
        }
    }

    pub fn has_instruction(&self, s: InstructionName) -> (r: bool)
        ensures
            r == self.is_instruction(s),
    {
        if s.parent_function < self.functions.len() {
            let f = &self.functions[s.parent_function];
            s.parent_block < f.blocks.len() && s.idx < f.blocks[s.parent_block].instrs.len()
        } else {
            false
        }
    }

    pub fn opcode_of(&self, s: InstructionName) -> (r: &Opcode)
        requires
            self.is_instruction(s),
        ensures
            *r == self.opcode(s),
    {
        &self.functions[s.parent_function].blocks[s.parent_block].instrs[s.idx].opcode
    }

    pub fn type_of(&self, s: InstructionName) -> (r: Type)
        requires
            self.is_instruction(s),
        ensures
            r == self.instruction_type(s),
    {
        self.functions[s.parent_function].blocks[s.parent_block].instrs[s.idx].ty
    }

    pub fn terminator_of(&self, s: InstructionName) -> (r: &TerminatorOpcode)
        requires
            self.is_block(s.parent_function, s.parent_block),
        ensures
            *r == self.terminator(s),
    {
        &self.functions[s.parent_function].blocks[s.parent_block].terminator.opcode
    }

    /// The instructions and terminators of one block.
    fn block_sites(&self, f: usize, b: usize, out: &mut Vec<InstructionName>)
        requires
            self.is_block(f, b),
        ensures
            forall|s: InstructionName|
                #![trigger final(out)@.contains(s)]
                final(out)@.contains(s) <==> old(out)@.contains(s) || (s.parent_function == f
                    && s.parent_block == b && self.is_site(s)),
    {
        let n = self.functions[f].blocks[b].instrs.len();
        let mut i: usize = 0;
        while i < n
            invariant
                i <= n,
                n == self.block(f, b).instrs.len(),
                self.is_block(f, b),
                forall|s: InstructionName|
                    #![trigger out@.contains(s)]
                    out@.contains(s) <==> old(out)@.contains(s) || (s.parent_function == f
                        && s.parent_block == b && s.idx < i),
            decreases n - i,
        {
            let ghost before = out@;
            let name = InstructionName::new(f, b, i);
            out.push(name);
            assert forall|s: InstructionName| #![trigger out@.contains(s)]
                out@.contains(s) <==> old(out)@.contains(s) || (s.parent_function == f
                    && s.parent_block == b && s.idx < i + 1) by {
                lemma_push_contains(before, name, s);
                assert(before.contains(s) <==> old(out)@.contains(s) || (s.parent_function == f
                    && s.parent_block == b && s.idx < i));
            }
            i += 1;
        }
        let ghost mid = out@;
        if n < usize::MAX {
            let name = InstructionName::new(f, b, n + 1);
            out.push(name);
            assert forall|s: InstructionName| #![trigger out@.contains(s)]
                out@.contains(s) <==> old(out)@.contains(s) || (s.parent_function == f
                    && s.parent_block == b && self.is_site(s)) by {
                lemma_push_contains(mid, name, s);
                assert(mid.contains(s) <==> old(out)@.contains(s) || (s.parent_function == f
                    && s.parent_block == b && s.idx < n));
            }
        } else {
            assert forall|s: InstructionName| #![trigger out@.contains(s)]
                out@.contains(s) <==> old(out)@.contains(s) || (s.parent_function == f
                    && s.parent_block == b && self.is_site(s)) by {
                assert(s.idx <= usize::MAX);
                assert(mid.contains(s) <==> old(out)@.contains(s) || (s.parent_function == f
                    && s.parent_block == b && s.idx < n));
            }
        }
    }

    /// The instructions and terminators of one function.
    fn function_sites(&self, f: usize, out: &mut Vec<InstructionName>)
        requires
            self.is_definition(f),
        ensures
            forall|s: InstructionName|
                #![trigger final(out)@.contains(s)]
                final(out)@.contains(s) <==> old(out)@.contains(s) || (s.parent_function == f
                    && self.is_site(s)),
    {
        let n = self.functions[f].blocks.len();
        let mut b: usize = 0;
        while b < n
            invariant
                b <= n,
                n == self.functions@[f as int].blocks.len(),
                self.is_definition(f),
                forall|s: InstructionName|
                    #![trigger out@.contains(s)]
                    out@.contains(s) <==> old(out)@.contains(s) || (s.parent_function == f
                        && s.parent_block < b && self.is_site(s)),
            decreases n - b,
        {
            let ghost mid = out@;
            self.block_sites(f, b, out);
            assert forall|s: InstructionName| #![trigger out@.contains(s)]
                out@.contains(s) <==> old(out)@.contains(s) || (s.parent_function == f
                    && s.parent_block < b + 1 && self.is_site(s)) by {
                assert(mid.contains(s) <==> old(out)@.contains(s) || (s.parent_function == f
                    && s.parent_block < b && self.is_site(s)));
            }
            b += 1;
        }
    }

    /// Every instruction and terminator of the module, once.
    pub fn sites(&self) -> (r: Vec<InstructionName>)
        ensures
            forall|s: InstructionName| #![trigger r@.contains(s)] r@.contains(s) <==> self.is_site(s),
    {
        let mut out: Vec<InstructionName> = Vec::new();
        let n = self.functions.len();
        let mut f: usize = 0;
        while f < n
            invariant
                f <= n,
                n == self.functions.len(),
                forall|s: InstructionName|
                    #![trigger out@.contains(s)]
                    out@.contains(s) <==> (s.parent_function < f && self.is_site(s)),
            decreases n - f,
        {
            let ghost mid = out@;
            self.function_sites(f, &mut out);
            assert forall|s: InstructionName| #![trigger out@.contains(s)]
                out@.contains(s) <==> (s.parent_function < f + 1 && self.is_site(s)) by {
                assert(mid.contains(s) <==> (s.parent_function < f && self.is_site(s)));
            }
            f += 1;
        }
        out
    }
}

} // verus!
