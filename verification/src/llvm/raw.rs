//! A module as its reader hands it over: names are still text, and an
//! operand names the local it reads by its label.

use crate::llvm::{Label, Type};
use vstd::prelude::*;

verus! {

/// A constant of the module's text.
#[derive(Debug)]
pub enum RawConstant {
    GlobalReference { name: String },
    Int { bits: u32, value: u64 },
    Null,
    // Expressions
    Add,
    Sub,
    Mul,
    UDiv,
    SDiv,
    URem,
    SRem,
    And,
    Or,
    Xor,
    Shl,
    LShr,
    AShr,
    FAdd,
    FSub,
    FMul,
    FDiv,
    FRem,
    ExtractElement,
    InsertElement,
    ShuffleVector,
    ExtractValue,
    InsertValue,
    Trunc,
    ZExt,
    SExt,
    FPTrunc,
    FPExt,
    FPToUI,
    FPToSI,
    UIToFP,
    SIToFP,
    AddrSpaceCast,
    ICmp,
    FCmp,
    Select,
    GetElementPtr { address: Box<RawConstant> },
    PtrToInt { operand: Box<RawConstant> },
    IntToPtr { operand: Box<RawConstant> },
    BitCast { operand: Box<RawConstant> },
    //
    Array { elements: RawConstantList },
    Struct { values: RawConstantList },
    Undef,
    //
    Other,
}

/// The elements of an aggregate constant, in order.
#[derive(Debug)]
pub enum RawConstantList {
    Nil,
    Cons(Box<RawConstant>, Box<RawConstantList>),
}

/// An operand of the module's text.
#[derive(Debug)]
pub enum RawOperand {
    Local { name: Label },
    Constant(RawConstant),
    Metadata,
}

/// What a call or invoke of the module's text calls.
#[derive(Debug)]
pub enum RawCallee {
    Asm,
    Operand(RawOperand),
}

/// What an instruction of the module's text does.
#[derive(Debug)]
pub enum RawOpcode {
    Add { operand0: RawOperand, operand1: RawOperand },
    Alloca { num_elements: RawOperand },
    BitCast { operand: RawOperand },
    Call { function: RawCallee, arguments: Vec<RawOperand> },
    GetElementPtr { address: RawOperand },
    ICmp { operand0: RawOperand, operand1: RawOperand },
    IntToPtr { operand: RawOperand },
    Load { address: RawOperand },
    Phi { incoming_values: Vec<RawOperand> },
    PtrToInt { operand: RawOperand },
    Select { true_value: RawOperand, false_value: RawOperand },
    Store { address: RawOperand, value: RawOperand },
    Sub { operand0: RawOperand, operand1: RawOperand },
    Other,
}

/// An instruction of the module's text: the label of its result, if it has
/// one, what it does, and the type of the result.
#[derive(Debug)]
pub struct RawInstruction {
    pub result: Option<Label>,
    pub opcode: RawOpcode,
    pub ty: Type,
}

/// What a terminator of the module's text does.
#[derive(Debug)]
pub enum RawTerminatorOpcode {
    Invoke { function: RawCallee, arguments: Vec<RawOperand> },
    Ret { return_operand: Option<RawOperand> },
    Other,
}

#[derive(Debug)]
pub struct RawTerminator {
    pub result: Option<Label>,
    pub opcode: RawTerminatorOpcode,
    pub ty: Type,
}

#[derive(Debug)]
pub struct RawBlock {
    pub name: Label,
    pub instrs: Vec<RawInstruction>,
    pub term: RawTerminator,
}

#[derive(Debug)]
pub struct RawParameter {
    pub name: Label,
    pub ty: Type,
}

#[derive(Debug)]
pub struct RawFunction {
    pub name: String,
    pub parameters: Vec<RawParameter>,
    pub basic_blocks: Vec<RawBlock>,
    pub return_type: Type,
}

#[derive(Debug)]
pub struct RawDeclaration {
    pub name: String,
    pub parameters: Vec<Type>,
    pub return_type: Type,
}

#[derive(Debug)]
pub struct RawGlobal {
    pub name: String,
    pub initializer: Option<RawConstant>,
    pub is_constant: bool,
    pub ty: Type,
}

#[derive(Debug)]
pub struct RawAlias {
    pub name: String,
}

/// A module of text: function definitions, function declarations, global
/// variables and global aliases.
#[derive(Debug)]
pub struct RawModule {
    pub functions: Vec<RawFunction>,
    pub func_declarations: Vec<RawDeclaration>,
    pub global_vars: Vec<RawGlobal>,
    pub global_aliases: Vec<RawAlias>,
}

impl RawConstantList {
    /// The list that holds the constants of `elements` in their order.
    pub fn from_vec(elements: Vec<RawConstant>) -> (r: Self)
        ensures
            r.elements() == elements@,
    {
        let mut rest = elements;
        let ghost all = rest@;
        let mut list = RawConstantList::Nil;
        while rest.len() > 0
            invariant
                rest@ + list.elements() == all,
            decreases rest.len(),
        {
            let ghost before = rest@;
            let ghost tail = list.elements();
            let last = rest.pop().unwrap();
            list = RawConstantList::Cons(Box::new(last), Box::new(list));
            assert(rest@ + list.elements() =~= before + tail);
        }
        assert(list.elements() =~= rest@ + list.elements());
        list
    }

    /// The elements as a sequence.
    pub open spec fn elements(self) -> Seq<RawConstant>
        decreases self,
    {
        match self {
            RawConstantList::Nil => Seq::empty(),
            RawConstantList::Cons(head, tail) => seq![*head] + tail.elements(),
        }
    }
}

} // verus!
