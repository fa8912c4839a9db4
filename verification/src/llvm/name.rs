//! Names of the syntactic elements of a module.
//!
//! Functions, global variables, blocks, instructions and parameters are
//! identified by their position in the module, so that two names are equal
//! exactly when they denote the same element.

use vstd::prelude::*;

verus! {

/// The name of a global variable or alias, without the leading `@`.
#[derive(Debug)]
pub struct GlobalName(pub String);

impl View for GlobalName {
    type V = Seq<char>;

    open spec fn view(&self) -> Seq<char> {
        self.0@
    }
}

impl GlobalName {
    pub fn from_string(s: String) -> (r: Self)
        ensures
            r@ == s@,
    {
        GlobalName(s)
    }

    pub fn from_str(s: &str) -> (r: Self)
        ensures
            r@ == s@,
    {
        GlobalName(s.to_owned())
    }

    pub fn get(&self) -> (r: &str)
        ensures
            r@ == self@,
    {
        self.0.as_str()
    }
}

/// The name of a function, defined or declared, without the leading `@`.
#[derive(Debug)]
pub struct FunctionName(pub String);

impl View for FunctionName {
    type V = Seq<char>;

    open spec fn view(&self) -> Seq<char> {
        self.0@
    }
}

impl FunctionName {
    pub fn from_string(s: String) -> (r: Self)
        ensures
            r@ == s@,
    {
        FunctionName(s)
    }

    pub fn from_str(s: &str) -> (r: Self)
        ensures
            r@ == s@,
    {
        FunctionName(s.to_owned())
    }

    pub fn get(&self) -> (r: &str)
        ensures
            r@ == self@,
    {
        self.0.as_str()
    }

    /// Whether `s` occurs in the name.
    pub fn contains(&self, s: &str) -> (r: bool)
        ensures
            r == crate::text::occurs_in(s@, self@),
    {
        crate::text::contains(self.0.as_str(), s)
    }

    /// Whether the name starts with `s`.
    pub fn starts_with(&self, s: &str) -> (r: bool)
        ensures
            r == crate::text::is_prefix(s@, self@),
    {
        crate::text::starts_with(self.0.as_str(), s)
    }
}

/// A function of a module: a definition when the index is below the number
/// of definitions, otherwise the declaration at the index less that number.
pub type FunctionId = usize;

/// A named global of a module: a variable when the index is below the number
/// of variables, otherwise the alias at the index less that number.
pub type GlobalId = usize;

/// A basic block: the defining function and the block's position in it.
#[derive(Clone, Copy, Debug, PartialEq, Eq, Structural, Hash)]
pub struct BlockName {
    pub parent_function: FunctionId,
    pub index: usize,
}

impl BlockName {
    pub fn new(parent_function: FunctionId, index: usize) -> (r: Self)
        ensures
            r == (BlockName { parent_function, index }),
    {
        BlockName { parent_function, index }
    }
}

/// An instruction or terminator: the defining function, the block's position
/// in it and the position in the block. A terminator has the position one
/// past the number of the block's instructions plus one.
#[derive(Clone, Copy, Debug, PartialEq, Eq, Structural, Hash)]
pub struct InstructionName {
    pub parent_function: FunctionId,
    pub parent_block: usize,
    pub idx: usize,
}

impl InstructionName {
    pub fn new(parent_function: FunctionId, parent_block: usize, idx: usize) -> (r: Self)
        ensures
            r == (InstructionName { parent_function, parent_block, idx }),
    {
        InstructionName { parent_function, parent_block, idx }
    }

    /// The block that holds the instruction.
    pub fn block(&self) -> (r: BlockName)
        ensures
            r == (BlockName { parent_function: self.parent_function, index: self.parent_block }),
    {
        BlockName { parent_function: self.parent_function, index: self.parent_block }
    }
}

/// A parameter: the defining function and the parameter's position.
#[derive(Clone, Copy, Debug, PartialEq, Eq, Structural, Hash)]
pub struct ParameterName {
    pub parent_function: FunctionId,
    pub index: usize,
}

impl ParameterName {
    pub fn new(parent_function: FunctionId, index: usize) -> (r: Self)
        ensures
            r == (ParameterName { parent_function, index }),
    {
        ParameterName { parent_function, index }
    }
}

/// A local value of a function.
#[derive(Clone, Copy, Debug, PartialEq, Eq, Structural, Hash)]
pub enum LocalName {
    Parameter(ParameterName),
    Instruction(InstructionName),
}

} // verus!
