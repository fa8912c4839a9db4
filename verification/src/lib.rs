//! Inclusion-based, context-sensitive points-to analysis over a simplified
//! model of an LLVM module, with a supporting callgraph analysis and an
//! integer constant-propagation analysis.
//!
//! A module of text ([`llvm::raw`]) is modelled ([`llvm::Module`]), the rules
//! of an analysis ([`analysis::rules`], [`analysis::values`]) are evaluated
//! to their least fixed point ([`analysis::engine`]), and the relations of
//! the fixed point are handed out ([`analysis::pointer`],
//! [`analysis::integer`]).

pub mod allocation;
pub mod analysis;
pub mod arc;
pub mod cli;
pub mod hash;
pub mod klimited;
pub mod lattice;
pub mod llvm;
pub mod render;
pub mod sequences;
pub mod signatures;
pub mod text;
pub mod union;

pub use allocation::{
    Alloc, Allocations, FunctionAlloc, GlobalAlloc, GlobalKey, HeapAlloc, StackAlloc,
};
pub use analysis::integer::IntRelations;
pub use analysis::pointer::{Metrics, Options, OutputRelations};
pub use analysis::rules::Setup;
pub use arc::cached::Arc;
pub use arc::uarc::UArc;
pub use cli::Check;
pub use hash::prehashed::PreHashed;
pub use klimited::KLimited;
pub use lattice::{ConstValue, Int, IntLattice};
pub use llvm::error::Error;
pub use llvm::name::{
    BlockName, FunctionId, FunctionName, GlobalId, GlobalName, InstructionName, LocalName,
    ParameterName,
};
pub use llvm::operand::{Callee, InstructionOperand, Operand};
pub use llvm::terminator::{Invoke, Ret, TerminatorOpcode};
pub use llvm::{Block, Decl, Function, Global, Instruction, Label, Module, Terminator, Type};
pub use signatures::{AllocType, PatternError, Signature, Signatures};
pub use union::UnionFind;
