//! Terminators, by opcode.

use crate::llvm::constant::Constant;
use crate::llvm::error::Error;
use crate::llvm::instruction::{call_of, create_call, raw_call_operands};
use crate::llvm::names::GlobalNames;
use crate::llvm::operand::{
    clone_operands, lemma_operands_model_one, operands_model, Callee, Locals, Operand,
};
use crate::llvm::raw::{RawCallee, RawOperand, RawTerminatorOpcode};
use crate::llvm::LabelView;
use vstd::prelude::*;

verus! {

#[derive(Debug)]
pub struct Invoke {
    pub callee: Callee,
    pub args: Vec<Operand>,
}

#[derive(Debug)]
pub struct Ret {
    pub operand: Option<Operand>,
}

/// What a terminator does, with the operands that the analyses read.
#[derive(Debug)]
pub enum TerminatorOpcode {
    Invoke(Invoke),
    Ret(Ret),
    Other,
}

impl Invoke {
    /// The arguments, then the callee if it is an operand.
    pub open spec fn operands_spec(self) -> Seq<Operand> {
        match self.callee {
            Callee::Asm => self.args@,
            Callee::Operand(op) => self.args@.push(op),
        }
    }

    pub fn operands(&self) -> (r: Vec<Operand>)
        ensures
            r@ == self.operands_spec(),
    {
        let mut v = clone_operands(&self.args);
        match &self.callee {
            Callee::Operand(o) => v.push(o.clone()),
            Callee::Asm => (),
        };
        v
    }
}

impl Ret {
    pub open spec fn operands_spec(self) -> Seq<Operand> {
        match self.operand {
            Some(o) => seq![o],
            None => Seq::empty(),
        }
    }

    pub fn operands(&self) -> (r: Vec<Operand>)
        ensures
            r@ == self.operands_spec(),
    {
        let r = match &self.operand {
            Some(o) => vec![o.clone()],
            None => Vec::new(),
        };
        assert(r@ =~= self.operands_spec());
        r
    }
}

impl TerminatorOpcode {
    pub open spec fn operands_spec(self) -> Seq<Operand> {
        match self {
            TerminatorOpcode::Invoke(t) => t.operands_spec(),
            TerminatorOpcode::Ret(t) => t.operands_spec(),
            TerminatorOpcode::Other => Seq::empty(),
        }
    }

    pub fn operands(&self) -> (r: Vec<Operand>)
        ensures
            r@ == self.operands_spec(),
    {
        match self {
            TerminatorOpcode::Invoke(t) => t.operands(),
            TerminatorOpcode::Ret(t) => t.operands(),
            TerminatorOpcode::Other => Vec::new(),
        }
    }
}

/// The operands of a terminator of the module's text, in the order in
/// which they are read.
pub open spec fn raw_terminator_operands(raw: RawTerminatorOpcode) -> Seq<RawOperand> {
    match raw {
        RawTerminatorOpcode::Invoke { function, arguments } => raw_call_operands(
            function,
            arguments@,
        ),
        RawTerminatorOpcode::Ret { return_operand } => match return_operand {
            Some(o) => seq![o],
            None => Seq::empty(),
        },
        RawTerminatorOpcode::Other => Seq::empty(),
    }
}

/// Whether `op` is the opcode of the terminator `raw` whose operands stand
/// for the operands `t`.
pub open spec fn terminator_of(raw: RawTerminatorOpcode, t: Seq<Operand>, op: TerminatorOpcode) -> bool {
    match (raw, op) {
        (RawTerminatorOpcode::Invoke { function, arguments }, TerminatorOpcode::Invoke(c)) => call_of(
            function,
            t,
            c.callee,
            c.args@,
        ),
        (RawTerminatorOpcode::Ret { return_operand }, TerminatorOpcode::Ret(x)) => match x.operand {
            Some(o) => t == seq![o],
            None => return_operand is None,
        },
        (RawTerminatorOpcode::Other, TerminatorOpcode::Other) => true,
        _ => false,
    }
}

/// Whether `r` is what the terminator `raw` becomes.
pub open spec fn terminator_result(
    names: Seq<(Seq<char>, Constant)>,
    locals: Seq<(LabelView, Operand)>,
    raw: RawTerminatorOpcode,
    r: Result<TerminatorOpcode, Error>,
) -> bool {
    match operands_model(names, locals, raw_terminator_operands(raw)) {
        Ok(t) => r is Ok && terminator_of(raw, t, r->Ok_0),
        Err(e) => r is Err && r->Err_0@ == e,
    }
}

impl Invoke {
    /// The invoke with the given callee and arguments.
    pub fn from_invoke(
        globals: &GlobalNames,
        locals: &Locals,
        function: &RawCallee,
        arguments: &Vec<RawOperand>,
    ) -> (r: Result<Self, Error>)
        ensures
            match r {
                Ok(v) => operands_model(
                    globals@,
                    locals@,
                    raw_call_operands(*function, arguments@),
                ) is Ok && call_of(
                    *function,
                    operands_model(
                        globals@,
                        locals@,
                        raw_call_operands(*function, arguments@),
                    )->Ok_0,
                    v.callee,
                    v.args@,
                ),
                Err(e) => operands_model(
                    globals@,
                    locals@,
                    raw_call_operands(*function, arguments@),
                ) == Err::<Seq<Operand>, Seq<char>>(e@),
            },
    {
        match create_call(globals, locals, function, arguments) {
            Ok((callee, args)) => Ok(Invoke { callee, args }),
            Err(e) => Err(e),
        }
    }
}

impl Ret {
    /// The return of the given operand, if any.
    pub fn from_ret(globals: &GlobalNames, locals: &Locals, return_operand: &Option<RawOperand>) -> (r:
        Result<Self, Error>)
        ensures
            terminator_result(
                globals@,
                locals@,
                RawTerminatorOpcode::Ret { return_operand: *return_operand },
                match r {
                    Ok(x) => Ok(TerminatorOpcode::Ret(x)),
                    Err(e) => Err(e),
                },
            ),
    {
        match return_operand {
            Some(o) => {
                proof {
                    lemma_operands_model_one(globals@, locals@, *o);
                }
                match Operand::new(globals, locals, o) {
                    Ok(x) => Ok(Ret { operand: Some(x) }),
                    Err(e) => Err(e),
                }
            },
            None => Ok(Ret { operand: None }),
        }
    }
}

impl TerminatorOpcode {
    /// The opcode of a terminator of the module's text.
    pub fn from_terminator(globals: &GlobalNames, locals: &Locals, t: &RawTerminatorOpcode) -> (r:
        Result<Self, Error>)
        ensures
            terminator_result(globals@, locals@, *t, r),
    {
        match t {
            RawTerminatorOpcode::Invoke { function, arguments } => match Invoke::from_invoke(
                globals,
                locals,
                function,
                arguments,
            ) {
                Ok(x) => Ok(TerminatorOpcode::Invoke(x)),
                Err(e) => Err(e),
            },
            RawTerminatorOpcode::Ret { return_operand } => match Ret::from_ret(
                globals,
                locals,
                return_operand,
            ) {
                Ok(x) => Ok(TerminatorOpcode::Ret(x)),
                Err(e) => Err(e),
            },
            RawTerminatorOpcode::Other => Ok(TerminatorOpcode::Other),
        }
    }
}

} // verus!
