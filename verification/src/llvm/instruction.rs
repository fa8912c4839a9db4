//! Instructions, by opcode.

use crate::llvm::constant::Constant;
use crate::llvm::error::Error;
use crate::llvm::names::GlobalNames;
use crate::llvm::operand::{
    clone_operands, create_operands, lemma_operands_model_cons, lemma_operands_model_one,
    lemma_operands_model_two, operands_model, Callee, Locals, Operand,
};
use crate::llvm::raw::{RawCallee, RawOpcode, RawOperand};
use crate::llvm::LabelView;
use vstd::prelude::*;

verus! {

#[derive(Debug)]
pub struct Add {
    pub operand0: Operand,
    pub operand1: Operand,
}

#[derive(Debug)]
pub struct Alloca {
    pub num_elements: Operand,
}

#[derive(Debug)]
pub struct BitCast {
    pub pointer: Operand,
}

#[derive(Debug)]
pub struct Call {
    pub callee: Callee,
    pub args: Vec<Operand>,
}

#[derive(Debug)]
pub struct GetElementPtr {
    pub pointer: Operand,
}

#[derive(Debug)]
pub struct IntToPtr {
    pub int: Operand,
}

#[derive(Debug)]
pub struct Icmp {
    pub operand0: Operand,
    pub operand1: Operand,
}

#[derive(Debug)]
pub struct Load {
    pub pointer: Operand,
}

#[derive(Debug)]
pub struct Phi {
    pub values: Vec<Operand>,
}

#[derive(Debug)]
pub struct PtrToInt {
    pub pointer: Operand,
}

#[derive(Debug)]
pub struct Select {
    pub true_value: Operand,
    pub false_value: Operand,
}

#[derive(Debug)]
pub struct Store {
    pub value: Operand,
    pub pointer: Operand,
}

#[derive(Debug)]
pub struct Sub {
    pub minuend: Operand,
    pub subtrahend: Operand,
}

/// What an instruction does, with the operands that the analyses read.
#[derive(Debug)]
pub enum Opcode {
    Add(Add),
    Alloca(Alloca),
    BitCast(BitCast),
    Call(Call),
    GetElementPtr(GetElementPtr),
    Icmp(Icmp),
    IntToPtr(IntToPtr),
    Load(Load),
    Phi(Phi),
    PtrToInt(PtrToInt),
    Select(Select),
    Store(Store),
    Sub(Sub),
    //
    Other,
}

impl Call {
    /// The callee, if it is an operand, then the arguments.
    pub open spec fn operands_spec(self) -> Seq<Operand> {
        match self.callee {
            Callee::Asm => self.args@,
            Callee::Operand(op) => seq![op] + self.args@,
        }
    }

    pub fn operands(&self) -> (r: Vec<Operand>)
        ensures
            r@ == self.operands_spec(),
    {
        let mut os: Vec<Operand> = Vec::new();
        match &self.callee {
            Callee::Asm => {},
            Callee::Operand(op) => {
                os.push(op.clone());
            },
        }
        let ghost head = os@;
        let mut args = clone_operands(&self.args);
        os.append(&mut args);
        assert(os@ =~= head + self.args@);
        os
    }
}

impl Opcode {
    /// The operands that the analyses read, in the order of the instruction.
    /// An alloca has none.
    pub open spec fn operands_spec(self) -> Seq<Operand> {
        match self {
            Opcode::Add(a) => seq![a.operand0, a.operand1],
            Opcode::Alloca(_) => Seq::empty(),
            Opcode::BitCast(b) => seq![b.pointer],
            Opcode::Call(c) => c.operands_spec(),
            Opcode::GetElementPtr(g) => seq![g.pointer],
            Opcode::Icmp(i) => seq![i.operand0, i.operand1],
            Opcode::IntToPtr(i) => seq![i.int],
            Opcode::Load(l) => seq![l.pointer],
            Opcode::Phi(p) => p.values@,
            Opcode::PtrToInt(p) => seq![p.pointer],
            Opcode::Select(s) => seq![s.true_value, s.false_value],
            Opcode::Store(s) => seq![s.value, s.pointer],
            Opcode::Sub(s) => seq![s.minuend, s.subtrahend],
            Opcode::Other => Seq::empty(),
        }
    }

    pub fn operands(&self) -> (r: Vec<Operand>)
        ensures
            r@ == self.operands_spec(),
    {
        let r = match self {
            Opcode::Add(a) => vec![a.operand0.clone(), a.operand1.clone()],
            Opcode::Alloca(_) => Vec::new(),
            Opcode::BitCast(b) => vec![b.pointer.clone()],
            Opcode::Call(c) => c.operands(),
            Opcode::GetElementPtr(g) => vec![g.pointer.clone()],
            Opcode::Icmp(i) => vec![i.operand0.clone(), i.operand1.clone()],
            Opcode::IntToPtr(i) => vec![i.int.clone()],
            Opcode::Load(l) => vec![l.pointer.clone()],
            Opcode::Phi(p) => clone_operands(&p.values),
            Opcode::PtrToInt(p) => vec![p.pointer.clone()],
            Opcode::Select(s) => vec![s.true_value.clone(), s.false_value.clone()],
            Opcode::Store(s) => vec![s.value.clone(), s.pointer.clone()],
            Opcode::Sub(s) => vec![s.minuend.clone(), s.subtrahend.clone()],
            Opcode::Other => Vec::new(),
        };
        assert(r@ =~= self.operands_spec());
        r
    }
}


impl Add {
    /// The addition of the two operands.
    pub fn from_add(globals: &GlobalNames, locals: &Locals, x: &RawOperand, y: &RawOperand) -> (r:
        Result<Self, Error>)
        ensures
            match r {
                Ok(v) => operands_model(globals@, locals@, seq![*x, *y]) == Ok::<
                    Seq<Operand>,
                    Seq<char>,
                >(seq![v.operand0, v.operand1]),
                Err(e) => operands_model(globals@, locals@, seq![*x, *y]) == Err::<
                    Seq<Operand>,
                    Seq<char>,
                >(e@),
            },
    {
        proof {
            lemma_operands_model_two(globals@, locals@, *x, *y);
        }
        let a = match Operand::new(globals, locals, x) {
            Ok(a) => a,
            Err(e) => {
                return Err(e);
            },
        };
        let b = match Operand::new(globals, locals, y) {
            Ok(b) => b,
            Err(e) => {
                return Err(e);
            },
        };
        Ok(Add { operand0: a, operand1: b })
    }
}

impl Alloca {
    /// The allocation of the given number of elements.
    pub fn from_alloca(globals: &GlobalNames, locals: &Locals, x: &RawOperand) -> (r: Result<Self, Error>)
        ensures
            match r {
                Ok(v) => operands_model(globals@, locals@, seq![*x]) == Ok::<
                    Seq<Operand>,
                    Seq<char>,
                >(seq![v.num_elements]),
                Err(e) => operands_model(globals@, locals@, seq![*x]) == Err::<
                    Seq<Operand>,
                    Seq<char>,
                >(e@),
            },
    {
        proof {
            lemma_operands_model_one(globals@, locals@, *x);
        }
        match Operand::new(globals, locals, x) {
            Ok(a) => Ok(Alloca { num_elements: a }),
            Err(e) => Err(e),
        }
    }
}

impl BitCast {
    /// The cast of the operand.
    pub fn from_bitcast(globals: &GlobalNames, locals: &Locals, x: &RawOperand) -> (r: Result<Self, Error>)
        ensures
            match r {
                Ok(v) => operands_model(globals@, locals@, seq![*x]) == Ok::<
                    Seq<Operand>,
                    Seq<char>,
                >(seq![v.pointer]),
                Err(e) => operands_model(globals@, locals@, seq![*x]) == Err::<
                    Seq<Operand>,
                    Seq<char>,
                >(e@),
            },
    {
        proof {
            lemma_operands_model_one(globals@, locals@, *x);
        }
        match Operand::new(globals, locals, x) {
            Ok(a) => Ok(BitCast { pointer: a }),
            Err(e) => Err(e),
        }
    }
}

impl GetElementPtr {
    /// The address computation on the given address.
    pub fn from_gep(globals: &GlobalNames, locals: &Locals, x: &RawOperand) -> (r: Result<Self, Error>)
        ensures
            match r {
                Ok(v) => operands_model(globals@, locals@, seq![*x]) == Ok::<
                    Seq<Operand>,
                    Seq<char>,
                >(seq![v.pointer]),
                Err(e) => operands_model(globals@, locals@, seq![*x]) == Err::<
                    Seq<Operand>,
                    Seq<char>,
                >(e@),
            },
    {
        proof {
            lemma_operands_model_one(globals@, locals@, *x);
        }
        match Operand::new(globals, locals, x) {
            Ok(a) => Ok(GetElementPtr { pointer: a }),
            Err(e) => Err(e),
        }
    }
}

impl IntToPtr {
    /// The cast of the operand.
    pub fn from_inttoptr(globals: &GlobalNames, locals: &Locals, x: &RawOperand) -> (r: Result<Self, Error>)
        ensures
            match r {
                Ok(v) => operands_model(globals@, locals@, seq![*x]) == Ok::<
                    Seq<Operand>,
                    Seq<char>,
                >(seq![v.int]),
                Err(e) => operands_model(globals@, locals@, seq![*x]) == Err::<
                    Seq<Operand>,
                    Seq<char>,
                >(e@),
            },
    {
        proof {
            lemma_operands_model_one(globals@, locals@, *x);
        }
        match Operand::new(globals, locals, x) {
            Ok(a) => Ok(IntToPtr { int: a }),
            Err(e) => Err(e),
        }
    }
}

impl Icmp {
    /// The comparison of the two operands.
    pub fn from_icmp(globals: &GlobalNames, locals: &Locals, x: &RawOperand, y: &RawOperand) -> (r:
        Result<Self, Error>)
        ensures
            match r {
                Ok(v) => operands_model(globals@, locals@, seq![*x, *y]) == Ok::<
                    Seq<Operand>,
                    Seq<char>,
                >(seq![v.operand0, v.operand1]),
                Err(e) => operands_model(globals@, locals@, seq![*x, *y]) == Err::<
                    Seq<Operand>,
                    Seq<char>,
                >(e@),
            },
    {
        proof {
            lemma_operands_model_two(globals@, locals@, *x, *y);
        }
        let a = match Operand::new(globals, locals, x) {
            Ok(a) => a,
            Err(e) => {
                return Err(e);
            },
        };
        let b = match Operand::new(globals, locals, y) {
            Ok(b) => b,
            Err(e) => {
                return Err(e);
            },
        };
        Ok(Icmp { operand0: a, operand1: b })
    }
}

impl Load {
    /// The load from the given address.
    pub fn from_load(globals: &GlobalNames, locals: &Locals, x: &RawOperand) -> (r: Result<Self, Error>)
        ensures
            match r {
                Ok(v) => operands_model(globals@, locals@, seq![*x]) == Ok::<
                    Seq<Operand>,
                    Seq<char>,
                >(seq![v.pointer]),
                Err(e) => operands_model(globals@, locals@, seq![*x]) == Err::<
                    Seq<Operand>,
                    Seq<char>,
                >(e@),
            },
    {
        proof {
            lemma_operands_model_one(globals@, locals@, *x);
        }
        match Operand::new(globals, locals, x) {
            Ok(a) => Ok(Load { pointer: a }),
            Err(e) => Err(e),
        }
    }
}

impl PtrToInt {
    /// The cast of the operand.
    pub fn from_ptrtoint(globals: &GlobalNames, locals: &Locals, x: &RawOperand) -> (r: Result<Self, Error>)
        ensures
            match r {
                Ok(v) => operands_model(globals@, locals@, seq![*x]) == Ok::<
                    Seq<Operand>,
                    Seq<char>,
                >(seq![v.pointer]),
                Err(e) => operands_model(globals@, locals@, seq![*x]) == Err::<
                    Seq<Operand>,
                    Seq<char>,
                >(e@),
            },
    {
        proof {
            lemma_operands_model_one(globals@, locals@, *x);
        }
        match Operand::new(globals, locals, x) {
            Ok(a) => Ok(PtrToInt { pointer: a }),
            Err(e) => Err(e),
        }
    }
}

impl Select {
    /// The choice between the two values.
    pub fn from_select(globals: &GlobalNames, locals: &Locals, x: &RawOperand, y: &RawOperand) -> (r:
        Result<Self, Error>)
        ensures
            match r {
                Ok(v) => operands_model(globals@, locals@, seq![*x, *y]) == Ok::<
                    Seq<Operand>,
                    Seq<char>,
                >(seq![v.true_value, v.false_value]),
                Err(e) => operands_model(globals@, locals@, seq![*x, *y]) == Err::<
                    Seq<Operand>,
                    Seq<char>,
                >(e@),
            },
    {
        proof {
            lemma_operands_model_two(globals@, locals@, *x, *y);
        }
        let a = match Operand::new(globals, locals, x) {
            Ok(a) => a,
            Err(e) => {
                return Err(e);
            },
        };
        let b = match Operand::new(globals, locals, y) {
            Ok(b) => b,
            Err(e) => {
                return Err(e);
            },
        };
        Ok(Select { true_value: a, false_value: b })
    }
}

impl Store {
    /// The store to the address `x` of the value `y`.
    pub fn from_store(globals: &GlobalNames, locals: &Locals, x: &RawOperand, y: &RawOperand) -> (r:
        Result<Self, Error>)
        ensures
            match r {
                Ok(v) => operands_model(globals@, locals@, seq![*x, *y]) == Ok::<
                    Seq<Operand>,
                    Seq<char>,
                >(seq![v.pointer, v.value]),
                Err(e) => operands_model(globals@, locals@, seq![*x, *y]) == Err::<
                    Seq<Operand>,
                    Seq<char>,
                >(e@),
            },
    {
        proof {
            lemma_operands_model_two(globals@, locals@, *x, *y);
        }
        let a = match Operand::new(globals, locals, x) {
            Ok(a) => a,
            Err(e) => {
                return Err(e);
            },
        };
        let b = match Operand::new(globals, locals, y) {
            Ok(b) => b,
            Err(e) => {
                return Err(e);
            },
        };
        Ok(Store { pointer: a, value: b })
    }
}

impl Sub {
    /// The difference of the two operands.
    pub fn from_sub(globals: &GlobalNames, locals: &Locals, x: &RawOperand, y: &RawOperand) -> (r:
        Result<Self, Error>)
        ensures
            match r {
                Ok(v) => operands_model(globals@, locals@, seq![*x, *y]) == Ok::<
                    Seq<Operand>,
                    Seq<char>,
                >(seq![v.minuend, v.subtrahend]),
                Err(e) => operands_model(globals@, locals@, seq![*x, *y]) == Err::<
                    Seq<Operand>,
                    Seq<char>,
                >(e@),
            },
    {
        proof {
            lemma_operands_model_two(globals@, locals@, *x, *y);
        }
        let a = match Operand::new(globals, locals, x) {
            Ok(a) => a,
            Err(e) => {
                return Err(e);
            },
        };
        let b = match Operand::new(globals, locals, y) {
            Ok(b) => b,
            Err(e) => {
                return Err(e);
            },
        };
        Ok(Sub { minuend: a, subtrahend: b })
    }
}

/// The operands of a call of the module's text, in the order in which they
/// are read: the callee, if it is an operand, then the arguments.
pub open spec fn raw_call_operands(function: RawCallee, arguments: Seq<RawOperand>) -> Seq<
    RawOperand,
> {
    match function {
        RawCallee::Asm => arguments,
        RawCallee::Operand(op) => seq![op] + arguments,
    }
}

/// Whether the callee and the arguments are what the operands `t`, read off
/// the module's text, say.
pub open spec fn call_of(function: RawCallee, t: Seq<Operand>, callee: Callee, args: Seq<Operand>) -> bool {
    match function {
        RawCallee::Asm => callee is Asm && args == t,
        RawCallee::Operand(_) => t.len() >= 1 && callee == Callee::Operand(t[0]) && args
            == t.subrange(1, t.len() as int),
    }
}

/// The callee and the arguments of a call of the module's text.
pub fn create_call(
    globals: &GlobalNames,
    locals: &Locals,
    function: &RawCallee,
    arguments: &Vec<RawOperand>,
) -> (r: Result<(Callee, Vec<Operand>), Error>)
    ensures
        match r {
            Ok(v) => operands_model(
                globals@,
                locals@,
                raw_call_operands(*function, arguments@),
            ) is Ok && call_of(
                *function,
                operands_model(globals@, locals@, raw_call_operands(*function, arguments@))->Ok_0,
                v.0,
                v.1@,
            ),
            Err(e) => operands_model(globals@, locals@, raw_call_operands(*function, arguments@))
                == Err::<Seq<Operand>, Seq<char>>(e@),
        },
{
    match function {
        RawCallee::Asm => match create_operands(globals, locals, arguments) {
            Ok(args) => Ok((Callee::Asm, args)),
            Err(e) => Err(e),
        },
        RawCallee::Operand(op) => {
            proof {
                lemma_operands_model_cons(globals@, locals@, *op, arguments@);
            }
            let callee = match Operand::new(globals, locals, op) {
                Ok(a) => a,
                Err(e) => {
                    return Err(e);
                },
            };
            match create_operands(globals, locals, arguments) {
                Ok(args) => {
                    proof {
                        let t = seq![callee] + args@;
                        assert(t.subrange(1, t.len() as int) =~= args@);
                    }
                    Ok((Callee::Operand(callee), args))
                },
                Err(e) => Err(e),
            }
        },
    }
}

impl Call {
    /// The call with the given callee and arguments.
    pub fn from_call(
        globals: &GlobalNames,
        locals: &Locals,
        function: &RawCallee,
        arguments: &Vec<RawOperand>,
    ) -> (r: Result<Self, Error>)
        ensures
            match r {
                Ok(v) => operands_model(
                    globals@,
                    locals@,
                    raw_call_operands(*function, arguments@),
                ) is Ok && call_of(
                    *function,
                    operands_model(
                        globals@,
                        locals@,
                        raw_call_operands(*function, arguments@),
                    )->Ok_0,
                    v.callee,
                    v.args@,
                ),
                Err(e) => operands_model(
                    globals@,
                    locals@,
                    raw_call_operands(*function, arguments@),
                ) == Err::<Seq<Operand>, Seq<char>>(e@),
            },
    {
        match create_call(globals, locals, function, arguments) {
            Ok((callee, args)) => Ok(Call { callee, args }),
            Err(e) => Err(e),
        }
    }
}

impl Phi {
    /// The choice among the incoming values.
    pub fn from_phi(globals: &GlobalNames, locals: &Locals, incoming_values: &Vec<RawOperand>) -> (r:
        Result<Self, Error>)
        ensures
            match r {
                Ok(v) => operands_model(globals@, locals@, incoming_values@) == Ok::<
                    Seq<Operand>,
                    Seq<char>,
                >(v.values@),
                Err(e) => operands_model(globals@, locals@, incoming_values@) == Err::<
                    Seq<Operand>,
                    Seq<char>,
                >(e@),
            },
    {
        match create_operands(globals, locals, incoming_values) {
            Ok(values) => Ok(Phi { values }),
            Err(e) => Err(e),
        }
    }
}

/// The operands of an instruction of the module's text, in the order in
/// which they are read.
pub open spec fn raw_operands(raw: RawOpcode) -> Seq<RawOperand> {
    match raw {
        RawOpcode::Add { operand0, operand1 } => seq![operand0, operand1],
        RawOpcode::Alloca { num_elements } => seq![num_elements],
        RawOpcode::BitCast { operand } => seq![operand],
        RawOpcode::Call { function, arguments } => raw_call_operands(function, arguments@),
        RawOpcode::GetElementPtr { address } => seq![address],
        RawOpcode::ICmp { operand0, operand1 } => seq![operand0, operand1],
        RawOpcode::IntToPtr { operand } => seq![operand],
        RawOpcode::Load { address } => seq![address],
        RawOpcode::Phi { incoming_values } => incoming_values@,
        RawOpcode::PtrToInt { operand } => seq![operand],
        RawOpcode::Select { true_value, false_value } => seq![true_value, false_value],
        RawOpcode::Store { address, value } => seq![address, value],
        RawOpcode::Sub { operand0, operand1 } => seq![operand0, operand1],
        RawOpcode::Other => Seq::empty(),
    }
}

/// Whether `op` is the opcode of the instruction `raw` whose operands stand
/// for the operands `t`.
pub open spec fn opcode_of(raw: RawOpcode, t: Seq<Operand>, op: Opcode) -> bool {
    match (raw, op) {
        (RawOpcode::Add { .. }, Opcode::Add(a)) => t == seq![a.operand0, a.operand1],
        (RawOpcode::Alloca { .. }, Opcode::Alloca(a)) => t == seq![a.num_elements],
        (RawOpcode::BitCast { .. }, Opcode::BitCast(a)) => t == seq![a.pointer],
        (RawOpcode::Call { function, arguments }, Opcode::Call(c)) => call_of(
            function,
            t,
            c.callee,
            c.args@,
        ),
        (RawOpcode::GetElementPtr { .. }, Opcode::GetElementPtr(a)) => t == seq![a.pointer],
        (RawOpcode::ICmp { .. }, Opcode::Icmp(a)) => t == seq![a.operand0, a.operand1],
        (RawOpcode::IntToPtr { .. }, Opcode::IntToPtr(a)) => t == seq![a.int],
        (RawOpcode::Load { .. }, Opcode::Load(a)) => t == seq![a.pointer],
        (RawOpcode::Phi { .. }, Opcode::Phi(a)) => t == a.values@,
        (RawOpcode::PtrToInt { .. }, Opcode::PtrToInt(a)) => t == seq![a.pointer],
        (RawOpcode::Select { .. }, Opcode::Select(a)) => t == seq![a.true_value, a.false_value],
        (RawOpcode::Store { .. }, Opcode::Store(a)) => t == seq![a.pointer, a.value],
        (RawOpcode::Sub { .. }, Opcode::Sub(a)) => t == seq![a.minuend, a.subtrahend],
        (RawOpcode::Other, Opcode::Other) => true,
        _ => false,
    }
}

/// Whether `r` is what the instruction `raw` becomes: its opcode with the
/// operands that its operands stand for, or what is wrong with the first
/// operand with which something is.
pub open spec fn opcode_result(
    names: Seq<(Seq<char>, Constant)>,
    locals: Seq<(LabelView, Operand)>,
    raw: RawOpcode,
    r: Result<Opcode, Error>,
) -> bool {
    match operands_model(names, locals, raw_operands(raw)) {
        Ok(t) => r is Ok && opcode_of(raw, t, r->Ok_0),
        Err(e) => r is Err && r->Err_0@ == e,
    }
}

impl Opcode {
    /// The opcode of an instruction of the module's text.
    pub fn from_instruction(globals: &GlobalNames, locals: &Locals, i: &RawOpcode) -> (r: Result<
        Self,
        Error,
    >)
        ensures
            opcode_result(globals@, locals@, *i, r),
    {
        match i {
            RawOpcode::Add { operand0, operand1 } => match Add::from_add(
                globals,
                locals,
                operand0,
                operand1,
            ) {
                Ok(x) => Ok(Opcode::Add(x)),
                Err(e) => Err(e),
            },
            RawOpcode::Alloca { num_elements } => match Alloca::from_alloca(
                globals,
                locals,
                num_elements,
            ) {
                Ok(x) => Ok(Opcode::Alloca(x)),
                Err(e) => Err(e),
            },
            RawOpcode::BitCast { operand } => match BitCast::from_bitcast(globals, locals, operand) {
                Ok(x) => Ok(Opcode::BitCast(x)),
                Err(e) => Err(e),
            },
            RawOpcode::Call { function, arguments } => match Call::from_call(
                globals,
                locals,
                function,
                arguments,
            ) {
                Ok(x) => Ok(Opcode::Call(x)),
                Err(e) => Err(e),
            },
            RawOpcode::GetElementPtr { address } => match GetElementPtr::from_gep(
                globals,
                locals,
                address,
            ) {
                Ok(x) => Ok(Opcode::GetElementPtr(x)),
                Err(e) => Err(e),
            },
            RawOpcode::ICmp { operand0, operand1 } => match Icmp::from_icmp(
                globals,
                locals,
                operand0,
                operand1,
            ) {
                Ok(x) => Ok(Opcode::Icmp(x)),
                Err(e) => Err(e),
            },
            RawOpcode::IntToPtr { operand } => match IntToPtr::from_inttoptr(
                globals,
                locals,
                operand,
            ) {
                Ok(x) => Ok(Opcode::IntToPtr(x)),
                Err(e) => Err(e),
            },
            RawOpcode::Load { address } => match Load::from_load(globals, locals, address) {
                Ok(x) => Ok(Opcode::Load(x)),
                Err(e) => Err(e),
            },
            RawOpcode::Phi { incoming_values } => match Phi::from_phi(
                globals,
                locals,
                incoming_values,
            ) {
                Ok(x) => Ok(Opcode::Phi(x)),
                Err(e) => Err(e),
            },
            RawOpcode::PtrToInt { operand } => match PtrToInt::from_ptrtoint(
                globals,
                locals,
                operand,
            ) {
                Ok(x) => Ok(Opcode::PtrToInt(x)),
                Err(e) => Err(e),
            },
            RawOpcode::Select { true_value, false_value } => match Select::from_select(
                globals,
                locals,
                true_value,
                false_value,
            ) {
                Ok(x) => Ok(Opcode::Select(x)),
                Err(e) => Err(e),
            },
            RawOpcode::Store { address, value } => match Store::from_store(
                globals,
                locals,
                address,
                value,
            ) {
                Ok(x) => Ok(Opcode::Store(x)),
                Err(e) => Err(e),
            },
            RawOpcode::Sub { operand0, operand1 } => match Sub::from_sub(
                globals,
                locals,
                operand0,
                operand1,
            ) {
                Ok(x) => Ok(Opcode::Sub(x)),
                Err(e) => Err(e),
            },
            RawOpcode::Other => Ok(Opcode::Other),
        }
    }
}

} // verus!
