//! The model of a module, built from the module's text.
//!
//! Every definition, declaration and variable gets its position as its
//! name. The locals of a function are collected before its instructions are
//! read, since an instruction may read a local that is defined further
//! down. The result of a cast or address computation on a local stands for
//! that local: its uses read the local itself.

use crate::llvm::constant::{created, Constant};
use crate::llvm::error::Error;
use crate::llvm::instruction::{opcode_result, raw_operands, Opcode};
use crate::llvm::name::{BlockName, FunctionName, GlobalName, InstructionName, LocalName, ParameterName};
use crate::llvm::names::GlobalNames;
use crate::llvm::operand::{lookup_local, operands_model, Locals, Operand};
use crate::llvm::raw::{
    RawBlock, RawDeclaration, RawFunction, RawGlobal, RawInstruction, RawModule, RawOpcode,
    RawOperand, RawParameter, RawTerminator,
};
use crate::llvm::terminator::{raw_terminator_operands, terminator_result, TerminatorOpcode};
use crate::llvm::{Block, Decl, Function, Global, Instruction, Label, LabelView, Module, Terminator};
use vstd::prelude::*;

verus! {

// ----------------------------------------------------------------------
// Locals
/// The label of the local on which the instruction is a cast or an address
/// computation, if it is one.
pub open spec fn pass_source(raw: RawOpcode) -> Option<LabelView> {
    match raw {
        RawOpcode::GetElementPtr { address: RawOperand::Local { name } } => Some(name@),
        RawOpcode::PtrToInt { operand: RawOperand::Local { name } } => Some(name@),
        RawOpcode::IntToPtr { operand: RawOperand::Local { name } } => Some(name@),
        RawOpcode::BitCast { operand: RawOperand::Local { name } } => Some(name@),
        _ => None,
    }
}

/// The operand that the result of the instruction called `name` stands
/// for: the local that it casts, where that is known already, else itself.
pub open spec fn result_operand(
    locals: Seq<(LabelView, Operand)>,
    raw: RawOpcode,
    name: InstructionName,
) -> Operand {
    match pass_source(raw) {
        Some(l) => match lookup_local(locals, l) {
            Some(op) => op,
            None => Operand::of_instruction(name),
        },
        None => Operand::of_instruction(name),
    }
}

/// The locals after the instruction called `name`.
pub open spec fn locals_step(
    locals: Seq<(LabelView, Operand)>,
    i: RawInstruction,
    name: InstructionName,
) -> Seq<(LabelView, Operand)> {
    match i.result {
        None => locals,
        Some(n) => locals.push((n@, result_operand(locals, i.opcode, name))),
    }
}

/// The locals after the first `n` instructions of a block.
pub open spec fn locals_of_instrs(
    locals: Seq<(LabelView, Operand)>,
    f: usize,
    b: usize,
    instrs: Seq<RawInstruction>,
    n: int,
) -> Seq<(LabelView, Operand)>
    decreases n,
{
    if n <= 0 {
        locals
    } else {
        locals_step(
            locals_of_instrs(locals, f, b, instrs, n - 1),
            instrs[n - 1],
            InstructionName { parent_function: f, parent_block: b, idx: (n - 1) as usize },
        )
    }
}

/// The position that stands for the terminator of a block of `n`
/// instructions.
pub open spec fn terminator_index(n: usize) -> usize {
    if n < usize::MAX {
        (n + 1) as usize
    } else {
        0
    }
}

/// The locals after a block.
pub open spec fn locals_of_block(
    locals: Seq<(LabelView, Operand)>,
    f: usize,
    b: usize,
    block: RawBlock,
) -> Seq<(LabelView, Operand)> {
    let l = locals_of_instrs(locals, f, b, block.instrs@, block.instrs.len() as int);
    match block.term.result {
        Some(n) => l.push(
            (
                n@,
                Operand::of_instruction(
                    InstructionName {
                        parent_function: f,
                        parent_block: b,
                        idx: terminator_index(block.instrs.len()),
                    },
                ),
            ),
        ),
        None => l,
    }
}

/// The locals after the first `n` blocks of a function.
pub open spec fn locals_of_blocks(
    locals: Seq<(LabelView, Operand)>,
    f: usize,
    blocks: Seq<RawBlock>,
    n: int,
) -> Seq<(LabelView, Operand)>
    decreases n,
{
    if n <= 0 {
        locals
    } else {
        locals_of_block(locals_of_blocks(locals, f, blocks, n - 1), f, (n - 1) as usize, blocks[n - 1])
    }
}

/// The operand of a parameter.
pub open spec fn parameter_operand(f: usize, k: usize) -> Operand {
    Operand::Local(LocalName::Parameter(ParameterName { parent_function: f, index: k }))
}

/// The locals that are the first `n` parameters of a function.
pub open spec fn locals_of_parameters(f: usize, params: Seq<RawParameter>, n: int) -> Seq<
    (LabelView, Operand),
>
    decreases n,
{
    if n <= 0 {
        Seq::empty()
    } else {
        locals_of_parameters(f, params, n - 1).push(
            (params[n - 1].name@, parameter_operand(f, (n - 1) as usize)),
        )
    }
}

/// The locals of a function: its parameters, then the results of its
/// instructions and terminators in the order of the text.
pub open spec fn locals_of(f: usize, raw: RawFunction) -> Seq<(LabelView, Operand)> {
    locals_of_blocks(
        locals_of_parameters(f, raw.parameters@, raw.parameters.len() as int),
        f,
        raw.basic_blocks@,
        raw.basic_blocks.len() as int,
    )
}

fn add_instruction_locals(locals: &mut Locals, f: usize, b: usize, instrs: &Vec<RawInstruction>)
    ensures
        final(locals)@ == locals_of_instrs(old(locals)@, f, b, instrs@, instrs.len() as int),
{
    let mut i: usize = 0;
    while i < instrs.len()
        invariant
            i <= instrs.len(),
            locals@ == locals_of_instrs(old(locals)@, f, b, instrs@, i as int),
        decreases instrs.len() - i,
    {
        if let Some(n) = &instrs[i].result {
            let own = Operand::Local(LocalName::Instruction(InstructionName::new(f, b, i)));
            let source = match &instrs[i].opcode {
                RawOpcode::GetElementPtr { address: RawOperand::Local { name } } => locals.get(
                    name,
                ),
                RawOpcode::PtrToInt { operand: RawOperand::Local { name } } => locals.get(name),
                RawOpcode::IntToPtr { operand: RawOperand::Local { name } } => locals.get(name),
                RawOpcode::BitCast { operand: RawOperand::Local { name } } => locals.get(name),
                _ => None,
            };
            let op = match source {
                Some(op) => op,
                None => own,
            };
            locals.insert(n, op);
        }
        i += 1;
    }
}

fn terminator_index_of(n: usize) -> (r: usize)
    ensures
        r == terminator_index(n),
{
    if n < usize::MAX {
        n + 1
    } else {
        0
    }
}

fn add_block_locals(locals: &mut Locals, f: usize, b: usize, block: &RawBlock)
    ensures
        final(locals)@ == locals_of_block(old(locals)@, f, b, *block),
{
    add_instruction_locals(locals, f, b, &block.instrs);
    if let Some(n) = &block.term.result {
        let name = InstructionName::new(f, b, terminator_index_of(block.instrs.len()));
        locals.insert(n, Operand::Local(LocalName::Instruction(name)));
    }
}

// ----------------------------------------------------------------------
// Instructions, terminators and blocks
/// Whether `x` is the instruction at position `i` of block `b` of function
/// `f` that the instruction `raw` of the text stands for.
pub open spec fn instruction_models(
    names: Seq<(Seq<char>, Constant)>,
    locals: Seq<(LabelView, Operand)>,
    name: InstructionName,
    raw: RawInstruction,
    x: Instruction,
) -> bool {
    x.name == name && x.ty == raw.ty && opcode_result(names, locals, raw.opcode, Ok(x.opcode))
}

/// Whether `x` is the terminator that the terminator `raw` of the text
/// stands for.
pub open spec fn terminator_models(
    names: Seq<(Seq<char>, Constant)>,
    locals: Seq<(LabelView, Operand)>,
    name: InstructionName,
    raw: RawTerminator,
    x: Terminator,
) -> bool {
    x.name == name && x.ty == raw.ty && terminator_result(names, locals, raw.opcode, Ok(x.opcode))
}

/// What is wrong with the first of the first `n` instructions with which
/// something is.
pub open spec fn instrs_error(
    names: Seq<(Seq<char>, Constant)>,
    locals: Seq<(LabelView, Operand)>,
    instrs: Seq<RawInstruction>,
    n: int,
) -> Option<Seq<char>>
    decreases n,
{
    if n <= 0 {
        None
    } else {
        match instrs_error(names, locals, instrs, n - 1) {
            Some(e) => Some(e),
            None => match operands_model(names, locals, raw_operands(instrs[n - 1].opcode)) {
                Err(e) => Some(e),
                Ok(_) => None,
            },
        }
    }
}

/// What is wrong with a block: with the first of its instructions with
/// which something is, or else with its terminator.
pub open spec fn block_error(
    names: Seq<(Seq<char>, Constant)>,
    locals: Seq<(LabelView, Operand)>,
    raw: RawBlock,
) -> Option<Seq<char>> {
    match instrs_error(names, locals, raw.instrs@, raw.instrs.len() as int) {
        Some(e) => Some(e),
        None => match operands_model(names, locals, raw_terminator_operands(raw.term.opcode)) {
            Err(e) => Some(e),
            Ok(_) => None,
        },
    }
}

/// Whether `x` is the block at position `b` of function `f` that the block
/// `raw` of the text stands for.
pub open spec fn block_models(
    names: Seq<(Seq<char>, Constant)>,
    locals: Seq<(LabelView, Operand)>,
    f: usize,
    b: usize,
    raw: RawBlock,
    x: Block,
) -> bool {
    &&& x.name == BlockName { parent_function: f, index: b }
    &&& x.label@ == raw.name@
    &&& x.instrs.len() == raw.instrs.len()
    &&& forall|i: int|
        0 <= i < raw.instrs.len() ==> instruction_models(
            names,
            locals,
            InstructionName { parent_function: f, parent_block: b, idx: i as usize },
            raw.instrs@[i],
            #[trigger] x.instrs@[i],
        )
    &&& terminator_models(
        names,
        locals,
        InstructionName {
            parent_function: f,
            parent_block: b,
            idx: terminator_index(raw.instrs.len()),
        },
        raw.term,
        x.terminator,
    )
}

impl Instruction {
    /// The instruction called `name` that the instruction `i` of the text
    /// stands for.
    pub fn new(globals: &GlobalNames, locals: &Locals, i: &RawInstruction, name: InstructionName) -> (r:
        Result<Self, Error>)
        ensures
            match r {
                Ok(x) => instruction_models(globals@, locals@, name, *i, x),
                Err(e) => operands_model(globals@, locals@, raw_operands(i.opcode)) == Err::<
                    Seq<Operand>,
                    Seq<char>,
                >(e@),
            },
    {
        match Opcode::from_instruction(globals, locals, &i.opcode) {
            Ok(opcode) => Ok(Instruction { name, opcode, ty: i.ty }),
            Err(e) => Err(e),
        }
    }
}

impl Terminator {
    /// The terminator called `name` that the terminator `t` of the text
    /// stands for.
    pub fn new(globals: &GlobalNames, locals: &Locals, t: &RawTerminator, name: InstructionName) -> (r:
        Result<Self, Error>)
        ensures
            match r {
                Ok(x) => terminator_models(globals@, locals@, name, *t, x),
                Err(e) => operands_model(globals@, locals@, raw_terminator_operands(t.opcode))
                    == Err::<Seq<Operand>, Seq<char>>(e@),
            },
    {
        match TerminatorOpcode::from_terminator(globals, locals, &t.opcode) {
            Ok(opcode) => Ok(Terminator { name, opcode, ty: t.ty }),
            Err(e) => Err(e),
        }
    }
}

impl Block {
    /// The block at position `b` of function `f` that the block `raw` of
    /// the text stands for.
    pub fn new(globals: &GlobalNames, locals: &Locals, raw: &RawBlock, f: usize, b: usize) -> (r:
        Result<Self, Error>)
        ensures
            match r {
                Ok(x) => block_error(globals@, locals@, *raw) is None && block_models(
                    globals@,
                    locals@,
                    f,
                    b,
                    *raw,
                    x,
                ),
                Err(e) => block_error(globals@, locals@, *raw) == Some(e@),
            },
    {
        let mut instrs: Vec<Instruction> = Vec::new();
        let mut i: usize = 0;
        while i < raw.instrs.len()
            invariant
                i <= raw.instrs.len(),
                instrs@.len() == i,
                instrs_error(globals@, locals@, raw.instrs@, i as int) is None,
                forall|j: int|
                    0 <= j < i ==> instruction_models(
                        globals@,
                        locals@,
                        InstructionName { parent_function: f, parent_block: b, idx: j as usize },
                        raw.instrs@[j],
                        #[trigger] instrs@[j],
                    ),
            decreases raw.instrs.len() - i,
        {
            match Instruction::new(globals, locals, &raw.instrs[i], InstructionName::new(f, b, i)) {
                Ok(x) => instrs.push(x),
                Err(e) => {
                    proof {
                        lemma_instrs_error(globals@, locals@, raw.instrs@, i + 1, e@);
                    }
                    return Err(e);
                },
            }
            i += 1;
        }
        let name = InstructionName::new(f, b, terminator_index_of(raw.instrs.len()));
        match Terminator::new(globals, locals, &raw.term, name) {
            Ok(terminator) => Ok(
                Block {
                    name: BlockName { parent_function: f, index: b },
                    label: raw.name.clone(),
                    instrs,
                    terminator,
                },
            ),
            Err(e) => Err(e),
        }
    }
}

/// What is wrong with the first instructions of a block is wrong with all of
/// them.
pub proof fn lemma_instrs_error(
    names: Seq<(Seq<char>, Constant)>,
    locals: Seq<(LabelView, Operand)>,
    instrs: Seq<RawInstruction>,
    n: int,
    e: Seq<char>,
)
    requires
        0 <= n <= instrs.len(),
        instrs_error(names, locals, instrs, n) == Some(e),
    ensures
        instrs_error(names, locals, instrs, instrs.len() as int) == Some(e),
    decreases instrs.len() - n,
{
    if n < instrs.len() {
        lemma_instrs_error(names, locals, instrs, n + 1, e);
    }
}

// ----------------------------------------------------------------------
// Functions
/// What is wrong with the first of the first `n` blocks with which
/// something is.
pub open spec fn blocks_error(
    names: Seq<(Seq<char>, Constant)>,
    locals: Seq<(LabelView, Operand)>,
    blocks: Seq<RawBlock>,
    n: int,
) -> Option<Seq<char>>
    decreases n,
{
    if n <= 0 {
        None
    } else {
        match blocks_error(names, locals, blocks, n - 1) {
            Some(e) => Some(e),
            None => block_error(names, locals, blocks[n - 1]),
        }
    }
}

/// What is wrong with the first blocks of a function is wrong with all of
/// them.
pub proof fn lemma_blocks_error(
    names: Seq<(Seq<char>, Constant)>,
    locals: Seq<(LabelView, Operand)>,
    blocks: Seq<RawBlock>,
    n: int,
    e: Seq<char>,
)
    requires
        0 <= n <= blocks.len(),
        blocks_error(names, locals, blocks, n) == Some(e),
    ensures
        blocks_error(names, locals, blocks, blocks.len() as int) == Some(e),
    decreases blocks.len() - n,
{
    if n < blocks.len() {
        lemma_blocks_error(names, locals, blocks, n + 1, e);
    }
}

/// What is wrong with a function of the text.
pub open spec fn function_error(names: Seq<(Seq<char>, Constant)>, f: usize, raw: RawFunction) -> Option<
    Seq<char>,
> {
    blocks_error(names, locals_of(f, raw), raw.basic_blocks@, raw.basic_blocks.len() as int)
}

/// Whether `x` is the function at position `f` that the function `raw` of
/// the text stands for.
pub open spec fn function_models(
    names: Seq<(Seq<char>, Constant)>,
    f: usize,
    raw: RawFunction,
    x: Function,
) -> bool {
    &&& x.name@ == raw.name@
    &&& x.return_type == raw.return_type
    &&& x.parameters.len() == raw.parameters.len()
    &&& x.parameter_labels.len() == raw.parameters.len()
    &&& forall|k: int|
        0 <= k < raw.parameters.len() ==> #[trigger] x.parameters@[k] == parameter_operand(
            f,
            k as usize,
        )
    &&& forall|k: int|
        0 <= k < raw.parameters.len() ==> (#[trigger] x.parameter_labels@[k])@
            == raw.parameters@[k].name@
    &&& x.blocks.len() == raw.basic_blocks.len()
    &&& forall|b: int|
        0 <= b < raw.basic_blocks.len() ==> block_models(
            names,
            locals_of(f, raw),
            f,
            b as usize,
            raw.basic_blocks@[b],
            #[trigger] x.blocks@[b],
        )
}

impl Function {
    /// The function at position `f` that the function `raw` of the text
    /// stands for.
    pub fn new(globals: &GlobalNames, raw: &RawFunction, f: usize) -> (r: Result<Self, Error>)
        ensures
            match r {
                Ok(x) => function_error(globals@, f, *raw) is None && function_models(
                    globals@,
                    f,
                    *raw,
                    x,
                ),
                Err(e) => function_error(globals@, f, *raw) == Some(e@),
            },
    {
        let mut locals = Locals::new();
        let mut parameters: Vec<Operand> = Vec::new();
        let mut parameter_labels: Vec<Label> = Vec::new();
        let mut k: usize = 0;
        while k < raw.parameters.len()
            invariant
                k <= raw.parameters.len(),
                parameters@.len() == k,
                parameter_labels@.len() == k,
                locals@ == locals_of_parameters(f, raw.parameters@, k as int),
                forall|j: int| 0 <= j < k ==> #[trigger] parameters@[j] == parameter_operand(f, j as usize),
                forall|j: int|
                    0 <= j < k ==> (#[trigger] parameter_labels@[j])@ == raw.parameters@[j].name@,
            decreases raw.parameters.len() - k,
        {
            let op = Operand::Local(
                LocalName::Parameter(ParameterName { parent_function: f, index: k }),
            );
            parameters.push(op.clone());
            parameter_labels.push(raw.parameters[k].name.clone());
            locals.insert(&raw.parameters[k].name, op);
            k += 1;
        }
        let ghost start = locals@;
        let mut b: usize = 0;
        while b < raw.basic_blocks.len()
            invariant
                b <= raw.basic_blocks.len(),
                locals@ == locals_of_blocks(start, f, raw.basic_blocks@, b as int),
            decreases raw.basic_blocks.len() - b,
        {
            add_block_locals(&mut locals, f, b, &raw.basic_blocks[b]);
            b += 1;
        }
        assert(locals@ == locals_of(f, *raw));
        let mut blocks: Vec<Block> = Vec::new();
        let mut b: usize = 0;
        while b < raw.basic_blocks.len()
            invariant
                b <= raw.basic_blocks.len(),
                blocks@.len() == b,
                locals@ == locals_of(f, *raw),
                blocks_error(globals@, locals@, raw.basic_blocks@, b as int) is None,
                forall|j: int|
                    0 <= j < b ==> block_models(
                        globals@,
                        locals@,
                        f,
                        j as usize,
                        raw.basic_blocks@[j],
                        #[trigger] blocks@[j],
                    ),
            decreases raw.basic_blocks.len() - b,
        {
            match Block::new(globals, &locals, &raw.basic_blocks[b], f, b) {
                Ok(x) => blocks.push(x),
                Err(e) => {
                    proof {
                        lemma_blocks_error(globals@, locals@, raw.basic_blocks@, b + 1, e@);
                    }
                    return Err(e);
                },
            }
            b += 1;
        }
        Ok(
            Function {
                name: FunctionName::from_str(raw.name.as_str()),
                parameters,
                parameter_labels,
                blocks,
                return_type: raw.return_type,
            },
        )
    }
}

// ----------------------------------------------------------------------
// Declarations and globals
/// Whether `x` is the declaration that the declaration `raw` of the text
/// stands for.
pub open spec fn decl_models(raw: RawDeclaration, x: Decl) -> bool {
    x.name@ == raw.name@ && x.parameters@ == raw.parameters@ && x.return_type == raw.return_type
}

impl Decl {
    /// The declaration that the declaration `d` of the text stands for.
    pub fn new(d: &RawDeclaration) -> (r: Self)
        ensures
            decl_models(*d, r),
    {
        let parameters = d.parameters.clone();
        assert(parameters@ =~= d.parameters@);
        Decl {
            name: FunctionName::from_str(d.name.as_str()),
            parameters,
            return_type: d.return_type,
        }
    }
}

/// What is wrong with a global variable of the text: with its initializer.
pub open spec fn global_error(names: Seq<(Seq<char>, Constant)>, raw: RawGlobal) -> Option<
    Seq<char>,
> {
    match raw.initializer {
        Some(c) => match created(names, c) {
            Err(e) => Some(e),
            Ok(_) => None,
        },
        None => None,
    }
}

/// Whether `x` is the variable that the variable `raw` of the text stands
/// for.
pub open spec fn global_models(names: Seq<(Seq<char>, Constant)>, raw: RawGlobal, x: Global) -> bool {
    &&& x.name@ == raw.name@
    &&& x.is_const == raw.is_constant
    &&& x.ty == raw.ty
    &&& match raw.initializer {
        Some(c) => x.initializer is Some && created(names, c) == Ok::<Constant, Seq<char>>(
            x.initializer->0,
        ),
        None => x.initializer is None,
    }
}

impl Global {
    /// The variable that the variable `g` of the text stands for.
    pub fn new(globals: &GlobalNames, g: &RawGlobal) -> (r: Result<Self, Error>)
        ensures
            match r {
                Ok(x) => global_error(globals@, *g) is None && global_models(globals@, *g, x),
                Err(e) => global_error(globals@, *g) == Some(e@),
            },
    {
        let initializer = match &g.initializer {
            None => None,
            Some(i) => match Constant::create(globals, i) {
                Ok(c) => Some(c),
                Err(e) => {
                    return Err(e);
                },
            },
        };
        Ok(
            Global {
                name: GlobalName::from_str(g.name.as_str()),
                initializer,
                is_const: g.is_constant,
                ty: g.ty,
            },
        )
    }
}

// ----------------------------------------------------------------------
// Modules
/// The table of the names of a module of text: its functions, then its
/// declarations, its variables and its aliases, each with the constant that
/// stands for it.
pub open spec fn names_model(raw: RawModule) -> Seq<(Seq<char>, Constant)> {
    Seq::new(
        raw.functions.len() as nat,
        |i: int| (raw.functions@[i].name@, Constant::Function(i as usize)),
    ) + Seq::new(
        raw.func_declarations.len() as nat,
        |j: int|
            (
                raw.func_declarations@[j].name@,
                Constant::Function((raw.functions.len() + j) as usize),
            ),
    ) + Seq::new(
        raw.global_vars.len() as nat,
        |g: int| (raw.global_vars@[g].name@, Constant::Global(g as usize)),
    ) + Seq::new(
        raw.global_aliases.len() as nat,
        |a: int|
            (raw.global_aliases@[a].name@, Constant::Global((raw.global_vars.len() + a) as usize)),
    )
}

/// What is wrong with the first of the first `n` functions with which
/// something is.
pub open spec fn functions_error(
    names: Seq<(Seq<char>, Constant)>,
    functions: Seq<RawFunction>,
    n: int,
) -> Option<Seq<char>>
    decreases n,
{
    if n <= 0 {
        None
    } else {
        match functions_error(names, functions, n - 1) {
            Some(e) => Some(e),
            None => function_error(names, (n - 1) as usize, functions[n - 1]),
        }
    }
}

/// What is wrong with the first of the first `n` variables with which
/// something is.
pub open spec fn globals_error(
    names: Seq<(Seq<char>, Constant)>,
    globals: Seq<RawGlobal>,
    n: int,
) -> Option<Seq<char>>
    decreases n,
{
    if n <= 0 {
        None
    } else {
        match globals_error(names, globals, n - 1) {
            Some(e) => Some(e),
            None => global_error(names, globals[n - 1]),
        }
    }
}

proof fn lemma_functions_error(
    names: Seq<(Seq<char>, Constant)>,
    functions: Seq<RawFunction>,
    n: int,
    e: Seq<char>,
)
    requires
        0 <= n <= functions.len(),
        functions_error(names, functions, n) == Some(e),
    ensures
        functions_error(names, functions, functions.len() as int) == Some(e),
    decreases functions.len() - n,
{
    if n < functions.len() {
        lemma_functions_error(names, functions, n + 1, e);
    }
}

proof fn lemma_globals_error(
    names: Seq<(Seq<char>, Constant)>,
    globals: Seq<RawGlobal>,
    n: int,
    e: Seq<char>,
)
    requires
        0 <= n <= globals.len(),
        globals_error(names, globals, n) == Some(e),
    ensures
        globals_error(names, globals, globals.len() as int) == Some(e),
    decreases globals.len() - n,
{
    if n < globals.len() {
        lemma_globals_error(names, globals, n + 1, e);
    }
}

/// What is wrong with a module of text, if anything is: it has more
/// functions or globals than can be numbered, or an instruction reads a
/// local that has no definition, or a constant refers to a global that has
/// none. Functions come before variables, and within a function the first
/// instruction with which something is wrong counts.
pub open spec fn module_error(raw: RawModule) -> Option<Seq<char>> {
    if raw.functions.len() + raw.func_declarations.len() > usize::MAX {
        Some("Too many functions"@)
    } else if raw.global_vars.len() + raw.global_aliases.len() > usize::MAX {
        Some("Too many globals"@)
    } else {
        match functions_error(names_model(raw), raw.functions@, raw.functions.len() as int) {
            Some(e) => Some(e),
            None => globals_error(names_model(raw), raw.global_vars@, raw.global_vars.len() as int),
        }
    }
}

/// Whether `m` is the model of the module `raw` of text.
pub open spec fn module_models(raw: RawModule, m: Module) -> bool {
    &&& m.functions.len() == raw.functions.len()
    &&& forall|f: int|
        0 <= f < raw.functions.len() ==> function_models(
            names_model(raw),
            f as usize,
            raw.functions@[f],
            #[trigger] m.functions@[f],
        )
    &&& m.decls.len() == raw.func_declarations.len()
    &&& forall|d: int|
        0 <= d < raw.func_declarations.len() ==> decl_models(
            raw.func_declarations@[d],
            #[trigger] m.decls@[d],
        )
    &&& m.globals.len() == raw.global_vars.len()
    &&& forall|g: int|
        0 <= g < raw.global_vars.len() ==> global_models(
            names_model(raw),
            raw.global_vars@[g],
            #[trigger] m.globals@[g],
        )
    &&& m.aliases.len() == raw.global_aliases.len()
    &&& forall|a: int|
        0 <= a < raw.global_aliases.len() ==> (#[trigger] m.aliases@[a])@
            == raw.global_aliases@[a].name@
}

impl Module {
    /// The table of the names of the functions and globals of a module of
    /// text, so that every use of a name gets the same constant.
    pub fn global_names(m: &RawModule) -> (r: GlobalNames)
        requires
            m.functions.len() + m.func_declarations.len() <= usize::MAX,
            m.global_vars.len() + m.global_aliases.len() <= usize::MAX,
        ensures
            r@ == names_model(*m),
    {
        let mut names = GlobalNames::new();
        let nf = m.functions.len();
        let mut i: usize = 0;
        while i < nf
            invariant
                i <= nf,
                nf == m.functions.len(),
                names@ == Seq::new(
                    i as nat,
                    |i: int| (m.functions@[i].name@, Constant::Function(i as usize)),
                ),
            decreases nf - i,
        {
            names.insert(m.functions[i].name.as_str(), Constant::Function(i));
            assert(names@ =~= Seq::new(
                (i + 1) as nat,
                |i: int| (m.functions@[i].name@, Constant::Function(i as usize)),
            ));
            i += 1;
        }
        let ghost first = names@;
        let nd = m.func_declarations.len();
        let mut j: usize = 0;
        assert(names@ =~= first + Seq::new(
            0nat,
            |j: int| (m.func_declarations@[j].name@, Constant::Function((nf + j) as usize)),
        ));
        while j < nd
            invariant
                j <= nd,
                nd == m.func_declarations.len(),
                nf + nd <= usize::MAX,
                names@ == first + Seq::new(
                    j as nat,
                    |j: int| (m.func_declarations@[j].name@, Constant::Function((nf + j) as usize)),
                ),
            decreases nd - j,
        {
            names.insert(m.func_declarations[j].name.as_str(), Constant::Function(nf + j));
            assert(names@ =~= first + Seq::new(
                (j + 1) as nat,
                |j: int| (m.func_declarations@[j].name@, Constant::Function((nf + j) as usize)),
            ));
            j += 1;
        }
        let ghost second = names@;
        let ng = m.global_vars.len();
        let mut g: usize = 0;
        assert(names@ =~= second + Seq::new(
            0nat,
            |g: int| (m.global_vars@[g].name@, Constant::Global(g as usize)),
        ));
        while g < ng
            invariant
                g <= ng,
                ng == m.global_vars.len(),
                names@ == second + Seq::new(
                    g as nat,
                    |g: int| (m.global_vars@[g].name@, Constant::Global(g as usize)),
                ),
            decreases ng - g,
        {
            names.insert(m.global_vars[g].name.as_str(), Constant::Global(g));
            assert(names@ =~= second + Seq::new(
                (g + 1) as nat,
                |g: int| (m.global_vars@[g].name@, Constant::Global(g as usize)),
            ));
            g += 1;
        }
        let ghost third = names@;
        let na = m.global_aliases.len();
        let mut a: usize = 0;
        assert(names@ =~= third + Seq::new(
            0nat,
            |a: int| (m.global_aliases@[a].name@, Constant::Global((ng + a) as usize)),
        ));
        while a < na
            invariant
                a <= na,
                na == m.global_aliases.len(),
                ng + na <= usize::MAX,
                names@ == third + Seq::new(
                    a as nat,
                    |a: int| (m.global_aliases@[a].name@, Constant::Global((ng + a) as usize)),
                ),
            decreases na - a,
        {
            names.insert(m.global_aliases[a].name.as_str(), Constant::Global(ng + a));
            assert(names@ =~= third + Seq::new(
                (a + 1) as nat,
                |a: int| (m.global_aliases@[a].name@, Constant::Global((ng + a) as usize)),
            ));
            a += 1;
        }
        names
    }

    /// The model of a module of text, or what is wrong with the text.
    pub fn new(m: &RawModule) -> (r: Result<Self, Error>)
        ensures
            match r {
                Ok(x) => module_error(*m) is None && module_models(*m, x),
                Err(e) => module_error(*m) == Some(e@),
            },
    {
        if m.functions.len() > usize::MAX - m.func_declarations.len() {
            return Err(Error("Too many functions".to_owned()));
        }
        if m.global_vars.len() > usize::MAX - m.global_aliases.len() {
            return Err(Error("Too many globals".to_owned()));
        }
        let names = Self::global_names(m);
        let mut functions: Vec<Function> = Vec::new();
        let mut f: usize = 0;
        while f < m.functions.len()
            invariant
                f <= m.functions.len(),
                functions@.len() == f,
                names@ == names_model(*m),
                functions_error(names@, m.functions@, f as int) is None,
                forall|j: int|
                    0 <= j < f ==> function_models(
                        names@,
                        j as usize,
                        m.functions@[j],
                        #[trigger] functions@[j],
                    ),
            decreases m.functions.len() - f,
        {
            match Function::new(&names, &m.functions[f], f) {
                Ok(x) => functions.push(x),
                Err(e) => {
                    proof {
                        lemma_functions_error(names@, m.functions@, f + 1, e@);
                    }
                    return Err(e);
                },
            }
            f += 1;
        }
        let mut globals: Vec<Global> = Vec::new();
        let mut g: usize = 0;
        while g < m.global_vars.len()
            invariant
                g <= m.global_vars.len(),
                globals@.len() == g,
                names@ == names_model(*m),
                m.functions.len() + m.func_declarations.len() <= usize::MAX,
                m.global_vars.len() + m.global_aliases.len() <= usize::MAX,
                functions_error(names@, m.functions@, m.functions.len() as int) is None,
                globals_error(names@, m.global_vars@, g as int) is None,
                forall|j: int|
                    0 <= j < g ==> global_models(
                        names@,
                        m.global_vars@[j],
                        #[trigger] globals@[j],
                    ),
            decreases m.global_vars.len() - g,
        {
            match Global::new(&names, &m.global_vars[g]) {
                Ok(x) => globals.push(x),
                Err(e) => {
                    proof {
                        lemma_globals_error(names@, m.global_vars@, g + 1, e@);
                    }
                    return Err(e);
                },
            }
            g += 1;
        }
        let mut decls: Vec<Decl> = Vec::new();
        let mut d: usize = 0;
        while d < m.func_declarations.len()
            invariant
                d <= m.func_declarations.len(),
                decls@.len() == d,
                forall|j: int|
                    0 <= j < d ==> decl_models(m.func_declarations@[j], #[trigger] decls@[j]),
            decreases m.func_declarations.len() - d,
        {
            decls.push(Decl::new(&m.func_declarations[d]));
            d += 1;
        }
        let mut aliases: Vec<GlobalName> = Vec::new();
        let mut a: usize = 0;
        while a < m.global_aliases.len()
            invariant
                a <= m.global_aliases.len(),
                aliases@.len() == a,
                forall|j: int| 0 <= j < a ==> (#[trigger] aliases@[j])@ == m.global_aliases@[j].name@,
            decreases m.global_aliases.len() - a,
        {
            aliases.push(GlobalName::from_str(m.global_aliases[a].name.as_str()));
            a += 1;
        }
        Ok(Module { functions, decls, globals, aliases })
    }
}

// ----------------------------------------------------------------------
// One text, one model
/// Whether two opcodes are the same, lists of operands compared element by
/// element.
pub open spec fn same_opcode(x: Opcode, y: Opcode) -> bool {
    match (x, y) {
        (Opcode::Call(a), Opcode::Call(b)) => a.callee == b.callee && a.args@ == b.args@,
        (Opcode::Phi(a), Opcode::Phi(b)) => a.values@ == b.values@,
        (Opcode::Add(a), Opcode::Add(b)) => a == b,
        (Opcode::Alloca(a), Opcode::Alloca(b)) => a == b,
        (Opcode::BitCast(a), Opcode::BitCast(b)) => a == b,
        (Opcode::GetElementPtr(a), Opcode::GetElementPtr(b)) => a == b,
        (Opcode::Icmp(a), Opcode::Icmp(b)) => a == b,
        (Opcode::IntToPtr(a), Opcode::IntToPtr(b)) => a == b,
        (Opcode::Load(a), Opcode::Load(b)) => a == b,
        (Opcode::PtrToInt(a), Opcode::PtrToInt(b)) => a == b,
        (Opcode::Select(a), Opcode::Select(b)) => a == b,
        (Opcode::Store(a), Opcode::Store(b)) => a == b,
        (Opcode::Sub(a), Opcode::Sub(b)) => a == b,
        (Opcode::Other, Opcode::Other) => true,
        _ => false,
    }
}

/// Whether two terminator opcodes are the same.
pub open spec fn same_terminator(x: TerminatorOpcode, y: TerminatorOpcode) -> bool {
    match (x, y) {
        (TerminatorOpcode::Invoke(a), TerminatorOpcode::Invoke(b)) => a.callee == b.callee
            && a.args@ == b.args@,
        (TerminatorOpcode::Ret(a), TerminatorOpcode::Ret(b)) => a == b,
        (TerminatorOpcode::Other, TerminatorOpcode::Other) => true,
        _ => false,
    }
}

/// Whether two blocks are structurally equal.
pub open spec fn same_block(x: Block, y: Block) -> bool {
    &&& x.name == y.name
    &&& x.label@ == y.label@
    &&& x.instrs.len() == y.instrs.len()
    &&& forall|i: int|
        0 <= i < x.instrs.len() ==> (#[trigger] x.instrs@[i]).name == y.instrs@[i].name
            && x.instrs@[i].ty == y.instrs@[i].ty && same_opcode(
            x.instrs@[i].opcode,
            y.instrs@[i].opcode,
        )
    &&& x.terminator.name == y.terminator.name
    &&& x.terminator.ty == y.terminator.ty
    &&& same_terminator(x.terminator.opcode, y.terminator.opcode)
}

/// Whether two functions are structurally equal.
pub open spec fn same_function(x: Function, y: Function) -> bool {
    &&& x.name@ == y.name@
    &&& x.return_type == y.return_type
    &&& x.parameters@ == y.parameters@
    &&& x.parameter_labels.len() == y.parameter_labels.len()
    &&& forall|k: int|
        0 <= k < x.parameter_labels.len() ==> (#[trigger] x.parameter_labels@[k])@
            == y.parameter_labels@[k]@
    &&& x.blocks.len() == y.blocks.len()
    &&& forall|b: int| 0 <= b < x.blocks.len() ==> same_block(#[trigger] x.blocks@[b], y.blocks@[b])
}

/// Whether two modules are structurally equal.
pub open spec fn same_module(x: Module, y: Module) -> bool {
    &&& x.functions.len() == y.functions.len()
    &&& forall|f: int|
        0 <= f < x.functions.len() ==> same_function(#[trigger] x.functions@[f], y.functions@[f])
    &&& x.decls.len() == y.decls.len()
    &&& forall|d: int|
        0 <= d < x.decls.len() ==> (#[trigger] x.decls@[d]).name@ == y.decls@[d].name@
            && x.decls@[d].parameters@ == y.decls@[d].parameters@ && x.decls@[d].return_type
            == y.decls@[d].return_type
    &&& x.globals.len() == y.globals.len()
    &&& forall|g: int|
        0 <= g < x.globals.len() ==> (#[trigger] x.globals@[g]).name@ == y.globals@[g].name@
            && x.globals@[g].initializer == y.globals@[g].initializer && x.globals@[g].is_const
            == y.globals@[g].is_const && x.globals@[g].ty == y.globals@[g].ty
    &&& x.aliases.len() == y.aliases.len()
    &&& forall|a: int| 0 <= a < x.aliases.len() ==> (#[trigger] x.aliases@[a])@ == y.aliases@[a]@
}

proof fn lemma_same_block(
    names: Seq<(Seq<char>, Constant)>,
    locals: Seq<(LabelView, Operand)>,
    f: usize,
    b: usize,
    raw: RawBlock,
    x: Block,
    y: Block,
)
    requires
        block_models(names, locals, f, b, raw, x),
        block_models(names, locals, f, b, raw, y),
    ensures
        same_block(x, y),
{
    assert forall|i: int| 0 <= i < x.instrs.len() implies (#[trigger] x.instrs@[i]).name
        == y.instrs@[i].name && x.instrs@[i].ty == y.instrs@[i].ty && same_opcode(
        x.instrs@[i].opcode,
        y.instrs@[i].opcode,
    ) by {
        let name = InstructionName { parent_function: f, parent_block: b, idx: i as usize };
        assert(instruction_models(names, locals, name, raw.instrs@[i], x.instrs@[i]));
        assert(instruction_models(names, locals, name, raw.instrs@[i], y.instrs@[i]));
    }
    let t = operands_model(names, locals, raw_terminator_operands(raw.term.opcode))->Ok_0;
    if let TerminatorOpcode::Ret(a) = x.terminator.opcode {
        if let TerminatorOpcode::Ret(b) = y.terminator.opcode {
            if let Some(o) = a.operand {
                assert(seq![o][0] == o);
                assert(t.len() == 1);
            }
            if let Some(o) = b.operand {
                assert(seq![o][0] == o);
                assert(t.len() == 1);
            }
            if a.operand is None {
                assert(raw_terminator_operands(raw.term.opcode).len() == 0);
            }
            if b.operand is None {
                assert(raw_terminator_operands(raw.term.opcode).len() == 0);
            }
        }
    }
}

proof fn lemma_same_function(
    names: Seq<(Seq<char>, Constant)>,
    f: usize,
    raw: RawFunction,
    x: Function,
    y: Function,
)
    requires
        function_models(names, f, raw, x),
        function_models(names, f, raw, y),
    ensures
        same_function(x, y),
{
    assert(x.parameters@ =~= y.parameters@);
    assert forall|b: int| 0 <= b < x.blocks.len() implies same_block(
        #[trigger] x.blocks@[b],
        y.blocks@[b],
    ) by {
        lemma_same_block(
            names,
            locals_of(f, raw),
            f,
            b as usize,
            raw.basic_blocks@[b],
            x.blocks@[b],
            y.blocks@[b],
        );
    }
}

/// The models of one module of text are structurally equal: building a
/// model again gives the same model.
pub proof fn law_one_model(raw: RawModule, x: Module, y: Module)
    requires
        module_models(raw, x),
        module_models(raw, y),
    ensures
        same_module(x, y),
{
    assert forall|f: int| 0 <= f < x.functions.len() implies same_function(
        #[trigger] x.functions@[f],
        y.functions@[f],
    ) by {
        lemma_same_function(
            names_model(raw),
            f as usize,
            raw.functions@[f],
            x.functions@[f],
            y.functions@[f],
        );
    }
    assert forall|d: int| 0 <= d < x.decls.len() implies (#[trigger] x.decls@[d]).name@
        == y.decls@[d].name@ && x.decls@[d].parameters@ == y.decls@[d].parameters@
        && x.decls@[d].return_type == y.decls@[d].return_type by {
        assert(decl_models(raw.func_declarations@[d], x.decls@[d]));
        assert(decl_models(raw.func_declarations@[d], y.decls@[d]));
    }
    assert forall|g: int| 0 <= g < x.globals.len() implies (#[trigger] x.globals@[g]).name@
        == y.globals@[g].name@ && x.globals@[g].initializer == y.globals@[g].initializer
        && x.globals@[g].is_const == y.globals@[g].is_const && x.globals@[g].ty
        == y.globals@[g].ty by {
        assert(global_models(names_model(raw), raw.global_vars@[g], x.globals@[g]));
        assert(global_models(names_model(raw), raw.global_vars@[g], y.globals@[g]));
    }
}

} // verus!
