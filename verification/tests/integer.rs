use yapall::analysis::callgraph;
use yapall::analysis::checks::FailureKind;
use yapall::analysis::integer::{analysis, setup, solve, IntRelations};
use yapall::lattice::{Int, IntLattice};
use yapall::llvm::constant::{BitCast, Constant, GetElementPtr};
use yapall::llvm::name::{InstructionName, LocalName, ParameterName};
use yapall::llvm::operand::{Callee, Operand};
use yapall::llvm::raw::{
    RawBlock, RawCallee, RawConstant, RawDeclaration, RawFunction, RawInstruction, RawModule,
    RawOpcode, RawOperand, RawParameter, RawTerminator, RawTerminatorOpcode,
};
use yapall::llvm::{Label, Module, Type};

fn label(name: &str) -> Label {
    Label::Name(name.to_string())
}

fn local(name: &str) -> RawOperand {
    RawOperand::Local { name: label(name) }
}

fn global(name: &str) -> RawOperand {
    RawOperand::Constant(RawConstant::GlobalReference { name: name.to_string() })
}

fn number(value: u64) -> RawOperand {
    RawOperand::Constant(RawConstant::Int { bits: 32, value })
}

fn instr(result: &str, opcode: RawOpcode) -> RawInstruction {
    RawInstruction { result: Some(label(result)), opcode, ty: Type::Other }
}

fn call(result: &str, callee: &str, arguments: Vec<RawOperand>) -> RawInstruction {
    instr(result, RawOpcode::Call { function: RawCallee::Operand(global(callee)), arguments })
}

fn ret(operand: Option<RawOperand>) -> RawTerminator {
    RawTerminator {
        result: None,
        opcode: RawTerminatorOpcode::Ret { return_operand: operand },
        ty: Type::Void,
    }
}

fn function(name: &str, parameters: &[&str], instrs: Vec<RawInstruction>, term: RawTerminator, return_type: Type) -> RawFunction {
    RawFunction {
        name: name.to_string(),
        parameters: parameters.iter().map(|p| RawParameter { name: label(p), ty: Type::Other }).collect(),
        basic_blocks: vec![RawBlock { name: label("entry"), instrs, term }],
        return_type,
    }
}

fn module(functions: Vec<RawFunction>) -> Module {
    Module::new(&RawModule {
        functions,
        func_declarations: vec![
            RawDeclaration { name: "ext".to_string(), parameters: vec![], return_type: Type::Other },
            RawDeclaration { name: "one".to_string(), parameters: vec![Type::Other], return_type: Type::Void },
        ],
        global_vars: vec![],
        global_aliases: vec![],
    })
    .unwrap()
}

fn site(f: usize, i: usize) -> InstructionName {
    InstructionName { parent_function: f, parent_block: 0, idx: i }
}

fn result(f: usize, i: usize) -> Operand {
    Operand::Local(LocalName::Instruction(site(f, i)))
}

fn parameter(f: usize, k: usize) -> Operand {
    Operand::Local(LocalName::Parameter(ParameterName { parent_function: f, index: k }))
}

fn constant(value: u64) -> IntLattice {
    IntLattice::constant(Int { bits: 32, value })
}

fn values(out: &IntRelations, op: &Operand) -> Vec<IntLattice> {
    out.operand_val.iter().filter(|(_, o, _)| o.equals(op)).map(|(_, _, v)| *v).collect()
}

fn program() -> Module {
    module(vec![
        function(
            "main",
            &["argc"],
            vec![
                call("a", "id", vec![number(7)]),
                call("b", "id", vec![number(8)]),
                call("c", "ext", vec![]),
                instr("d", RawOpcode::Add { operand0: local("a"), operand1: number(1) }),
                instr("e", RawOpcode::Select { true_value: local("a"), false_value: number(7) }),
                instr("f", RawOpcode::Phi { incoming_values: vec![local("a"), local("b")] }),
                instr("g", RawOpcode::Load { address: local("argc") }),
                call("h", "nothing", vec![]),
            ],
            ret(None),
            Type::Other,
        ),
        function("id", &["x"], vec![], ret(Some(local("x"))), Type::Other),
        function("nothing", &[], vec![], ret(None), Type::Void),
    ])
}

#[test]
fn constants_flow_through_calls_per_context() {
    let m = program();
    let cg = callgraph::analysis(&m);
    let out = analysis(&m, &cg, 2, false, true).unwrap();
    assert_eq!(values(&out, &result(0, 0)), vec![constant(7)]);
    assert_eq!(values(&out, &result(0, 1)), vec![constant(8)]);
    assert_eq!(values(&out, &result(0, 2)), vec![IntLattice::top()]);
    assert_eq!(values(&out, &result(0, 3)), vec![IntLattice::top()]);
    assert_eq!(values(&out, &result(0, 4)), vec![constant(7)]);
    assert_eq!(values(&out, &result(0, 5)), vec![IntLattice::top()]);
    assert_eq!(values(&out, &result(0, 6)), vec![IntLattice::top()]);
    assert_eq!(values(&out, &result(0, 7)), vec![IntLattice::top()]);
    assert_eq!(values(&out, &parameter(0, 0)), vec![IntLattice::top()]);
    let mut x = values(&out, &parameter(1, 0));
    x.sort_by_key(|v| format!("{:?}", v));
    assert_eq!(x, vec![constant(7), constant(8)]);
    // argc, c, d, f, g, h and the functions in callee position.
    let tops = out.operand_val.iter().filter(|(_, _, v)| *v == IntLattice::top()).count();
    assert!(out.metrics.unwrap().tops <= tops);
    assert_eq!(out.metrics.unwrap().tops, 9);
}

#[test]
fn without_contexts_the_values_are_joined() {
    let m = program();
    let cg = callgraph::analysis(&m);
    let out = analysis(&m, &cg, 0, false, false).unwrap();
    assert_eq!(values(&out, &parameter(1, 0)), vec![IntLattice::top()]);
    assert_eq!(values(&out, &result(0, 0)), vec![IntLattice::top()]);
    assert_eq!(values(&out, &result(0, 4)), vec![IntLattice::top()]);
    assert!(out.metrics.is_none());
    for (ctx, _, _) in &out.operand_val {
        assert_eq!(ctx.len(), 0);
    }
    // One row for each context and operand.
    for (i, (c1, o1, _)) in out.operand_val.iter().enumerate() {
        for (c2, o2, _) in &out.operand_val[i + 1..] {
            assert!(!(o1.equals(o2) && c1.len() == c2.len()));
        }
    }
}

#[test]
fn callgraph_of_direct_indirect_and_assembly_calls() {
    let m = module(vec![
        function(
            "main",
            &["fp"],
            vec![
                call("a", "two", vec![number(1)]),
                instr("b", RawOpcode::Call { function: RawCallee::Operand(local("fp")), arguments: vec![number(1)] }),
                instr("c", RawOpcode::Call { function: RawCallee::Asm, arguments: vec![] }),
                instr(
                    "d",
                    RawOpcode::Call {
                        function: RawCallee::Operand(RawOperand::Constant(RawConstant::BitCast {
                            operand: Box::new(RawConstant::GlobalReference { name: "ext".to_string() }),
                        })),
                        arguments: vec![],
                    },
                ),
                instr("e", RawOpcode::Call { function: RawCallee::Operand(RawOperand::Metadata), arguments: vec![] }),
            ],
            RawTerminator {
                result: None,
                opcode: RawTerminatorOpcode::Invoke {
                    function: RawCallee::Operand(global("one")),
                    arguments: vec![number(2)],
                },
                ty: Type::Void,
            },
            Type::Other,
        ),
        function("two", &["x", "y"], vec![], ret(None), Type::Void),
    ]);
    let mut cg = callgraph::analysis(&m);
    cg.sort_by_key(|(s, _)| s.idx);
    let sites: Vec<usize> = cg.iter().map(|(s, _)| s.idx).collect();
    assert_eq!(sites, vec![0, 1, 2, 3, 4, 6]);
    assert_eq!(cg[0].1, vec![1]);
    // Through a local: every function with one parameter at most.
    assert_eq!(cg[1].1, vec![0, 2, 3]);
    // Assembly without arguments: every function without parameters.
    assert_eq!(cg[2].1, vec![2]);
    assert_eq!(callgraph::call_targets(&m, &Callee::Asm, 1), vec![0, 2, 3]);
    assert_eq!(callgraph::call_targets(&m, &Callee::Asm, 2), vec![0, 1, 2, 3]);
    assert_eq!(cg[3].1, vec![2]);
    assert_eq!(cg[4].1, Vec::<usize>::new());
    assert_eq!(cg[5].1, vec![3]);
    assert_eq!(callgraph::indirect_call_targets(&m, 0), vec![2]);
    assert_eq!(
        callgraph::call_targets(&m, &Callee::Operand(Operand::Constant(Constant::Null)), 5),
        Vec::<usize>::new()
    );
    assert_eq!(
        callgraph::constant_functions(&Constant::GetElementPtr(GetElementPtr {
            pointer: Box::new(Constant::BitCast(BitCast { pointer: Box::new(Constant::Function(4)) }))
        })),
        vec![4]
    );
    assert_eq!(callgraph::constant_functions(&Constant::Global(0)), Vec::<usize>::new());
}

#[test]
fn a_call_without_target_fails_the_assertion() {
    let m = program();
    let failure = analysis(&m, &vec![], 1, false, false).unwrap_err();
    assert_eq!(failure.kind, FailureKind::CallWithoutTarget);
    assert_eq!(failure.site, site(0, 0));
    assert_eq!(failure.ctx.len(), 0);
}

#[test]
fn an_instruction_without_value_fails_the_assertion() {
    let m = module(vec![function(
        "main",
        &["argc", "argv"],
        vec![instr("a", RawOpcode::PtrToInt { operand: local("argv") })],
        ret(None),
        Type::Other,
    )]);
    let failure = analysis(&m, &callgraph::analysis(&m), 1, false, false).unwrap_err();
    assert_eq!(failure.kind, FailureKind::InstructionWithoutValue);
    assert_eq!(failure.site, site(0, 0));
}

#[test]
fn the_setup_carries_the_callgraph() {
    let m = program();
    let cg = callgraph::analysis(&m);
    let c = setup(&cg, 3, true);
    assert_eq!(c.callgraph.as_ref().unwrap(), &cg);
    assert_eq!(c.contexts, 3);
    assert!(c.metrics && !c.unification);
    assert!(c.signatures.is_empty() && c.extra_globals.is_empty());
    let out = solve(&m, &c).unwrap();
    assert_eq!(values(&out, &result(0, 0)), vec![constant(7)]);
}

#[test]
fn no_main_no_values() {
    let m = module(vec![function("f", &[], vec![call("a", "ext", vec![])], ret(None), Type::Void)]);
    let out = analysis(&m, &callgraph::analysis(&m), 1, false, true).unwrap();
    assert!(out.operand_val.is_empty());
    assert_eq!(out.metrics.unwrap().tops, 0);
}
