use yapall::allocation::{Alloc, FunctionAlloc, GlobalAlloc, GlobalKey, HeapAlloc, StackAlloc};
use yapall::analysis::checks::FailureKind;
use yapall::analysis::engine::{pair_consequences, saturate, single_consequences};
use yapall::analysis::facts::contains_fact;
use yapall::analysis::pointer::{analysis, solve, Options, OutputRelations};
use yapall::analysis::rows::{call_rows_once, edges_once, functions_once, points_to_rows_once};
use yapall::analysis::rules::Setup;
use yapall::klimited::KLimited;
use yapall::llvm::constant::Constant;
use yapall::llvm::name::{InstructionName, LocalName, ParameterName};
use yapall::llvm::operand::Operand;
use yapall::llvm::raw::{
    RawBlock, RawCallee, RawConstant, RawDeclaration, RawFunction, RawGlobal, RawInstruction,
    RawModule, RawOpcode, RawOperand, RawParameter, RawTerminator, RawTerminatorOpcode,
};
use yapall::llvm::{Label, Module, Type};
use yapall::signatures::{AllocType, Signature, Signatures};

// ------------------------------------------------------------------
// Helpers

fn label(name: &str) -> Label {
    Label::Name(name.to_string())
}

fn local(name: &str) -> RawOperand {
    RawOperand::Local { name: label(name) }
}

fn global(name: &str) -> RawOperand {
    RawOperand::Constant(RawConstant::GlobalReference { name: name.to_string() })
}

fn number(value: u64) -> RawOperand {
    RawOperand::Constant(RawConstant::Int { bits: 64, value })
}

fn pointer() -> Type {
    Type::Pointer { pointee_is_pointer: false }
}

fn instr(result: &str, opcode: RawOpcode, ty: Type) -> RawInstruction {
    RawInstruction { result: Some(label(result)), opcode, ty }
}

fn effect(opcode: RawOpcode) -> RawInstruction {
    RawInstruction { result: None, opcode, ty: Type::Void }
}

fn alloca(result: &str) -> RawInstruction {
    instr(result, RawOpcode::Alloca { num_elements: number(1) }, pointer())
}

fn call(result: &str, callee: RawOperand, arguments: Vec<RawOperand>, ty: Type) -> RawInstruction {
    instr(result, RawOpcode::Call { function: RawCallee::Operand(callee), arguments }, ty)
}

fn call_void(callee: &str, arguments: Vec<RawOperand>) -> RawInstruction {
    effect(RawOpcode::Call { function: RawCallee::Operand(global(callee)), arguments })
}

fn ret(operand: Option<RawOperand>) -> RawTerminator {
    RawTerminator {
        result: None,
        opcode: RawTerminatorOpcode::Ret { return_operand: operand },
        ty: Type::Void,
    }
}

fn function(name: &str, parameters: &[&str], instrs: Vec<RawInstruction>, term: RawTerminator) -> RawFunction {
    RawFunction {
        name: name.to_string(),
        parameters: parameters.iter().map(|p| RawParameter { name: label(p), ty: pointer() }).collect(),
        basic_blocks: vec![RawBlock { name: label("entry"), instrs, term }],
        return_type: Type::Other,
    }
}

fn decl(name: &str, parameters: usize, return_type: Type) -> RawDeclaration {
    RawDeclaration {
        name: name.to_string(),
        parameters: (0..parameters).map(|_| pointer()).collect(),
        return_type,
    }
}

fn module(functions: Vec<RawFunction>, decls: Vec<RawDeclaration>, globals: Vec<RawGlobal>) -> Module {
    match Module::new(&RawModule {
        functions,
        func_declarations: decls,
        global_vars: globals,
        global_aliases: vec![],
    }) {
        Ok(m) => m,
        Err(e) => panic!("{}", e.0),
    }
}

fn site(f: usize, i: usize) -> InstructionName {
    InstructionName { parent_function: f, parent_block: 0, idx: i }
}

fn result(f: usize, i: usize) -> Operand {
    Operand::Local(LocalName::Instruction(site(f, i)))
}

fn parameter(f: usize, k: usize) -> Operand {
    Operand::Local(LocalName::Parameter(ParameterName { parent_function: f, index: k }))
}

fn stack(f: usize, i: usize) -> Alloc {
    Alloc::Stack(StackAlloc { name: site(f, i) })
}

fn heap(f: usize, i: usize) -> Alloc {
    Alloc::Heap(HeapAlloc { instruction: site(f, i) })
}

fn variable(g: usize) -> Alloc {
    Alloc::Global(GlobalAlloc { global: GlobalKey::Variable(g) })
}

fn extra(i: usize) -> Alloc {
    Alloc::Global(GlobalAlloc { global: GlobalKey::Extra(i) })
}

fn options(contexts: u8, unification: bool) -> Options {
    Options {
        check_assertions: true,
        check_strict: true,
        contexts,
        debug: false,
        metrics: true,
        unification,
    }
}

fn run(m: &Module, contexts: u8) -> OutputRelations {
    match analysis(m, &Signatures::default(), &options(contexts, true)) {
        Ok(out) => out,
        Err(e) => panic!("assertion failed: {:?}", e),
    }
}

fn points_to(out: &OutputRelations, op: &Operand) -> Vec<Alloc> {
    let mut found = Vec::new();
    for (_, o, a) in &out.operand_points_to {
        if o.equals(op) && !found.contains(a) {
            found.push(*a);
        }
    }
    found.sort_by_key(|a| format!("{:?}", a));
    found
}

fn disjoint(out: &OutputRelations, a: &Operand, b: &Operand) -> bool {
    let y = points_to(out, b);
    points_to(out, a).iter().all(|p| !y.contains(p))
}

fn edges_from(out: &OutputRelations, from: &Alloc) -> Vec<Alloc> {
    let mut found = Vec::new();
    for (a, b) in &out.alloc_points_to {
        if a == from && !found.contains(b) {
            found.push(*b);
        }
    }
    found.sort_by_key(|a| format!("{:?}", a));
    found
}

// ------------------------------------------------------------------
// Scenarios

fn heap_heap() -> Module {
    module(
        vec![function(
            "main",
            &[],
            vec![
                call("p", global("malloc"), vec![number(8)], pointer()),
                call("q", global("malloc"), vec![number(8)], pointer()),
                call_void("assert_disjoint", vec![local("p"), local("q")]),
            ],
            ret(None),
        )],
        vec![decl("malloc", 1, pointer()), decl("assert_disjoint", 2, Type::Void)],
        vec![],
    )
}

#[test]
fn heap_heap_disjoint() {
    let m = heap_heap();
    let out = run(&m, 1);
    assert_eq!(points_to(&out, &result(0, 0)), vec![heap(0, 0)]);
    assert_eq!(points_to(&out, &result(0, 1)), vec![heap(0, 1)]);
    assert_eq!(HeapAlloc::new(site(0, 0)).size(&m), Some(8));
    assert_eq!(HeapAlloc::new(site(0, 1)).size(&m), Some(8));
    assert_eq!(HeapAlloc::new(site(0, 2)).size(&m), None);
    assert!(disjoint(&out, &result(0, 0), &result(0, 1)));
    assert!(out.needs_signature.is_empty());
}

fn stack_stack() -> Module {
    module(
        vec![function(
            "main",
            &[],
            vec![
                alloca("a"),
                alloca("b"),
                call_void("assert_disjoint", vec![local("a"), local("b")]),
            ],
            ret(None),
        )],
        vec![decl("assert_disjoint", 2, Type::Void)],
        vec![],
    )
}

#[test]
fn stack_stack_disjoint() {
    let out = run(&stack_stack(), 1);
    assert_eq!(points_to(&out, &result(0, 0)), vec![stack(0, 0)]);
    assert_eq!(points_to(&out, &result(0, 1)), vec![stack(0, 1)]);
    assert!(disjoint(&out, &result(0, 0), &result(0, 1)));
    assert!(out.reachable.contains(&0));
    assert!(out.reachable.contains(&1));
}

fn context() -> Module {
    module(
        vec![
            function(
                "main",
                &[],
                vec![
                    alloca("a"),
                    alloca("b"),
                    call("p", global("id"), vec![local("a")], pointer()),
                    call("q", global("id"), vec![local("b")], pointer()),
                    call_void("assert_disjoint", vec![local("p"), local("q")]),
                ],
                ret(None),
            ),
            function("id", &["x"], vec![], ret(Some(local("x")))),
        ],
        vec![decl("assert_disjoint", 2, Type::Void)],
        vec![],
    )
}

#[test]
fn context_sensitive_at_depth_one() {
    let out = run(&context(), 1);
    assert_eq!(points_to(&out, &result(0, 2)), vec![stack(0, 0)]);
    assert_eq!(points_to(&out, &result(0, 3)), vec![stack(0, 1)]);
    assert!(disjoint(&out, &result(0, 2), &result(0, 3)));
    // Every context is one under the limit of the analysis.
    for (ctx, _, _) in &out.operand_points_to {
        assert_eq!(ctx.k, 1);
        assert!(ctx.len() <= 1);
    }
    for (ctx, _, _) in &out.calls {
        assert_eq!(ctx.k, 1);
        assert!(ctx.len() <= 1);
    }
    assert!(out.operand_points_to.iter().any(|(ctx, _, _)| ctx.len() == 1));
}

#[test]
fn operator_new_gives_a_heap_object_of_unknown_size() {
    let m = module(
        vec![function(
            "main",
            &[],
            vec![
                call("p", global("_Znwm"), vec![number(8)], pointer()),
                call("q", global("realloc"), vec![local("p"), number(24)], pointer()),
                call("r", global("calloc"), vec![number(2), number(8)], pointer()),
            ],
            ret(None),
        )],
        vec![decl("_Znwm", 1, pointer()), decl("realloc", 2, pointer()), decl("calloc", 2, pointer())],
        vec![],
    );
    let out = run(&m, 1);
    assert_eq!(points_to(&out, &result(0, 0)), vec![heap(0, 0)]);
    assert_eq!(points_to(&out, &result(0, 1)), vec![heap(0, 1)]);
    assert_eq!(points_to(&out, &result(0, 2)), vec![heap(0, 2)]);
    assert_eq!(HeapAlloc::new(site(0, 0)).size(&m), None);
    assert_eq!(HeapAlloc::new(site(0, 1)).size(&m), Some(24));
    assert_eq!(HeapAlloc::new(site(0, 2)).size(&m), None);
    assert!(out.needs_signature.is_empty());
}

#[test]
fn context_insensitive_at_depth_zero() {
    let out = match analysis(&context(), &Signatures::default(), &options(0, false)) {
        Ok(out) => out,
        Err(e) => panic!("{:?}", e),
    };
    assert_eq!(points_to(&out, &result(0, 2)), vec![stack(0, 0), stack(0, 1)]);
    assert_eq!(points_to(&out, &result(0, 3)), vec![stack(0, 0), stack(0, 1)]);
    assert!(!disjoint(&out, &result(0, 2), &result(0, 3)));
    for (ctx, _, _) in &out.operand_points_to {
        assert_eq!(ctx.len(), 0);
    }
    for (ctx, _, _) in &out.calls {
        assert_eq!(ctx.len(), 0);
    }
}

#[test]
fn unification_merges_what_one_operand_denotes() {
    let out = run(&context(), 0);
    // The parameter of `id` denotes both stack slots; they are unified and
    // the first of them stands for both.
    assert_eq!(points_to(&out, &parameter(1, 0)), vec![stack(0, 0)]);
    assert_eq!(points_to(&out, &result(0, 2)), vec![stack(0, 0)]);
    assert_eq!(points_to(&out, &result(0, 3)), vec![stack(0, 0)]);
    assert_eq!(points_to(&out, &result(0, 1)), vec![stack(0, 0)]);
    assert!(!disjoint(&out, &result(0, 2), &result(0, 3)));
}

fn memcpy() -> Module {
    module(
        vec![function(
            "main",
            &[],
            vec![
                alloca("src"),
                alloca("dst"),
                effect(RawOpcode::Store { address: local("src"), value: global("g") }),
                call_void("memcpy", vec![local("dst"), local("src"), number(8)]),
                instr("v", RawOpcode::Load { address: local("dst") }, pointer()),
                call_void("assert_may_alias", vec![local("v"), global("g")]),
            ],
            ret(None),
        )],
        vec![decl("memcpy", 3, pointer()), decl("assert_may_alias", 2, Type::Void)],
        vec![RawGlobal { name: "g".to_string(), initializer: None, is_constant: false, ty: pointer() }],
    )
}

#[test]
fn memcpy_propagates_points_to() {
    let out = run(&memcpy(), 1);
    let g = variable(0);
    assert_eq!(edges_from(&out, &stack(0, 0)), vec![g]);
    assert_eq!(edges_from(&out, &stack(0, 1)), vec![g]);
    assert_eq!(points_to(&out, &result(0, 4)), vec![g]);
    assert_eq!(points_to(&out, &Operand::Constant(Constant::Global(0))), vec![g]);
    assert!(!disjoint(&out, &result(0, 4), &Operand::Constant(Constant::Global(0))));
}

fn func_ptr() -> Module {
    module(
        vec![
            function(
                "main",
                &[],
                vec![
                    alloca("fp"),
                    effect(RawOpcode::Store { address: local("fp"), value: global("f") }),
                    instr("t", RawOpcode::Load { address: local("fp") }, pointer()),
                    effect(RawOpcode::Call {
                        function: RawCallee::Operand(local("t")),
                        arguments: vec![],
                    }),
                ],
                ret(None),
            ),
            function("f", &[], vec![call_void("assert_reachable", vec![])], ret(None)),
            function("unused", &[], vec![], ret(None)),
        ],
        vec![decl("assert_reachable", 0, Type::Void)],
        vec![],
    )
}

#[test]
fn indirect_call_via_function_pointer() {
    let out = run(&func_ptr(), 1);
    assert_eq!(points_to(&out, &result(0, 2)), vec![Alloc::Function(FunctionAlloc(1))]);
    assert!(out.reachable.contains(&1));
    assert!(out.reachable.contains(&3));
    assert!(!out.reachable.contains(&2));
    assert!(out.calls.iter().any(|(_, s, f)| *s == site(0, 3) && *f == 1));
    assert!(!out.calls.iter().any(|(_, s, f)| *s == site(0, 3) && *f != 1));
}

#[test]
fn one_heap_object_for_each_call_site() {
    // `malloc` is called through a pointer, and twice by its name with
    // different sizes: each site has its own object, whatever is asked for.
    let m = module(
        vec![function(
            "main",
            &[],
            vec![
                alloca("fp"),
                effect(RawOpcode::Store { address: local("fp"), value: global("malloc") }),
                instr("t", RawOpcode::Load { address: local("fp") }, pointer()),
                call("p", local("t"), vec![number(8)], pointer()),
                call("q", global("malloc"), vec![number(8)], pointer()),
                call("r", global("malloc"), vec![number(16)], pointer()),
            ],
            ret(None),
        )],
        vec![decl("malloc", 1, pointer())],
        vec![],
    );
    let out = run(&m, 1);
    assert_eq!(points_to(&out, &result(0, 3)), vec![heap(0, 3)]);
    assert_eq!(points_to(&out, &result(0, 4)), vec![heap(0, 4)]);
    assert_eq!(points_to(&out, &result(0, 5)), vec![heap(0, 5)]);
    assert_eq!(HeapAlloc::new(site(0, 3)).size(&m), None);
    assert_eq!(HeapAlloc::new(site(0, 4)).size(&m), Some(8));
    assert_eq!(HeapAlloc::new(site(0, 5)).size(&m), Some(16));
    let heaps: Vec<&Alloc> = out
        .operand_points_to
        .iter()
        .map(|(_, _, a)| a)
        .filter(|a| matches!(a, Alloc::Heap(_)))
        .collect();
    for a in &heaps {
        for b in &heaps {
            if let (Alloc::Heap(x), Alloc::Heap(y)) = (a, b) {
                assert_eq!(x == y, x.instruction == y.instruction);
            }
        }
    }
}

#[test]
fn no_relation_holds_a_row_twice() {
    for (m, k) in [(context(), 1), (context(), 0), (heap_heap(), 2), (func_ptr(), 1), (memcpy(), 1)] {
        let out = run(&m, k);
        for (i, f) in out.reachable.iter().enumerate() {
            assert!(!out.reachable[i + 1..].contains(f));
        }
        for (i, f) in out.needs_signature.iter().enumerate() {
            assert!(!out.needs_signature[i + 1..].contains(f));
        }
        for (i, e) in out.alloc_points_to.iter().enumerate() {
            assert!(!out.alloc_points_to[i + 1..].contains(e));
        }
        for (i, (c1, o1, a1)) in out.operand_points_to.iter().enumerate() {
            for (c2, o2, a2) in &out.operand_points_to[i + 1..] {
                assert!(!(c1.elems == c2.elems && o1.equals(o2) && a1 == a2));
            }
        }
        for (i, (c1, s1, f1)) in out.calls.iter().enumerate() {
            for (c2, s2, f2) in &out.calls[i + 1..] {
                assert!(!(c1.elems == c2.elems && s1 == s2 && f1 == f2));
            }
        }
    }
    // The function `id` is reachable in two contexts and listed once.
    let out = run(&context(), 1);
    assert_eq!(out.reachable.iter().filter(|f| **f == 1).count(), 1);
    assert_eq!(out.calls.iter().filter(|(_, _, f)| *f == 1).count(), 2);
}

fn return_alloc() -> Module {
    module(
        vec![function(
            "main",
            &[],
            vec![
                call("p", global("make"), vec![], pointer()),
                call("q", global("make"), vec![], pointer()),
                call_void("assert_disjoint", vec![local("p"), local("q")]),
            ],
            ret(None),
        )],
        vec![decl("make", 0, pointer()), decl("assert_disjoint", 2, Type::Void)],
        vec![],
    )
}

#[test]
fn signature_return_alloc_heap() {
    let sigs = Signatures::new(vec![(
        "^make$".to_string(),
        vec![Signature::ReturnAlloc { kind: AllocType::Heap }],
    )])
    .unwrap();
    let out = analysis(&return_alloc(), &sigs, &options(1, true)).unwrap();
    assert_eq!(points_to(&out, &result(0, 0)), vec![heap(0, 0)]);
    assert_eq!(points_to(&out, &result(0, 1)), vec![heap(0, 1)]);
    assert!(disjoint(&out, &result(0, 0), &result(0, 1)));
    assert!(out.needs_signature.is_empty());
}

// ------------------------------------------------------------------
// Externals and signatures

#[test]
fn external_without_signature_returns_top_and_needs_one() {
    let out = analysis(
        &return_alloc(),
        &Signatures::default(),
        &Options { check_strict: false, ..options(1, true) },
    )
    .unwrap();
    assert_eq!(points_to(&out, &result(0, 0)), vec![Alloc::Top]);
    assert_eq!(points_to(&out, &result(0, 1)), vec![Alloc::Top]);
    assert!(out.needs_signature.contains(&1));
    assert!(!out.needs_signature.contains(&2));
    assert_eq!(edges_from(&out, &Alloc::Top), vec![Alloc::Top]);
    let metrics = out.metrics.unwrap();
    assert_eq!(metrics.points_to_top, 2);
    assert_eq!(metrics.callgraph_size, 3);
    assert_eq!(metrics.invalid_calls, 0);
}

#[test]
fn signature_effects_on_result_and_arguments() {
    let m = module(
        vec![function(
            "main",
            &[],
            vec![
                alloca("a"),
                alloca("b"),
                effect(RawOpcode::Store { address: local("a"), value: local("b") }),
                call("r", global("same"), vec![local("a")], pointer()),
                call("e", global("errno_location"), vec![], pointer()),
                call("c", global("copy"), vec![local("b"), local("a")], pointer()),
                call("s", global("slot"), vec![], pointer()),
            ],
            ret(None),
        )],
        vec![
            decl("same", 1, pointer()),
            decl("errno_location", 0, pointer()),
            decl("copy", 2, pointer()),
            decl("slot", 0, pointer()),
        ],
        vec![RawGlobal { name: "errno".to_string(), initializer: None, is_constant: false, ty: pointer() }],
    );
    let sigs = Signatures::new(vec![
        ("^same$".to_string(), vec![Signature::ReturnAliasesArg { arg: 0 }]),
        (
            "^errno_location$".to_string(),
            vec![
                Signature::ReturnPointsToGlobal { global: "errno".to_string() },
                Signature::ReturnPointsToGlobal { global: "fresh".to_string() },
            ],
        ),
        ("^copy$".to_string(), vec![Signature::ArgMemcpyArg { dst: 0, src: 1 }]),
        ("^slot$".to_string(), vec![Signature::ReturnAlloc { kind: AllocType::Stack }]),
    ])
    .unwrap();
    let out = analysis(&m, &sigs, &Options { unification: false, check_strict: false, ..options(1, false) }).unwrap();
    assert_eq!(points_to(&out, &result(0, 3)), vec![stack(0, 0)]);
    // The named global of the module, and a fresh one: the names of the
    // signatures follow the eight fixed ones.
    assert_eq!(points_to(&out, &result(0, 4)), vec![extra(9), variable(0)]);
    // copy(b, a): what `a` points to, `b` points to.
    assert_eq!(edges_from(&out, &stack(0, 0)), vec![stack(0, 1)]);
    assert_eq!(edges_from(&out, &stack(0, 1)), vec![stack(0, 1)]);
    assert_eq!(points_to(&out, &result(0, 6)), vec![stack(0, 6)]);
    assert!(out.needs_signature.is_empty());
}

#[test]
fn setup_lists_the_fixed_globals_then_the_named() {
    let m = return_alloc();
    let sigs = Signatures::new(vec![(
        "make".to_string(),
        vec![
            Signature::ReturnPointsToGlobal { global: "x".to_string() },
            Signature::ReturnPointsToGlobal { global: "*argv".to_string() },
            Signature::ReturnPointsToGlobal { global: "x".to_string() },
        ],
    )])
    .unwrap();
    let setup = Setup::new(&m, &sigs, 2, false, false);
    let names: Vec<&str> = setup.extra_globals.iter().map(|g| g.get()).collect();
    assert_eq!(
        names,
        vec![
            "*argv",
            "*argv[*]",
            "*@optarg",
            "*@stderr",
            "*@stdin",
            "*@stdout",
            "__ctype_b_loc_alloc",
            "__ctype_b_loc_alloc_alloc",
            "x"
        ]
    );
    assert_eq!(setup.signatures.len(), 2);
    assert_eq!(setup.signatures[0].as_ref().unwrap().len(), 3);
    assert!(setup.signatures[1].is_none());
    assert_eq!(setup.contexts, 2);
    assert!(!setup.unification && !setup.metrics && setup.callgraph.is_none());
    let out = solve(&m, &setup, false, false).unwrap();
    assert_eq!(points_to(&out, &result(0, 0)), vec![extra(0), extra(8)]);
}

// ------------------------------------------------------------------
// Globals, argv, pass-through

#[test]
fn argv_and_implicit_globals() {
    let m = module(
        vec![function(
            "main",
            &["argc", "argv"],
            vec![
                instr("out", RawOpcode::Load { address: global("stdout") }, pointer()),
                instr("arg", RawOpcode::Load { address: local("argv") }, pointer()),
            ],
            ret(None),
        )],
        vec![],
        vec![
            RawGlobal { name: "stdout".to_string(), initializer: None, is_constant: false, ty: Type::Pointer { pointee_is_pointer: true } },
            RawGlobal {
                name: "table".to_string(),
                initializer: Some(RawConstant::Array {
                    elements: yapall::llvm::raw::RawConstantList::from_vec(vec![
                        RawConstant::GlobalReference { name: "main".to_string() },
                        RawConstant::BitCast {
                            operand: Box::new(RawConstant::GlobalReference { name: "stdout".to_string() }),
                        },
                        RawConstant::Null,
                        RawConstant::Int { bits: 32, value: 3 },
                    ]),
                }),
                is_constant: true,
                ty: pointer(),
            },
        ],
    );
    let out = run(&m, 1);
    let stdout = variable(0);
    assert_eq!(points_to(&out, &parameter(0, 1)), vec![extra(0)]);
    assert_eq!(points_to(&out, &parameter(0, 0)), vec![]);
    assert_eq!(points_to(&out, &result(0, 1)), vec![extra(1)]);
    assert_eq!(points_to(&out, &result(0, 0)), vec![extra(5)]);
    assert_eq!(edges_from(&out, &stdout), vec![extra(5)]);
    assert_eq!(edges_from(&out, &extra(0)), vec![extra(1)]);
    assert_eq!(edges_from(&out, &extra(6)), vec![extra(7)]);
    assert_eq!(
        edges_from(&out, &variable(1)),
        vec![Alloc::Function(FunctionAlloc(0)), stdout, Alloc::Null]
    );
}

#[test]
fn casts_of_locals_share_the_local() {
    let m = module(
        vec![function(
            "main",
            &[],
            vec![
                alloca("a"),
                instr("b", RawOpcode::BitCast { operand: local("a") }, pointer()),
                instr("c", RawOpcode::GetElementPtr { address: local("b") }, pointer()),
                instr("d", RawOpcode::Select { true_value: local("c"), false_value: number(0) }, pointer()),
                instr("e", RawOpcode::Phi { incoming_values: vec![local("d"), global("main")] }, pointer()),
                instr("f", RawOpcode::BitCast { operand: global("main") }, pointer()),
                instr("g", RawOpcode::Sub { operand0: local("a"), operand1: local("f") }, pointer()),
            ],
            ret(None),
        )],
        vec![],
        vec![],
    );
    // The uses of `b` and `c` read `a` itself.
    match &m.functions[0].blocks[0].instrs[2].opcode {
        yapall::llvm::instruction::Opcode::GetElementPtr(g) => assert!(g.pointer.equals(&result(0, 0))),
        _ => panic!(),
    }
    match &m.functions[0].blocks[0].instrs[3].opcode {
        yapall::llvm::instruction::Opcode::Select(s) => assert!(s.true_value.equals(&result(0, 0))),
        _ => panic!(),
    }
    let out = run(&m, 0);
    assert_eq!(points_to(&out, &result(0, 3)), vec![stack(0, 0)]);
    assert_eq!(
        points_to(&out, &result(0, 4)),
        vec![Alloc::Function(FunctionAlloc(0)), stack(0, 0)]
    );
    assert_eq!(points_to(&out, &result(0, 5)), vec![Alloc::Function(FunctionAlloc(0))]);
    assert_eq!(points_to(&out, &result(0, 6)), vec![stack(0, 0)]);
    // No fact for the results of the casts of locals.
    assert_eq!(points_to(&out, &result(0, 1)), vec![]);
    assert_eq!(points_to(&out, &result(0, 2)), vec![]);
    // A constant integer points to nothing.
    assert_eq!(
        points_to(&out, &Operand::Constant(Constant::Int { bits: 64, value: 0 })),
        vec![]
    );
}

// ------------------------------------------------------------------
// Boundaries, assertions and metrics

#[test]
fn no_main_no_facts() {
    let m = module(
        vec![function("f", &[], vec![alloca("a")], ret(None))],
        vec![],
        vec![],
    );
    let out = run(&m, 1);
    assert!(out.reachable.is_empty());
    assert!(out.calls.is_empty());
    assert!(out.operand_points_to.is_empty());
    assert!(out.needs_signature.is_empty());
    assert_eq!(out.metrics.unwrap().callgraph_size, 0);
    assert_eq!(edges_from(&out, &Alloc::Top), vec![Alloc::Top]);
}

#[test]
fn mangled_main_is_where_a_program_starts() {
    let m = module(
        vec![function("_ZN3foo4main17h0123456789abcdefE", &[], vec![alloca("a")], ret(None))],
        vec![],
        vec![],
    );
    assert_eq!(run(&m, 1).reachable, vec![0]);
    let m = module(vec![function("_ZN3foo5start", &[], vec![], ret(None))], vec![], vec![]);
    assert!(run(&m, 1).reachable.is_empty());
}

#[test]
fn every_call_reaches_its_callee() {
    for m in [heap_heap(), context(), func_ptr(), memcpy()] {
        for k in [0, 1, 2] {
            let out = run(&m, k);
            for (_, _, f) in &out.calls {
                assert!(out.reachable.contains(f));
            }
        }
    }
}

#[test]
fn results_are_canonical_and_repeatable() {
    let first = run(&context(), 0);
    let second = run(&context(), 0);
    let mut a: Vec<String> = first.operand_points_to.iter().map(|r| format!("{:?}", r)).collect();
    let mut b: Vec<String> = second.operand_points_to.iter().map(|r| format!("{:?}", r)).collect();
    a.sort();
    b.sort();
    assert_eq!(a, b);
    assert_eq!(first.metrics, second.metrics);
    // Only the representative of the unified stack slots is named.
    for (_, _, alloc) in &first.operand_points_to {
        assert_ne!(*alloc, stack(0, 1));
    }
}

#[test]
fn without_unification_every_allocation_stands_for_itself() {
    let out = analysis(&context(), &Signatures::default(), &options(0, false)).unwrap();
    assert_eq!(points_to(&out, &parameter(1, 0)), vec![stack(0, 0), stack(0, 1)]);
}

#[test]
fn call_without_target_fails_the_assertion() {
    let m = module(
        vec![function(
            "main",
            &[],
            vec![
                alloca("fp"),
                instr("t", RawOpcode::Load { address: local("fp") }, pointer()),
                effect(RawOpcode::Call { function: RawCallee::Operand(local("t")), arguments: vec![] }),
            ],
            ret(None),
        )],
        vec![],
        vec![],
    );
    let failure = analysis(&m, &Signatures::default(), &Options { check_strict: false, ..options(1, true) })
        .unwrap_err();
    assert_eq!(failure.kind, FailureKind::CallWithoutTarget);
    assert_eq!(failure.site, site(0, 2));
    assert_eq!(failure.ctx.len(), 0);
    // In strict mode the load before the call is found first.
    let failure = analysis(&m, &Signatures::default(), &options(1, true)).unwrap_err();
    assert_eq!(failure.kind, FailureKind::InstructionWithoutPointee);
    assert_eq!(failure.site, site(0, 1));
    assert!(analysis(
        &m,
        &Signatures::default(),
        &Options { check_assertions: false, check_strict: false, ..options(1, true) }
    )
    .is_ok());
}

#[test]
fn strict_mode_wants_a_pointee_for_every_pointer() {
    let m = module(
        vec![function(
            "main",
            &[],
            vec![alloca("p"), instr("v", RawOpcode::Load { address: local("p") }, pointer())],
            ret(None),
        )],
        vec![],
        vec![],
    );
    let failure = analysis(&m, &Signatures::default(), &options(1, true)).unwrap_err();
    assert_eq!(failure.kind, FailureKind::InstructionWithoutPointee);
    assert_eq!(failure.site, site(0, 1));
    assert!(analysis(&m, &Signatures::default(), &Options { check_strict: false, ..options(1, true) }).is_ok());
}

#[test]
fn cast_constant_without_pointee_fails_the_assertion() {
    let cast = RawOperand::Constant(RawConstant::BitCast {
        operand: Box::new(RawConstant::Int { bits: 64, value: 4096 }),
    });
    let m = module(
        vec![function(
            "main",
            &[],
            vec![instr("v", RawOpcode::Load { address: cast }, Type::Other)],
            ret(None),
        )],
        vec![],
        vec![],
    );
    let failure = analysis(&m, &Signatures::default(), &Options { check_strict: false, ..options(1, true) })
        .unwrap_err();
    assert_eq!(failure.kind, FailureKind::ConstantWithoutPointee);
    assert_eq!(failure.site, site(0, 0));
}

#[test]
fn metrics_count_imprecision() {
    let m = module(
        vec![function(
            "main",
            &[],
            vec![
                alloca("a"),
                call_void("free", vec![local("a")]),
                effect(RawOpcode::Store { address: global("main"), value: local("a") }),
                instr("v", RawOpcode::Load { address: RawOperand::Constant(RawConstant::Null) }, Type::Other),
                effect(RawOpcode::Call { function: RawCallee::Operand(local("a")), arguments: vec![] }),
                call_void("memcpy", vec![RawOperand::Constant(RawConstant::Null), global("main")]),
            ],
            ret(None),
        )],
        vec![decl("free", 1, Type::Void), decl("memcpy", 3, Type::Void)],
        vec![],
    );
    let out = analysis(
        &m,
        &Signatures::default(),
        &Options { check_assertions: false, check_strict: false, ..options(1, false) },
    )
    .unwrap();
    let metrics = out.metrics.unwrap();
    assert_eq!(metrics.callgraph_size, 2);
    assert_eq!(metrics.free_non_heap, 1);
    assert_eq!(metrics.invalid_calls, 1);
    assert_eq!(metrics.invalid_loads, 1);
    assert_eq!(metrics.invalid_stores, 1);
    assert_eq!(metrics.invalid_memcpy_dsts, 1);
    assert_eq!(metrics.invalid_memcpy_srcs, 1);
    assert_eq!(metrics.points_to_top, 0);
    let out = analysis(
        &m,
        &Signatures::default(),
        &Options { check_assertions: false, check_strict: false, metrics: false, ..options(1, false) },
    )
    .unwrap();
    assert!(out.metrics.is_none());
}

#[test]
fn calls_through_top_fit_by_arity() {
    let m = module(
        vec![
            function(
                "main",
                &[],
                vec![
                    call("t", global("unknown"), vec![], pointer()),
                    effect(RawOpcode::Call {
                        function: RawCallee::Operand(local("t")),
                        arguments: vec![number(1)],
                    }),
                    effect(RawOpcode::Call { function: RawCallee::Asm, arguments: vec![] }),
                ],
                ret(None),
            ),
            function("one", &["x"], vec![], ret(None)),
            function("two", &["x", "y"], vec![], ret(None)),
        ],
        vec![decl("unknown", 0, pointer())],
        vec![],
    );
    let out = analysis(&m, &Signatures::default(), &Options { check_strict: false, ..options(1, true) }).unwrap();
    let mut through_top: Vec<usize> =
        out.calls.iter().filter(|(_, s, _)| *s == site(0, 1)).map(|(_, _, f)| *f).collect();
    through_top.sort();
    through_top.dedup();
    assert_eq!(through_top, vec![0, 1, 3]);
    let mut through_asm: Vec<usize> =
        out.calls.iter().filter(|(_, s, _)| *s == site(0, 2)).map(|(_, _, f)| *f).collect();
    through_asm.sort();
    through_asm.dedup();
    assert_eq!(through_asm, vec![0, 3]);
}

#[test]
fn the_fixed_point_is_at_quiescence() {
    for m in [context(), memcpy(), func_ptr()] {
        for unification in [false, true] {
            let setup = Setup::new(&m, &Signatures::default(), 1, unification, true);
            let state = saturate(&m, &setup);
            let sites = m.sites();
            for (i, a) in state.iter().enumerate() {
                for b in &state[i + 1..] {
                    assert!(!a.equals(b));
                }
                for h in single_consequences(&m, &setup, &sites, a) {
                    assert!(contains_fact(&state, &h), "{:?}", h);
                }
                for b in &state {
                    for h in pair_consequences(&m, &setup, &sites, a, b) {
                        assert!(contains_fact(&state, &h), "{:?}", h);
                    }
                }
            }
        }
    }
}

#[test]
fn unified_allocations_share_a_root() {
    let mut out = run(&context(), 0);
    assert_eq!(out.unified.allocs, vec![stack(0, 0), stack(0, 1)]);
    assert_eq!(out.unified.lookup(0), stack(0, 0));
    assert_eq!(out.unified.lookup(1), stack(0, 0));
    // On the way to depth one the slots stay apart.
    let out = run(&context(), 1);
    assert!(out.unified.allocs.is_empty());
    // Without unification nothing has a parent.
    let out = analysis(&context(), &Signatures::default(), &options(0, false)).unwrap();
    assert!(out.unified.allocs.is_empty());
    assert!(out.unified.classes.parent.iter().all(|p| p.is_none()));
}

#[test]
fn a_chain_of_calls() {
    // f0 = main passes a stack slot down a chain of functions; the last one
    // hands its parameter back, and every function returns what it gets.
    let n = 12;
    let mut functions = Vec::new();
    for i in 0..n {
        let name = if i == 0 { "main".to_string() } else { format!("f{}", i) };
        let next = format!("f{}", i + 1);
        let argument = if i == 0 { local("slot") } else { local("x") };
        let mut instrs = Vec::new();
        if i == 0 {
            instrs.push(alloca("slot"));
        }
        instrs.push(call("r", global(&next), vec![argument], pointer()));
        let parameters: &[&str] = if i == 0 { &[] } else { &["x"] };
        functions.push(function(&name, parameters, instrs, ret(Some(local("r")))));
    }
    functions.push(function(&format!("f{}", n), &["x"], vec![], ret(Some(local("x")))));
    let m = module(functions, vec![], vec![]);
    for contexts in [0, 2] {
        let out = run(&m, contexts);
        assert_eq!(points_to(&out, &result(0, 1)), vec![stack(0, 0)]);
        assert_eq!(points_to(&out, &parameter(n, 0)), vec![stack(0, 0)]);
        assert_eq!(out.reachable.len(), n + 1);
        assert_eq!(out.metrics.unwrap().callgraph_size, n);
        for (ctx, _, _) in &out.operand_points_to {
            assert!(ctx.len() <= contexts as usize);
        }
    }
}

#[test]
fn rows_are_kept_once() {
    assert_eq!(functions_once(&vec![3, 1, 3, 2, 1]), vec![3, 1, 2]);
    assert_eq!(functions_once(&vec![]), Vec::<usize>::new());
    let e = |a: usize, b: usize| (stack(0, a), stack(0, b));
    assert_eq!(edges_once(&vec![e(0, 1), e(1, 0), e(0, 1), e(0, 0)]), vec![e(0, 1), e(1, 0), e(0, 0)]);
    let ctx = |sites: Vec<usize>| KLimited::new(2, sites.into_iter().map(|i| site(0, i)).collect());
    let rows = vec![
        (ctx(vec![1]), result(0, 0), stack(0, 0)),
        (ctx(vec![]), result(0, 0), stack(0, 0)),
        (ctx(vec![1]), result(0, 0), stack(0, 0)),
        (ctx(vec![1]), result(0, 0), stack(0, 1)),
    ];
    let once = points_to_rows_once(&rows, 2);
    assert_eq!(once.len(), 3);
    assert_eq!(once[2].2, stack(0, 1));
    assert!(once.iter().all(|(c, _, _)| c.k == 2));
    let calls = vec![(ctx(vec![1]), site(0, 2), 1), (ctx(vec![1]), site(0, 2), 1), (ctx(vec![1]), site(0, 2), 0)];
    let once = call_rows_once(&calls, 2);
    assert_eq!(once.len(), 2);
    assert_eq!(once[1].2, 0);
}
