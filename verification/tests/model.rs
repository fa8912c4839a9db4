use yapall::llvm::constant::{Constant, ConstantList};
use yapall::llvm::instruction::Opcode;
use yapall::llvm::name::{BlockName, InstructionName, LocalName, ParameterName};
use yapall::llvm::names::GlobalNames;
use yapall::llvm::operand::{Callee, InstructionOperand, Locals, Operand};
use yapall::llvm::raw::{
    RawAlias, RawBlock, RawCallee, RawConstant, RawConstantList, RawDeclaration, RawFunction,
    RawGlobal, RawInstruction, RawModule, RawOpcode, RawOperand, RawParameter, RawTerminator,
    RawTerminatorOpcode,
};
use yapall::llvm::terminator::TerminatorOpcode;
use yapall::llvm::{Decl, Global, Label, Module, Type};

fn label(name: &str) -> Label {
    Label::Name(name.to_string())
}

fn local(name: &str) -> RawOperand {
    RawOperand::Local { name: label(name) }
}

fn reference(name: &str) -> RawConstant {
    RawConstant::GlobalReference { name: name.to_string() }
}

fn pointer() -> Type {
    Type::Pointer { pointee_is_pointer: false }
}

fn instr(result: Option<&str>, opcode: RawOpcode) -> RawInstruction {
    RawInstruction { result: result.map(label), opcode, ty: pointer() }
}

fn ret(operand: Option<RawOperand>) -> RawTerminator {
    RawTerminator {
        result: None,
        opcode: RawTerminatorOpcode::Ret { return_operand: operand },
        ty: Type::Void,
    }
}

fn function(name: &str, parameters: &[&str], blocks: Vec<(Vec<RawInstruction>, RawTerminator)>) -> RawFunction {
    RawFunction {
        name: name.to_string(),
        parameters: parameters.iter().map(|p| RawParameter { name: label(p), ty: pointer() }).collect(),
        basic_blocks: blocks
            .into_iter()
            .enumerate()
            .map(|(i, (instrs, term))| RawBlock { name: Label::Number(i), instrs, term })
            .collect(),
        return_type: Type::Void,
    }
}

fn raw(functions: Vec<RawFunction>) -> RawModule {
    RawModule {
        functions,
        func_declarations: vec![RawDeclaration {
            name: "ext".to_string(),
            parameters: vec![pointer(), Type::Other],
            return_type: pointer(),
        }],
        global_vars: vec![
            RawGlobal { name: "g".to_string(), initializer: Some(reference("f")), is_constant: true, ty: Type::Pointer { pointee_is_pointer: true } },
            RawGlobal { name: "h".to_string(), initializer: None, is_constant: false, ty: Type::Other },
        ],
        global_aliases: vec![RawAlias { name: "a".to_string() }],
    }
}

fn name(f: usize, b: usize, i: usize) -> InstructionName {
    InstructionName::new(f, b, i)
}

fn result(f: usize, b: usize, i: usize) -> Operand {
    InstructionOperand::new(name(f, b, i)).operand()
}

#[test]
fn a_module_is_modelled_by_position() {
    let m = Module::new(&raw(vec![
        function(
            "f",
            &["p", "q"],
            vec![
                (
                    vec![
                        instr(Some("x"), RawOpcode::Load { address: local("later") }),
                        instr(None, RawOpcode::Store { address: local("p"), value: local("x") }),
                        instr(
                            Some("r"),
                            RawOpcode::Call {
                                function: RawCallee::Operand(RawOperand::Constant(reference("ext"))),
                                arguments: vec![local("q"), RawOperand::Metadata],
                            },
                        ),
                    ],
                    ret(None),
                ),
                (
                    vec![instr(Some("later"), RawOpcode::Alloca { num_elements: RawOperand::Constant(RawConstant::Int { bits: 32, value: 1 }) })],
                    RawTerminator {
                        result: Some(label("i")),
                        opcode: RawTerminatorOpcode::Invoke { function: RawCallee::Asm, arguments: vec![local("i")] },
                        ty: Type::Other,
                    },
                ),
            ],
        ),
        function("main", &[], vec![(vec![], ret(Some(RawOperand::Constant(reference("a")))))]),
    ]))
    .unwrap();
    assert_eq!(m.functions.len(), 2);
    assert_eq!(m.decls.len(), 1);
    assert_eq!(m.globals.len(), 2);
    assert_eq!(m.aliases.len(), 1);
    let f = &m.functions[0];
    assert_eq!(f.name.get(), "f");
    assert_eq!(f.parameters.len(), 2);
    assert!(f.parameters[1].equals(&Operand::Local(LocalName::Parameter(ParameterName {
        parent_function: 0,
        index: 1
    }))));
    assert!(f.parameter_labels[1].equals(&label("q")));
    assert_eq!(f.return_type, Type::Void);
    assert_eq!(f.blocks[1].name, BlockName { parent_function: 0, index: 1 });
    assert!(f.blocks[1].label.equals(&Label::Number(1)));
    assert_eq!(f.blocks[0].instrs[2].name, name(0, 0, 2));
    assert_eq!(f.blocks[0].instrs[2].ty, pointer());
    assert_eq!(f.blocks[0].terminator.name, name(0, 0, 4));
    assert_eq!(f.blocks[1].terminator.name, name(0, 1, 2));
    // A local may be read above its definition.
    match &f.blocks[0].instrs[0].opcode {
        Opcode::Load(l) => assert!(l.pointer.equals(&result(0, 1, 0))),
        _ => panic!(),
    }
    match &f.blocks[0].instrs[1].opcode {
        Opcode::Store(s) => {
            assert!(s.pointer.equals(&f.parameters[0]));
            assert!(s.value.equals(&result(0, 0, 0)));
        },
        _ => panic!(),
    }
    match &f.blocks[0].instrs[2].opcode {
        Opcode::Call(c) => {
            // Declarations are numbered after the definitions.
            assert!(matches!(&c.callee, Callee::Operand(Operand::Constant(Constant::Function(2)))));
            assert_eq!(c.args.len(), 2);
            assert!(c.args[0].equals(&f.parameters[1]));
            assert!(c.args[1].equals(&Operand::Metadata));
            assert_eq!(c.operands().len(), 3);
        },
        _ => panic!(),
    }
    match &f.blocks[1].terminator.opcode {
        TerminatorOpcode::Invoke(i) => {
            assert!(matches!(i.callee, Callee::Asm));
            // The result of a terminator is a local too.
            assert!(i.args[0].equals(&result(0, 1, 2)));
            assert_eq!(i.operands().len(), 1);
        },
        _ => panic!(),
    }
    match &m.functions[1].blocks[0].terminator.opcode {
        // Aliases are numbered after the variables.
        TerminatorOpcode::Ret(r) => {
            assert!(r.operand.as_ref().unwrap().equals(&Operand::Constant(Constant::Global(2))));
            assert_eq!(r.operands().len(), 1);
        },
        _ => panic!(),
    }
    assert_eq!(m.decls[0].name.get(), "ext");
    assert_eq!(m.decls[0].parameters, vec![pointer(), Type::Other]);
    assert!(m.decls[0].has_pointer());
    assert_eq!(m.globals[0].name.get(), "g");
    assert!(m.globals[0].is_const);
    assert!(m.globals[0].initializer.as_ref().unwrap().equals(&Constant::Function(0)));
    assert_eq!(m.globals[0].size(), Some(8));
    assert_eq!(m.globals[1].size(), None);
    assert!(m.globals[1].initializer.is_none());
    assert_eq!(m.aliases[0].get(), "a");
    assert_eq!(m.sites().len(), 7);
    assert!(m.has_site(name(0, 0, 4)) && !m.has_site(name(0, 0, 3)) && !m.has_site(name(2, 0, 0)));
    assert!(m.has_instruction(name(0, 0, 2)) && !m.has_instruction(name(0, 0, 4)));
    assert_eq!(m.arity_of(0), 2);
    assert_eq!(m.arity_of(2), 2);
    assert_eq!(m.name_of(2), "ext");
    assert!(m.has_function(2) && !m.has_function(3));
    assert_eq!(m.operands_at(name(0, 0, 1)).len(), 2);
    assert!(m.call_at(name(0, 0, 2)).is_some() && m.call_at(name(0, 1, 2)).is_some());
    assert!(m.call_at(name(0, 0, 0)).is_none());
}

#[test]
fn building_twice_gives_the_same_model() {
    let text = || {
        raw(vec![function(
            "f",
            &["p"],
            vec![(vec![instr(Some("x"), RawOpcode::BitCast { operand: local("p") })], ret(Some(local("x"))))],
        )])
    };
    let a = Module::new(&text()).unwrap();
    let b = Module::new(&text()).unwrap();
    assert_eq!(format!("{:?}", a), format!("{:?}", b));
}

#[test]
fn a_local_without_definition_is_malformed() {
    let e = Module::new(&raw(vec![function(
        "f",
        &[],
        vec![(vec![instr(Some("x"), RawOpcode::Load { address: local("nowhere") })], ret(None))],
    )]))
    .unwrap_err();
    assert_eq!(e.0, "Bad local: %nowhere");
    assert_eq!(e.text(), "Malformed LLVM module: Bad local: %nowhere");
    let e = Module::new(&raw(vec![function(
        "f",
        &[],
        vec![(
            vec![],
            RawTerminator {
                result: None,
                opcode: RawTerminatorOpcode::Ret {
                    return_operand: Some(RawOperand::Local { name: Label::Number(7) }),
                },
                ty: Type::Void,
            },
        )],
    )]))
    .unwrap_err();
    assert_eq!(e.0, "Bad local: %7");
}

#[test]
fn the_first_error_counts() {
    let e = Module::new(&raw(vec![
        function(
            "f",
            &[],
            vec![(
                vec![
                    instr(None, RawOpcode::Store { address: local("first"), value: local("second") }),
                    instr(None, RawOpcode::Load { address: local("third") }),
                ],
                ret(Some(local("fourth"))),
            )],
        ),
        function("g", &[], vec![(vec![], ret(Some(local("fifth"))))]),
    ]))
    .unwrap_err();
    assert_eq!(e.0, "Bad local: %first");
}

#[test]
fn a_reference_to_a_global_without_definition_is_malformed() {
    let e = Module::new(&raw(vec![function(
        "f",
        &[],
        vec![(
            vec![instr(
                None,
                RawOpcode::Load {
                    address: RawOperand::Constant(RawConstant::BitCast {
                        operand: Box::new(reference("missing")),
                    }),
                },
            )],
            ret(None),
        )],
    )]))
    .unwrap_err();
    assert_eq!(e.0, "Couldn't find global missing");
    let mut text = raw(vec![]);
    text.global_vars[0].initializer = None;
    text.global_vars[1].initializer = Some(RawConstant::Struct {
        values: RawConstantList::from_vec(vec![RawConstant::Null, reference("nope"), reference("nil")]),
    });
    assert_eq!(Module::new(&text).unwrap_err().0, "Couldn't find global nope");
}

#[test]
fn casts_of_locals_stand_for_the_local() {
    let m = Module::new(&raw(vec![function(
        "f",
        &["p"],
        vec![(
            vec![
                instr(Some("a"), RawOpcode::BitCast { operand: local("p") }),
                instr(Some("b"), RawOpcode::GetElementPtr { address: local("a") }),
                instr(Some("c"), RawOpcode::PtrToInt { operand: local("b") }),
                instr(Some("d"), RawOpcode::IntToPtr { operand: local("c") }),
                instr(Some("e"), RawOpcode::BitCast { operand: local("z") }),
                instr(Some("z"), RawOpcode::Add { operand0: local("d"), operand1: local("e") }),
            ],
            ret(None),
        )],
    )]))
    .unwrap();
    let p = Operand::Local(LocalName::Parameter(ParameterName { parent_function: 0, index: 0 }));
    match &m.functions[0].blocks[0].instrs[5].opcode {
        Opcode::Add(a) => {
            assert!(a.operand0.equals(&p));
            // `z` is defined below the cast: the cast stands for itself.
            assert!(a.operand1.equals(&result(0, 0, 4)));
        },
        _ => panic!(),
    }
    match &m.functions[0].blocks[0].instrs[4].opcode {
        Opcode::BitCast(b) => assert!(b.pointer.equals(&result(0, 0, 5))),
        _ => panic!(),
    }
}

#[test]
fn the_later_of_two_names_counts() {
    let mut names = GlobalNames::new();
    names.insert("x", Constant::Function(0));
    names.insert("y", Constant::Global(0));
    names.insert("x", Constant::Global(1));
    assert!(names.get("x").unwrap().equals(&Constant::Global(1)));
    assert!(names.get("y").unwrap().equals(&Constant::Global(0)));
    assert!(names.get("z").is_none());
    let table = Module::global_names(&raw(vec![function("g", &[], vec![])]));
    assert_eq!(table.entries.len(), 5);
    // A function called like a variable: the variable counts.
    assert!(table.get("g").unwrap().equals(&Constant::Global(0)));
    assert!(table.get("ext").unwrap().equals(&Constant::Function(1)));
    assert!(table.get("a").unwrap().equals(&Constant::Global(2)));
    let mut locals = Locals::new();
    locals.insert(&label("v"), Operand::Metadata);
    locals.insert(&Label::Number(1), result(0, 0, 0));
    locals.insert(&label("v"), result(0, 0, 1));
    assert!(locals.get(&label("v")).unwrap().equals(&result(0, 0, 1)));
    assert!(locals.get(&Label::Number(1)).unwrap().equals(&result(0, 0, 0)));
    assert!(locals.get(&label("1")).is_none());
}

#[test]
fn constants_and_their_pointers() {
    let names = Module::global_names(&raw(vec![function("f", &[], vec![])]));
    let c = Constant::create(
        &names,
        &RawConstant::Array {
            elements: RawConstantList::from_vec(vec![
                RawConstant::GetElementPtr { address: Box::new(reference("f")) },
                RawConstant::Struct {
                    values: RawConstantList::from_vec(vec![
                        RawConstant::PtrToInt { operand: Box::new(reference("h")) },
                        RawConstant::IntToPtr { operand: Box::new(RawConstant::Int { bits: 8, value: 2 }) },
                        RawConstant::Add,
                        RawConstant::Undef,
                    ]),
                },
                RawConstant::Null,
                RawConstant::Select,
                RawConstant::Other,
            ]),
        },
    )
    .unwrap();
    let pointers = c.pointers();
    let expected = vec![
        Constant::Function(0),
        Constant::Global(1),
        Constant::Int { bits: 8, value: 2 },
        Constant::Undef,
        Constant::Null,
    ];
    assert_eq!(pointers.len(), expected.len());
    for (p, e) in pointers.iter().zip(&expected) {
        assert!(p.equals(e), "{:?} {:?}", p, e);
    }
    assert!(c.clone().equals(&c));
    assert!(!c.equals(&Constant::Array(ConstantList::from_vec(vec![]))));
    assert!(Constant::Mul.pointers().is_empty());
    assert!(!Constant::Mul.equals(&Constant::Add));
    assert!(Operand::Constant(Constant::Int { bits: 1, value: 9 }).constant_int() == Some(9));
    assert!(Operand::Constant(Constant::Null).constant_int().is_none());
    assert!(Operand::Metadata.constant_int().is_none());
}

#[test]
fn declarations_and_globals() {
    let d = Decl::new(&RawDeclaration {
        name: "puts".to_string(),
        parameters: vec![Type::Other, Type::Void],
        return_type: Type::Other,
    });
    assert!(!d.has_pointer());
    assert_eq!(d.name.get(), "puts");
    let d = Decl::new(&RawDeclaration {
        name: "puts".to_string(),
        parameters: vec![Type::Other, pointer()],
        return_type: Type::Other,
    });
    assert!(d.has_pointer());
    let names = GlobalNames::new();
    let g = Global::new(
        &names,
        &RawGlobal { name: "g".to_string(), initializer: Some(RawConstant::Null), is_constant: false, ty: pointer() },
    )
    .unwrap();
    assert_eq!(g.size(), None);
    assert!(g.initializer.unwrap().equals(&Constant::Null));
    assert!(Global::new(
        &names,
        &RawGlobal { name: "g".to_string(), initializer: Some(reference("g")), is_constant: false, ty: pointer() },
    )
    .is_err());
}

#[test]
fn names_by_position() {
    let i = InstructionName::new(1, 2, 3);
    assert_eq!(i.block(), BlockName::new(1, 2));
    assert_eq!(ParameterName::new(1, 0), ParameterName { parent_function: 1, index: 0 });
    let o = InstructionOperand::new(i);
    assert_eq!(o.instruction_name(), i);
    assert!(o.operand().equals(&o.into_operand()));
}
