use yapall::allocation::{Alloc, FunctionAlloc, GlobalAlloc, GlobalKey, HeapAlloc, StackAlloc};
use yapall::cli::Check;
use yapall::klimited::KLimited;
use yapall::lattice::{ConstValue, Int, IntLattice};
use yapall::llvm::constant::{BitCast, Constant, ConstantList, GetElementPtr, IntToPtr, PtrToInt, Struct};
use yapall::llvm::error::Error;
use yapall::llvm::name::{BlockName, FunctionName, GlobalName, InstructionName, LocalName, ParameterName};
use yapall::llvm::instruction::{Call, Opcode};
use yapall::llvm::operand::{Callee, Operand};
use yapall::llvm::terminator::{Ret, TerminatorOpcode};
use yapall::llvm::{Block, Decl, Function, Global, Instruction, Label, Module, Terminator, Type};
use yapall::text::{joined, contains, decimal, same_text, starts_with};

#[test]
fn decimal_numerals() {
    assert_eq!(decimal(0), "0");
    assert_eq!(decimal(7), "7");
    assert_eq!(decimal(10), "10");
    assert_eq!(decimal(1234567890), "1234567890");
    assert_eq!(decimal(u64::MAX), "18446744073709551615");
}

#[test]
fn tests_on_text() {
    assert_eq!(joined("ab", "cd"), "abcd");
    assert_eq!(joined("", ""), "");
    assert!(same_text("main", "main"));
    assert!(!same_text("main", "main2"));
    assert!(starts_with("llvm.memcpy.p0i8", "llvm.memcpy"));
    assert!(starts_with("x", ""));
    assert!(!starts_with("llvm", "llvm.memcpy"));
    assert!(!starts_with("allvm.memcpy", "llvm.memcpy"));
    assert!(contains("_ZN4main", "4main"));
    assert!(contains("4main", "4main"));
    assert!(contains("abc", ""));
    assert!(!contains("4mai", "4main"));
    assert!(!contains("", "x"));
    assert!(contains("h\u{e9}llo w\u{f6}rld", "w\u{f6}r"));
}

#[test]
fn names() {
    let f = FunctionName::from_str("_ZN3foo4main");
    assert_eq!(f.get(), "_ZN3foo4main");
    assert!(f.starts_with("_ZN"));
    assert!(f.contains("4main"));
    assert!(!f.contains("5main"));
    assert_eq!(f.text(), "@_ZN3foo4main");
    assert_eq!(FunctionName::from_string("g".to_string()).text(), "@g");
    assert_eq!(GlobalName::from_str("stdout").text(), "@stdout");
    assert_eq!(GlobalName::from_string("x".to_string()).get(), "x");
    assert_eq!(Error("Bad local: %x".to_string()).text(), "Malformed LLVM module: Bad local: %x");
    assert_eq!(Label::Name("x".to_string()).text(), "%x");
    assert_eq!(Label::Number(12).text(), "%12");
    assert!(Label::Number(1).equals(&Label::Number(1)));
    assert!(!Label::Number(1).equals(&Label::Name("1".to_string())));
}

#[test]
fn checks_and_values() {
    assert_eq!(Check::Default.text(), "default");
    assert_eq!(Check::Off.text(), "none");
    assert_eq!(Check::Strict.text(), "strict");
    assert!(Check::Default.check_assertions() && !Check::Default.check_strict());
    assert!(!Check::Off.check_assertions() && !Check::Off.check_strict());
    assert!(Check::Strict.check_assertions() && Check::Strict.check_strict());
    assert_eq!(IntLattice::bottom().text(), "\u{22a5}");
    assert_eq!(IntLattice::top().text(), "\u{22a4}");
    assert_eq!(IntLattice::constant(Int { bits: 32, value: 7 }).text(), "7: i32");
    assert_eq!(IntLattice(ConstValue::Top), IntLattice::top());
}

fn module() -> Module {
    let block = |f: usize, label: Label| Block {
        name: BlockName { parent_function: f, index: 0 },
        label,
        instrs: vec![],
        terminator: Terminator {
            name: InstructionName::new(f, 0, 1),
            opcode: TerminatorOpcode::Ret(Ret { operand: None }),
            ty: Type::Void,
        },
    };
    Module {
        functions: vec![Function {
            name: FunctionName::from_str("main"),
            parameters: vec![Operand::Local(LocalName::Parameter(ParameterName {
                parent_function: 0,
                index: 0,
            }))],
            parameter_labels: vec![Label::Name("argc".to_string())],
            blocks: vec![block(0, Label::Number(3))],
            return_type: Type::Other,
        }],
        decls: vec![Decl { name: FunctionName::from_str("malloc"), parameters: vec![], return_type: Type::Other }],
        globals: vec![Global {
            name: GlobalName::from_str("g"),
            initializer: None,
            is_const: true,
            ty: Type::Pointer { pointee_is_pointer: true },
        }],
        aliases: vec![GlobalName::from_str("alias")],
    }
}

#[test]
fn constants_are_written() {
    let m = module();
    let boxed = |c: Constant| Box::new(c);
    assert_eq!(m.constant_text(&Constant::Function(0)), "@main");
    assert_eq!(m.constant_text(&Constant::Function(1)), "@malloc");
    assert_eq!(m.constant_text(&Constant::Function(2)), "@?");
    assert_eq!(m.constant_text(&Constant::Global(0)), "@g");
    assert_eq!(m.constant_text(&Constant::Global(1)), "@alias");
    assert_eq!(m.constant_text(&Constant::Int { bits: 32, value: 5 }), "i32 5");
    assert_eq!(m.constant_text(&Constant::Null), "null");
    assert_eq!(m.constant_text(&Constant::Undef), "undef");
    assert_eq!(m.constant_text(&Constant::Other), "<some constant>");
    assert_eq!(m.constant_text(&Constant::Add), "Add");
    assert_eq!(m.constant_text(&Constant::FPToUI), "FPToUI");
    assert_eq!(m.constant_text(&Constant::Select), "Select");
    assert_eq!(
        m.constant_text(&Constant::BitCast(BitCast {
            pointer: boxed(Constant::GetElementPtr(GetElementPtr { pointer: boxed(Constant::Global(0)) }))
        })),
        "bitcast(getelementptr(@g))"
    );
    assert_eq!(
        m.constant_text(&Constant::PtrToInt(PtrToInt { pointer: boxed(Constant::Null) })),
        "ptrtoint(null)"
    );
    assert_eq!(
        m.constant_text(&Constant::IntToPtr(IntToPtr { int: boxed(Constant::Int { bits: 64, value: 0 }) })),
        "inttoptr(i64 0)"
    );
    assert_eq!(m.constant_text(&Constant::Array(ConstantList::from_vec(vec![]))), "[  ]");
    assert_eq!(
        m.constant_text(&Constant::Array(ConstantList::from_vec(vec![Constant::Null]))),
        "[ null ]"
    );
    assert_eq!(
        m.constant_text(&Constant::Struct(Struct {
            fields: ConstantList::from_vec(vec![Constant::Function(0), Constant::Null, Constant::Undef])
        })),
        "{ @main, null, undef }"
    );
}

#[test]
fn locals_and_operands_are_written() {
    let m = module();
    let i = InstructionName::new(0, 0, 4);
    assert_eq!(m.block_text(i.block()), "main:3");
    assert_eq!(m.instruction_text(i), "main:3:4");
    assert_eq!(m.instruction_text(InstructionName::new(0, 7, 0)), "main:?:0");
    assert_eq!(m.parameter_text(ParameterName { parent_function: 0, index: 0 }), "main:argc");
    assert_eq!(m.parameter_text(ParameterName { parent_function: 0, index: 1 }), "main:?");
    assert_eq!(m.operand_text(&Operand::Local(LocalName::Instruction(i))), "main:3:4");
    assert_eq!(m.operand_text(&Operand::Metadata), "<metadata>");
    assert_eq!(m.operand_text(&Operand::Constant(Constant::Null)), "null");
}

#[test]
fn allocations_are_written() {
    let m = module();
    let extra = vec![GlobalName::from_str("*argv")];
    let i = InstructionName::new(0, 0, 4);
    assert_eq!(m.alloc_text(&extra, &Alloc::Function(FunctionAlloc(1))), "*@malloc");
    assert_eq!(
        m.alloc_text(&extra, &Alloc::Global(GlobalAlloc { global: GlobalKey::Variable(0) })),
        "*@g:true(8)"
    );
    assert_eq!(
        m.alloc_text(&extra, &Alloc::Global(GlobalAlloc { global: GlobalKey::Extra(0) })),
        "*@*argv:false(_)"
    );
    assert_eq!(
        m.alloc_text(&extra, &Alloc::Global(GlobalAlloc { global: GlobalKey::Extra(1) })),
        "*@?:false(_)"
    );
    assert_eq!(m.alloc_text(&extra, &Alloc::Heap(HeapAlloc { instruction: i })), "*main:3:4(_)");
    let mut sized = module();
    sized.functions[0].blocks[0].instrs.push(Instruction {
        name: InstructionName::new(0, 0, 0),
        opcode: Opcode::Call(Call {
            callee: Callee::Operand(Operand::Constant(Constant::Function(1))),
            args: vec![Operand::Constant(Constant::Int { bits: 64, value: 16 })],
        }),
        ty: Type::Other,
    });
    sized.functions[0].blocks[0].terminator.name = InstructionName::new(0, 0, 2);
    assert_eq!(
        sized.alloc_text(&extra, &Alloc::Heap(HeapAlloc { instruction: InstructionName::new(0, 0, 0) })),
        "*main:3:0(16)"
    );
    assert_eq!(m.alloc_text(&extra, &Alloc::Stack(StackAlloc { name: i })), "*main:3:4");
    assert_eq!(m.alloc_text(&extra, &Alloc::Null), "*null");
    assert_eq!(m.alloc_text(&extra, &Alloc::Top), "Top");
}

#[test]
fn contexts_and_rows_are_written() {
    let m = module();
    let extra = vec![GlobalName::from_str("*argv")];
    let site = |i: usize| InstructionName::new(0, 0, i);
    assert_eq!(m.context_text(&KLimited::new(2, vec![])), "[]");
    assert_eq!(m.context_text(&KLimited::new(2, vec![site(4)])), "[main:3:4]");
    assert_eq!(m.context_text(&KLimited::new(3, vec![site(4), site(0), site(7)])), "[main:3:4, main:3:0, main:3:7]");
    assert_eq!(
        m.points_to_text(
            &extra,
            &KLimited::new(1, vec![site(2)]),
            &Operand::Local(LocalName::Instruction(site(4))),
            &Alloc::Stack(StackAlloc { name: site(1) }),
        ),
        "[main:3:2]: main:3:4 --> *main:3:1"
    );
    assert_eq!(
        m.edge_text(&extra, &Alloc::Global(GlobalAlloc { global: GlobalKey::Extra(0) }), &Alloc::Top),
        "*@*argv:false(_) --> Top"
    );
}
