use yapall::allocation::{
    Alloc, Allocations, FunctionAlloc, GlobalAlloc, GlobalKey, HeapAlloc, StackAlloc,
};
use yapall::llvm::name::InstructionName;
use yapall::llvm::raw::{
    RawBlock, RawCallee, RawConstant, RawDeclaration, RawFunction, RawGlobal, RawInstruction,
    RawModule, RawOpcode, RawOperand, RawTerminator, RawTerminatorOpcode,
};
use yapall::llvm::{Label, Module, Type};
use yapall::union::UnionFind;

fn site(i: usize) -> InstructionName {
    InstructionName::new(0, 0, i)
}

fn malloc(result: &str, callee: RawOperand, size: RawOperand) -> RawInstruction {
    RawInstruction {
        result: Some(Label::Name(result.to_string())),
        opcode: RawOpcode::Call { function: RawCallee::Operand(callee), arguments: vec![size] },
        ty: Type::Pointer { pointee_is_pointer: false },
    }
}

/// A module with a variable, a constant, and four calls of `malloc`: two
/// that ask for eight bytes, one whose size is not a constant, and one
/// that asks for eight bytes through a cast of the function.
fn module() -> Module {
    let name = |n: &str| RawConstant::GlobalReference { name: n.to_string() };
    let eight = || RawOperand::Constant(RawConstant::Int { bits: 64, value: 8 });
    let global = |n: &str, is_constant: bool, pointee_is_pointer: bool| RawGlobal {
        name: n.to_string(),
        initializer: None,
        is_constant,
        ty: Type::Pointer { pointee_is_pointer },
    };
    let main = RawFunction {
        name: "main".to_string(),
        parameters: vec![],
        basic_blocks: vec![RawBlock {
            name: Label::Name("entry".to_string()),
            instrs: vec![
                RawInstruction {
                    result: Some(Label::Name("s".to_string())),
                    opcode: RawOpcode::Alloca { num_elements: eight() },
                    ty: Type::Pointer { pointee_is_pointer: false },
                },
                malloc("a", RawOperand::Constant(name("malloc")), eight()),
                malloc("b", RawOperand::Constant(name("malloc")), eight()),
                malloc("c", RawOperand::Constant(name("malloc")), RawOperand::Local { name: Label::Name("s".to_string()) }),
                malloc(
                    "d",
                    RawOperand::Constant(RawConstant::BitCast { operand: Box::new(name("malloc")) }),
                    eight(),
                ),
            ],
            term: RawTerminator {
                result: None,
                opcode: RawTerminatorOpcode::Ret { return_operand: None },
                ty: Type::Void,
            },
        }],
        return_type: Type::Void,
    };
    let decl = RawDeclaration {
        name: "malloc".to_string(),
        parameters: vec![Type::Other],
        return_type: Type::Pointer { pointee_is_pointer: false },
    };
    match Module::new(&RawModule {
        functions: vec![main],
        func_declarations: vec![decl],
        global_vars: vec![global("v", false, false), global("k", true, true)],
        global_aliases: vec![],
    }) {
        Ok(m) => m,
        Err(e) => panic!("{}", e.0),
    }
}

fn all() -> Vec<Alloc> {
    vec![
        Alloc::Function(FunctionAlloc::new(3)),
        Alloc::Global(GlobalAlloc::new(GlobalKey::Variable(0))),
        Alloc::Global(GlobalAlloc::new(GlobalKey::Variable(1))),
        Alloc::Global(GlobalAlloc::new(GlobalKey::Extra(0))),
        Alloc::Heap(HeapAlloc::new(site(1))),
        Alloc::Heap(HeapAlloc::new(site(2))),
        Alloc::Heap(HeapAlloc::new(site(3))),
        Alloc::Stack(StackAlloc::alloca(site(0))),
        Alloc::Stack(StackAlloc::signature(site(5))),
        Alloc::Null,
        Alloc::Top,
    ]
}

#[test]
fn an_allocation_is_its_origin() {
    assert_eq!(HeapAlloc::new(site(1)), HeapAlloc::new(site(1)));
    assert_ne!(HeapAlloc::new(site(1)), HeapAlloc::new(site(2)));
    assert_eq!(GlobalAlloc::new(GlobalKey::Variable(1)), GlobalAlloc::new(GlobalKey::Variable(1)));
    assert_ne!(GlobalAlloc::new(GlobalKey::Variable(1)), GlobalAlloc::new(GlobalKey::Extra(1)));
    assert_ne!(Alloc::Stack(StackAlloc::alloca(site(1))), Alloc::Heap(HeapAlloc::new(site(1))));
}

#[test]
fn what_the_module_knows_of_an_allocation() {
    let m = module();
    assert_eq!(HeapAlloc::new(site(1)).size(&m), Some(8));
    assert_eq!(HeapAlloc::new(site(2)).size(&m), Some(8));
    assert_eq!(HeapAlloc::new(site(3)).size(&m), None);
    // A cast of the function still names it.
    assert_eq!(HeapAlloc::new(site(4)).size(&m), Some(8));
    assert_eq!(HeapAlloc::new(site(0)).size(&m), None);
    assert_eq!(HeapAlloc::new(site(9)).size(&m), None);
    let v = GlobalAlloc::new(GlobalKey::Variable(0));
    let k = GlobalAlloc::new(GlobalKey::Variable(1));
    assert_eq!((v.constant(&m), v.size(&m)), (false, None));
    assert_eq!((k.constant(&m), k.size(&m)), (true, Some(8)));
    let missing = GlobalAlloc::new(GlobalKey::Variable(2));
    assert_eq!((missing.constant(&m), missing.size(&m)), (false, None));
    let extra = GlobalAlloc::new(GlobalKey::Extra(1));
    assert_eq!((extra.constant(&m), extra.size(&m)), (false, None));
}

#[test]
fn what_can_be_loaded_stored_and_freed() {
    let expected = [
        (false, false, false),
        (true, true, false),
        (true, false, false),
        (true, true, false),
        (true, true, true),
        (true, true, true),
        (true, true, true),
        (true, true, false),
        (true, true, false),
        (false, false, false),
        (true, true, true),
    ];
    let m = module();
    for (a, (l, s, f)) in all().iter().zip(expected) {
        assert_eq!((a.loadable(), a.storable(&m), a.freeable()), (l, s, f), "{:?}", a);
    }
}

#[test]
fn what_may_be_merged() {
    let a = all();
    let m = module();
    assert!(a[1].mergeable(&a[3], &m));
    assert!(a[3].mergeable(&a[1], &m));
    assert!(!a[1].mergeable(&a[2], &m));
    assert!(a[4].mergeable(&a[5], &m));
    assert!(!a[5].mergeable(&a[6], &m));
    assert!(!a[4].mergeable(&a[4], &m));
    assert!(a[7].mergeable(&a[8], &m));
    assert!(!a[7].mergeable(&a[7], &m));
    assert!(!a[7].mergeable(&a[4], &m));
    assert!(!a[9].mergeable(&a[10], &m));
    assert!(!a[10].mergeable(&a[10], &m));
    assert!(!a[0].mergeable(&Alloc::Function(FunctionAlloc::new(4)), &m));
}

#[test]
fn the_order_is_total_and_strict() {
    let a = all();
    for i in 0..a.len() {
        for j in 0..a.len() {
            assert_eq!(a[i].comes_before(&a[j]), i < j, "{:?} {:?}", a[i], a[j]);
        }
    }
    assert!(Alloc::Stack(StackAlloc::alloca(InstructionName::new(0, 1, 0)))
        .comes_before(&Alloc::Stack(StackAlloc::alloca(InstructionName::new(1, 0, 0)))));
    assert_eq!(FunctionAlloc::new(7).function_name(), 7);
}

#[test]
fn union_find_keeps_the_least_as_representative() {
    let mut u = UnionFind::new(6);
    for i in 0..6 {
        assert_eq!(u.lookup(i), i);
    }
    assert!(u.merge(4, 2));
    assert!(!u.merge(2, 4));
    assert!(!u.merge(3, 3));
    assert!(u.merge(5, 4));
    assert!(u.merge(1, 5));
    assert_eq!(u.lookup(5), 1);
    assert_eq!(u.lookup(4), 1);
    assert_eq!(u.lookup(2), 1);
    assert_eq!(u.lookup(1), 1);
    assert_eq!(u.lookup(3), 3);
    assert_eq!(u.lookup(0), 0);
    let r = u.lookup(5);
    assert_eq!(u.lookup(r), r);
}

#[test]
fn union_find_grandparent_and_compression() {
    let mut u = UnionFind { parent: vec![None, Some(0), Some(1), Some(2)] };
    assert_eq!(u.grandparent(0), None);
    assert_eq!(u.grandparent(1), None);
    assert_eq!(u.grandparent(2), Some((1, 0)));
    assert_eq!(u.grandparent(3), Some((2, 1)));
    assert_eq!(u.lookup(3), 0);
    assert_eq!(u.parent, vec![None, Some(0), Some(1), Some(0)]);
    assert_eq!(u.lookup(3), 0);
    assert_eq!(u.parent, vec![None, Some(0), Some(1), Some(0)]);
    assert_eq!(u.lookup(2), 0);
    assert_eq!(u.parent, vec![None, Some(0), Some(0), Some(0)]);
    let mut w = UnionFind::new(4);
    assert!(w.merge(3, 1));
    assert_eq!(w.parent, vec![None, None, None, Some(1)]);
    assert!(w.merge(3, 0));
    assert_eq!(w.parent, vec![None, Some(0), None, Some(1)]);
}

#[test]
fn allocation_classes() {
    let m = module();
    let mut t = Allocations::new(all());
    assert!(t.classes.parent.iter().all(|p| p.is_none()));
    assert!(!t.merge(1, 2, &m));
    assert!(t.merge(3, 1, &m));
    assert!(!t.merge(1, 3, &m));
    assert!(t.merge(8, 7, &m));
    assert!(!t.merge(7, 4, &m));
    assert!(!t.merge(9, 10, &m));
    assert!(!t.merge(6, 5, &m));
    assert!(t.unite(6, 5));
    assert_eq!(t.classes.parent[6], Some(5));
    assert_eq!(t.classes.parent[3], Some(1));
    assert_eq!(t.lookup(6), all()[5]);
    assert_eq!(t.lookup(3), all()[1]);
    assert_eq!(t.lookup(1), all()[1]);
    assert_eq!(t.lookup(8), all()[7]);
    assert_eq!(t.lookup(2), all()[2]);
    assert_eq!(t.lookup(10), Alloc::Top);
}
