//! Constants and constant expressions.

use crate::llvm::error::Error;
use crate::llvm::name::{FunctionId, GlobalId};
use crate::llvm::names::{lookup_name, GlobalNames};
use crate::llvm::raw::{RawConstant, RawConstantList};
use vstd::prelude::*;

verus! {

/// A `bitcast` constant expression.
#[derive(Debug)]
pub struct BitCast {
    pub pointer: Box<Constant>,
}

/// A `getelementptr` constant expression; only the base address is kept.
#[derive(Debug)]
pub struct GetElementPtr {
    pub pointer: Box<Constant>,
}

/// An `inttoptr` constant expression.
#[derive(Debug)]
pub struct IntToPtr {
    pub int: Box<Constant>,
}

/// A `ptrtoint` constant expression.
#[derive(Debug)]
pub struct PtrToInt {
    pub pointer: Box<Constant>,
}

/// A constant structure.
#[derive(Debug)]
pub struct Struct {
    pub fields: ConstantList,
}

/// The elements of an aggregate constant, in order.
#[derive(Debug)]
pub enum ConstantList {
    Nil,
    Cons(Box<Constant>, Box<ConstantList>),
}

/// A constant. Expressions other than the four that pass a pointer through
/// carry no operands.
#[derive(Debug)]
pub enum Constant {
    Function(FunctionId),
    Global(GlobalId),
    Int { bits: u32, value: u64 },
    Null,
    // Expressions
    Add,
    Sub,
    Mul,
    UDiv,
    SDiv,
    URem,
    SRem,
    And,
    Or,
    Xor,
    Shl,
    LShr,
    AShr,
    FAdd,
    FSub,
    FMul,
    FDiv,
    FRem,
    ExtractElement,
    InsertElement,
    ShuffleVector,
    ExtractValue,
    InsertValue,
    GetElementPtr(GetElementPtr),
    Trunc,
    ZExt,
    SExt,
    FPTrunc,
    FPExt,
    FPToUI,
    FPToSI,
    UIToFP,
    SIToFP,
    PtrToInt(PtrToInt),
    IntToPtr(IntToPtr),
    BitCast(BitCast),
    AddrSpaceCast,
    ICmp,
    FCmp,
    Select,
    //
    Array(ConstantList),
    Struct(Struct),
    Undef,
    //
    Other,
}

impl ConstantList {
    /// The elements as a sequence.
    pub open spec fn elements(self) -> Seq<Constant>
        decreases self,
    {
        match self {
            ConstantList::Nil => Seq::empty(),
            ConstantList::Cons(head, tail) => seq![*head] + tail.elements(),
        }
    }

    /// The pointers of all elements, in order.
    pub open spec fn pointers_spec(self) -> Seq<Constant>
        decreases self,
    {
        match self {
            ConstantList::Nil => Seq::empty(),
            ConstantList::Cons(head, tail) => head.pointers_spec() + tail.pointers_spec(),
        }
    }

    /// The list that holds the constants of `elements` in their order.
    pub fn from_vec(elements: Vec<Constant>) -> (r: Self)
        ensures
            r.elements() == elements@,
    {
        let mut rest = elements;
        let ghost all = rest@;
        let mut list = ConstantList::Nil;
        while rest.len() > 0
            invariant
                rest@ + list.elements() == all,
            decreases rest.len(),
        {
            let ghost before = rest@;
            let ghost tail = list.elements();
            let last = rest.pop().unwrap();
            list = ConstantList::Cons(Box::new(last), Box::new(list));
            assert(rest@ + list.elements() =~= before + tail);
        }
        assert(list.elements() =~= rest@ + list.elements());
        list
    }

    pub fn clone(&self) -> (r: Self)
        ensures
            r == *self,
        decreases *self,
    {
        match self {
            ConstantList::Nil => ConstantList::Nil,
            ConstantList::Cons(head, tail) => ConstantList::Cons(
                Box::new(Constant::clone(&**head)),
                Box::new(ConstantList::clone(&**tail)),
            ),
        }
    }

    pub fn equals(&self, other: &Self) -> (r: bool)
        ensures
            r == (*self == *other),
        decreases *self,
    {
        match (self, other) {
            (ConstantList::Nil, ConstantList::Nil) => true,
            (ConstantList::Cons(a, x), ConstantList::Cons(b, y)) => a.equals(b) && x.equals(y),
            _ => false,
        }
    }

    fn collect_pointers(&self, out: &mut Vec<Constant>)
        ensures
            final(out)@ == old(out)@ + self.pointers_spec(),
        decreases *self,
    {
        match self {
            ConstantList::Nil => {
                assert(out@ =~= out@ + self.pointers_spec());
            },
            ConstantList::Cons(head, tail) => {
                let ghost before = out@;
                head.collect_pointers(out);
                tail.collect_pointers(out);
                assert(out@ =~= before + self.pointers_spec());
            },
        }
    }
}

impl Constant {
    /// The constants of `self` whose points-to sets the expression passes on:
    /// a function, a global, an integer, null and undef stand for themselves,
    /// `bitcast`, `getelementptr`, `ptrtoint` and `inttoptr` for the pointers
    /// of their operand, an aggregate for those of its elements; every other
    /// expression has none.
    pub open spec fn pointers_spec(self) -> Seq<Constant>
        decreases self,
    {
        match self {
            Constant::Function(_) => seq![self],
            Constant::Global(_) => seq![self],
            Constant::Int { .. } => seq![self],
            Constant::Null => seq![self],
            Constant::Undef => seq![self],
            Constant::GetElementPtr(g) => g.pointer.pointers_spec(),
            Constant::PtrToInt(c) => c.pointer.pointers_spec(),
            Constant::IntToPtr(c) => c.int.pointers_spec(),
            Constant::BitCast(b) => b.pointer.pointers_spec(),
            Constant::Array(v) => v.pointers_spec(),
            Constant::Struct(s) => s.fields.pointers_spec(),
            _ => Seq::empty(),
        }
    }

    pub fn pointers(&self) -> (r: Vec<Constant>)
        ensures
            r@ == self.pointers_spec(),
    {
        let mut out: Vec<Constant> = Vec::new();
        self.collect_pointers(&mut out);
        assert(out@ =~= self.pointers_spec());
        out
    }

    fn collect_pointers(&self, out: &mut Vec<Constant>)
        ensures
            final(out)@ == old(out)@ + self.pointers_spec(),
        decreases *self,
    {
        let ghost before = out@;
        match self {
            Constant::Function(f) => out.push(Constant::Function(*f)),
            Constant::Global(g) => out.push(Constant::Global(*g)),
            Constant::Int { bits, value } => out.push(Constant::Int { bits: *bits, value: *value }),
            Constant::Null => out.push(Constant::Null),
            Constant::Undef => out.push(Constant::Undef),
            Constant::GetElementPtr(g) => g.pointer.collect_pointers(out),
            Constant::PtrToInt(c) => c.pointer.collect_pointers(out),
            Constant::IntToPtr(c) => c.int.collect_pointers(out),
            Constant::BitCast(b) => b.pointer.collect_pointers(out),
            Constant::Array(v) => v.collect_pointers(out),
            Constant::Struct(s) => s.fields.collect_pointers(out),
            _ => {},
        }
        assert(out@ =~= before + self.pointers_spec());
    }

    pub fn clone(&self) -> (r: Self)
        ensures
            r == *self,
        decreases *self,
    {
        match self {
            Constant::Function(f) => Constant::Function(*f),
            Constant::Global(g) => Constant::Global(*g),
            Constant::Int { bits, value } => Constant::Int { bits: *bits, value: *value },
            Constant::Null => Constant::Null,
            Constant::Add => Constant::Add,
            Constant::Sub => Constant::Sub,
            Constant::Mul => Constant::Mul,
            Constant::UDiv => Constant::UDiv,
            Constant::SDiv => Constant::SDiv,
            Constant::URem => Constant::URem,
            Constant::SRem => Constant::SRem,
            Constant::And => Constant::And,
            Constant::Or => Constant::Or,
            Constant::Xor => Constant::Xor,
            Constant::Shl => Constant::Shl,
            Constant::LShr => Constant::LShr,
            Constant::AShr => Constant::AShr,
            Constant::FAdd => Constant::FAdd,
            Constant::FSub => Constant::FSub,
            Constant::FMul => Constant::FMul,
            Constant::FDiv => Constant::FDiv,
            Constant::FRem => Constant::FRem,
            Constant::ExtractElement => Constant::ExtractElement,
            Constant::InsertElement => Constant::InsertElement,
            Constant::ShuffleVector => Constant::ShuffleVector,
            Constant::ExtractValue => Constant::ExtractValue,
            Constant::InsertValue => Constant::InsertValue,
            Constant::Trunc => Constant::Trunc,
            Constant::ZExt => Constant::ZExt,
            Constant::SExt => Constant::SExt,
            Constant::FPTrunc => Constant::FPTrunc,
            Constant::FPExt => Constant::FPExt,
            Constant::FPToUI => Constant::FPToUI,
            Constant::FPToSI => Constant::FPToSI,
            Constant::UIToFP => Constant::UIToFP,
            Constant::SIToFP => Constant::SIToFP,
            Constant::AddrSpaceCast => Constant::AddrSpaceCast,
            Constant::ICmp => Constant::ICmp,
            Constant::FCmp => Constant::FCmp,
            Constant::Select => Constant::Select,
            Constant::GetElementPtr(g) => Constant::GetElementPtr(
                GetElementPtr { pointer: Box::new(Constant::clone(&*g.pointer)) },
            ),
            Constant::PtrToInt(c) => Constant::PtrToInt(
                PtrToInt { pointer: Box::new(Constant::clone(&*c.pointer)) },
            ),
            Constant::IntToPtr(c) => Constant::IntToPtr(IntToPtr { int: Box::new(Constant::clone(&*c.int)) }),
            Constant::BitCast(b) => Constant::BitCast(
                BitCast { pointer: Box::new(Constant::clone(&*b.pointer)) },
            ),
            Constant::Array(v) => Constant::Array(v.clone()),
            Constant::Struct(s) => Constant::Struct(Struct { fields: s.fields.clone() }),
            Constant::Undef => Constant::Undef,
            Constant::Other => Constant::Other,
        }
    }

    pub fn equals(&self, other: &Self) -> (r: bool)
        ensures
            r == (*self == *other),
        decreases *self,
    {
        match (self, other) {
            (Constant::Function(f), Constant::Function(g)) => *f == *g,
            (Constant::Global(f), Constant::Global(g)) => *f == *g,
            (Constant::Int { bits, value }, Constant::Int { bits: b, value: v }) => *bits == *b
                && *value == *v,
            (Constant::Null, Constant::Null) => true,
            (Constant::Add, Constant::Add) => true,
            (Constant::Sub, Constant::Sub) => true,
            (Constant::Mul, Constant::Mul) => true,
            (Constant::UDiv, Constant::UDiv) => true,
            (Constant::SDiv, Constant::SDiv) => true,
            (Constant::URem, Constant::URem) => true,
            (Constant::SRem, Constant::SRem) => true,
            (Constant::And, Constant::And) => true,
            (Constant::Or, Constant::Or) => true,
            (Constant::Xor, Constant::Xor) => true,
            (Constant::Shl, Constant::Shl) => true,
            (Constant::LShr, Constant::LShr) => true,
            (Constant::AShr, Constant::AShr) => true,
            (Constant::FAdd, Constant::FAdd) => true,
            (Constant::FSub, Constant::FSub) => true,
            (Constant::FMul, Constant::FMul) => true,
            (Constant::FDiv, Constant::FDiv) => true,
            (Constant::FRem, Constant::FRem) => true,
            (Constant::ExtractElement, Constant::ExtractElement) => true,
            (Constant::InsertElement, Constant::InsertElement) => true,
            (Constant::ShuffleVector, Constant::ShuffleVector) => true,
            (Constant::ExtractValue, Constant::ExtractValue) => true,
            (Constant::InsertValue, Constant::InsertValue) => true,
            (Constant::Trunc, Constant::Trunc) => true,
            (Constant::ZExt, Constant::ZExt) => true,
            (Constant::SExt, Constant::SExt) => true,
            (Constant::FPTrunc, Constant::FPTrunc) => true,
            (Constant::FPExt, Constant::FPExt) => true,
            (Constant::FPToUI, Constant::FPToUI) => true,
            (Constant::FPToSI, Constant::FPToSI) => true,
            (Constant::UIToFP, Constant::UIToFP) => true,
            (Constant::SIToFP, Constant::SIToFP) => true,
            (Constant::AddrSpaceCast, Constant::AddrSpaceCast) => true,
            (Constant::ICmp, Constant::ICmp) => true,
            (Constant::FCmp, Constant::FCmp) => true,
            (Constant::Select, Constant::Select) => true,
            (Constant::GetElementPtr(a), Constant::GetElementPtr(b)) => a.pointer.equals(
                &b.pointer,
            ),
            (Constant::PtrToInt(a), Constant::PtrToInt(b)) => a.pointer.equals(&b.pointer),
            (Constant::IntToPtr(a), Constant::IntToPtr(b)) => a.int.equals(&b.int),
            (Constant::BitCast(a), Constant::BitCast(b)) => a.pointer.equals(&b.pointer),
            (Constant::Array(a), Constant::Array(b)) => a.equals(b),
            (Constant::Struct(a), Constant::Struct(b)) => a.fields.equals(&b.fields),
            (Constant::Undef, Constant::Undef) => true,
            (Constant::Other, Constant::Other) => true,
            _ => false,
        }
    }
}

/// The constant that a constant of the module's text stands for, or what is
/// wrong with it: a reference to a global that the table of names lacks.
pub open spec fn created(names: Seq<(Seq<char>, Constant)>, c: RawConstant) -> Result<
    Constant,
    Seq<char>,
>
    decreases c,
{
    match c {
        RawConstant::GlobalReference { name } => match lookup_name(names, name@) {
            Some(x) => Ok(x),
            None => Err("Couldn't find global "@ + name@),
        },
        RawConstant::Int { bits, value } => Ok(Constant::Int { bits, value }),
        RawConstant::Null => Ok(Constant::Null),
        RawConstant::Add => Ok(Constant::Add),
        RawConstant::Sub => Ok(Constant::Sub),
        RawConstant::Mul => Ok(Constant::Mul),
        RawConstant::UDiv => Ok(Constant::UDiv),
        RawConstant::SDiv => Ok(Constant::SDiv),
        RawConstant::URem => Ok(Constant::URem),
        RawConstant::SRem => Ok(Constant::SRem),
        RawConstant::And => Ok(Constant::And),
        RawConstant::Or => Ok(Constant::Or),
        RawConstant::Xor => Ok(Constant::Xor),
        RawConstant::Shl => Ok(Constant::Shl),
        RawConstant::LShr => Ok(Constant::LShr),
        RawConstant::AShr => Ok(Constant::AShr),
        RawConstant::FAdd => Ok(Constant::FAdd),
        RawConstant::FSub => Ok(Constant::FSub),
        RawConstant::FMul => Ok(Constant::FMul),
        RawConstant::FDiv => Ok(Constant::FDiv),
        RawConstant::FRem => Ok(Constant::FRem),
        RawConstant::ExtractElement => Ok(Constant::ExtractElement),
        RawConstant::InsertElement => Ok(Constant::InsertElement),
        RawConstant::ShuffleVector => Ok(Constant::ShuffleVector),
        RawConstant::ExtractValue => Ok(Constant::ExtractValue),
        RawConstant::InsertValue => Ok(Constant::InsertValue),
        RawConstant::Trunc => Ok(Constant::Trunc),
        RawConstant::ZExt => Ok(Constant::ZExt),
        RawConstant::SExt => Ok(Constant::SExt),
        RawConstant::FPTrunc => Ok(Constant::FPTrunc),
        RawConstant::FPExt => Ok(Constant::FPExt),
        RawConstant::FPToUI => Ok(Constant::FPToUI),
        RawConstant::FPToSI => Ok(Constant::FPToSI),
        RawConstant::UIToFP => Ok(Constant::UIToFP),
        RawConstant::SIToFP => Ok(Constant::SIToFP),
        RawConstant::AddrSpaceCast => Ok(Constant::AddrSpaceCast),
        RawConstant::ICmp => Ok(Constant::ICmp),
        RawConstant::FCmp => Ok(Constant::FCmp),
        RawConstant::Select => Ok(Constant::Select),
        RawConstant::GetElementPtr { address } => match created(names, *address) {
            Ok(x) => Ok(Constant::GetElementPtr(GetElementPtr { pointer: Box::new(x) })),
            Err(e) => Err(e),
        },
        RawConstant::PtrToInt { operand } => match created(names, *operand) {
            Ok(x) => Ok(Constant::PtrToInt(PtrToInt { pointer: Box::new(x) })),
            Err(e) => Err(e),
        },
        RawConstant::IntToPtr { operand } => match created(names, *operand) {
            Ok(x) => Ok(Constant::IntToPtr(IntToPtr { int: Box::new(x) })),
            Err(e) => Err(e),
        },
        RawConstant::BitCast { operand } => match created(names, *operand) {
            Ok(x) => Ok(Constant::BitCast(BitCast { pointer: Box::new(x) })),
            Err(e) => Err(e),
        },
        RawConstant::Array { elements } => match created_list(names, elements) {
            Ok(l) => Ok(Constant::Array(l)),
            Err(e) => Err(e),
        },
        RawConstant::Struct { values } => match created_list(names, values) {
            Ok(l) => Ok(Constant::Struct(Struct { fields: l })),
            Err(e) => Err(e),
        },
        RawConstant::Undef => Ok(Constant::Undef),
        RawConstant::Other => Ok(Constant::Other),
    }
}

/// The constants that the elements of an aggregate stand for, or what is
/// wrong with the first element with which something is.
pub open spec fn created_list(names: Seq<(Seq<char>, Constant)>, l: RawConstantList) -> Result<
    ConstantList,
    Seq<char>,
>
    decreases l,
{
    match l {
        RawConstantList::Nil => Ok(ConstantList::Nil),
        RawConstantList::Cons(head, tail) => match created(names, *head) {
            Err(e) => Err(e),
            Ok(x) => match created_list(names, *tail) {
                Err(e) => Err(e),
                Ok(y) => Ok(ConstantList::Cons(Box::new(x), Box::new(y))),
            },
        },
    }
}

/// Whether `r` is the outcome `want`: the same value, or an error with the
/// same text.
pub open spec fn is_result<T>(r: Result<T, Error>, want: Result<T, Seq<char>>) -> bool {
    match (r, want) {
        (Ok(x), Ok(y)) => x == y,
        (Err(e), Err(t)) => e@ == t,
        _ => false,
    }
}

impl BitCast {
    pub fn from_bitcast(globals: &GlobalNames, operand: &RawConstant) -> (r: Result<Self, Error>)
        ensures
            match r {
                Ok(b) => created(globals@, *operand) == Ok::<Constant, Seq<char>>(*b.pointer),
                Err(e) => created(globals@, *operand) == Err::<Constant, Seq<char>>(e@),
            },
        decreases *operand, 2nat,
    {
        match Constant::create(globals, operand) {
            Ok(c) => Ok(BitCast { pointer: Box::new(c) }),
            Err(e) => Err(e),
        }
    }
}

impl GetElementPtr {
    pub fn from_getelementptr(globals: &GlobalNames, address: &RawConstant) -> (r: Result<
        Self,
        Error,
    >)
        ensures
            match r {
                Ok(b) => created(globals@, *address) == Ok::<Constant, Seq<char>>(*b.pointer),
                Err(e) => created(globals@, *address) == Err::<Constant, Seq<char>>(e@),
            },
        decreases *address, 2nat,
    {
        match Constant::create(globals, address) {
            Ok(c) => Ok(GetElementPtr { pointer: Box::new(c) }),
            Err(e) => Err(e),
        }
    }
}

impl IntToPtr {
    pub fn from_inttoptr(globals: &GlobalNames, operand: &RawConstant) -> (r: Result<Self, Error>)
        ensures
            match r {
                Ok(b) => created(globals@, *operand) == Ok::<Constant, Seq<char>>(*b.int),
                Err(e) => created(globals@, *operand) == Err::<Constant, Seq<char>>(e@),
            },
        decreases *operand, 2nat,
    {
        match Constant::create(globals, operand) {
            Ok(c) => Ok(IntToPtr { int: Box::new(c) }),
            Err(e) => Err(e),
        }
    }
}

impl PtrToInt {
    pub fn from_ptrtoint(globals: &GlobalNames, operand: &RawConstant) -> (r: Result<Self, Error>)
        ensures
            match r {
                Ok(b) => created(globals@, *operand) == Ok::<Constant, Seq<char>>(*b.pointer),
                Err(e) => created(globals@, *operand) == Err::<Constant, Seq<char>>(e@),
            },
        decreases *operand, 2nat,
    {
        match Constant::create(globals, operand) {
            Ok(c) => Ok(PtrToInt { pointer: Box::new(c) }),
            Err(e) => Err(e),
        }
    }
}

impl ConstantList {
    /// The constants that the elements of an aggregate of the module's text
    /// stand for.
    pub fn create(globals: &GlobalNames, l: &RawConstantList) -> (r: Result<Self, Error>)
        ensures
            is_result(r, created_list(globals@, *l)),
        decreases *l, 0nat,
    {
        match l {
            RawConstantList::Nil => Ok(ConstantList::Nil),
            RawConstantList::Cons(head, tail) => {
                match Constant::create(globals, head) {
                    Err(e) => Err(e),
                    Ok(x) => match ConstantList::create(globals, tail) {
                        Err(e) => Err(e),
                        Ok(y) => Ok(ConstantList::Cons(Box::new(x), Box::new(y))),
                    },
                }
            },
        }
    }
}

impl Constant {
    /// The constant that a constant of the module's text stands for. A
    /// reference to a global is looked up in the table of names; it is an
    /// error if the table lacks the name.
    pub fn create(globals: &GlobalNames, constant: &RawConstant) -> (r: Result<Self, Error>)
        ensures
            is_result(r, created(globals@, *constant)),
        decreases *constant, 1nat,
    {
        match constant {
            RawConstant::GlobalReference { name } => match globals.get(name.as_str()) {
                Some(c) => Ok(c),
                None => Err(Error(crate::text::joined("Couldn't find global ", name.as_str()))),
            },
            RawConstant::Int { bits, value } => Ok(Constant::Int { bits: *bits, value: *value }),
            RawConstant::Null => Ok(Constant::Null),
            RawConstant::Add => Ok(Constant::Add),
            RawConstant::Sub => Ok(Constant::Sub),
            RawConstant::Mul => Ok(Constant::Mul),
            RawConstant::UDiv => Ok(Constant::UDiv),
            RawConstant::SDiv => Ok(Constant::SDiv),
            RawConstant::URem => Ok(Constant::URem),
            RawConstant::SRem => Ok(Constant::SRem),
            RawConstant::And => Ok(Constant::And),
            RawConstant::Or => Ok(Constant::Or),
            RawConstant::Xor => Ok(Constant::Xor),
            RawConstant::Shl => Ok(Constant::Shl),
            RawConstant::LShr => Ok(Constant::LShr),
            RawConstant::AShr => Ok(Constant::AShr),
            RawConstant::FAdd => Ok(Constant::FAdd),
            RawConstant::FSub => Ok(Constant::FSub),
            RawConstant::FMul => Ok(Constant::FMul),
            RawConstant::FDiv => Ok(Constant::FDiv),
            RawConstant::FRem => Ok(Constant::FRem),
            RawConstant::ExtractElement => Ok(Constant::ExtractElement),
            RawConstant::InsertElement => Ok(Constant::InsertElement),
            RawConstant::ShuffleVector => Ok(Constant::ShuffleVector),
            RawConstant::ExtractValue => Ok(Constant::ExtractValue),
            RawConstant::InsertValue => Ok(Constant::InsertValue),
            RawConstant::Trunc => Ok(Constant::Trunc),
            RawConstant::ZExt => Ok(Constant::ZExt),
            RawConstant::SExt => Ok(Constant::SExt),
            RawConstant::FPTrunc => Ok(Constant::FPTrunc),
            RawConstant::FPExt => Ok(Constant::FPExt),
            RawConstant::FPToUI => Ok(Constant::FPToUI),
            RawConstant::FPToSI => Ok(Constant::FPToSI),
            RawConstant::UIToFP => Ok(Constant::UIToFP),
            RawConstant::SIToFP => Ok(Constant::SIToFP),
            RawConstant::AddrSpaceCast => Ok(Constant::AddrSpaceCast),
            RawConstant::ICmp => Ok(Constant::ICmp),
            RawConstant::FCmp => Ok(Constant::FCmp),
            RawConstant::Select => Ok(Constant::Select),
            RawConstant::GetElementPtr { address } => match GetElementPtr::from_getelementptr(
                globals,
                address,
            ) {
                Ok(g) => Ok(Constant::GetElementPtr(g)),
                Err(e) => Err(e),
            },
            RawConstant::PtrToInt { operand } => match PtrToInt::from_ptrtoint(globals, operand) {
                Ok(g) => Ok(Constant::PtrToInt(g)),
                Err(e) => Err(e),
            },
            RawConstant::IntToPtr { operand } => match IntToPtr::from_inttoptr(globals, operand) {
                Ok(g) => Ok(Constant::IntToPtr(g)),
                Err(e) => Err(e),
            },
            RawConstant::BitCast { operand } => match BitCast::from_bitcast(globals, operand) {
                Ok(g) => Ok(Constant::BitCast(g)),
                Err(e) => Err(e),
            },
            RawConstant::Array { elements } => match ConstantList::create(globals, elements) {
                Ok(l) => Ok(Constant::Array(l)),
                Err(e) => Err(e),
            },
            RawConstant::Struct { values } => match ConstantList::create(globals, values) {
                Ok(l) => Ok(Constant::Struct(Struct { fields: l })),
                Err(e) => Err(e),
            },
            RawConstant::Undef => Ok(Constant::Undef),
            RawConstant::Other => Ok(Constant::Other),
        }
    }
}

} // verus!
