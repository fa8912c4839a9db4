//! How names, operands, constants, allocations and values are written.

use crate::allocation::{Alloc, GlobalKey};
use crate::analysis::facts::Context;
use crate::lattice::{ConstValue, IntLattice};
use crate::llvm::constant::{Constant, ConstantList};
use crate::llvm::error::Error;
use crate::llvm::name::{
    BlockName, FunctionId, FunctionName, GlobalId, GlobalName, InstructionName, LocalName,
    ParameterName,
};
use crate::llvm::operand::Operand;
use crate::llvm::{Label, LabelView, Module};
use crate::text::{joined, decimal, decimal_text};
use vstd::prelude::*;

verus! {

/// A name of a global or function as the module's text has it: after an
/// `@`.
pub open spec fn at_text(name: Seq<char>) -> Seq<char> {
    "@"@ + name
}

impl GlobalName {
    pub fn text(&self) -> (r: String)
        ensures
            r@ == at_text(self@),
    {
        joined("@", self.get())
    }
}

impl FunctionName {
    pub fn text(&self) -> (r: String)
        ensures
            r@ == at_text(self@),
    {
        joined("@", self.get())
    }
}

impl Error {
    /// The message of the error.
    pub fn text(&self) -> (r: String)
        ensures
            r@ == "Malformed LLVM module: "@ + self@,
    {
        joined("Malformed LLVM module: ", self.0.as_str())
    }
}

/// What a label reads, without a sign before it.
pub open spec fn plain_label(l: LabelView) -> Seq<char> {
    match l {
        LabelView::Name(s) => s,
        LabelView::Number(n) => decimal_text(n as nat),
    }
}

fn plain_label_of(l: &Label) -> (r: String)
    ensures
        r@ == plain_label(l@),
{
    match l {
        Label::Name(s) => s.clone(),
        Label::Number(n) => decimal(*n as u64),
    }
}

/// The name of a function of the module, or a question mark for a number
/// that stands for none.
pub open spec fn function_text(m: Module, f: FunctionId) -> Seq<char> {
    if m.is_function(f) {
        m.function_name(f)
    } else {
        "?"@
    }
}

/// The name of a variable or alias of the module, or a question mark for a
/// number that stands for none.
pub open spec fn global_text(m: Module, g: GlobalId) -> Seq<char> {
    if g < m.globals.len() {
        m.globals@[g as int].name@
    } else if g - m.globals.len() < m.aliases.len() {
        m.aliases@[g - m.globals.len()]@
    } else {
        "?"@
    }
}

/// How a block is written: the function, a colon and the block's label.
pub open spec fn block_text(m: Module, b: BlockName) -> Seq<char> {
    function_text(m, b.parent_function) + ":"@ + if m.is_block(b.parent_function, b.index) {
        plain_label(m.block(b.parent_function, b.index).label@)
    } else {
        "?"@
    }
}

/// How an instruction is written: its block, a colon and its position.
pub open spec fn instruction_text(m: Module, i: InstructionName) -> Seq<char> {
    block_text(m, BlockName { parent_function: i.parent_function, index: i.parent_block }) + ":"@
        + decimal_text(i.idx as nat)
}

/// How a parameter is written: the function, a colon and the parameter's
/// label.
pub open spec fn parameter_text(m: Module, p: ParameterName) -> Seq<char> {
    function_text(m, p.parent_function) + ":"@ + if m.is_definition(p.parent_function) && p.index
        < m.functions@[p.parent_function as int].parameter_labels.len() {
        plain_label(m.functions@[p.parent_function as int].parameter_labels@[p.index as int]@)
    } else {
        "?"@
    }
}

/// How a local is written.
pub open spec fn local_text(m: Module, l: LocalName) -> Seq<char> {
    match l {
        LocalName::Parameter(p) => parameter_text(m, p),
        LocalName::Instruction(i) => instruction_text(m, i),
    }
}

/// How a constant is written.
pub open spec fn constant_text(m: Module, c: Constant) -> Seq<char>
    decreases c,
{
    match c {
        Constant::Function(f) => at_text(function_text(m, f)),
        Constant::Global(g) => at_text(global_text(m, g)),
        Constant::Int { bits, value } => "i"@ + decimal_text(bits as nat) + " "@ + decimal_text(
            value as nat,
        ),
        Constant::Null => "null"@,
        Constant::Add => "Add"@,
        Constant::Sub => "Sub"@,
        Constant::Mul => "Mul"@,
        Constant::UDiv => "UDiv"@,
        Constant::SDiv => "SDiv"@,
        Constant::URem => "URem"@,
        Constant::SRem => "SRem"@,
        Constant::And => "And"@,
        Constant::Or => "Or"@,
        Constant::Xor => "Xor"@,
        Constant::Shl => "Shl"@,
        Constant::LShr => "LShr"@,
        Constant::AShr => "AShr"@,
        Constant::FAdd => "FAdd"@,
        Constant::FSub => "FSub"@,
        Constant::FMul => "FMul"@,
        Constant::FDiv => "FDiv"@,
        Constant::FRem => "FRem"@,
        Constant::ExtractElement => "ExtractElement"@,
        Constant::InsertElement => "InsertElement"@,
        Constant::ShuffleVector => "ShuffleVector"@,
        Constant::ExtractValue => "ExtractValue"@,
        Constant::InsertValue => "InsertValue"@,
        Constant::Trunc => "Trunc"@,
        Constant::ZExt => "ZExt"@,
        Constant::SExt => "SExt"@,
        Constant::FPTrunc => "FPTrunc"@,
        Constant::FPExt => "FPExt"@,
        Constant::FPToUI => "FPToUI"@,
        Constant::FPToSI => "FPToSI"@,
        Constant::UIToFP => "UIToFP"@,
        Constant::SIToFP => "SIToFP"@,
        Constant::AddrSpaceCast => "AddrSpaceCast"@,
        Constant::ICmp => "ICmp"@,
        Constant::FCmp => "FCmp"@,
        Constant::Select => "Select"@,
        Constant::GetElementPtr(g) => "getelementptr("@ + constant_text(m, *g.pointer) + ")"@,
        Constant::PtrToInt(p) => "ptrtoint("@ + constant_text(m, *p.pointer) + ")"@,
        Constant::IntToPtr(p) => "inttoptr("@ + constant_text(m, *p.int) + ")"@,
        Constant::BitCast(b) => "bitcast("@ + constant_text(m, *b.pointer) + ")"@,
        Constant::Array(a) => "[ "@ + list_text(m, a) + " ]"@,
        Constant::Struct(s) => "{ "@ + list_text(m, s.fields) + " }"@,
        Constant::Undef => "undef"@,
        Constant::Other => "<some constant>"@,
    }
}

/// How the elements of an aggregate are written: with a comma and a space
/// between them.
pub open spec fn list_text(m: Module, l: ConstantList) -> Seq<char>
    decreases l,
{
    match l {
        ConstantList::Nil => Seq::empty(),
        ConstantList::Cons(head, tail) => match *tail {
            ConstantList::Nil => constant_text(m, *head),
            ConstantList::Cons(_, _) => constant_text(m, *head) + ", "@ + list_text(m, *tail),
        },
    }
}

/// How an operand is written.
pub open spec fn operand_text(m: Module, o: Operand) -> Seq<char> {
    match o {
        Operand::Constant(c) => constant_text(m, c),
        Operand::Local(l) => local_text(m, l),
        Operand::Metadata => "<metadata>"@,
    }
}

/// How a size is written: an underscore where it is not known.
pub open spec fn size_text(size: Option<u64>) -> Seq<char> {
    match size {
        Some(n) => decimal_text(n as nat),
        None => "_"@,
    }
}

/// How a truth value is written.
pub open spec fn bool_text(b: bool) -> Seq<char> {
    if b {
        "true"@
    } else {
        "false"@
    }
}

/// The name of the global that an allocation is the storage of.
pub open spec fn key_text(m: Module, extra: Seq<GlobalName>, key: GlobalKey) -> Seq<char> {
    match key {
        GlobalKey::Variable(g) => global_text(m, g),
        GlobalKey::Extra(i) => if i < extra.len() {
            extra[i as int]@
        } else {
            "?"@
        },
    }
}

/// How an allocation is written: an asterisk and its origin, for a global
/// with its constness and for a global or heap object with its size; `Top`
/// is written as it is.
pub open spec fn alloc_text(m: Module, extra: Seq<GlobalName>, a: Alloc) -> Seq<char> {
    match a {
        Alloc::Function(f) => "*"@ + at_text(function_text(m, f.0)),
        Alloc::Global(g) => "*"@ + at_text(key_text(m, extra, g.global)) + ":"@ + bool_text(
            g.constant_spec(m),
        ) + "("@ + size_text(g.size_spec(m)) + ")"@,
        Alloc::Heap(h) => "*"@ + instruction_text(m, h.instruction) + "("@ + size_text(
            h.size_spec(m),
        ) + ")"@,
        Alloc::Stack(s) => "*"@ + instruction_text(m, s.name),
        Alloc::Null => "*null"@,
        Alloc::Top => "Top"@,
    }
}

/// How a value is written.
pub open spec fn value_text(v: IntLattice) -> Seq<char> {
    match v.0 {
        ConstValue::Bottom => "\u{22a5}"@,
        ConstValue::Constant(c) => decimal_text(c.value as nat) + ": i"@ + decimal_text(
            c.bits as nat,
        ),
        ConstValue::Top => "\u{22a4}"@,
    }
}

fn size_text_of(size: Option<u64>) -> (r: String)
    ensures
        r@ == size_text(size),
{
    match size {
        Some(n) => decimal(n),
        None => "_".to_owned(),
    }
}

impl IntLattice {
    pub fn text(&self) -> (r: String)
        ensures
            r@ == value_text(*self),
    {
        match self.0 {
            ConstValue::Bottom => "\u{22a5}".to_owned(),
            ConstValue::Constant(c) => {
                let mut s = decimal(c.value);
                s.append(": i");
                let b = decimal(c.bits as u64);
                s.append(b.as_str());
                s
            },
            ConstValue::Top => "\u{22a4}".to_owned(),
        }
    }
}

impl Module {
    pub fn function_text(&self, f: FunctionId) -> (r: String)
        ensures
            r@ == function_text(*self, f),
    {
        if self.has_function(f) {
            self.name_of(f).to_owned()
        } else {
            "?".to_owned()
        }
    }

    pub fn global_text(&self, g: GlobalId) -> (r: String)
        ensures
            r@ == global_text(*self, g),
    {
        if g < self.globals.len() {
            self.globals[g].name.get().to_owned()
        } else if g - self.globals.len() < self.aliases.len() {
            self.aliases[g - self.globals.len()].get().to_owned()
        } else {
            "?".to_owned()
        }
    }

    /// How the block is written.
    pub fn block_text(&self, b: BlockName) -> (r: String)
        ensures
            r@ == block_text(*self, b),
    {
        let mut s = self.function_text(b.parent_function);
        s.append(":");
        if b.parent_function < self.functions.len() && b.index
            < self.functions[b.parent_function].blocks.len() {
            let l = plain_label_of(&self.functions[b.parent_function].blocks[b.index].label);
            s.append(l.as_str());
        } else {
            s.append("?");
        }
        s
    }

    /// How the instruction is written.
    pub fn instruction_text(&self, i: InstructionName) -> (r: String)
        ensures
            r@ == instruction_text(*self, i),
    {
        let mut s = self.block_text(i.block());
        s.append(":");
        let d = decimal(i.idx as u64);
        s.append(d.as_str());
        s
    }

    /// How the parameter is written.
    pub fn parameter_text(&self, p: ParameterName) -> (r: String)
        ensures
            r@ == parameter_text(*self, p),
    {
        let mut s = self.function_text(p.parent_function);
        s.append(":");
        if p.parent_function < self.functions.len() && p.index
            < self.functions[p.parent_function].parameter_labels.len() {
            let l = plain_label_of(&self.functions[p.parent_function].parameter_labels[p.index]);
            s.append(l.as_str());
        } else {
            s.append("?");
        }
        s
    }

    /// How the local is written.
    pub fn local_text(&self, l: &LocalName) -> (r: String)
        ensures
            r@ == local_text(*self, *l),
    {
        match l {
            LocalName::Parameter(p) => self.parameter_text(*p),
            LocalName::Instruction(i) => self.instruction_text(*i),
        }
    }

    /// How the constant is written.
    pub fn constant_text(&self, c: &Constant) -> (r: String)
        ensures
            r@ == constant_text(*self, *c),
        decreases *c, 1nat,
    {
        match c {
            Constant::Function(f) => {
                let n = self.function_text(*f);
                joined("@", n.as_str())
            },
            Constant::Global(g) => {
                let n = self.global_text(*g);
                joined("@", n.as_str())
            },
            Constant::Int { bits, value } => {
                let mut s = "i".to_owned();
                let b = decimal(*bits as u64);
                s.append(b.as_str());
                s.append(" ");
                let v = decimal(*value);
                s.append(v.as_str());
                s
            },
            Constant::Null => "null".to_owned(),
            Constant::Add => "Add".to_owned(),
            Constant::Sub => "Sub".to_owned(),
            Constant::Mul => "Mul".to_owned(),
            Constant::UDiv => "UDiv".to_owned(),
            Constant::SDiv => "SDiv".to_owned(),
            Constant::URem => "URem".to_owned(),
            Constant::SRem => "SRem".to_owned(),
            Constant::And => "And".to_owned(),
            Constant::Or => "Or".to_owned(),
            Constant::Xor => "Xor".to_owned(),
            Constant::Shl => "Shl".to_owned(),
            Constant::LShr => "LShr".to_owned(),
            Constant::AShr => "AShr".to_owned(),
            Constant::FAdd => "FAdd".to_owned(),
            Constant::FSub => "FSub".to_owned(),
            Constant::FMul => "FMul".to_owned(),
            Constant::FDiv => "FDiv".to_owned(),
            Constant::FRem => "FRem".to_owned(),
            Constant::ExtractElement => "ExtractElement".to_owned(),
            Constant::InsertElement => "InsertElement".to_owned(),
            Constant::ShuffleVector => "ShuffleVector".to_owned(),
            Constant::ExtractValue => "ExtractValue".to_owned(),
            Constant::InsertValue => "InsertValue".to_owned(),
            Constant::Trunc => "Trunc".to_owned(),
            Constant::ZExt => "ZExt".to_owned(),
            Constant::SExt => "SExt".to_owned(),
            Constant::FPTrunc => "FPTrunc".to_owned(),
            Constant::FPExt => "FPExt".to_owned(),
            Constant::FPToUI => "FPToUI".to_owned(),
            Constant::FPToSI => "FPToSI".to_owned(),
            Constant::UIToFP => "UIToFP".to_owned(),
            Constant::SIToFP => "SIToFP".to_owned(),
            Constant::AddrSpaceCast => "AddrSpaceCast".to_owned(),
            Constant::ICmp => "ICmp".to_owned(),
            Constant::FCmp => "FCmp".to_owned(),
            Constant::Select => "Select".to_owned(),
            Constant::GetElementPtr(g) => self.wrapped("getelementptr(", &*g.pointer, ")"),
            Constant::PtrToInt(p) => self.wrapped("ptrtoint(", &*p.pointer, ")"),
            Constant::IntToPtr(p) => self.wrapped("inttoptr(", &*p.int, ")"),
            Constant::BitCast(b) => self.wrapped("bitcast(", &*b.pointer, ")"),
            Constant::Array(a) => {
                let mut s = "[ ".to_owned();
                let l = self.list_text(a);
                s.append(l.as_str());
                s.append(" ]");
                s
            },
            Constant::Struct(x) => {
                let mut s = "{ ".to_owned();
                let l = self.list_text(&x.fields);
                s.append(l.as_str());
                s.append(" }");
                s
            },
            Constant::Undef => "undef".to_owned(),
            Constant::Other => "<some constant>".to_owned(),
        }
    }

    fn wrapped(&self, before: &str, c: &Constant, after: &str) -> (r: String)
        ensures
            r@ == before@ + constant_text(*self, *c) + after@,
        decreases *c, 2nat,
    {
        let mut s = before.to_owned();
        let inner = self.constant_text(c);
        s.append(inner.as_str());
        s.append(after);
        s
    }

    fn list_text(&self, l: &ConstantList) -> (r: String)
        ensures
            r@ == list_text(*self, *l),
        decreases *l, 0nat,
    {
        match l {
            ConstantList::Nil => {
                let s = String::new();
                assert(s@ =~= Seq::<char>::empty());
                s
            },
            ConstantList::Cons(head, tail) => {
                let mut s = self.constant_text(&**head);
                match &**tail {
                    ConstantList::Nil => {},
                    ConstantList::Cons(_, _) => {
                        s.append(", ");
                        let rest = self.list_text(&**tail);
                        s.append(rest.as_str());
                    },
                }
                s
            },
        }
    }

    /// How the operand is written.
    pub fn operand_text(&self, o: &Operand) -> (r: String)
        ensures
            r@ == operand_text(*self, *o),
    {
        match o {
            Operand::Constant(c) => self.constant_text(c),
            Operand::Local(l) => self.local_text(l),
            Operand::Metadata => "<metadata>".to_owned(),
        }
    }

    /// How the allocation is written. The globals that are no variables of
    /// the module are written by the given names.
    pub fn alloc_text(&self, extra: &Vec<GlobalName>, a: &Alloc) -> (r: String)
        ensures
            r@ == alloc_text(*self, extra@, *a),
    {
        match a {
            Alloc::Function(f) => {
                let mut s = "*@".to_owned();
                proof {
                    reveal_strlit("*@");
                    reveal_strlit("*");
                    reveal_strlit("@");
                    assert("*@"@ =~= "*"@ + "@"@);
                }
                let n = self.function_text(f.0);
                s.append(n.as_str());
                assert(s@ =~= "*"@ + at_text(function_text(*self, f.0)));
                s
            },
            Alloc::Global(g) => {
                let mut s = "*@".to_owned();
                proof {
                    reveal_strlit("*@");
                    reveal_strlit("*");
                    reveal_strlit("@");
                    assert("*@"@ =~= "*"@ + "@"@);
                }
                match g.global {
                    GlobalKey::Variable(v) => {
                        let n = self.global_text(v);
                        s.append(n.as_str());
                    },
                    GlobalKey::Extra(i) => {
                        if i < extra.len() {
                            s.append(extra[i].get());
                        } else {
                            s.append("?");
                        }
                    },
                }
                assert(s@ =~= "*"@ + at_text(key_text(*self, extra@, g.global)));
                s.append(":");
                if g.constant(self) {
                    s.append("true");
                } else {
                    s.append("false");
                }
                s.append("(");
                let z = size_text_of(g.size(self));
                s.append(z.as_str());
                s.append(")");
                s
            },
            Alloc::Heap(h) => {
                let mut s = "*".to_owned();
                let i = self.instruction_text(h.instruction);
                s.append(i.as_str());
                s.append("(");
                let z = size_text_of(h.size(self));
                s.append(z.as_str());
                s.append(")");
                s
            },
            Alloc::Stack(x) => {
                let i = self.instruction_text(x.name);
                joined("*", i.as_str())
            },
            Alloc::Null => "*null".to_owned(),
            Alloc::Top => "Top".to_owned(),
        }
    }
}

/// How call sites are written one after the other: with a comma and a
/// blank between two of them.
pub open spec fn sites_text(m: Module, sites: Seq<InstructionName>) -> Seq<char>
    decreases sites.len(),
{
    if sites.len() == 0 {
        Seq::empty()
    } else if sites.len() == 1 {
        instruction_text(m, sites[0])
    } else {
        sites_text(m, sites.drop_last()) + ", "@ + instruction_text(m, sites.last())
    }
}

/// How a context is written: its call sites, newest first, in square
/// brackets.
pub open spec fn context_text(m: Module, ctx: Seq<InstructionName>) -> Seq<char> {
    "["@ + sites_text(m, ctx) + "]"@
}

/// How a row is written that says what an operand may denote in a context.
pub open spec fn points_to_text(
    m: Module,
    extra: Seq<GlobalName>,
    ctx: Seq<InstructionName>,
    o: Operand,
    a: Alloc,
) -> Seq<char> {
    context_text(m, ctx) + ": "@ + operand_text(m, o) + " --> "@ + alloc_text(m, extra, a)
}

/// How a row is written that says that one allocation points to another.
pub open spec fn edge_text(m: Module, extra: Seq<GlobalName>, from: Alloc, to: Alloc) -> Seq<char> {
    alloc_text(m, extra, from) + " --> "@ + alloc_text(m, extra, to)
}

impl Module {
    /// How the context is written.
    pub fn context_text(&self, ctx: &Context) -> (r: String)
        ensures
            r@ == context_text(*self, ctx@),
    {
        let mut s = "[".to_owned();
        let n = ctx.elems.len();
        let mut i: usize = 0;
        assert(ctx@.subrange(0, 0) =~= Seq::<InstructionName>::empty());
        while i < n
            invariant
                i <= n,
                n == ctx@.len(),
                s@ == "["@ + sites_text(*self, ctx@.subrange(0, i as int)),
            decreases n - i,
        {
            let ghost before = s@;
            let ghost prefix = ctx@.subrange(0, i as int);
            let ghost next = ctx@.subrange(0, i + 1);
            proof {
                assert(next.drop_last() =~= prefix);
                assert(next.last() == ctx@[i as int]);
                assert(next[0] == ctx@[0]);
            }
            if i > 0 {
                s.append(", ");
            }
            let t = self.instruction_text(ctx.elems[i]);
            s.append(t.as_str());
            proof {
                if i == 0 {
                    assert(sites_text(*self, prefix) =~= Seq::<char>::empty());
                    assert(s@ =~= "["@ + sites_text(*self, next));
                } else {
                    assert(s@ =~= "["@ + (sites_text(*self, prefix) + ", "@ + t@));
                }
            }
            i += 1;
        }
        assert(ctx@.subrange(0, i as int) =~= ctx@);
        s.append("]");
        s
    }

    /// How the row is written that says what the operand may denote in the
    /// context.
    pub fn points_to_text(
        &self,
        extra: &Vec<GlobalName>,
        ctx: &Context,
        o: &Operand,
        a: &Alloc,
    ) -> (r: String)
        ensures
            r@ == points_to_text(*self, extra@, ctx@, *o, *a),
    {
        let mut s = self.context_text(ctx);
        s.append(": ");
        let x = self.operand_text(o);
        s.append(x.as_str());
        s.append(" --> ");
        let y = self.alloc_text(extra, a);
        s.append(y.as_str());
        s
    }

    /// How the row is written that says that one allocation points to
    /// another.
    pub fn edge_text(&self, extra: &Vec<GlobalName>, from: &Alloc, to: &Alloc) -> (r: String)
        ensures
            r@ == edge_text(*self, extra@, *from, *to),
    {
        let mut s = self.alloc_text(extra, from);
        s.append(" --> ");
        let y = self.alloc_text(extra, to);
        s.append(y.as_str());
        s
    }
}

} // verus!
