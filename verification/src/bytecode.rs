//! The bytecode module layout: pools, functions, the instruction set, and a
//! verified validator that checks every pool index and jump target a module
//! holds, so the dispatch loop can rely on them.

use vstd::prelude::*;

use crate::ids::IDClass;
use crate::sources::{CodeSpan, SpwnSource};
use crate::value::FloatBits;

verus! {

/// A count or jump offset embedded in an instruction.
#[derive(Debug, Clone, Copy, PartialEq, Eq, Structural)]
pub struct InstrNum(pub u16);

/// A module-unique variable slot.
#[derive(Debug, Clone, Copy, PartialEq, Eq, Structural)]
pub struct VarID(pub u16);

/// Index into the constant pool.
#[derive(Debug, Clone, Copy, PartialEq, Eq, Structural)]
pub struct ConstID(pub u16);

/// Index into the dict-keys pool.
#[derive(Debug, Clone, Copy, PartialEq, Eq, Structural)]
pub struct KeysID(pub u16);

/// Index into the member-name pool.
#[derive(Debug, Clone, Copy, PartialEq, Eq, Structural)]
pub struct MemberID(pub u16);

/// Index into the macro-build pool.
#[derive(Debug, Clone, Copy, PartialEq, Eq, Structural)]
pub struct MacroBuildID(pub u16);

/// Index into the import pool.
#[derive(Debug, Clone, Copy, PartialEq, Eq, Structural)]
pub struct ImportID(pub u16);

/// Index into the machine's builtin table.
#[derive(Debug, Clone, Copy, PartialEq, Eq, Structural)]
pub struct BuiltinKey(pub u16);

/// A compile-time constant from the constant pool.
#[derive(Debug, Clone, PartialEq)]
pub enum Constant {
    Int(i64),
    Float(FloatBits),
    String(String),
    Bool(bool),
    Id(IDClass, u16),
    /// `start`, exclusive `end`, `step`.
    Range(i64, i64, usize),
}

/// A binary operator, as written in the source.
#[derive(Debug, Clone, Copy, PartialEq, Eq, Structural)]
pub enum BinOp {
    Plus,
    Minus,
    Mult,
    Div,
    Mod,
    Pow,
    Eq,
    Neq,
    Gt,
    Gte,
    Lt,
    Lte,
    Is,
}

/// A unary operator, as written in the source.
#[derive(Debug, Clone, Copy, PartialEq, Eq, Structural)]
pub enum UnaryOp {
    Minus,
    ExclMark,
}

/// The operator operand of a `CallOp` instruction.
#[derive(Debug, Clone, Copy, PartialEq, Eq, Structural)]
pub enum Operator {
    Bin(BinOp),
    Unary(UnaryOp),
}

impl BinOp {
    /// The source spelling of the operator.
    pub fn to_str(self) -> (r: &'static str)
        ensures
            r@ == spec_bin_op_str(self),
    {
        proof {
            reveal_op_strs();
        }
        match self {
            BinOp::Plus => "+",
            BinOp::Minus => "-",
            BinOp::Mult => "*",
            BinOp::Div => "/",
            BinOp::Mod => "%",
            BinOp::Pow => "^",
            BinOp::Eq => "==",
            BinOp::Neq => "!=",
            BinOp::Gt => ">",
            BinOp::Gte => ">=",
            BinOp::Lt => "<",
            BinOp::Lte => "<=",
            BinOp::Is => "is",
        }
    }
}

/// The characters of the source spelling of `op`.
pub open spec fn spec_bin_op_str(op: BinOp) -> Seq<char> {
    match op {
        BinOp::Plus => "+"@,
        BinOp::Minus => "-"@,
        BinOp::Mult => "*"@,
        BinOp::Div => "/"@,
        BinOp::Mod => "%"@,
        BinOp::Pow => "^"@,
        BinOp::Eq => "=="@,
        BinOp::Neq => "!="@,
        BinOp::Gt => ">"@,
        BinOp::Gte => ">="@,
        BinOp::Lt => "<"@,
        BinOp::Lte => "<="@,
        BinOp::Is => "is"@,
    }
}

impl UnaryOp {
    /// The source spelling of the operator.
    pub fn to_str(self) -> (r: &'static str)
        ensures
            r@ == spec_unary_op_str(self),
    {
        proof {
            reveal_op_strs();
        }
        match self {
            UnaryOp::Minus => "-",
            UnaryOp::ExclMark => "!",
        }
    }
}

/// The characters of the source spelling of `op`.
pub open spec fn spec_unary_op_str(op: UnaryOp) -> Seq<char> {
    match op {
        UnaryOp::Minus => "-"@,
        UnaryOp::ExclMark => "!"@,
    }
}

/// Reveals every operator spelling literal.
pub proof fn reveal_op_strs()
{
    reveal_strlit("+");
    reveal_strlit("-");
    reveal_strlit("*");
    reveal_strlit("/");
    reveal_strlit("%");
    reveal_strlit("^");
    reveal_strlit("==");
    reveal_strlit("!=");
    reveal_strlit(">");
    reveal_strlit(">=");
    reveal_strlit("<");
    reveal_strlit("<=");
    reveal_strlit("is");
    reveal_strlit("!");
}

/// One instruction of the flat per-function sequence. Stack-local
/// instructions operate on the current frame's implicit value stack.
#[derive(Debug, Clone, Copy, PartialEq, Eq, Structural)]
pub enum Instruction {
    LoadConst(ConstID),
    CallOp(Operator),
    LoadVar(VarID),
    SetVar(VarID),
    CreateVar(VarID),
    BuildArray(InstrNum),
    BuildDict(KeysID),
    Jump(InstrNum),
    JumpIfFalse(InstrNum),
    UnwrapOrJump(InstrNum),
    PopTop,
    PushEmpty,
    WrapMaybe,
    PushNone,
    TriggerFuncCall,
    PushTriggerFn,
    Print,
    ToIter,
    IterNext(InstrNum),
    /// Installs a member table on a type: pops the type and the member dict.
    Impl,
    PushAnyPattern,
    BuildMacro(MacroBuildID),
    Call(InstrNum),
    CallBuiltin(BuiltinKey),
    Return,
    Index,
    Member(MemberID),
    Associated(MemberID),
    TypeOf,
    YeetContext,
    EnterArrowStatement(InstrNum),
    EnterTriggerFunction(InstrNum),
    /// Assembles a target object record from the last `n` key/value pairs on
    /// the stack.
    BuildObject(InstrNum),
    BuildTrigger(InstrNum),
    AddObject,
    /// Creates an instance of a type: pops the type and the field dict.
    BuildInstance,
    PushBuiltins,
    Import(ImportID),
}

/// Whether the embedded number of `i` may be patched after emission: exactly
/// the count/offset-carrying kinds, whose forward targets are backpatched.
pub open spec fn spec_patchable(i: Instruction) -> bool {
    match i {
        Instruction::BuildArray(..) => true,
        Instruction::Jump(..) => true,
        Instruction::JumpIfFalse(..) => true,
        Instruction::EnterArrowStatement(..) => true,
        Instruction::EnterTriggerFunction(..) => true,
        Instruction::IterNext(..) => true,
        Instruction::BuildObject(..) => true,
        Instruction::BuildTrigger(..) => true,
        Instruction::UnwrapOrJump(..) => true,
        _ => false,
    }
}

/// `i` with its embedded number replaced by `n`; other kinds are unchanged.
pub open spec fn spec_patched(i: Instruction, n: u16) -> Instruction {
    match i {
        Instruction::BuildArray(..) => Instruction::BuildArray(InstrNum(n)),
        Instruction::Jump(..) => Instruction::Jump(InstrNum(n)),
        Instruction::JumpIfFalse(..) => Instruction::JumpIfFalse(InstrNum(n)),
        Instruction::EnterArrowStatement(..) => Instruction::EnterArrowStatement(InstrNum(n)),
        Instruction::EnterTriggerFunction(..) => Instruction::EnterTriggerFunction(InstrNum(n)),
        Instruction::IterNext(..) => Instruction::IterNext(InstrNum(n)),
        Instruction::BuildObject(..) => Instruction::BuildObject(InstrNum(n)),
        Instruction::BuildTrigger(..) => Instruction::BuildTrigger(InstrNum(n)),
        Instruction::UnwrapOrJump(..) => Instruction::UnwrapOrJump(InstrNum(n)),
        _ => i,
    }
}

impl Instruction {
    /// Overwrites the embedded count/offset, for forward-jump backpatching.
    /// Patching any other instruction kind is a compiler-internal programming
    /// error, so it is ruled out here rather than handled at runtime.
    pub fn modify_num(&mut self, n: u16)
        requires
            spec_patchable(*old(self)),
        ensures
            *final(self) == spec_patched(*old(self), n),
    {
        match self {
            Instruction::BuildArray(num) => num.0 = n,
            Instruction::Jump(num) => num.0 = n,
            Instruction::JumpIfFalse(num) => num.0 = n,
            Instruction::EnterArrowStatement(num) => num.0 = n,
            Instruction::EnterTriggerFunction(num) => num.0 = n,
            Instruction::IterNext(num) => num.0 = n,
            Instruction::BuildObject(num) => num.0 = n,
            Instruction::BuildTrigger(num) => num.0 = n,
            Instruction::UnwrapOrJump(num) => num.0 = n,
            _ => {
                proof {
                    assert(false);
                }
            },
        }
    }
}

/// The runtime value denoted by the constant-pool entry `c`.
pub open spec fn spec_from_const(c: Constant) -> crate::value::Value {
    match c {
        Constant::Int(v) => crate::value::Value::Int(v),
        Constant::Float(v) => crate::value::Value::Float(v),
        Constant::String(v) => crate::value::Value::String(v),
        Constant::Bool(v) => crate::value::Value::Bool(v),
        Constant::Id(cls, v) => match cls {
            IDClass::Group => crate::value::Value::Group(crate::ids::Id::Specific(v)),
            IDClass::Color => crate::value::Value::Color(crate::ids::Id::Specific(v)),
            IDClass::Block => crate::value::Value::Block(crate::ids::Id::Specific(v)),
            IDClass::Item => crate::value::Value::Item(crate::ids::Id::Specific(v)),
        },
        Constant::Range(a, b, st) => crate::value::Value::Range(a, b, st),
    }
}

impl crate::value::Value {
    /// The runtime value of a constant-pool entry.
    pub fn from_const(c: &Constant) -> (r: crate::value::Value)
        ensures
            r == spec_from_const(*c),
    {
        match c {
            Constant::Int(v) => crate::value::Value::Int(*v),
            Constant::Float(v) => crate::value::Value::Float(*v),
            Constant::String(v) => crate::value::Value::String(v.clone()),
            Constant::Bool(v) => crate::value::Value::Bool(*v),
            Constant::Id(cls, v) => {
                let id = crate::ids::Id::Specific(*v);
                match cls {
                    IDClass::Group => crate::value::Value::Group(id),
                    IDClass::Color => crate::value::Value::Color(id),
                    IDClass::Block => crate::value::Value::Block(id),
                    IDClass::Item => crate::value::Value::Item(id),
                }
            },
            Constant::Range(a, b, st) => crate::value::Value::Range(*a, *b, *st),
        }
    }
}

/// The position of one instruction: function index and index inside it.
#[derive(Debug, Clone, Copy, PartialEq, Eq, Structural)]
pub struct InstrPos {
    pub func: usize,
    pub idx: usize,
}

/// One compiled function: its instruction sequence, each instruction paired
/// with its source span, and the three disjoint sets of variable slots it
/// uses.
#[derive(Debug, Clone, PartialEq)]
pub struct BytecodeFunc {
    pub instructions: Vec<(Instruction, CodeSpan)>,
    /// Slots bound to call arguments, in parameter order.
    pub arg_ids: Vec<VarID>,
    /// Slots filled from a closure's captured keys, in capture order.
    pub capture_ids: Vec<VarID>,
    /// Slots declared inside the function body.
    pub inner_ids: Vec<VarID>,
}

/// Parameter metadata for a closure built at runtime by `BuildMacro`: the
/// target function and, per parameter, its name and whether a default value
/// and a pattern are popped from the stack when the closure is built.
#[derive(Debug, Clone, PartialEq)]
pub struct MacroBuild {
    pub func: usize,
    pub params: Vec<(String, bool, bool)>,
}

/// One compiled source unit: its pools and its function table. All pools are
/// append-only, index-stable, and built once at compile time.
#[derive(Debug, Clone, PartialEq)]
pub struct Code {
    pub source: SpwnSource,
    pub const_register: Vec<Constant>,
    /// Key lists for literal dict construction.
    pub keys_register: Vec<Vec<String>>,
    /// Member names for `Member` and `Associated` resolution.
    pub member_register: Vec<String>,
    /// Imports, resolved by the external lowering pass to indices into the
    /// machine's program table.
    pub import_register: Vec<usize>,
    pub macro_build_register: Vec<MacroBuild>,
    /// The number of variable slots a frame of this module needs.
    pub var_count: usize,
    pub funcs: Vec<BytecodeFunc>,
}

/// Whether one instruction's embedded indices all stay inside the module's
/// pools, the program table and the builtin table, and its jump targets stay
/// inside the function (a target equal to the length ends the frame).
pub open spec fn instr_wf(
    i: Instruction,
    code: Code,
    func_len: int,
    nprograms: int,
    nbuiltins: int,
) -> bool {
    match i {
        Instruction::LoadConst(c) => c.0 < code.const_register@.len(),
        Instruction::LoadVar(v) => v.0 < code.var_count,
        Instruction::SetVar(v) => v.0 < code.var_count,
        Instruction::CreateVar(v) => v.0 < code.var_count,
        Instruction::BuildDict(k) => k.0 < code.keys_register@.len(),
        Instruction::Jump(n) => n.0 <= func_len,
        Instruction::JumpIfFalse(n) => n.0 <= func_len,
        Instruction::UnwrapOrJump(n) => n.0 <= func_len,
        Instruction::IterNext(n) => n.0 <= func_len,
        Instruction::EnterArrowStatement(n) => n.0 <= func_len,
        Instruction::EnterTriggerFunction(n) => n.0 <= func_len,
        Instruction::BuildMacro(b) => b.0 < code.macro_build_register@.len(),
        Instruction::CallBuiltin(b) => b.0 < nbuiltins,
        Instruction::Member(m) => m.0 < code.member_register@.len(),
        Instruction::Associated(m) => m.0 < code.member_register@.len(),
        Instruction::Import(im) => im.0 < code.import_register@.len(),
        _ => true,
    }
}

/// Whether a whole module is well-formed against a machine with `nprograms`
/// programs and `nbuiltins` builtins: every instruction's indices are in
/// range, every variable-slot list stays under `var_count`, every macro-build
/// entry points at a function whose parameter slots match, every import
/// points at a program, and there is a root function to start in.
pub open spec fn code_wf(code: Code, nprograms: int, nbuiltins: int) -> bool {
    &&& code.funcs@.len() > 0
    &&& forall|f: int, i: int|
        0 <= f < code.funcs@.len() && 0 <= i < code.funcs@[f].instructions@.len() ==> instr_wf(
            (#[trigger] code.funcs@[f].instructions@[i]).0,
            code,
            code.funcs@[f].instructions@.len() as int,
            nprograms,
            nbuiltins,
        )
    &&& forall|f: int, i: int|
        0 <= f < code.funcs@.len() && 0 <= i < code.funcs@[f].arg_ids@.len()
            ==> (#[trigger] code.funcs@[f].arg_ids@[i]).0 < code.var_count
    &&& forall|f: int, i: int|
        0 <= f < code.funcs@.len() && 0 <= i < code.funcs@[f].capture_ids@.len()
            ==> (#[trigger] code.funcs@[f].capture_ids@[i]).0 < code.var_count
    &&& forall|f: int, i: int|
        0 <= f < code.funcs@.len() && 0 <= i < code.funcs@[f].inner_ids@.len()
            ==> (#[trigger] code.funcs@[f].inner_ids@[i]).0 < code.var_count
    &&& forall|b: int| 0 <= b < code.macro_build_register@.len() ==> {
        let mb = #[trigger] code.macro_build_register@[b];
        &&& mb.func < code.funcs@.len()
        &&& code.funcs@[mb.func as int].arg_ids@.len() == mb.params@.len()
    }
    &&& forall|im: int|
        0 <= im < code.import_register@.len() ==> #[trigger] code.import_register@[im] < nprograms
}

impl Code {
    /// Checks the module against the pool-index and jump-target rules, so
    /// that an embedder can validate externally produced bytecode before
    /// running it.
    pub fn check(&self, nprograms: usize, nbuiltins: usize) -> (r: bool)
        ensures
            r == code_wf(*self, nprograms as int, nbuiltins as int),
    {
        if self.funcs.len() == 0 {
            return false;
        }
        let nf = self.funcs.len();
        for f in 0..nf
            invariant
                nf == self.funcs@.len(),
                forall|g: int, i: int|
                    0 <= g < f && 0 <= i < self.funcs@[g].instructions@.len() ==> instr_wf(
                        (#[trigger] self.funcs@[g].instructions@[i]).0,
                        *self,
                        self.funcs@[g].instructions@.len() as int,
                        nprograms as int,
                        nbuiltins as int,
                    ),
                forall|g: int, i: int|
                    0 <= g < f && 0 <= i < self.funcs@[g].arg_ids@.len()
                        ==> (#[trigger] self.funcs@[g].arg_ids@[i]).0 < self.var_count,
                forall|g: int, i: int|
                    0 <= g < f && 0 <= i < self.funcs@[g].capture_ids@.len()
                        ==> (#[trigger] self.funcs@[g].capture_ids@[i]).0 < self.var_count,
                forall|g: int, i: int|
                    0 <= g < f && 0 <= i < self.funcs@[g].inner_ids@.len()
                        ==> (#[trigger] self.funcs@[g].inner_ids@[i]).0 < self.var_count,
        {
            let func = &self.funcs[f];
            let ni = func.instructions.len();
            for i in 0..ni
                invariant
                    nf == self.funcs@.len(),
                    f < nf,
                    *func == self.funcs@[f as int],
                    ni == func.instructions@.len(),
                    forall|t: int|
                        0 <= t < i ==> instr_wf(
                            (#[trigger] func.instructions@[t]).0,
                            *self,
                            func.instructions@.len() as int,
                            nprograms as int,
                            nbuiltins as int,
                        ),
            {
                let ok = match func.instructions[i].0 {
                    Instruction::LoadConst(c) => (c.0 as usize) < self.const_register.len(),
                    Instruction::LoadVar(v) => (v.0 as usize) < self.var_count,
                    Instruction::SetVar(v) => (v.0 as usize) < self.var_count,
                    Instruction::CreateVar(v) => (v.0 as usize) < self.var_count,
                    Instruction::BuildDict(k) => (k.0 as usize) < self.keys_register.len(),
                    Instruction::Jump(n) => (n.0 as usize) <= ni,
                    Instruction::JumpIfFalse(n) => (n.0 as usize) <= ni,
                    Instruction::UnwrapOrJump(n) => (n.0 as usize) <= ni,
                    Instruction::IterNext(n) => (n.0 as usize) <= ni,
                    Instruction::EnterArrowStatement(n) => (n.0 as usize) <= ni,
                    Instruction::EnterTriggerFunction(n) => (n.0 as usize) <= ni,
                    Instruction::BuildMacro(b) => (b.0 as usize)
                        < self.macro_build_register.len(),
                    Instruction::CallBuiltin(b) => (b.0 as usize) < nbuiltins,
                    Instruction::Member(m) => (m.0 as usize) < self.member_register.len(),
                    Instruction::Associated(m) => (m.0 as usize) < self.member_register.len(),
                    Instruction::Import(im) => (im.0 as usize) < self.import_register.len(),
                    _ => true,
                };
                if !ok {
                    return false;
                }
            }
            let na = func.arg_ids.len();
            for i in 0..na
                invariant
                    nf == self.funcs@.len(),
                    f < nf,
                    *func == self.funcs@[f as int],
                    na == func.arg_ids@.len(),
                    forall|t: int|
                        0 <= t < i ==> (#[trigger] func.arg_ids@[t]).0 < self.var_count,
            {
                if (func.arg_ids[i].0 as usize) >= self.var_count {
                    return false;
                }
            }
            let nc = func.capture_ids.len();
            for i in 0..nc
                invariant
                    nf == self.funcs@.len(),
                    f < nf,
                    *func == self.funcs@[f as int],
                    nc == func.capture_ids@.len(),
                    forall|t: int|
                        0 <= t < i ==> (#[trigger] func.capture_ids@[t]).0 < self.var_count,
            {
                if (func.capture_ids[i].0 as usize) >= self.var_count {
                    return false;
                }
            }
            let nn = func.inner_ids.len();
            for i in 0..nn
                invariant
                    nf == self.funcs@.len(),
                    f < nf,
                    *func == self.funcs@[f as int],
                    nn == func.inner_ids@.len(),
                    forall|t: int|
                        0 <= t < i ==> (#[trigger] func.inner_ids@[t]).0 < self.var_count,
            {
                if (func.inner_ids[i].0 as usize) >= self.var_count {
                    return false;
                }
            }
        }
        let nb = self.macro_build_register.len();
        for b in 0..nb
            invariant
                nb == self.macro_build_register@.len(),
                forall|t: int| 0 <= t < b ==> {
                    let mb = #[trigger] self.macro_build_register@[t];
                    &&& mb.func < self.funcs@.len()
                    &&& self.funcs@[mb.func as int].arg_ids@.len() == mb.params@.len()
                },
        {
            let mb = &self.macro_build_register[b];
            if mb.func >= self.funcs.len() {
                return false;
            }
            if self.funcs[mb.func].arg_ids.len() != mb.params.len() {
                return false;
            }
        }
        let nim = self.import_register.len();
        for im in 0..nim
            invariant
                nim == self.import_register@.len(),
                forall|t: int| 0 <= t < im ==> #[trigger] self.import_register@[t] < nprograms,
        {
            if self.import_register[im] >= nprograms {
                return false;
            }
        }
        true
    }
}

} // verus!
