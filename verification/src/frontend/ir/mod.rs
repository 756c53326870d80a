//! The intermediate representation: functions of basic blocks over virtual
//! registers, local slots and upvalue slots.

pub mod generator;

use vstd::prelude::*;
use crate::common::text::{decimal, decimal_u64, spec_decimal};

pub use generator::IRGenerator;

verus! {

/// Where a captured variable comes from in the enclosing function.
#[derive(Debug, Clone, Copy, PartialEq, Eq, Structural)]
pub enum IRUpValType {
    /// The local slot of the enclosing function.
    LocalVar(usize),
    /// The upvalue slot of the enclosing function.
    UpVal(usize),
}

#[derive(Debug, Clone, Copy, PartialEq, Eq, Structural)]
pub struct IRUpVal {
    pub slot: usize,
    pub ty: IRUpValType,
}

#[derive(Debug, Clone, PartialEq)]
pub enum IRGeneratorError {
    UndefinedVariable(String),
    InvalidLValue,
    MultipleReturnStatements,
    /// A statement follows a `return` in the same block.
    UnreachableCode,
    /// A construct that the generator does not lower.
    Unsupported(String),
}

#[derive(Debug, Clone, PartialEq)]
pub enum IROperand {
    /// A virtual register.
    Reg(usize),
    /// A local slot; only `LoadLocal` and `StoreLocal` take one.
    Slot(usize),
    /// An upvalue slot; only `LoadUpVal` takes one.
    UpVal(usize),
    /// The name of a function prototype; only `FnProto` takes one.
    Proto(String),
    /// A number, as its binary64 bit pattern; only `LoadImm` takes one.
    ImmFloat(u64),
    ImmBool(bool),
    ImmStr(String),
    Nil,
    Unit,
}

#[derive(Debug, Clone, Copy, PartialEq, Eq, Structural)]
pub enum IRBinOp {
    Add,
    Sub,
    Mul,
    Div,
    Pow,
    Concat,
    Eq,
    Neq,
    Lt,
    Gt,
    Leq,
    Geq,
    And,
    Or,
}

#[derive(Debug, Clone, Copy, PartialEq, Eq, Structural)]
pub enum IRUnOp {
    Neg,
    Not,
}

/// An instruction. Every form but `Drop` defines the register `dest`; the
/// storing forms yield the stored value there.
#[allow(inconsistent_fields)]
#[derive(Debug, Clone, PartialEq)]
pub enum IRInstruction {
    LoadImm { dest: usize, value: IROperand },
    Binary { dest: usize, src1: IROperand, src2: IROperand, operator: IRBinOp },
    Unary { dest: usize, operator: IRUnOp, src: IROperand },
    LoadLocal { dest: usize, src: IROperand },
    StoreLocal { dest: usize, dst: IROperand, src: IROperand },
    LoadGlobal { dest: usize, name: IROperand },
    StoreGlobal { dest: usize, name: IROperand, src: IROperand },
    LoadUpVal { dest: usize, src: IROperand },
    Drop { src: IROperand },
    Call { dest: usize, callee: IROperand, args: Vec<IROperand> },
    IndexOf { dest: usize, collection: IROperand, index: IROperand },
    SetIndex { dest: usize, collection: IROperand, index: IROperand, value: IROperand },
    MemberOf { dest: usize, collection: IROperand, member: IROperand },
    SetMember { dest: usize, collection: IROperand, member: IROperand, value: IROperand },
    NewTable { dest: usize, size_array: IROperand, size_hash: IROperand },
    SetTable { dest: usize, table: IROperand, key: IROperand, value: IROperand },
    GetTable { dest: usize, table: IROperand, key: IROperand },
    FnProto { dest: usize, func_proto: IROperand },
}

/// What ends a basic block.
#[derive(Debug, Clone, PartialEq)]
pub enum IRTerminator {
    Return(Vec<IROperand>),
    Jump(usize),
    Branch { cond: IROperand, br_true: usize, br_false: usize },
    /// Go on with the block that follows in the function.
    FallThrough,
}

#[derive(Debug, Clone, PartialEq)]
pub struct IRBasicBlock {
    pub id: usize,
    pub instructions: Vec<IRInstruction>,
    pub terminator: IRTerminator,
}

/// A function prototype. The parameters are bound to the first local slots.
/// `local_variables` and `upvalues` are in slot order.
#[derive(Debug, Clone, PartialEq)]
pub struct IRFunction {
    pub name: String,
    pub params: Vec<String>,
    pub basic_blocks: Vec<IRBasicBlock>,
    pub local_variables: Vec<(String, usize)>,
    pub upvalues: Vec<(String, IRUpVal)>,
    pub sub_functions: Vec<String>,
}

#[derive(Debug, Clone, PartialEq)]
pub struct IRModule {
    pub functions: Vec<IRFunction>,
}

impl IROperand {
    /// A copy of the operand.
    pub fn dup(&self) -> (r: IROperand)
        ensures
            r == *self,
    {
        match self {
            IROperand::Reg(n) => IROperand::Reg(*n),
            IROperand::Slot(n) => IROperand::Slot(*n),
            IROperand::UpVal(n) => IROperand::UpVal(*n),
            IROperand::Proto(s) => IROperand::Proto(s.clone()),
            IROperand::ImmFloat(x) => IROperand::ImmFloat(*x),
            IROperand::ImmBool(b) => IROperand::ImmBool(*b),
            IROperand::ImmStr(s) => IROperand::ImmStr(s.clone()),
            IROperand::Nil => IROperand::Nil,
            IROperand::Unit => IROperand::Unit,
        }
    }
}

/// An operand as contracts see it: names and strings by their text.
pub enum OperandView {
    Reg(usize),
    Slot(usize),
    UpVal(usize),
    Proto(Seq<char>),
    ImmFloat(u64),
    ImmBool(bool),
    ImmStr(Seq<char>),
    Nil,
    Unit,
}

impl View for IROperand {
    type V = OperandView;

    open spec fn view(&self) -> OperandView {
        match *self {
            IROperand::Reg(n) => OperandView::Reg(n),
            IROperand::Slot(n) => OperandView::Slot(n),
            IROperand::UpVal(n) => OperandView::UpVal(n),
            IROperand::Proto(s) => OperandView::Proto(s@),
            IROperand::ImmFloat(x) => OperandView::ImmFloat(x),
            IROperand::ImmBool(b) => OperandView::ImmBool(b),
            IROperand::ImmStr(s) => OperandView::ImmStr(s@),
            IROperand::Nil => OperandView::Nil,
            IROperand::Unit => OperandView::Unit,
        }
    }
}

/// The operands as contracts see them.
pub open spec fn spec_operand_views(ops: Seq<IROperand>) -> Seq<OperandView> {
    ops.map_values(|o: IROperand| o@)
}

/// An instruction as contracts see it.
#[allow(inconsistent_fields)]
pub enum InstrView {
    LoadImm { dest: usize, value: OperandView },
    Binary { dest: usize, src1: OperandView, src2: OperandView, operator: IRBinOp },
    Unary { dest: usize, operator: IRUnOp, src: OperandView },
    LoadLocal { dest: usize, src: OperandView },
    StoreLocal { dest: usize, dst: OperandView, src: OperandView },
    LoadGlobal { dest: usize, name: OperandView },
    StoreGlobal { dest: usize, name: OperandView, src: OperandView },
    LoadUpVal { dest: usize, src: OperandView },
    Drop { src: OperandView },
    Call { dest: usize, callee: OperandView, args: Seq<OperandView> },
    IndexOf { dest: usize, collection: OperandView, index: OperandView },
    SetIndex { dest: usize, collection: OperandView, index: OperandView, value: OperandView },
    MemberOf { dest: usize, collection: OperandView, member: OperandView },
    SetMember { dest: usize, collection: OperandView, member: OperandView, value: OperandView },
    NewTable { dest: usize, size_array: OperandView, size_hash: OperandView },
    SetTable { dest: usize, table: OperandView, key: OperandView, value: OperandView },
    GetTable { dest: usize, table: OperandView, key: OperandView },
    FnProto { dest: usize, func_proto: OperandView },
}

impl View for IRInstruction {
    type V = InstrView;

    open spec fn view(&self) -> InstrView {
        match *self {
            IRInstruction::LoadImm { dest, value } => InstrView::LoadImm { dest, value: value@ },
            IRInstruction::Binary { dest, src1, src2, operator } => InstrView::Binary {
                dest,
                src1: src1@,
                src2: src2@,
                operator,
            },
            IRInstruction::Unary { dest, operator, src } => InstrView::Unary {
                dest,
                operator,
                src: src@,
            },
            IRInstruction::LoadLocal { dest, src } => InstrView::LoadLocal { dest, src: src@ },
            IRInstruction::StoreLocal { dest, dst, src } => InstrView::StoreLocal {
                dest,
                dst: dst@,
                src: src@,
            },
            IRInstruction::LoadGlobal { dest, name } => InstrView::LoadGlobal { dest, name: name@ },
            IRInstruction::StoreGlobal { dest, name, src } => InstrView::StoreGlobal {
                dest,
                name: name@,
                src: src@,
            },
            IRInstruction::LoadUpVal { dest, src } => InstrView::LoadUpVal { dest, src: src@ },
            IRInstruction::Drop { src } => InstrView::Drop { src: src@ },
            IRInstruction::Call { dest, callee, args } => InstrView::Call {
                dest,
                callee: callee@,
                args: spec_operand_views(args@),
            },
            IRInstruction::IndexOf { dest, collection, index } => InstrView::IndexOf {
                dest,
                collection: collection@,
                index: index@,
            },
            IRInstruction::SetIndex { dest, collection, index, value } => InstrView::SetIndex {
                dest,
                collection: collection@,
                index: index@,
                value: value@,
            },
            IRInstruction::MemberOf { dest, collection, member } => InstrView::MemberOf {
                dest,
                collection: collection@,
                member: member@,
            },
            IRInstruction::SetMember { dest, collection, member, value } => InstrView::SetMember {
                dest,
                collection: collection@,
                member: member@,
                value: value@,
            },
            IRInstruction::NewTable { dest, size_array, size_hash } => InstrView::NewTable {
                dest,
                size_array: size_array@,
                size_hash: size_hash@,
            },
            IRInstruction::SetTable { dest, table, key, value } => InstrView::SetTable {
                dest,
                table: table@,
                key: key@,
                value: value@,
            },
            IRInstruction::GetTable { dest, table, key } => InstrView::GetTable {
                dest,
                table: table@,
                key: key@,
            },
            IRInstruction::FnProto { dest, func_proto } => InstrView::FnProto {
                dest,
                func_proto: func_proto@,
            },
        }
    }
}

/// The instructions as contracts see them.
pub open spec fn spec_instr_views(instrs: Seq<IRInstruction>) -> Seq<InstrView> {
    instrs.map_values(|i: IRInstruction| i@)
}

/// A terminator as contracts sees it.
#[allow(inconsistent_fields)]
pub enum TermView {
    Return(Seq<OperandView>),
    Jump(usize),
    Branch { cond: OperandView, br_true: usize, br_false: usize },
    FallThrough,
}

impl View for IRTerminator {
    type V = TermView;

    open spec fn view(&self) -> TermView {
        match *self {
            IRTerminator::Return(ops) => TermView::Return(spec_operand_views(ops@)),
            IRTerminator::Jump(b) => TermView::Jump(b),
            IRTerminator::Branch { cond, br_true, br_false } => TermView::Branch {
                cond: cond@,
                br_true,
                br_false,
            },
            IRTerminator::FallThrough => TermView::FallThrough,
        }
    }
}

/// A basic block as contracts see it.
pub struct BlockView {
    pub id: usize,
    pub instructions: Seq<InstrView>,
    pub terminator: TermView,
}

impl View for IRBasicBlock {
    type V = BlockView;

    open spec fn view(&self) -> BlockView {
        BlockView {
            id: self.id,
            instructions: spec_instr_views(self.instructions@),
            terminator: self.terminator@,
        }
    }
}

/// The blocks as contracts see them.
pub open spec fn spec_block_views(blocks: Seq<IRBasicBlock>) -> Seq<BlockView> {
    blocks.map_values(|b: IRBasicBlock| b@)
}

/// The names as contracts see them.
pub open spec fn spec_name_views(names: Seq<String>) -> Seq<Seq<char>> {
    names.map_values(|s: String| s@)
}

/// The named slots as contracts see them.
pub open spec fn spec_local_views(locals: Seq<(String, usize)>) -> Seq<(Seq<char>, usize)> {
    locals.map_values(|e: (String, usize)| (e.0@, e.1))
}

/// The named upvalues as contracts see them.
pub open spec fn spec_upvalue_views(upvalues: Seq<(String, IRUpVal)>) -> Seq<(Seq<char>, IRUpVal)> {
    upvalues.map_values(|e: (String, IRUpVal)| (e.0@, e.1))
}

/// A function as contracts see it.
pub struct FunctionView {
    pub name: Seq<char>,
    pub params: Seq<Seq<char>>,
    pub basic_blocks: Seq<BlockView>,
    pub local_variables: Seq<(Seq<char>, usize)>,
    pub upvalues: Seq<(Seq<char>, IRUpVal)>,
    pub sub_functions: Seq<Seq<char>>,
}

impl View for IRFunction {
    type V = FunctionView;

    open spec fn view(&self) -> FunctionView {
        FunctionView {
            name: self.name@,
            params: spec_name_views(self.params@),
            basic_blocks: spec_block_views(self.basic_blocks@),
            local_variables: spec_local_views(self.local_variables@),
            upvalues: spec_upvalue_views(self.upvalues@),
            sub_functions: spec_name_views(self.sub_functions@),
        }
    }
}

/// The functions as contracts see them.
pub open spec fn spec_function_views(functions: Seq<IRFunction>) -> Seq<FunctionView> {
    functions.map_values(|f: IRFunction| f@)
}

/// An error of the generator as contracts see it.
pub enum ErrorView {
    UndefinedVariable(Seq<char>),
    InvalidLValue,
    MultipleReturnStatements,
    UnreachableCode,
    Unsupported(Seq<char>),
}

impl View for IRGeneratorError {
    type V = ErrorView;

    open spec fn view(&self) -> ErrorView {
        match *self {
            IRGeneratorError::UndefinedVariable(s) => ErrorView::UndefinedVariable(s@),
            IRGeneratorError::InvalidLValue => ErrorView::InvalidLValue,
            IRGeneratorError::MultipleReturnStatements => ErrorView::MultipleReturnStatements,
            IRGeneratorError::UnreachableCode => ErrorView::UnreachableCode,
            IRGeneratorError::Unsupported(s) => ErrorView::Unsupported(s@),
        }
    }
}

/// The errors as contracts see them.
pub open spec fn spec_error_views(errors: Seq<IRGeneratorError>) -> Seq<ErrorView> {
    errors.map_values(|e: IRGeneratorError| e@)
}

impl IRBinOp {
    /// The operator's name in lower case.
    pub open spec fn spec_to_string(&self) -> Seq<char> {
        match *self {
            IRBinOp::Add => "add"@,
            IRBinOp::Sub => "sub"@,
            IRBinOp::Mul => "mul"@,
            IRBinOp::Div => "div"@,
            IRBinOp::Pow => "pow"@,
            IRBinOp::Concat => "concat"@,
            IRBinOp::Eq => "eq"@,
            IRBinOp::Neq => "neq"@,
            IRBinOp::Lt => "lt"@,
            IRBinOp::Gt => "gt"@,
            IRBinOp::Leq => "leq"@,
            IRBinOp::Geq => "geq"@,
            IRBinOp::And => "and"@,
            IRBinOp::Or => "or"@,
        }
    }

    /// The operator's name in lower case.
    pub fn to_string(&self) -> (r: String)
        ensures
            r@ == self.spec_to_string(),
    {
        match self {
            IRBinOp::Add => String::from_str("add"),
            IRBinOp::Sub => String::from_str("sub"),
            IRBinOp::Mul => String::from_str("mul"),
            IRBinOp::Div => String::from_str("div"),
            IRBinOp::Pow => String::from_str("pow"),
            IRBinOp::Concat => String::from_str("concat"),
            IRBinOp::Eq => String::from_str("eq"),
            IRBinOp::Neq => String::from_str("neq"),
            IRBinOp::Lt => String::from_str("lt"),
            IRBinOp::Gt => String::from_str("gt"),
            IRBinOp::Leq => String::from_str("leq"),
            IRBinOp::Geq => String::from_str("geq"),
            IRBinOp::And => String::from_str("and"),
            IRBinOp::Or => String::from_str("or"),
        }
    }
}

impl IRUnOp {
    /// The operator's name in lower case.
    pub open spec fn spec_to_string(&self) -> Seq<char> {
        match *self {
            IRUnOp::Neg => "neg"@,
            IRUnOp::Not => "not"@,
        }
    }

    /// The operator's name in lower case.
    pub fn to_string(&self) -> (r: String)
        ensures
            r@ == self.spec_to_string(),
    {
        match self {
            IRUnOp::Neg => String::from_str("neg"),
            IRUnOp::Not => String::from_str("not"),
        }
    }
}

/// The text of an operand: `%n` for a register, `%local_n` for a slot,
/// `%upval_n` for an upvalue slot, `@name` for a prototype, and an immediate
/// after `$`, a number by its bit pattern.
pub open spec fn spec_operand_text(o: IROperand) -> Seq<char> {
    match o {
        IROperand::Reg(n) => "%"@ + spec_decimal(n as nat),
        IROperand::Slot(n) => "%local_"@ + spec_decimal(n as nat),
        IROperand::UpVal(n) => "%upval_"@ + spec_decimal(n as nat),
        IROperand::Proto(name) => "@"@ + name@,
        IROperand::ImmFloat(bits) => "$bits:"@ + spec_decimal(bits as nat),
        IROperand::ImmBool(b) => if b {
            "$true"@
        } else {
            "$false"@
        },
        IROperand::ImmStr(text) => "$\""@ + text@ + "\""@,
        IROperand::Nil => "$nil"@,
        IROperand::Unit => "$unit"@,
    }
}

/// The texts of the first `n` operands, with `, ` between them.
pub open spec fn spec_operands_text(ops: Seq<IROperand>, n: int) -> Seq<char>
    decreases n,
{
    if n <= 0 || n > ops.len() {
        Seq::empty()
    } else if n == 1 {
        spec_operand_text(ops[0])
    } else {
        spec_operands_text(ops, n - 1) + ", "@ + spec_operand_text(ops[n - 1])
    }
}

/// The text `%dest = name a` and so on: the register, the name of the
/// instruction, and its operands with `, ` between them.
pub open spec fn spec_instr_line(dest: usize, name: Seq<char>, operands: Seq<char>) -> Seq<char> {
    "%"@ + spec_decimal(dest as nat) + " = "@ + name + " "@ + operands
}

/// The text of an instruction.
pub open spec fn spec_instr_text(i: IRInstruction) -> Seq<char> {
    match i {
        IRInstruction::LoadImm { dest, value } => spec_instr_line(
            dest,
            "LoadImm"@,
            spec_operand_text(value),
        ),
        IRInstruction::Binary { dest, src1, src2, operator } => spec_instr_line(
            dest,
            operator.spec_to_string(),
            spec_operand_text(src1) + " "@ + spec_operand_text(src2),
        ),
        IRInstruction::Unary { dest, operator, src } => spec_instr_line(
            dest,
            operator.spec_to_string(),
            spec_operand_text(src),
        ),
        IRInstruction::LoadLocal { dest, src } => spec_instr_line(
            dest,
            "LoadLocal"@,
            spec_operand_text(src),
        ),
        IRInstruction::StoreLocal { dest, dst, src } => spec_instr_line(
            dest,
            "StoreLocal"@,
            spec_operand_text(dst) + " "@ + spec_operand_text(src),
        ),
        IRInstruction::LoadGlobal { dest, name } => spec_instr_line(
            dest,
            "LoadGlobal"@,
            spec_operand_text(name),
        ),
        IRInstruction::StoreGlobal { dest, name, src } => spec_instr_line(
            dest,
            "StoreGlobal"@,
            spec_operand_text(name) + " "@ + spec_operand_text(src),
        ),
        IRInstruction::LoadUpVal { dest, src } => spec_instr_line(
            dest,
            "LoadUpVal"@,
            spec_operand_text(src),
        ),
        IRInstruction::Drop { src } => "%nil = Drop "@ + spec_operand_text(src),
        IRInstruction::Call { dest, callee, args } => spec_instr_line(
            dest,
            "Call"@,
            spec_operand_text(callee) + ", ["@ + spec_operands_text(args@, args@.len() as int)
                + "]"@,
        ),
        IRInstruction::IndexOf { dest, collection, index } => spec_instr_line(
            dest,
            "IndexOf"@,
            spec_operand_text(collection) + ", "@ + spec_operand_text(index),
        ),
        IRInstruction::SetIndex { dest, collection, index, value } => spec_instr_line(
            dest,
            "SetIndex"@,
            spec_operand_text(collection) + ", "@ + spec_operand_text(index) + ", "@
                + spec_operand_text(value),
        ),
        IRInstruction::MemberOf { dest, collection, member } => spec_instr_line(
            dest,
            "MemberOf"@,
            spec_operand_text(collection) + ", "@ + spec_operand_text(member),
        ),
        IRInstruction::SetMember { dest, collection, member, value } => spec_instr_line(
            dest,
            "SetMember"@,
            spec_operand_text(collection) + ", "@ + spec_operand_text(member) + ", "@
                + spec_operand_text(value),
        ),
        IRInstruction::NewTable { dest, size_array, size_hash } => spec_instr_line(
            dest,
            "NewTable"@,
            spec_operand_text(size_array) + ", "@ + spec_operand_text(size_hash),
        ),
        IRInstruction::SetTable { dest, table, key, value } => spec_instr_line(
            dest,
            "SetTable"@,
            spec_operand_text(table) + ", "@ + spec_operand_text(key) + ", "@ + spec_operand_text(
                value,
            ),
        ),
        IRInstruction::GetTable { dest, table, key } => spec_instr_line(
            dest,
            "GetTable"@,
            spec_operand_text(table) + ", "@ + spec_operand_text(key),
        ),
        IRInstruction::FnProto { dest, func_proto } => spec_instr_line(
            dest,
            "FnProto"@,
            spec_operand_text(func_proto),
        ),
    }
}

/// The text of a terminator.
pub open spec fn spec_term_text(t: IRTerminator) -> Seq<char> {
    match t {
        IRTerminator::Return(ops) => "Return ["@ + spec_operands_text(ops@, ops@.len() as int)
            + "]"@,
        IRTerminator::Jump(label) => "Jump _Tag"@ + spec_decimal(label as nat),
        IRTerminator::Branch { cond, br_true, br_false } => "Branch "@ + spec_operand_text(cond)
            + ", _Tag"@ + spec_decimal(br_true as nat) + ", _Tag"@ + spec_decimal(br_false as nat),
        IRTerminator::FallThrough => "FallThrough"@,
    }
}

/// The lines of the first `n` instructions, each after two spaces and
/// before a newline.
pub open spec fn spec_instrs_text(instrs: Seq<IRInstruction>, n: int) -> Seq<char>
    decreases n,
{
    if n <= 0 || n > instrs.len() {
        Seq::empty()
    } else {
        spec_instrs_text(instrs, n - 1) + "  "@ + spec_instr_text(instrs[n - 1]) + "\n"@
    }
}

/// The text of a block: its tag, its instructions and its terminator,
/// each on a line.
pub open spec fn spec_block_text(b: IRBasicBlock) -> Seq<char> {
    "_Tag"@ + spec_decimal(b.id as nat) + ":\n"@ + spec_instrs_text(
        b.instructions@,
        b.instructions@.len() as int,
    ) + "  "@ + spec_term_text(b.terminator) + "\n"@
}

/// The texts of the first `n` blocks, with an empty line between them.
pub open spec fn spec_blocks_text(blocks: Seq<IRBasicBlock>, n: int) -> Seq<char>
    decreases n,
{
    if n <= 0 || n > blocks.len() {
        Seq::empty()
    } else if n == 1 {
        spec_block_text(blocks[0])
    } else {
        spec_blocks_text(blocks, n - 1) + "\n"@ + spec_block_text(blocks[n - 1])
    }
}

/// The first `n` parameters, each with its slot, with `, ` between them.
pub open spec fn spec_params_text(params: Seq<String>, n: int) -> Seq<char>
    decreases n,
{
    if n <= 0 || n > params.len() {
        Seq::empty()
    } else {
        spec_params_text(params, n - 1) + (if n == 1 {
            ""@
        } else {
            ", "@
        }) + "param "@ + params[n - 1]@ + ": %local_"@ + spec_decimal((n - 1) as nat)
    }
}

/// The first `n` locals, each on a comment line.
pub open spec fn spec_locals_text(locals: Seq<(String, usize)>, n: int) -> Seq<char>
    decreases n,
{
    if n <= 0 || n > locals.len() {
        Seq::empty()
    } else {
        spec_locals_text(locals, n - 1) + "; %local_"@ + spec_decimal(locals[n - 1].1 as nat)
            + " = "@ + locals[n - 1].0@ + "\n"@
    }
}

/// The first `n` upvalues, each on a comment line.
pub open spec fn spec_upvalues_text(upvalues: Seq<(String, IRUpVal)>, n: int) -> Seq<char>
    decreases n,
{
    if n <= 0 || n > upvalues.len() {
        Seq::empty()
    } else {
        spec_upvalues_text(upvalues, n - 1) + "; %upval_"@ + spec_decimal(
            upvalues[n - 1].1.slot as nat,
        ) + " = "@ + upvalues[n - 1].0@ + (match upvalues[n - 1].1.ty {
            IRUpValType::LocalVar(slot) => " (%local_"@ + spec_decimal(slot as nat),
            IRUpValType::UpVal(slot) => " (%upval_"@ + spec_decimal(slot as nat),
        }) + " of parent)\n"@
    }
}

/// The first `n` contained prototypes, each on a comment line.
pub open spec fn spec_subs_text(subs: Seq<String>, n: int) -> Seq<char>
    decreases n,
{
    if n <= 0 || n > subs.len() {
        Seq::empty()
    } else {
        spec_subs_text(subs, n - 1) + "; subfn #"@ + spec_decimal((n - 1) as nat) + ": @"@
            + subs[n - 1]@ + "\n"@
    }
}

/// The text of a function: its head, its locals, upvalues and contained
/// prototypes as comments, and its blocks.
pub open spec fn spec_function_text(f: IRFunction) -> Seq<char> {
    "function "@ + f.name@ + "("@ + (if f.params@.len() == 0 {
        "void"@
    } else {
        spec_params_text(f.params@, f.params@.len() as int)
    }) + ") {\n"@ + (if f.local_variables@.len() == 0 {
        "; <no local variables>\n"@
    } else {
        spec_locals_text(f.local_variables@, f.local_variables@.len() as int)
    }) + ";\n"@ + (if f.upvalues@.len() == 0 {
        "; <no upvalues>\n"@
    } else {
        spec_upvalues_text(f.upvalues@, f.upvalues@.len() as int)
    }) + ";\n"@ + (if f.sub_functions@.len() == 0 {
        "; <no sub functions>\n"@
    } else {
        spec_subs_text(f.sub_functions@, f.sub_functions@.len() as int)
    }) + spec_blocks_text(f.basic_blocks@, f.basic_blocks@.len() as int) + "}"@
}

/// The texts of the first `n` functions, with an empty line between them.
pub open spec fn spec_functions_text(functions: Seq<IRFunction>, n: int) -> Seq<char>
    decreases n,
{
    if n <= 0 || n > functions.len() {
        Seq::empty()
    } else if n == 1 {
        spec_function_text(functions[0])
    } else {
        spec_functions_text(functions, n - 1) + "\n\n"@ + spec_function_text(functions[n - 1])
    }
}

fn operands_text(ops: &Vec<IROperand>) -> (r: String)
    ensures
        r@ == spec_operands_text(ops@, ops@.len() as int),
{
    let mut s = String::new();
    let mut i: usize = 0;
    while i < ops.len()
        invariant
            i <= ops.len(),
            s@ == spec_operands_text(ops@, i as int),
        decreases ops.len() - i,
    {
        if i > 0 {
            s.append(", ");
        }
        let t = ops[i].to_string();
        s.append(t.as_str());
        proof {
            if i == 0 {
                assert(Seq::<char>::empty() + spec_operand_text(ops@[0]) =~= spec_operand_text(
                    ops@[0],
                ));
            }
        }
        i += 1;
    }
    s
}

fn instr_line(dest: usize, name: &str, operands: String) -> (r: String)
    ensures
        r@ == spec_instr_line(dest, name@, operands@),
{
    let mut s = String::from_str("%");
    let d = decimal(dest);
    s.append(d.as_str());
    s.append(" = ");
    s.append(name);
    s.append(" ");
    s.append(operands.as_str());
    s
}

fn two(a: &IROperand, sep: &str, b: &IROperand) -> (r: String)
    ensures
        r@ == spec_operand_text(*a) + sep@ + spec_operand_text(*b),
{
    let mut s = a.to_string();
    s.append(sep);
    let t = b.to_string();
    s.append(t.as_str());
    s
}

fn three(a: &IROperand, b: &IROperand, c: &IROperand) -> (r: String)
    ensures
        r@ == spec_operand_text(*a) + ", "@ + spec_operand_text(*b) + ", "@ + spec_operand_text(
            *c,
        ),
{
    let mut s = two(a, ", ", b);
    s.append(", ");
    let t = c.to_string();
    s.append(t.as_str());
    s
}

impl IROperand {
    /// The text of the operand; see [`spec_operand_text`].
    pub fn to_string(&self) -> (r: String)
        ensures
            r@ == spec_operand_text(*self),
    {
        match self {
            IROperand::Reg(n) => {
                let mut s = String::from_str("%");
                let d = decimal(*n);
                s.append(d.as_str());
                s
            },
            IROperand::Slot(n) => {
                let mut s = String::from_str("%local_");
                let d = decimal(*n);
                s.append(d.as_str());
                s
            },
            IROperand::UpVal(n) => {
                let mut s = String::from_str("%upval_");
                let d = decimal(*n);
                s.append(d.as_str());
                s
            },
            IROperand::Proto(name) => {
                let mut s = String::from_str("@");
                s.append(name.as_str());
                s
            },
            IROperand::ImmFloat(bits) => {
                let mut s = String::from_str("$bits:");
                let d = decimal_u64(*bits);
                s.append(d.as_str());
                s
            },
            IROperand::ImmBool(b) => {
                if *b {
                    String::from_str("$true")
                } else {
                    String::from_str("$false")
                }
            },
            IROperand::ImmStr(text) => {
                let mut s = String::from_str("$\"");
                s.append(text.as_str());
                s.append("\"");
                s
            },
            IROperand::Nil => String::from_str("$nil"),
            IROperand::Unit => String::from_str("$unit"),
        }
    }
}

impl IRInstruction {
    /// The text of the instruction; see [`spec_instr_text`].
    pub fn to_string(&self) -> (r: String)
        ensures
            r@ == spec_instr_text(*self),
    {
        match self {
            IRInstruction::LoadImm { dest, value } => instr_line(*dest, "LoadImm", value.to_string()),
            IRInstruction::Binary { dest, src1, src2, operator } => {
                let name = operator.to_string();
                instr_line(*dest, name.as_str(), two(src1, " ", src2))
            },
            IRInstruction::Unary { dest, operator, src } => {
                let name = operator.to_string();
                instr_line(*dest, name.as_str(), src.to_string())
            },
            IRInstruction::LoadLocal { dest, src } => instr_line(*dest, "LoadLocal", src.to_string()),
            IRInstruction::StoreLocal { dest, dst, src } => instr_line(
                *dest,
                "StoreLocal",
                two(dst, " ", src),
            ),
            IRInstruction::LoadGlobal { dest, name } => instr_line(
                *dest,
                "LoadGlobal",
                name.to_string(),
            ),
            IRInstruction::StoreGlobal { dest, name, src } => instr_line(
                *dest,
                "StoreGlobal",
                two(name, " ", src),
            ),
            IRInstruction::LoadUpVal { dest, src } => instr_line(*dest, "LoadUpVal", src.to_string()),
            IRInstruction::Drop { src } => {
                let mut s = String::from_str("%nil = Drop ");
                let t = src.to_string();
                s.append(t.as_str());
                s
            },
            IRInstruction::Call { dest, callee, args } => {
                let mut s = callee.to_string();
                s.append(", [");
                let a = operands_text(args);
                s.append(a.as_str());
                s.append("]");
                instr_line(*dest, "Call", s)
            },
            IRInstruction::IndexOf { dest, collection, index } => instr_line(
                *dest,
                "IndexOf",
                two(collection, ", ", index),
            ),
            IRInstruction::SetIndex { dest, collection, index, value } => instr_line(
                *dest,
                "SetIndex",
                three(collection, index, value),
            ),
            IRInstruction::MemberOf { dest, collection, member } => instr_line(
                *dest,
                "MemberOf",
                two(collection, ", ", member),
            ),
            IRInstruction::SetMember { dest, collection, member, value } => instr_line(
                *dest,
                "SetMember",
                three(collection, member, value),
            ),
            IRInstruction::NewTable { dest, size_array, size_hash } => instr_line(
                *dest,
                "NewTable",
                two(size_array, ", ", size_hash),
            ),
            IRInstruction::SetTable { dest, table, key, value } => instr_line(
                *dest,
                "SetTable",
                three(table, key, value),
            ),
            IRInstruction::GetTable { dest, table, key } => instr_line(
                *dest,
                "GetTable",
                two(table, ", ", key),
            ),
            IRInstruction::FnProto { dest, func_proto } => instr_line(
                *dest,
                "FnProto",
                func_proto.to_string(),
            ),
        }
    }
}

impl IRTerminator {
    /// The text of the terminator; see [`spec_term_text`].
    pub fn to_string(&self) -> (r: String)
        ensures
            r@ == spec_term_text(*self),
    {
        match self {
            IRTerminator::Return(ops) => {
                let mut s = String::from_str("Return [");
                let a = operands_text(ops);
                s.append(a.as_str());
                s.append("]");
                s
            },
            IRTerminator::Jump(label) => {
                let mut s = String::from_str("Jump _Tag");
                let d = decimal(*label);
                s.append(d.as_str());
                s
            },
            IRTerminator::Branch { cond, br_true, br_false } => {
                let mut s = String::from_str("Branch ");
                let c = cond.to_string();
                s.append(c.as_str());
                s.append(", _Tag");
                let a = decimal(*br_true);
                s.append(a.as_str());
                s.append(", _Tag");
                let b = decimal(*br_false);
                s.append(b.as_str());
                s
            },
            IRTerminator::FallThrough => String::from_str("FallThrough"),
        }
    }
}

impl IRBasicBlock {
    /// The text of the block; see [`spec_block_text`].
    pub fn to_string(&self) -> (r: String)
        ensures
            r@ == spec_block_text(*self),
    {
        let mut lines = String::new();
        let mut i: usize = 0;
        while i < self.instructions.len()
            invariant
                i <= self.instructions.len(),
                lines@ == spec_instrs_text(self.instructions@, i as int),
            decreases self.instructions.len() - i,
        {
            lines.append("  ");
            let t = self.instructions[i].to_string();
            lines.append(t.as_str());
            lines.append("\n");
            i += 1;
        }
        let mut s = String::from_str("_Tag");
        let d = decimal(self.id);
        s.append(d.as_str());
        s.append(":\n");
        s.append(lines.as_str());
        s.append("  ");
        let t = self.terminator.to_string();
        s.append(t.as_str());
        s.append("\n");
        s
    }
}

impl IRFunction {
    fn params_text(&self) -> (r: String)
        ensures
            r@ == spec_params_text(self.params@, self.params@.len() as int),
    {
        let mut s = String::new();
        let mut i: usize = 0;
        while i < self.params.len()
            invariant
                i <= self.params.len(),
                s@ == spec_params_text(self.params@, i as int),
            decreases self.params.len() - i,
        {
            if i > 0 {
                s.append(", ");
            } else {
                s.append("");
            }
            s.append("param ");
            s.append(self.params[i].as_str());
            s.append(": %local_");
            let d = decimal(i);
            s.append(d.as_str());
            i += 1;
        }
        s
    }

    fn locals_text(&self) -> (r: String)
        ensures
            r@ == spec_locals_text(self.local_variables@, self.local_variables@.len() as int),
    {
        let mut s = String::new();
        let mut i: usize = 0;
        while i < self.local_variables.len()
            invariant
                i <= self.local_variables.len(),
                s@ == spec_locals_text(self.local_variables@, i as int),
            decreases self.local_variables.len() - i,
        {
            s.append("; %local_");
            let d = decimal(self.local_variables[i].1);
            s.append(d.as_str());
            s.append(" = ");
            s.append(self.local_variables[i].0.as_str());
            s.append("\n");
            i += 1;
        }
        s
    }

    fn upvalues_text(&self) -> (r: String)
        ensures
            r@ == spec_upvalues_text(self.upvalues@, self.upvalues@.len() as int),
    {
        let mut s = String::new();
        let mut i: usize = 0;
        while i < self.upvalues.len()
            invariant
                i <= self.upvalues.len(),
                s@ == spec_upvalues_text(self.upvalues@, i as int),
            decreases self.upvalues.len() - i,
        {
            s.append("; %upval_");
            let d = decimal(self.upvalues[i].1.slot);
            s.append(d.as_str());
            s.append(" = ");
            s.append(self.upvalues[i].0.as_str());
            let mut from = String::new();
            match self.upvalues[i].1.ty {
                IRUpValType::LocalVar(slot) => {
                    from.append(" (%local_");
                    let x = decimal(slot);
                    from.append(x.as_str());
                },
                IRUpValType::UpVal(slot) => {
                    from.append(" (%upval_");
                    let x = decimal(slot);
                    from.append(x.as_str());
                },
            }
            proof {
                assert(from@ =~= match self.upvalues@[i as int].1.ty {
                    IRUpValType::LocalVar(slot) => " (%local_"@ + spec_decimal(slot as nat),
                    IRUpValType::UpVal(slot) => " (%upval_"@ + spec_decimal(slot as nat),
                });
            }
            s.append(from.as_str());
            s.append(" of parent)\n");
            i += 1;
        }
        s
    }

    fn subs_text(&self) -> (r: String)
        ensures
            r@ == spec_subs_text(self.sub_functions@, self.sub_functions@.len() as int),
    {
        let mut s = String::new();
        let mut i: usize = 0;
        while i < self.sub_functions.len()
            invariant
                i <= self.sub_functions.len(),
                s@ == spec_subs_text(self.sub_functions@, i as int),
            decreases self.sub_functions.len() - i,
        {
            s.append("; subfn #");
            let d = decimal(i);
            s.append(d.as_str());
            s.append(": @");
            s.append(self.sub_functions[i].as_str());
            s.append("\n");
            i += 1;
        }
        s
    }

    fn blocks_text(&self) -> (r: String)
        ensures
            r@ == spec_blocks_text(self.basic_blocks@, self.basic_blocks@.len() as int),
    {
        let mut s = String::new();
        let mut i: usize = 0;
        while i < self.basic_blocks.len()
            invariant
                i <= self.basic_blocks.len(),
                s@ == spec_blocks_text(self.basic_blocks@, i as int),
            decreases self.basic_blocks.len() - i,
        {
            if i > 0 {
                s.append("\n");
            }
            let t = self.basic_blocks[i].to_string();
            s.append(t.as_str());
            proof {
                if i == 0 {
                    assert(Seq::<char>::empty() + spec_block_text(self.basic_blocks@[0])
                        =~= spec_block_text(self.basic_blocks@[0]));
                }
            }
            i += 1;
        }
        s
    }

    /// The text of the function; see [`spec_function_text`].
    pub fn to_string(&self) -> (r: String)
        ensures
            r@ == spec_function_text(*self),
    {
        let mut s = String::from_str("function ");
        s.append(self.name.as_str());
        s.append("(");
        if self.params.len() == 0 {
            s.append("void");
        } else {
            let p = self.params_text();
            s.append(p.as_str());
        }
        s.append(") {\n");
        if self.local_variables.len() == 0 {
            s.append("; <no local variables>\n");
        } else {
            let t = self.locals_text();
            s.append(t.as_str());
        }
        s.append(";\n");
        if self.upvalues.len() == 0 {
            s.append("; <no upvalues>\n");
        } else {
            let t = self.upvalues_text();
            s.append(t.as_str());
        }
        s.append(";\n");
        if self.sub_functions.len() == 0 {
            s.append("; <no sub functions>\n");
        } else {
            let t = self.subs_text();
            s.append(t.as_str());
        }
        let b = self.blocks_text();
        s.append(b.as_str());
        s.append("}");
        s
    }
}

impl IRModule {
    /// The text of the module: the texts of its functions, with an empty
    /// line between them.
    pub fn to_string(&self) -> (r: String)
        ensures
            r@ == spec_functions_text(self.functions@, self.functions@.len() as int),
    {
        let mut s = String::new();
        let mut i: usize = 0;
        while i < self.functions.len()
            invariant
                i <= self.functions.len(),
                s@ == spec_functions_text(self.functions@, i as int),
            decreases self.functions.len() - i,
        {
            if i > 0 {
                s.append("\n\n");
            }
            let t = self.functions[i].to_string();
            s.append(t.as_str());
            proof {
                if i == 0 {
                    assert(Seq::<char>::empty() + spec_function_text(self.functions@[0])
                        =~= spec_function_text(self.functions@[0]));
                }
            }
            i += 1;
        }
        s
    }
}

} // verus!
