//! The bytecode emitter: lowers the blocks of one function to a flat
//! instruction vector and a constant pool without repeated entries, and
//! resolves every jump to the instruction at which its target block starts.

use vstd::prelude::*;
use crate::backend::translator::scanner::{FunctionScan, VarKind};
use crate::common::number::to_u16;
use crate::common::object::{spec_same_value, LuaValue};
use crate::common::opcode::{OpCode, UnaryOpType};
use crate::frontend::ir::{
    IRBasicBlock, IRBinOp, IRFunction, IRInstruction, IROperand, IRTerminator, IRUnOp,
};

verus! {

/// That many constants fit a pool: an index has sixteen bits.
pub const MAX_CONSTANTS: usize = 65536;

/// Why a function could not be lowered.
#[derive(Debug, Clone, PartialEq)]
pub enum EmitError {
    /// The variable has no register.
    UnallocatedVariable(VarKind),
    /// The register number does not fit sixteen bits.
    RegisterOutOfRange(usize),
    /// The pool is full.
    TooManyConstants,
    /// A call has more than 255 arguments.
    TooManyArguments(usize),
    /// A jump names a block that the function does not have.
    UnknownBlock(usize),
    /// `FnProto` names a prototype that the function does not contain.
    UnknownPrototype(String),
    /// The distance of a jump does not fit thirty-two bits.
    JumpOutOfRange(usize),
    /// An operand of the wrong kind for its instruction.
    InvalidOperand,
}

/// What the emitter has produced so far.
pub struct EmitState {
    pub code: Seq<OpCode>,
    pub pool: Seq<LuaValue>,
    /// The immediate loaded into each register, the latest last.
    pub literals: Seq<(usize, IROperand)>,
    /// For each jump that awaits its target: its index and the block's id.
    pub patches: Seq<(usize, usize)>,
}

pub struct BytecodeEmitter<'a> {
    pub func_ir: &'a IRFunction,
    pub scan: &'a FunctionScan,
    pub constants: Vec<LuaValue>,
    pub bytecode: Vec<OpCode>,
    pub var_literals: Vec<(usize, IROperand)>,
    pub block_starts: Vec<(usize, usize)>,
    pub patches: Vec<(usize, usize)>,
}

/// The index of the first pool entry that is the same value as `v`.
pub open spec fn spec_pool_find(pool: Seq<LuaValue>, v: LuaValue) -> Option<int>
    decreases pool.len(),
{
    if pool.len() == 0 {
        None
    } else {
        match spec_pool_find(pool.drop_last(), v) {
            Some(i) => Some(i),
            None => if spec_same_value(pool.last(), v) {
                Some(pool.len() - 1)
            } else {
                None
            },
        }
    }
}

/// Whether no two entries of the pool are the same value, and every index
/// fits sixteen bits.
pub open spec fn spec_pool_wf(pool: Seq<LuaValue>) -> bool {
    &&& pool.len() <= MAX_CONSTANTS
    &&& forall|i: int, j: int|
        0 <= i < j < pool.len() ==> !spec_same_value(#[trigger] pool[i], #[trigger] pool[j])
}

/// The pool and the index after a constant is added: the index of the entry
/// that is the same value, if there is one; else the index of a new entry at
/// the end, if the pool has room.
pub open spec fn spec_add_constant(pool: Seq<LuaValue>, v: LuaValue) -> (Seq<LuaValue>, Result<
    u16,
    EmitError,
>) {
    match spec_pool_find(pool, v) {
        Some(i) => (pool, Ok(i as u16)),
        None => if pool.len() >= MAX_CONSTANTS {
            (pool, Err(EmitError::TooManyConstants))
        } else {
            (pool.push(v), Ok(pool.len() as u16))
        },
    }
}

/// What `spec_pool_find` finds.
pub proof fn lemma_pool_find(pool: Seq<LuaValue>, v: LuaValue)
    ensures
        match spec_pool_find(pool, v) {
            Some(i) => 0 <= i < pool.len() && spec_same_value(pool[i], v) && forall|j: int|
                0 <= j < i ==> !spec_same_value(#[trigger] pool[j], v),
            None => forall|j: int| 0 <= j < pool.len() ==> !spec_same_value(#[trigger] pool[j], v),
        },
    decreases pool.len(),
{
    if pool.len() > 0 {
        lemma_pool_find(pool.drop_last(), v);
        match spec_pool_find(pool.drop_last(), v) {
            Some(i) => {
                assert(pool.drop_last()[i] == pool[i]);
                assert forall|j: int| 0 <= j < i implies !spec_same_value(#[trigger] pool[j], v) by {
                    assert(pool.drop_last()[j] == pool[j]);
                }
            },
            None => {
                assert forall|j: int| 0 <= j < pool.len() - 1 implies !spec_same_value(
                    #[trigger] pool[j],
                    v,
                ) by {
                    assert(pool.drop_last()[j] == pool[j]);
                }
            },
        }
    }
}

/// Being the same value is symmetric and transitive.
pub proof fn lemma_same_value(a: LuaValue, b: LuaValue, c: LuaValue)
    ensures
        spec_same_value(a, a),
        spec_same_value(a, b) ==> spec_same_value(b, a),
        spec_same_value(a, b) && spec_same_value(b, c) ==> spec_same_value(a, c),
{
}

/// Adding a constant keeps the pool free of repeated entries.
pub proof fn lemma_add_constant_wf(pool: Seq<LuaValue>, v: LuaValue)
    requires
        spec_pool_wf(pool),
    ensures
        spec_pool_wf(spec_add_constant(pool, v).0),
        spec_add_constant(pool, v).1 matches Ok(i) ==> i < spec_add_constant(pool, v).0.len()
            && spec_same_value(spec_add_constant(pool, v).0[i as int], v),
{
    lemma_pool_find(pool, v);
    lemma_same_value(v, v, v);
    let r = spec_add_constant(pool, v).0;
    if spec_pool_find(pool, v) is None && pool.len() < MAX_CONSTANTS {
        assert forall|i: int, j: int| 0 <= i < j < r.len() implies !spec_same_value(
            #[trigger] r[i],
            #[trigger] r[j],
        ) by {
            if j == pool.len() {
                lemma_same_value(pool[i], v, v);
            }
        }
    }
}

/// Adding the same value twice gives the same index, and the second time
/// leaves the pool as it is.
pub proof fn lemma_add_constant_twice(pool: Seq<LuaValue>, v: LuaValue, w: LuaValue)
    requires
        spec_pool_wf(pool),
        spec_same_value(v, w),
        spec_add_constant(pool, v).1 is Ok,
    ensures
        spec_add_constant(spec_add_constant(pool, v).0, w).1 == spec_add_constant(pool, v).1,
        spec_add_constant(spec_add_constant(pool, v).0, w).0 == spec_add_constant(pool, v).0,
{
    let p1 = spec_add_constant(pool, v).0;
    lemma_pool_find(pool, v);
    lemma_pool_find(p1, w);
    lemma_add_constant_wf(pool, v);
    let i1 = spec_add_constant(pool, v).1->Ok_0 as int;
    lemma_same_value(p1[i1], v, w);
    match spec_pool_find(p1, w) {
        Some(k) => {
            lemma_same_value(w, p1[k], p1[k]);
            lemma_same_value(p1[k], w, v);
            lemma_same_value(v, w, w);
            if k < i1 {
                lemma_same_value(p1[k], w, p1[i1]);
                lemma_same_value(w, v, p1[i1]);
                lemma_same_value(p1[i1], v, w);
                lemma_same_value(w, p1[i1], p1[i1]);
                lemma_same_value(p1[k], w, p1[i1]);
                assert(spec_same_value(p1[k], p1[i1]));
            } else if k > i1 {
                assert(!spec_same_value(p1[i1], w));
            }
        },
        None => {
            assert(!spec_same_value(p1[i1], w));
        },
    }
}

/// The register of a variable, as sixteen bits.
pub open spec fn spec_reg(scan: FunctionScan, v: VarKind) -> Result<u16, EmitError> {
    match scan.spec_phys_reg(v) {
        Some(p) => if p <= u16::MAX {
            Ok(p as u16)
        } else {
            Err(EmitError::RegisterOutOfRange(p))
        },
        None => Err(EmitError::UnallocatedVariable(v)),
    }
}

/// The register that an operand names; register 0 for an operand that names
/// none.
pub open spec fn spec_operand_reg(scan: FunctionScan, op: IROperand) -> Result<u16, EmitError> {
    match op {
        IROperand::Reg(id) => spec_reg(scan, VarKind::Reg(id)),
        IROperand::Slot(id) => spec_reg(scan, VarKind::Slot(id)),
        _ => Ok(0),
    }
}

/// The immediate that was last loaded into the register.
pub open spec fn spec_literal(literals: Seq<(usize, IROperand)>, reg: usize) -> Option<IROperand>
    decreases literals.len(),
{
    if literals.len() == 0 {
        None
    } else if literals.last().0 == reg {
        Some(literals.last().1)
    } else {
        spec_literal(literals.drop_last(), reg)
    }
}

/// The constant that names a global: the string or number that was loaded
/// into the register, else `Nil`.
pub open spec fn spec_literal_value(literals: Seq<(usize, IROperand)>, reg: usize) -> LuaValue {
    match spec_literal(literals, reg) {
        Some(IROperand::ImmStr(s)) => LuaValue::TempString(s),
        Some(IROperand::ImmFloat(f)) => LuaValue::Number(f),
        _ => LuaValue::Nil,
    }
}

/// The constant that the name operand of a global access stands for.
pub open spec fn spec_name_value(literals: Seq<(usize, IROperand)>, name: IROperand) -> LuaValue {
    match name {
        IROperand::ImmStr(s) => LuaValue::TempString(s),
        IROperand::Reg(id) => spec_literal_value(literals, id),
        _ => LuaValue::Nil,
    }
}

/// The instruction for a binary operator.
pub open spec fn spec_binary(operator: IRBinOp, dest: u16, left: u16, right: u16) -> OpCode {
    match operator {
        IRBinOp::Add => OpCode::Add { dest, left, right },
        IRBinOp::Sub => OpCode::Sub { dest, left, right },
        IRBinOp::Mul => OpCode::Mul { dest, left, right },
        IRBinOp::Div => OpCode::Div { dest, left, right },
        IRBinOp::Pow => OpCode::Pow { dest, left, right },
        IRBinOp::Concat => OpCode::Concat { dest, left, right },
        IRBinOp::And => OpCode::And { dest, left, right },
        IRBinOp::Or => OpCode::Or { dest, left, right },
        IRBinOp::Eq => OpCode::Eq { dest, left, right },
        IRBinOp::Neq => OpCode::Ne { dest, left, right },
        IRBinOp::Lt => OpCode::Lt { dest, left, right },
        IRBinOp::Gt => OpCode::Gt { dest, left, right },
        IRBinOp::Leq => OpCode::Le { dest, left, right },
        IRBinOp::Geq => OpCode::Ge { dest, left, right },
    }
}

/// The index of the first prototype with the given name.
pub open spec fn spec_proto_index(subs: Seq<String>, name: Seq<char>) -> Option<int>
    decreases subs.len(),
{
    if subs.len() == 0 {
        None
    } else {
        match spec_proto_index(subs.drop_last(), name) {
            Some(i) => Some(i),
            None => if subs.last()@ == name {
                Some(subs.len() - 1)
            } else {
                None
            },
        }
    }
}

/// The size hint that a table operand gives: the count of an immediate
/// number, else 0.
pub open spec fn spec_size_hint(op: IROperand) -> u16 {
    match op {
        IROperand::ImmFloat(f) => to_u16(f),
        _ => 0,
    }
}

impl EmitState {
    /// The state with one more instruction.
    pub open spec fn push(self, op: OpCode) -> EmitState {
        EmitState {
            code: self.code.push(op),
            pool: self.pool,
            literals: self.literals,
            patches: self.patches,
        }
    }

    /// The state with one more jump, which awaits the start of block `target`.
    pub open spec fn push_jump(self, target: usize) -> EmitState {
        EmitState {
            code: self.code.push(OpCode::Jump { offset: 0 }),
            pool: self.pool,
            literals: self.literals,
            patches: self.patches.push((self.code.len() as usize, target)),
        }
    }

    /// The state after a constant is added, and the constant's index.
    pub open spec fn add(self, v: LuaValue) -> (EmitState, Result<u16, EmitError>) {
        (
            EmitState {
                code: self.code,
                pool: spec_add_constant(self.pool, v).0,
                literals: self.literals,
                patches: self.patches,
            },
            spec_add_constant(self.pool, v).1,
        )
    }

    /// The state with the immediate of a register noted.
    pub open spec fn note(self, reg: usize, value: IROperand) -> EmitState {
        EmitState {
            code: self.code,
            pool: self.pool,
            literals: self.literals.push((reg, value)),
            patches: self.patches,
        }
    }
}

/// The state after the moves that bring the first `n` arguments of a call to
/// the registers above the callee.
pub open spec fn spec_emit_args(
    st: EmitState,
    scan: FunctionScan,
    callee: u16,
    args: Seq<IROperand>,
    n: int,
) -> Result<EmitState, EmitError>
    decreases n,
{
    if n <= 0 {
        Ok(st)
    } else {
        match spec_emit_args(st, scan, callee, args, n - 1) {
            Err(e) => Err(e),
            Ok(s1) => match spec_operand_reg(scan, args[n - 1]) {
                Err(e) => Err(e),
                Ok(src) => if callee + n > u16::MAX {
                    Err(EmitError::RegisterOutOfRange((callee + n) as usize))
                } else {
                    Ok(s1.push(OpCode::Move { dest: (callee + n) as u16, src }))
                },
            },
        }
    }
}

/// The state after an instruction is lowered, or why it cannot be.
///
/// Numbers and strings are loaded from the pool, booleans and `Nil` by
/// instructions of their own. The storing forms store and then move the
/// stored value to the destination. A call moves its arguments to the
/// registers above the callee, calls, and moves the callee's register, where
/// the result arrives, to the destination.
#[verifier::opaque]
pub open spec fn spec_emit_instr(
    st: EmitState,
    scan: FunctionScan,
    subs: Seq<String>,
    instr: IRInstruction,
) -> Result<EmitState, EmitError> {
    match instr {
        IRInstruction::LoadImm { dest, value } => match spec_reg(scan, VarKind::Reg(dest)) {
            Err(e) => Err(e),
            Ok(d) => {
                let s0 = st.note(dest, value);
                match value {
                    IROperand::ImmFloat(f) => match s0.add(LuaValue::Number(f)).1 {
                        Err(e) => Err(e),
                        Ok(c) => Ok(
                            s0.add(LuaValue::Number(f)).0.push(
                                OpCode::LoadK { dest: d, const_idx: c },
                            ),
                        ),
                    },
                    IROperand::ImmStr(s) => match s0.add(LuaValue::TempString(s)).1 {
                        Err(e) => Err(e),
                        Ok(c) => Ok(
                            s0.add(LuaValue::TempString(s)).0.push(
                                OpCode::LoadK { dest: d, const_idx: c },
                            ),
                        ),
                    },
                    IROperand::ImmBool(b) => Ok(s0.push(OpCode::LoadBool { dest: d, value: b })),
                    IROperand::Nil => Ok(s0.push(OpCode::LoadNil { dest: d })),
                    _ => Err(EmitError::InvalidOperand),
                }
            },
        },
        IRInstruction::Binary { dest, src1, src2, operator } => match spec_reg(
            scan,
            VarKind::Reg(dest),
        ) {
            Err(e) => Err(e),
            Ok(d) => match spec_operand_reg(scan, src1) {
                Err(e) => Err(e),
                Ok(l) => match spec_operand_reg(scan, src2) {
                    Err(e) => Err(e),
                    Ok(r) => Ok(st.push(spec_binary(operator, d, l, r))),
                },
            },
        },
        IRInstruction::Unary { dest, src, operator } => match spec_reg(scan, VarKind::Reg(dest)) {
            Err(e) => Err(e),
            Ok(d) => match spec_operand_reg(scan, src) {
                Err(e) => Err(e),
                Ok(s) => Ok(
                    st.push(
                        OpCode::UnOp {
                            dest: d,
                            src: s,
                            op: match operator {
                                IRUnOp::Neg => UnaryOpType::Neg,
                                IRUnOp::Not => UnaryOpType::Not,
                            },
                        },
                    ),
                ),
            },
        },
        IRInstruction::GetTable { dest, table, key } => spec_emit_get(st, scan, dest, table, key),
        IRInstruction::IndexOf { dest, collection, index } => spec_emit_get(
            st,
            scan,
            dest,
            collection,
            index,
        ),
        IRInstruction::MemberOf { dest, collection, member } => spec_emit_get(
            st,
            scan,
            dest,
            collection,
            member,
        ),
        IRInstruction::SetTable { dest, table, key, value } => spec_emit_set(
            st,
            scan,
            dest,
            table,
            key,
            value,
        ),
        IRInstruction::SetIndex { dest, collection, index, value } => spec_emit_set(
            st,
            scan,
            dest,
            collection,
            index,
            value,
        ),
        IRInstruction::SetMember { dest, collection, member, value } => spec_emit_set(
            st,
            scan,
            dest,
            collection,
            member,
            value,
        ),
        IRInstruction::NewTable { dest, size_array, size_hash } => match spec_reg(
            scan,
            VarKind::Reg(dest),
        ) {
            Err(e) => Err(e),
            Ok(d) => Ok(
                st.push(
                    OpCode::NewTable {
                        dest: d,
                        size_array: spec_size_hint(size_array),
                        size_hash: spec_size_hint(size_hash),
                    },
                ),
            ),
        },
        IRInstruction::FnProto { dest, func_proto } => match spec_reg(scan, VarKind::Reg(dest)) {
            Err(e) => Err(e),
            Ok(d) => match func_proto {
                IROperand::Proto(name) => match spec_proto_index(subs, name@) {
                    Some(i) => if i <= u16::MAX {
                        Ok(st.push(OpCode::FnProto { dest: d, proto_idx: i as u16 }))
                    } else {
                        Err(EmitError::UnknownPrototype(name))
                    },
                    None => Err(EmitError::UnknownPrototype(name)),
                },
                _ => Err(EmitError::InvalidOperand),
            },
        },
        IRInstruction::Call { dest, callee, args } => if args@.len() > 255 {
            Err(EmitError::TooManyArguments(args@.len() as usize))
        } else {
            match spec_reg(scan, VarKind::Reg(dest)) {
                Err(e) => Err(e),
                Ok(d) => match spec_operand_reg(scan, callee) {
                    Err(e) => Err(e),
                    Ok(f) => match spec_emit_args(st, scan, f, args@, args@.len() as int) {
                        Err(e) => Err(e),
                        Ok(s1) => Ok(
                            s1.push(
                                OpCode::Call { func_reg: f, argc: args@.len() as u8, retc: 1 },
                            ).push(OpCode::Move { dest: d, src: f }),
                        ),
                    },
                },
            }
        },
        IRInstruction::LoadGlobal { dest, name } => match spec_reg(scan, VarKind::Reg(dest)) {
            Err(e) => Err(e),
            Ok(d) => match st.add(spec_name_value(st.literals, name)).1 {
                Err(e) => Err(e),
                Ok(c) => Ok(
                    st.add(spec_name_value(st.literals, name)).0.push(
                        OpCode::GetGlobal { dest: d, name_idx: c },
                    ),
                ),
            },
        },
        IRInstruction::StoreGlobal { dest, name, src } => match st.add(
            spec_name_value(st.literals, name),
        ).1 {
            Err(e) => Err(e),
            Ok(c) => match spec_operand_reg(scan, src) {
                Err(e) => Err(e),
                Ok(s) => match spec_reg(scan, VarKind::Reg(dest)) {
                    Err(e) => Err(e),
                    Ok(d) => Ok(
                        st.add(spec_name_value(st.literals, name)).0.push(
                            OpCode::SetGlobal { name_idx: c, src: s },
                        ).push(OpCode::Move { dest: d, src: s }),
                    ),
                },
            },
        },
        IRInstruction::LoadLocal { dest, src } => match src {
            IROperand::Slot(id) => match spec_reg(scan, VarKind::Reg(dest)) {
                Err(e) => Err(e),
                Ok(d) => match spec_reg(scan, VarKind::Slot(id)) {
                    Err(e) => Err(e),
                    Ok(s) => Ok(st.push(OpCode::Move { dest: d, src: s })),
                },
            },
            _ => Err(EmitError::InvalidOperand),
        },
        IRInstruction::StoreLocal { dest, dst, src } => match dst {
            IROperand::Slot(id) => match spec_reg(scan, VarKind::Slot(id)) {
                Err(e) => Err(e),
                Ok(slot) => match spec_operand_reg(scan, src) {
                    Err(e) => Err(e),
                    Ok(val) => match spec_reg(scan, VarKind::Reg(dest)) {
                        Err(e) => Err(e),
                        Ok(d) => Ok(
                            st.push(OpCode::Move { dest: slot, src: val }).push(
                                OpCode::Move { dest: d, src: val },
                            ),
                        ),
                    },
                },
            },
            _ => Err(EmitError::InvalidOperand),
        },
        IRInstruction::LoadUpVal { dest, src } => match src {
            IROperand::UpVal(i) => match spec_reg(scan, VarKind::Reg(dest)) {
                Err(e) => Err(e),
                Ok(d) => if i <= u16::MAX {
                    Ok(st.push(OpCode::GetUpVal { dest: d, upval_idx: i as u16 }))
                } else {
                    Err(EmitError::RegisterOutOfRange(i))
                },
            },
            _ => Err(EmitError::InvalidOperand),
        },
        IRInstruction::Drop { .. } => Ok(st),
    }
}

/// A table read: one `GetTable`.
pub open spec fn spec_emit_get(
    st: EmitState,
    scan: FunctionScan,
    dest: usize,
    table: IROperand,
    key: IROperand,
) -> Result<EmitState, EmitError> {
    match spec_reg(scan, VarKind::Reg(dest)) {
        Err(e) => Err(e),
        Ok(d) => match spec_operand_reg(scan, table) {
            Err(e) => Err(e),
            Ok(t) => match spec_operand_reg(scan, key) {
                Err(e) => Err(e),
                Ok(k) => Ok(st.push(OpCode::GetTable { dest: d, table: t, key: k })),
            },
        },
    }
}

/// A table write: one `SetTable`, and a move of the stored value.
pub open spec fn spec_emit_set(
    st: EmitState,
    scan: FunctionScan,
    dest: usize,
    table: IROperand,
    key: IROperand,
    value: IROperand,
) -> Result<EmitState, EmitError> {
    match spec_operand_reg(scan, table) {
        Err(e) => Err(e),
        Ok(t) => match spec_operand_reg(scan, key) {
            Err(e) => Err(e),
            Ok(k) => match spec_operand_reg(scan, value) {
                Err(e) => Err(e),
                Ok(v) => match spec_reg(scan, VarKind::Reg(dest)) {
                    Err(e) => Err(e),
                    Ok(d) => Ok(
                        st.push(OpCode::SetTable { table: t, key: k, value: v }).push(
                            OpCode::Move { dest: d, src: v },
                        ),
                    ),
                },
            },
        },
    }
}

/// The state after a terminator is lowered. A return hands over the
/// register of its first value, or nothing where it has none or the value
/// is in no register; a branch is a test and two jumps, the first taken
/// when the condition holds; falling through is no instruction.
pub open spec fn spec_emit_terminator(st: EmitState, scan: FunctionScan, term: IRTerminator) -> Result<
    EmitState,
    EmitError,
> {
    match term {
        IRTerminator::Return(vals) => if vals@.len() > 0 && (vals@[0] is Reg || vals@[0] is Slot) {
            match spec_operand_reg(scan, vals@[0]) {
                Err(e) => Err(e),
                Ok(r) => Ok(st.push(OpCode::Return { start: r, count: 1 })),
            }
        } else {
            Ok(st.push(OpCode::Return { start: 0, count: 0 }))
        },
        IRTerminator::Branch { cond, br_true, br_false } => match spec_operand_reg(scan, cond) {
            Err(e) => Err(e),
            Ok(r) => Ok(st.push(OpCode::Test { reg: r }).push_jump(br_true).push_jump(br_false)),
        },
        IRTerminator::Jump(target) => Ok(st.push_jump(target)),
        IRTerminator::FallThrough => Ok(st),
    }
}

/// The state after the first `n` instructions of a block.
pub open spec fn spec_emit_instrs(
    st: EmitState,
    scan: FunctionScan,
    subs: Seq<String>,
    instrs: Seq<IRInstruction>,
    n: int,
) -> Result<EmitState, EmitError>
    decreases n,
{
    if n <= 0 {
        Ok(st)
    } else {
        match spec_emit_instrs(st, scan, subs, instrs, n - 1) {
            Err(e) => Err(e),
            Ok(s1) => spec_emit_instr(s1, scan, subs, instrs[n - 1]),
        }
    }
}

/// The state after a block.
pub open spec fn spec_emit_block(
    st: EmitState,
    scan: FunctionScan,
    subs: Seq<String>,
    block: IRBasicBlock,
) -> Result<EmitState, EmitError> {
    match spec_emit_instrs(st, scan, subs, block.instructions@, block.instructions@.len() as int) {
        Err(e) => Err(e),
        Ok(s1) => spec_emit_terminator(s1, scan, block.terminator),
    }
}

/// The state after the first `b` blocks, and for each of them its id and
/// the index at which it starts.
pub open spec fn spec_emit_blocks(
    scan: FunctionScan,
    subs: Seq<String>,
    blocks: Seq<IRBasicBlock>,
    b: int,
) -> Result<(EmitState, Seq<(usize, usize)>), EmitError>
    decreases b,
{
    if b <= 0 {
        Ok(
            (
                EmitState {
                    code: Seq::empty(),
                    pool: Seq::empty(),
                    literals: Seq::empty(),
                    patches: Seq::empty(),
                },
                Seq::empty(),
            ),
        )
    } else {
        match spec_emit_blocks(scan, subs, blocks, b - 1) {
            Err(e) => Err(e),
            Ok((s1, starts)) => match spec_emit_block(s1, scan, subs, blocks[b - 1]) {
                Err(e) => Err(e),
                Ok(s2) => Ok((s2, starts.push((blocks[b - 1].id, s1.code.len() as usize)))),
            },
        }
    }
}

/// The index at which the first block with the given id starts.
pub open spec fn spec_block_start(starts: Seq<(usize, usize)>, id: usize) -> Option<usize>
    decreases starts.len(),
{
    if starts.len() == 0 {
        None
    } else {
        match spec_block_start(starts.drop_last(), id) {
            Some(i) => Some(i),
            None => if starts.last().0 == id {
                Some(starts.last().1)
            } else {
                None
            },
        }
    }
}

/// The code with the first `n` jumps resolved: each gets the distance from
/// its own index to the start of its target block.
pub open spec fn spec_patch(
    code: Seq<OpCode>,
    patches: Seq<(usize, usize)>,
    starts: Seq<(usize, usize)>,
    n: int,
) -> Result<Seq<OpCode>, EmitError>
    decreases n,
{
    if n <= 0 {
        Ok(code)
    } else {
        match spec_patch(code, patches, starts, n - 1) {
            Err(e) => Err(e),
            Ok(c1) => match spec_block_start(starts, patches[n - 1].1) {
                None => Err(EmitError::UnknownBlock(patches[n - 1].1)),
                Some(start) => if start - patches[n - 1].0 > i32::MAX || start - patches[n - 1].0
                    < i32::MIN {
                    Err(EmitError::JumpOutOfRange(patches[n - 1].0))
                } else {
                    Ok(
                        c1.update(
                            patches[n - 1].0 as int,
                            OpCode::Jump { offset: (start - patches[n - 1].0) as i32 },
                        ),
                    )
                },
            },
        }
    }
}

/// The bytecode and the constant pool of a function, or why it cannot be
/// lowered.
pub open spec fn spec_emit(func: IRFunction, scan: FunctionScan) -> Result<
    (Seq<OpCode>, Seq<LuaValue>),
    EmitError,
> {
    match spec_emit_blocks(
        scan,
        func.sub_functions@,
        func.basic_blocks@,
        func.basic_blocks@.len() as int,
    ) {
        Err(e) => Err(e),
        Ok((st, starts)) => match spec_patch(st.code, st.patches, starts, st.patches.len() as int) {
            Err(e) => Err(e),
            Ok(code) => Ok((code, st.pool)),
        },
    }
}

/// What `spec_proto_index` finds.
pub proof fn lemma_proto_index(subs: Seq<String>, name: Seq<char>)
    ensures
        match spec_proto_index(subs, name) {
            Some(i) => 0 <= i < subs.len() && subs[i]@ == name && forall|j: int|
                0 <= j < i ==> (#[trigger] subs[j])@ != name,
            None => forall|j: int| 0 <= j < subs.len() ==> (#[trigger] subs[j])@ != name,
        },
    decreases subs.len(),
{
    if subs.len() > 0 {
        lemma_proto_index(subs.drop_last(), name);
        match spec_proto_index(subs.drop_last(), name) {
            Some(i) => {
                assert(subs.drop_last()[i] == subs[i]);
                assert forall|j: int| 0 <= j < i implies (#[trigger] subs[j])@ != name by {
                    assert(subs.drop_last()[j] == subs[j]);
                }
            },
            None => {
                assert forall|j: int| 0 <= j < subs.len() - 1 implies (#[trigger] subs[j])@ != name by {
                    assert(subs.drop_last()[j] == subs[j]);
                }
            },
        }
    }
}

/// What `spec_block_start` finds.
pub proof fn lemma_block_start(starts: Seq<(usize, usize)>, id: usize)
    ensures
        match spec_block_start(starts, id) {
            Some(x) => exists|i: int|
                0 <= i < starts.len() && (#[trigger] starts[i]).0 == id && starts[i].1 == x
                    && forall|j: int| 0 <= j < i ==> (#[trigger] starts[j]).0 != id,
            None => forall|j: int| 0 <= j < starts.len() ==> (#[trigger] starts[j]).0 != id,
        },
    decreases starts.len(),
{
    if starts.len() > 0 {
        lemma_block_start(starts.drop_last(), id);
        match spec_block_start(starts.drop_last(), id) {
            Some(x) => {
                let i = choose|i: int|
                    0 <= i < starts.len() - 1 && (#[trigger] starts.drop_last()[i]).0 == id
                        && starts.drop_last()[i].1 == x && forall|j: int|
                        0 <= j < i ==> (#[trigger] starts.drop_last()[j]).0 != id;
                assert(starts[i] == starts.drop_last()[i]);
                assert forall|j: int| 0 <= j < i implies (#[trigger] starts[j]).0 != id by {
                    assert(starts.drop_last()[j] == starts[j]);
                }
            },
            None => {
                assert forall|j: int| 0 <= j < starts.len() - 1 implies (#[trigger] starts[j]).0
                    != id by {
                    assert(starts.drop_last()[j] == starts[j]);
                }
                if starts.last().0 == id {
                    assert(starts[starts.len() - 1].0 == id);
                }
            },
        }
    }
}

/// Resolving jumps keeps the length of the code.
pub proof fn lemma_patch_len(
    code: Seq<OpCode>,
    patches: Seq<(usize, usize)>,
    starts: Seq<(usize, usize)>,
    n: int,
)
    requires
        0 <= n <= patches.len(),
        forall|i: int| 0 <= i < patches.len() ==> (#[trigger] patches[i]).0 < code.len(),
    ensures
        spec_patch(code, patches, starts, n) matches Ok(c) ==> c.len() == code.len(),
    decreases n,
{
    if n > 0 {
        lemma_patch_len(code, patches, starts, n - 1);
    }
}

impl<'a> BytecodeEmitter<'a> {
    /// What the emitter has produced so far.
    pub open spec fn state(&self) -> EmitState {
        EmitState {
            code: self.bytecode@,
            pool: self.constants@,
            literals: self.var_literals@,
            patches: self.patches@,
        }
    }

    /// The emitter's invariant: the pool has no repeated entry, every jump
    /// that awaits its target is in the code, and no variable has two
    /// registers.
    pub open spec fn wf(&self) -> bool {
        &&& spec_pool_wf(self.constants@)
        &&& forall|i: int|
            0 <= i < self.patches@.len() ==> (#[trigger] self.patches@[i]).0 < self.bytecode@.len()
        &&& self.scan.distinct_keys()
    }

    /// Whether the two emitters work on the same function, with the same
    /// registers and the same block starts.
    pub open spec fn same_context(&self, other: &Self) -> bool {
        &&& self.func_ir == other.func_ir
        &&& self.scan == other.scan
        &&& self.block_starts == other.block_starts
    }

    pub fn new(func: &'a IRFunction, scan: &'a FunctionScan) -> (r: Self)
        requires
            scan.distinct_keys(),
        ensures
            r.wf(),
            r.func_ir == func,
            r.scan == scan,
            r.bytecode@.len() == 0,
            r.constants@.len() == 0,
            r.var_literals@.len() == 0,
            r.patches@.len() == 0,
            r.block_starts@.len() == 0,
    {
        BytecodeEmitter {
            func_ir: func,
            scan,
            constants: Vec::new(),
            bytecode: Vec::new(),
            var_literals: Vec::new(),
            block_starts: Vec::new(),
            patches: Vec::new(),
        }
    }

    /// The register of a variable.
    pub fn get_phys_reg(&self, var: VarKind) -> (r: Result<u16, EmitError>)
        requires
            self.wf(),
        ensures
            r == spec_reg(*self.scan, var),
    {
        match self.scan.phys_reg(var) {
            Some(p) => {
                if p <= 65535 {
                    Ok(p as u16)
                } else {
                    Err(EmitError::RegisterOutOfRange(p))
                }
            },
            None => Err(EmitError::UnallocatedVariable(var)),
        }
    }

    /// The register that an operand names.
    pub fn get_reg_index(&self, op: &IROperand) -> (r: Result<u16, EmitError>)
        requires
            self.wf(),
        ensures
            r == spec_operand_reg(*self.scan, *op),
    {
        match op {
            IROperand::Reg(id) => self.get_phys_reg(VarKind::Reg(*id)),
            IROperand::Slot(id) => self.get_phys_reg(VarKind::Slot(*id)),
            _ => Ok(0),
        }
    }

    /// The index of the constant in the pool, where it is put if no entry
    /// is the same value.
    pub fn add_constant(&mut self, val: LuaValue) -> (r: Result<u16, EmitError>)
        requires
            old(self).wf(),
        ensures
            final(self).wf(),
            final(self).same_context(old(self)),
            final(self).state() == old(self).state().add(val).0,
            r == old(self).state().add(val).1,
    {
        proof {
            lemma_pool_find(self.constants@, val);
            lemma_add_constant_wf(self.constants@, val);
        }
        let mut i: usize = 0;
        while i < self.constants.len()
            invariant
                i <= self.constants.len(),
                *self == *old(self),
                self.wf(),
                forall|j: int| 0 <= j < i ==> !spec_same_value(#[trigger] self.constants@[j], val),
            decreases self.constants.len() - i,
        {
            if self.constants[i].same_value(&val) {
                proof {
                    lemma_pool_find(self.constants@, val);
                    match spec_pool_find(self.constants@, val) {
                        Some(k) => {
                            if k < i {
                                assert(!spec_same_value(self.constants@[k], val));
                            }
                        },
                        None => {},
                    }
                }
                return Ok(i as u16);
            }
            i += 1;
        }
        if self.constants.len() >= MAX_CONSTANTS {
            return Err(EmitError::TooManyConstants);
        }
        let idx = self.constants.len() as u16;
        self.constants.push(val);
        Ok(idx)
    }

    fn push_op(&mut self, op: OpCode)
        requires
            old(self).wf(),
        ensures
            final(self).wf(),
            final(self).same_context(old(self)),
            final(self).state() == old(self).state().push(op),
    {
        self.bytecode.push(op);
    }

    fn push_jump(&mut self, target: usize)
        requires
            old(self).wf(),
        ensures
            final(self).wf(),
            final(self).same_context(old(self)),
            final(self).state() == old(self).state().push_jump(target),
    {
        let at = self.bytecode.len();
        self.bytecode.push(OpCode::Jump { offset: 0 });
        self.patches.push((at, target));
    }

    fn literal_of(&self, reg_id: usize) -> (r: Option<IROperand>)
        ensures
            r == spec_literal(self.var_literals@, reg_id),
    {
        let mut i: usize = self.var_literals.len();
        proof {
            assert(self.var_literals@.subrange(0, i as int) =~= self.var_literals@);
        }
        while i > 0
            invariant
                i <= self.var_literals.len(),
                spec_literal(self.var_literals@, reg_id) == spec_literal(
                    self.var_literals@.subrange(0, i as int),
                    reg_id,
                ),
            decreases i,
        {
            proof {
                let s = self.var_literals@.subrange(0, i as int);
                assert(s.last() == self.var_literals@[i - 1]);
                assert(s.drop_last() =~= self.var_literals@.subrange(0, i - 1));
            }
            if self.var_literals[i - 1].0 == reg_id {
                return Some(self.var_literals[i - 1].1.dup());
            }
            i -= 1;
        }
        proof {
            assert(self.var_literals@.subrange(0, 0).len() == 0);
        }
        None
    }

    /// The index of the constant that names a global whose name was loaded
    /// into the register.
    pub fn get_literal_as_const(&mut self, reg_id: usize) -> (r: Result<u16, EmitError>)
        requires
            old(self).wf(),
        ensures
            final(self).wf(),
            final(self).same_context(old(self)),
            final(self).state() == old(self).state().add(
                spec_literal_value(old(self).var_literals@, reg_id),
            ).0,
            r == old(self).state().add(spec_literal_value(old(self).var_literals@, reg_id)).1,
    {
        match self.literal_of(reg_id) {
            Some(IROperand::ImmStr(s)) => self.add_constant(LuaValue::TempString(s)),
            Some(IROperand::ImmFloat(f)) => self.add_constant(LuaValue::Number(f)),
            _ => self.add_constant(LuaValue::Nil),
        }
    }

    fn name_constant(&mut self, name: &IROperand) -> (r: Result<u16, EmitError>)
        requires
            old(self).wf(),
        ensures
            final(self).wf(),
            final(self).same_context(old(self)),
            final(self).state() == old(self).state().add(
                spec_name_value(old(self).var_literals@, *name),
            ).0,
            r == old(self).state().add(spec_name_value(old(self).var_literals@, *name)).1,
    {
        match name {
            IROperand::ImmStr(s) => self.add_constant(LuaValue::TempString(s.clone())),
            IROperand::Reg(id) => self.get_literal_as_const(*id),
            _ => self.add_constant(LuaValue::Nil),
        }
    }

    fn emit_get(&mut self, dest: usize, table: &IROperand, key: &IROperand) -> (r: Result<
        (),
        EmitError,
    >)
        requires
            old(self).wf(),
        ensures
            final(self).same_context(old(self)),
            match spec_emit_get(old(self).state(), *old(self).scan, dest, *table, *key) {
                Ok(s) => r is Ok && final(self).state() == s && final(self).wf(),
                Err(e) => r == Err::<(), EmitError>(e),
            },
    {
        let d = self.get_phys_reg(VarKind::Reg(dest))?;
        let t = self.get_reg_index(table)?;
        let k = self.get_reg_index(key)?;
        self.push_op(OpCode::GetTable { dest: d, table: t, key: k });
        Ok(())
    }

    fn emit_set(&mut self, dest: usize, table: &IROperand, key: &IROperand, value: &IROperand) -> (r:
        Result<(), EmitError>)
        requires
            old(self).wf(),
        ensures
            final(self).same_context(old(self)),
            match spec_emit_set(old(self).state(), *old(self).scan, dest, *table, *key, *value) {
                Ok(s) => r is Ok && final(self).state() == s && final(self).wf(),
                Err(e) => r == Err::<(), EmitError>(e),
            },
    {
        let t = self.get_reg_index(table)?;
        let k = self.get_reg_index(key)?;
        let v = self.get_reg_index(value)?;
        let d = self.get_phys_reg(VarKind::Reg(dest))?;
        self.push_op(OpCode::SetTable { table: t, key: k, value: v });
        self.push_op(OpCode::Move { dest: d, src: v });
        Ok(())
    }

    fn emit_args(&mut self, r_func: u16, args: &Vec<IROperand>) -> (r: Result<(), EmitError>)
        requires
            old(self).wf(),
        ensures
            final(self).same_context(old(self)),
            match spec_emit_args(
                old(self).state(),
                *old(self).scan,
                r_func,
                args@,
                args@.len() as int,
            ) {
                Ok(s) => r is Ok && final(self).state() == s && final(self).wf(),
                Err(e) => r == Err::<(), EmitError>(e),
            },
    {
        let ghost st0 = self.state();
        let mut i: usize = 0;
        while i < args.len()
            invariant
                i <= args.len(),
                self.wf(),
                self.same_context(old(self)),
                st0 == old(self).state(),
                spec_emit_args(st0, *self.scan, r_func, args@, i as int) == Ok::<
                    EmitState,
                    EmitError,
                >(self.state()),
            decreases args.len() - i,
        {
            let src = match self.get_reg_index(&args[i]) {
                Ok(src) => src,
                Err(e) => {
                    proof {
                        lemma_emit_args_err(
                            st0,
                            *self.scan,
                            r_func,
                            args@,
                            i + 1,
                            args@.len() as int,
                        );
                    }
                    return Err(e);
                },
            };
            if i >= 65535 || r_func as usize + i + 1 > 65535 {
                proof {
                    lemma_emit_args_err(st0, *self.scan, r_func, args@, i + 1, args@.len() as int);
                }
                return Err(EmitError::RegisterOutOfRange(r_func as usize + i + 1));
            }
            let target: usize = r_func as usize + i + 1;
            self.push_op(OpCode::Move { dest: target as u16, src });
            i += 1;
        }
        Ok(())
    }

    fn proto_index(&self, name: &String) -> (r: Option<usize>)
        ensures
            match r {
                Some(i) => spec_proto_index(self.func_ir.sub_functions@, name@) == Some(i as int),
                None => spec_proto_index(self.func_ir.sub_functions@, name@) is None,
            },
    {
        proof {
            lemma_proto_index(self.func_ir.sub_functions@, name@);
        }
        let mut i: usize = 0;
        while i < self.func_ir.sub_functions.len()
            invariant
                i <= self.func_ir.sub_functions.len(),
                forall|j: int| 0 <= j < i ==> (#[trigger] self.func_ir.sub_functions@[j])@ != name@,
            decreases self.func_ir.sub_functions.len() - i,
        {
            if self.func_ir.sub_functions[i] == *name {
                proof {
                    let subs = self.func_ir.sub_functions@;
                    lemma_proto_index(subs, name@);
                    match spec_proto_index(subs, name@) {
                        Some(k) => {
                            if k < i {
                                assert(subs[k]@ != name@);
                            }
                        },
                        None => {},
                    }
                }
                return Some(i);
            }
            i += 1;
        }
        None
    }

    fn binary_op(operator: IRBinOp, dest: u16, left: u16, right: u16) -> (r: OpCode)
        ensures
            r == spec_binary(operator, dest, left, right),
    {
        match operator {
            IRBinOp::Add => OpCode::Add { dest, left, right },
            IRBinOp::Sub => OpCode::Sub { dest, left, right },
            IRBinOp::Mul => OpCode::Mul { dest, left, right },
            IRBinOp::Div => OpCode::Div { dest, left, right },
            IRBinOp::Pow => OpCode::Pow { dest, left, right },
            IRBinOp::Concat => OpCode::Concat { dest, left, right },
            IRBinOp::And => OpCode::And { dest, left, right },
            IRBinOp::Or => OpCode::Or { dest, left, right },
            IRBinOp::Eq => OpCode::Eq { dest, left, right },
            IRBinOp::Neq => OpCode::Ne { dest, left, right },
            IRBinOp::Lt => OpCode::Lt { dest, left, right },
            IRBinOp::Gt => OpCode::Gt { dest, left, right },
            IRBinOp::Leq => OpCode::Le { dest, left, right },
            IRBinOp::Geq => OpCode::Ge { dest, left, right },
        }
    }

    fn size_hint(op: &IROperand) -> (r: u16)
        ensures
            r == spec_size_hint(*op),
    {
        match op {
            IROperand::ImmFloat(f) => to_u16(*f),
            _ => 0,
        }
    }

    /// Lowers one instruction; see [`spec_emit_instr`].
    pub fn emit_instr(&mut self, instr: &IRInstruction) -> (r: Result<(), EmitError>)
        requires
            old(self).wf(),
        ensures
            final(self).same_context(old(self)),
            match spec_emit_instr(
                old(self).state(),
                *old(self).scan,
                old(self).func_ir.sub_functions@,
                *instr,
            ) {
                Ok(s) => r is Ok && final(self).state() == s && final(self).wf(),
                Err(e) => r == Err::<(), EmitError>(e),
            },
    {
        reveal(spec_emit_instr);
        match instr {
            IRInstruction::LoadImm { dest, value } => {
                let d = self.get_phys_reg(VarKind::Reg(*dest))?;
                self.var_literals.push((*dest, value.dup()));
                match value {
                    IROperand::ImmFloat(f) => {
                        let c = self.add_constant(LuaValue::Number(*f))?;
                        self.push_op(OpCode::LoadK { dest: d, const_idx: c });
                    },
                    IROperand::ImmStr(s) => {
                        let c = self.add_constant(LuaValue::TempString(s.clone()))?;
                        self.push_op(OpCode::LoadK { dest: d, const_idx: c });
                    },
                    IROperand::ImmBool(b) => {
                        self.push_op(OpCode::LoadBool { dest: d, value: *b });
                    },
                    IROperand::Nil => {
                        self.push_op(OpCode::LoadNil { dest: d });
                    },
                    _ => {
                        return Err(EmitError::InvalidOperand);
                    },
                }
                Ok(())
            },
            IRInstruction::Binary { dest, src1, src2, operator } => {
                let d = self.get_phys_reg(VarKind::Reg(*dest))?;
                let l = self.get_reg_index(src1)?;
                let r = self.get_reg_index(src2)?;
                self.push_op(Self::binary_op(*operator, d, l, r));
                Ok(())
            },
            IRInstruction::Unary { dest, src, operator } => {
                let d = self.get_phys_reg(VarKind::Reg(*dest))?;
                let s = self.get_reg_index(src)?;
                let op = match operator {
                    IRUnOp::Neg => UnaryOpType::Neg,
                    IRUnOp::Not => UnaryOpType::Not,
                };
                self.push_op(OpCode::UnOp { dest: d, src: s, op });
                Ok(())
            },
            IRInstruction::GetTable { dest, table, key } => self.emit_get(*dest, table, key),
            IRInstruction::IndexOf { dest, collection, index } => self.emit_get(
                *dest,
                collection,
                index,
            ),
            IRInstruction::MemberOf { dest, collection, member } => self.emit_get(
                *dest,
                collection,
                member,
            ),
            IRInstruction::SetTable { dest, table, key, value } => self.emit_set(
                *dest,
                table,
                key,
                value,
            ),
            IRInstruction::SetIndex { dest, collection, index, value } => self.emit_set(
                *dest,
                collection,
                index,
                value,
            ),
            IRInstruction::SetMember { dest, collection, member, value } => self.emit_set(
                *dest,
                collection,
                member,
                value,
            ),
            IRInstruction::NewTable { dest, size_array, size_hash } => {
                let d = self.get_phys_reg(VarKind::Reg(*dest))?;
                let s_arr = Self::size_hint(size_array);
                let s_hash = Self::size_hint(size_hash);
                self.push_op(OpCode::NewTable { dest: d, size_array: s_arr, size_hash: s_hash });
                Ok(())
            },
            IRInstruction::FnProto { dest, func_proto } => {
                let d = self.get_phys_reg(VarKind::Reg(*dest))?;
                match func_proto {
                    IROperand::Proto(name) => {
                        match self.proto_index(name) {
                            Some(i) => {
                                if i <= 65535 {
                                    self.push_op(OpCode::FnProto { dest: d, proto_idx: i as u16 });
                                    Ok(())
                                } else {
                                    Err(EmitError::UnknownPrototype(name.clone()))
                                }
                            },
                            None => Err(EmitError::UnknownPrototype(name.clone())),
                        }
                    },
                    _ => Err(EmitError::InvalidOperand),
                }
            },
            IRInstruction::Call { dest, callee, args } => {
                if args.len() > 255 {
                    return Err(EmitError::TooManyArguments(args.len()));
                }
                let r_dest = self.get_phys_reg(VarKind::Reg(*dest))?;
                let r_func = self.get_reg_index(callee)?;
                self.emit_args(r_func, args)?;
                self.push_op(OpCode::Call { func_reg: r_func, argc: args.len() as u8, retc: 1 });
                self.push_op(OpCode::Move { dest: r_dest, src: r_func });
                Ok(())
            },
            IRInstruction::LoadGlobal { dest, name } => {
                let d = self.get_phys_reg(VarKind::Reg(*dest))?;
                let name_idx = self.name_constant(name)?;
                self.push_op(OpCode::GetGlobal { dest: d, name_idx });
                Ok(())
            },
            IRInstruction::StoreGlobal { dest, name, src } => {
                let name_idx = self.name_constant(name)?;
                let s = self.get_reg_index(src)?;
                let d = self.get_phys_reg(VarKind::Reg(*dest))?;
                self.push_op(OpCode::SetGlobal { name_idx, src: s });
                self.push_op(OpCode::Move { dest: d, src: s });
                Ok(())
            },
            IRInstruction::LoadLocal { dest, src } => {
                match src {
                    IROperand::Slot(id) => {
                        let d = self.get_phys_reg(VarKind::Reg(*dest))?;
                        let s = self.get_phys_reg(VarKind::Slot(*id))?;
                        self.push_op(OpCode::Move { dest: d, src: s });
                        Ok(())
                    },
                    _ => Err(EmitError::InvalidOperand),
                }
            },
            IRInstruction::StoreLocal { dest, dst, src } => {
                match dst {
                    IROperand::Slot(id) => {
                        let slot = self.get_phys_reg(VarKind::Slot(*id))?;
                        let val = self.get_reg_index(src)?;
                        let d = self.get_phys_reg(VarKind::Reg(*dest))?;
                        self.push_op(OpCode::Move { dest: slot, src: val });
                        self.push_op(OpCode::Move { dest: d, src: val });
                        Ok(())
                    },
                    _ => Err(EmitError::InvalidOperand),
                }
            },
            IRInstruction::LoadUpVal { dest, src } => {
                match src {
                    IROperand::UpVal(i) => {
                        let d = self.get_phys_reg(VarKind::Reg(*dest))?;
                        if *i <= 65535 {
                            self.push_op(OpCode::GetUpVal { dest: d, upval_idx: *i as u16 });
                            Ok(())
                        } else {
                            Err(EmitError::RegisterOutOfRange(*i))
                        }
                    },
                    _ => Err(EmitError::InvalidOperand),
                }
            },
            IRInstruction::Drop { .. } => Ok(()),
        }
    }

    /// Lowers a terminator; see [`spec_emit_terminator`].
    pub fn emit_terminator(&mut self, term: &IRTerminator) -> (r: Result<(), EmitError>)
        requires
            old(self).wf(),
        ensures
            final(self).same_context(old(self)),
            match spec_emit_terminator(old(self).state(), *old(self).scan, *term) {
                Ok(s) => r is Ok && final(self).state() == s && final(self).wf(),
                Err(e) => r == Err::<(), EmitError>(e),
            },
    {
        match term {
            IRTerminator::Return(vals) => {
                let held = if vals.len() > 0 {
                    match &vals[0] {
                        IROperand::Reg(_) => true,
                        IROperand::Slot(_) => true,
                        _ => false,
                    }
                } else {
                    false
                };
                if held {
                    let r = self.get_reg_index(&vals[0])?;
                    self.push_op(OpCode::Return { start: r, count: 1 });
                } else {
                    self.push_op(OpCode::Return { start: 0, count: 0 });
                }
                Ok(())
            },
            IRTerminator::Branch { cond, br_true, br_false } => {
                let r_cond = self.get_reg_index(cond)?;
                self.push_op(OpCode::Test { reg: r_cond });
                self.push_jump(*br_true);
                self.push_jump(*br_false);
                Ok(())
            },
            IRTerminator::Jump(target) => {
                self.push_jump(*target);
                Ok(())
            },
            IRTerminator::FallThrough => Ok(()),
        }
    }

    fn block_start(&self, id: usize) -> (r: Option<usize>)
        ensures
            r == spec_block_start(self.block_starts@, id),
    {
        proof {
            lemma_block_start(self.block_starts@, id);
        }
        let mut i: usize = 0;
        while i < self.block_starts.len()
            invariant
                i <= self.block_starts.len(),
                forall|j: int| 0 <= j < i ==> (#[trigger] self.block_starts@[j]).0 != id,
            decreases self.block_starts.len() - i,
        {
            if self.block_starts[i].0 == id {
                proof {
                    let starts = self.block_starts@;
                    lemma_block_start(starts, id);
                    match spec_block_start(starts, id) {
                        Some(x) => {
                            let k = choose|k: int|
                                0 <= k < starts.len() && (#[trigger] starts[k]).0 == id
                                    && starts[k].1 == x && forall|j: int|
                                    0 <= j < k ==> (#[trigger] starts[j]).0 != id;
                            if k < i {
                                assert(starts[k].0 != id);
                            } else if k > i {
                                assert(starts[i as int].0 != id);
                            }
                        },
                        None => {
                            assert(starts[i as int].0 != id);
                        },
                    }
                }
                return Some(self.block_starts[i].1);
            }
            i += 1;
        }
        None
    }

    /// Lowers the function: its bytecode, with every jump resolved, and its
    /// constant pool, in which no value occurs twice.
    pub fn emit(self) -> (r: Result<(Vec<OpCode>, Vec<LuaValue>), EmitError>)
        requires
            self.wf(),
            self.bytecode@.len() == 0,
            self.constants@.len() == 0,
            self.var_literals@.len() == 0,
            self.patches@.len() == 0,
            self.block_starts@.len() == 0,
        ensures
            match spec_emit(*self.func_ir, *self.scan) {
                Ok((code, pool)) => r matches Ok((c, p)) && c@ == code && p@ == pool
                    && spec_pool_wf(pool),
                Err(e) => r matches Err(x) && x == e,
            },
    {
        let mut this = self;
        let ghost scan = *this.scan;
        let ghost subs = this.func_ir.sub_functions@;
        let ghost blocks = this.func_ir.basic_blocks@;
        let mut b: usize = 0;
        proof {
            assert(this.state() == EmitState {
                code: Seq::empty(),
                pool: Seq::empty(),
                literals: Seq::empty(),
                patches: Seq::empty(),
            }) by {
                assert(this.bytecode@ =~= Seq::<OpCode>::empty());
                assert(this.constants@ =~= Seq::<LuaValue>::empty());
                assert(this.var_literals@ =~= Seq::<(usize, IROperand)>::empty());
                assert(this.patches@ =~= Seq::<(usize, usize)>::empty());
            }
            assert(this.block_starts@ =~= Seq::<(usize, usize)>::empty());
        }
        while b < this.func_ir.basic_blocks.len()
            invariant
                b <= this.func_ir.basic_blocks.len(),
                this.wf(),
                this.func_ir == self.func_ir,
                this.scan == self.scan,
                scan == *self.scan,
                subs == self.func_ir.sub_functions@,
                blocks == self.func_ir.basic_blocks@,
                spec_emit_blocks(scan, subs, blocks, b as int) == Ok::<
                    (EmitState, Seq<(usize, usize)>),
                    EmitError,
                >((this.state(), this.block_starts@)),
            decreases this.func_ir.basic_blocks.len() - b,
        {
            let block = &this.func_ir.basic_blocks[b];
            let ghost st1 = this.state();
            let ghost starts1 = this.block_starts@;
            let at = this.bytecode.len();
            this.block_starts.push((block.id, at));
            let mut i: usize = 0;
            while i < block.instructions.len()
                invariant
                    i <= block.instructions.len(),
                    this.wf(),
                    this.func_ir == self.func_ir,
                    this.scan == self.scan,
                    scan == *self.scan,
                    subs == self.func_ir.sub_functions@,
                    blocks == self.func_ir.basic_blocks@,
                    b < blocks.len(),
                    *block == blocks[b as int],
                    at == st1.code.len(),
                    spec_emit_blocks(scan, subs, blocks, b as int) == Ok::<
                        (EmitState, Seq<(usize, usize)>),
                        EmitError,
                    >((st1, starts1)),
                    this.block_starts@ == starts1.push((block.id, at)),
                    spec_emit_instrs(st1, scan, subs, block.instructions@, i as int) == Ok::<
                        EmitState,
                        EmitError,
                    >(this.state()),
                decreases block.instructions.len() - i,
            {
                match this.emit_instr(&block.instructions[i]) {
                    Ok(()) => {},
                    Err(e) => {
                        proof {
                            lemma_emit_instrs_err(
                                st1,
                                scan,
                                subs,
                                block.instructions@,
                                i + 1,
                                block.instructions@.len() as int,
                            );
                            lemma_emit_blocks_err(scan, subs, blocks, b + 1, blocks.len() as int);
                        }
                        return Err(e);
                    },
                }
                i += 1;
            }
            match this.emit_terminator(&block.terminator) {
                Ok(()) => {},
                Err(e) => {
                    proof {
                        lemma_emit_blocks_err(scan, subs, blocks, b + 1, blocks.len() as int);
                    }
                    return Err(e);
                },
            }
            b += 1;
        }
        let ghost st = this.state();
        let ghost starts = this.block_starts@;
        let ghost code0 = this.bytecode@;
        let mut k: usize = 0;
        while k < this.patches.len()
            invariant
                k <= this.patches.len(),
                this.func_ir == self.func_ir,
                this.scan == self.scan,
                spec_emit_blocks(
                    *self.scan,
                    self.func_ir.sub_functions@,
                    self.func_ir.basic_blocks@,
                    self.func_ir.basic_blocks@.len() as int,
                ) == Ok::<(EmitState, Seq<(usize, usize)>), EmitError>((st, starts)),
                this.patches@ == st.patches,
                this.constants@ == st.pool,
                this.block_starts@ == starts,
                this.bytecode@.len() == code0.len(),
                code0 == st.code,
                spec_pool_wf(st.pool),
                forall|i: int| 0 <= i < st.patches.len() ==> (#[trigger] st.patches[i]).0 < code0.len(),
                spec_patch(code0, st.patches, starts, k as int) == Ok::<Seq<OpCode>, EmitError>(
                    this.bytecode@,
                ),
            decreases this.patches.len() - k,
        {
            let (at, target) = this.patches[k];
            match this.block_start(target) {
                None => {
                    proof {
                        lemma_patch_err(code0, st.patches, starts, k + 1, st.patches.len() as int);
                    }
                    return Err(EmitError::UnknownBlock(target));
                },
                Some(start) => {
                    let fits = if start >= at {
                        start - at <= 0x7fff_ffff
                    } else {
                        at - start <= 0x8000_0000
                    };
                    if !fits {
                        proof {
                            lemma_patch_err(
                                code0,
                                st.patches,
                                starts,
                                k + 1,
                                st.patches.len() as int,
                            );
                        }
                        return Err(EmitError::JumpOutOfRange(at));
                    }
                    let offset: i32 = if start >= at {
                        (start - at) as i32
                    } else if at - start == 0x8000_0000 {
                        i32::MIN
                    } else {
                        -((at - start) as i32)
                    };
                    this.bytecode[at] = OpCode::Jump { offset };
                },
            }
            k += 1;
        }
        Ok((this.bytecode, this.constants))
    }
}

/// Once an argument fails, the rest of the arguments fail the same way.
pub proof fn lemma_emit_args_err(
    st: EmitState,
    scan: FunctionScan,
    callee: u16,
    args: Seq<IROperand>,
    n: int,
    m: int,
)
    requires
        0 <= n <= m,
        spec_emit_args(st, scan, callee, args, n) is Err,
    ensures
        spec_emit_args(st, scan, callee, args, m) == spec_emit_args(st, scan, callee, args, n),
    decreases m - n,
{
    if n < m {
        lemma_emit_args_err(st, scan, callee, args, n, m - 1);
    }
}

/// Once an instruction fails, the block fails the same way.
pub proof fn lemma_emit_instrs_err(
    st: EmitState,
    scan: FunctionScan,
    subs: Seq<String>,
    instrs: Seq<IRInstruction>,
    n: int,
    m: int,
)
    requires
        0 <= n <= m,
        spec_emit_instrs(st, scan, subs, instrs, n) is Err,
    ensures
        spec_emit_instrs(st, scan, subs, instrs, m) == spec_emit_instrs(st, scan, subs, instrs, n),
    decreases m - n,
{
    if n < m {
        lemma_emit_instrs_err(st, scan, subs, instrs, n, m - 1);
    }
}

/// Once a block fails, the function fails the same way.
pub proof fn lemma_emit_blocks_err(
    scan: FunctionScan,
    subs: Seq<String>,
    blocks: Seq<IRBasicBlock>,
    n: int,
    m: int,
)
    requires
        0 <= n <= m,
        spec_emit_blocks(scan, subs, blocks, n) is Err,
    ensures
        spec_emit_blocks(scan, subs, blocks, m) == spec_emit_blocks(scan, subs, blocks, n),
    decreases m - n,
{
    if n < m {
        lemma_emit_blocks_err(scan, subs, blocks, n, m - 1);
    }
}

/// Once a jump cannot be resolved, resolving fails the same way.
pub proof fn lemma_patch_err(
    code: Seq<OpCode>,
    patches: Seq<(usize, usize)>,
    starts: Seq<(usize, usize)>,
    n: int,
    m: int,
)
    requires
        0 <= n <= m,
        spec_patch(code, patches, starts, n) is Err,
    ensures
        spec_patch(code, patches, starts, m) == spec_patch(code, patches, starts, n),
    decreases m - n,
{
    if n < m {
        lemma_patch_err(code, patches, starts, n, m - 1);
    }
}

} // verus!
