//! Lifetime analysis and linear-scan register allocation.
//!
//! The scanner numbers the instructions of a function in block order, the
//! terminators included, and records for every variable the range in which
//! it is live. The allocator then gives every local slot the register of its
//! own number and every temporary a register above the slots, `STRIDE` apart,
//! so that the registers just above a callee are free for its arguments.

use vstd::prelude::*;
use crate::frontend::ir::{IRBasicBlock, IRFunction, IRInstruction, IRModule, IROperand, IRTerminator};

verus! {

/// The distance between the registers of two temporaries.
pub const STRIDE: usize = 4;

#[derive(Debug, Clone, Copy, PartialEq, Eq, Hash, Structural)]
pub enum VarKind {
    /// A virtual register.
    Reg(usize),
    /// A local slot.
    Slot(usize),
}

/// What the scanner guesses of a variable's type. It serves reports only.
#[derive(Debug, Clone, Copy, PartialEq, Eq, Structural)]
pub enum InferredType {
    Float,
    String,
    Boolean,
    Nil,
    Dynamic,
    Table,
    Function,
}

#[derive(Debug, Clone, Copy, PartialEq, Eq, Structural)]
pub struct Lifetime {
    pub start: usize,
    pub end: usize,
    pub is_fixed: bool,
    pub inferred_type: Option<InferredType>,
}

/// The lifetimes of a function's variables, in the order of their first
/// definition.
pub type Table = Seq<(VarKind, Lifetime)>;

/// What the scanner found out about one function.
#[derive(Debug, Clone)]
pub struct FunctionScan {
    pub name: String,
    pub lifetimes: Vec<(VarKind, Lifetime)>,
    /// The register of each variable, in the order of `lifetimes`.
    pub reg_map: Vec<(VarKind, usize)>,
    pub num_locals: usize,
    pub max_stack: usize,
}

#[derive(Debug, PartialEq)]
pub enum ScanError {
    /// The function at this index has more instructions than can be counted.
    TooLarge(usize),
}

pub struct Scanner {
    /// The functions scanned so far, in the order of the module.
    pub functions: Vec<FunctionScan>,
    /// The names that `LoadGlobal` takes as immediate strings.
    pub global_vars: Vec<String>,
    /// The lifetimes of the function that is being scanned.
    pub lifetimes: Vec<(VarKind, Lifetime)>,
    /// The number of the instruction that is being scanned.
    pub instr_count: usize,
}

/// The variable that an operand names, if it names one.
pub open spec fn spec_var_of(op: IROperand) -> Option<VarKind> {
    match op {
        IROperand::Reg(id) => Some(VarKind::Reg(id)),
        IROperand::Slot(id) => Some(VarKind::Slot(id)),
        _ => None,
    }
}

/// The index of the variable's entry, if it has one.
pub open spec fn spec_position(t: Table, v: VarKind) -> Option<int>
    decreases t.len(),
{
    if t.len() == 0 {
        None
    } else {
        match spec_position(t.drop_last(), v) {
            Some(i) => Some(i),
            None => if t.last().0 == v {
                Some(t.len() - 1)
            } else {
                None
            },
        }
    }
}

/// A definition at instruction `count`: a new variable gets an entry that
/// starts and ends there; a known one keeps its entry, and takes the type
/// hint if it had no type.
pub open spec fn spec_def(
    t: Table,
    count: usize,
    v: VarKind,
    is_fixed: bool,
    hint: Option<InferredType>,
) -> Table {
    match spec_position(t, v) {
        Some(i) => {
            let lt = t[i].1;
            t.update(
                i,
                (
                    v,
                    Lifetime {
                        start: if lt.start <= count {
                            lt.start
                        } else {
                            count
                        },
                        end: lt.end,
                        is_fixed: lt.is_fixed,
                        inferred_type: if lt.inferred_type is None {
                            hint
                        } else {
                            lt.inferred_type
                        },
                    },
                ),
            )
        },
        None => t.push((v, Lifetime { start: count, end: count, is_fixed, inferred_type: hint })),
    }
}

/// The table with the end of one entry set.
pub open spec fn spec_with_end(t: Table, i: int, end: usize) -> Table {
    t.update(
        i,
        (
            t[i].0,
            Lifetime {
                start: t[i].1.start,
                end,
                is_fixed: t[i].1.is_fixed,
                inferred_type: t[i].1.inferred_type,
            },
        ),
    )
}

/// A use at instruction `count`: the entry of the variable that the operand
/// names, if there is one, ends there at the earliest.
pub open spec fn spec_use(t: Table, count: usize, op: IROperand) -> Table {
    match spec_var_of(op) {
        Some(v) => match spec_position(t, v) {
            Some(i) => spec_with_end(
                t,
                i,
                if t[i].1.end >= count {
                    t[i].1.end
                } else {
                    count
                },
            ),
            None => t,
        },
        None => t,
    }
}

/// A register handed to a call at instruction `count` stays live until the
/// instruction after it.
pub open spec fn spec_extend(t: Table, count: usize, op: IROperand) -> Table {
    match op {
        IROperand::Reg(id) => match spec_position(t, VarKind::Reg(id)) {
            Some(i) => spec_with_end(t, i, (count + 1) as usize),
            None => t,
        },
        _ => t,
    }
}

/// The arguments of a call, each used and then extended.
pub open spec fn spec_call_args(t: Table, count: usize, args: Seq<IROperand>) -> Table
    decreases args.len(),
{
    if args.len() == 0 {
        t
    } else {
        spec_extend(
            spec_use(spec_call_args(t, count, args.drop_last()), count, args.last()),
            count,
            args.last(),
        )
    }
}

/// The operands of a return, each used.
pub open spec fn spec_use_all(t: Table, count: usize, ops: Seq<IROperand>) -> Table
    decreases ops.len(),
{
    if ops.len() == 0 {
        t
    } else {
        spec_use(spec_use_all(t, count, ops.drop_last()), count, ops.last())
    }
}

/// The type that an immediate has.
pub open spec fn spec_imm_type(value: IROperand) -> InferredType {
    match value {
        IROperand::ImmFloat(_) => InferredType::Float,
        IROperand::ImmStr(_) => InferredType::String,
        IROperand::ImmBool(_) => InferredType::Boolean,
        IROperand::Nil => InferredType::Nil,
        _ => InferredType::Dynamic,
    }
}

/// The type recorded for a register operand, if any.
pub open spec fn spec_type_of(t: Table, op: IROperand) -> Option<InferredType> {
    match op {
        IROperand::Reg(id) => match spec_position(t, VarKind::Reg(id)) {
            Some(i) => t[i].1.inferred_type,
            None => None,
        },
        _ => None,
    }
}

/// The table with the type of a slot operand's entry set, where a type is
/// given and the entry exists.
pub open spec fn spec_set_type(t: Table, op: IROperand, ty: Option<InferredType>) -> Table {
    match (op, ty) {
        (IROperand::Slot(id), Some(x)) => match spec_position(t, VarKind::Slot(id)) {
            Some(i) => t.update(
                i,
                (
                    t[i].0,
                    Lifetime {
                        start: t[i].1.start,
                        end: t[i].1.end,
                        is_fixed: t[i].1.is_fixed,
                        inferred_type: Some(x),
                    },
                ),
            ),
            None => t,
        },
        _ => t,
    }
}

/// The register that an instruction defines, if it defines one.
pub open spec fn spec_dest(instr: IRInstruction) -> Option<usize> {
    match instr {
        IRInstruction::Drop { .. } => None,
        IRInstruction::LoadImm { dest, .. } => Some(dest),
        IRInstruction::Binary { dest, .. } => Some(dest),
        IRInstruction::Unary { dest, .. } => Some(dest),
        IRInstruction::LoadLocal { dest, .. } => Some(dest),
        IRInstruction::StoreLocal { dest, .. } => Some(dest),
        IRInstruction::LoadGlobal { dest, .. } => Some(dest),
        IRInstruction::StoreGlobal { dest, .. } => Some(dest),
        IRInstruction::LoadUpVal { dest, .. } => Some(dest),
        IRInstruction::Call { dest, .. } => Some(dest),
        IRInstruction::IndexOf { dest, .. } => Some(dest),
        IRInstruction::SetIndex { dest, .. } => Some(dest),
        IRInstruction::MemberOf { dest, .. } => Some(dest),
        IRInstruction::SetMember { dest, .. } => Some(dest),
        IRInstruction::NewTable { dest, .. } => Some(dest),
        IRInstruction::SetTable { dest, .. } => Some(dest),
        IRInstruction::GetTable { dest, .. } => Some(dest),
        IRInstruction::FnProto { dest, .. } => Some(dest),
    }
}

/// The operands that an instruction reads.
pub open spec fn spec_operands(instr: IRInstruction) -> Seq<IROperand> {
    match instr {
        IRInstruction::LoadImm { .. } => seq![],
        IRInstruction::Binary { src1, src2, .. } => seq![src1, src2],
        IRInstruction::Unary { src, .. } => seq![src],
        IRInstruction::LoadLocal { src, .. } => seq![src],
        IRInstruction::StoreLocal { dst, src, .. } => seq![dst, src],
        IRInstruction::LoadGlobal { name, .. } => seq![name],
        IRInstruction::StoreGlobal { name, src, .. } => seq![name, src],
        IRInstruction::LoadUpVal { src, .. } => seq![src],
        IRInstruction::Drop { src } => seq![src],
        IRInstruction::Call { callee, args, .. } => seq![callee] + args@,
        IRInstruction::IndexOf { collection, index, .. } => seq![collection, index],
        IRInstruction::SetIndex { collection, index, value, .. } => seq![collection, index, value],
        IRInstruction::MemberOf { collection, member, .. } => seq![collection, member],
        IRInstruction::SetMember { collection, member, value, .. } => seq![
            collection,
            member,
            value,
        ],
        IRInstruction::NewTable { size_array, size_hash, .. } => seq![size_array, size_hash],
        IRInstruction::SetTable { table, key, value, .. } => seq![table, key, value],
        IRInstruction::GetTable { table, key, .. } => seq![table, key],
        IRInstruction::FnProto { func_proto, .. } => seq![func_proto],
    }
}

/// The type hint that an instruction gives for the register it defines.
pub open spec fn spec_hint(instr: IRInstruction) -> Option<InferredType> {
    match instr {
        IRInstruction::LoadImm { value, .. } => Some(spec_imm_type(value)),
        IRInstruction::NewTable { .. } => Some(InferredType::Table),
        IRInstruction::FnProto { .. } => Some(InferredType::Function),
        _ => None,
    }
}

/// The table after the instruction numbered `count`: its register defined,
/// then its operands used in order. A call also extends its callee and its
/// arguments; a store to a local passes the type of its source on to the slot.
pub open spec fn spec_instr(t: Table, count: usize, instr: IRInstruction) -> Table {
    match instr {
        IRInstruction::Drop { src } => spec_use(t, count, src),
        IRInstruction::StoreLocal { dest, dst, src } => {
            let ty = spec_type_of(t, src);
            let t1 = spec_def(t, count, VarKind::Reg(dest), false, None);
            spec_use(spec_use(spec_set_type(t1, dst, ty), count, dst), count, src)
        },
        IRInstruction::Call { dest, callee, args } => {
            let t1 = spec_def(t, count, VarKind::Reg(dest), false, None);
            spec_extend(spec_call_args(spec_use(t1, count, callee), count, args@), count, callee)
        },
        _ => spec_use_all(
            spec_def(t, count, VarKind::Reg(spec_dest(instr)->0), false, spec_hint(instr)),
            count,
            spec_operands(instr),
        ),
    }
}

/// The operands that a terminator reads.
pub open spec fn spec_term_operands(term: IRTerminator) -> Seq<IROperand> {
    match term {
        IRTerminator::Return(ops) => ops@,
        IRTerminator::Branch { cond, .. } => seq![cond],
        _ => seq![],
    }
}

/// The table after the terminator numbered `count`.
pub open spec fn spec_term(t: Table, count: usize, term: IRTerminator) -> Table {
    spec_use_all(t, count, spec_term_operands(term))
}

/// One numbered step of a function's schedule.
pub enum Step {
    Instr(IRInstruction),
    Term(IRTerminator),
}

/// The operands that a step reads.
pub open spec fn spec_step_operands(step: Step) -> Seq<IROperand> {
    match step {
        Step::Instr(i) => spec_operands(i),
        Step::Term(t) => spec_term_operands(t),
    }
}

/// The table after the step numbered `count`.
pub open spec fn spec_step(t: Table, count: usize, step: Step) -> Table {
    match step {
        Step::Instr(i) => spec_instr(t, count, i),
        Step::Term(x) => spec_term(t, count, x),
    }
}

/// The schedule of the first `b` blocks: the instructions of each block in
/// order, then its terminator.
pub open spec fn spec_schedule(blocks: Seq<IRBasicBlock>, b: int) -> Seq<Step>
    decreases b,
{
    if b <= 0 {
        Seq::empty()
    } else {
        spec_schedule(blocks, b - 1) + blocks[b - 1].instructions@.map_values(
            |i: IRInstruction| Step::Instr(i),
        ).push(Step::Term(blocks[b - 1].terminator))
    }
}

/// The table after the steps, which are numbered from 0.
pub open spec fn spec_run(t: Table, steps: Seq<Step>) -> Table
    decreases steps.len(),
{
    if steps.len() == 0 {
        t
    } else {
        spec_step(spec_run(t, steps.drop_last()), (steps.len() - 1) as usize, steps.last())
    }
}

/// The table at function entry: the first `n` local slots, each fixed and
/// defined at instruction 0.
pub open spec fn spec_entry(locals: Seq<(String, usize)>, n: int) -> Table
    decreases n,
{
    if n <= 0 {
        Seq::empty()
    } else {
        spec_def(spec_entry(locals, n - 1), 0, VarKind::Slot(locals[n - 1].1), true, None)
    }
}

/// The schedule of a function.
pub open spec fn spec_steps(func: IRFunction) -> Seq<Step> {
    spec_schedule(func.basic_blocks@, func.basic_blocks@.len() as int)
}

/// The lifetimes of a function's variables.
pub open spec fn spec_scan(func: IRFunction) -> Table {
    spec_run(spec_entry(func.local_variables@, func.local_variables@.len() as int), spec_steps(func))
}

/// What holds of a table while instruction `count` is scanned: no variable
/// has two entries, every lifetime starts at or before its end and at or
/// before `count`, ends at `count + 1` at the latest, and the entries are in
/// the order of their starts.
pub open spec fn spec_table_wf(t: Table, count: int) -> bool {
    &&& forall|i: int, j: int| 0 <= i < j < t.len() ==> (#[trigger] t[i]).0 != (#[trigger] t[j]).0
    &&& forall|i: int|
        0 <= i < t.len() ==> (#[trigger] t[i]).1.start <= t[i].1.end && t[i].1.start <= count
            && t[i].1.end <= count + 1
    &&& forall|i: int, j: int|
        0 <= i < j < t.len() ==> (#[trigger] t[i]).1.start <= (#[trigger] t[j]).1.start
}

/// Whether `b` continues `a` from instruction `count` on: the entries of
/// `a` are still there, with the same variable and start and an end that is
/// no earlier, and the entries that `b` has more start at `count` or later.
pub open spec fn spec_grows(a: Table, b: Table, count: int) -> bool {
    &&& a.len() <= b.len()
    &&& forall|i: int|
        0 <= i < a.len() ==> (#[trigger] b[i]).0 == a[i].0 && b[i].1.start == a[i].1.start
            && b[i].1.end >= a[i].1.end
    &&& forall|i: int| a.len() <= i < b.len() ==> (#[trigger] b[i]).1.start >= count
}

/// What `spec_position` finds.
pub proof fn lemma_position(t: Table, v: VarKind)
    ensures
        match spec_position(t, v) {
            Some(i) => 0 <= i < t.len() && t[i].0 == v && forall|j: int|
                0 <= j < i ==> (#[trigger] t[j]).0 != v,
            None => forall|j: int| 0 <= j < t.len() ==> (#[trigger] t[j]).0 != v,
        },
    decreases t.len(),
{
    if t.len() > 0 {
        lemma_position(t.drop_last(), v);
        match spec_position(t.drop_last(), v) {
            Some(i) => {
                assert(t.drop_last()[i] == t[i]);
                assert forall|j: int| 0 <= j < i implies (#[trigger] t[j]).0 != v by {
                    assert(t.drop_last()[j] == t[j]);
                }
            },
            None => {
                assert forall|j: int| 0 <= j < t.len() - 1 implies (#[trigger] t[j]).0 != v by {
                    assert(t.drop_last()[j] == t[j]);
                }
            },
        }
    }
}

/// A definition keeps the table well-formed and continues it.
pub proof fn lemma_def(t: Table, count: usize, v: VarKind, is_fixed: bool, hint: Option<InferredType>)
    requires
        spec_table_wf(t, count as int),
    ensures
        spec_table_wf(spec_def(t, count, v, is_fixed, hint), count as int),
        spec_grows(t, spec_def(t, count, v, is_fixed, hint), count as int),
        spec_position(spec_def(t, count, v, is_fixed, hint), v) is Some,
        spec_def(t, count, v, is_fixed, hint).len() <= t.len() + 1,
{
    lemma_position(t, v);
    let r = spec_def(t, count, v, is_fixed, hint);
    lemma_position(r, v);
    match spec_position(t, v) {
        Some(i) => {
            assert(r[i].0 == v);
        },
        None => {
            assert(r[t.len() as int].0 == v);
        },
    }
}

/// A use keeps the table well-formed and continues it, and the entry of the
/// variable used then ends at `count` or later.
pub proof fn lemma_use(t: Table, count: usize, op: IROperand)
    requires
        spec_table_wf(t, count as int),
    ensures
        spec_table_wf(spec_use(t, count, op), count as int),
        spec_grows(t, spec_use(t, count, op), count as int),
        spec_use(t, count, op).len() == t.len(),
        forall|i: int|
            0 <= i < t.len() && Some((#[trigger] t[i]).0) == spec_var_of(op) ==> spec_use(
                t,
                count,
                op,
            )[i].1.end >= count,
{
    match spec_var_of(op) {
        Some(v) => {
            lemma_position(t, v);
        },
        None => {},
    }
}

/// An extension keeps the table well-formed and continues it.
pub proof fn lemma_extend(t: Table, count: usize, op: IROperand)
    requires
        spec_table_wf(t, count as int),
        count < usize::MAX,
    ensures
        spec_table_wf(spec_extend(t, count, op), count as int),
        spec_grows(t, spec_extend(t, count, op), count as int),
        spec_extend(t, count, op).len() == t.len(),
{
    match op {
        IROperand::Reg(id) => {
            lemma_position(t, VarKind::Reg(id));
        },
        _ => {},
    }
}

/// Setting a type keeps the table well-formed and continues it.
pub proof fn lemma_set_type(t: Table, count: int, op: IROperand, ty: Option<InferredType>)
    requires
        spec_table_wf(t, count),
    ensures
        spec_table_wf(spec_set_type(t, op, ty), count),
        spec_grows(t, spec_set_type(t, op, ty), count),
        spec_set_type(t, op, ty).len() == t.len(),
{
    match op {
        IROperand::Slot(id) => {
            lemma_position(t, VarKind::Slot(id));
        },
        _ => {},
    }
}

/// Using a sequence of operands keeps the table well-formed and continues
/// it, and the entry of every variable among them then ends at `count` or
/// later.
pub proof fn lemma_use_all(t: Table, count: usize, ops: Seq<IROperand>)
    requires
        spec_table_wf(t, count as int),
    ensures
        spec_table_wf(spec_use_all(t, count, ops), count as int),
        spec_grows(t, spec_use_all(t, count, ops), count as int),
        spec_use_all(t, count, ops).len() == t.len(),
        forall|i: int, k: int|
            0 <= i < t.len() && 0 <= k < ops.len() && Some((#[trigger] t[i]).0) == spec_var_of(
                #[trigger] ops[k],
            ) ==> spec_use_all(t, count, ops)[i].1.end >= count,
    decreases ops.len(),
{
    if ops.len() > 0 {
        let t1 = spec_use_all(t, count, ops.drop_last());
        lemma_use_all(t, count, ops.drop_last());
        lemma_use(t1, count, ops.last());
        let r = spec_use_all(t, count, ops);
        assert forall|i: int, k: int|
            0 <= i < t.len() && 0 <= k < ops.len() && Some((#[trigger] t[i]).0) == spec_var_of(
                #[trigger] ops[k],
            ) implies r[i].1.end >= count by {
            if k < ops.len() - 1 {
                assert(ops.drop_last()[k] == ops[k]);
                assert(t1[i].1.end >= count);
            } else {
                assert(t1[i].0 == t[i].0);
            }
        }
    }
}

/// The arguments of a call: as for `lemma_use_all`.
pub proof fn lemma_call_args(t: Table, count: usize, args: Seq<IROperand>)
    requires
        spec_table_wf(t, count as int),
        count < usize::MAX,
    ensures
        spec_table_wf(spec_call_args(t, count, args), count as int),
        spec_grows(t, spec_call_args(t, count, args), count as int),
        spec_call_args(t, count, args).len() == t.len(),
        forall|i: int, k: int|
            0 <= i < t.len() && 0 <= k < args.len() && Some((#[trigger] t[i]).0) == spec_var_of(
                #[trigger] args[k],
            ) ==> spec_call_args(t, count, args)[i].1.end >= count,
    decreases args.len(),
{
    if args.len() > 0 {
        let t1 = spec_call_args(t, count, args.drop_last());
        lemma_call_args(t, count, args.drop_last());
        lemma_use(t1, count, args.last());
        let t2 = spec_use(t1, count, args.last());
        lemma_extend(t2, count, args.last());
        let r = spec_call_args(t, count, args);
        assert forall|i: int, k: int|
            0 <= i < t.len() && 0 <= k < args.len() && Some((#[trigger] t[i]).0) == spec_var_of(
                #[trigger] args[k],
            ) implies r[i].1.end >= count by {
            if k < args.len() - 1 {
                assert(args.drop_last()[k] == args[k]);
                assert(t1[i].1.end >= count);
            } else {
                assert(t1[i].0 == t[i].0);
                assert(t2[i].1.end >= count);
            }
        }
    }
}

/// An instruction keeps the table well-formed and continues it; the
/// register that it defines has an entry afterwards; and the entry of every
/// variable that it reads ends at the instruction's number or later.
pub proof fn lemma_instr(t: Table, count: usize, instr: IRInstruction)
    requires
        spec_table_wf(t, count as int),
        count < usize::MAX,
    ensures
        spec_table_wf(spec_instr(t, count, instr), count as int),
        spec_grows(t, spec_instr(t, count, instr), count as int),
        forall|i: int, k: int|
            0 <= i < spec_instr(t, count, instr).len() && 0 <= k < spec_operands(instr).len()
                && Some((#[trigger] spec_instr(t, count, instr)[i]).0) == spec_var_of(
                #[trigger] spec_operands(instr)[k],
            ) ==> spec_instr(t, count, instr)[i].1.end >= count,
{
    let r = spec_instr(t, count, instr);
    match instr {
        IRInstruction::Drop { src } => {
            lemma_use(t, count, src);
            assert forall|i: int, k: int|
                0 <= i < r.len() && 0 <= k < spec_operands(instr).len() && Some(
                    (#[trigger] r[i]).0,
                ) == spec_var_of(#[trigger] spec_operands(instr)[k]) implies r[i].1.end
                >= count by {
                assert(t[i].0 == r[i].0);
            }
        },
        IRInstruction::StoreLocal { dest, dst, src } => {
            let ty = spec_type_of(t, src);
            let t1 = spec_def(t, count, VarKind::Reg(dest), false, None);
            lemma_def(t, count, VarKind::Reg(dest), false, None);
            let t2 = spec_set_type(t1, dst, ty);
            lemma_set_type(t1, count as int, dst, ty);
            let t3 = spec_use(t2, count, dst);
            lemma_use(t2, count, dst);
            lemma_use(t3, count, src);
            assert forall|i: int, k: int|
                0 <= i < r.len() && 0 <= k < spec_operands(instr).len() && Some(
                    (#[trigger] r[i]).0,
                ) == spec_var_of(#[trigger] spec_operands(instr)[k]) implies r[i].1.end
                >= count by {
                assert(t3[i].0 == r[i].0);
                assert(t2[i].0 == t3[i].0);
                if k == 0 {
                    assert(t3[i].1.end >= count);
                }
            }
        },
        IRInstruction::Call { dest, callee, args } => {
            let t1 = spec_def(t, count, VarKind::Reg(dest), false, None);
            lemma_def(t, count, VarKind::Reg(dest), false, None);
            let t2 = spec_use(t1, count, callee);
            lemma_use(t1, count, callee);
            let t3 = spec_call_args(t2, count, args@);
            lemma_call_args(t2, count, args@);
            lemma_extend(t3, count, callee);
            assert forall|i: int, k: int|
                0 <= i < r.len() && 0 <= k < spec_operands(instr).len() && Some(
                    (#[trigger] r[i]).0,
                ) == spec_var_of(#[trigger] spec_operands(instr)[k]) implies r[i].1.end
                >= count by {
                assert(t3[i].0 == r[i].0);
                assert(t2[i].0 == t3[i].0);
                assert(t1[i].0 == t2[i].0);
                if k == 0 {
                    assert(t2[i].1.end >= count);
                } else {
                    assert(args@[k - 1] == spec_operands(instr)[k]);
                    assert(t3[i].1.end >= count);
                }
            }
        },
        _ => {
            let v = VarKind::Reg(spec_dest(instr)->0);
            let t1 = spec_def(t, count, v, false, spec_hint(instr));
            lemma_def(t, count, v, false, spec_hint(instr));
            lemma_use_all(t1, count, spec_operands(instr));
        },
    }
}

/// A step keeps the table well-formed and continues it, and the entry of
/// every variable that it reads ends at the step's number or later.
pub proof fn lemma_step(t: Table, count: usize, step: Step)
    requires
        spec_table_wf(t, count as int),
        count < usize::MAX,
    ensures
        spec_table_wf(spec_step(t, count, step), count as int),
        spec_grows(t, spec_step(t, count, step), count as int),
        forall|i: int, k: int|
            0 <= i < spec_step(t, count, step).len() && 0 <= k < spec_step_operands(step).len()
                && Some((#[trigger] spec_step(t, count, step)[i]).0) == spec_var_of(
                #[trigger] spec_step_operands(step)[k],
            ) ==> spec_step(t, count, step)[i].1.end >= count,
{
    match step {
        Step::Instr(i) => {
            lemma_instr(t, count, i);
        },
        Step::Term(x) => {
            lemma_use_all(t, count, spec_term_operands(x));
            let r = spec_step(t, count, step);
            assert forall|i: int, k: int|
                0 <= i < r.len() && 0 <= k < spec_step_operands(step).len() && Some(
                    (#[trigger] r[i]).0,
                ) == spec_var_of(#[trigger] spec_step_operands(step)[k]) implies r[i].1.end
                >= count by {
                assert(t[i].0 == r[i].0);
            }
        },
    }
}

/// A well-formed table stays well-formed when the count goes up.
pub proof fn lemma_wf_later(t: Table, a: int, b: int)
    requires
        spec_table_wf(t, a),
        a <= b,
    ensures
        spec_table_wf(t, b),
{
}

/// A run keeps the table well-formed.
pub proof fn lemma_run_wf(t: Table, steps: Seq<Step>)
    requires
        spec_table_wf(t, 0),
        steps.len() < usize::MAX,
    ensures
        spec_table_wf(spec_run(t, steps), steps.len() as int),
    decreases steps.len(),
{
    if steps.len() > 0 {
        lemma_run_wf(t, steps.drop_last());
        lemma_step(spec_run(t, steps.drop_last()), (steps.len() - 1) as usize, steps.last());
        lemma_wf_later(spec_run(t, steps), steps.len() - 1, steps.len() as int);
    }
}

/// The table after the first `n` steps is continued by the table after all
/// of them, from step `n` on.
pub proof fn lemma_run_grows(t: Table, steps: Seq<Step>, n: int)
    requires
        spec_table_wf(t, 0),
        steps.len() < usize::MAX,
        0 <= n <= steps.len(),
    ensures
        spec_grows(spec_run(t, steps.subrange(0, n)), spec_run(t, steps), n),
    decreases steps.len() - n,
{
    if n == steps.len() {
        assert(steps.subrange(0, n) =~= steps);
    } else {
        let mid = spec_run(t, steps.drop_last());
        let start = spec_run(t, steps.subrange(0, n));
        assert(steps.drop_last().subrange(0, n) =~= steps.subrange(0, n));
        lemma_run_grows(t, steps.drop_last(), n);
        lemma_run_wf(t, steps.drop_last());
        lemma_step(mid, (steps.len() - 1) as usize, steps.last());
        let end = spec_run(t, steps);
        assert forall|i: int| 0 <= i < start.len() implies (#[trigger] end[i]).0 == start[i].0
            && end[i].1.start == start[i].1.start && end[i].1.end >= start[i].1.end by {
            assert(mid[i].0 == start[i].0);
        }
        assert forall|i: int| start.len() <= i < end.len() implies (#[trigger] end[i]).1.start
            >= n by {
            if i < mid.len() {
                assert(mid[i].1.start >= n);
            }
        }
    }
}

/// Lifetimes are monotone: every lifetime starts at or before its end, and
/// a variable that step `n` reads is live until step `n` at least.
pub proof fn lemma_lifetime_covers_uses(func: IRFunction, n: int, k: int, e: int)
    requires
        spec_steps(func).len() < usize::MAX,
        0 <= n < spec_steps(func).len(),
        0 <= k < spec_step_operands(spec_steps(func)[n]).len(),
        0 <= e < spec_scan(func).len(),
        Some(spec_scan(func)[e].0) == spec_var_of(spec_step_operands(spec_steps(func)[n])[k]),
    ensures
        spec_scan(func)[e].1.start <= spec_scan(func)[e].1.end,
        spec_scan(func)[e].1.end >= n,
{
    let t0 = spec_entry(func.local_variables@, func.local_variables@.len() as int);
    let steps = spec_steps(func);
    lemma_entry_wf(func.local_variables@, func.local_variables@.len() as int);
    lemma_run_wf(t0, steps);
    let upto = steps.subrange(0, n + 1);
    let at = spec_run(t0, upto);
    lemma_run_grows(t0, steps, n + 1);
    assert(upto.drop_last() =~= steps.subrange(0, n));
    assert(upto.last() == steps[n]);
    lemma_run_wf(t0, upto.drop_last());
    lemma_step(spec_run(t0, upto.drop_last()), n as usize, upto.last());
    let all = spec_scan(func);
    if e >= at.len() {
        assert(all[e].1.start >= n + 1);
        assert(all[e].1.start <= all[e].1.end);
    } else {
        assert(at[e].0 == all[e].0);
        assert(at[e].1.end >= n);
    }
}

/// Every lifetime starts at or before its end, and no variable has two.
pub proof fn lemma_scan_wf(func: IRFunction)
    requires
        spec_steps(func).len() < usize::MAX,
    ensures
        spec_table_wf(spec_scan(func), spec_steps(func).len() as int),
{
    lemma_entry_wf(func.local_variables@, func.local_variables@.len() as int);
    lemma_run_wf(
        spec_entry(func.local_variables@, func.local_variables@.len() as int),
        spec_steps(func),
    );
}

/// The table at function entry is well-formed.
pub proof fn lemma_entry_wf(locals: Seq<(String, usize)>, n: int)
    ensures
        spec_table_wf(spec_entry(locals, n), 0),
    decreases n,
{
    if n > 0 {
        lemma_entry_wf(locals, n - 1);
        lemma_def(spec_entry(locals, n - 1), 0, VarKind::Slot(locals[n - 1].1), true, None);
    }
}

/// The index of the first function with the given name.
pub open spec fn spec_function_index(functions: Seq<FunctionScan>, name: Seq<char>) -> Option<int>
    decreases functions.len(),
{
    if functions.len() == 0 {
        None
    } else {
        match spec_function_index(functions.drop_last(), name) {
            Some(i) => Some(i),
            None => if functions.last().name@ == name {
                Some(functions.len() - 1)
            } else {
                None
            },
        }
    }
}

/// What `spec_function_index` finds.
pub proof fn lemma_function_index(functions: Seq<FunctionScan>, name: Seq<char>)
    ensures
        match spec_function_index(functions, name) {
            Some(i) => 0 <= i < functions.len() && functions[i].name@ == name && forall|j: int|
                0 <= j < i ==> (#[trigger] functions[j]).name@ != name,
            None => forall|j: int| 0 <= j < functions.len() ==> (#[trigger] functions[j]).name@ != name,
        },
    decreases functions.len(),
{
    if functions.len() > 0 {
        lemma_function_index(functions.drop_last(), name);
        match spec_function_index(functions.drop_last(), name) {
            Some(i) => {
                assert(functions.drop_last()[i] == functions[i]);
                assert forall|j: int| 0 <= j < i implies (#[trigger] functions[j]).name@ != name by {
                    assert(functions.drop_last()[j] == functions[j]);
                }
            },
            None => {
                assert forall|j: int| 0 <= j < functions.len() - 1 implies (
                #[trigger] functions[j]).name@ != name by {
                    assert(functions.drop_last()[j] == functions[j]);
                }
            },
        }
    }
}

/// The largest slot number, schedule length and number of locals that the
/// scanner takes: with them every register number fits the machine word.
pub const SCAN_LIMIT: usize = usize::MAX / 16;

/// Whether the scanner takes the function: its schedule, its locals and
/// their slot numbers are within `SCAN_LIMIT`.
pub open spec fn spec_fits(func: IRFunction) -> bool {
    &&& spec_steps(func).len() <= SCAN_LIMIT
    &&& func.local_variables@.len() <= SCAN_LIMIT
    &&& forall|i: int|
        0 <= i < func.local_variables@.len() ==> (#[trigger] func.local_variables@[i]).1
            <= SCAN_LIMIT
}

/// Whether two lifetimes have an instruction in common.
pub open spec fn spec_overlap(a: Lifetime, b: Lifetime) -> bool {
    a.start <= b.end && b.start <= a.end
}

/// Whether register `reg` is taken when the temporary of entry `i` needs
/// one: an earlier temporary has it and is still alive where that of entry
/// `i` starts.
pub open spec fn spec_busy(t: Table, m: Seq<(VarKind, usize)>, i: int, reg: int) -> bool {
    exists|j: int|
        0 <= j < i && (#[trigger] t[j]).0 is Reg && m[j].1 == reg && t[j].1.end >= t[i].1.start
}

/// What the allocator promises of the registers `m` that it gives to the
/// variables of table `t`:
/// every variable has one; a local slot has the register of its own number,
/// below `num_locals`, which is one more than the largest slot number; a
/// temporary has a register at or above `num_locals`, a multiple of `STRIDE`
/// away from it and two strides below `max_stack`; two temporaries whose
/// lifetimes overlap have registers that are `STRIDE` apart or more; and
/// each temporary has the lowest such register that is not taken.
pub open spec fn spec_allocated(
    t: Table,
    m: Seq<(VarKind, usize)>,
    num_locals: usize,
    max_stack: usize,
) -> bool {
    &&& m.len() == t.len()
    &&& forall|i: int| 0 <= i < t.len() ==> (#[trigger] m[i]).0 == t[i].0
    &&& forall|i: int|
        0 <= i < t.len() ==> match (#[trigger] t[i]).0 {
            VarKind::Slot(s) => m[i].1 == s && s < num_locals,
            VarKind::Reg(_) => m[i].1 >= num_locals && (m[i].1 - num_locals) % (STRIDE as int) == 0
                && m[i].1 + 2 * STRIDE <= max_stack,
        }
    &&& num_locals == 0 || exists|i: int|
        0 <= i < t.len() && (#[trigger] t[i]).0 == VarKind::Slot((num_locals - 1) as usize)
    &&& max_stack == num_locals + STRIDE || exists|i: int|
        0 <= i < t.len() && (#[trigger] t[i]).0 is Reg && m[i].1 + 2 * STRIDE == max_stack
    &&& max_stack >= num_locals + STRIDE
    &&& forall|i: int, j: int|
        0 <= i < j < t.len() && (#[trigger] t[i]).0 is Reg && (#[trigger] t[j]).0 is Reg
            && spec_overlap(t[i].1, t[j].1) ==> m[i].1 + STRIDE <= m[j].1 || m[j].1 + STRIDE
            <= m[i].1
    &&& forall|i: int, reg: int|
        0 <= i < t.len() && t[i].0 is Reg && num_locals <= reg < m[i].1 && (reg - num_locals) % (
        STRIDE as int) == 0 ==> #[trigger] spec_busy(t, m, i, reg)
}

/// Whether the place `c` in the row of temporaries' registers is taken
/// when the temporary of entry `i` needs one.
pub open spec fn spec_taken(t: Table, place: Seq<int>, i: int, c: int) -> bool {
    exists|j: int|
        0 <= j < i && (#[trigger] t[j]).0 is Reg && place[j] == c && t[j].1.end >= t[i].1.start
}

/// Two allocations of one table give the first `k` variables the same
/// registers.
pub proof fn lemma_allocated_same_upto(
    t: Table,
    count: int,
    a: Seq<(VarKind, usize)>,
    b: Seq<(VarKind, usize)>,
    num_locals: usize,
    max_a: usize,
    max_b: usize,
    k: int,
)
    requires
        spec_table_wf(t, count),
        spec_allocated(t, a, num_locals, max_a),
        spec_allocated(t, b, num_locals, max_b),
        0 <= k <= t.len(),
    ensures
        forall|i: int| 0 <= i < k ==> a[i] == b[i],
    decreases k,
{
    if k > 0 {
        lemma_allocated_same_upto(t, count, a, b, num_locals, max_a, max_b, k - 1);
        let i = k - 1;
        assert(a[i].0 == t[i].0 && b[i].0 == t[i].0);
        match t[i].0 {
            VarKind::Slot(_) => {},
            VarKind::Reg(_) => {
                if a[i].1 < b[i].1 {
                    assert(spec_busy(t, b, i, a[i].1 as int));
                    let j = choose|j: int|
                        0 <= j < i && (#[trigger] t[j]).0 is Reg && b[j].1 == a[i].1 && t[j].1.end
                            >= t[i].1.start;
                    assert(a[j] == b[j]);
                    assert(spec_overlap(t[j].1, t[i].1));
                } else if b[i].1 < a[i].1 {
                    assert(spec_busy(t, a, i, b[i].1 as int));
                    let j = choose|j: int|
                        0 <= j < i && (#[trigger] t[j]).0 is Reg && a[j].1 == b[i].1 && t[j].1.end
                            >= t[i].1.start;
                    assert(a[j] == b[j]);
                    assert(spec_overlap(t[j].1, t[i].1));
                }
            },
        }
    }
}

/// The allocator's promise leaves no choice: two allocations of one
/// table are the same, with the same number of locals and the same frame
/// size.
pub proof fn lemma_allocated_unique(
    t: Table,
    count: int,
    a: Seq<(VarKind, usize)>,
    b: Seq<(VarKind, usize)>,
    locals_a: usize,
    locals_b: usize,
    max_a: usize,
    max_b: usize,
)
    requires
        spec_table_wf(t, count),
        spec_allocated(t, a, locals_a, max_a),
        spec_allocated(t, b, locals_b, max_b),
    ensures
        a == b,
        locals_a == locals_b,
        max_a == max_b,
{
    if locals_a > locals_b {
        let i = choose|i: int|
            0 <= i < t.len() && (#[trigger] t[i]).0 == VarKind::Slot((locals_a - 1) as usize);
        assert(b[i].0 == t[i].0);
    } else if locals_b > locals_a {
        let i = choose|i: int|
            0 <= i < t.len() && (#[trigger] t[i]).0 == VarKind::Slot((locals_b - 1) as usize);
        assert(a[i].0 == t[i].0);
    }
    lemma_allocated_same_upto(t, count, a, b, locals_a, max_a, max_b, t.len() as int);
    assert(a =~= b);
    if max_a < max_b {
        let i = choose|i: int|
            0 <= i < t.len() && (#[trigger] t[i]).0 is Reg && b[i].1 + 2 * STRIDE == max_b;
        assert(a[i].1 + 2 * STRIDE <= max_a);
    } else if max_b < max_a {
        let i = choose|i: int|
            0 <= i < t.len() && (#[trigger] t[i]).0 is Reg && a[i].1 + 2 * STRIDE == max_a;
        assert(b[i].1 + 2 * STRIDE <= max_b);
    }
}

/// The names as contracts see them.
pub open spec fn spec_names(v: Seq<String>) -> Seq<Seq<char>> {
    v.map_values(|s: String| s@)
}

/// The global names after an instruction: a `LoadGlobal` whose name is an
/// immediate string adds it, unless it is there already.
pub open spec fn spec_globals_after(names: Seq<Seq<char>>, instr: IRInstruction) -> Seq<Seq<char>> {
    match instr {
        IRInstruction::LoadGlobal { name: IROperand::ImmStr(s), .. } => if names.contains(s@) {
            names
        } else {
            names.push(s@)
        },
        _ => names,
    }
}

/// The schedule of `b` blocks is the schedule of one block less, that block's
/// instructions and its terminator.
pub proof fn lemma_schedule_len(blocks: Seq<IRBasicBlock>, b: int)
    requires
        0 < b <= blocks.len(),
    ensures
        spec_schedule(blocks, b).len() == spec_schedule(blocks, b - 1).len() + blocks[b
            - 1].instructions@.len() + 1,
        spec_schedule(blocks, b - 1).len() >= 0,
{
}

/// A step adds one entry to the table at most.
pub proof fn lemma_step_len(t: Table, count: usize, step: Step)
    requires
        spec_table_wf(t, count as int),
        count < usize::MAX,
    ensures
        spec_step(t, count, step).len() <= t.len() + 1,
{
    match step {
        Step::Instr(instr) => {
            match instr {
                IRInstruction::Drop { src } => {
                    lemma_use(t, count, src);
                },
                IRInstruction::StoreLocal { dest, dst, src } => {
                    let ty = spec_type_of(t, src);
                    let t1 = spec_def(t, count, VarKind::Reg(dest), false, None);
                    lemma_def(t, count, VarKind::Reg(dest), false, None);
                    let t2 = spec_set_type(t1, dst, ty);
                    lemma_set_type(t1, count as int, dst, ty);
                    let t3 = spec_use(t2, count, dst);
                    lemma_use(t2, count, dst);
                    lemma_use(t3, count, src);
                },
                IRInstruction::Call { dest, callee, args } => {
                    let t1 = spec_def(t, count, VarKind::Reg(dest), false, None);
                    lemma_def(t, count, VarKind::Reg(dest), false, None);
                    let t2 = spec_use(t1, count, callee);
                    lemma_use(t1, count, callee);
                    let t3 = spec_call_args(t2, count, args@);
                    lemma_call_args(t2, count, args@);
                    lemma_extend(t3, count, callee);
                },
                _ => {
                    let v = VarKind::Reg(spec_dest(instr)->0);
                    let t1 = spec_def(t, count, v, false, spec_hint(instr));
                    lemma_def(t, count, v, false, spec_hint(instr));
                    lemma_use_all(t1, count, spec_operands(instr));
                },
            }
        },
        Step::Term(x) => {
            lemma_use_all(t, count, spec_term_operands(x));
        },
    }
}

/// A run adds one entry for each step at most.
pub proof fn lemma_run_len(t: Table, steps: Seq<Step>)
    requires
        spec_table_wf(t, 0),
        steps.len() < usize::MAX,
    ensures
        spec_run(t, steps).len() <= t.len() + steps.len(),
    decreases steps.len(),
{
    if steps.len() > 0 {
        lemma_run_len(t, steps.drop_last());
        lemma_run_wf(t, steps.drop_last());
        lemma_step_len(spec_run(t, steps.drop_last()), (steps.len() - 1) as usize, steps.last());
    }
}

/// The table at entry has one entry for each local at most, and its slot
/// numbers are those of the locals.
pub proof fn lemma_entry_len(locals: Seq<(String, usize)>, n: int)
    requires
        0 <= n <= locals.len(),
    ensures
        spec_entry(locals, n).len() <= n,
        forall|i: int|
            0 <= i < spec_entry(locals, n).len() ==> exists|j: int|
                0 <= j < n && (#[trigger] spec_entry(locals, n)[i]).0 == VarKind::Slot(
                    (#[trigger] locals[j]).1,
                ),
    decreases n,
{
    if n > 0 {
        lemma_entry_len(locals, n - 1);
        let t = spec_entry(locals, n - 1);
        let v = VarKind::Slot(locals[n - 1].1);
        lemma_position(t, v);
        let r = spec_entry(locals, n);
        assert forall|i: int| 0 <= i < r.len() implies exists|j: int|
            0 <= j < n && (#[trigger] r[i]).0 == VarKind::Slot((#[trigger] locals[j]).1) by {
            if i < t.len() {
                assert(r[i].0 == t[i].0);
                let j = choose|j: int|
                    0 <= j < n - 1 && t[i].0 == VarKind::Slot((#[trigger] locals[j]).1);
                assert(r[i].0 == VarKind::Slot(locals[j].1));
            } else {
                assert(r[i].0 == VarKind::Slot(locals[n - 1].1));
            }
        }
    }
}

impl FunctionScan {
    /// The register of a variable, if it has one.
    pub open spec fn spec_phys_reg(&self, v: VarKind) -> Option<usize> {
        if exists|i: int| 0 <= i < self.reg_map@.len() && (#[trigger] self.reg_map@[i]).0 == v {
            let i = choose|i: int| 0 <= i < self.reg_map@.len() && (#[trigger] self.reg_map@[i]).0 == v;
            Some(self.reg_map@[i].1)
        } else {
            None
        }
    }

    /// Whether no variable has two registers.
    pub open spec fn distinct_keys(&self) -> bool {
        forall|i: int, j: int|
            0 <= i < j < self.reg_map@.len() ==> (#[trigger] self.reg_map@[i]).0 != (
            #[trigger] self.reg_map@[j]).0
    }

    /// The register of a variable, if it has one.
    pub fn phys_reg(&self, v: VarKind) -> (r: Option<usize>)
        requires
            self.distinct_keys(),
        ensures
            r == self.spec_phys_reg(v),
    {
        let mut i: usize = 0;
        while i < self.reg_map.len()
            invariant
                i <= self.reg_map.len(),
                self.distinct_keys(),
                forall|j: int| 0 <= j < i ==> (#[trigger] self.reg_map@[j]).0 != v,
            decreases self.reg_map.len() - i,
        {
            if self.reg_map[i].0 == v {
                proof {
                    let k = choose|k: int|
                        0 <= k < self.reg_map@.len() && (#[trigger] self.reg_map@[k]).0 == v;
                    if k < i {
                        assert(self.reg_map@[k].0 != v);
                    } else if k > i {
                        assert(self.reg_map@[i as int].0 != self.reg_map@[k].0);
                    }
                }
                return Some(self.reg_map[i].1);
            }
            i += 1;
        }
        None
    }

    /// The lifetime of a variable, if it has one.
    pub fn lifetime_of(&self, v: VarKind) -> (r: Option<Lifetime>)
        ensures
            r == match spec_position(self.lifetimes@, v) {
                Some(i) => Some(self.lifetimes@[i].1),
                None => None,
            },
    {
        let mut i: usize = 0;
        proof {
            lemma_position(self.lifetimes@, v);
        }
        while i < self.lifetimes.len()
            invariant
                i <= self.lifetimes.len(),
                forall|j: int| 0 <= j < i ==> (#[trigger] self.lifetimes@[j]).0 != v,
            decreases self.lifetimes.len() - i,
        {
            if self.lifetimes[i].0 == v {
                proof {
                    lemma_position(self.lifetimes@, v);
                    let t = self.lifetimes@;
                    assert(t[i as int].0 == v);
                    match spec_position(t, v) {
                        Some(k) => {
                            if k < i {
                                assert(t[k].0 != v);
                            }
                        },
                        None => {},
                    }
                }
                return Some(self.lifetimes[i].1);
            }
            i += 1;
        }
        None
    }
}

impl Scanner {
    /// The scanner's invariant: no variable of a scanned function has two
    /// registers.
    pub open spec fn wf(&self) -> bool {
        forall|i: int| 0 <= i < self.functions@.len() ==> (#[trigger] self.functions@[i]).distinct_keys()
    }

    /// The index of the first scanned function with the given name.
    pub open spec fn spec_find_function(&self, name: Seq<char>) -> Option<int> {
        spec_function_index(self.functions@, name)
    }

    /// The index of the first scanned function with the given name.
    pub fn find_function(&self, name: &String) -> (r: Option<usize>)
        ensures
            match r {
                Some(i) => i < self.functions@.len() && self.spec_find_function(name@) == Some(
                    i as int,
                ),
                None => self.spec_find_function(name@) is None,
            },
    {
        proof {
            lemma_function_index(self.functions@, name@);
        }
        let mut i: usize = 0;
        while i < self.functions.len()
            invariant
                i <= self.functions.len(),
                forall|j: int| 0 <= j < i ==> (#[trigger] self.functions@[j]).name@ != name@,
            decreases self.functions.len() - i,
        {
            if self.functions[i].name == *name {
                proof {
                    lemma_function_index(self.functions@, name@);
                    match spec_function_index(self.functions@, name@) {
                        Some(k) => {
                            if k < i {
                                assert(self.functions@[k].name@ != name@);
                            }
                        },
                        None => {},
                    }
                }
                return Some(i);
            }
            i += 1;
        }
        None
    }

    pub fn new() -> (r: Self)
        ensures
            r.wf(),
            r.functions@.len() == 0,
            r.global_vars@.len() == 0,
            r.lifetimes@.len() == 0,
            r.instr_count == 0,
    {
        Scanner {
            functions: Vec::new(),
            global_vars: Vec::new(),
            lifetimes: Vec::new(),
            instr_count: 0,
        }
    }

    /// The index of the variable's entry in the table of the function that
    /// is being scanned.
    pub fn find(&self, v: VarKind) -> (r: Option<usize>)
        ensures
            match r {
                Some(i) => i < self.lifetimes@.len() && spec_position(self.lifetimes@, v) == Some(
                    i as int,
                ),
                None => spec_position(self.lifetimes@, v) is None,
            },
    {
        proof {
            lemma_position(self.lifetimes@, v);
        }
        let mut i: usize = 0;
        while i < self.lifetimes.len()
            invariant
                i <= self.lifetimes.len(),
                forall|j: int| 0 <= j < i ==> (#[trigger] self.lifetimes@[j]).0 != v,
            decreases self.lifetimes.len() - i,
        {
            if self.lifetimes[i].0 == v {
                proof {
                    lemma_position(self.lifetimes@, v);
                    let t = self.lifetimes@;
                    assert(t[i as int].0 == v);
                    match spec_position(t, v) {
                        Some(k) => {
                            if k < i {
                                assert(t[k].0 != v);
                            }
                        },
                        None => {},
                    }
                }
                return Some(i);
            }
            i += 1;
        }
        None
    }

    /// Records a definition of `var` at the current instruction.
    pub fn record_def(&mut self, var: VarKind, is_fixed: bool, type_hint: Option<InferredType>)
        ensures
            final(self).lifetimes@ == spec_def(
                old(self).lifetimes@,
                old(self).instr_count,
                var,
                is_fixed,
                type_hint,
            ),
            final(self).instr_count == old(self).instr_count,
            final(self).functions == old(self).functions,
            final(self).global_vars == old(self).global_vars,
    {
        match self.find(var) {
            Some(i) => {
                let lt = self.lifetimes[i].1;
                let start = if lt.start <= self.instr_count {
                    lt.start
                } else {
                    self.instr_count
                };
                let inferred_type = if lt.inferred_type.is_none() {
                    type_hint
                } else {
                    lt.inferred_type
                };
                self.lifetimes[i] = (
                    var,
                    Lifetime { start, end: lt.end, is_fixed: lt.is_fixed, inferred_type },
                );
            },
            None => {
                self.lifetimes.push(
                    (
                        var,
                        Lifetime {
                            start: self.instr_count,
                            end: self.instr_count,
                            is_fixed,
                            inferred_type: type_hint,
                        },
                    ),
                );
            },
        }
    }

    /// The variable that an operand names, if it names one.
    pub fn var_of(operand: &IROperand) -> (r: Option<VarKind>)
        ensures
            r == spec_var_of(*operand),
    {
        match operand {
            IROperand::Reg(id) => Some(VarKind::Reg(*id)),
            IROperand::Slot(id) => Some(VarKind::Slot(*id)),
            _ => None,
        }
    }

    fn set_end(&mut self, i: usize, end: usize)
        requires
            i < old(self).lifetimes@.len(),
        ensures
            final(self).lifetimes@ == spec_with_end(old(self).lifetimes@, i as int, end),
            final(self).instr_count == old(self).instr_count,
            final(self).functions == old(self).functions,
            final(self).global_vars == old(self).global_vars,
    {
        let e = self.lifetimes[i];
        self.lifetimes[i] = (
            e.0,
            Lifetime {
                start: e.1.start,
                end,
                is_fixed: e.1.is_fixed,
                inferred_type: e.1.inferred_type,
            },
        );
    }

    /// Records a use of the operand at the current instruction.
    pub fn record_use(&mut self, operand: &IROperand)
        ensures
            final(self).lifetimes@ == spec_use(
                old(self).lifetimes@,
                old(self).instr_count,
                *operand,
            ),
            final(self).instr_count == old(self).instr_count,
            final(self).functions == old(self).functions,
            final(self).global_vars == old(self).global_vars,
    {
        match Self::var_of(operand) {
            Some(v) => {
                match self.find(v) {
                    Some(i) => {
                        let end = if self.lifetimes[i].1.end >= self.instr_count {
                            self.lifetimes[i].1.end
                        } else {
                            self.instr_count
                        };
                        self.set_end(i, end);
                    },
                    None => {},
                }
            },
            None => {},
        }
    }

    /// Keeps a register that is handed to the call at the current
    /// instruction live until the instruction after it.
    fn extend_past_call(&mut self, operand: &IROperand)
        requires
            old(self).instr_count < usize::MAX,
        ensures
            final(self).lifetimes@ == spec_extend(
                old(self).lifetimes@,
                old(self).instr_count,
                *operand,
            ),
            final(self).instr_count == old(self).instr_count,
            final(self).functions == old(self).functions,
            final(self).global_vars == old(self).global_vars,
    {
        match operand {
            IROperand::Reg(id) => {
                match self.find(VarKind::Reg(*id)) {
                    Some(i) => {
                        let end = self.instr_count + 1;
                        self.set_end(i, end);
                    },
                    None => {},
                }
            },
            _ => {},
        }
    }

    fn type_of(&self, operand: &IROperand) -> (r: Option<InferredType>)
        ensures
            r == spec_type_of(self.lifetimes@, *operand),
    {
        match operand {
            IROperand::Reg(id) => {
                match self.find(VarKind::Reg(*id)) {
                    Some(i) => self.lifetimes[i].1.inferred_type,
                    None => None,
                }
            },
            _ => None,
        }
    }

    fn set_type(&mut self, operand: &IROperand, ty: Option<InferredType>)
        ensures
            final(self).lifetimes@ == spec_set_type(old(self).lifetimes@, *operand, ty),
            final(self).instr_count == old(self).instr_count,
            final(self).functions == old(self).functions,
            final(self).global_vars == old(self).global_vars,
    {
        match (operand, ty) {
            (IROperand::Slot(id), Some(x)) => {
                match self.find(VarKind::Slot(*id)) {
                    Some(i) => {
                        let e = self.lifetimes[i];
                        self.lifetimes[i] = (
                            e.0,
                            Lifetime {
                                start: e.1.start,
                                end: e.1.end,
                                is_fixed: e.1.is_fixed,
                                inferred_type: Some(x),
                            },
                        );
                    },
                    None => {},
                }
            },
            _ => {},
        }
    }

    fn use_two(&mut self, dest: usize, hint: Option<InferredType>, a: &IROperand, b: &IROperand)
        ensures
            final(self).lifetimes@ == spec_use_all(
                spec_def(
                    old(self).lifetimes@,
                    old(self).instr_count,
                    VarKind::Reg(dest),
                    false,
                    hint,
                ),
                old(self).instr_count,
                seq![*a, *b],
            ),
            final(self).instr_count == old(self).instr_count,
            final(self).functions == old(self).functions,
            final(self).global_vars == old(self).global_vars,
    {
        self.record_def(VarKind::Reg(dest), false, hint);
        self.record_use(a);
        self.record_use(b);
        proof {
            let ops = seq![*a, *b];
            assert(ops.drop_last() =~= seq![*a]);
            assert(seq![*a].drop_last() =~= Seq::<IROperand>::empty());
            reveal_with_fuel(spec_use_all, 3);
        }
    }

    fn use_one(&mut self, dest: usize, hint: Option<InferredType>, a: &IROperand)
        ensures
            final(self).lifetimes@ == spec_use_all(
                spec_def(
                    old(self).lifetimes@,
                    old(self).instr_count,
                    VarKind::Reg(dest),
                    false,
                    hint,
                ),
                old(self).instr_count,
                seq![*a],
            ),
            final(self).instr_count == old(self).instr_count,
            final(self).functions == old(self).functions,
            final(self).global_vars == old(self).global_vars,
    {
        self.record_def(VarKind::Reg(dest), false, hint);
        self.record_use(a);
        proof {
            assert(seq![*a].drop_last() =~= Seq::<IROperand>::empty());
            reveal_with_fuel(spec_use_all, 2);
        }
    }

    fn use_three(
        &mut self,
        dest: usize,
        hint: Option<InferredType>,
        a: &IROperand,
        b: &IROperand,
        c: &IROperand,
    )
        ensures
            final(self).lifetimes@ == spec_use_all(
                spec_def(
                    old(self).lifetimes@,
                    old(self).instr_count,
                    VarKind::Reg(dest),
                    false,
                    hint,
                ),
                old(self).instr_count,
                seq![*a, *b, *c],
            ),
            final(self).instr_count == old(self).instr_count,
            final(self).functions == old(self).functions,
            final(self).global_vars == old(self).global_vars,
    {
        self.record_def(VarKind::Reg(dest), false, hint);
        self.record_use(a);
        self.record_use(b);
        self.record_use(c);
        proof {
            let ops = seq![*a, *b, *c];
            assert(ops.drop_last() =~= seq![*a, *b]);
            assert(seq![*a, *b].drop_last() =~= seq![*a]);
            assert(seq![*a].drop_last() =~= Seq::<IROperand>::empty());
            reveal_with_fuel(spec_use_all, 4);
        }
    }

    /// Records every operand of the sequence as used.
    fn use_operands(&mut self, ops: &Vec<IROperand>)
        ensures
            final(self).lifetimes@ == spec_use_all(
                old(self).lifetimes@,
                old(self).instr_count,
                ops@,
            ),
            final(self).instr_count == old(self).instr_count,
            final(self).functions == old(self).functions,
            final(self).global_vars == old(self).global_vars,
    {
        let mut i: usize = 0;
        while i < ops.len()
            invariant
                i <= ops.len(),
                self.lifetimes@ == spec_use_all(
                    old(self).lifetimes@,
                    old(self).instr_count,
                    ops@.subrange(0, i as int),
                ),
                self.instr_count == old(self).instr_count,
                self.functions == old(self).functions,
                self.global_vars == old(self).global_vars,
            decreases ops.len() - i,
        {
            self.record_use(&ops[i]);
            proof {
                assert(ops@.subrange(0, i + 1).drop_last() =~= ops@.subrange(0, i as int));
            }
            i += 1;
        }
        proof {
            assert(ops@.subrange(0, ops@.len() as int) =~= ops@);
        }
    }

    fn note_global(&mut self, name: &String)
        ensures
            spec_names(final(self).global_vars@) == if spec_names(old(self).global_vars@).contains(
                name@,
            ) {
                spec_names(old(self).global_vars@)
            } else {
                spec_names(old(self).global_vars@).push(name@)
            },
            final(self).lifetimes == old(self).lifetimes,
            final(self).instr_count == old(self).instr_count,
            final(self).functions == old(self).functions,
    {
        let mut i: usize = 0;
        while i < self.global_vars.len()
            invariant
                i <= self.global_vars.len(),
                forall|j: int| 0 <= j < i ==> (#[trigger] self.global_vars@[j])@ != name@,
            decreases self.global_vars.len() - i,
        {
            if self.global_vars[i] == *name {
                proof {
                    assert(spec_names(self.global_vars@)[i as int] == name@);
                }
                return ;
            }
            i += 1;
        }
        proof {
            let names = spec_names(self.global_vars@);
            if names.contains(name@) {
                let k = choose|k: int| 0 <= k < names.len() && names[k] == name@;
                assert(self.global_vars@[k]@ == name@);
            }
        }
        self.global_vars.push(name.clone());
        proof {
            assert(spec_names(self.global_vars@) =~= spec_names(old(self).global_vars@).push(name@));
        }
    }

    /// Scans one instruction, which has the current number.
    pub fn process_instr(&mut self, instr: &IRInstruction)
        requires
            old(self).instr_count < usize::MAX,
        ensures
            final(self).lifetimes@ == spec_instr(
                old(self).lifetimes@,
                old(self).instr_count,
                *instr,
            ),
            spec_names(final(self).global_vars@) == spec_globals_after(
                spec_names(old(self).global_vars@),
                *instr,
            ),
            final(self).instr_count == old(self).instr_count,
            final(self).functions == old(self).functions,
    {
        match instr {
            IRInstruction::LoadImm { dest, value } => {
                let hint = match value {
                    IROperand::ImmFloat(_) => InferredType::Float,
                    IROperand::ImmStr(_) => InferredType::String,
                    IROperand::ImmBool(_) => InferredType::Boolean,
                    IROperand::Nil => InferredType::Nil,
                    _ => InferredType::Dynamic,
                };
                self.record_def(VarKind::Reg(*dest), false, Some(hint));
                proof {
                    assert(spec_operands(*instr) =~= Seq::<IROperand>::empty());
                }
            },
            IRInstruction::LoadLocal { dest, src } => {
                self.use_one(*dest, None, src);
            },
            IRInstruction::StoreLocal { dest, dst, src } => {
                let ty = self.type_of(src);
                self.record_def(VarKind::Reg(*dest), false, None);
                self.set_type(dst, ty);
                self.record_use(dst);
                self.record_use(src);
            },
            IRInstruction::Binary { dest, src1, src2, .. } => {
                self.use_two(*dest, None, src1, src2);
            },
            IRInstruction::Unary { dest, src, .. } => {
                self.use_one(*dest, None, src);
            },
            IRInstruction::Call { dest, callee, args } => {
                self.record_def(VarKind::Reg(*dest), false, None);
                self.record_use(callee);
                let ghost t2 = self.lifetimes@;
                let mut i: usize = 0;
                while i < args.len()
                    invariant
                        i <= args.len(),
                        self.lifetimes@ == spec_call_args(
                            t2,
                            old(self).instr_count,
                            args@.subrange(0, i as int),
                        ),
                        self.instr_count == old(self).instr_count,
                        self.instr_count < usize::MAX,
                        self.functions == old(self).functions,
                        self.global_vars == old(self).global_vars,
                    decreases args.len() - i,
                {
                    self.record_use(&args[i]);
                    self.extend_past_call(&args[i]);
                    proof {
                        assert(args@.subrange(0, i + 1).drop_last() =~= args@.subrange(0, i as int));
                    }
                    i += 1;
                }
                proof {
                    assert(args@.subrange(0, args@.len() as int) =~= args@);
                }
                self.extend_past_call(callee);
            },
            IRInstruction::LoadGlobal { dest, name } => {
                self.use_one(*dest, None, name);
                match name {
                    IROperand::ImmStr(s) => {
                        self.note_global(s);
                    },
                    _ => {},
                }
            },
            IRInstruction::StoreGlobal { dest, name, src } => {
                self.use_two(*dest, None, name, src);
            },
            IRInstruction::LoadUpVal { dest, src } => {
                self.use_one(*dest, None, src);
            },
            IRInstruction::Drop { src } => {
                self.record_use(src);
            },
            IRInstruction::NewTable { dest, size_array, size_hash } => {
                self.use_two(*dest, Some(InferredType::Table), size_array, size_hash);
            },
            IRInstruction::SetTable { dest, table, key, value } => {
                self.use_three(*dest, None, table, key, value);
            },
            IRInstruction::GetTable { dest, table, key } => {
                self.use_two(*dest, None, table, key);
            },
            IRInstruction::IndexOf { dest, collection, index } => {
                self.use_two(*dest, None, collection, index);
            },
            IRInstruction::SetIndex { dest, collection, index, value } => {
                self.use_three(*dest, None, collection, index, value);
            },
            IRInstruction::MemberOf { dest, collection, member } => {
                self.use_two(*dest, None, collection, member);
            },
            IRInstruction::SetMember { dest, collection, member, value } => {
                self.use_three(*dest, None, collection, member, value);
            },
            IRInstruction::FnProto { dest, func_proto } => {
                self.use_one(*dest, Some(InferredType::Function), func_proto);
            },
        }
    }

    /// Scans a terminator, which has the current number.
    pub fn process_terminator(&mut self, term: &IRTerminator)
        ensures
            final(self).lifetimes@ == spec_term(
                old(self).lifetimes@,
                old(self).instr_count,
                *term,
            ),
            final(self).instr_count == old(self).instr_count,
            final(self).functions == old(self).functions,
            final(self).global_vars == old(self).global_vars,
    {
        match term {
            IRTerminator::Return(ops) => {
                self.use_operands(ops);
            },
            IRTerminator::Branch { cond, .. } => {
                self.record_use(cond);
                proof {
                    assert(seq![*cond].drop_last() =~= Seq::<IROperand>::empty());
                    reveal_with_fuel(spec_use_all, 2);
                }
            },
            _ => {},
        }
    }
}

/// The schedule grows with the number of blocks.
pub proof fn lemma_schedule_mono(blocks: Seq<IRBasicBlock>, b: int, n: int)
    requires
        0 <= b <= n <= blocks.len(),
    ensures
        spec_schedule(blocks, b).len() <= spec_schedule(blocks, n).len(),
        b < n ==> spec_schedule(blocks, b).len() + blocks[b].instructions@.len() + 1
            <= spec_schedule(blocks, n).len(),
    decreases n - b,
{
    if b < n {
        lemma_schedule_mono(blocks, b, n - 1);
        lemma_schedule_len(blocks, n);
    }
}

/// The global names after the steps.
pub open spec fn spec_globals_run(names: Seq<Seq<char>>, steps: Seq<Step>) -> Seq<Seq<char>>
    decreases steps.len(),
{
    if steps.len() == 0 {
        names
    } else {
        match steps.last() {
            Step::Instr(i) => spec_globals_after(spec_globals_run(names, steps.drop_last()), i),
            Step::Term(_) => spec_globals_run(names, steps.drop_last()),
        }
    }
}

/// The bounds under which the allocator works: the table is well-formed,
/// and its length and slot numbers leave room for every register number.
pub open spec fn spec_allocatable(t: Table, count: int) -> bool {
    &&& spec_table_wf(t, count)
    &&& t.len() <= 2 * SCAN_LIMIT
    &&& forall|i: int| 0 <= i < t.len() ==> ((#[trigger] t[i]).0 matches VarKind::Slot(s) ==> s <= SCAN_LIMIT)
}

/// A function that fits has a table that the allocator can work on.
pub proof fn lemma_fits_allocatable(func: IRFunction)
    requires
        spec_fits(func),
    ensures
        spec_allocatable(spec_scan(func), spec_steps(func).len() as int),
{
    let locals = func.local_variables@;
    let t0 = spec_entry(locals, locals.len() as int);
    let steps = spec_steps(func);
    lemma_scan_wf(func);
    lemma_entry_wf(locals, locals.len() as int);
    lemma_entry_len(locals, locals.len() as int);
    lemma_run_len(t0, steps);
    lemma_run_grows(t0, steps, 0);
    assert(steps.subrange(0, 0) =~= Seq::<Step>::empty());
    let t = spec_scan(func);
    assert forall|i: int| 0 <= i < t.len() implies ((#[trigger] t[i]).0 matches VarKind::Slot(s) ==> s
        <= SCAN_LIMIT) by {
        if i < t0.len() {
            assert(t[i].0 == t0[i].0);
            let j = choose|j: int|
                0 <= j < locals.len() && t0[i].0 == VarKind::Slot((#[trigger] locals[j]).1);
        } else {
            lemma_run_slots(t0, steps, i);
        }
    }
}

/// The entries that a run adds are registers.
pub proof fn lemma_run_slots(t: Table, steps: Seq<Step>, i: int)
    requires
        spec_table_wf(t, 0),
        steps.len() < usize::MAX,
        t.len() <= i < spec_run(t, steps).len(),
    ensures
        spec_run(t, steps)[i].0 is Reg,
    decreases steps.len(),
{
    if steps.len() > 0 {
        let mid = spec_run(t, steps.drop_last());
        lemma_run_wf(t, steps.drop_last());
        lemma_run_grows(t, steps.drop_last(), 0);
        assert(steps.drop_last().subrange(0, 0) =~= Seq::<Step>::empty());
        let count = (steps.len() - 1) as usize;
        lemma_step(mid, count, steps.last());
        let r = spec_run(t, steps);
        if i < mid.len() {
            lemma_run_slots(t, steps.drop_last(), i);
            assert(r[i].0 == mid[i].0);
        } else {
            lemma_step_new_is_reg(mid, count, steps.last(), i);
        }
    }
}

/// The entry that a step adds is a register.
pub proof fn lemma_step_new_is_reg(t: Table, count: usize, step: Step, i: int)
    requires
        spec_table_wf(t, count as int),
        count < usize::MAX,
        t.len() <= i < spec_step(t, count, step).len(),
    ensures
        spec_step(t, count, step)[i].0 is Reg,
{
    match step {
        Step::Instr(instr) => {
            match instr {
                IRInstruction::Drop { src } => {
                    lemma_use(t, count, src);
                },
                IRInstruction::StoreLocal { dest, dst, src } => {
                    let ty = spec_type_of(t, src);
                    let t1 = spec_def(t, count, VarKind::Reg(dest), false, None);
                    lemma_def(t, count, VarKind::Reg(dest), false, None);
                    lemma_position(t, VarKind::Reg(dest));
                    let t2 = spec_set_type(t1, dst, ty);
                    lemma_set_type(t1, count as int, dst, ty);
                    let t3 = spec_use(t2, count, dst);
                    lemma_use(t2, count, dst);
                    lemma_use(t3, count, src);
                    assert(t1[i].0 is Reg);
                    assert(t2[i].0 == t1[i].0);
                    assert(t3[i].0 == t2[i].0);
                },
                IRInstruction::Call { dest, callee, args } => {
                    let t1 = spec_def(t, count, VarKind::Reg(dest), false, None);
                    lemma_def(t, count, VarKind::Reg(dest), false, None);
                    lemma_position(t, VarKind::Reg(dest));
                    let t2 = spec_use(t1, count, callee);
                    lemma_use(t1, count, callee);
                    let t3 = spec_call_args(t2, count, args@);
                    lemma_call_args(t2, count, args@);
                    lemma_extend(t3, count, callee);
                    assert(t1[i].0 is Reg);
                    assert(t2[i].0 == t1[i].0);
                    assert(t3[i].0 == t2[i].0);
                },
                _ => {
                    let v = VarKind::Reg(spec_dest(instr)->0);
                    let t1 = spec_def(t, count, v, false, spec_hint(instr));
                    lemma_def(t, count, v, false, spec_hint(instr));
                    lemma_position(t, v);
                    lemma_use_all(t1, count, spec_operands(instr));
                    assert(t1[i].0 is Reg);
                },
            }
        },
        Step::Term(x) => {
            lemma_use_all(t, count, spec_term_operands(x));
        },
    }
}

impl Scanner {
    /// Whether the scanner takes the function; see [`spec_fits`].
    pub fn fits(func: &IRFunction) -> (r: bool)
        ensures
            r == spec_fits(*func),
    {
        if func.local_variables.len() > SCAN_LIMIT {
            return false;
        }
        let mut i: usize = 0;
        while i < func.local_variables.len()
            invariant
                i <= func.local_variables.len(),
                forall|j: int|
                    0 <= j < i ==> (#[trigger] func.local_variables@[j]).1 <= SCAN_LIMIT,
            decreases func.local_variables.len() - i,
        {
            if func.local_variables[i].1 > SCAN_LIMIT {
                return false;
            }
            i += 1;
        }
        let mut total: usize = 0;
        let mut b: usize = 0;
        while b < func.basic_blocks.len()
            invariant
                b <= func.basic_blocks.len(),
                total == spec_schedule(func.basic_blocks@, b as int).len(),
                total <= SCAN_LIMIT,
            decreases func.basic_blocks.len() - b,
        {
            let n = func.basic_blocks[b].instructions.len();
            proof {
                lemma_schedule_len(func.basic_blocks@, b + 1);
                lemma_schedule_mono(
                    func.basic_blocks@,
                    b + 1,
                    func.basic_blocks@.len() as int,
                );
            }
            if n >= SCAN_LIMIT || total > SCAN_LIMIT - n - 1 {
                return false;
            }
            total = total + n + 1;
            b += 1;
        }
        true
    }

    /// Computes the lifetimes of the function's variables; see
    /// [`spec_scan`] and [`lemma_lifetime_covers_uses`].
    pub fn scan_lifetimes(&mut self, func: &IRFunction)
        requires
            spec_steps(*func).len() < usize::MAX,
        ensures
            final(self).lifetimes@ == spec_scan(*func),
            final(self).instr_count == spec_steps(*func).len(),
            spec_table_wf(final(self).lifetimes@, final(self).instr_count as int),
            spec_names(final(self).global_vars@) == spec_globals_run(
                spec_names(old(self).global_vars@),
                spec_steps(*func),
            ),
            final(self).functions == old(self).functions,
    {
        self.lifetimes = Vec::new();
        self.instr_count = 0;
        let ghost locals = func.local_variables@;
        let ghost blocks = func.basic_blocks@;
        let mut j: usize = 0;
        while j < func.local_variables.len()
            invariant
                j <= func.local_variables.len(),
                locals == func.local_variables@,
                self.lifetimes@ == spec_entry(locals, j as int),
                self.instr_count == 0,
                self.functions == old(self).functions,
                self.global_vars == old(self).global_vars,
            decreases func.local_variables.len() - j,
        {
            self.record_def(VarKind::Slot(func.local_variables[j].1), true, None);
            j += 1;
        }
        let ghost t0 = self.lifetimes@;
        let ghost g0 = spec_names(self.global_vars@);
        let ghost mut done: Seq<Step> = Seq::empty();
        let mut b: usize = 0;
        while b < func.basic_blocks.len()
            invariant
                b <= func.basic_blocks.len(),
                blocks == func.basic_blocks@,
                spec_steps(*func).len() < usize::MAX,
                done == spec_schedule(blocks, b as int),
                self.lifetimes@ == spec_run(t0, done),
                spec_names(self.global_vars@) == spec_globals_run(g0, done),
                self.instr_count == done.len(),
                self.functions == old(self).functions,
            decreases func.basic_blocks.len() - b,
        {
            let block = &func.basic_blocks[b];
            let ghost before = done;
            proof {
                lemma_schedule_len(blocks, b + 1);
                lemma_schedule_mono(blocks, b + 1, blocks.len() as int);
            }
            let mut i: usize = 0;
            while i < block.instructions.len()
                invariant
                    i <= block.instructions.len(),
                    done == before + block.instructions@.subrange(0, i as int).map_values(
                        |x: IRInstruction| Step::Instr(x),
                    ),
                    before.len() + block.instructions@.len() + 1 < usize::MAX,
                    self.lifetimes@ == spec_run(t0, done),
                    spec_names(self.global_vars@) == spec_globals_run(g0, done),
                    self.instr_count == done.len(),
                    self.functions == old(self).functions,
                decreases block.instructions.len() - i,
            {
                self.process_instr(&block.instructions[i]);
                self.instr_count = self.instr_count + 1;
                proof {
                    let step = Step::Instr(block.instructions@[i as int]);
                    let next = done.push(step);
                    assert(next.drop_last() =~= done);
                    assert(next =~= before + block.instructions@.subrange(0, i + 1).map_values(
                        |x: IRInstruction| Step::Instr(x),
                    ));
                    done = next;
                }
                i += 1;
            }
            self.process_terminator(&block.terminator);
            self.instr_count = self.instr_count + 1;
            proof {
                let step = Step::Term(block.terminator);
                let next = done.push(step);
                assert(next.drop_last() =~= done);
                assert(block.instructions@.subrange(0, block.instructions@.len() as int)
                    =~= block.instructions@);
                assert(next =~= spec_schedule(blocks, b + 1));
                done = next;
            }
            b += 1;
        }
        proof {
            lemma_scan_wf(*func);
        }
    }

    /// Gives every variable of the function that was scanned a register,
    /// and files the result under the function's name; see
    /// [`spec_allocated`].
    pub fn allocate_registers(&mut self, func: &IRFunction)
        requires
            spec_allocatable(old(self).lifetimes@, old(self).instr_count as int),
        ensures
            final(self).functions@.len() == old(self).functions@.len() + 1,
            final(self).functions@.subrange(0, old(self).functions@.len() as int) == old(self).functions@,
            final(self).functions@.last().name@ == func.name@,
            final(self).functions@.last().lifetimes@ == old(self).lifetimes@,
            spec_allocated(
                old(self).lifetimes@,
                final(self).functions@.last().reg_map@,
                final(self).functions@.last().num_locals,
                final(self).functions@.last().max_stack,
            ),
            final(self).lifetimes@ == old(self).lifetimes@,
            final(self).instr_count == old(self).instr_count,
            final(self).global_vars == old(self).global_vars,
            final(self).functions@.last().distinct_keys(),
            old(self).wf() ==> final(self).wf(),
    {
        let ghost t = self.lifetimes@;
        let ghost count = self.instr_count as int;
        let n = self.lifetimes.len();
        let mut num_slots: usize = 0;
        let mut i: usize = 0;
        while i < n
            invariant
                i <= n,
                n == t.len(),
                self.lifetimes@ == t,
                spec_allocatable(t, count),
                num_slots <= SCAN_LIMIT + 1,
                forall|j: int| 0 <= j < i ==> ((#[trigger] t[j]).0 matches VarKind::Slot(s) ==> s < num_slots),
                num_slots == 0 || exists|j: int|
                    0 <= j < i && (#[trigger] t[j]).0 == VarKind::Slot((num_slots - 1) as usize),
            decreases n - i,
        {
            match self.lifetimes[i].0 {
                VarKind::Slot(s) => {
                    if s + 1 > num_slots {
                        num_slots = s + 1;
                    }
                    assert(t[i as int].0 == VarKind::Slot(s));
                },
                VarKind::Reg(_) => {},
            }
            i += 1;
        }
        let mut reg_map: Vec<(VarKind, usize)> = Vec::new();
        let mut copy: Vec<(VarKind, Lifetime)> = Vec::new();
        let mut occupant: Vec<Option<usize>> = Vec::new();
        let ghost mut regno: Seq<int> = Seq::empty();
        let ghost mut top_user: int = 0;
        let mut k: usize = 0;
        while k < n
            invariant
                k <= n,
                n == t.len(),
                self.lifetimes@ == t,
                spec_allocatable(t, count),
                num_slots <= SCAN_LIMIT + 1,
                forall|j: int| 0 <= j < n ==> ((#[trigger] t[j]).0 matches VarKind::Slot(s) ==> s < num_slots),
                reg_map@.len() == k,
                copy@ == t.subrange(0, k as int),
                regno.len() == k,
                occupant@.len() <= k,
                forall|j: int| 0 <= j < k ==> (#[trigger] reg_map@[j]).0 == t[j].0,
                forall|j: int|
                    0 <= j < k ==> match (#[trigger] t[j]).0 {
                        VarKind::Slot(s) => reg_map@[j].1 == s,
                        VarKind::Reg(_) => 0 <= regno[j] < occupant@.len() && reg_map@[j].1
                            == num_slots + STRIDE * regno[j],
                    },
                forall|m: int|
                    0 <= m < occupant@.len() ==> ((#[trigger] occupant@[m]) matches Some(j) ==> j < k
                        && t[j as int].0 is Reg && regno[j as int] == m),
                occupant@.len() > 0 ==> 0 <= top_user < k && t[top_user].0 is Reg && regno[top_user]
                    == occupant@.len() - 1,
                forall|j: int|
                    0 <= j < k && (#[trigger] t[j]).0 is Reg ==> occupant@[regno[j]] == Some(
                        j as usize,
                    ) || forall|l: int| k <= l < n ==> t[j].1.end < (#[trigger] t[l]).1.start,
                forall|a: int, b: int|
                    0 <= a < b < k && (#[trigger] t[a]).0 is Reg && (#[trigger] t[b]).0 is Reg
                        && spec_overlap(t[a].1, t[b].1) ==> regno[a] != regno[b],
                forall|a: int, c: int|
                    0 <= a < k && t[a].0 is Reg && 0 <= c < regno[a] ==> #[trigger] spec_taken(
                        t,
                        regno,
                        a,
                        c,
                    ),
            decreases n - k,
        {
            let ghost regno0 = regno;
            let entry = self.lifetimes[k];
            copy.push(entry);
            proof {
                assert(copy@ =~= t.subrange(0, k + 1));
            }
            match entry.0 {
                VarKind::Slot(s) => {
                    reg_map.push((entry.0, s));
                    proof {
                        regno = regno.push(-1);
                        assert forall|a: int, c: int|
                            0 <= a < k + 1 && t[a].0 is Reg && 0 <= c
                                < regno[a] implies #[trigger] spec_taken(t, regno, a, c) by {
                            assert(spec_taken(t, regno0, a, c));
                            let j = choose|j: int|
                                0 <= j < a && (#[trigger] t[j]).0 is Reg && regno0[j] == c
                                    && t[j].1.end >= t[a].1.start;
                            assert(regno[j] == c);
                        }
                        assert forall|j: int|
                            0 <= j < k + 1 && (#[trigger] t[j]).0 is Reg implies occupant@[regno[j]]
                            == Some(j as usize) || forall|l: int|
                            k + 1 <= l < n ==> t[j].1.end < (#[trigger] t[l]).1.start by {
                            if occupant@[regno[j]] != Some(j as usize) {
                                assert forall|l: int| k + 1 <= l < n implies t[j].1.end < (
                                #[trigger] t[l]).1.start by {}
                            }
                        }
                    }
                },
                VarKind::Reg(_) => {
                    let start = entry.1.start;
                    let ghost occ0 = occupant@;
                    let mut chosen: Option<usize> = None;
                    let mut m: usize = 0;
                    while m < occupant.len()
                        invariant
                            m <= occupant@.len(),
                            occupant@.len() == occ0.len(),
                            n == t.len(),
                            k < n,
                            self.lifetimes@ == t,
                            start == t[k as int].1.start,
                            forall|x: int|
                                0 <= x < occ0.len() ==> ((#[trigger] occ0[x]) matches Some(j) ==> j
                                    < k),
                            forall|x: int|
                                0 <= x < m ==> #[trigger] occupant@[x] == (match occ0[x] {
                                    Some(j) => if t[j as int].1.end < start {
                                        None
                                    } else {
                                        Some(j)
                                    },
                                    None => None,
                                }),
                            forall|x: int| m <= x < occ0.len() ==> #[trigger] occupant@[x] == occ0[x],
                            match chosen {
                                Some(c) => c < m && occupant@[c as int] is None && forall|x: int|
                                    0 <= x < c ==> (#[trigger] occupant@[x]) is Some,
                                None => forall|x: int| 0 <= x < m ==> (#[trigger] occupant@[x]) is Some,
                            },
                        decreases occupant@.len() - m,
                    {
                        let free = match occupant[m] {
                            Some(j) => self.lifetimes[j].1.end < start,
                            None => true,
                        };
                        if free {
                            occupant[m] = None;
                            if chosen.is_none() {
                                chosen = Some(m);
                            }
                        }
                        m += 1;
                    }
                    let ghost occ1 = occupant@;
                    let c: usize = match chosen {
                        Some(c) => {
                            occupant[c] = Some(k);
                            c
                        },
                        None => {
                            let c = occupant.len();
                            occupant.push(Some(k));
                            proof {
                                top_user = k as int;
                            }
                            c
                        },
                    };
                    let phys = num_slots + STRIDE * c;
                    reg_map.push((entry.0, phys));
                    proof {
                        regno = regno.push(c as int);
                        let occ2 = occupant@;
                        assert forall|a: int, x: int|
                            0 <= a < k + 1 && t[a].0 is Reg && 0 <= x
                                < regno[a] implies #[trigger] spec_taken(t, regno, a, x) by {
                            if a < k {
                                assert(spec_taken(t, regno0, a, x));
                                let j = choose|j: int|
                                    0 <= j < a && (#[trigger] t[j]).0 is Reg && regno0[j] == x
                                        && t[j].1.end >= t[a].1.start;
                                assert(regno[j] == x);
                            } else {
                                assert(occ1[x] is Some);
                                let j = occ1[x]->0 as int;
                                assert(occ0[x] == Some(j as usize));
                                assert(t[j].0 is Reg);
                                assert(regno[j] == x);
                                assert(t[j].1.end >= start);
                            }
                        }
                        assert forall|x: int| 0 <= x < occ2.len() implies ((
                        #[trigger] occ2[x]) matches Some(j) ==> j < k + 1 && t[j as int].0 is Reg
                            && regno[j as int] == x) by {
                            if x != c {
                                assert(occ2[x] == occ1[x]);
                                if occ1[x] is Some {
                                    assert(occ1[x] == occ0[x]);
                                }
                            }
                        }
                        assert forall|j: int|
                            0 <= j < k + 1 && (#[trigger] t[j]).0 is Reg implies occ2[regno[j]]
                            == Some(j as usize) || forall|l: int|
                            k + 1 <= l < n ==> t[j].1.end < (#[trigger] t[l]).1.start by {
                            if j < k {
                                if occ0[regno[j]] == Some(j as usize) {
                                    if t[j].1.end < start {
                                        assert forall|l: int| k + 1 <= l < n implies t[j].1.end < (
                                        #[trigger] t[l]).1.start by {
                                            assert(t[k as int].1.start <= t[l].1.start);
                                        }
                                    } else {
                                        assert(occ1[regno[j]] == Some(j as usize));
                                        assert(regno[j] != c);
                                    }
                                } else {
                                    assert forall|l: int| k + 1 <= l < n implies t[j].1.end < (
                                    #[trigger] t[l]).1.start by {}
                                }
                            }
                        }
                        assert forall|a: int, b: int|
                            0 <= a < b < k + 1 && (#[trigger] t[a]).0 is Reg && (
                            #[trigger] t[b]).0 is Reg && spec_overlap(
                                t[a].1,
                                t[b].1,
                            ) implies regno[a] != regno[b] by {
                            if b == k {
                                assert(t[a].1.end >= t[k as int].1.start);
                                assert(occ0[regno[a]] == Some(a as usize));
                                assert(occ1[regno[a]] == Some(a as usize));
                            }
                        }
                        assert forall|j: int| 0 <= j < k + 1 implies match (#[trigger] t[j]).0 {
                            VarKind::Slot(s) => reg_map@[j].1 == s,
                            VarKind::Reg(_) => 0 <= regno[j] < occ2.len() && reg_map@[j].1
                                == num_slots + STRIDE * regno[j],
                        } by {}
                    }
                },
            }
            k += 1;
        }
        let max_stack = num_slots + STRIDE * occupant.len() + STRIDE;
        proof {
            assert(copy@ =~= t);
            let m = reg_map@;
            assert forall|a: int, b: int|
                0 <= a < b < t.len() && (#[trigger] t[a]).0 is Reg && (#[trigger] t[b]).0 is Reg
                    && spec_overlap(t[a].1, t[b].1) implies m[a].1 + STRIDE <= m[b].1 || m[b].1
                + STRIDE <= m[a].1 by {
                assert(regno[a] != regno[b]);
            }
            assert forall|j: int| 0 <= j < t.len() implies match (#[trigger] t[j]).0 {
                VarKind::Slot(s) => m[j].1 == s && s < num_slots,
                VarKind::Reg(_) => m[j].1 >= num_slots && (m[j].1 - num_slots) % (STRIDE as int)
                    == 0 && m[j].1 + 2 * STRIDE <= max_stack,
            } by {
                match t[j].0 {
                    VarKind::Slot(s) => {},
                    VarKind::Reg(_) => {
                        assert((4 * regno[j]) % 4 == 0) by (nonlinear_arith);
                    },
                }
            }
            if occupant@.len() > 0 {
                assert(m[top_user].1 + 2 * STRIDE == max_stack);
            }
            assert forall|i: int, reg: int|
                0 <= i < t.len() && t[i].0 is Reg && num_slots <= reg < m[i].1 && (reg
                    - num_slots) % (STRIDE as int) == 0 implies #[trigger] spec_busy(
                t,
                m,
                i,
                reg,
            ) by {
                let c = (reg - num_slots) / (STRIDE as int);
                assert(reg == num_slots + STRIDE * c && 0 <= c < regno[i]) by (nonlinear_arith)
                    requires
                        c == (reg - num_slots) / 4,
                        (reg - num_slots) % 4 == 0,
                        num_slots <= reg < num_slots + 4 * regno[i],
                        STRIDE == 4,
                ;
                assert(spec_taken(t, regno, i, c));
                let j = choose|j: int|
                    0 <= j < i && (#[trigger] t[j]).0 is Reg && regno[j] == c && t[j].1.end
                        >= t[i].1.start;
                assert(m[j].1 == reg);
            }
        }
        let scan = FunctionScan {
            name: func.name.clone(),
            lifetimes: copy,
            reg_map,
            num_locals: num_slots,
            max_stack,
        };
        self.functions.push(scan);
        proof {
            assert(self.functions@.subrange(0, old(self).functions@.len() as int) =~= old(self).functions@);
        }
    }

    /// Whether `after` holds, behind the scans of `before`, the scans of the
    /// first `n` functions of the module: each under its function's name,
    /// with the function's lifetimes and the registers that the allocator
    /// gives them.
    pub open spec fn spec_scanned(
        before: Seq<FunctionScan>,
        after: Seq<FunctionScan>,
        module: IRModule,
        n: int,
    ) -> bool {
        &&& after.len() == before.len() + n
        &&& after.subrange(0, before.len() as int) == before
        &&& forall|i: int|
            0 <= i < n ==> {
                let scan = #[trigger] after[before.len() + i];
                &&& scan.name@ == module.functions@[i].name@
                &&& scan.lifetimes@ == spec_scan(module.functions@[i])
                &&& spec_allocated(scan.lifetimes@, scan.reg_map@, scan.num_locals, scan.max_stack)
            }
    }

    /// The global names after the first `n` functions of the module.
    pub open spec fn spec_module_globals(names: Seq<Seq<char>>, module: IRModule, n: int) -> Seq<
        Seq<char>,
    >
        decreases n,
    {
        if n <= 0 {
            names
        } else {
            spec_globals_run(
                Self::spec_module_globals(names, module, n - 1),
                spec_steps(module.functions@[n - 1]),
            )
        }
    }

    /// Scans every function of the module and gives its variables their
    /// registers. Fails at the first function that does not fit, with the
    /// functions before it scanned.
    pub fn global_scan(&mut self, module: &IRModule) -> (r: Result<(), ScanError>)
        ensures
            match r {
                Ok(()) => {
                    &&& forall|i: int|
                        0 <= i < module.functions@.len() ==> spec_fits(
                            #[trigger] module.functions@[i],
                        )
                    &&& Self::spec_scanned(
                        old(self).functions@,
                        final(self).functions@,
                        *module,
                        module.functions@.len() as int,
                    )
                    &&& spec_names(final(self).global_vars@) == Self::spec_module_globals(
                        spec_names(old(self).global_vars@),
                        *module,
                        module.functions@.len() as int,
                    )
                },
                Err(ScanError::TooLarge(i)) => {
                    &&& i < module.functions@.len()
                    &&& !spec_fits(module.functions@[i as int])
                    &&& forall|j: int| 0 <= j < i ==> spec_fits(#[trigger] module.functions@[j])
                    &&& Self::spec_scanned(
                        old(self).functions@,
                        final(self).functions@,
                        *module,
                        i as int,
                    )
                    &&& spec_names(final(self).global_vars@) == Self::spec_module_globals(
                        spec_names(old(self).global_vars@),
                        *module,
                        i as int,
                    )
                },
            },
            old(self).wf() ==> final(self).wf(),
    {
        let ghost base = self.functions@;
        let mut i: usize = 0;
        proof {
            assert(self.functions@.subrange(0, base.len() as int) =~= base);
        }
        while i < module.functions.len()
            invariant
                i <= module.functions.len(),
                base == old(self).functions@,
                old(self).wf() ==> self.wf(),
                self.functions@.len() == base.len() + i,
                self.functions@.subrange(0, base.len() as int) == base,
                spec_names(self.global_vars@) == Self::spec_module_globals(
                    spec_names(old(self).global_vars@),
                    *module,
                    i as int,
                ),
                forall|j: int| 0 <= j < i ==> spec_fits(#[trigger] module.functions@[j]),
                forall|j: int|
                    0 <= j < i ==> {
                        let scan = #[trigger] self.functions@[base.len() + j];
                        &&& scan.name@ == module.functions@[j].name@
                        &&& scan.lifetimes@ == spec_scan(module.functions@[j])
                        &&& spec_allocated(
                            scan.lifetimes@,
                            scan.reg_map@,
                            scan.num_locals,
                            scan.max_stack,
                        )
                    },
            decreases module.functions.len() - i,
        {
            let func = &module.functions[i];
            if !Self::fits(func) {
                return Err(ScanError::TooLarge(i));
            }
            let ghost before = self.functions@;
            self.scan_lifetimes(func);
            proof {
                lemma_fits_allocatable(*func);
            }
            self.allocate_registers(func);
            proof {
                let after = self.functions@;
                assert(after.subrange(0, before.len() as int) == before);
                assert forall|j: int| 0 <= j < before.len() implies after[j] == before[j] by {
                    assert(after.subrange(0, before.len() as int)[j] == after[j]);
                }
                assert(after.subrange(0, base.len() as int) =~= base);
                assert(after.last() == after[base.len() + i]);
            }
            i += 1;
        }
        Ok(())
    }
}

} // verus!
