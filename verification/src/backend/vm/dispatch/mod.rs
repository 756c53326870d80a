//! The handlers of the instructions.

pub mod access;
pub mod arithmetic;
pub mod compare;
pub mod control;
pub mod fn_proto;
pub mod table;

use vstd::prelude::*;
use crate::backend::vm::dispatch::compare::{spec_less, spec_less_equal, spec_lua_equal};
use crate::backend::vm::error::VMError;
use crate::backend::vm::{ArithOp, VirtualMachine};
use crate::common::object::LuaValue;
use crate::common::opcode::OpCode;

verus! {

impl VirtualMachine {
    /// What the instruction does to machine `old`: what its handler does.
    pub open spec fn executed(&self, old: &VirtualMachine, r: Result<(), VMError>, instr: OpCode) -> bool {
        match instr {
            OpCode::Move { dest, src } => self.stored_or_internal(
                old,
                r,
                old.has_reg(src as int),
                dest,
                old.reg(src as int),
            ),
            OpCode::LoadK { dest, const_idx } => self.stored_or_internal(
                old,
                r,
                old.spec_constant(const_idx as int) is Some,
                dest,
                old.spec_constant(const_idx as int)->0,
            ),
            OpCode::LoadNil { dest } => self.stored_or_internal(old, r, true, dest, LuaValue::Nil),
            OpCode::LoadBool { dest, value } => self.stored_or_internal(
                old,
                r,
                true,
                dest,
                LuaValue::Boolean(value),
            ),
            OpCode::GetGlobal { dest, name_idx } => self.get_global_outcome(old, r, dest, name_idx),
            OpCode::SetGlobal { name_idx, src } => self.set_global_outcome(old, r, name_idx, src),
            OpCode::GetUpVal { dest, upval_idx } => self.get_upval_outcome(old, r, dest, upval_idx),
            OpCode::SetUpVal { upval_idx, src } => self.set_upval_outcome(old, r, upval_idx, src),
            OpCode::Add { dest, left, right } => self.arith_outcome(
                old,
                r,
                dest,
                left,
                right,
                ArithOp::Add,
            ),
            OpCode::Sub { dest, left, right } => self.arith_outcome(
                old,
                r,
                dest,
                left,
                right,
                ArithOp::Sub,
            ),
            OpCode::Mul { dest, left, right } => self.arith_outcome(
                old,
                r,
                dest,
                left,
                right,
                ArithOp::Mul,
            ),
            OpCode::Pow { dest, left, right } => self.arith_outcome(
                old,
                r,
                dest,
                left,
                right,
                ArithOp::Pow,
            ),
            OpCode::Div { dest, left, right } => self.division_outcome(
                old,
                r,
                dest,
                left,
                right,
                ArithOp::Div,
            ),
            OpCode::Mod { dest, left, right } => self.division_outcome(
                old,
                r,
                dest,
                left,
                right,
                ArithOp::Mod,
            ),
            OpCode::UnOp { dest, src, op } => self.unary_outcome(old, r, dest, src, op),
            OpCode::Concat { dest, left, right } => self.concat_outcome(old, r, dest, left, right),
            OpCode::And { dest, left, right } => self.stored_or_internal(
                old,
                r,
                old.has_reg(left as int) && old.has_reg(right as int),
                dest,
                if !old.reg(left as int).is_truthy() {
                    old.reg(left as int)
                } else {
                    old.reg(right as int)
                },
            ),
            OpCode::Or { dest, left, right } => self.stored_or_internal(
                old,
                r,
                old.has_reg(left as int) && old.has_reg(right as int),
                dest,
                if old.reg(left as int).is_truthy() {
                    old.reg(left as int)
                } else {
                    old.reg(right as int)
                },
            ),
            OpCode::NewTable { dest, .. } => self.new_table_outcome(old, r, dest),
            OpCode::GetTable { dest, table, key } => self.get_table_outcome(
                old,
                r,
                dest,
                table,
                key,
            ),
            OpCode::SetTable { table, key, value } => self.set_table_outcome(
                old,
                r,
                table,
                key,
                value,
            ),
            OpCode::FnProto { dest, proto_idx } => self.fn_proto_outcome(old, r, dest, proto_idx)
                && self.fn_proto_steps(old, r, dest, proto_idx),
            OpCode::Eq { dest, left, right } => self.compare_outcome(
                old,
                r,
                dest,
                left,
                right,
                spec_lua_equal(old.reg(left as int), old.reg(right as int)),
            ),
            OpCode::Ne { dest, left, right } => self.compare_outcome(
                old,
                r,
                dest,
                left,
                right,
                !spec_lua_equal(old.reg(left as int), old.reg(right as int)),
            ),
            OpCode::Lt { dest, left, right } => self.order_outcome(
                old,
                r,
                dest,
                left,
                right,
                spec_less(old.heap.all_objects@, old.reg(left as int), old.reg(right as int)),
                "<"@,
            ),
            OpCode::Gt { dest, left, right } => self.order_outcome(
                old,
                r,
                dest,
                left,
                right,
                spec_less(old.heap.all_objects@, old.reg(right as int), old.reg(left as int)),
                ">"@,
            ),
            OpCode::Le { dest, left, right } => self.order_outcome(
                old,
                r,
                dest,
                left,
                right,
                spec_less_equal(
                    old.heap.all_objects@,
                    old.reg(left as int),
                    old.reg(right as int),
                ),
                "<="@,
            ),
            OpCode::Ge { dest, left, right } => self.order_outcome(
                old,
                r,
                dest,
                left,
                right,
                spec_less_equal(
                    old.heap.all_objects@,
                    old.reg(right as int),
                    old.reg(left as int),
                ),
                ">="@,
            ),
            OpCode::Test { reg } => self.test_outcome(old, r, reg),
            OpCode::Jump { offset } => self.jump_outcome(old, r, offset),
            OpCode::Call { func_reg, argc, retc } => self.call_outcome(old, r, func_reg, argc, retc),
            OpCode::Push { src } => self.push_outcome(old, r, src),
            OpCode::Return { start, count } => self.return_outcome(old, r, start, count),
            OpCode::Halt => r is Ok && self.unwound(old) && self.call_stack@.len() == 0 && self.value_stack
                == old.value_stack && self.globals == old.globals && self.func_meta
                == old.func_meta && self.pending == old.pending && self.output == old.output,
        }
    }

    /// Runs one instruction on the top frame; see
    /// [`VirtualMachine::executed`].
    pub fn execute_instruction(&mut self, instr: OpCode) -> (r: Result<(), VMError>)
        requires
            old(self).running(),
        ensures
            final(self).wf(),
            final(self).executed(old(self), r, instr),
    {
        match instr {
            OpCode::Move { dest, src } => self.handle_move(dest, src),
            OpCode::LoadK { dest, const_idx } => self.handle_loadk(dest, const_idx),
            OpCode::LoadNil { dest } => self.handle_load_nil(dest),
            OpCode::LoadBool { dest, value } => self.handle_load_bool(dest, value),
            OpCode::GetGlobal { dest, name_idx } => self.handle_get_global(dest, name_idx),
            OpCode::SetGlobal { name_idx, src } => self.handle_set_global(name_idx, src),
            OpCode::GetUpVal { dest, upval_idx } => self.handle_get_upval(dest, upval_idx),
            OpCode::SetUpVal { upval_idx, src } => self.handle_set_upval(upval_idx, src),
            OpCode::Add { dest, left, right } => self.handle_add(dest, left, right),
            OpCode::Sub { dest, left, right } => self.handle_sub(dest, left, right),
            OpCode::Mul { dest, left, right } => self.handle_mul(dest, left, right),
            OpCode::Pow { dest, left, right } => self.handle_pow(dest, left, right),
            OpCode::Div { dest, left, right } => self.handle_div(dest, left, right),
            OpCode::Mod { dest, left, right } => self.handle_mod(dest, left, right),
            OpCode::UnOp { dest, src, op } => self.handle_unary_op(dest, src, op),
            OpCode::Concat { dest, left, right } => self.handle_concat(dest, left, right),
            OpCode::And { dest, left, right } => self.handle_and(dest, left, right),
            OpCode::Or { dest, left, right } => self.handle_or(dest, left, right),
            OpCode::NewTable { dest, .. } => self.handle_new_table(dest),
            OpCode::GetTable { dest, table, key } => self.handle_get_table(dest, table, key),
            OpCode::SetTable { table, key, value } => self.handle_set_table(table, key, value),
            OpCode::FnProto { dest, proto_idx } => self.handle_fn_proto(dest, proto_idx),
            OpCode::Eq { dest, left, right } => self.handle_eq(dest, left, right),
            OpCode::Ne { dest, left, right } => self.handle_ne(dest, left, right),
            OpCode::Lt { dest, left, right } => self.handle_lt(dest, left, right),
            OpCode::Gt { dest, left, right } => self.handle_gt(dest, left, right),
            OpCode::Le { dest, left, right } => self.handle_le(dest, left, right),
            OpCode::Ge { dest, left, right } => self.handle_ge(dest, left, right),
            OpCode::Test { reg } => self.handle_test(reg),
            OpCode::Jump { offset } => self.handle_jump(offset),
            OpCode::Call { func_reg, argc, retc } => self.handle_call(func_reg, argc, retc),
            OpCode::Push { src } => self.handle_push(src),
            OpCode::Return { start, count } => self.handle_return(start, count),
            OpCode::Halt => self.handle_halt(),
        }
    }
}

} // verus!
