//! Call frames and the value stack that they share.

use vstd::prelude::*;
use crate::common::object::LuaValue;

verus! {

/// A call frame. Its registers are the window of the shared value stack
/// that starts at `base_offset` and has `reg_count` values.
#[derive(Debug)]
pub struct StackFrame {
    pub func_name: String,
    pub base_offset: usize,
    pub reg_count: usize,
    pub pc: usize,
    /// The register of the caller that takes the result.
    pub ret_dest: Option<usize>,
    /// The variables that the running closure has captured, as handles of
    /// upvalue objects.
    pub upvalues: Vec<usize>,
    /// The registers of this frame that closures have captured and that are
    /// still open: the register and the handle of its upvalue object, in the
    /// order of the registers.
    pub out_upvalues: Vec<(usize, usize)>,
}

#[derive(Debug)]
pub struct GlobalStack {
    pub values: Vec<LuaValue>,
}

impl GlobalStack {
    pub fn new() -> (r: Self)
        ensures
            r.values@.len() == 0,
    {
        GlobalStack { values: Vec::new() }
    }

    /// Makes the stack at least `min_size` long; new places hold `Nil`.
    pub fn reserve(&mut self, min_size: usize)
        ensures
            final(self).values@.len() == if old(self).values@.len() < min_size {
                min_size as nat
            } else {
                old(self).values@.len()
            },
            forall|i: int|
                0 <= i < old(self).values@.len() ==> final(self).values@[i] == old(self).values@[i],
            forall|i: int|
                old(self).values@.len() <= i < final(self).values@.len() ==> final(self).values@[i] == LuaValue::Nil,
    {
        while self.values.len() < min_size
            invariant
                self.values@.len() >= old(self).values@.len(),
                old(self).values@.len() < min_size ==> self.values@.len() <= min_size,
                old(self).values@.len() >= min_size ==> self.values@.len() == old(self).values@.len(),
                forall|i: int|
                    0 <= i < old(self).values@.len() ==> self.values@[i] == old(self).values@[i],
                forall|i: int|
                    old(self).values@.len() <= i < self.values@.len() ==> self.values@[i]
                        == LuaValue::Nil,
            decreases min_size - self.values@.len(),
        {
            self.values.push(LuaValue::Nil);
        }
    }

    /// Puts a value on top of the stack.
    pub fn push(&mut self, val: LuaValue)
        ensures
            final(self).values@ == old(self).values@.push(val),
    {
        self.values.push(val);
    }

    /// Drops the values at and above `offset`.
    pub fn restore(&mut self, offset: usize)
        ensures
            final(self).values@ == if offset <= old(self).values@.len() {
                old(self).values@.subrange(0, offset as int)
            } else {
                old(self).values@
            },
    {
        if offset <= self.values.len() {
            self.values.truncate(offset);
        }
    }
}

impl StackFrame {
    pub fn new(
        name: String,
        ret_dest: Option<usize>,
        base_offset: usize,
        reg_count: usize,
        upvalues: Vec<usize>,
    ) -> (r: Self)
        ensures
            r.func_name == name,
            r.base_offset == base_offset,
            r.pc == 0,
            r.ret_dest == ret_dest,
            r.reg_count == reg_count,
            r.upvalues == upvalues,
            r.out_upvalues@.len() == 0,
    {
        StackFrame {
            func_name: name,
            base_offset,
            pc: 0,
            ret_dest,
            reg_count,
            upvalues,
            out_upvalues: Vec::new(),
        }
    }

    pub open spec fn spec_reg_absolute(&self, idx: usize) -> int {
        self.base_offset + idx
    }

    /// The place of a register on the shared stack.
    pub fn reg_absolute(&self, idx: usize) -> (r: usize)
        requires
            self.base_offset + idx <= usize::MAX,
        ensures
            r == self.spec_reg_absolute(idx),
    {
        self.base_offset + idx
    }

    /// The value of a register.
    pub fn get_reg<'a>(&self, idx: usize, global_stack: &'a GlobalStack) -> (r: &'a LuaValue)
        requires
            self.base_offset + idx < global_stack.values@.len(),
        ensures
            *r == global_stack.values@[self.base_offset + idx],
    {
        let _n = global_stack.values.len();
        &global_stack.values[self.base_offset + idx]
    }

    /// Gives a register a value.
    pub fn set_reg(&self, idx: usize, val: LuaValue, global_stack: &mut GlobalStack)
        requires
            self.base_offset + idx < old(global_stack).values@.len(),
        ensures
            final(global_stack).values@ == old(global_stack).values@.update(
                self.base_offset + idx,
                val,
            ),
    {
        let _n = global_stack.values.len();
        global_stack.values[self.base_offset + idx] = val;
    }
}

} // verus!
