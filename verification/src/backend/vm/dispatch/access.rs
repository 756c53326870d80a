//! Moves, constants, globals and upvalues.

use vstd::prelude::*;
use crate::backend::vm::error::{ErrorKind, VMError};
use crate::backend::vm::heap::{spec_open_at, spec_upvalue_at};
use crate::backend::vm::{lemma_global_put, spec_global_in, VirtualMachine};
use crate::common::object::{LuaObject, LuaUpValue, LuaUpValueState, LuaValue};

verus! {

impl VirtualMachine {
    /// What `GetGlobal` does to machine `old`.
    pub open spec fn get_global_outcome(
        &self,
        old: &VirtualMachine,
        r: Result<(), VMError>,
        dest: u16,
        name_idx: u16,
    ) -> bool {
        match old.spec_constant_string(name_idx as int) {
            None => r is Err && r->Err_0.kind is InternalError && self.failed(old, r->Err_0),
            Some(name) => match old.spec_global(name) {
                None => r is Err && r->Err_0.kind is UndefinedVariable
                    && r->Err_0.kind->UndefinedVariable_0@ == name && self.failed(old, r->Err_0),
                Some(v) => self.stored_or_internal(old, r, true, dest, v),
            },
        }
    }

    /// What `SetGlobal` does to machine `old`.
    pub open spec fn set_global_outcome(
        &self,
        old: &VirtualMachine,
        r: Result<(), VMError>,
        name_idx: u16,
        src: u16,
    ) -> bool {
        let name = old.spec_constant_string(name_idx as int);
        match r {
            Ok(()) => {
                &&& name is Some
                &&& old.has_reg(src as int)
                &&& self.same_frames_but_pc(old)
                &&& self.top().pc == old.top().pc + 1
                &&& self.value_stack == old.value_stack
                &&& self.heap == old.heap
                &&& self.func_meta == old.func_meta
                &&& self.log_level == old.log_level
                &&& self.pending == old.pending
                &&& self.output == old.output
                &&& spec_global_in(self.globals@, name->0) == Some(old.reg(src as int))
                &&& forall|other: Seq<char>|
                    other != name->0 ==> spec_global_in(self.globals@, other) == spec_global_in(
                        old.globals@,
                        other,
                    )
            },
            Err(e) => (name is None || !old.has_reg(src as int)) && e.kind is InternalError
                && self.failed(old, e),
        }
    }

    /// What `GetUpVal` does to machine `old`.
    pub open spec fn get_upval_outcome(
        &self,
        old: &VirtualMachine,
        r: Result<(), VMError>,
        dest: u16,
        upval_idx: u16,
    ) -> bool {
        match old.spec_upvalue_handle(upval_idx as int) {
            None => r is Err && r->Err_0.kind == ErrorKind::UndefinedUpValue(upval_idx)
                && self.failed(old, r->Err_0),
            Some(h) => self.stored_or_internal(
                old,
                r,
                old.spec_upvalue_value(h) is Some,
                dest,
                old.spec_upvalue_value(h)->0,
            ),
        }
    }

    /// What `SetUpVal` does to machine `old`.
    pub open spec fn set_upval_outcome(
        &self,
        old: &VirtualMachine,
        r: Result<(), VMError>,
        upval_idx: u16,
        src: u16,
    ) -> bool {
        match old.spec_upvalue_handle(upval_idx as int) {
            None => r is Err && r->Err_0.kind == ErrorKind::UndefinedUpValue(upval_idx)
                && self.failed(old, r->Err_0),
            Some(h) => match r {
                Ok(()) => {
                    &&& old.has_reg(src as int)
                    &&& self.same_context(old)
                    &&& self.top().pc == old.top().pc + 1
                    &&& self.pending == old.pending
                    &&& match spec_upvalue_at(old.heap.all_objects@, h) {
                        Some(LuaUpValueState::Open(at)) => at < old.value_stack.values@.len()
                            && self.value_stack.values@ == old.value_stack.values@.update(
                            at as int,
                            old.reg(src as int),
                        ) && self.heap == old.heap,
                        Some(LuaUpValueState::Closed(_)) => self.value_stack == old.value_stack
                            && self.heap.same_but_data(
                            &old.heap,
                            h,
                            LuaObject::UpValue(
                                LuaUpValue { value: LuaUpValueState::Closed(old.reg(src as int)) },
                            ),
                        ),
                        None => false,
                    }
                },
                Err(e) => (old.spec_upvalue_value(h) is None || !old.has_reg(src as int))
                    && e.kind is InternalError && self.failed(old, e),
            },
        }
    }

    /// `Move`: register `dest` gets the value of register `src`.
    pub fn handle_move(&mut self, dest: u16, src: u16) -> (r: Result<(), VMError>)
        requires
            old(self).running(),
        ensures
            final(self).wf(),
            final(self).stored_or_internal(
                old(self),
                r,
                old(self).has_reg(src as int),
                dest,
                old(self).reg(src as int),
            ),
    {
        let val = self.get_reg(src as usize)?;
        self.store(dest, val)
    }

    /// `LoadK`: register `dest` gets the constant with the given index.
    pub fn handle_loadk(&mut self, dest: u16, const_idx: u16) -> (r: Result<(), VMError>)
        requires
            old(self).running(),
        ensures
            final(self).wf(),
            final(self).stored_or_internal(
                old(self),
                r,
                old(self).spec_constant(const_idx as int) is Some,
                dest,
                old(self).spec_constant(const_idx as int)->0,
            ),
    {
        let val = self.get_constant(const_idx as usize)?;
        self.store(dest, val)
    }

    /// `LoadNil`: register `dest` gets `Nil`.
    pub fn handle_load_nil(&mut self, dest: u16) -> (r: Result<(), VMError>)
        requires
            old(self).running(),
        ensures
            final(self).wf(),
            final(self).stored_or_internal(old(self), r, true, dest, LuaValue::Nil),
    {
        self.store(dest, LuaValue::Nil)
    }

    /// `LoadBool`: register `dest` gets the boolean.
    pub fn handle_load_bool(&mut self, dest: u16, value: bool) -> (r: Result<(), VMError>)
        requires
            old(self).running(),
        ensures
            final(self).wf(),
            final(self).stored_or_internal(old(self), r, true, dest, LuaValue::Boolean(value)),
    {
        self.store(dest, LuaValue::Boolean(value))
    }

    /// `GetGlobal`: register `dest` gets the value of the global that the
    /// string constant names. A global without a value is an
    /// `UndefinedVariable` error.
    pub fn handle_get_global(&mut self, dest: u16, name_idx: u16) -> (r: Result<(), VMError>)
        requires
            old(self).running(),
        ensures
            final(self).wf(),
            final(self).get_global_outcome(old(self), r, dest, name_idx),
    {
        let name = self.get_constant_string(name_idx as usize)?;
        match self.get_global(&name) {
            Some(val) => self.store(dest, val),
            None => Err(self.error(ErrorKind::UndefinedVariable(name))),
        }
    }

    /// `SetGlobal`: the global that the string constant names gets the
    /// value of register `src`.
    pub fn handle_set_global(&mut self, name_idx: u16, src: u16) -> (r: Result<(), VMError>)
        requires
            old(self).running(),
        ensures
            final(self).wf(),
            final(self).set_global_outcome(old(self), r, name_idx, src),
    {
        let name = self.get_constant_string(name_idx as usize)?;
        let val = self.get_reg(src as usize)?;
        let ghost key = name;
        self.set_global(name, val);
        proof {
            assert(self.frames_wf());
            assert(self.wf());
            lemma_global_put(old(self).globals@, key, old(self).reg(src as int));
        }
        self.advance_pc();
        Ok(())
    }

    /// The captured variable of the top frame with the given index.
    pub open spec fn spec_upvalue_handle(&self, idx: int) -> Option<usize> {
        if 0 <= idx < self.top().upvalues@.len() {
            Some(self.top().upvalues@[idx])
        } else {
            None
        }
    }

    /// The value of a captured variable: the value on its stack place while
    /// it is open, its own value once it is closed.
    pub open spec fn spec_upvalue_value(&self, h: usize) -> Option<LuaValue> {
        match spec_upvalue_at(self.heap.all_objects@, h) {
            Some(LuaUpValueState::Open(at)) => if at < self.value_stack.values@.len() {
                Some(self.value_stack.values@[at as int])
            } else {
                None
            },
            Some(LuaUpValueState::Closed(v)) => Some(v),
            None => None,
        }
    }

    /// `GetUpVal`: register `dest` gets the value of the captured variable
    /// with the given index. An index beyond the frame's captured variables
    /// is an `UndefinedUpValue` error.
    pub fn handle_get_upval(&mut self, dest: u16, upval_idx: u16) -> (r: Result<(), VMError>)
        requires
            old(self).running(),
        ensures
            final(self).wf(),
            final(self).get_upval_outcome(old(self), r, dest, upval_idx),
    {
        let n = self.call_stack.len();
        if upval_idx as usize >= self.call_stack[n - 1].upvalues.len() {
            return Err(self.error(ErrorKind::UndefinedUpValue(upval_idx)));
        }
        let h = self.call_stack[n - 1].upvalues[upval_idx as usize];
        let val = match self.heap.upvalue_state(h) {
            Some(LuaUpValueState::Open(at)) => {
                if at < self.value_stack.values.len() {
                    self.value_stack.values[at].dup()
                } else {
                    return Err(self.internal("open upvalue beyond the value stack"));
                }
            },
            Some(LuaUpValueState::Closed(v)) => v,
            None => {
                return Err(self.internal("upvalue refers to no upvalue object"));
            },
        };
        self.store(dest, val)
    }

    /// `SetUpVal`: the captured variable with the given index gets the
    /// value of register `src`: on its stack place while it is open, as its
    /// own value once it is closed.
    pub fn handle_set_upval(&mut self, upval_idx: u16, src: u16) -> (r: Result<(), VMError>)
        requires
            old(self).running(),
        ensures
            final(self).wf(),
            final(self).set_upval_outcome(old(self), r, upval_idx, src),
    {
        let n = self.call_stack.len();
        if upval_idx as usize >= self.call_stack[n - 1].upvalues.len() {
            return Err(self.error(ErrorKind::UndefinedUpValue(upval_idx)));
        }
        let h = self.call_stack[n - 1].upvalues[upval_idx as usize];
        let state = self.heap.upvalue_state(h);
        match state {
            Some(LuaUpValueState::Open(at)) => {
                if at >= self.value_stack.values.len() {
                    return Err(self.internal("open upvalue beyond the value stack"));
                }
                let new_val = self.get_reg(src as usize)?;
                self.value_stack.values[at] = new_val;
                proof {
                    self.lemma_same_frames(old(self));
                }
            },
            Some(LuaUpValueState::Closed(_)) => {
                let new_val = self.get_reg(src as usize)?;
                let ok = self.heap.upvalue_close(h, new_val);
                proof {
                    assert forall|x: usize|
                        (#[trigger] spec_open_at(self.heap.all_objects@, x)) is Some implies spec_open_at(
                        old(self).heap.all_objects@,
                        x,
                    ) == spec_open_at(self.heap.all_objects@, x) by {
                        if x != h {
                            assert(self.heap.all_objects@[x as int] == old(self).heap.all_objects@[x as int]);
                        }
                    }
                    self.lemma_heap_change(old(self));
                }
            },
            None => {
                return Err(self.internal("upvalue refers to no upvalue object"));
            },
        }
        self.advance_pc();
        Ok(())
    }
}

} // verus!
