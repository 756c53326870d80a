//! Tables.

use vstd::prelude::*;
use crate::backend::vm::error::{ErrorKind, VMError};
use crate::backend::vm::heap::{
    spec_open_at, spec_table_at, spec_table_get, spec_table_put, spec_table_size,
    HARD_MEMORY_LIMIT,
};
use crate::backend::vm::VirtualMachine;
use crate::common::object::{LuaTable, LuaValue};

verus! {

/// The text of the error for a table access on a value that is no table.
pub open spec fn spec_index_mismatch(write: bool, v: LuaValue) -> Seq<char> {
    (if write {
        "TypeMismatchException: attempt to index a non-table value (actual type: '"@
    } else {
        "TypeMismatchException: attempt to perform property lookup on a non-table value (actual type: '"@
    }) + v.spec_kind_name() + "')"@
}

impl VirtualMachine {
    /// What `NewTable` does to machine `old`: a new empty table is
    /// allocated and register `dest` refers to it.
    pub open spec fn new_table_outcome(&self, old: &VirtualMachine, r: Result<(), VMError>, dest: u16) -> bool {
        let fits = old.heap.total_allocated + spec_table_size(0) <= HARD_MEMORY_LIMIT;
        match r {
            Ok(()) => {
                &&& old.has_reg(dest as int)
                &&& fits
                &&& self.same_context(old)
                &&& self.top().pc == old.top().pc + 1
                &&& self.pending == old.pending
                &&& self.value_stack.values@ == old.value_stack.values@.update(
                    old.top().base_offset + dest,
                    LuaValue::Table(old.heap.all_objects@.len() as usize),
                )
                &&& self.heap.all_objects@.len() == old.heap.all_objects@.len() + 1
                &&& self.heap.all_objects@.subrange(0, old.heap.all_objects@.len() as int)
                    == old.heap.all_objects@
                &&& spec_table_at(self.heap.all_objects@, old.heap.all_objects@.len() as usize)
                    == Some(Seq::<(LuaValue, LuaValue)>::empty())
                &&& self.heap.total_allocated == old.heap.total_allocated + spec_table_size(0)
                &&& self.heap.string_pool == old.heap.string_pool
                &&& self.heap.threshold == old.heap.threshold
            },
            Err(e) => {
                &&& self.failed(old, e)
                &&& if !old.has_reg(dest as int) {
                    e.kind is InternalError
                } else {
                    !fits && e.kind is OutOfMemory
                }
            },
        }
    }

    /// `NewTable`: register `dest` gets a new empty table. Where the table
    /// does not fit the heap, an `OutOfMemory` error.
    pub fn handle_new_table(&mut self, dest: u16) -> (r: Result<(), VMError>)
        requires
            old(self).running(),
        ensures
            final(self).wf(),
            final(self).new_table_outcome(old(self), r, dest),
    {
        let n = self.call_stack.len();
        if dest as usize >= self.call_stack[n - 1].reg_count {
            return Err(self.internal("register out of range"));
        }
        let new_table = LuaTable { data: Vec::new(), metatable: None };
        match self.heap.alloc_table(new_table) {
            Some(h) => {
                proof {
                    assert(self.heap.all_objects@.subrange(
                        0,
                        old(self).heap.all_objects@.len() as int,
                    ) =~= old(self).heap.all_objects@);
                    assert forall|x: usize|
                        (#[trigger] spec_open_at(self.heap.all_objects@, x)) is Some implies spec_open_at(
                        old(self).heap.all_objects@,
                        x,
                    ) == spec_open_at(self.heap.all_objects@, x) by {}
                    self.lemma_heap_change(old(self));
                }
                let ghost mid = *self;
                self.call_stack[n - 1].set_reg(dest as usize, LuaValue::Table(h), &mut self.value_stack);
                self.call_stack[n - 1].pc = self.call_stack[n - 1].pc + 1;
                proof {
                    self.lemma_same_frames(&mid);
                }
                Ok(())
            },
            None => Err(self.error(ErrorKind::OutOfMemory)),
        }
    }

    /// What `SetTable` does to machine `old`.
    pub open spec fn set_table_outcome(
        &self,
        old: &VirtualMachine,
        r: Result<(), VMError>,
        t_reg: u16,
        k_reg: u16,
        v_reg: u16,
    ) -> bool {
        let in_range = old.has_reg(t_reg as int) && old.has_reg(k_reg as int) && old.has_reg(
            v_reg as int,
        );
        let table = old.reg(t_reg as int);
        let key = old.reg(k_reg as int);
        let value = old.reg(v_reg as int);
        match r {
            Ok(()) => {
                &&& in_range
                &&& table is Table
                &&& !(key is Nil)
                &&& spec_table_at(old.heap.all_objects@, table->Table_0) is Some
                &&& self.same_context(old)
                &&& self.top().pc == old.top().pc + 1
                &&& self.pending == old.pending
                &&& self.value_stack == old.value_stack
                &&& self.heap.all_objects@.len() == old.heap.all_objects@.len()
                &&& forall|x: int|
                    0 <= x < old.heap.all_objects@.len() && x != table->Table_0
                        ==> self.heap.all_objects@[x] == old.heap.all_objects@[x]
                &&& spec_table_at(self.heap.all_objects@, table->Table_0) == Some(
                    spec_table_put(
                        spec_table_at(old.heap.all_objects@, table->Table_0)->0,
                        key,
                        value,
                    ),
                )
                &&& self.heap.total_allocated == old.heap.total_allocated
                &&& self.heap.string_pool == old.heap.string_pool
            },
            Err(e) => {
                &&& self.failed(old, e)
                &&& if !in_range {
                    e.kind is InternalError
                } else if !(table is Table) {
                    e.kind is TypeError && e.kind->TypeError_0@ == spec_index_mismatch(true, table)
                } else if key is Nil {
                    e.kind is TypeError && e.kind->TypeError_0@
                        == "NullPointerException: table index is nil (illegal key)"@
                } else {
                    spec_table_at(old.heap.all_objects@, table->Table_0) is None
                        && e.kind is InternalError
                }
            },
        }
    }

    /// `SetTable`: the table in register `t_reg` gets the value of
    /// register `v_reg` under the key in register `k_reg`. A value that is no
    /// table and a key that is `Nil` are `TypeError`s.
    pub fn handle_set_table(&mut self, t_reg: u16, k_reg: u16, v_reg: u16) -> (r: Result<(), VMError>)
        requires
            old(self).running(),
        ensures
            final(self).wf(),
            final(self).set_table_outcome(old(self), r, t_reg, k_reg, v_reg),
    {
        let table_val = self.get_reg(t_reg as usize)?;
        let key = self.get_reg(k_reg as usize)?;
        let val = self.get_reg(v_reg as usize)?;
        match table_val {
            LuaValue::Table(h) => {
                match key {
                    LuaValue::Nil => {
                        return Err(
                            self.error(
                                ErrorKind::TypeError(
                                    String::from_str(
                                        "NullPointerException: table index is nil (illegal key)",
                                    ),
                                ),
                            ),
                        );
                    },
                    _ => {},
                }
                if !self.heap.table_put(h, key, val) {
                    return Err(self.internal("table value refers to no table"));
                }
                proof {
                    assert forall|x: usize|
                        (#[trigger] spec_open_at(self.heap.all_objects@, x)) is Some implies spec_open_at(
                        old(self).heap.all_objects@,
                        x,
                    ) == spec_open_at(self.heap.all_objects@, x) by {
                        if x != h {
                            assert(self.heap.all_objects@[x as int] == old(self).heap.all_objects@[x as int]);
                        }
                    }
                    self.lemma_heap_change(old(self));
                }
                self.advance_pc();
                Ok(())
            },
            _ => {
                let t = table_val.kind_name();
                let mut msg = String::from_str(
                    "TypeMismatchException: attempt to index a non-table value (actual type: '",
                );
                msg.append(t.as_str());
                msg.append("')");
                Err(self.error(ErrorKind::TypeError(msg)))
            },
        }
    }

    /// What `GetTable` does to machine `old`.
    pub open spec fn get_table_outcome(
        &self,
        old: &VirtualMachine,
        r: Result<(), VMError>,
        dest: u16,
        t_reg: u16,
        k_reg: u16,
    ) -> bool {
        let in_range = old.has_reg(t_reg as int) && old.has_reg(k_reg as int);
        let table = old.reg(t_reg as int);
        let key = old.reg(k_reg as int);
        match r {
            Ok(()) => {
                &&& in_range
                &&& old.has_reg(dest as int)
                &&& table is Table
                &&& spec_table_at(old.heap.all_objects@, table->Table_0) is Some
                &&& self.stored(
                    old,
                    dest as int,
                    spec_table_get(spec_table_at(old.heap.all_objects@, table->Table_0)->0, key),
                )
            },
            Err(e) => {
                &&& self.failed(old, e)
                &&& if !in_range {
                    e.kind is InternalError
                } else if !(table is Table) {
                    e.kind is TypeError && e.kind->TypeError_0@ == spec_index_mismatch(
                        false,
                        table,
                    )
                } else {
                    (spec_table_at(old.heap.all_objects@, table->Table_0) is None || !old.has_reg(
                        dest as int,
                    )) && e.kind is InternalError
                }
            },
        }
    }

    /// `GetTable`: register `dest` gets what the table in register `t_reg`
    /// holds under the key in register `k_reg`, `Nil` where it holds nothing.
    /// A value that is no table is a `TypeError`.
    pub fn handle_get_table(&mut self, dest: u16, t_reg: u16, k_reg: u16) -> (r: Result<(), VMError>)
        requires
            old(self).running(),
        ensures
            final(self).wf(),
            final(self).get_table_outcome(old(self), r, dest, t_reg, k_reg),
    {
        let table_val = self.get_reg(t_reg as usize)?;
        let key = self.get_reg(k_reg as usize)?;
        match table_val {
            LuaValue::Table(h) => {
                match self.heap.table_get(h, &key) {
                    Some(v) => self.store(dest, v),
                    None => Err(self.internal("table value refers to no table")),
                }
            },
            _ => {
                let t = table_val.kind_name();
                let mut msg = String::from_str(
                    "TypeMismatchException: attempt to perform property lookup on a non-table value (actual type: '",
                );
                msg.append(t.as_str());
                msg.append("')");
                Err(self.error(ErrorKind::TypeError(msg)))
            },
        }
    }
}

} // verus!
