//! The instantiation of closures.

use vstd::prelude::*;
use crate::backend::vm::error::{ErrorKind, VMError};
use crate::backend::vm::heap::{
    spec_function_at, spec_function_size, spec_open_at, spec_upvalue_at, HARD_MEMORY_LIMIT,
    UPVALUE_HEADER_SIZE,
};
use crate::backend::vm::stack::StackFrame;
use crate::backend::vm::{
    lemma_frames_end, spec_frames_wf, spec_lists, spec_registered, VirtualMachine,
};
use crate::common::object::{LFunction, LuaObject, LuaUpValue, LuaUpValueState, LuaValue};
use crate::common::opcode::OpCode;
use crate::frontend::ir::{IRUpVal, IRUpValType};

verus! {

/// Whether every entry of `a` is an entry of `b`.
pub open spec fn spec_entries_kept(a: Seq<(usize, usize)>, b: Seq<(usize, usize)>) -> bool {
    forall|e: int| 0 <= e < a.len() ==> b.contains(#[trigger] a[e])
}

/// The handle that the first entry for the register has.
pub open spec fn spec_entry_for(entries: Seq<(usize, usize)>, slot: usize) -> Option<usize>
    decreases entries.len(),
{
    if entries.len() == 0 {
        None
    } else {
        match spec_entry_for(entries.drop_last(), slot) {
            Some(h) => Some(h),
            None => if entries.last().0 == slot {
                Some(entries.last().1)
            } else {
                None
            },
        }
    }
}

/// What `spec_entry_for` finds.
pub proof fn lemma_entry_for(entries: Seq<(usize, usize)>, slot: usize)
    ensures
        match spec_entry_for(entries, slot) {
            Some(h) => exists|e: int|
                0 <= e < entries.len() && (#[trigger] entries[e]).0 == slot && entries[e].1 == h
                    && forall|j: int| 0 <= j < e ==> (#[trigger] entries[j]).0 != slot,
            None => forall|j: int| 0 <= j < entries.len() ==> (#[trigger] entries[j]).0 != slot,
        },
    decreases entries.len(),
{
    if entries.len() > 0 {
        lemma_entry_for(entries.drop_last(), slot);
        match spec_entry_for(entries.drop_last(), slot) {
            Some(h) => {
                let e = choose|e: int|
                    0 <= e < entries.len() - 1 && (#[trigger] entries.drop_last()[e]).0 == slot
                        && entries.drop_last()[e].1 == h && forall|j: int|
                        0 <= j < e ==> (#[trigger] entries.drop_last()[j]).0 != slot;
                assert(entries[e] == entries.drop_last()[e]);
                assert forall|j: int| 0 <= j < e implies (#[trigger] entries[j]).0 != slot by {
                    assert(entries.drop_last()[j] == entries[j]);
                }
            },
            None => {
                assert forall|j: int| 0 <= j < entries.len() - 1 implies (#[trigger] entries[j]).0
                    != slot by {
                    assert(entries.drop_last()[j] == entries[j]);
                }
                if entries.last().0 == slot {
                    assert(entries[entries.len() - 1].0 == slot);
                }
            },
        }
    }
}

/// A copy of the instructions.
pub fn copy_opcodes(v: &Vec<OpCode>) -> (r: Vec<OpCode>)
    ensures
        r@ == v@,
{
    let mut r: Vec<OpCode> = Vec::new();
    let mut i: usize = 0;
    while i < v.len()
        invariant
            i <= v.len(),
            r@ == v@.subrange(0, i as int),
        decreases v.len() - i,
    {
        r.push(v[i]);
        proof {
            assert(r@ =~= v@.subrange(0, i + 1));
        }
        i += 1;
    }
    proof {
        assert(v@.subrange(0, v@.len() as int) =~= v@);
    }
    r
}

/// A copy of the values.
pub fn copy_values(v: &Vec<LuaValue>) -> (r: Vec<LuaValue>)
    ensures
        r@ == v@,
{
    let mut r: Vec<LuaValue> = Vec::new();
    let mut i: usize = 0;
    while i < v.len()
        invariant
            i <= v.len(),
            r@ == v@.subrange(0, i as int),
        decreases v.len() - i,
    {
        r.push(v[i].dup());
        proof {
            assert(r@ =~= v@.subrange(0, i + 1));
        }
        i += 1;
    }
    proof {
        assert(v@.subrange(0, v@.len() as int) =~= v@);
    }
    r
}

/// Where a new entry for the register goes in the list: before the first
/// entry of a higher register, or at the end.
pub open spec fn spec_insert_pos(entries: Seq<(usize, usize)>, slot: usize) -> int
    decreases entries.len(),
{
    if entries.len() == 0 {
        0
    } else {
        let p = spec_insert_pos(entries.drop_last(), slot);
        if p < entries.len() - 1 {
            p
        } else if entries.last().0 > slot {
            entries.len() - 1
        } else {
            entries.len() as int
        }
    }
}

/// What `spec_insert_pos` finds.
pub proof fn lemma_insert_pos(entries: Seq<(usize, usize)>, slot: usize)
    ensures
        0 <= spec_insert_pos(entries, slot) <= entries.len(),
        forall|j: int|
            0 <= j < spec_insert_pos(entries, slot) ==> (#[trigger] entries[j]).0 <= slot,
        spec_insert_pos(entries, slot) < entries.len() ==> entries[spec_insert_pos(
            entries,
            slot,
        )].0 > slot,
    decreases entries.len(),
{
    if entries.len() > 0 {
        lemma_insert_pos(entries.drop_last(), slot);
        let p = spec_insert_pos(entries.drop_last(), slot);
        assert forall|j: int| 0 <= j < spec_insert_pos(entries, slot) implies (
        #[trigger] entries[j]).0 <= slot by {
            if j < entries.len() - 1 {
                assert(entries.drop_last()[j] == entries[j]);
            }
        }
        if p < entries.len() - 1 {
            assert(entries.drop_last()[p] == entries[p]);
        }
    }
}

impl VirtualMachine {
    /// Whether this machine is machine `old` after the upvalue object `h`
    /// for register `slot` of the top frame was taken: where the frame lists
    /// one for the register, it is that one and nothing has changed; else the
    /// heap has one more object, an upvalue open on the register, and the
    /// frame lists it, in the order of the registers.
    pub open spec fn captured_local(&self, old: &VirtualMachine, slot: usize, h: usize) -> bool {
        let entries = old.top().out_upvalues@;
        match spec_entry_for(entries, slot) {
            Some(x) => h == x && *self == *old,
            None => {
                let n = old.call_stack@.len();
                &&& h == old.heap.all_objects@.len()
                &&& self.heap.grown_by(
                    &old.heap,
                    LuaObject::UpValue(
                        LuaUpValue {
                            value: LuaUpValueState::Open((old.top().base_offset + slot) as usize),
                        },
                    ),
                    UPVALUE_HEADER_SIZE as nat,
                )
                &&& self.call_stack@.len() == n
                &&& forall|i: int| 0 <= i < n - 1 ==> self.call_stack@[i] == old.call_stack@[i]
                &&& self.top().func_name == old.top().func_name
                &&& self.top().base_offset == old.top().base_offset
                &&& self.top().reg_count == old.top().reg_count
                &&& self.top().ret_dest == old.top().ret_dest
                &&& self.top().upvalues == old.top().upvalues
                &&& self.top().pc == old.top().pc
                &&& self.top().out_upvalues@ == entries.insert(
                    spec_insert_pos(entries, slot),
                    (slot, h),
                )
                &&& self.value_stack == old.value_stack
                &&& self.globals == old.globals
                &&& self.func_meta == old.func_meta
                &&& self.log_level == old.log_level
                &&& self.pending == old.pending
                &&& self.output == old.output
            },
        }
    }

    /// Whether this machine is machine `old` after the upvalue object `h`
    /// that descriptor `d` asks for was taken: for a local of the running
    /// function, as [`VirtualMachine::captured_local`] says; for a captured
    /// variable of the running function, that variable's object, with nothing
    /// changed.
    pub open spec fn captured_step(&self, old: &VirtualMachine, d: IRUpVal, h: usize) -> bool {
        match d.ty {
            IRUpValType::LocalVar(slot) => slot < old.top().reg_count && self.captured_local(
                old,
                slot,
                h,
            ),
            IRUpValType::UpVal(slot) => slot < old.top().upvalues@.len() && h
                == old.top().upvalues@[slot as int] && *self == *old,
        }
    }

    /// Whether this machine is machine `old` after the upvalue objects
    /// that the first `i` descriptors ask for were taken, one after the other,
    /// and `handles` are those objects.
    pub open spec fn captured_upto(
        &self,
        old: &VirtualMachine,
        descs: Seq<IRUpVal>,
        handles: Seq<usize>,
        i: int,
    ) -> bool
        decreases i,
    {
        if i <= 0 {
            *self == *old
        } else {
            i <= handles.len() && i <= descs.len() && exists|mid: VirtualMachine| #[trigger]
                self.captured_step(&mid, descs[i - 1], handles[i - 1]) && mid.captured_upto(
                    old,
                    descs,
                    handles,
                    i - 1,
                )
        }
    }

    /// The taking of the first `i` objects depends on the first `i`
    /// handles only.
    pub proof fn lemma_captured_upto_prefix(
        &self,
        old: &VirtualMachine,
        descs: Seq<IRUpVal>,
        a: Seq<usize>,
        b: Seq<usize>,
        i: int,
    )
        requires
            self.captured_upto(old, descs, a, i),
            i <= b.len(),
            forall|j: int| 0 <= j < i ==> a[j] == b[j],
        ensures
            self.captured_upto(old, descs, b, i),
        decreases i,
    {
        if i > 0 {
            let mid = choose|mid: VirtualMachine| #[trigger]
                self.captured_step(&mid, descs[i - 1], a[i - 1]) && mid.captured_upto(
                    old,
                    descs,
                    a,
                    i - 1,
                );
            mid.lemma_captured_upto_prefix(old, descs, a, b, i - 1);
            assert(self.captured_step(&mid, descs[i - 1], b[i - 1]));
        }
    }

    /// Whether the upvalue object that descriptor `d` asks for cannot be
    /// taken for want of memory: the top frame lists none for the local, and
    /// a new one does not fit the heap.
    pub open spec fn capture_fails(&self, d: IRUpVal) -> bool {
        d.ty matches IRUpValType::LocalVar(slot) && spec_entry_for(
            self.top().out_upvalues@,
            slot,
        ) is None && self.heap.total_allocated + UPVALUE_HEADER_SIZE > HARD_MEMORY_LIMIT
    }

    /// Whether the machine is `old` but for the heap, which has the
    /// objects of `old` and maybe more, and the list of open upvalues of the
    /// top frame, which has the entries of `old` and maybe more.
    #[verifier::opaque]
    pub open spec fn captured_into(&self, old: &VirtualMachine) -> bool {
        let n = old.call_stack@.len();
        &&& self.call_stack@.len() == n
        &&& forall|i: int| 0 <= i < n - 1 ==> self.call_stack@[i] == old.call_stack@[i]
        &&& self.top().func_name == old.top().func_name
        &&& self.top().base_offset == old.top().base_offset
        &&& self.top().reg_count == old.top().reg_count
        &&& self.top().ret_dest == old.top().ret_dest
        &&& self.top().upvalues == old.top().upvalues
        &&& self.top().pc == old.top().pc
        &&& spec_entries_kept(old.top().out_upvalues@, self.top().out_upvalues@)
        &&& self.value_stack == old.value_stack
        &&& self.globals == old.globals
        &&& self.func_meta == old.func_meta
        &&& self.log_level == old.log_level
        &&& self.pending == old.pending
        &&& self.output == old.output
        &&& self.heap.all_objects@.len() >= old.heap.all_objects@.len()
        &&& self.heap.all_objects@.subrange(0, old.heap.all_objects@.len() as int)
            == old.heap.all_objects@
        &&& self.heap.string_pool == old.heap.string_pool
        &&& self.heap.threshold == old.heap.threshold
    }

    /// Being `captured_into` is transitive.
    pub proof fn lemma_captured_trans(&self, mid: &VirtualMachine, old: &VirtualMachine)
        requires
            old.call_stack@.len() > 0,
            mid.captured_into(old),
            self.captured_into(mid),
        ensures
            self.captured_into(old),
    {
        reveal(VirtualMachine::captured_into);
        let n = old.call_stack@.len();
        assert forall|i: int| 0 <= i < n - 1 implies self.call_stack@[i] == old.call_stack@[i] by {
            assert(mid.call_stack@[i] == old.call_stack@[i]);
        }
        assert forall|e: int| 0 <= e < old.top().out_upvalues@.len() implies self.top().out_upvalues@.contains(
            #[trigger] old.top().out_upvalues@[e],
        ) by {
            let x = old.top().out_upvalues@[e];
            assert(mid.top().out_upvalues@.contains(x));
            let k = choose|k: int|
                0 <= k < mid.top().out_upvalues@.len() && mid.top().out_upvalues@[k] == x;
            assert(self.top().out_upvalues@.contains(mid.top().out_upvalues@[k]));
        }
        assert(self.heap.all_objects@.subrange(0, old.heap.all_objects@.len() as int)
            =~= old.heap.all_objects@) by {
            assert forall|i: int| 0 <= i < old.heap.all_objects@.len() implies self.heap.all_objects@[i]
                == old.heap.all_objects@[i] by {
                assert(mid.heap.all_objects@.subrange(0, old.heap.all_objects@.len() as int)[i]
                    == mid.heap.all_objects@[i]);
                assert(self.heap.all_objects@.subrange(0, mid.heap.all_objects@.len() as int)[i]
                    == self.heap.all_objects@[i]);
            }
        }
    }

    /// The upvalue object for register `slot` of the top frame: the one
    /// that the frame lists for the register already, so that closures which
    /// capture the same variable share it, or a new one, open on the register,
    /// which the frame then lists, in the order of the registers.
    pub fn capture_local(&mut self, slot: usize) -> (r: Result<usize, VMError>)
        requires
            old(self).wf(),
            old(self).call_stack@.len() > 0,
        ensures
            final(self).wf(),
            match r {
                Ok(h) => {
                    &&& slot < old(self).top().reg_count
                    &&& final(self).captured_local(old(self), slot, h)
                    &&& final(self).captured_into(old(self))
                    &&& spec_lists(
                        final(self).top(),
                        h,
                        (old(self).top().base_offset + slot) as usize,
                    )
                    &&& match spec_entry_for(old(self).top().out_upvalues@, slot) {
                        Some(x) => h == x && final(self).heap == old(self).heap && final(self).call_stack == old(self).call_stack,
                        None => {
                            &&& h == old(self).heap.all_objects@.len()
                            &&& final(self).heap.all_objects@.len() == h + 1
                            &&& spec_upvalue_at(final(self).heap.all_objects@, h) == Some(
                                LuaUpValueState::Open(
                                    (old(self).top().base_offset + slot) as usize,
                                ),
                            )
                            &&& final(self).heap.total_allocated == old(self).heap.total_allocated
                                + UPVALUE_HEADER_SIZE
                            &&& final(self).top().out_upvalues@.len() == old(self).top().out_upvalues@.len() + 1
                        },
                    }
                },
                Err(e) => old(self).locates(e) && *final(self) == *old(self) && if slot >= old(self).top().reg_count {
                    e.kind is InternalError
                } else {
                    spec_entry_for(old(self).top().out_upvalues@, slot) is None && old(self).heap.total_allocated + UPVALUE_HEADER_SIZE > HARD_MEMORY_LIMIT
                        && e.kind is OutOfMemory
                },
            },
    {
        reveal(VirtualMachine::captured_into);
        let n = self.call_stack.len();
        let regs = self.call_stack[n - 1].reg_count;
        let base = self.call_stack[n - 1].base_offset;
        if slot >= regs {
            return Err(self.internal("captured register out of range"));
        }
        let ghost entries = self.call_stack@[n - 1].out_upvalues@;
        let ghost frames = self.call_stack@;
        proof {
            lemma_entry_for(entries, slot);
            lemma_frames_end(frames, self.value_stack.values@.len(), n - 1);
        }
        let count = self.call_stack[n - 1].out_upvalues.len();
        let _len = self.value_stack.values.len();
        let mut k: usize = 0;
        let mut pos: usize = count;
        proof {
            assert(entries.subrange(0, 0) =~= Seq::<(usize, usize)>::empty());
        }
        while k < count
            invariant
                k <= count,
                n == self.call_stack@.len(),
                n > 0,
                *self == *old(self),
                pos == if spec_insert_pos(entries.subrange(0, k as int), slot) < k {
                    spec_insert_pos(entries.subrange(0, k as int), slot)
                } else {
                    count as int
                },
                self.wf(),
                base + regs <= self.value_stack.values@.len(),
                self.value_stack.values@.len() <= usize::MAX,
                entries == self.call_stack@[n - 1].out_upvalues@,
                count == entries.len(),
                slot < regs,
                regs == self.call_stack@[n - 1].reg_count,
                base == self.call_stack@[n - 1].base_offset,
                forall|j: int| 0 <= j < k ==> (#[trigger] entries[j]).0 != slot,
                pos <= count,
                pos == count || pos < k,
            decreases count - k,
        {
            let (s, h) = self.call_stack[n - 1].out_upvalues[k];
            if s == slot {
                proof {
                    reveal(VirtualMachine::captured_into);
                    lemma_entry_for(entries, slot);
                    let x = spec_entry_for(entries, slot)->0;
                    let e = choose|e: int|
                        0 <= e < entries.len() && (#[trigger] entries[e]).0 == slot && entries[e].1
                            == x && forall|j: int| 0 <= j < e ==> (#[trigger] entries[j]).0 != slot;
                    if e < k {
                        assert(entries[e].0 != slot);
                    } else if e > k {
                        assert(entries[k as int].0 != slot);
                    }
                    assert(entries[k as int].1 == h);
                    assert(self.top() == self.call_stack@[n - 1]);
                    assert(self.top().out_upvalues@[k as int].1 == h);
                    assert(self.top().out_upvalues@[k as int].0 == slot);
                    assert(spec_lists(self.top(), h, (base + slot) as usize));
                    assert forall|e: int| 0 <= e < entries.len() implies entries.contains(
                        #[trigger] entries[e],
                    ) by {}
                    assert(self.heap.all_objects@.subrange(0, self.heap.all_objects@.len() as int)
                        =~= self.heap.all_objects@);
                }
                return Ok(h);
            }
            if s > slot && pos == count {
                pos = k;
            }
            proof {
                assert(entries.subrange(0, k + 1).drop_last() =~= entries.subrange(0, k as int));
                assert(entries.subrange(0, k + 1).last() == entries[k as int]);
                lemma_insert_pos(entries.subrange(0, k as int), slot);
            }
            k += 1;
        }
        proof {
            lemma_entry_for(entries, slot);
            assert(entries.subrange(0, count as int) =~= entries);
            lemma_insert_pos(entries, slot);
            assert(pos == spec_insert_pos(entries, slot));
        }
        let _len = self.value_stack.values.len();
        let h = match self.heap.alloc_upvalue_object(
            LuaUpValue { value: LuaUpValueState::Open(base + slot) },
        ) {
            Some(h) => h,
            None => {
                return Err(self.error(ErrorKind::OutOfMemory));
            },
        };
        self.call_stack[n - 1].out_upvalues.insert(pos, (slot, h));
        proof {
            assert(self.top().out_upvalues@ =~= entries.insert(pos as int, (slot, h)));
            assert forall|i: int| 0 <= i < n - 1 implies self.call_stack@[i] == old(self).call_stack@[i] by {}
        }
        proof {
            let objs = self.heap.all_objects@;
            let before = old(self).heap.all_objects@;
            let now = self.call_stack@;
            let added = self.top().out_upvalues@;
            assert(added[pos as int] == (slot, h));
            assert(spec_lists(self.top(), h, (base + slot) as usize));
            assert forall|e: int| 0 <= e < entries.len() implies added.contains(
                #[trigger] entries[e],
            ) by {
                if e < pos {
                    assert(added[e] == entries[e]);
                } else {
                    assert(added[e + 1] == entries[e]);
                }
            }
            assert(objs.subrange(0, before.len() as int) =~= before);
            assert forall|i: int, j: int|
                0 <= i < now.len() && j == i + 1 && j < now.len() implies (
            #[trigger] now[j]).base_offset == (#[trigger] now[i]).base_offset
                + now[i].reg_count by {
                assert(frames[j].base_offset == frames[i].base_offset + frames[i].reg_count);
            }
            assert(spec_frames_wf(now, self.value_stack.values@.len()));
            assert forall|x: usize| (#[trigger] spec_open_at(objs, x)) is Some implies spec_registered(
                now,
                x,
                spec_open_at(objs, x)->0,
            ) by {
                let idx = spec_open_at(objs, x)->0;
                if x == h {
                    assert(spec_lists(now[n - 1], x, idx));
                } else {
                    assert(spec_open_at(before, x) == Some(idx));
                    assert(spec_registered(frames, x, idx));
                    let f = choose|f: int|
                        0 <= f < frames.len() && spec_lists(#[trigger] frames[f], x, idx);
                    if f == n - 1 {
                        let e = choose|e: int|
                            0 <= e < entries.len() && (#[trigger] entries[e]).1 == x && entries[e].0
                                < frames[f].reg_count && idx == frames[f].base_offset
                                + entries[e].0;
                        if e < pos {
                            assert(added[e] == entries[e]);
                        } else {
                            assert(added[e + 1] == entries[e]);
                        }
                        assert(spec_lists(now[f], x, idx));
                    } else {
                        assert(now[f] == frames[f]);
                    }
                }
            }
        }
        Ok(h)
    }
}

/// Whether the frame has the register or the captured variable that each
/// descriptor names.
pub open spec fn spec_descriptors_valid(frame: StackFrame, descs: Seq<IRUpVal>) -> bool {
    forall|i: int|
        0 <= i < descs.len() ==> match (#[trigger] descs[i]).ty {
            IRUpValType::LocalVar(slot) => slot < frame.reg_count,
            IRUpValType::UpVal(slot) => slot < frame.upvalues@.len(),
        }
}

/// Whether `captured` holds, for each of the first `n` descriptors, the
/// upvalue object that the descriptor asks for: one that the frame lists for
/// the local, or the captured variable of the frame itself.
pub open spec fn spec_captures(
    frame: StackFrame,
    descs: Seq<IRUpVal>,
    captured: Seq<usize>,
    n: int,
) -> bool {
    &&& captured.len() >= n
    &&& forall|i: int|
        0 <= i < n ==> match (#[trigger] descs[i]).ty {
            IRUpValType::LocalVar(slot) => spec_lists(
                frame,
                captured[i],
                (frame.base_offset + slot) as usize,
            ),
            IRUpValType::UpVal(slot) => slot < frame.upvalues@.len() && captured[i]
                == frame.upvalues@[slot as int],
        }
}

impl VirtualMachine {
    /// The metadata of the prototype that `FnProto` instantiates: the
    /// prototype with the given index among those that the running function
    /// contains.
    pub open spec fn spec_prototype(&self, proto_idx: int) -> Option<int> {
        match self.spec_meta_index(self.top().func_name@) {
            Some(cm) => if 0 <= proto_idx < self.func_meta@[cm].1.child_protos@.len() {
                self.spec_meta_index(self.func_meta@[cm].1.child_protos@[proto_idx]@)
            } else {
                None
            },
            None => None,
        }
    }

    /// What `FnProto` does to machine `old`: the upvalues that the
    /// prototype's descriptors ask for are captured, a closure with the
    /// prototype's code and constants is allocated, and register `dest` refers
    /// to it.
    #[verifier::opaque]
    pub open spec fn fn_proto_outcome(
        &self,
        old: &VirtualMachine,
        r: Result<(), VMError>,
        dest: u16,
        proto_idx: u16,
    ) -> bool {
        match old.spec_prototype(proto_idx as int) {
            None => r is Err && r->Err_0.kind is InternalError && self.failed(old, r->Err_0),
            Some(sm) => {
                let name = old.func_meta@[sm].0;
                let meta = old.func_meta@[sm].1;
                let descs = meta.upvalues_metadata@;
                let size = spec_function_size(meta.bytecode@.len(), meta.constants@.len());
                if !old.has_reg(dest as int) || !spec_descriptors_valid(old.top(), descs) {
                    r is Err && r->Err_0.kind is InternalError && self.failed(old, r->Err_0)
                } else {
                    match r {
                        Ok(()) => {
                            let h = (self.heap.all_objects@.len() - 1) as usize;
                            let n = old.call_stack@.len();
                            &&& self.call_stack@.len() == n
                            &&& forall|i: int|
                                0 <= i < n - 1 ==> self.call_stack@[i] == old.call_stack@[i]
                            &&& self.top().func_name == old.top().func_name
                            &&& self.top().base_offset == old.top().base_offset
                            &&& self.top().reg_count == old.top().reg_count
                            &&& self.top().ret_dest == old.top().ret_dest
                            &&& self.top().upvalues == old.top().upvalues
                            &&& self.top().pc == old.top().pc + 1
                            &&& spec_entries_kept(
                                old.top().out_upvalues@,
                                self.top().out_upvalues@,
                            )
                            &&& self.globals == old.globals
                            &&& self.func_meta == old.func_meta
                            &&& self.log_level == old.log_level
                            &&& self.pending == old.pending
                            &&& self.output == old.output
                            &&& self.heap.all_objects@.len() > old.heap.all_objects@.len()
                            &&& self.heap.all_objects@.subrange(
                                0,
                                old.heap.all_objects@.len() as int,
                            ) == old.heap.all_objects@
                            &&& self.heap.string_pool == old.heap.string_pool
                            &&& self.heap.threshold == old.heap.threshold
                            &&& self.value_stack.values@ == old.value_stack.values@.update(
                                old.top().base_offset + dest,
                                LuaValue::Function(h),
                            )
                            &&& spec_function_at(self.heap.all_objects@, h) is Some
                            &&& spec_function_at(self.heap.all_objects@, h)->0.name@ == name@
                            &&& spec_function_at(self.heap.all_objects@, h)->0.opcodes@
                                == meta.bytecode@
                            &&& spec_function_at(self.heap.all_objects@, h)->0.constants@
                                == meta.constants@
                            &&& spec_function_at(self.heap.all_objects@, h)->0.num_locals
                                == meta.num_locals
                            &&& spec_function_at(self.heap.all_objects@, h)->0.max_stack_size
                                == meta.max_stack_size
                            &&& spec_function_at(self.heap.all_objects@, h)->0.upvalues@.len()
                                == descs.len()
                            &&& spec_captures(
                                self.top(),
                                descs,
                                spec_function_at(self.heap.all_objects@, h)->0.upvalues@,
                                descs.len() as int,
                            )
                        },
                        Err(e) => e.kind is OutOfMemory && old.locates(e)
                            && old.heap.total_allocated + descs.len() * UPVALUE_HEADER_SIZE + size
                            > HARD_MEMORY_LIMIT,
                    }
                }
            },
        }
    }

    fn descriptors_valid(&self, sm: usize) -> (r: bool)
        requires
            self.call_stack@.len() > 0,
            sm < self.func_meta@.len(),
        ensures
            r == spec_descriptors_valid(self.top(), self.func_meta@[sm as int].1.upvalues_metadata@),
    {
        let n = self.call_stack.len();
        let mut i: usize = 0;
        while i < self.func_meta[sm].1.upvalues_metadata.len()
            invariant
                i <= self.func_meta@[sm as int].1.upvalues_metadata@.len(),
                n == self.call_stack@.len(),
                n > 0,
                sm < self.func_meta@.len(),
                forall|j: int|
                    0 <= j < i ==> match (
                    #[trigger] self.func_meta@[sm as int].1.upvalues_metadata@[j]).ty {
                        IRUpValType::LocalVar(slot) => slot < self.top().reg_count,
                        IRUpValType::UpVal(slot) => slot < self.top().upvalues@.len(),
                    },
            decreases self.func_meta@[sm as int].1.upvalues_metadata@.len() - i,
        {
            let ok = match self.func_meta[sm].1.upvalues_metadata[i].ty {
                IRUpValType::LocalVar(slot) => slot < self.call_stack[n - 1].reg_count,
                IRUpValType::UpVal(slot) => slot < self.call_stack[n - 1].upvalues.len(),
            };
            if !ok {
                return false;
            }
            i += 1;
        }
        true
    }

    fn capture_all(&mut self, sm: usize) -> (r: Result<Vec<usize>, VMError>)
        requires
            old(self).running(),
            sm < old(self).func_meta@.len(),
            spec_descriptors_valid(
                old(self).top(),
                old(self).func_meta@[sm as int].1.upvalues_metadata@,
            ),
        ensures
            final(self).running(),
            final(self).captured_into(old(self)),
            final(self).top().reg_count == old(self).top().reg_count,
            final(self).top().base_offset == old(self).top().base_offset,
            final(self).top().pc == old(self).top().pc,
            final(self).func_meta == old(self).func_meta,
            forall|e: VMError| final(self).locates(e) ==> old(self).locates(e),
            final(self).heap.total_allocated <= old(self).heap.total_allocated + old(self).func_meta@[sm as int].1.upvalues_metadata@.len() * UPVALUE_HEADER_SIZE,
            match r {
                Ok(captured) => captured@.len() == old(self).func_meta@[sm as int].1.upvalues_metadata@.len() && spec_captures(
                    final(self).top(),
                    old(self).func_meta@[sm as int].1.upvalues_metadata@,
                    captured@,
                    captured@.len() as int,
                ) && final(self).captured_upto(
                    old(self),
                    old(self).func_meta@[sm as int].1.upvalues_metadata@,
                    captured@,
                    captured@.len() as int,
                ),
                Err(e) => e.kind is OutOfMemory && old(self).locates(e) && final(self).heap.total_allocated + UPVALUE_HEADER_SIZE > HARD_MEMORY_LIMIT
                    && exists|handles: Seq<usize>, i: int|
                    #![trigger final(self).captured_upto(old(self), old(self).func_meta@[sm as int].1.upvalues_metadata@, handles, i)]
                    0 <= i < old(self).func_meta@[sm as int].1.upvalues_metadata@.len()
                        && final(self).captured_upto(
                        old(self),
                        old(self).func_meta@[sm as int].1.upvalues_metadata@,
                        handles,
                        i,
                    ) && final(self).capture_fails(
                        old(self).func_meta@[sm as int].1.upvalues_metadata@[i],
                    ),
            },
    {
        reveal(VirtualMachine::captured_into);
        let n = self.call_stack.len();
        let ghost descs = self.func_meta@[sm as int].1.upvalues_metadata@;
        let count = self.func_meta[sm].1.upvalues_metadata.len();
        let mut captured: Vec<usize> = Vec::new();
        let mut i: usize = 0;
        proof {
            assert(self.heap.all_objects@.subrange(0, self.heap.all_objects@.len() as int)
                =~= self.heap.all_objects@);
            assert forall|e: int|
                0 <= e < self.top().out_upvalues@.len() implies self.top().out_upvalues@.contains(
                #[trigger] self.top().out_upvalues@[e],
            ) by {}
        }
        while i < count
            invariant
                i <= count,
                n == self.call_stack@.len(),
                n > 0,
                sm < self.func_meta@.len(),
                old(self).call_stack@.len() == n,
                old(self).running(),
                self.func_meta == old(self).func_meta,
                self.top().reg_count == old(self).top().reg_count,
                self.top().base_offset == old(self).top().base_offset,
                self.top().upvalues == old(self).top().upvalues,
                self.top().pc == old(self).top().pc,
                forall|e: VMError| self.locates(e) ==> old(self).locates(e),
                descs == self.func_meta@[sm as int].1.upvalues_metadata@,
                count == descs.len(),
                spec_descriptors_valid(old(self).top(), descs),
                self.wf(),
                self.captured_into(old(self)),
                self.heap.total_allocated <= old(self).heap.total_allocated + i
                    * UPVALUE_HEADER_SIZE,
                captured@.len() == i,
                spec_captures(self.top(), descs, captured@, i as int),
                self.captured_upto(old(self), descs, captured@, i as int),
            decreases count - i,
        {
            proof {
                reveal(VirtualMachine::captured_into);
            }
            let d = self.func_meta[sm].1.upvalues_metadata[i];
            let ghost before = *self;
            let ghost taken = captured@;
            let h = match d.ty {
                IRUpValType::LocalVar(slot) => {
                    match self.capture_local(slot) {
                        Ok(h) => {
                            proof {
                                self.lemma_captured_trans(&before, old(self));
                            }
                            h
                        },
                        Err(e) => {
                            proof {
                                assert(descs[i as int].ty == d.ty);
                                assert(self.capture_fails(descs[i as int]));
                                assert(self.captured_upto(old(self), descs, taken, i as int));
                            }
                            return Err(e);
                        },
                    }
                },
                IRUpValType::UpVal(slot) => {
                    proof {
                        assert(descs[i as int].ty == d.ty);
                    }
                    self.call_stack[n - 1].upvalues[slot]
                },
            };
            captured.push(h);
            proof {
                assert(descs[i as int] == d);
                assert(self.captured_step(&before, descs[i as int], h));
                before.lemma_captured_upto_prefix(old(self), descs, taken, captured@, i as int);
                assert(captured@[i + 1 - 1] == h);
                assert(self.captured_step(&before, descs[i + 1 - 1], captured@[i + 1 - 1]));
                assert(before.captured_upto(old(self), descs, captured@, i + 1 - 1));
                assert(self.captured_upto(old(self), descs, captured@, i + 1));
            }
            proof {
                let frame = self.top();
                assert forall|j: int| 0 <= j < i + 1 implies match (#[trigger] descs[j]).ty {
                    IRUpValType::LocalVar(slot) => spec_lists(
                        frame,
                        captured@[j],
                        (frame.base_offset + slot) as usize,
                    ),
                    IRUpValType::UpVal(slot) => slot < frame.upvalues@.len() && captured@[j]
                        == frame.upvalues@[slot as int],
                } by {
                    if j < i {
                        assert(captured@[j] == taken[j]);
                        match descs[j].ty {
                            IRUpValType::LocalVar(slot) => {
                                let idx = (frame.base_offset + slot) as usize;
                                assert(spec_lists(before.top(), taken[j], idx));
                                let e = choose|e: int|
                                    0 <= e < before.top().out_upvalues@.len() && (
                                    #[trigger] before.top().out_upvalues@[e]).1 == taken[j]
                                        && before.top().out_upvalues@[e].0 < before.top().reg_count
                                        && idx == before.top().base_offset
                                        + before.top().out_upvalues@[e].0;
                                assert(frame.out_upvalues@.contains(before.top().out_upvalues@[e]));
                                let e2 = choose|e2: int|
                                    0 <= e2 < frame.out_upvalues@.len() && frame.out_upvalues@[e2]
                                        == before.top().out_upvalues@[e];
                                assert(frame.out_upvalues@[e2].1 == taken[j]);
                            },
                            IRUpValType::UpVal(slot) => {},
                        }
                    }
                }
                assert(i * UPVALUE_HEADER_SIZE + UPVALUE_HEADER_SIZE == (i + 1)
                    * UPVALUE_HEADER_SIZE) by (nonlinear_arith);
            }
            i += 1;
        }
        Ok(captured)
    }

    fn resolve_prototype(&self, proto_idx: u16) -> (r: Result<usize, VMError>)
        requires
            self.call_stack@.len() > 0,
        ensures
            match r {
                Ok(sm) => self.spec_prototype(proto_idx as int) == Some(sm as int) && sm
                    < self.func_meta@.len(),
                Err(e) => self.spec_prototype(proto_idx as int) is None && e.kind is InternalError
                    && self.locates(e),
            },
    {
        let n = self.call_stack.len();
        let cm = match self.meta_index(&self.call_stack[n - 1].func_name) {
            Some(m) => m,
            None => {
                return Err(
                    self.internal(
                        "ResolutionException: failed to resolve metadata for current execution context",
                    ),
                );
            },
        };
        if proto_idx as usize >= self.func_meta[cm].1.child_protos.len() {
            return Err(
                self.internal(
                    "IndexOutOfBoundsException: function prototype index is out of range",
                ),
            );
        }
        match self.meta_index(&self.func_meta[cm].1.child_protos[proto_idx as usize]) {
            Some(m) => Ok(m),
            None => Err(
                self.internal(
                    "LinkageError: symbolic reference to sub-prototype could not be resolved",
                ),
            ),
        }
    }

    /// Whether the machine is `old` after a closure of the prototype `sm`
    /// with the given captured variables was allocated and register `dest` got
    /// it.
    pub open spec fn instantiated(
        &self,
        old: &VirtualMachine,
        sm: int,
        captured: Seq<usize>,
        dest: int,
    ) -> bool {
        let meta = old.func_meta@[sm].1;
        let h = old.heap.all_objects@.len() as usize;
        &&& self.same_context(old)
        &&& self.top().pc == old.top().pc + 1
        &&& self.pending == old.pending
        &&& self.value_stack.values@ == old.value_stack.values@.update(
            old.top().base_offset + dest,
            LuaValue::Function(h),
        )
        &&& self.heap.all_objects@.len() == h + 1
        &&& self.heap.all_objects@.subrange(0, h as int) == old.heap.all_objects@
        &&& self.heap.string_pool == old.heap.string_pool
        &&& self.heap.threshold == old.heap.threshold
        &&& self.heap.total_allocated == old.heap.total_allocated + spec_function_size(
            meta.bytecode@.len(),
            meta.constants@.len(),
        )
        &&& self.heap.max_allocated == crate::backend::vm::heap::spec_peak(
            old.heap.max_allocated,
            self.heap.total_allocated,
        )
        &&& !self.heap.all_objects@[h as int]->0.mark
        &&& self.heap.all_objects@[h as int]->0.size == spec_function_size(
            meta.bytecode@.len(),
            meta.constants@.len(),
        )
        &&& spec_function_at(self.heap.all_objects@, h) is Some
        &&& spec_function_at(self.heap.all_objects@, h)->0.name@ == old.func_meta@[sm].0@
        &&& spec_function_at(self.heap.all_objects@, h)->0.opcodes@ == meta.bytecode@
        &&& spec_function_at(self.heap.all_objects@, h)->0.constants@ == meta.constants@
        &&& spec_function_at(self.heap.all_objects@, h)->0.num_locals == meta.num_locals
        &&& spec_function_at(self.heap.all_objects@, h)->0.max_stack_size == meta.max_stack_size
        &&& spec_function_at(self.heap.all_objects@, h)->0.upvalues@ == captured
    }

    fn instantiate(&mut self, sm: usize, captured: Vec<usize>, dest: u16) -> (r: Result<(), VMError>)
        requires
            old(self).running(),
            sm < old(self).func_meta@.len(),
            old(self).has_reg(dest as int),
        ensures
            final(self).wf(),
            match r {
                Ok(()) => final(self).instantiated(old(self), sm as int, captured@, dest as int),
                Err(e) => e.kind is OutOfMemory && old(self).locates(e) && *final(self) == *old(self) && old(self).heap.total_allocated + spec_function_size(
                    old(self).func_meta@[sm as int].1.bytecode@.len(),
                    old(self).func_meta@[sm as int].1.constants@.len(),
                ) > HARD_MEMORY_LIMIT,
            },
    {
        let n = self.call_stack.len();
        let new_func = LFunction {
            name: self.func_meta[sm].0.clone(),
            opcodes: copy_opcodes(&self.func_meta[sm].1.bytecode),
            constants: copy_values(&self.func_meta[sm].1.constants),
            upvalues: captured,
            num_locals: self.func_meta[sm].1.num_locals,
            max_stack_size: self.func_meta[sm].1.max_stack_size,
        };
        let h = match self.heap.alloc_function(new_func) {
            Some(h) => h,
            None => {
                return Err(self.error(ErrorKind::OutOfMemory));
            },
        };
        proof {
            let objs = self.heap.all_objects@;
            let before = old(self).heap.all_objects@;
            assert(objs.subrange(0, before.len() as int) =~= before);
            assert forall|x: usize|
                (#[trigger] spec_open_at(objs, x)) is Some implies spec_open_at(before, x)
                == spec_open_at(objs, x) by {}
            self.lemma_heap_change(old(self));
        }
        let ghost allocated = *self;
        self.call_stack[n - 1].set_reg(dest as usize, LuaValue::Function(h), &mut self.value_stack);
        self.call_stack[n - 1].pc = self.call_stack[n - 1].pc + 1;
        proof {
            self.lemma_same_frames(&allocated);
        }
        Ok(())
    }

    /// How the closure of prototype `sm` is made on machine `old`, step by
    /// step: the upvalue objects that the prototype's descriptors ask for are
    /// taken one after the other, and then the closure is allocated and
    /// register `dest` refers to it. Where an upvalue object or the closure
    /// does not fit the heap, the result is an error and the machine stays
    /// as the steps before have left it.
    pub open spec fn closure_made(
        &self,
        old: &VirtualMachine,
        r: Result<(), VMError>,
        sm: int,
        dest: u16,
    ) -> bool {
        let meta = old.func_meta@[sm].1;
        let descs = meta.upvalues_metadata@;
        exists|caught: VirtualMachine, handles: Seq<usize>, i: int|
            #![trigger caught.captured_upto(old, descs, handles, i)]
            {
                &&& 0 <= i <= descs.len()
                &&& caught.captured_upto(old, descs, handles, i)
                &&& match r {
                    Ok(()) => i == descs.len() && handles.len() == i && self.instantiated(
                        &caught,
                        sm,
                        handles,
                        dest as int,
                    ),
                    Err(e) => *self == caught && e.kind is OutOfMemory && if i < descs.len() {
                        caught.capture_fails(descs[i])
                    } else {
                        caught.heap.total_allocated + spec_function_size(
                            meta.bytecode@.len(),
                            meta.constants@.len(),
                        ) > HARD_MEMORY_LIMIT
                    },
                }
            }
    }

    /// What `FnProto` does to machine `old`, step by step: where the
    /// prototype is known, the register is there and the descriptors name
    /// registers and captured variables that the top frame has, the closure is
    /// made as [`VirtualMachine::closure_made`] says.
    pub open spec fn fn_proto_steps(
        &self,
        old: &VirtualMachine,
        r: Result<(), VMError>,
        dest: u16,
        proto_idx: u16,
    ) -> bool {
        match old.spec_prototype(proto_idx as int) {
            None => true,
            Some(sm) => !old.has_reg(dest as int) || !spec_descriptors_valid(
                old.top(),
                old.func_meta@[sm].1.upvalues_metadata@,
            ) || self.closure_made(old, r, sm, dest),
        }
    }

    fn capture_and_instantiate(&mut self, sm: usize, dest: u16, proto_idx: u16) -> (r: Result<
        (),
        VMError,
    >)
        requires
            old(self).running(),
            old(self).spec_prototype(proto_idx as int) == Some(sm as int),
            sm < old(self).func_meta@.len(),
            old(self).has_reg(dest as int),
            spec_descriptors_valid(
                old(self).top(),
                old(self).func_meta@[sm as int].1.upvalues_metadata@,
            ),
        ensures
            final(self).wf(),
            final(self).fn_proto_outcome(old(self), r, dest, proto_idx),
            final(self).closure_made(old(self), r, sm as int, dest),
    {
        let ghost descs = self.func_meta@[sm as int].1.upvalues_metadata@;
        let captured = match self.capture_all(sm) {
            Ok(c) => c,
            Err(e) => {
                proof {
                    self.lemma_fn_proto_failed(old(self), e, dest, proto_idx);
                    let pair = choose|handles: Seq<usize>, i: int|
                        #![trigger self.captured_upto(old(self), descs, handles, i)]
                        0 <= i < descs.len() && self.captured_upto(old(self), descs, handles, i)
                            && self.capture_fails(descs[i]);
                    assert(self.captured_upto(old(self), descs, pair.0, pair.1));
                }
                return Err(e);
            },
        };
        let ghost caught = *self;
        let ghost handles = captured@;
        match self.instantiate(sm, captured, dest) {
            Ok(()) => {
                proof {
                    self.lemma_fn_proto_done(
                        old(self),
                        &caught,
                        sm as int,
                        handles,
                        dest,
                        proto_idx,
                    );
                    assert(caught.captured_upto(old(self), descs, handles, descs.len() as int));
                }
                Ok(())
            },
            Err(e) => {
                proof {
                    self.lemma_fn_proto_failed(old(self), e, dest, proto_idx);
                    assert(caught.captured_upto(old(self), descs, handles, descs.len() as int));
                }
                Err(e)
            },
        }
    }

    /// `FnProto`; see [`VirtualMachine::fn_proto_outcome`] and
    /// [`VirtualMachine::fn_proto_steps`].
    pub fn handle_fn_proto(&mut self, dest: u16, proto_idx: u16) -> (r: Result<(), VMError>)
        requires
            old(self).running(),
        ensures
            final(self).wf(),
            final(self).fn_proto_outcome(old(self), r, dest, proto_idx),
            final(self).fn_proto_steps(old(self), r, dest, proto_idx),
    {
        let n = self.call_stack.len();
        let sm = match self.resolve_prototype(proto_idx) {
            Ok(sm) => sm,
            Err(e) => {
                proof {
                    self.lemma_fn_proto_failed(old(self), e, dest, proto_idx);
                }
                return Err(e);
            },
        };
        if dest as usize >= self.call_stack[n - 1].reg_count {
            let e = self.internal("register out of range");
            proof {
                self.lemma_fn_proto_failed(old(self), e, dest, proto_idx);
            }
            return Err(e);
        }
        if !self.descriptors_valid(sm) {
            let e = self.internal("upvalue descriptor out of range");
            proof {
                self.lemma_fn_proto_failed(old(self), e, dest, proto_idx);
            }
            return Err(e);
        }
        self.capture_and_instantiate(sm, dest, proto_idx)
    }

    /// The ways in which `FnProto` fails.
    pub proof fn lemma_fn_proto_failed(
        &self,
        old: &VirtualMachine,
        e: VMError,
        dest: u16,
        proto_idx: u16,
    )
        requires
            old.locates(e),
            e.kind is InternalError ==> *self == *old,
            match old.spec_prototype(proto_idx as int) {
                None => e.kind is InternalError,
                Some(sm) => if !old.has_reg(dest as int) || !spec_descriptors_valid(
                    old.top(),
                    old.func_meta@[sm].1.upvalues_metadata@,
                ) {
                    e.kind is InternalError
                } else {
                    e.kind is OutOfMemory && old.heap.total_allocated + old.func_meta@[sm].1.upvalues_metadata@.len()
                        * UPVALUE_HEADER_SIZE + spec_function_size(
                        old.func_meta@[sm].1.bytecode@.len(),
                        old.func_meta@[sm].1.constants@.len(),
                    ) > HARD_MEMORY_LIMIT
                },
            },
        ensures
            self.fn_proto_outcome(old, Err(e), dest, proto_idx),
    {
        reveal(VirtualMachine::fn_proto_outcome);
    }

    /// Capturing and then instantiating is what `FnProto` does.
    pub proof fn lemma_fn_proto_done(
        &self,
        old: &VirtualMachine,
        caught: &VirtualMachine,
        sm: int,
        handles: Seq<usize>,
        dest: u16,
        proto_idx: u16,
    )
        requires
            old.call_stack@.len() > 0,
            old.spec_prototype(proto_idx as int) == Some(sm),
            0 <= sm < old.func_meta@.len(),
            old.has_reg(dest as int),
            spec_descriptors_valid(old.top(), old.func_meta@[sm].1.upvalues_metadata@),
            caught.captured_into(old),
            self.instantiated(caught, sm, handles, dest as int),
            handles.len() == old.func_meta@[sm].1.upvalues_metadata@.len(),
            spec_captures(
                caught.top(),
                old.func_meta@[sm].1.upvalues_metadata@,
                handles,
                handles.len() as int,
            ),
        ensures
            self.fn_proto_outcome(old, Ok(()), dest, proto_idx),
    {
        reveal(VirtualMachine::fn_proto_outcome);
        reveal(VirtualMachine::captured_into);
        let m = old.call_stack@.len();
        let descs = old.func_meta@[sm].1.upvalues_metadata@;
        let objs = self.heap.all_objects@;
        let before = caught.heap.all_objects@;
        assert forall|i: int| 0 <= i < m - 1 implies self.call_stack@[i] == old.call_stack@[i] by {
            assert(caught.call_stack@[i] == old.call_stack@[i]);
        }
        assert(objs.subrange(0, old.heap.all_objects@.len() as int) =~= old.heap.all_objects@) by {
            assert forall|i: int| 0 <= i < old.heap.all_objects@.len() implies objs[i]
                == old.heap.all_objects@[i] by {
                assert(before.subrange(0, old.heap.all_objects@.len() as int)[i] == before[i]);
                assert(objs.subrange(0, before.len() as int)[i] == objs[i]);
            }
        }
        assert(self.top().out_upvalues == caught.top().out_upvalues);
        assert forall|j: int| 0 <= j < descs.len() implies match (#[trigger] descs[j]).ty {
            IRUpValType::LocalVar(slot) => spec_lists(
                self.top(),
                handles[j],
                (self.top().base_offset + slot) as usize,
            ),
            IRUpValType::UpVal(slot) => slot < self.top().upvalues@.len() && handles[j]
                == self.top().upvalues@[slot as int],
        } by {
            match descs[j].ty {
                IRUpValType::LocalVar(slot) => {
                    let idx = (self.top().base_offset + slot) as usize;
                    assert(spec_lists(caught.top(), handles[j], idx));
                },
                IRUpValType::UpVal(slot) => {},
            }
        }
    }
}

} // verus!
